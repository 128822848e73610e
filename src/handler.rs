use vstd::prelude::*;
use core::future::Future;

verus! {

/// A capability that consumes one request and asynchronously produces one
/// response or a failure.
pub trait Handler<Req, Resp>: Sized {
    /// The failure the handler may resolve to.
    type Error;

    /// The future returned by `call`.
    type Fut: Future<Output = Result<Resp, Self::Error>>;

    /// Whether this handler may be called on `req`.
    spec fn accepts(&self, req: &Req) -> bool;

    /// Whether `fut` is what this handler gives back on `req`.
    spec fn gives(&self, req: &Req, fut: &Self::Fut) -> bool;

    /// Handles one request, taking ownership of it.
    fn call(self, req: Req) -> (fut: Self::Fut)
        requires
            self.accepts(&req),
        ensures
            self.gives(&req, &fut),
    ;
}

/// Any function or closure from a request to a future of a result is a handler.
impl<Req, Resp, E, Fut, F> Handler<Req, Resp> for F where
    F: FnOnce(Req) -> Fut,
    Fut: Future<Output = Result<Resp, E>>,
 {
    type Error = E;

    type Fut = Fut;

    open spec fn accepts(&self, req: &Req) -> bool {
        call_requires(*self, (*req,))
    }

    /// The closure's own future on `req`.
    open spec fn gives(&self, req: &Req, fut: &Fut) -> bool {
        call_ensures(*self, (*req,), *fut)
    }

    fn call(self, req: Req) -> (fut: Fut) {
        (self)(req)
    }
}

} // verus!
