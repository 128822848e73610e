use vstd::prelude::*;
use vstd::utf8::encode_utf8;
use crate::error::Error;

verus! {

/// Text put in front of the message of a transport or serialization failure.
pub const RUNTIME_ERROR_PREFIX: &'static str = "Runtime error: ";

/// How far one request has come.
#[derive(PartialEq, Eq, Structural, Clone, Copy, Debug)]
pub enum Stage {
    /// Waiting for the whole request body.
    ReadingBody,
    /// Waiting for the body to be decoded into a request value.
    Decoding,
    /// Waiting for the handler's result.
    Invoking,
    /// Waiting for the response value to be encoded.
    Encoding,
    /// The response has been handed out.
    Done,
}

/// What the transport, the decoder, the handler or the encoder report back.
pub enum Event<Req, Resp> {
    /// The whole request body was read.
    BodyRead(Vec<u8>),
    /// Reading the request body failed.
    ReadFailed(Error),
    /// The body decoded into a request value.
    Decoded(Req),
    /// The body did not decode.
    DecodeFailed(Error),
    /// The handler resolved to a response value.
    Completed(Resp),
    /// The handler resolved to a failure, given by its display text.
    Failed(Error),
    /// The response value was encoded.
    Encoded(Vec<u8>),
    /// Encoding the response value failed.
    EncodeFailed(Error),
}

/// What the exchange asks to be done next.
pub enum Action<Req, Resp> {
    /// Read the complete request body.
    ReadBody,
    /// Decode these bytes into a request value.
    Decode(Vec<u8>),
    /// Call the handler once, with this request.
    Invoke(Req),
    /// Encode this response value.
    Encode(Resp),
    /// Write this body as the response; the exchange is over.
    Respond(Vec<u8>),
}

/// An action as a value, with its bytes as a sequence.
pub enum Step<Req, Resp> {
    /// Read the complete request body.
    ReadBody,
    /// Decode these bytes.
    Decode(Seq<u8>),
    /// Call the handler with this request.
    Invoke(Req),
    /// Encode this response value.
    Encode(Resp),
    /// Respond with these bytes.
    Respond(Seq<u8>),
}

impl<Req, Resp> View for Action<Req, Resp> {
    type V = Step<Req, Resp>;

    open spec fn view(&self) -> Step<Req, Resp> {
        match self {
            Action::ReadBody => Step::ReadBody,
            Action::Decode(body) => Step::Decode(body@),
            Action::Invoke(req) => Step::Invoke(*req),
            Action::Encode(resp) => Step::Encode(*resp),
            Action::Respond(body) => Step::Respond(body@),
        }
    }
}

/// The bytes of a response that reports a transport or serialization failure.
pub open spec fn runtime_error_bytes(message: Seq<char>) -> Seq<u8> {
    encode_utf8(RUNTIME_ERROR_PREFIX@) + encode_utf8(message)
}

/// Whether `event` is one that an exchange at `stage` waits for.
pub open spec fn fits<Req, Resp>(stage: Stage, event: Event<Req, Resp>) -> bool {
    match event {
        Event::BodyRead(_) | Event::ReadFailed(_) => stage == Stage::ReadingBody,
        Event::Decoded(_) | Event::DecodeFailed(_) => stage == Stage::Decoding,
        Event::Completed(_) | Event::Failed(_) => stage == Stage::Invoking,
        Event::Encoded(_) | Event::EncodeFailed(_) => stage == Stage::Encoding,
    }
}

/// The stage an exchange moves to on a fitting `event`.
pub open spec fn after<Req, Resp>(event: Event<Req, Resp>) -> Stage {
    match event {
        Event::BodyRead(_) => Stage::Decoding,
        Event::Decoded(_) => Stage::Invoking,
        Event::Completed(_) => Stage::Encoding,
        _ => Stage::Done,
    }
}

/// The action an exchange asks for on a fitting `event`: every failure
/// becomes a response carrying its message, the handler's own failure verbatim.
pub open spec fn reaction<Req, Resp>(event: Event<Req, Resp>) -> Step<Req, Resp> {
    match event {
        Event::BodyRead(body) => Step::Decode(body@),
        Event::ReadFailed(e) => Step::Respond(runtime_error_bytes(e@)),
        Event::Decoded(req) => Step::Invoke(req),
        Event::DecodeFailed(e) => Step::Respond(runtime_error_bytes(e@)),
        Event::Completed(resp) => Step::Encode(resp),
        Event::Failed(e) => Step::Respond(encode_utf8(e@)),
        Event::Encoded(bytes) => Step::Respond(bytes@),
        Event::EncodeFailed(e) => Step::Respond(runtime_error_bytes(e@)),
    }
}

/// Appends the UTF-8 bytes of `text` to `out`.
fn push_text(out: &mut Vec<u8>, text: &str)
    ensures
        final(out)@ == old(out)@ + encode_utf8(text@),
{
    let bytes = text.as_bytes();
    let mut i: usize = 0;
    while i < bytes.len()
        invariant
            0 <= i <= bytes@.len(),
            bytes@ == encode_utf8(text@),
            out@ == old(out)@ + bytes@.subrange(0, i as int),
        decreases bytes@.len() - i,
    {
        out.push(bytes[i]);
        i += 1;
        assert(bytes@.subrange(0, i as int) =~= bytes@.subrange(0, i - 1).push(bytes@[i - 1]));
    }
    assert(bytes@.subrange(0, i as int) =~= bytes@);
}

/// The body of a response that reports a transport or serialization failure:
/// the runtime prefix, then the failure's message.
pub fn runtime_error_body(e: &Error) -> (body: Vec<u8>)
    ensures
        body@ == runtime_error_bytes(e@),
{
    let mut body: Vec<u8> = Vec::new();
    push_text(&mut body, RUNTIME_ERROR_PREFIX);
    push_text(&mut body, e.message());
    body
}

/// The body of a response that reports the handler's own failure: its
/// message, verbatim.
pub fn failure_body(e: &Error) -> (body: Vec<u8>)
    ensures
        body@ == encode_utf8(e@),
{
    let mut body: Vec<u8> = Vec::new();
    push_text(&mut body, e.message());
    body
}

/// The progress of one request through the pipeline. Each request has an
/// exchange of its own; exchanges share nothing.
pub struct Exchange {
    stage: Stage,
}

impl View for Exchange {
    type V = Stage;

    closed spec fn view(&self) -> Stage {
        self.stage
    }
}

impl Exchange {
    /// Starts an exchange whose request arrives as a structured-data body:
    /// the body is read first.
    pub fn json<Req, Resp>() -> (r: (Exchange, Action<Req, Resp>))
        ensures
            r.0@ == Stage::ReadingBody,
            r.1@ == Step::<Req, Resp>::ReadBody,
    {
        (Exchange { stage: Stage::ReadingBody }, Action::ReadBody)
    }

    /// Starts an exchange on the transport's own request: nothing is read or
    /// decoded, the request goes to the handler as it is.
    pub fn raw<Req, Resp>(req: Req) -> (r: (Exchange, Action<Req, Resp>))
        ensures
            r.0@ == Stage::Invoking,
            r.1@ == Step::<Req, Resp>::Invoke(req),
    {
        (Exchange { stage: Stage::Invoking }, Action::Invoke(req))
    }

    /// The stage this exchange is at.
    pub fn stage(&self) -> (s: Stage)
        ensures
            s == self@,
    {
        self.stage
    }

    /// Whether the response has been handed out.
    pub fn is_done(&self) -> (b: bool)
        ensures
            b == (self@ == Stage::Done),
    {
        self.stage == Stage::Done
    }

    /// Takes in one event. An event the exchange waits for moves it on and
    /// yields the next action; any other leaves it as it is and yields `None`.
    pub fn step<Req, Resp>(&mut self, event: Event<Req, Resp>) -> (r: Option<Action<Req, Resp>>)
        ensures
            fits(old(self)@, event) ==> (r matches Some(a) && a@ == reaction(event)),
            fits(old(self)@, event) ==> final(self)@ == after(event),
            !fits(old(self)@, event) ==> r is None && final(self)@ == old(self)@,
    {
        let expected = match &event {
            Event::BodyRead(_) | Event::ReadFailed(_) => Stage::ReadingBody,
            Event::Decoded(_) | Event::DecodeFailed(_) => Stage::Decoding,
            Event::Completed(_) | Event::Failed(_) => Stage::Invoking,
            Event::Encoded(_) | Event::EncodeFailed(_) => Stage::Encoding,
        };
        if self.stage != expected {
            return None;
        }
        let (next, action) = match event {
            Event::BodyRead(body) => (Stage::Decoding, Action::Decode(body)),
            Event::ReadFailed(e) => (Stage::Done, Action::Respond(runtime_error_body(&e))),
            Event::Decoded(req) => (Stage::Invoking, Action::Invoke(req)),
            Event::DecodeFailed(e) => (Stage::Done, Action::Respond(runtime_error_body(&e))),
            Event::Completed(resp) => (Stage::Encoding, Action::Encode(resp)),
            Event::Failed(e) => (Stage::Done, Action::Respond(failure_body(&e))),
            Event::Encoded(bytes) => (Stage::Done, Action::Respond(bytes)),
            Event::EncodeFailed(e) => (Stage::Done, Action::Respond(runtime_error_body(&e))),
        };
        self.stage = next;
        Some(action)
    }
}

} // verus!
