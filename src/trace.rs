use vstd::prelude::*;
use vstd::utf8::encode_utf8;
use crate::error::Error;
use crate::pipeline::{Event, Stage, Step, fits, after, reaction, runtime_error_bytes, RUNTIME_ERROR_PREFIX};

verus! {

/// The actions an exchange at `stage` asks for when fed `events` in order;
/// events it does not wait for are passed over.
pub open spec fn walk<Req, Resp>(stage: Stage, events: Seq<Event<Req, Resp>>) -> Seq<Step<Req, Resp>>
    decreases events.len(),
{
    if events.len() == 0 {
        Seq::empty()
    } else if fits(stage, events[0]) {
        seq![reaction(events[0])] + walk(after(events[0]), events.drop_first())
    } else {
        walk(stage, events.drop_first())
    }
}

/// Everything a structured-data exchange asks for, from its start.
pub open spec fn json_trace<Req, Resp>(events: Seq<Event<Req, Resp>>) -> Seq<Step<Req, Resp>> {
    seq![Step::ReadBody] + walk(Stage::ReadingBody, events)
}

/// Everything a raw exchange on `req` asks for, from its start.
pub open spec fn raw_trace<Req, Resp>(req: Req, events: Seq<Event<Req, Resp>>) -> Seq<Step<Req, Resp>> {
    seq![Step::Invoke(req)] + walk(Stage::Invoking, events)
}

/// How many of `steps` are of the kind `kind` picks out.
pub open spec fn count_of<Req, Resp>(steps: Seq<Step<Req, Resp>>, kind: spec_fn(Step<Req, Resp>) -> bool) -> nat
    decreases steps.len(),
{
    if steps.len() == 0 {
        0
    } else {
        (if kind(steps[0]) { 1nat } else { 0nat }) + count_of(steps.drop_first(), kind)
    }
}

/// How many times `steps` call the handler.
pub open spec fn invocations<Req, Resp>(steps: Seq<Step<Req, Resp>>) -> nat {
    count_of(steps, |s: Step<Req, Resp>| s is Invoke)
}

/// How many times `steps` encode a response value.
pub open spec fn encodings<Req, Resp>(steps: Seq<Step<Req, Resp>>) -> nat {
    count_of(steps, |s: Step<Req, Resp>| s is Encode)
}

/// How many responses `steps` hand out.
pub open spec fn responses<Req, Resp>(steps: Seq<Step<Req, Resp>>) -> nat {
    count_of(steps, |s: Step<Req, Resp>| s is Respond)
}

/// The order of the stages.
pub open spec fn rank(stage: Stage) -> int {
    match stage {
        Stage::ReadingBody => 0,
        Stage::Decoding => 1,
        Stage::Invoking => 2,
        Stage::Encoding => 3,
        Stage::Done => 4,
    }
}

proof fn lemma_count_cons<Req, Resp>(
    s: Step<Req, Resp>,
    rest: Seq<Step<Req, Resp>>,
    kind: spec_fn(Step<Req, Resp>) -> bool,
)
    ensures
        count_of(seq![s] + rest, kind) == (if kind(s) { 1nat } else { 0nat }) + count_of(rest, kind),
{
    assert((seq![s] + rest).drop_first() =~= rest);
}

proof fn lemma_invocations_cons<Req, Resp>(s: Step<Req, Resp>, rest: Seq<Step<Req, Resp>>)
    ensures
        invocations(seq![s] + rest) == (if s is Invoke { 1nat } else { 0nat }) + invocations(rest),
{
    lemma_count_cons(s, rest, |s: Step<Req, Resp>| s is Invoke);
}

proof fn lemma_walk_cons<Req, Resp>(stage: Stage, e: Event<Req, Resp>, rest: Seq<Event<Req, Resp>>)
    ensures
        walk(stage, seq![e] + rest) == if fits(stage, e) {
            seq![reaction(e)] + walk(after(e), rest)
        } else {
            walk(stage, rest)
        },
{
    assert((seq![e] + rest).drop_first() =~= rest);
}

/// A fitting event moves an exchange strictly forward.
proof fn lemma_forward<Req, Resp>(stage: Stage, e: Event<Req, Resp>)
    requires
        fits(stage, e),
    ensures
        rank(after(e)) > rank(stage),
{
}

/// An exchange past decoding calls the handler no more, one past invoking
/// encodes no more, and a finished one responds no more; before that, each
/// happens at most once.
proof fn lemma_counts_bound<Req, Resp>(stage: Stage, events: Seq<Event<Req, Resp>>)
    ensures
        invocations(walk(stage, events)) <= (if rank(stage) <= 1 { 1nat } else { 0nat }),
        encodings(walk(stage, events)) <= (if rank(stage) <= 2 { 1nat } else { 0nat }),
        responses(walk(stage, events)) <= (if rank(stage) <= 3 { 1nat } else { 0nat }),
    decreases events.len(),
{
    if events.len() > 0 {
        let e = events[0];
        lemma_counts_bound(stage, events.drop_first());
        if fits(stage, e) {
            let w = walk(after(e), events.drop_first());
            lemma_forward(stage, e);
            lemma_counts_bound(after(e), events.drop_first());
            lemma_count_cons(reaction(e), w, |s: Step<Req, Resp>| s is Invoke);
            lemma_count_cons(reaction(e), w, |s: Step<Req, Resp>| s is Encode);
            lemma_count_cons(reaction(e), w, |s: Step<Req, Resp>| s is Respond);
        }
    }
}

/// A finished exchange asks for nothing more.
proof fn lemma_done_is_silent<Req, Resp>(events: Seq<Event<Req, Resp>>)
    ensures
        walk(Stage::Done, events) == Seq::<Step<Req, Resp>>::empty(),
    decreases events.len(),
{
    if events.len() > 0 {
        lemma_done_is_silent(events.drop_first());
    }
}

/// An exchange past reading never asks for a decode.
proof fn lemma_no_decode_after_read<Req, Resp>(stage: Stage, events: Seq<Event<Req, Resp>>)
    requires
        rank(stage) >= 1,
    ensures
        forall|i: int| 0 <= i < walk(stage, events).len() ==> !(#[trigger] walk(stage, events)[i] is Decode),
    decreases events.len(),
{
    if events.len() > 0 {
        let e = events[0];
        lemma_no_decode_after_read(stage, events.drop_first());
        if fits(stage, e) {
            lemma_forward(stage, e);
            lemma_no_decode_after_read(after(e), events.drop_first());
        }
    }
}

/// Whatever events come, an exchange of either kind encodes at most one
/// response value and hands out at most one response.
pub proof fn lemma_single_response<Req, Resp>(req: Req, events: Seq<Event<Req, Resp>>)
    ensures
        encodings(json_trace(events)) <= 1,
        responses(json_trace(events)) <= 1,
        encodings(raw_trace(req, events)) <= 1,
        responses(raw_trace(req, events)) <= 1,
{
    let wj = walk(Stage::ReadingBody, events);
    let wr = walk(Stage::Invoking, events);
    lemma_counts_bound(Stage::ReadingBody, events);
    lemma_counts_bound(Stage::Invoking, events);
    lemma_count_cons(Step::ReadBody, wj, |s: Step<Req, Resp>| s is Encode);
    lemma_count_cons(Step::ReadBody, wj, |s: Step<Req, Resp>| s is Respond);
    lemma_count_cons(Step::Invoke(req), wr, |s: Step<Req, Resp>| s is Encode);
    lemma_count_cons(Step::Invoke(req), wr, |s: Step<Req, Resp>| s is Respond);
}

/// Exactly-once dispatch: whatever events come, a structured-data exchange
/// calls the handler at most once, and once its body has been read and
/// decoded it calls the handler with exactly the decoded request; a raw
/// exchange calls the handler exactly once.
pub proof fn lemma_dispatch_exactly_once<Req, Resp>(
    bytes: Vec<u8>,
    req: Req,
    events: Seq<Event<Req, Resp>>,
)
    ensures
        invocations(json_trace(events)) <= 1,
        invocations(raw_trace(req, events)) == 1,
        ({
            let trace = json_trace(seq![Event::BodyRead(bytes), Event::Decoded(req)] + events);
            &&& invocations(trace) == 1
            &&& trace[1] == Step::<Req, Resp>::Decode(bytes@)
            &&& trace[2] == Step::<Req, Resp>::Invoke(req)
        }),
{
    lemma_counts_bound(Stage::ReadingBody, events);
    lemma_invocations_cons(Step::ReadBody, walk(Stage::ReadingBody, events));
    lemma_counts_bound(Stage::Invoking, events);
    lemma_invocations_cons(Step::Invoke(req), walk(Stage::Invoking, events));
    let evs = seq![Event::BodyRead(bytes), Event::Decoded(req)] + events;
    assert(evs =~= seq![Event::BodyRead(bytes)] + (seq![Event::Decoded(req)] + events));
    lemma_walk_cons(Stage::ReadingBody, Event::BodyRead(bytes), seq![Event::Decoded(req)] + events);
    lemma_walk_cons(Stage::Decoding, Event::<Req, Resp>::Decoded(req), events);
    let tail = walk(Stage::Invoking, events);
    let w = walk(Stage::ReadingBody, evs);
    assert(w =~= seq![Step::Decode(bytes@)] + (seq![Step::Invoke(req)] + tail));
    lemma_invocations_cons(Step::Invoke(req), tail);
    lemma_invocations_cons(Step::Decode(bytes@), seq![Step::Invoke(req)] + tail);
    lemma_invocations_cons(Step::ReadBody, w);
}

/// Malformed input: when the body does not decode, the exchange answers with
/// the runtime prefix followed by the decoder's message, never calls the
/// handler, and then asks for nothing more.
pub proof fn lemma_malformed_body_answered<Req, Resp>(
    bytes: Vec<u8>,
    e: Error,
    events: Seq<Event<Req, Resp>>,
)
    ensures
        ({
            let trace = json_trace(seq![Event::BodyRead(bytes), Event::DecodeFailed(e)] + events);
            &&& trace == seq![
                Step::<Req, Resp>::ReadBody,
                Step::Decode(bytes@),
                Step::Respond(runtime_error_bytes(e@)),
            ]
            &&& invocations(trace) == 0
        }),
        runtime_error_bytes(e@).subrange(
            encode_utf8(RUNTIME_ERROR_PREFIX@).len() as int,
            runtime_error_bytes(e@).len() as int,
        ) == encode_utf8(e@),
{
    let evs = seq![Event::BodyRead(bytes), Event::DecodeFailed(e)] + events;
    assert(evs =~= seq![Event::BodyRead(bytes)] + (seq![Event::DecodeFailed(e)] + events));
    lemma_walk_cons(Stage::ReadingBody, Event::BodyRead(bytes), seq![Event::DecodeFailed(e)] + events);
    lemma_walk_cons(Stage::Decoding, Event::<Req, Resp>::DecodeFailed(e), events);
    lemma_done_is_silent::<Req, Resp>(events);
    let r = Step::<Req, Resp>::Respond(runtime_error_bytes(e@));
    let trace = json_trace(evs);
    assert(trace =~= seq![Step::ReadBody, Step::Decode(bytes@), r]);
    lemma_invocations_cons(Step::ReadBody, seq![Step::Decode(bytes@), r]);
    lemma_invocations_cons(Step::Decode(bytes@), seq![r]);
    lemma_invocations_cons(r, Seq::empty());
    assert(seq![r] =~= seq![r] + Seq::empty());
    assert(seq![Step::Decode(bytes@), r] =~= seq![Step::Decode(bytes@)] + seq![r]);
    assert(seq![Step::ReadBody, Step::Decode(bytes@), r] =~= seq![Step::ReadBody] + seq![
        Step::Decode(bytes@),
        r,
    ]);
    assert(runtime_error_bytes(e@).subrange(
        encode_utf8(RUNTIME_ERROR_PREFIX@).len() as int,
        runtime_error_bytes(e@).len() as int,
    ) =~= encode_utf8(e@));
}

/// Application failure: once the handler has been called, a failure it
/// resolves to is answered with exactly its message and nothing else follows,
/// in either kind of exchange.
pub proof fn lemma_handler_failure_verbatim<Req, Resp>(
    bytes: Vec<u8>,
    req: Req,
    e: Error,
    events: Seq<Event<Req, Resp>>,
)
    ensures
        walk(Stage::Invoking, seq![Event::Failed(e)] + events) == seq![
            Step::<Req, Resp>::Respond(encode_utf8(e@)),
        ],
        raw_trace(req, seq![Event::Failed(e)] + events) == seq![
            Step::<Req, Resp>::Invoke(req),
            Step::Respond(encode_utf8(e@)),
        ],
        json_trace(seq![Event::BodyRead(bytes), Event::Decoded(req), Event::Failed(e)] + events)
            == seq![
            Step::<Req, Resp>::ReadBody,
            Step::Decode(bytes@),
            Step::Invoke(req),
            Step::Respond(encode_utf8(e@)),
        ],
{
    let r = Step::<Req, Resp>::Respond(encode_utf8(e@));
    lemma_walk_cons(Stage::Invoking, Event::<Req, Resp>::Failed(e), events);
    lemma_done_is_silent::<Req, Resp>(events);
    assert(walk(Stage::Invoking, seq![Event::Failed(e)] + events) =~= seq![r]);
    assert(raw_trace(req, seq![Event::Failed(e)] + events) =~= seq![Step::Invoke(req), r]);
    let tail = seq![Event::Decoded(req), Event::Failed(e)] + events;
    let evs = seq![Event::BodyRead(bytes), Event::Decoded(req), Event::Failed(e)] + events;
    assert(evs =~= seq![Event::BodyRead(bytes)] + tail);
    assert(tail =~= seq![Event::Decoded(req)] + (seq![Event::Failed(e)] + events));
    lemma_walk_cons(Stage::ReadingBody, Event::BodyRead(bytes), tail);
    lemma_walk_cons(Stage::Decoding, Event::<Req, Resp>::Decoded(req), seq![Event::Failed(e)] + events);
    assert(json_trace(evs) =~= seq![Step::ReadBody, Step::Decode(bytes@), Step::Invoke(req), r]);
}

/// Raw passthrough: a raw exchange hands its request to the handler as it
/// is, and never asks for a decode.
pub proof fn lemma_raw_passthrough<Req, Resp>(req: Req, events: Seq<Event<Req, Resp>>)
    ensures
        raw_trace(req, events)[0] == Step::<Req, Resp>::Invoke(req),
        forall|i: int|
            0 <= i < raw_trace(req, events).len() ==> !(#[trigger] raw_trace(req, events)[i] is Decode),
{
    lemma_no_decode_after_read(Stage::Invoking, events);
    let w = walk(Stage::Invoking, events);
    assert forall|i: int| 0 <= i < raw_trace(req, events).len() implies !(#[trigger] raw_trace(
        req,
        events,
    )[i] is Decode) by {
        if i > 0 {
            assert(raw_trace(req, events)[i] == w[i - 1]);
        }
    }
}

/// The events tagged `first` (or not), in their order, out of an
/// interleaving of the events of two exchanges.
pub open spec fn side<Req, Resp>(tagged: Seq<(bool, Event<Req, Resp>)>, first: bool) -> Seq<Event<Req, Resp>>
    decreases tagged.len(),
{
    if tagged.len() == 0 {
        Seq::empty()
    } else if tagged[0].0 == first {
        seq![tagged[0].1] + side(tagged.drop_first(), first)
    } else {
        side(tagged.drop_first(), first)
    }
}

/// What one exchange at `stage` asks for on a single event.
pub open spec fn react_once<Req, Resp>(stage: Stage, e: Event<Req, Resp>) -> Seq<Step<Req, Resp>> {
    if fits(stage, e) {
        seq![reaction(e)]
    } else {
        Seq::empty()
    }
}

/// The stage one exchange at `stage` is at after a single event.
pub open spec fn move_once<Req, Resp>(stage: Stage, e: Event<Req, Resp>) -> Stage {
    if fits(stage, e) {
        after(e)
    } else {
        stage
    }
}

/// What two exchanges, at stages `a` and `b`, ask for when their events
/// arrive interleaved: each event goes to the exchange it is tagged for
/// (`true` for the first).
pub open spec fn walk_pair<Req, Resp>(a: Stage, b: Stage, tagged: Seq<(bool, Event<Req, Resp>)>) -> (
    Seq<Step<Req, Resp>>,
    Seq<Step<Req, Resp>>,
)
    decreases tagged.len(),
{
    if tagged.len() == 0 {
        (Seq::empty(), Seq::empty())
    } else {
        let (first, e) = tagged[0];
        if first {
            let rest = walk_pair(move_once(a, e), b, tagged.drop_first());
            (react_once(a, e) + rest.0, rest.1)
        } else {
            let rest = walk_pair(a, move_once(b, e), tagged.drop_first());
            (rest.0, react_once(b, e) + rest.1)
        }
    }
}

/// Isolation: two exchanges running side by side ask for exactly what each
/// asks for alone on its own events, however those events interleave.
pub proof fn lemma_exchanges_isolated<Req, Resp>(
    a: Stage,
    b: Stage,
    tagged: Seq<(bool, Event<Req, Resp>)>,
)
    ensures
        walk_pair(a, b, tagged) == (walk(a, side(tagged, true)), walk(b, side(tagged, false))),
    decreases tagged.len(),
{
    if tagged.len() > 0 {
        let (first, e) = tagged[0];
        let rest = tagged.drop_first();
        if first {
            lemma_exchanges_isolated(move_once(a, e), b, rest);
            lemma_walk_cons(a, e, side(rest, true));
            assert(walk(a, side(tagged, true)) =~= react_once(a, e) + walk(move_once(a, e), side(rest, true)));
        } else {
            lemma_exchanges_isolated(a, move_once(b, e), rest);
            lemma_walk_cons(b, e, side(rest, false));
            assert(walk(b, side(tagged, false)) =~= react_once(b, e) + walk(move_once(b, e), side(rest, false)));
        }
    }
}

} // verus!
