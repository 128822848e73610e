use futures::executor::block_on;
use rustfaas::error::Error;
use rustfaas::handler::Handler;
use rustfaas::pipeline::{failure_body, runtime_error_body, Action, Event, Exchange, Stage};

fn greet(greeting: &str, person: &str) -> String {
    format!("{} {}", greeting, person)
}

/// Feeds one event and returns the action, failing when the exchange refused it.
fn feed<Req, Resp>(x: &mut Exchange, e: Event<Req, Resp>) -> Action<Req, Resp> {
    match x.step(e) {
        Some(a) => a,
        None => panic!("event refused at {:?}", x.stage()),
    }
}

/// Runs a structured-data exchange on `body` with the greeting handler.
fn run_json(body: &[u8], invocations: &mut usize) -> Vec<u8> {
    let (mut x, mut action) = Exchange::json::<String, String>();
    loop {
        let event = match action {
            Action::ReadBody => Event::BodyRead(body.to_vec()),
            Action::Decode(bytes) => match serde_json::from_slice::<serde_json::Value>(&bytes) {
                Ok(v) => match v.get("name").and_then(|n| n.as_str()) {
                    Some(name) => Event::Decoded(name.to_string()),
                    None => Event::DecodeFailed(Error::new("missing field `name`".to_string())),
                },
                Err(err) => Event::DecodeFailed(Error::new(err.to_string())),
            },
            Action::Invoke(name) => {
                *invocations += 1;
                Event::Completed(greet("Hello", &name))
            }
            Action::Encode(resp) => match serde_json::to_vec(&resp) {
                Ok(bytes) => Event::Encoded(bytes),
                Err(err) => Event::EncodeFailed(Error::new(err.to_string())),
            },
            Action::Respond(bytes) => {
                assert!(x.is_done());
                return bytes;
            }
        };
        action = feed(&mut x, event);
    }
}

fn contains(hay: &[u8], needle: &[u8]) -> bool {
    needle.is_empty() || hay.windows(needle.len()).any(|w| w == needle)
}

#[test]
fn json_pipeline_greets() {
    let mut invocations = 0usize;
    let body = run_json(br#"{"name":"World"}"#, &mut invocations);
    assert_eq!(body, b"\"Hello World\"".to_vec());
    assert_eq!(invocations, 1);
}

#[test]
fn malformed_body_answers_with_decoder_message() {
    let mut invocations = 0usize;
    let body = run_json(b"not json", &mut invocations);
    let err = serde_json::from_slice::<serde_json::Value>(b"not json").unwrap_err().to_string();
    assert!(body.starts_with(b"Runtime error: "));
    assert!(contains(&body, err.as_bytes()));
    assert_eq!(invocations, 0);
}

#[test]
fn raw_pipeline_passes_body_through() {
    let raw = b"World".to_vec();
    let (mut x, action) = Exchange::raw::<Vec<u8>, String>(raw.clone());
    assert_eq!(x.stage(), Stage::Invoking);
    let req = match action {
        Action::Invoke(req) => req,
        _ => panic!("expected the handler to be called first"),
    };
    assert_eq!(req, raw);
    let name = String::from_utf8(req).unwrap();
    let resp = greet("Hello", &name);
    let to_encode = match feed(&mut x, Event::<Vec<u8>, String>::Completed(resp)) {
        Action::Encode(r) => r,
        _ => panic!("expected an encode"),
    };
    let bytes = serde_json::to_vec(&to_encode).unwrap();
    match feed(&mut x, Event::<Vec<u8>, String>::Encoded(bytes)) {
        Action::Respond(body) => assert_eq!(body, b"\"Hello World\"".to_vec()),
        _ => panic!("expected a response"),
    }
    assert!(x.is_done());
}

#[test]
fn raw_pipeline_never_decodes_non_json_body() {
    let raw = b"\xff\x00 not { json".to_vec();
    let (mut x, action) = Exchange::raw::<Vec<u8>, String>(raw.clone());
    match action {
        Action::Invoke(req) => assert_eq!(req, raw),
        _ => panic!("expected the handler to be called first"),
    }
    assert!(x.step(Event::<Vec<u8>, String>::BodyRead(raw.clone())).is_none());
    assert!(x.step(Event::<Vec<u8>, String>::Decoded(raw)).is_none());
    assert_eq!(x.stage(), Stage::Invoking);
}

#[test]
fn handler_failure_is_answered_verbatim() {
    let (mut x, _) = Exchange::json::<String, String>();
    feed(&mut x, Event::<String, String>::BodyRead(b"{}".to_vec()));
    match feed(&mut x, Event::<String, String>::Decoded("World".to_string())) {
        Action::Invoke(req) => assert_eq!(req, "World"),
        _ => panic!("expected the handler to be called"),
    }
    match feed(&mut x, Event::<String, String>::Failed(Error::new("no such person: World".to_string()))) {
        Action::Respond(body) => assert_eq!(body, b"no such person: World".to_vec()),
        _ => panic!("expected a response"),
    }
    assert!(x.is_done());
}

#[test]
fn raw_handler_failure_is_answered_verbatim() {
    let (mut x, _) = Exchange::raw::<Vec<u8>, String>(b"x".to_vec());
    match feed(&mut x, Event::<Vec<u8>, String>::Failed(Error::new("Encoding error: bad utf-8".to_string()))) {
        Action::Respond(body) => assert_eq!(body, b"Encoding error: bad utf-8".to_vec()),
        _ => panic!("expected a response"),
    }
}

#[test]
fn read_failure_is_answered_with_prefix() {
    let (mut x, _) = Exchange::json::<String, String>();
    match feed(&mut x, Event::<String, String>::ReadFailed(Error::new("connection reset".to_string()))) {
        Action::Respond(body) => assert_eq!(body, b"Runtime error: connection reset".to_vec()),
        _ => panic!("expected a response"),
    }
    assert!(x.is_done());
}

#[test]
fn encode_failure_is_answered_with_prefix() {
    let (mut x, _) = Exchange::raw::<u8, u8>(1);
    feed(&mut x, Event::<u8, u8>::Completed(2));
    assert_eq!(x.stage(), Stage::Encoding);
    match feed(&mut x, Event::<u8, u8>::EncodeFailed(Error::new("key must be a string".to_string()))) {
        Action::Respond(body) => assert_eq!(body, b"Runtime error: key must be a string".to_vec()),
        _ => panic!("expected a response"),
    }
}

#[test]
fn unexpected_events_are_refused() {
    let (mut x, _) = Exchange::json::<u8, u8>();
    assert!(x.step(Event::<u8, u8>::Completed(1)).is_none());
    assert!(x.step(Event::<u8, u8>::Decoded(1)).is_none());
    assert_eq!(x.stage(), Stage::ReadingBody);
    feed(&mut x, Event::<u8, u8>::ReadFailed(Error::new("reset".to_string())));
    assert!(x.step(Event::<u8, u8>::BodyRead(vec![1])).is_none());
    assert!(x.step(Event::<u8, u8>::Decoded(1)).is_none());
    assert!(x.step(Event::<u8, u8>::Encoded(vec![1])).is_none());
    assert_eq!(x.stage(), Stage::Done);
}

#[test]
fn handler_is_not_called_twice() {
    let (mut x, _) = Exchange::json::<u8, u8>();
    feed(&mut x, Event::<u8, u8>::BodyRead(vec![1]));
    feed(&mut x, Event::<u8, u8>::Decoded(1));
    assert!(x.step(Event::<u8, u8>::Decoded(1)).is_none());
    assert_eq!(x.stage(), Stage::Invoking);
}

#[test]
fn interleaved_exchanges_do_not_interfere() {
    let mut first = 0usize;
    let mut second = 0usize;
    let alone_a = run_json(br#"{"name":"Ada"}"#, &mut first);
    let alone_b = run_json(br#"{"name":"Bob"}"#, &mut second);

    let (mut a, _) = Exchange::json::<String, String>();
    let (mut b, _) = Exchange::json::<String, String>();
    feed(&mut b, Event::<String, String>::BodyRead(br#"{"name":"Bob"}"#.to_vec()));
    feed(&mut a, Event::<String, String>::BodyRead(br#"{"name":"Ada"}"#.to_vec()));
    feed(&mut a, Event::<String, String>::Decoded("Ada".to_string()));
    feed(&mut b, Event::<String, String>::Decoded("Bob".to_string()));
    feed(&mut b, Event::<String, String>::Completed(greet("Hello", "Bob")));
    feed(&mut a, Event::<String, String>::Completed(greet("Hello", "Ada")));
    let rb = feed(&mut b, Event::<String, String>::Encoded(serde_json::to_vec("Hello Bob").unwrap()));
    let ra = feed(&mut a, Event::<String, String>::Encoded(serde_json::to_vec("Hello Ada").unwrap()));
    match (ra, rb) {
        (Action::Respond(x), Action::Respond(y)) => {
            assert_eq!(x, alone_a);
            assert_eq!(y, alone_b);
            assert_eq!(x, b"\"Hello Ada\"".to_vec());
        }
        _ => panic!("expected two responses"),
    }
}

#[test]
fn response_round_trips_through_json() {
    let resp = "Hello World".to_string();
    let (mut x, _) = Exchange::raw::<u8, String>(0);
    let to_encode = match feed(&mut x, Event::<u8, String>::Completed(resp.clone())) {
        Action::Encode(r) => r,
        _ => panic!("expected an encode"),
    };
    let bytes = serde_json::to_vec(&to_encode).unwrap();
    let body = match feed(&mut x, Event::<u8, String>::Encoded(bytes)) {
        Action::Respond(body) => body,
        _ => panic!("expected a response"),
    };
    let back: String = serde_json::from_slice(&body).unwrap();
    assert_eq!(back, resp);
}

#[test]
fn closure_handler_greets_decoded_name() {
    let greeting = std::sync::Arc::new("Hello".to_string());
    let handler = move |name: String| {
        let greeting = greeting.clone();
        async move { Ok::<String, String>(greet(&greeting, &name)) }
    };
    let out = block_on(Handler::<String, String>::call(handler, "World".to_string()));
    assert_eq!(out, Ok("Hello World".to_string()));
}

#[test]
fn closure_handler_reads_raw_body() {
    let handler = |raw: Vec<u8>| async move {
        match String::from_utf8(raw) {
            Ok(name) => Ok(greet("Hello", &name)),
            Err(err) => Err(format!("Encoding error: {}", err)),
        }
    };
    let out = block_on(Handler::<Vec<u8>, String>::call(handler, b"World".to_vec()));
    assert_eq!(out, Ok("Hello World".to_string()));
    let bad = block_on(Handler::<Vec<u8>, String>::call(handler, vec![0xff]));
    assert!(matches!(bad, Err(ref e) if e.starts_with("Encoding error: ")));
}

#[test]
fn closure_handler_failure_passes_through() {
    let handler = |n: u8| async move { if n == 0 { Err(format!("no item {}", n)) } else { Ok(n) } };
    assert_eq!(block_on(Handler::<u8, u8>::call(handler, 3)), Ok(3));
    assert_eq!(block_on(Handler::<u8, u8>::call(handler, 0)), Err("no item 0".to_string()));
}

#[test]
fn exchange_driven_with_closure_handler() {
    let handler = |name: String| async move { Ok::<String, String>(greet("Hello", &name)) };
    let (mut x, action) = Exchange::json::<String, String>();
    assert!(matches!(action, Action::ReadBody));
    let bytes = match feed(&mut x, Event::<String, String>::BodyRead(br#""World""#.to_vec())) {
        Action::Decode(b) => b,
        _ => panic!("expected a decode"),
    };
    let req: String = serde_json::from_slice(&bytes).unwrap();
    let req = match feed(&mut x, Event::<String, String>::Decoded(req)) {
        Action::Invoke(r) => r,
        _ => panic!("expected the handler to be called"),
    };
    let event = match block_on(Handler::<String, String>::call(handler, req)) {
        Ok(resp) => Event::<String, String>::Completed(resp),
        Err(e) => Event::<String, String>::Failed(Error::new(e)),
    };
    let resp = match feed(&mut x, event) {
        Action::Encode(r) => r,
        _ => panic!("expected an encode"),
    };
    match feed(&mut x, Event::<String, String>::Encoded(serde_json::to_vec(&resp).unwrap())) {
        Action::Respond(body) => assert_eq!(body, b"\"Hello World\"".to_vec()),
        _ => panic!("expected a response"),
    }
}

#[test]
fn bodies_are_built_exactly() {
    let e = Error::new("boom".to_string());
    assert_eq!(e.message(), "boom");
    assert_eq!(runtime_error_body(&e), b"Runtime error: boom".to_vec());
    assert_eq!(failure_body(&e), b"boom".to_vec());
    let empty = Error::new(String::new());
    assert_eq!(runtime_error_body(&empty), b"Runtime error: ".to_vec());
    assert!(failure_body(&empty).is_empty());
    let wide = Error::new("é✓".to_string());
    assert_eq!(failure_body(&wide), "é✓".as_bytes().to_vec());
}
