use order_pipeline::classify::{classify, classify_parsed, Outcome, SuccessFirst};
use order_pipeline::nonce::NonceGen;
use order_pipeline::timing::{Stage, StageTimer};

#[test]
fn success_with_filled_entry_classifies_as_filled() {
    let body = String::from("{\"status\":\"ok\",\"data\":{\"statuses\":[{\"filled\":{\"oid\":42}}]}}");
    match classify(200, body) {
        Outcome::Filled { oid } => assert_eq!(oid, 42),
        _ => panic!("expected a filled outcome"),
    }
}

#[test]
fn success_with_resting_entry_classifies_as_resting() {
    let body = String::from(
        "{\"status\":\"ok\",\"data\":{\"statuses\":[{\"resting\":{\"oid\":7}}]}}",
    );
    match classify(200, body) {
        Outcome::Resting { oid } => assert_eq!(oid, 7),
        _ => panic!("expected a resting outcome"),
    }
}

#[test]
fn client_error_carries_the_parsed_fields() {
    let body = String::from("{\"code\":12,\"msg\":\"bad nonce\",\"data\":\"x\"}");
    match classify(422, body) {
        Outcome::ClientError { status, code, message, data } => {
            assert_eq!(status, 422);
            assert_eq!(code, Some(12));
            assert_eq!(message, "bad nonce");
            assert_eq!(data, Some(String::from("x")));
        },
        _ => panic!("expected a client error"),
    }
}

#[test]
fn unparseable_client_error_keeps_the_raw_body() {
    let body = String::from("not json at all");
    match classify(404, body) {
        Outcome::ClientError { status, code, message, data } => {
            assert_eq!(status, 404);
            assert_eq!(code, None);
            assert_eq!(message, "not json at all");
            assert!(data.is_some());
        },
        _ => panic!("expected a client error"),
    }
}

#[test]
fn server_error_keeps_the_raw_body() {
    let body = String::from("upstream down");
    match classify(503, body) {
        Outcome::ServerError { status, message } => {
            assert_eq!(status, 503);
            assert_eq!(message, "upstream down");
        },
        _ => panic!("expected a server error"),
    }
}

#[test]
fn unparseable_success_body_is_other_status() {
    let body = String::from("whatever came back");
    match classify(200, body) {
        Outcome::OtherStatus { raw } => assert_eq!(raw, "whatever came back"),
        _ => panic!("expected an other-status outcome"),
    }
}

#[test]
fn decision_table_is_exact_for_any_parse_result() {
    match classify_parsed(399, String::from("b"), Some(SuccessFirst::Filled { oid: 1 }), Err(String::new())) {
        Outcome::Filled { oid } => assert_eq!(oid, 1),
        _ => panic!("boundary 399 belongs to the success row"),
    }
    match classify_parsed(400, String::from("b"), Some(SuccessFirst::Filled { oid: 1 }), Err(String::from("d"))) {
        Outcome::ClientError { status, code, .. } => {
            assert_eq!(status, 400);
            assert_eq!(code, None);
        },
        _ => panic!("boundary 400 belongs to the client-error row"),
    }
    match classify_parsed(500, String::from("b"), None, Ok((1, String::from("m"), String::from("d")))) {
        Outcome::ServerError { status, .. } => assert_eq!(status, 500),
        _ => panic!("boundary 500 belongs to the server-error row"),
    }
}

#[test]
fn nonces_strictly_increase_even_when_the_clock_regresses() {
    let mut gen = NonceGen::new();
    let clocks: [u64; 6] = [100, 100, 99, 250, 250, 10];
    let mut seen: Vec<u64> = Vec::new();
    for c in clocks {
        seen.push(gen.next(c));
    }
    assert_eq!(seen, vec![100, 101, 102, 250, 251, 252]);
    for w in seen.windows(2) {
        assert!(w[0] < w[1]);
    }
}

#[test]
fn disabled_timer_records_nothing() {
    let mut t = StageTimer::new(false);
    t.record(Stage::Encode, 125);
    t.record(Stage::Transport, 9999);
    assert_eq!(t.samples.len(), 0);
    assert_eq!(t.total_ns(), 0);
}

#[test]
fn enabled_timer_totals_its_samples() {
    let mut t = StageTimer::new(true);
    t.record(Stage::Encode, 100);
    t.record(Stage::Digest, 50);
    t.record(Stage::Sign, 8);
    assert_eq!(t.samples.len(), 3);
    assert_eq!(t.total_ns(), 158);
    let mut s = StageTimer::new(true);
    s.record(Stage::Encode, u64::MAX);
    s.record(Stage::Digest, 1);
    assert_eq!(s.total_ns(), u64::MAX);
}
