use framed_form::{decimal_string, Action, Event, FormWindow, Mailbox, Stage, Submission};

fn delivered(a: Action) -> String {
    match a {
        Action::Deliver(m) => m,
        _ => panic!("expected a delivered message"),
    }
}

fn start() -> Submission {
    let mut w = FormWindow::new();
    w.form.card_number.push_str("4111111111111111");
    w.form.expiry_date.push_str("12/29");
    w.form.security_code.push_str("123");
    let _record = w.submit();
    let mut s = Submission::new();
    assert_eq!(s.stage(), Stage::Building);
    assert!(matches!(s.step(Event::ClientReady), Action::SendRequest));
    assert_eq!(s.stage(), Stage::Sending);
    s
}

#[test]
fn success_status_delivers_success_message() {
    let mut s = start();
    let msg = delivered(s.step(Event::Responded(200)));
    assert_eq!(msg, "Successfully sent card info!");
    assert!(s.is_done());
    let mut m = Mailbox::new();
    m.post(msg);
    assert_eq!(m.drain_one().as_deref(), Some("Successfully sent card info!"));
}

#[test]
fn server_error_delivers_status_and_body() {
    let mut s = start();
    assert!(matches!(s.step(Event::Responded(500)), Action::ReadBody));
    assert_eq!(s.stage(), Stage::ReadingBody { status: 500 });
    let msg = delivered(s.step(Event::BodyRead(Some("server error".to_string()))));
    assert_eq!(msg, "Error: Failed to send card info: Status 500 - server error");
    assert!(s.is_done());
}

#[test]
fn unreadable_body_uses_notice() {
    let mut s = start();
    s.step(Event::Responded(404));
    let msg = delivered(s.step(Event::BodyRead(None)));
    assert_eq!(msg, "Error: Failed to send card info: Status 404 - No response body");
}

#[test]
fn refused_connection_delivers_send_failure() {
    let mut s = start();
    let msg = delivered(s.step(Event::TransportFailed(
        "error sending request for url (https://localhost:1/): connection refused".to_string(),
    )));
    assert!(msg.starts_with("Error: Failed to send request:"));
    assert!(s.is_done());
}

#[test]
fn client_build_failure_is_reported() {
    let mut s = Submission::new();
    let msg = delivered(s.step(Event::ClientFailed("no TLS backend".to_string())));
    assert_eq!(msg, "Error: Failed to build reqwest client: no TLS backend");
    assert!(s.is_done());
}

#[test]
fn finished_submission_ignores_events() {
    let mut s = start();
    s.step(Event::Responded(204));
    assert!(s.is_done());
    assert!(matches!(s.step(Event::Responded(200)), Action::Idle));
    assert!(matches!(s.step(Event::ClientReady), Action::Idle));
    assert!(s.is_done());
}

#[test]
fn out_of_order_event_is_ignored() {
    let mut s = Submission::new();
    assert!(matches!(s.step(Event::Responded(200)), Action::Idle));
    assert_eq!(s.stage(), Stage::Building);
}

#[test]
fn status_classes() {
    for (code, ok) in [(199u16, false), (200, true), (299, true), (300, false), (500, false)] {
        let mut s = start();
        let a = s.step(Event::Responded(code));
        assert_eq!(matches!(a, Action::Deliver(_)), ok, "status {}", code);
    }
}

#[test]
fn decimal_notation() {
    assert_eq!(decimal_string(0), "0");
    assert_eq!(decimal_string(7), "7");
    assert_eq!(decimal_string(500), "500");
    assert_eq!(decimal_string(65535), "65535");
}
