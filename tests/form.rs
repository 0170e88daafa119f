use framed_form::{masked_suffix, sending_notice, FormWindow, Mailbox};

#[test]
fn short_card_numbers_use_the_placeholder() {
    assert_eq!(masked_suffix(""), "XXXX");
    assert_eq!(masked_suffix("12"), "XXXX");
    assert_eq!(masked_suffix("1234"), "XXXX");
}

#[test]
fn longer_card_numbers_show_the_last_four() {
    assert_eq!(masked_suffix("12345"), "2345");
    assert_eq!(masked_suffix("4111111111111111"), "1111");
    assert_eq!(masked_suffix("ab\u{e9}cd\u{fc}"), "\u{e9}cd\u{fc}");
}

#[test]
fn sending_notice_text() {
    assert_eq!(
        sending_notice("4111111111111111"),
        "Th-thanks for your card ending in 1111! (Sending...)"
    );
    assert_eq!(sending_notice("123"), "Th-thanks for your card ending in XXXX! (Sending...)");
}

#[test]
fn submit_snapshots_fields_and_shows_notice() {
    let mut w = FormWindow::new();
    assert_eq!(w.message, None);
    w.form.card_number.push_str("4111111111111111");
    w.form.expiry_date.push_str("12/29");
    w.form.security_code.push_str("123");
    let record = w.submit();
    assert_eq!(record.card_number, "4111111111111111");
    assert_eq!(record.expiry_date, "12/29");
    assert_eq!(record.security_code, "123");
    assert_eq!(
        w.message.as_deref(),
        Some("Th-thanks for your card ending in 1111! (Sending...)")
    );
    assert_eq!(w.form.card_number, "4111111111111111");
}

#[test]
fn absorb_replaces_message_only_when_mail_waits() {
    let mut w = FormWindow::new();
    let mut m = Mailbox::new();
    w.absorb_one(&mut m);
    assert_eq!(w.message, None);
    m.post("Successfully sent card info!".to_string());
    w.absorb_one(&mut m);
    assert_eq!(w.message.as_deref(), Some("Successfully sent card info!"));
    assert!(m.is_empty());
    w.absorb_one(&mut m);
    assert_eq!(w.message.as_deref(), Some("Successfully sent card info!"));
}

#[test]
fn frames_show_every_waiting_message_once() {
    let mut w = FormWindow::new();
    let mut m = Mailbox::new();
    let posted = ["a", "b", "c", "d", "e"];
    for p in posted {
        m.post(p.to_string());
    }
    let mut seen = Vec::new();
    for _ in 0..posted.len() {
        w.absorb_one(&mut m);
        seen.push(w.message.clone().expect("a message on show"));
    }
    assert!(m.is_empty());
    seen.sort();
    assert_eq!(seen, vec!["a", "b", "c", "d", "e"]);
}
