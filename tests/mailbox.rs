use framed_form::Mailbox;

#[test]
fn drain_on_empty_mailbox_returns_nothing() {
    let mut m = Mailbox::new();
    assert!(m.is_empty());
    assert_eq!(m.drain_one(), None);
    assert_eq!(m.len(), 0);
}

#[test]
fn every_post_is_drained_exactly_once() {
    let mut m = Mailbox::new();
    let posted = vec!["first".to_string(), "second".to_string(), "third".to_string(), "second".to_string()];
    for p in &posted {
        m.post(p.clone());
    }
    assert_eq!(m.len(), 4);
    let mut drained = Vec::new();
    for _ in 0..posted.len() {
        drained.push(m.drain_one().expect("a posted message"));
    }
    assert_eq!(m.drain_one(), None);
    let mut a = posted.clone();
    let mut b = drained.clone();
    a.sort();
    b.sort();
    assert_eq!(a, b);
}

#[test]
fn concurrent_posts_are_all_drained() {
    let shared = std::sync::Arc::new(std::sync::Mutex::new(Mailbox::new()));
    let rt = tokio::runtime::Runtime::new().unwrap();
    rt.block_on(async {
        let mut handles = Vec::new();
        for i in 0..16u32 {
            let s = shared.clone();
            handles.push(tokio::spawn(async move {
                s.lock().unwrap().post(format!("message {}", i));
            }));
        }
        for h in handles {
            h.await.unwrap();
        }
    });
    let mut m = shared.lock().unwrap();
    let mut got = Vec::new();
    for _ in 0..16 {
        got.push(m.drain_one().unwrap());
    }
    assert_eq!(m.drain_one(), None);
    got.sort();
    let mut want: Vec<String> = (0..16u32).map(|i| format!("message {}", i)).collect();
    want.sort();
    assert_eq!(got, want);
}

#[test]
fn two_posts_are_drained_once_each() {
    let mut m = Mailbox::new();
    m.post("old".to_string());
    m.post("new".to_string());
    let mut got = vec![m.drain_one().unwrap(), m.drain_one().unwrap()];
    got.sort();
    assert_eq!(got, vec!["new".to_string(), "old".to_string()]);
    assert_eq!(m.drain_one(), None);
}
