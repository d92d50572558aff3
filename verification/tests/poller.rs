use lab_suite::poller::{hash_of, poll_step, MAX_TEXT_BYTES};

#[test]
fn hash_estavel_e_distinto() {
    assert_eq!(hash_of("text", b"a"), hash_of("text", b"a"));
    assert_ne!(hash_of("text", b"a"), hash_of("text", b"b"));
}

#[test]
fn a_new_text_is_taken_once() {
    let (h, sent) = poll_step(0, false, false, Some("olá".to_string()));
    assert_eq!(sent.as_deref(), Some("olá"));
    assert_eq!(h, hash_of("text", "olá".as_bytes()));
    let (h2, again) = poll_step(h, false, false, Some("olá".to_string()));
    assert_eq!(h2, h);
    assert!(again.is_none());
}

#[test]
fn blank_oversized_and_excluded_texts_are_ignored() {
    assert_eq!(poll_step(7, false, false, Some(" \t\n ".to_string())), (7, None));
    let big = "x".repeat(MAX_TEXT_BYTES + 1);
    assert_eq!(poll_step(7, false, false, Some(big)), (7, None));
    let fits = "x".repeat(MAX_TEXT_BYTES);
    assert!(poll_step(7, false, false, Some(fits)).1.is_some());
    assert_eq!(poll_step(7, false, true, Some("segredo".to_string())), (7, None));
    assert_eq!(poll_step(7, false, false, None), (7, None));
}

#[test]
fn own_copy_is_remembered_not_sent() {
    let (h, sent) = poll_step(1, true, false, Some("meu".to_string()));
    assert!(sent.is_none());
    assert_eq!(h, hash_of("text", b"meu"));
    let (_, next) = poll_step(h, false, false, Some("meu".to_string()));
    assert!(next.is_none());
}
