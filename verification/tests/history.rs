use lab_suite::history::{clear_unpinned, insert, toggle_pin, ClipItem, MAX_ITEMS};

fn item(text: &str, pinned: bool) -> ClipItem {
    ClipItem { text: text.into(), pinned }
}

#[test]
fn novo_item_vai_pro_topo() {
    let mut v = vec![];
    insert(&mut v, "a".into());
    insert(&mut v, "b".into());
    assert_eq!(v[0].text, "b");
    assert_eq!(v.len(), 2);
}

#[test]
fn recopiar_sobe_sem_duplicar() {
    let mut v = vec![];
    insert(&mut v, "a".into());
    insert(&mut v, "b".into());
    insert(&mut v, "a".into());
    assert_eq!(v.len(), 2);
    assert_eq!(v[0].text, "a");
}

#[test]
fn recopiar_preserva_o_pin() {
    let mut v = vec![item("fixo", true), item("x", false)];
    insert(&mut v, "fixo".into());
    assert_eq!(v[0].text, "fixo");
    assert!(v[0].pinned);
    assert_eq!(v.len(), 2);
}

#[test]
fn limpar_preserva_fixados() {
    let mut v = vec![item("a", false), item("b", true), item("c", false)];
    clear_unpinned(&mut v);
    assert_eq!(v.len(), 1);
    assert_eq!(v[0].text, "b");
}

#[test]
fn pinned_items_do_not_count_toward_the_cap() {
    let mut v = vec![item("p1", true), item("p2", true)];
    for i in 0..(MAX_ITEMS + 10) {
        insert(&mut v, format!("t{i}"));
    }
    let loose = v.iter().filter(|i| !i.pinned).count();
    assert_eq!(loose, MAX_ITEMS);
    assert_eq!(v.len(), MAX_ITEMS + 2);
    assert_eq!(v[0].text, format!("t{}", MAX_ITEMS + 9));
    assert!(v.iter().any(|i| i.text == "p1" && i.pinned));
    assert!(!v.iter().any(|i| i.text == "t0"));
}

#[test]
fn insert_never_duplicates_a_text() {
    let mut v = vec![];
    for t in ["a", "b", "a", "c", "b", "a"] {
        insert(&mut v, t.into());
    }
    let texts: Vec<&str> = v.iter().map(|i| i.text.as_str()).collect();
    assert_eq!(texts, vec!["a", "b", "c"]);
}

#[test]
fn clear_on_empty_and_all_pinned() {
    let mut v: Vec<ClipItem> = vec![];
    clear_unpinned(&mut v);
    assert!(v.is_empty());
    let mut w = vec![item("x", true), item("y", true)];
    clear_unpinned(&mut w);
    assert_eq!(w.len(), 2);
    assert_eq!(w[1].text, "y");
}

#[test]
fn search_filters_by_lowercase_text() {
    let v = vec![item("Olá Mundo", false), item("outro", true), item("MUNDO grande", false)];
    assert_eq!(lab_suite::history::search(&v, "  mundo "), vec![0, 2]);
    assert_eq!(lab_suite::history::search(&v, ""), vec![0, 1, 2]);
    assert!(lab_suite::history::search(&v, "xyz").is_empty());
}

#[test]
fn teto_apaga_soltos_nunca_fixados() {
    let mut v = vec![];
    for i in 0..MAX_ITEMS {
        insert(&mut v, format!("s{i}"));
    }
    v[0].pinned = true; // the newest becomes pinned
    insert(&mut v, "novo".into());
    // Pinned items do not count toward the cap: "novo" and the 499 older
    // loose items make exactly MAX_ITEMS loose ones, so none is evicted and
    // the pinned one stands beside them (MAX_ITEMS + 1 in all, `s0` kept).
    assert_eq!(v.len(), MAX_ITEMS + 1);
    let soltos = v.iter().filter(|i| !i.pinned).count();
    assert!(soltos <= MAX_ITEMS);
    assert_eq!(soltos, MAX_ITEMS);
    assert_eq!(v[0].text, "novo");
    assert!(v.iter().any(|i| i.text == "s0"));
    assert!(v.iter().any(|i| i.pinned && i.text == "s499"));
}

#[test]
fn copied_text_occurs_once_even_when_the_history_repeats_it() {
    let mut v = vec![item("a", false), item("b", true), item("a", true), item("c", false), item("b", false)];
    insert(&mut v, "a".into());
    let texts: Vec<&str> = v.iter().map(|i| i.text.as_str()).collect();
    assert_eq!(texts, vec!["a", "b", "c", "b"]);
    assert!(v[0].pinned);
    assert!(v[1].pinned);
}

#[test]
fn toggling_a_pin_moves_the_item_to_the_top() {
    let mut v = vec![item("a", false), item("b", false), item("c", true)];
    toggle_pin(&mut v, 1);
    let texts: Vec<&str> = v.iter().map(|i| i.text.as_str()).collect();
    assert_eq!(texts, vec!["b", "a", "c"]);
    assert!(v[0].pinned);
    toggle_pin(&mut v, 2);
    assert_eq!(v[0].text, "c");
    assert!(!v[0].pinned);
    assert_eq!(v.len(), 3);
}
