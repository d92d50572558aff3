use lab_suite::i18n::{all_keys, t, Key, Lang};

#[test]
fn todas_as_chaves_tem_traducao() {
    for lang in Lang::all() {
        for key in all_keys().iter() {
            let s = t(lang, *key);
            assert!(!s.is_empty(), "chave {key:?} vazia em {lang:?}");
        }
    }
}

#[test]
fn languages_have_their_labels() {
    let labels: Vec<&str> = Lang::all().iter().map(|l| l.label()).collect();
    assert_eq!(labels.len(), 3);
    assert!(labels.iter().all(|l| !l.is_empty()));
    assert_ne!(t(Lang::Pt, all_keys()[0]), "");
    let _: Key = all_keys()[67];
}
