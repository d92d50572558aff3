use lab_suite::totp::{build, code_at, now, seconds_left, PERIOD};

#[test]
fn aceita_base32_com_espacos_e_gera_6_digitos() {
    let c = now("JBSW Y3DP EHPK 3PXP").unwrap();
    assert_eq!(c.code.len(), 6);
    assert!(c.code.chars().all(|ch| ch.is_ascii_digit()));
    assert!(c.seconds_remaining >= 1 && c.seconds_remaining <= 30);
}

#[test]
fn base32_invalida_falha() {
    assert!(now("!!! não é base32 !!!").is_err());
    assert!(now("").is_err());
}

#[test]
fn key_is_cleaned_before_decoding() {
    let spaced = build("  jbsw-y3dp ehpk-3pxp \n").unwrap();
    let plain = build("JBSWY3DPEHPK3PXP").unwrap();
    assert_eq!(spaced, plain);
    assert_eq!(plain, b"Hello!\xDE\xAD\xBE\xEF".to_vec());
}

#[test]
fn key_errors_have_their_messages() {
    assert_eq!(build(" - \t").unwrap_err(), "chave TOTP vazia");
    assert_eq!(build("!!!").unwrap_err(), "chave TOTP inválida (não é base32)");
    assert_eq!(now("   ").err(), Some("chave TOTP vazia".to_string()));
}

#[test]
fn seconds_left_counts_down_the_step() {
    assert_eq!(seconds_left(0), PERIOD);
    assert_eq!(seconds_left(59), 1);
    assert_eq!(seconds_left(61), 29);
    assert_eq!(now("JBSWY3DPEHPK3PXP").unwrap().period, 30);
}

#[test]
fn code_at_matches_rfc6238_sha1_vectors() {
    let seed = "GEZDGNBVGY3TQOJQGEZDGNBVGY3TQOJQ";
    let c = code_at(seed, 59).unwrap();
    assert_eq!(c.code, "287082");
    assert_eq!(c.seconds_remaining, 1);
    assert_eq!(c.period, 30);
    assert_eq!(code_at(seed, 1_111_111_109).unwrap().code, "081804");
    assert_eq!(code_at(seed, 1_234_567_890).unwrap().code, "005924");
}

#[test]
fn code_at_uses_the_decoded_key_and_the_step() {
    let c = code_at("jbsw y3dp-ehpk 3pxp", 0).unwrap();
    assert_eq!(c.code, "282760");
    assert_eq!(c.seconds_remaining, 30);
    assert_eq!(code_at("JBSWY3DPEHPK3PXP", 1_700_000_000).unwrap().code, "324550");
    assert_eq!(code_at("JBSWY3DPEHPK3PXP", 1_700_000_000).unwrap().seconds_remaining, 10);
}

#[test]
fn code_at_reports_key_errors() {
    assert_eq!(code_at("", 59).err(), Some("chave TOTP vazia".to_string()));
    assert_eq!(code_at("!!!", 59).err(), Some("chave TOTP inválida (não é base32)".to_string()));
}

#[test]
fn code_at_matches_the_other_rfc6238_sha1_vectors() {
    let seed = "GEZDGNBVGY3TQOJQGEZDGNBVGY3TQOJQ";
    let c = code_at(seed, 1_111_111_111).unwrap();
    assert_eq!(c.code, "050471");
    assert_eq!(c.seconds_remaining, 29);
    let d = code_at(seed, 2_000_000_000).unwrap();
    assert_eq!(d.code, "279037");
    assert_eq!(d.seconds_remaining, 10);
}

#[test]
fn keys_differing_in_case_and_separators_give_the_same_code() {
    let a = code_at("jbsw-y3dp ehpk-3pxp", 1_700_000_000).unwrap();
    let b = code_at("JBSWY3DPEHPK3PXP", 1_700_000_000).unwrap();
    assert_eq!(a.code, b.code);
    assert_eq!(a.seconds_remaining, b.seconds_remaining);
    assert_eq!(build("JbSwY3dPeHpK3pXp").unwrap(), build("jbswy3dpehpk3pxp").unwrap());
}

#[test]
fn chars_outside_the_base32_alphabet_are_refused() {
    let msg = Some("chave TOTP inválida (não é base32)".to_string());
    assert_eq!(code_at("!!!", 0).err(), msg);
    assert_eq!(code_at("JBSWY3DP0", 0).err(), msg);
    assert_eq!(code_at("JBSWY3DP=", 0).err(), msg);
    assert_eq!(build("JBSW\u{e3}").err(), msg);
    assert!(now("!!! não é base32 !!!").is_err());
}
