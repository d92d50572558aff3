use lab_suite::crypto::{
    build_header, change_password, decrypt_vault, derive_key, encrypt_vault_with, parse_header,
    read_kdf_params, CryptoError, KdfParams, HEADER_LEN, SALT_LEN,
};

const TEST_PARAMS: KdfParams = KdfParams { m_cost: 512, t_cost: 1, p_cost: 1 };

fn enc(pw: &str, pt: &[u8]) -> Vec<u8> {
    encrypt_vault_with(pw, pt, TEST_PARAMS).unwrap()
}

#[test]
fn roundtrip_recupera_o_plaintext() {
    let pt = br#"{"items":[{"name":"gmail","password":"hunter2"}]}"#;
    let file = enc("senha-mestra-correta", pt);
    let out = decrypt_vault("senha-mestra-correta", &file).unwrap();
    assert_eq!(out.as_slice(), pt);
}

#[test]
fn senha_errada_falha() {
    let file = enc("certa", b"segredo");
    assert_eq!(decrypt_vault("errada", &file).unwrap_err(), CryptoError::Decrypt);
}

#[test]
fn blob_adulterado_falha() {
    let mut file = enc("pw", b"segredo importante");
    let last = file.len() - 1;
    file[last] ^= 0x01;
    assert_eq!(decrypt_vault("pw", &file).unwrap_err(), CryptoError::Decrypt);
}

#[test]
fn header_adulterado_falha() {
    let mut file = enc("pw", b"segredo");
    file[8] ^= 0x01;
    assert_eq!(decrypt_vault("pw", &file).unwrap_err(), CryptoError::Decrypt);
}

#[test]
fn salt_adulterado_falha() {
    let mut file = enc("pw", b"segredo");
    file[20] ^= 0x01;
    assert_eq!(decrypt_vault("pw", &file).unwrap_err(), CryptoError::Decrypt);
}

#[test]
fn arquivo_nao_tkeys_falha() {
    assert_eq!(decrypt_vault("pw", b"isto nao eh um vault").unwrap_err(), CryptoError::BadFormat);
}

#[test]
fn kdf_deterministico() {
    let salt = [7u8; SALT_LEN];
    let a = derive_key(b"mesma senha", &salt, TEST_PARAMS).unwrap();
    let b = derive_key(b"mesma senha", &salt, TEST_PARAMS).unwrap();
    assert_eq!(a.get(), b.get());
}

#[test]
fn kdf_sensivel_ao_salt() {
    let a = derive_key(b"pw", &[1u8; SALT_LEN], TEST_PARAMS).unwrap();
    let b = derive_key(b"pw", &[2u8; SALT_LEN], TEST_PARAMS).unwrap();
    assert_ne!(a.get(), b.get());
}

#[test]
fn nonces_sao_unicos_por_cifragem() {
    let a = enc("pw", b"identico");
    let b = enc("pw", b"identico");
    assert_ne!(a[36..60], b[36..60], "nonces deveriam diferir");
    assert_ne!(a, b);
}

#[test]
fn troca_de_senha_reencaminha_o_conteudo() {
    let file = encrypt_vault_with("velha", b"dados", TEST_PARAMS).unwrap();
    let renewed = change_password("velha", "nova", &file).unwrap();
    assert_eq!(decrypt_vault("velha", &renewed).unwrap_err(), CryptoError::Decrypt);
    let out = decrypt_vault("nova", &renewed).unwrap();
    assert_eq!(out.as_slice(), b"dados");
}

#[test]
fn header_tem_60_bytes() {
    let file = enc("pw", b"x");
    assert!(file.len() > HEADER_LEN);
    assert_eq!(&file[0..6], b"TKEYS\x00");
    assert_eq!(read_kdf_params(&file).unwrap(), TEST_PARAMS);
}

#[test]
fn header_layout_reads_back() {
    let salt = [3u8; 16];
    let nonce = [9u8; 24];
    let params = KdfParams { m_cost: 0x01020304, t_cost: 5, p_cost: 2 };
    let h = build_header(params, &salt, &nonce);
    assert_eq!(h.len(), HEADER_LEN);
    assert_eq!(&h[0..8], b"TKEYS\x00\x01\x01");
    assert_eq!(&h[8..12], &[4, 3, 2, 1]);
    let (p, s, n) = parse_header(&h).unwrap();
    assert_eq!(p, params);
    assert_eq!(s, salt.to_vec());
    assert_eq!(n, nonce.to_vec());
}

#[test]
fn unknown_version_is_refused() {
    let mut file = enc("pw", b"x");
    file[6] = 9;
    assert_eq!(decrypt_vault("pw", &file).unwrap_err(), CryptoError::UnsupportedVersion(9));
    assert_eq!(read_kdf_params(&file).unwrap(), TEST_PARAMS);
}

#[test]
fn truncated_file_is_bad_format() {
    let file = enc("pw", b"x");
    assert_eq!(read_kdf_params(&file[..HEADER_LEN - 1]).unwrap_err(), CryptoError::BadFormat);
}

#[test]
fn refused_kdf_parameters_give_kdf_error() {
    let bad = KdfParams { m_cost: 1, t_cost: 1, p_cost: 1 };
    assert_eq!(derive_key(b"pw", &[0u8; SALT_LEN], bad).unwrap_err(), CryptoError::Kdf);
}
