use lab_suite::quick::{decode_quick_key, encode_quick_key};

#[test]
fn stored_key_reads_back() {
    let mut key = [0u8; 32];
    for (i, b) in key.iter_mut().enumerate() {
        *b = (i * 7 + 3) as u8;
    }
    let text = encode_quick_key(&key);
    assert_eq!(text.len(), 44);
    assert!(text.ends_with('='));
    assert_eq!(decode_quick_key(&text), Some(key));
}

#[test]
fn encoding_is_standard_base64() {
    let key = [0xffu8; 32];
    assert_eq!(encode_quick_key(&key), "//////////////////////////////////////////8=");
}

#[test]
fn bad_stored_texts_give_nothing() {
    assert_eq!(decode_quick_key("não é base64"), None);
    assert_eq!(decode_quick_key("aGk="), None);
    assert_eq!(decode_quick_key(""), None);
}
