use orchestrator::signer::{private_key_from_text, PrivateKeyError};

fn le(value: u128) -> [u8; 32] {
    let mut bytes = [0u8; 32];
    bytes[..16].copy_from_slice(&value.to_le_bytes());
    bytes
}

#[test]
fn decimal_key_becomes_scalar_bytes() {
    assert_eq!(private_key_from_text("5"), Ok(le(5)));
    assert_eq!(private_key_from_text("12345678901234567890"), Ok(le(12345678901234567890)));
    assert_eq!(private_key_from_text("0"), Ok([0u8; 32]));
}

#[test]
fn key_is_reduced_modulo_the_group_order() {
    let order = "21888242871839275222246405745257275088548364400416034343698204186575808495617";
    assert_eq!(private_key_from_text(order), Ok([0u8; 32]));
    let minus_one: [u8; 32] = [
        0, 0, 0, 240, 147, 245, 225, 67, 145, 112, 185, 121, 72, 232, 51, 40, 93, 88, 129, 129,
        182, 69, 80, 184, 41, 160, 49, 225, 114, 78, 100, 48,
    ];
    assert_eq!(private_key_from_text("-1"), Ok(minus_one));
}

#[test]
fn non_decimal_key_is_refused() {
    for text in ["", "0x10", "abc", "1.5", " 1"] {
        assert_eq!(private_key_from_text(text), Err(PrivateKeyError::InvalidDecimal), "{:?}", text);
    }
}
