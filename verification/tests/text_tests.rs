use orchestrator::decimal::{parse_port, push_decimal};
use orchestrator::identity::{parse_identity, IdentityError};
use orchestrator::operators::format_socket;

#[test]
fn socket_text() {
    assert_eq!(format_socket(&[127, 0, 0, 1], 8080), "127.0.0.1:8080");
    assert_eq!(format_socket(&[255, 10, 200, 9], 0), "255.10.200.9:0");
    assert_eq!(format_socket(&[0, 0, 0, 0], 65535), "0.0.0.0:65535");
}

#[test]
fn decimal_text() {
    let mut s = String::from("n=");
    push_decimal(&mut s, 1234567890123);
    assert_eq!(s, "n=1234567890123");
    let mut s = String::new();
    push_decimal(&mut s, 0);
    assert_eq!(s, "0");
}

#[test]
fn port_parsing_follows_u16_parsing() {
    for text in ["8080", "+80", "", "+", "65535", "65536", "0065535", "-1", "12a", " 1", "1 ", "99999999999999999999"] {
        assert_eq!(parse_port(text), text.parse::<u16>().ok(), "{:?}", text);
    }
}

#[test]
fn identity_splits_at_the_only_at_sign() {
    assert_eq!(parse_identity("1234@9000"), Ok(("1234", 9000)));
    assert_eq!(parse_identity("@1"), Ok(("", 1)));
    assert_eq!(parse_identity("a@b@1"), Err(IdentityError::NotWellFormed));
    assert_eq!(parse_identity("key"), Err(IdentityError::NotWellFormed));
    assert_eq!(parse_identity("key@port"), Err(IdentityError::PortNotWellFormed));
    assert_eq!(parse_identity("key@70000"), Err(IdentityError::PortNotWellFormed));
}

#[test]
fn identity_roundtrip() {
    let key = "12345678901234567890";
    let port: u16 = 3000;
    let me = format!("{}@{}", key, port);
    assert_eq!(parse_identity(&me), Ok((key, port)));
}
