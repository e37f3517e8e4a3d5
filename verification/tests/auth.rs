use socks2http::auth::{
    bytes_missing, AuthMethod, AuthStatus, Authenticator, Credential, ProtocolDecodeError,
    MAX_REQUEST_LEN, SUBNEGOTIATION_VERSION,
};
use socks5_impl::protocol::password_method::Request;
use socks5_impl::protocol::StreamOperation;

fn frame(username: &[u8], password: &[u8]) -> Vec<u8> {
    let mut bytes = vec![SUBNEGOTIATION_VERSION, username.len() as u8];
    bytes.extend_from_slice(username);
    bytes.push(password.len() as u8);
    bytes.extend_from_slice(password);
    bytes
}

fn credential(username: &str, password: &str) -> Credential {
    Credential { username: username.to_string(), password: password.to_string() }
}

#[test]
fn offers_only_username_and_password() {
    assert_eq!(Authenticator.auth_method(), AuthMethod::UserPass);
}

#[test]
fn judges_every_pair_a_success() {
    assert_eq!(Authenticator.judge(&credential("alice", "secret")), AuthStatus::Succeeded);
    assert_eq!(Authenticator.judge(&credential("", "")), AuthStatus::Succeeded);
    assert_eq!(Authenticator.judge(&credential("mallory", "wrong")), AuthStatus::Succeeded);
}

#[test]
fn captures_alice_and_answers_success() {
    let request = frame(b"alice", b"secret");
    let exchange = Authenticator.execute(&request).unwrap();
    assert_eq!(exchange.credential, credential("alice", "secret"));
    assert_eq!(exchange.status, AuthStatus::Succeeded);
    assert_eq!(exchange.response, vec![0x01, 0x00]);
    assert_eq!(exchange.consumed, 14);
}

#[test]
fn captures_empty_username_and_password() {
    let exchange = Authenticator.execute(&[0x01, 0x00, 0x00]).unwrap();
    assert_eq!(exchange.credential, credential("", ""));
    assert_eq!(exchange.status, AuthStatus::Succeeded);
    assert_eq!(exchange.response, vec![0x01, 0x00]);
    assert_eq!(exchange.consumed, 3);
}

#[test]
fn captures_empty_username_with_password() {
    let exchange = Authenticator.execute(&frame(b"", b"pw")).unwrap();
    assert_eq!(exchange.credential, credential("", "pw"));
    assert_eq!(exchange.consumed, 5);
}

#[test]
fn captures_username_with_empty_password() {
    let exchange = Authenticator.execute(&frame(b"bob", b"")).unwrap();
    assert_eq!(exchange.credential, credential("bob", ""));
    assert_eq!(exchange.consumed, 6);
}

#[test]
fn captures_text_beyond_ascii() {
    let exchange =
        Authenticator.execute(&frame("zo\u{eb}".as_bytes(), "\u{1f511}".as_bytes())).unwrap();
    assert_eq!(exchange.credential, credential("zo\u{eb}", "\u{1f511}"));
    assert_eq!(exchange.consumed, 3 + 4 + 4);
}

#[test]
fn captures_the_longest_fields() {
    let username = "u".repeat(255);
    let password = "p".repeat(255);
    let request = frame(username.as_bytes(), password.as_bytes());
    assert_eq!(request.len(), MAX_REQUEST_LEN);
    let exchange = Authenticator.execute(&request).unwrap();
    assert_eq!(exchange.credential, credential(&username, &password));
    assert_eq!(exchange.consumed, MAX_REQUEST_LEN);
}

#[test]
fn leaves_bytes_behind_the_request_alone() {
    let mut request = frame(b"alice", b"secret");
    request.extend_from_slice(&[0x05, 0x01, 0x00, 0x03]);
    let exchange = Authenticator.execute(&request).unwrap();
    assert_eq!(exchange.credential, credential("alice", "secret"));
    assert_eq!(exchange.consumed, 14);
}

#[test]
fn decodes_what_the_codec_encodes() {
    let mut request = Vec::new();
    Request::new("carol", "p@ss word").write_to_buf(&mut request);
    let exchange = Authenticator.execute(&request).unwrap();
    assert_eq!(exchange.credential, credential("carol", "p@ss word"));
    assert_eq!(exchange.consumed, request.len());
}

#[test]
fn refuses_another_version() {
    let mut request = frame(b"alice", b"secret");
    request[0] = 0x05;
    assert_eq!(Authenticator.execute(&request), Err(ProtocolDecodeError::UnsupportedVersion));
    assert_eq!(Authenticator.execute(&[0x00]), Err(ProtocolDecodeError::UnsupportedVersion));
}

#[test]
fn refuses_a_request_that_ends_early() {
    let request = frame(b"alice", b"secret");
    for len in 0..request.len() {
        assert_eq!(
            Authenticator.execute(&request[..len]),
            Err(ProtocolDecodeError::Truncated),
            "after {} bytes",
            len
        );
    }
}

#[test]
fn refuses_fields_that_are_not_text() {
    assert_eq!(
        Authenticator.execute(&frame(&[0xff, 0xfe], b"secret")),
        Err(ProtocolDecodeError::InvalidText)
    );
    assert_eq!(
        Authenticator.execute(&frame(b"alice", &[0xc3])),
        Err(ProtocolDecodeError::InvalidText)
    );
}

#[test]
fn asks_for_a_request_piece_by_piece() {
    let request = frame(b"alice", b"secret");
    assert_eq!(bytes_missing(&request[..0]), 1);
    assert_eq!(bytes_missing(&request[..1]), 1);
    assert_eq!(bytes_missing(&request[..2]), 6);
    assert_eq!(bytes_missing(&request[..5]), 3);
    assert_eq!(bytes_missing(&request[..8]), 6);
    assert_eq!(bytes_missing(&request[..13]), 1);
    assert_eq!(bytes_missing(&request), 0);
}

#[test]
fn asks_for_nothing_behind_a_wrong_version() {
    assert_eq!(bytes_missing(&[0x05]), 0);
    assert_eq!(bytes_missing(&[0x05, 0x01]), 0);
}

#[test]
fn reading_what_is_missing_ends_in_a_decision() {
    let request = frame(b"", b"");
    let mut read: Vec<u8> = Vec::new();
    let mut reads = 0;
    loop {
        let n = bytes_missing(&read);
        if n == 0 {
            break;
        }
        let from = read.len();
        read.extend_from_slice(&request[from..from + n]);
        reads += 1;
    }
    assert_eq!(read, request);
    assert_eq!(reads, 3);
    assert!(Authenticator.execute(&read).is_ok());
}
