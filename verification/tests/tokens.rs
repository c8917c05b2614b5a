use hmac::{Hmac, Mac};
use jwt::{Header, RegisteredClaims, SignWithKey, Token};
use sha2::Sha256;
use taskboard::auth::{login, read_token, secret_key, token_answer, token_verdict, ApiKey, LoginError};
use taskboard::types::Credentials;
use taskboard::user::User;

fn signed(subject: Option<&str>, secret: &[u8]) -> String {
    let key: Hmac<Sha256> = Hmac::new_from_slice(secret).unwrap();
    let claims = RegisteredClaims {
        subject: subject.map(|s| s.to_string()),
        ..Default::default()
    };
    let token = Token::new(Header::default(), claims)
        .sign_with_key(&key)
        .unwrap();
    token.as_str().to_string()
}

fn issued_to(name: &str) -> String {
    let users = vec![User {
        id: Some(1),
        username: name.to_string(),
        password: "pw".to_string(),
    }];
    let credentials = Credentials {
        username: name.to_string(),
        password: "pw".to_string(),
    };
    let response = login(&credentials, &users).unwrap();
    assert!(response.success);
    response.token
}

#[test]
fn token_names_its_user() {
    let token = issued_to("u1");
    assert_ne!(token, "u1");
    assert_eq!(token.split('.').count(), 3);
    assert_eq!(read_token(&token), Ok("u1".to_string()));
    assert_eq!(token, signed(Some("u1"), b"secret_key"));
    assert_eq!(read_token(&issued_to("someone else")), Ok("someone else".to_string()));
    assert_eq!(secret_key(), "secret_key");
}

#[test]
fn token_that_does_not_parse() {
    let unparsable = Err("Unable to parse key".to_string());
    assert_eq!(read_token(""), unparsable);
    assert_eq!(read_token("u1"), unparsable);
    assert_eq!(read_token("a.b.c"), unparsable);
    assert_eq!(read_token("a.b"), unparsable);
    let token = issued_to("u1");
    assert_eq!(read_token(&format!("{}.x", token)), unparsable);
}

#[test]
fn token_with_a_wrong_signature() {
    let invalid = Err("Token not valid".to_string());
    assert_eq!(read_token(&signed(Some("u1"), b"other_key")), invalid);
    let token = issued_to("u1");
    let mut parts: Vec<&str> = token.split('.').collect();
    let other = issued_to("u2");
    parts[2] = other.split('.').nth(2).unwrap();
    assert_eq!(read_token(&parts.join(".")), invalid);
    let cut = &token[..token.len() - 2];
    assert_eq!(read_token(cut), invalid);
}

#[test]
fn token_without_a_subject() {
    assert_eq!(
        read_token(&signed(None, b"secret_key")),
        Err("Claims not valid".to_string())
    );
    assert_eq!(
        read_token(&signed(None, b"other_key")),
        Err("Token not valid".to_string())
    );
}

#[test]
fn verdict_names_the_first_failure() {
    let name = || Some(Some("u1".to_string()));
    assert_eq!(token_verdict(name(), true), Ok("u1".to_string()));
    assert_eq!(token_verdict(name(), false), Err("Token not valid".to_string()));
    assert_eq!(token_verdict(Some(None), true), Err("Claims not valid".to_string()));
    assert_eq!(token_verdict(Some(None), false), Err("Token not valid".to_string()));
    assert_eq!(token_verdict(None, true), Err("Unable to parse key".to_string()));
    assert_eq!(token_verdict(None, false), Err("Unable to parse key".to_string()));
}

#[test]
fn answer_to_a_login() {
    let ok = token_answer(Some("tok".to_string())).unwrap();
    assert!(ok.success);
    assert_eq!(ok.token, "tok");
    assert_eq!(token_answer(None).err(), Some(LoginError::Internal));
}

#[test]
fn identity_needs_exactly_one_header() {
    let token = issued_to("u1");
    let key = ApiKey::from_headers(&vec![token.clone()]).unwrap();
    assert_eq!(key.0, "u1");
    assert!(ApiKey::from_headers(&Vec::new()).is_none());
    assert!(ApiKey::from_headers(&vec![token.clone(), token.clone()]).is_none());
    assert!(ApiKey::from_headers(&vec!["nothing".to_string()]).is_none());
    assert!(ApiKey::from_headers(&vec![signed(Some("u1"), b"k")]).is_none());
}
