//! Bearer tokens: a signed token names the user it was issued to.
use crate::text::text_view;
use crate::types::{Credentials, TokenResponse};
use crate::user::{login_finds, users_stored, User};
use hmac::{Hmac, Mac};
use jwt::{Header, RegisteredClaims, SignWithKey, Token, VerifyWithKey};
use sha2::Sha256;
use vstd::prelude::*;

verus! {

/// The identity recovered from the token that a request presented.
#[derive(Debug)]
pub struct ApiKey(pub String);

/// Why a login did not yield a token.
#[derive(Debug, Clone, Copy, PartialEq, Eq, Structural)]
pub enum LoginError {
    /// No user has this name and password.
    NotFound,
    /// The user is known but the token could not be signed.
    Internal,
}

/// What parsing `key` as a token yields: nothing where it is no token,
/// else the subject that its claims name, if they name one.
pub uninterp spec fn jwt_subject(key: Seq<char>) -> Option<Option<Seq<char>>>;

/// Whether `key` is a token whose signature was made with `secret`.
pub uninterp spec fn jwt_verifies(key: Seq<char>, secret: Seq<char>) -> bool;

/// The token that names `subject`, signed with `secret`; nothing where
/// signing fails.
pub uninterp spec fn jwt_signed(subject: Seq<char>, secret: Seq<char>) -> Option<Seq<char>>;

/// A parse result as characters.
pub open spec fn parsed_view(p: Option<Option<String>>) -> Option<Option<Seq<char>>> {
    match p {
        Some(s) => Some(text_view(s)),
        None => None,
    }
}

/// The outcome of reading a token as characters.
pub open spec fn outcome_view(r: Result<String, String>) -> Result<Seq<char>, Seq<char>> {
    match r {
        Ok(s) => Ok(s@),
        Err(e) => Err(e@),
    }
}

/// What reading a token yields, given what parsing it gave and whether its
/// signature holds: the subject of a token that parses, is rightly signed
/// and names a subject; else the reason, which names the first of these
/// that failed.
pub open spec fn verdict(parsed: Option<Option<Seq<char>>>, verified: bool) -> Result<
    Seq<char>,
    Seq<char>,
> {
    match parsed {
        None => Err("Unable to parse key"@),
        Some(subject) => if !verified {
            Err("Token not valid"@)
        } else {
            match subject {
                Some(s) => Ok(s),
                None => Err("Claims not valid"@),
            }
        },
    }
}

/// The key that tokens are signed with.
pub fn secret_key() -> (r: &'static str)
    ensures
        r@ == "secret_key"@,
{
    "secret_key"
}

/// Parses `key` with `jwt::Token::parse_unverified`, with the crate's
/// `Header` and `RegisteredClaims`, and hands out the `subject` of its
/// claims; `None` where parsing fails. The contract only names the outcome.
#[verifier::external_body]
fn parse_subject(key: &str) -> (r: Option<Option<String>>)
    ensures
        parsed_view(r) == jwt_subject(key@),
{
    let parsed: Result<Token<Header, RegisteredClaims, _>, jwt::Error> = Token::parse_unverified(
        key,
    );
    match parsed {
        Ok(token) => Some(token.claims().subject.clone()),
        Err(_) => None,
    }
}

/// Checks `key` with `jwt::VerifyWithKey::verify_with_key` under an
/// HMAC-SHA256 key made of `secret` by `hmac::Mac::new_from_slice`. `true`
/// where the check succeeds. The contract only names the outcome.
#[verifier::external_body]
fn signature_holds(key: &str, secret: &str) -> (r: bool)
    ensures
        r == jwt_verifies(key@, secret@),
{
    let mac: Hmac<Sha256> = match Hmac::new_from_slice(secret.as_bytes()) {
        Ok(m) => m,
        Err(_) => return false,
    };
    let checked: Result<Token<Header, RegisteredClaims, _>, jwt::Error> = key.verify_with_key(&mac);
    checked.is_ok()
}

/// Signs a token for `subject` with `jwt::SignWithKey::sign_with_key`, under
/// an HMAC-SHA256 key made of `secret` by `hmac::Mac::new_from_slice`: the
/// crate's default `Header`, and `RegisteredClaims` with only the subject
/// set. `None` where signing fails. The contract only names the outcome.
#[verifier::external_body]
fn sign_subject(subject: &str, secret: &str) -> (r: Option<String>)
    ensures
        text_view(r) == jwt_signed(subject@, secret@),
{
    let mac: Hmac<Sha256> = match Hmac::new_from_slice(secret.as_bytes()) {
        Ok(m) => m,
        Err(_) => return None,
    };
    let claims = RegisteredClaims { subject: Some(subject.to_owned()), ..Default::default() };
    match Token::new(Header::default(), claims).sign_with_key(&mac) {
        Ok(token) => Some(token.as_str().to_owned()),
        Err(_) => None,
    }
}

/// What reading a token yields, given what parsing it gave and whether its
/// signature holds.
pub fn token_verdict(parsed: Option<Option<String>>, verified: bool) -> (r: Result<String, String>)
    ensures
        outcome_view(r) == verdict(parsed_view(parsed), verified),
{
    match parsed {
        None => Err("Unable to parse key".to_owned()),
        Some(subject) => {
            if !verified {
                Err("Token not valid".to_owned())
            } else {
                match subject {
                    Some(s) => Ok(s),
                    None => Err("Claims not valid".to_owned()),
                }
            }
        },
    }
}

/// Reads the user name out of a token: the subject of `key` where it parses
/// as a token, is signed with the secret key and names a subject.
pub fn read_token(key: &str) -> (r: Result<String, String>)
    ensures
        outcome_view(r) == verdict(jwt_subject(key@), jwt_verifies(key@, "secret_key"@)),
{
    let parsed = parse_subject(key);
    let verified = match parsed {
        Some(_) => signature_holds(key, secret_key()),
        None => false,
    };
    token_verdict(parsed, verified)
}

impl ApiKey {
    /// The identity behind a request, from the values of its
    /// `Authorization` headers: there is one only where the request carries
    /// exactly one such header and its value reads as a token.
    pub fn from_headers(keys: &Vec<String>) -> (r: Option<ApiKey>)
        ensures
            match r {
                Some(key) => keys.len() == 1 && verdict(
                    jwt_subject(keys[0]@),
                    jwt_verifies(keys[0]@, "secret_key"@),
                ) == Ok::<Seq<char>, Seq<char>>(key.0@),
                None => keys.len() != 1 || verdict(
                    jwt_subject(keys[0]@),
                    jwt_verifies(keys[0]@, "secret_key"@),
                ) is Err,
            },
    {
        if keys.len() != 1 {
            return None;
        }
        match read_token(keys[0].as_str()) {
            Ok(claim) => Some(ApiKey(claim)),
            Err(_) => None,
        }
    }
}

/// The answer to a login of a known user, given the token signed for the
/// user: the token, or the failure to sign.
pub fn token_answer(signed: Option<String>) -> (r: Result<TokenResponse, LoginError>)
    ensures
        match signed {
            Some(token) => r matches Ok(t) && t.success && t.token == token,
            None => r == Err::<TokenResponse, LoginError>(LoginError::Internal),
        },
{
    match signed {
        Some(token) => Ok(TokenResponse::new(true, token)),
        None => Err(LoginError::Internal),
    }
}

/// Logs a user in: where a user has the given name and password, the answer
/// holds a token signed for that user's name.
pub fn login(credentials: &Credentials, users: &Vec<User>) -> (r: Result<TokenResponse, LoginError>)
    requires
        users_stored(users@),
    ensures
        (forall|j: int|
            0 <= j < users.len() ==> !((#[trigger] users[j]).username@ == credentials.username@
                && users[j].password@ == credentials.password@)) ==> r == Err::<
            TokenResponse,
            LoginError,
        >(LoginError::NotFound),
        forall|at: int|
            login_finds(credentials.username@, credentials.password@, users@, at) ==> (match jwt_signed(
                users[at].username@,
                "secret_key"@,
            ) {
                Some(token) => r matches Ok(t) && t.success && t.token@ == token,
                None => r == Err::<TokenResponse, LoginError>(LoginError::Internal),
            }),
{
    let found = User::by_username_and_password(
        credentials.username.clone(),
        credentials.password.clone(),
        users,
    );
    match found {
        None => Err(LoginError::NotFound),
        Some(user) => token_answer(sign_subject(user.username.as_str(), secret_key())),
    }
}

} // verus!
