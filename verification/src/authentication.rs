use vstd::prelude::*;
use vstd::string::{StrSliceExecFns, StringExecFns};
use argon2::PasswordVerifier;
use crate::brawler_model::BrawlerEntity;
use crate::text::{parse_i32, parsed_i32, signed, signed_text};

verus! {

/// How long a session lasts, in seconds: one day.
pub const SESSION_SECONDS: u64 = 86400;

/// What comparing a password with a stored hash gave.
#[derive(Clone, Copy, Debug, PartialEq, Eq, Structural)]
pub enum PasswordCheck {
    /// The password is the one that was hashed.
    Matches,
    /// The password is another one.
    Mismatch,
    /// The stored text is no password hash.
    MalformedHash,
}

/// Why a login was refused.
#[derive(Clone, Copy, Debug, PartialEq, Eq, Structural)]
pub enum LoginError {
    /// The stored text is no password hash.
    InvalidPasswordHash,
    /// The password is wrong.
    InvalidPassword,
    /// The session would end after the last second that can be written.
    SessionOutOfRange,
}

/// What a session token states: whose it is, and from when to when it holds.
#[derive(Debug)]
pub struct Claims {
    pub sub: String,
    pub exp: u64,
    pub iat: u64,
}

/// The login use case: the password check and the claims of the session.
pub struct AuthenticationUseCase {}

/// What Argon2 finds when it compares `password` with the password hash
/// string `stored`, under the parameters and the salt that the string
/// carries.
pub uninterp spec fn argon2_check(password: Seq<char>, stored: Seq<char>) -> PasswordCheck;

/// `argon2::PasswordHash::new` on the stored text, then
/// `Argon2::default().verify_password` on the bytes of the password. The
/// contract only names the result; it depends on the two texts alone.
#[verifier::external_body]
fn check_password(password: &str, stored: &str) -> (check: PasswordCheck)
    ensures
        check == argon2_check(password@, stored@),
{
    match argon2::PasswordHash::new(stored) {
        Ok(parsed) => match argon2::Argon2::default().verify_password(password.as_bytes(), &parsed) {
            Ok(()) => PasswordCheck::Matches,
            Err(_) => PasswordCheck::Mismatch,
        },
        Err(_) => PasswordCheck::MalformedHash,
    }
}

/// The outcome of a login at the time `now`, in seconds since the epoch,
/// once the password has been compared.
pub open spec fn login_outcome(brawler_id: i32, check: PasswordCheck, now: u64) -> Result<
    (Seq<char>, int, int),
    LoginError,
> {
    match check {
        PasswordCheck::MalformedHash => Err(LoginError::InvalidPasswordHash),
        PasswordCheck::Mismatch => Err(LoginError::InvalidPassword),
        PasswordCheck::Matches => if now + SESSION_SECONDS > u64::MAX {
            Err(LoginError::SessionOutOfRange)
        } else {
            Ok((signed_text(brawler_id as int), now + SESSION_SECONDS, now as int))
        },
    }
}

impl AuthenticationUseCase {
    pub fn new() -> (use_case: AuthenticationUseCase) {
        AuthenticationUseCase {}
    }

    /// Decides a login from the result of the password check: a matching
    /// password opens a session of one day for the brawler.
    pub fn claims_after_check(&self, brawler_id: i32, check: PasswordCheck, now: u64) -> (claims:
        Result<Claims, LoginError>)
        ensures
            match login_outcome(brawler_id, check, now) {
                Ok((sub, exp, iat)) => claims matches Ok(made) && made.sub@ == sub && made.exp
                    == exp && made.iat == iat,
                Err(e) => claims matches Err(refusal) && refusal == e,
            },
    {
        match check {
            PasswordCheck::MalformedHash => Err(LoginError::InvalidPasswordHash),
            PasswordCheck::Mismatch => Err(LoginError::InvalidPassword),
            PasswordCheck::Matches => {
                match now.checked_add(SESSION_SECONDS) {
                    Some(exp) => Ok(Claims { sub: signed(brawler_id as i64), exp, iat: now }),
                    None => Err(LoginError::SessionOutOfRange),
                }
            },
        }
    }

    /// Logs `brawler` in with `password` at the time `now`, in seconds since
    /// the epoch: compares the password with the stored hash and, where it
    /// matches, states the claims of a session of one day.
    pub fn login(&self, brawler: &BrawlerEntity, password: &str, now: u64) -> (claims: Result<
        Claims,
        LoginError,
    >)
        ensures
            match login_outcome(brawler.id, argon2_check(password@, brawler.password@), now) {
                Ok((sub, exp, iat)) => claims matches Ok(made) && made.sub@ == sub && made.exp
                    == exp && made.iat == iat,
                Err(e) => claims matches Err(refusal) && refusal == e,
            },
    {
        let check = check_password(password, brawler.password.as_str());
        self.claims_after_check(brawler.id, check, now)
    }
}

/// The token of an `Authorization` header: what follows `Bearer `. `None`
/// where the header does not begin so.
pub open spec fn bearer_of(header: Seq<char>) -> Option<Seq<char>> {
    if header.len() >= 7 && header.take(7) == "Bearer "@ {
        Some(header.skip(7))
    } else {
        None
    }
}

/// Takes the token out of an `Authorization` header.
pub fn bearer_token(header: &str) -> (token: Option<&str>)
    ensures
        match bearer_of(header@) {
            Some(text) => token matches Some(found) && found@ == text,
            None => token is None,
        },
{
    let len = header.unicode_len();
    if len < 7 {
        return None;
    }
    let prefix = header.substring_char(0, 7);
    proof {
        assert(header@.take(7) =~= header@.subrange(0, 7));
        assert(header@.skip(7) =~= header@.subrange(7, len as int));
    }
    if String::from_str(prefix) == String::from_str("Bearer ") {
        Some(header.substring_char(7, len))
    } else {
        None
    }
}

/// The brawler that the claims of a verified token name: the subject, read
/// as a decimal `i32`. `None` where the subject is no such number.
pub fn user_id_of(claims: &Claims) -> (user_id: Option<i32>)
    ensures
        user_id == parsed_i32(claims.sub@),
{
    parse_i32(claims.sub.as_str())
}

} // verus!
