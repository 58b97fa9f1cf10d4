use vstd::prelude::*;
use vstd::string::*;
use crate::app_error::{AppError, StatusCode};

verus! {

/// Whether `pattern` compiles as a regular expression that matches somewhere in `text`.
pub uninterp spec fn regex_found(pattern: Seq<char>, text: Seq<char>) -> bool;

/// What bcrypt's verification says of `password` against `hash`:
/// `None` where the hash cannot be read, else whether the password produced it.
pub uninterp spec fn bcrypt_verdict(password: Seq<char>, hash: Seq<char>) -> Option<bool>;

/// Whether `c` is one of the characters `!@#$%^&*(),.?:{}|<>`.
pub open spec fn is_special_char(c: char) -> bool {
    c == '!' || c == '@' || c == '#' || c == '$' || c == '%' || c == '^' || c == '&' || c == '*'
        || c == '(' || c == ')' || c == ',' || c == '.' || c == '?' || c == ':' || c == '{'
        || c == '}' || c == '|' || c == '<' || c == '>'
}

/// Whether some character of `s` satisfies `p`.
pub open spec fn has_char(s: Seq<char>, p: spec_fn(char) -> bool) -> bool {
    exists|i: int| 0 <= i < s.len() && p(#[trigger] s[i])
}

/// Relies on regex::Regex::new and Regex::is_match: a pattern that fails to
/// compile matches nothing, and the answer depends on the two strings alone.
/// A bracketed class of literal characters matches where some character of
/// the text is in the class.
#[verifier::external_body]
fn regex_is_match(pattern: &str, text: &str) -> (r: bool)
    ensures
        r == regex_found(pattern@, text@),
        pattern@ == special_pattern() ==> (r <==> has_char(text@, |c: char| is_special_char(c))),
        pattern@ == upper_pattern() ==> (r <==> has_char(text@, |c: char| 'A' <= c <= 'Z')),
{
    match regex::Regex::new(pattern) {
        Ok(re) => re.is_match(text),
        Err(_) => false,
    }
}

#[verifier::external_type_specification]
#[verifier::external_body]
pub struct ExBcryptError(bcrypt::BcryptError);

/// Relies on bcrypt::hash: with a random salt it produces a hash that
/// bcrypt::verify accepts for the same password.
#[verifier::external_body]
fn bcrypt_hash(password: &str, cost: u32) -> (r: Result<String, bcrypt::BcryptError>)
    ensures
        r is Ok ==> bcrypt_verdict(password@, r->Ok_0@) == Some(true),
{
    bcrypt::hash(password, cost)
}

/// Relies on bcrypt::verify: an error where the hash is malformed, else
/// whether the password matches it.
#[verifier::external_body]
fn bcrypt_verify(password: &str, hash: &str) -> (r: Result<bool, bcrypt::BcryptError>)
    ensures
        r is Ok <==> bcrypt_verdict(password@, hash@) is Some,
        r is Ok ==> bcrypt_verdict(password@, hash@) == Some(r->Ok_0),
{
    bcrypt::verify(password, hash)
}

/// Relies on the `Display` impl of bcrypt::BcryptError, for the error message.
#[verifier::external_body]
fn bcrypt_error_message(e: &bcrypt::BcryptError) -> (r: String) {
    e.to_string()
}

/// The work factor that hashes are made with.
pub const HASH_COST: u32 = 12;

/// The password-policy rule that a password breaks.
#[derive(Debug, Clone, Copy, PartialEq, Eq, Structural)]
pub enum PasswordRule {
    Length,
    Special,
    Number,
    Case,
}

impl PasswordRule {
    pub open spec fn spec_code(self) -> Seq<char> {
        match self {
            PasswordRule::Length => "length"@,
            PasswordRule::Special => "special"@,
            PasswordRule::Number => "number"@,
            PasswordRule::Case => "case"@,
        }
    }

    pub open spec fn spec_message(self) -> Seq<char> {
        match self {
            PasswordRule::Length => "Password needs to be at least 8 characters long."@,
            PasswordRule::Special => "Password must contain at least one special character."@,
            PasswordRule::Number => "Password must contain at least one number."@,
            PasswordRule::Case => "Password must contain at least one uppercase character."@,
        }
    }

    /// A short name of the rule.
    pub fn code(&self) -> (r: String)
        ensures
            r@ == self.spec_code(),
    {
        match self {
            PasswordRule::Length => "length".to_owned(),
            PasswordRule::Special => "special".to_owned(),
            PasswordRule::Number => "number".to_owned(),
            PasswordRule::Case => "case".to_owned(),
        }
    }

    /// What a user is told about the rule.
    pub fn message(&self) -> (r: String)
        ensures
            r@ == self.spec_message(),
    {
        match self {
            PasswordRule::Length => "Password needs to be at least 8 characters long.".to_owned(),
            PasswordRule::Special => "Password must contain at least one special character.".to_owned(),
            PasswordRule::Number => "Password must contain at least one number.".to_owned(),
            PasswordRule::Case => "Password must contain at least one uppercase character.".to_owned(),
        }
    }
}

/// The fewest bytes a password may have.
pub const MIN_PASSWORD_BYTES: usize = 8;

pub open spec fn special_pattern() -> Seq<char> {
    "[!@#$%^&*(),.?:{}|<>]"@
}

pub open spec fn digit_pattern() -> Seq<char> {
    "\\d"@
}

pub open spec fn upper_pattern() -> Seq<char> {
    "[A-Z]"@
}

/// The length in bytes of the UTF-8 encoding of `s`, as `str::len` reports it.
pub open spec fn utf8_len(s: Seq<char>) -> usize {
    vstd::utf8::encode_utf8(s).len() as usize
}

/// The policy's verdict on the text `s`; a digit is what the regex class
/// `\d` accepts (any Unicode decimal digit).
pub open spec fn policy_of(s: Seq<char>) -> Result<(), PasswordRule> {
    policy_verdict(
        utf8_len(s) as nat,
        has_char(s, |c: char| is_special_char(c)),
        regex_found(digit_pattern(), s),
        has_char(s, |c: char| 'A' <= c <= 'Z'),
    )
}

/// The policy's verdict, the rules taken in order: length, special
/// character, digit, upper-case letter; the first broken one is reported.
pub open spec fn policy_verdict(byte_len: nat, special: bool, digit: bool, upper: bool) -> Result<(), PasswordRule> {
    if byte_len < MIN_PASSWORD_BYTES {
        Err(PasswordRule::Length)
    } else if !special {
        Err(PasswordRule::Special)
    } else if !digit {
        Err(PasswordRule::Number)
    } else if !upper {
        Err(PasswordRule::Case)
    } else {
        Ok(())
    }
}

/// The policy's verdict on a password of `byte_len` bytes, given whether it
/// holds a special character, a digit and an upper-case letter.
pub fn check_password_rules(byte_len: usize, special: bool, digit: bool, upper: bool) -> (r: Result<(), PasswordRule>)
    ensures
        r == policy_verdict(byte_len as nat, special, digit, upper),
{
    if byte_len < MIN_PASSWORD_BYTES {
        Err(PasswordRule::Length)
    } else if !special {
        Err(PasswordRule::Special)
    } else if !digit {
        Err(PasswordRule::Number)
    } else if !upper {
        Err(PasswordRule::Case)
    } else {
        Ok(())
    }
}

/// Checks a password against the strength policy.
pub fn validate_password(password: &str) -> (r: Result<(), PasswordRule>)
    ensures
        r == policy_of(password@),
{
    let special = regex_is_match("[!@#$%^&*(),.?:{}|<>]", password);
    let digit = regex_is_match("\\d", password);
    let upper = regex_is_match("[A-Z]", password);
    check_password_rules(password.len(), special, digit, upper)
}

/// Hashes a password with a fresh salt; the hash verifies against the same password.
pub fn hash_password(password: String) -> (r: Result<String, AppError>)
    ensures
        r is Ok ==> bcrypt_verdict(password@, r->Ok_0@) == Some(true),
        r is Err ==> r->Err_0.code == StatusCode::InternalServerError,
{
    match bcrypt_hash(password.as_str(), HASH_COST) {
        Ok(h) => Ok(h),
        Err(e) => Err(AppError::new(StatusCode::InternalServerError, bcrypt_error_message(&e))),
    }
}

/// Whether `password` matches the stored `hash`; a hash that cannot be read is an internal error.
pub fn verify_password(password: String, hash: &str) -> (r: Result<bool, AppError>)
    ensures
        r is Ok <==> bcrypt_verdict(password@, hash@) is Some,
        r is Ok ==> bcrypt_verdict(password@, hash@) == Some(r->Ok_0),
        r is Err ==> r->Err_0.code == StatusCode::InternalServerError,
{
    match bcrypt_verify(password.as_str(), hash) {
        Ok(b) => Ok(b),
        Err(e) => Err(AppError::new(StatusCode::InternalServerError, bcrypt_error_message(&e))),
    }
}

} // verus!
