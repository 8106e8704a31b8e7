//! Deciding, from what the CAPTCHA service and the profile service answered,
//! whether a vote request may go on.
use vstd::prelude::*;
use vstd::string::*;

use crate::text::{lower_of, mentions, text_mentions, to_lowercase};

verus! {

/// The longest username accepted, in characters.
pub const MAX_USERNAME_LEN: usize = 30;

/// The part of the CAPTCHA service's answer that the decision reads.
#[derive(Clone, Copy, Debug, PartialEq, Eq, Structural)]
pub struct RecaptchaResponse {
    pub success: bool,
}

/// What came back from asking the CAPTCHA service about a token.
#[derive(Clone, Copy, Debug, PartialEq, Eq, Structural)]
pub enum CaptchaReply {
    /// The service could not be reached, answered with a failure status, or
    /// timed out.
    Unreachable,
    /// The service answered with a body that is not a verification result.
    Malformed,
    /// The service answered with a verification result.
    Answered(RecaptchaResponse),
}

/// What came back from looking a username up on the profile service.
#[derive(Clone, Debug)]
pub enum ProfileReply {
    /// The service could not be reached or timed out.
    Unreachable,
    /// The profile page's content.
    Page(String),
}

/// Why a CAPTCHA token was not accepted.
#[derive(Clone, Copy, Debug, PartialEq, Eq, Structural)]
pub enum CheckTokenError {
    GoogleNotWorking,
    FailedToParse,
    RecaptchaFailed,
}

/// Why a username was not accepted.
#[derive(Clone, Copy, Debug, PartialEq, Eq, Structural)]
pub enum UsernameCheckError {
    ThreadsNotWorking,
    UserNotFound,
    LengthInvalid,
}

/// The decision on a CAPTCHA reply.
pub open spec fn captcha_verdict(reply: CaptchaReply) -> Result<(), CheckTokenError> {
    match reply {
        CaptchaReply::Unreachable => Err(CheckTokenError::GoogleNotWorking),
        CaptchaReply::Malformed => Err(CheckTokenError::FailedToParse),
        CaptchaReply::Answered(resp) => if resp.success {
            Ok(())
        } else {
            Err(CheckTokenError::RecaptchaFailed)
        },
    }
}

/// A username has between 1 and `MAX_USERNAME_LEN` characters.
pub open spec fn username_length_ok(name: Seq<char>) -> bool {
    0 < name.len() <= MAX_USERNAME_LEN
}

/// The decision on a username and what the profile service answered for it:
/// the length is checked first, then the page must mention the username,
/// ignoring case.
pub open spec fn username_verdict(name: Seq<char>, reply: ProfileReply) -> Result<
    (),
    UsernameCheckError,
> {
    if !username_length_ok(name) {
        Err(UsernameCheckError::LengthInvalid)
    } else {
        match reply {
            ProfileReply::Unreachable => Err(UsernameCheckError::ThreadsNotWorking),
            ProfileReply::Page(page) => if mentions(lower_of(page@), lower_of(name)) {
                Ok(())
            } else {
                Err(UsernameCheckError::UserNotFound)
            },
        }
    }
}

/// Accepts a CAPTCHA token exactly when the service answered and confirmed it.
pub fn check_recaptcha_token(reply: &CaptchaReply) -> (r: Result<(), CheckTokenError>)
    ensures
        r == captcha_verdict(*reply),
{
    match reply {
        CaptchaReply::Unreachable => Err(CheckTokenError::GoogleNotWorking),
        CaptchaReply::Malformed => Err(CheckTokenError::FailedToParse),
        CaptchaReply::Answered(resp) => {
            if resp.success {
                Ok(())
            } else {
                Err(CheckTokenError::RecaptchaFailed)
            }
        },
    }
}

/// The length check that comes before any profile lookup.
pub fn check_username_length(username: &str) -> (r: Result<(), UsernameCheckError>)
    ensures
        r is Ok <==> username_length_ok(username@),
        r is Err ==> r == Err::<(), UsernameCheckError>(UsernameCheckError::LengthInvalid),
{
    let n = username.unicode_len();
    if n == 0 || n > MAX_USERNAME_LEN {
        Err(UsernameCheckError::LengthInvalid)
    } else {
        Ok(())
    }
}

/// The step before the profile lookup: the username is lowercased, and a
/// lookup is owed only when the lowercased name has a valid length. On
/// success, the name to look up.
pub fn username_to_look_up(username: &str) -> (r: Result<String, UsernameCheckError>)
    ensures
        match r {
            Ok(name) => name@ == lower_of(username@) && username_length_ok(name@),
            Err(e) => e == UsernameCheckError::LengthInvalid && !username_length_ok(
                lower_of(username@),
            ),
        },
{
    let name = to_lowercase(username);
    match check_username_length(name.as_str()) {
        Ok(()) => Ok(name),
        Err(e) => Err(e),
    }
}

/// Accepts a username whose length is valid and whose profile page mentions
/// it, ignoring case.
pub fn check_username(username: &str, reply: &ProfileReply) -> (r: Result<(), UsernameCheckError>)
    ensures
        r == username_verdict(username@, *reply),
{
    check_username_length(username)?;
    match reply {
        ProfileReply::Unreachable => Err(UsernameCheckError::ThreadsNotWorking),
        ProfileReply::Page(page) => {
            let page_lower = to_lowercase(page.as_str());
            let name_lower = to_lowercase(username);
            if text_mentions(page_lower.as_str(), name_lower.as_str()) {
                Ok(())
            } else {
                Err(UsernameCheckError::UserNotFound)
            }
        },
    }
}

} // verus!
