//! How each refusal is reported: a transport status, a short code and a
//! message.
use vstd::prelude::*;

use crate::leaderboard::LeaderboardError;
use crate::verification::{CheckTokenError, UsernameCheckError};
use crate::vote::VoteError;
use crate::voter::{DeleteVoterError, VoterError};

verus! {

/// The transport status of a refused vote.
pub open spec fn vote_status(e: VoteError) -> u16 {
    match e {
        VoteError::Captcha(CheckTokenError::GoogleNotWorking) => 503,
        VoteError::Captcha(CheckTokenError::FailedToParse) => 500,
        VoteError::Captcha(CheckTokenError::RecaptchaFailed) => 403,
        VoteError::Username(UsernameCheckError::ThreadsNotWorking) => 503,
        VoteError::Username(UsernameCheckError::UserNotFound) => 404,
        VoteError::Username(UsernameCheckError::LengthInvalid) => 400,
        VoteError::Voter(VoterError::AlreadyVoted) => 409,
        VoteError::Voter(VoterError::ModelError) => 500,
    }
}

/// The short code of a refused vote.
pub open spec fn vote_code(e: VoteError) -> Seq<char> {
    match e {
        VoteError::Captcha(CheckTokenError::GoogleNotWorking) => "GOOGLE_NOT_WORKING"@,
        VoteError::Captcha(CheckTokenError::FailedToParse) => "FAILED_TO_PARSE"@,
        VoteError::Captcha(CheckTokenError::RecaptchaFailed) => "RECAPTCHA_FAILED"@,
        VoteError::Username(UsernameCheckError::ThreadsNotWorking) => "THREADS_NOT_WORKING"@,
        VoteError::Username(UsernameCheckError::UserNotFound) => "USER_NOT_FOUND"@,
        VoteError::Username(UsernameCheckError::LengthInvalid) => "LENGTH_INVALID"@,
        VoteError::Voter(VoterError::AlreadyVoted) => "ALREADY_VOTED"@,
        VoteError::Voter(VoterError::ModelError) => "INTERNAL_ERROR"@,
    }
}

/// The message of a refused vote.
pub open spec fn vote_message(e: VoteError) -> Seq<char> {
    match e {
        VoteError::Captcha(CheckTokenError::GoogleNotWorking) => "Google not working"@,
        VoteError::Captcha(CheckTokenError::FailedToParse) => "Failed to parse recaptcha response"@,
        VoteError::Captcha(CheckTokenError::RecaptchaFailed) => "Recaptcha failed"@,
        VoteError::Username(UsernameCheckError::ThreadsNotWorking) => "Threads not working"@,
        VoteError::Username(UsernameCheckError::UserNotFound) => "User not found"@,
        VoteError::Username(UsernameCheckError::LengthInvalid) => "Username is too long/short"@,
        VoteError::Voter(VoterError::AlreadyVoted) => "You have already voted"@,
        VoteError::Voter(VoterError::ModelError) => "Internal server error"@,
    }
}

impl VoteError {
    /// The transport status that reports this refusal.
    pub fn status_code(&self) -> (r: u16)
        ensures
            r == vote_status(*self),
    {
        match self {
            VoteError::Captcha(CheckTokenError::GoogleNotWorking) => 503,
            VoteError::Captcha(CheckTokenError::FailedToParse) => 500,
            VoteError::Captcha(CheckTokenError::RecaptchaFailed) => 403,
            VoteError::Username(UsernameCheckError::ThreadsNotWorking) => 503,
            VoteError::Username(UsernameCheckError::UserNotFound) => 404,
            VoteError::Username(UsernameCheckError::LengthInvalid) => 400,
            VoteError::Voter(VoterError::AlreadyVoted) => 409,
            VoteError::Voter(VoterError::ModelError) => 500,
        }
    }

    /// The short code that reports this refusal.
    pub fn code(&self) -> (r: &'static str)
        ensures
            r@ == vote_code(*self),
    {
        match self {
            VoteError::Captcha(CheckTokenError::GoogleNotWorking) => "GOOGLE_NOT_WORKING",
            VoteError::Captcha(CheckTokenError::FailedToParse) => "FAILED_TO_PARSE",
            VoteError::Captcha(CheckTokenError::RecaptchaFailed) => "RECAPTCHA_FAILED",
            VoteError::Username(UsernameCheckError::ThreadsNotWorking) => "THREADS_NOT_WORKING",
            VoteError::Username(UsernameCheckError::UserNotFound) => "USER_NOT_FOUND",
            VoteError::Username(UsernameCheckError::LengthInvalid) => "LENGTH_INVALID",
            VoteError::Voter(VoterError::AlreadyVoted) => "ALREADY_VOTED",
            VoteError::Voter(VoterError::ModelError) => "INTERNAL_ERROR",
        }
    }

    /// The message that reports this refusal.
    pub fn message(&self) -> (r: &'static str)
        ensures
            r@ == vote_message(*self),
    {
        match self {
            VoteError::Captcha(CheckTokenError::GoogleNotWorking) => "Google not working",
            VoteError::Captcha(CheckTokenError::FailedToParse) => "Failed to parse recaptcha response",
            VoteError::Captcha(CheckTokenError::RecaptchaFailed) => "Recaptcha failed",
            VoteError::Username(UsernameCheckError::ThreadsNotWorking) => "Threads not working",
            VoteError::Username(UsernameCheckError::UserNotFound) => "User not found",
            VoteError::Username(UsernameCheckError::LengthInvalid) => "Username is too long/short",
            VoteError::Voter(VoterError::AlreadyVoted) => "You have already voted",
            VoteError::Voter(VoterError::ModelError) => "Internal server error",
        }
    }
}

impl DeleteVoterError {
    /// The transport status that reports this refusal.
    pub fn status_code(&self) -> (r: u16)
        ensures
            r == 404,
    {
        404
    }

    /// The short code that reports this refusal.
    pub fn code(&self) -> (r: &'static str)
        ensures
            r@ == "NOT_FOUND"@,
    {
        "NOT_FOUND"
    }

    /// The message that reports this refusal.
    pub fn message(&self) -> (r: &'static str)
        ensures
            r@ == "Voter not found"@,
    {
        "Voter not found"
    }
}

impl LeaderboardError {
    /// The transport status that reports this refusal.
    pub fn status_code(&self) -> (r: u16)
        ensures
            r == (match *self {
                LeaderboardError::InvalidPage => 400u16,
                LeaderboardError::PageNotFound => 404u16,
            }),
    {
        match self {
            LeaderboardError::InvalidPage => 400,
            LeaderboardError::PageNotFound => 404,
        }
    }

    /// The short code that reports this refusal.
    pub fn code(&self) -> (r: &'static str)
        ensures
            r@ == (match *self {
                LeaderboardError::InvalidPage => "INVALID_PAGE"@,
                LeaderboardError::PageNotFound => "PAGE_NOT_FOUND"@,
            }),
    {
        match self {
            LeaderboardError::InvalidPage => "INVALID_PAGE",
            LeaderboardError::PageNotFound => "PAGE_NOT_FOUND",
        }
    }

    /// The message that reports this refusal.
    pub fn message(&self) -> (r: &'static str)
        ensures
            r@ == (match *self {
                LeaderboardError::InvalidPage => "Pages are counted from 1"@,
                LeaderboardError::PageNotFound => "Page does not exist"@,
            }),
    {
        match self {
            LeaderboardError::InvalidPage => "Pages are counted from 1",
            LeaderboardError::PageNotFound => "Page does not exist",
        }
    }
}

} // verus!
