//! The request/answer shapes shared with the remote word services: the
//! dictionary lookup and the user-score database.  The game reads every
//! answer conservatively — a failure is never worth more than a "no".

use vstd::prelude::*;

verus! {

/// What a remote call can produce: a dictionary verdict on one word, a list
/// of user records, or an error, optionally with its text.
pub enum ReturnType {
    IsValid(bool),
    Users(Vec<User>),
    Error(Option<String>),
}

/// A user record as the score database serves it.
#[allow(non_snake_case)]
#[derive(Clone)]
pub struct User {
    pub UserID: i32,
    pub Username: String,
    pub Password: String,
    pub HighScore: i32,
}

/// The capability the game needs from a remote service: issue one request
/// and hand back whatever came of it.  Implementations live with the
/// network code, outside this crate; a test double answers with canned
/// values.  Nothing is promised of the answer — the transport may fail and
/// the service decides freely — so everything the game concludes from an
/// answer goes through [`answer_accepts`], which is exact for every
/// possible answer.
pub trait MakeRequest {
    fn send_request(&self, input: &str) -> ReturnType;
}

/// Whether a service answer accepts the word: only an explicit yes counts.
pub open spec fn accepted_answer(r: ReturnType) -> bool {
    match r {
        ReturnType::IsValid(valid) => valid,
        _ => false,
    }
}

/// Decides whether a service answer accepts the word: an explicit
/// `IsValid(true)` means the word is good; anything else — an explicit no,
/// an error, or an answer of the wrong shape — conservatively means it is
/// not.
pub fn answer_accepts(r: &ReturnType) -> (valid: bool)
    ensures
        valid == accepted_answer(*r),
{
    match r {
        ReturnType::IsValid(valid) => *valid,
        _ => false,
    }
}

} // verus!
