//! What a command answers when it cannot do what it was asked.

use vstd::prelude::*;

verus! {

/// A command's failure.
#[derive(PartialEq, Eq, Debug)]
pub enum AppError {
    /// No profile is open.
    NoActiveProfile,
    /// No profile has this id.
    ProfileNotFound(i64),
    /// The audio engine refused.
    Audio(String),
    /// A file could not be read or written.
    Io(String),
    /// Anything else, in words.
    Other(String),
}

/// Whether an error is `Other` with this message.
pub open spec fn says(e: AppError, message: Seq<char>) -> bool {
    e matches AppError::Other(m) && m@ == message
}

/// A failure in words says those words and no others, and no other failure says any.
pub proof fn a_failure_says_its_own_words(m: String, id: i64, words: Seq<char>)
    ensures
        says(AppError::Other(m), words) <==> words == m@,
        !says(AppError::NoActiveProfile, words),
        !says(AppError::ProfileNotFound(id), words),
        !says(AppError::Audio(m), words),
        !says(AppError::Io(m), words),
{
}

} // verus!
