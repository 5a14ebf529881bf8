//! The answer to a yes-or-no question, read off the keys that are pressed.

use vstd::prelude::*;

verus! {

/// A key that was pressed while a question waits for its answer.
#[derive(Clone, Copy, Debug, PartialEq, Eq, Structural)]
pub enum Key {
    /// A key that types a character.
    Char(char),
    /// The enter key.
    Enter,
    /// Any other key.
    Other,
}

/// What a key answers: `y` is yes, `n` is no, in either case of the letter;
/// enter is the default answer; any other key is no answer yet.
pub open spec fn answer_of(key: Key, default: bool) -> Option<bool> {
    match key {
        Key::Char(c) => if c == 'y' || c == 'Y' {
            Some(true)
        } else if c == 'n' || c == 'N' {
            Some(false)
        } else {
            None
        },
        Key::Enter => Some(default),
        Key::Other => None,
    }
}

/// Reads the answer off a key: see `answer_of`.
pub fn confirm_answer(key: Key, default: bool) -> (answer: Option<bool>)
    ensures
        answer == answer_of(key, default),
{
    match key {
        Key::Char(c) => {
            if c == 'y' || c == 'Y' {
                Some(true)
            } else if c == 'n' || c == 'N' {
                Some(false)
            } else {
                None
            }
        },
        Key::Enter => Some(default),
        Key::Other => None,
    }
}

} // verus!
