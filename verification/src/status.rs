//! The mark a single letter of a guess receives.

use vstd::prelude::*;

verus! {

/// What is known about one letter of a guess.
#[derive(Debug, Clone, Copy, PartialEq, Eq, Structural)]
pub enum LetterStatus {
    /// Not examined yet. Only seen while a guess is being scored.
    Unchecked,
    /// The solution does not hold this letter, or every occurrence of it in
    /// the solution is already accounted for by other positions of the guess.
    Invalid,
    /// The solution holds this letter at another position.
    WrongPos,
    /// The solution holds this letter at this position.
    Good,
}

/// The digit that stands for a status in the compact encoding. A letter that
/// was never examined has none.
pub open spec fn status_digit(status: LetterStatus) -> Option<char> {
    match status {
        LetterStatus::Unchecked => None,
        LetterStatus::Invalid => Some('0'),
        LetterStatus::WrongPos => Some('1'),
        LetterStatus::Good => Some('2'),
    }
}

/// The status a digit of the compact encoding stands for.
pub open spec fn digit_status(digit: char) -> Option<LetterStatus> {
    if digit == '0' {
        Some(LetterStatus::Invalid)
    } else if digit == '1' {
        Some(LetterStatus::WrongPos)
    } else if digit == '2' {
        Some(LetterStatus::Good)
    } else {
        None
    }
}

impl LetterStatus {
    /// The digit of this status in the compact encoding: `'0'` for `Invalid`,
    /// `'1'` for `WrongPos`, `'2'` for `Good`, and none for `Unchecked`.
    pub fn digit(&self) -> (d: Option<char>)
        ensures
            d == status_digit(*self),
    {
        match self {
            LetterStatus::Unchecked => None,
            LetterStatus::Invalid => Some('0'),
            LetterStatus::WrongPos => Some('1'),
            LetterStatus::Good => Some('2'),
        }
    }

    /// Reads a digit of the compact encoding back into a status.
    pub fn from_digit(digit: char) -> (s: Option<LetterStatus>)
        ensures
            s == digit_status(digit),
    {
        if digit == '0' {
            Some(LetterStatus::Invalid)
        } else if digit == '1' {
            Some(LetterStatus::WrongPos)
        } else if digit == '2' {
            Some(LetterStatus::Good)
        } else {
            None
        }
    }
}

} // verus!
