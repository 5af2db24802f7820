//! What the marks of a guess are, stated over sequences of letters.
//!
//! A position of the guess is *matched* when the solution holds the same
//! letter there. The unmatched letters of the solution are handed out, letter
//! by letter, to the unmatched positions of the guess from left to right: a
//! position receives one as long as fewer unmatched positions to its left
//! hold its letter than the solution has unmatched occurrences of it.

use vstd::prelude::*;
use crate::engine::{marked, GuessFeedbackView, LetterFeedback, REMAINING_ATTEMPTS};
use crate::status::LetterStatus;

verus! {

/// How many positions below `end` hold `letter` in `word` while `other` holds
/// a different letter there.
pub open spec fn unmatched_count(word: Seq<char>, other: Seq<char>, letter: char, end: int) -> nat
    decreases end,
{
    if end <= 0 {
        0
    } else {
        let before = unmatched_count(word, other, letter, end - 1);
        if word[end - 1] == letter && other[end - 1] != letter {
            before + 1
        } else {
            before
        }
    }
}

/// The mark of position `j` of `guess` against `solution`.
pub open spec fn status_at(guess: Seq<char>, solution: Seq<char>, j: int) -> LetterStatus {
    let letter = guess[j];
    if letter == solution[j] {
        LetterStatus::Good
    } else if unmatched_count(guess, solution, letter, j) < unmatched_count(
        solution,
        guess,
        letter,
        solution.len() as int,
    ) {
        LetterStatus::WrongPos
    } else {
        LetterStatus::Invalid
    }
}

/// The letters of `guess`, each with its mark against `solution`.
pub open spec fn score(guess: Seq<char>, solution: Seq<char>) -> Seq<LetterFeedback> {
    Seq::new(guess.len(), |j: int| marked(guess[j], status_at(guess, solution, j)))
}

/// Whether every letter is marked `Good`.
pub open spec fn all_good(letters: Seq<LetterFeedback>) -> bool {
    forall|j: int| 0 <= j < letters.len() ==> (#[trigger] letters[j]).status == LetterStatus::Good
}

/// Whether no letter is left `Unchecked`.
pub open spec fn all_checked(letters: Seq<LetterFeedback>) -> bool {
    forall|j: int|
        0 <= j < letters.len() ==> (#[trigger] letters[j]).status != LetterStatus::Unchecked
}

/// What holds of a feedback once its guess is scored: every letter has a
/// mark, success says that all marks are `Good`, and the remaining attempts
/// are the fixed number.
pub open spec fn is_finished(feedback: GuessFeedbackView) -> bool {
    &&& all_checked(feedback.letters)
    &&& feedback.success == all_good(feedback.letters)
    &&& feedback.remaining_attempts == REMAINING_ATTEMPTS
}

/// The complete feedback for `guess` against `solution`.
pub open spec fn evaluation(guess: Seq<char>, solution: Seq<char>) -> GuessFeedbackView {
    let letters = score(guess, solution);
    GuessFeedbackView {
        letters,
        success: all_good(letters),
        remaining_attempts: REMAINING_ATTEMPTS as nat,
    }
}

/// How often `letter` occurs among the first `end` letters of `word`.
pub open spec fn occurrences(word: Seq<char>, letter: char, end: int) -> nat
    decreases end,
{
    if end <= 0 {
        0
    } else {
        let before = occurrences(word, letter, end - 1);
        if word[end - 1] == letter {
            before + 1
        } else {
            before
        }
    }
}

/// How many of the first `end` positions hold `letter` and are marked `Good`
/// or `WrongPos`.
pub open spec fn credited_count(letters: Seq<LetterFeedback>, letter: char, end: int) -> nat
    decreases end,
{
    if end <= 0 {
        0
    } else {
        let before = credited_count(letters, letter, end - 1);
        let last = letters[end - 1];
        if last.letter == letter && (last.status == LetterStatus::Good || last.status
            == LetterStatus::WrongPos) {
            before + 1
        } else {
            before
        }
    }
}

/// The smaller of two counts.
pub open spec fn smaller(a: nat, b: nat) -> nat {
    if a <= b {
        a
    } else {
        b
    }
}

} // verus!
