//! What holds of every evaluation, proved from the definition of the marks.

use vstd::prelude::*;
use crate::encoding::simple_feedback;
use crate::engine::GuessFeedback;
use crate::model::{
    all_checked, all_good, credited_count, evaluation, is_finished, occurrences, score, smaller,
    status_at, unmatched_count,
};
use crate::status::LetterStatus;

verus! {

/// Evaluation is a function of the two words: two feedbacks that both answer
/// the same guess against the same solution have the same content and the
/// same compact text.
pub proof fn theorem_evaluation_is_deterministic(
    guess: Seq<char>,
    solution: Seq<char>,
    first: GuessFeedback,
    second: GuessFeedback,
)
    requires
        first@ == evaluation(guess, solution),
        second@ == evaluation(guess, solution),
    ensures
        first@ == second@,
        first@.letters == second@.letters,
        first@.success == second@.success,
        first@.remaining_attempts == second@.remaining_attempts,
        simple_feedback(first@) == simple_feedback(second@),
{
}

/// A guess succeeds exactly when it equals the solution letter for letter.
pub proof fn theorem_success_iff_equal(guess: Seq<char>, solution: Seq<char>)
    requires
        guess.len() == solution.len(),
    ensures
        evaluation(guess, solution).success <==> guess == solution,
{
    let letters = score(guess, solution);
    if guess == solution {
        assert forall|j: int| 0 <= j < letters.len() implies (#[trigger] letters[j]).status
            == LetterStatus::Good by {}
    }
    if all_good(letters) {
        assert forall|j: int| 0 <= j < guess.len() implies guess[j] == solution[j] by {
            assert(letters[j].status == LetterStatus::Good);
        }
        assert(guess =~= solution);
    }
}

/// No letter of an evaluation is left `Unchecked`.
pub proof fn theorem_every_letter_is_checked(guess: Seq<char>, solution: Seq<char>)
    requires
        guess.len() == solution.len(),
    ensures
        all_checked(evaluation(guess, solution).letters),
        is_finished(evaluation(guess, solution)),
{
}

/// An evaluation has one entry for each letter of the guess, holding that
/// letter, in the order of the guess.
pub proof fn theorem_letters_follow_guess(guess: Seq<char>, solution: Seq<char>)
    ensures
        evaluation(guess, solution).letters.len() == guess.len(),
        forall|j: int|
            0 <= j < guess.len() ==> (#[trigger] evaluation(guess, solution).letters[j]).letter
                == guess[j],
{
}

/// Among the first `end` positions, the marks `Good` and `WrongPos` given to
/// `letter` and the unmatched occurrences of `letter` in the solution add up
/// to the occurrences of `letter` in the solution plus the unmatched
/// occurrences in the guess that received one.
proof fn lemma_credit_balance(guess: Seq<char>, solution: Seq<char>, letter: char, end: int)
    requires
        guess.len() == solution.len(),
        0 <= end <= guess.len(),
    ensures
        credited_count(score(guess, solution), letter, end) + unmatched_count(
            solution,
            guess,
            letter,
            end,
        ) == occurrences(solution, letter, end) + smaller(
            unmatched_count(guess, solution, letter, end),
            unmatched_count(solution, guess, letter, solution.len() as int),
        ),
    decreases end,
{
    if end > 0 {
        lemma_credit_balance(guess, solution, letter, end - 1);
        let last = score(guess, solution)[end - 1];
        assert(last.letter == guess[end - 1]);
        assert(last.status == status_at(guess, solution, end - 1));
    }
}

/// Occurrences split into matched and unmatched ones, the matched ones being
/// the same in both words.
proof fn lemma_occurrences_split(guess: Seq<char>, solution: Seq<char>, letter: char, end: int)
    requires
        guess.len() == solution.len(),
        0 <= end <= guess.len(),
    ensures
        occurrences(guess, letter, end) + unmatched_count(solution, guess, letter, end)
            == occurrences(solution, letter, end) + unmatched_count(guess, solution, letter, end),
    decreases end,
{
    if end > 0 {
        lemma_occurrences_split(guess, solution, letter, end - 1);
    }
}

/// A letter is marked `Good` or `WrongPos` exactly as often as the rarer of
/// its occurrences in the guess and in the solution.
pub proof fn theorem_credited_count(guess: Seq<char>, solution: Seq<char>, letter: char)
    requires
        guess.len() == solution.len(),
    ensures
        credited_count(evaluation(guess, solution).letters, letter, guess.len() as int) == smaller(
            occurrences(guess, letter, guess.len() as int),
            occurrences(solution, letter, solution.len() as int),
        ),
{
    let n = guess.len() as int;
    lemma_credit_balance(guess, solution, letter, n);
    lemma_occurrences_split(guess, solution, letter, n);
}

/// A letter is never marked `Good` or `WrongPos` more often than the
/// solution holds it.
pub proof fn theorem_marks_are_conserved(guess: Seq<char>, solution: Seq<char>, letter: char)
    requires
        guess.len() == solution.len(),
    ensures
        credited_count(evaluation(guess, solution).letters, letter, guess.len() as int)
            <= occurrences(solution, letter, solution.len() as int),
{
    theorem_credited_count(guess, solution, letter);
}

} // verus!
