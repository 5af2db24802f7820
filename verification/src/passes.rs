//! The states a feedback passes through while its guess is scored, and why
//! each step leads from one to the next.
//!
//! First the positions where both words agree are marked, from left to
//! right. Then every position of the solution, from left to right, hands its
//! letter to the guess unless it is matched. Last, what has no mark is
//! settled as `Invalid`.

use vstd::prelude::*;
use crate::engine::{marked, LetterFeedback};
use crate::model::{status_at, unmatched_count};
use crate::status::LetterStatus;

verus! {

/// The mark of position `j` once the first `done` positions of the solution
/// have handed out their letter: as [`status_at`], but only the unmatched
/// letters of the solution below `done` count, and a position that has
/// received nothing so far is still `Unchecked`.
pub open spec fn status_after(guess: Seq<char>, solution: Seq<char>, j: int, done: int)
    -> LetterStatus {
    let letter = guess[j];
    if letter == solution[j] {
        LetterStatus::Good
    } else if unmatched_count(guess, solution, letter, j) < unmatched_count(
        solution,
        guess,
        letter,
        done,
    ) {
        LetterStatus::WrongPos
    } else {
        LetterStatus::Unchecked
    }
}

/// The letters once the first `done` positions have been compared: a
/// position below `done` where both words agree is `Good`, every other one
/// `Unchecked`.
pub open spec fn matches_marked(guess: Seq<char>, solution: Seq<char>, done: int) -> Seq<
    LetterFeedback,
> {
    Seq::new(
        guess.len(),
        |j: int|
            marked(
                guess[j],
                if j < done && guess[j] == solution[j] {
                    LetterStatus::Good
                } else {
                    LetterStatus::Unchecked
                },
            ),
    )
}

/// The letters once all matches are marked and the first `done` positions of
/// the solution have handed out their letter.
pub open spec fn credits_given(guess: Seq<char>, solution: Seq<char>, done: int) -> Seq<
    LetterFeedback,
> {
    Seq::new(guess.len(), |j: int| marked(guess[j], status_after(guess, solution, j, done)))
}

/// The letters once the first `done` positions have their final mark and
/// the others are as all letters of the solution left them.
pub open spec fn settled(guess: Seq<char>, solution: Seq<char>, done: int) -> Seq<LetterFeedback> {
    Seq::new(
        guess.len(),
        |j: int|
            marked(
                guess[j],
                if j < done {
                    status_at(guess, solution, j)
                } else {
                    status_after(guess, solution, j, solution.len() as int)
                },
            ),
    )
}

/// Counting further positions never lowers the count.
pub proof fn lemma_unmatched_count_monotone(
    word: Seq<char>,
    other: Seq<char>,
    letter: char,
    a: int,
    b: int,
)
    requires
        a <= b,
    ensures
        unmatched_count(word, other, letter, a) <= unmatched_count(word, other, letter, b),
    decreases b - a,
{
    if a < b {
        lemma_unmatched_count_monotone(word, other, letter, a, b - 1);
        if b <= 0 {
            assert(unmatched_count(word, other, letter, b) == 0);
            assert(unmatched_count(word, other, letter, a) == 0);
        }
    }
}

/// An unmatched position holding `letter` is counted by every longer prefix.
pub proof fn lemma_unmatched_count_strict(
    word: Seq<char>,
    other: Seq<char>,
    letter: char,
    p: int,
    end: int,
)
    requires
        0 <= p < end,
        word[p] == letter,
        other[p] != letter,
    ensures
        unmatched_count(word, other, letter, p) < unmatched_count(word, other, letter, end),
{
    assert(unmatched_count(word, other, letter, p + 1) == unmatched_count(
        word,
        other,
        letter,
        p,
    ) + 1);
    lemma_unmatched_count_monotone(word, other, letter, p + 1, end);
}

/// Before any letter of the solution is handed out, the matches are marked
/// and nothing else.
pub proof fn lemma_no_credit_given_yet(guess: Seq<char>, solution: Seq<char>)
    requires
        guess.len() == solution.len(),
    ensures
        credits_given(guess, solution, 0) == matches_marked(guess, solution, guess.len() as int),
{
    assert(credits_given(guess, solution, 0) =~= matches_marked(
        guess,
        solution,
        guess.len() as int,
    ));
}

/// A matched position of the solution hands out nothing.
pub proof fn lemma_matched_gives_nothing(guess: Seq<char>, solution: Seq<char>, i: int)
    requires
        guess.len() == solution.len(),
        0 <= i < solution.len(),
        guess[i] == solution[i],
    ensures
        credits_given(guess, solution, i + 1) == credits_given(guess, solution, i),
{
    assert forall|p: int| 0 <= p < guess.len() implies status_after(guess, solution, p, i + 1)
        == status_after(guess, solution, p, i) by {
        assert(unmatched_count(solution, guess, guess[p], i + 1) == unmatched_count(
            solution,
            guess,
            guess[p],
            i,
        ));
    }
    assert(credits_given(guess, solution, i + 1) =~= credits_given(guess, solution, i));
}

/// The letter of an unmatched position `i` of the solution goes to the
/// position `j` of the guess that holds it and is still `Unchecked`, if every
/// unmatched position with that letter to the left of `j` has received one.
pub proof fn lemma_credit_taken(guess: Seq<char>, solution: Seq<char>, i: int, j: int)
    requires
        guess.len() == solution.len(),
        0 <= i < solution.len(),
        0 <= j < guess.len(),
        guess[i] != solution[i],
        guess[j] == solution[i],
        status_after(guess, solution, j, i) == LetterStatus::Unchecked,
        unmatched_count(guess, solution, solution[i], j) <= unmatched_count(
            solution,
            guess,
            solution[i],
            i,
        ),
    ensures
        credits_given(guess, solution, i + 1) == credits_given(guess, solution, i).update(
            j,
            marked(guess[j], LetterStatus::WrongPos),
        ),
{
    let c = solution[i];
    let credit = unmatched_count(solution, guess, c, i);
    assert(unmatched_count(solution, guess, c, i + 1) == credit + 1);
    assert forall|p: int| 0 <= p < guess.len() implies status_after(guess, solution, p, i + 1)
        == if p == j {
        LetterStatus::WrongPos
    } else {
        status_after(guess, solution, p, i)
    } by {
        if guess[p] != c {
            assert(unmatched_count(solution, guess, guess[p], i + 1) == unmatched_count(
                solution,
                guess,
                guess[p],
                i,
            ));
        } else if p < j && solution[p] != c {
            lemma_unmatched_count_strict(guess, solution, c, p, j);
        } else if j < p {
            lemma_unmatched_count_strict(guess, solution, c, j, p);
        }
    }
    assert(credits_given(guess, solution, i + 1) =~= credits_given(guess, solution, i).update(
        j,
        marked(guess[j], LetterStatus::WrongPos),
    ));
}

/// The letter of an unmatched position `i` of the solution goes to nobody
/// if every unmatched position of the guess that holds it has received one.
pub proof fn lemma_credit_unused(guess: Seq<char>, solution: Seq<char>, i: int)
    requires
        guess.len() == solution.len(),
        0 <= i < solution.len(),
        guess[i] != solution[i],
        unmatched_count(guess, solution, solution[i], guess.len() as int) <= unmatched_count(
            solution,
            guess,
            solution[i],
            i,
        ),
    ensures
        credits_given(guess, solution, i + 1) == credits_given(guess, solution, i),
{
    let c = solution[i];
    let credit = unmatched_count(solution, guess, c, i);
    assert(unmatched_count(solution, guess, c, i + 1) == credit + 1);
    assert forall|p: int| 0 <= p < guess.len() implies status_after(guess, solution, p, i + 1)
        == status_after(guess, solution, p, i) by {
        if guess[p] != c {
            assert(unmatched_count(solution, guess, guess[p], i + 1) == unmatched_count(
                solution,
                guess,
                guess[p],
                i,
            ));
        } else if solution[p] != c {
            lemma_unmatched_count_strict(guess, solution, c, p, guess.len() as int);
        }
    }
    assert(credits_given(guess, solution, i + 1) =~= credits_given(guess, solution, i));
}

} // verus!
