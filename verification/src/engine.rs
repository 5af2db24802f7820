//! Scoring a guess against the solution.

use vstd::prelude::*;
use vstd::pervasive::unreached;
use vstd::string::StringExecFns;
use crate::encoding::{push_decimal, simple_feedback, status_digits};
use crate::model::{all_checked, evaluation, is_finished, score, unmatched_count};
use crate::passes::{
    credits_given, lemma_credit_taken, lemma_credit_unused, lemma_matched_gives_nothing,
    lemma_no_credit_given_yet, matches_marked, settled,
};
use crate::status::LetterStatus;
use crate::theorems::theorem_success_iff_equal;

verus! {

/// The number of attempts every feedback reports as remaining.
pub const REMAINING_ATTEMPTS: u32 = 5;

/// One letter of a guess together with its mark.
#[derive(Debug, Clone, Copy, PartialEq, Eq, Structural)]
pub struct LetterFeedback {
    pub letter: char,
    pub status: LetterStatus,
}

impl LetterFeedback {
    /// The letter `letter` carrying the mark `status`.
    pub fn new(letter: char, status: LetterStatus) -> (feedback: LetterFeedback)
        ensures
            feedback == marked(letter, status),
    {
        LetterFeedback { letter, status }
    }
}

/// The marks of a whole guess.
#[derive(Debug)]
pub struct GuessFeedback {
    letters: Vec<LetterFeedback>,
    success: bool,
    remaining_attempts: u32,
}

/// The mathematical content of a [`GuessFeedback`].
pub ghost struct GuessFeedbackView {
    pub letters: Seq<LetterFeedback>,
    pub success: bool,
    pub remaining_attempts: nat,
}

impl View for GuessFeedback {
    type V = GuessFeedbackView;

    closed spec fn view(&self) -> GuessFeedbackView {
        GuessFeedbackView {
            letters: self.letters@,
            success: self.success,
            remaining_attempts: self.remaining_attempts as nat,
        }
    }
}

/// The letter `letter` carrying the mark `status`.
pub open spec fn marked(letter: char, status: LetterStatus) -> LetterFeedback {
    LetterFeedback { letter, status }
}

/// Every letter of `word`, in order, with the status `Unchecked`.
pub open spec fn unchecked_letters(word: Seq<char>) -> Seq<LetterFeedback> {
    Seq::new(word.len(), |j: int| marked(word[j], LetterStatus::Unchecked))
}

impl GuessFeedback {
    /// A feedback for `word` in which no letter has been examined yet.
    fn new(word: &str) -> (feedback: GuessFeedback)
        ensures
            feedback@.letters == unchecked_letters(word@),
            !feedback@.success,
            feedback@.remaining_attempts == REMAINING_ATTEMPTS,
    {
        let mut letters: Vec<LetterFeedback> = Vec::with_capacity(5);
        let chars = word.chars();
        for c in it: chars
            invariant
                it.seq() == word@,
                letters@.len() == it.index(),
                forall|j: int|
                    0 <= j < letters@.len() ==> #[trigger] letters@[j] == marked(
                        word@[j],
                        LetterStatus::Unchecked,
                    ),
        {
            letters.push(LetterFeedback::new(c, LetterStatus::Unchecked));
        }
        assert(letters@ =~= unchecked_letters(word@));
        GuessFeedback { letters, success: false, remaining_attempts: REMAINING_ATTEMPTS }
    }

    /// Scores `guess` against the solution `actual`.
    ///
    /// Positions where both words agree are marked `Good`. Every other letter
    /// of the solution, taken from left to right, marks the leftmost position
    /// of the guess that holds the same letter and has no mark yet as
    /// `WrongPos`. What is left without a mark becomes `Invalid`.
    pub fn process_guess(guess: &str, actual: &str) -> (feedback: GuessFeedback)
        requires
            guess@.len() == actual@.len(),
        ensures
            feedback@ == evaluation(guess@, actual@),
            is_finished(feedback@),
            feedback@.letters.len() == guess@.len(),
            feedback@.success <==> guess@ == actual@,
    {
        let ghost g = guess@;
        let ghost s = actual@;
        let mut feedback = GuessFeedback::new(guess);
        let solution = letters_of(actual);
        let n = solution.len();
        let mut good_count: usize = 0;
        assert(feedback.letters@ =~= matches_marked(g, s, 0));

        let mut i: usize = 0;
        while i < n
            invariant
                i <= n,
                n == g.len(),
                g.len() == s.len(),
                solution@ == s,
                !feedback.success,
                feedback.remaining_attempts == REMAINING_ATTEMPTS,
                feedback.letters@ == matches_marked(g, s, i as int),
                good_count <= i,
                good_count == i <==> forall|p: int| 0 <= p < i ==> g[p] == s[p],
            decreases n - i,
        {
            if solution[i] == feedback.letters[i].letter {
                feedback.letters[i].status = LetterStatus::Good;
                good_count += 1;
            }
            i += 1;
            assert(feedback.letters@ =~= matches_marked(g, s, i as int));
        }
        proof {
            lemma_no_credit_given_yet(g, s);
        }

        let mut i: usize = 0;
        while i < n
            invariant
                i <= n,
                n == g.len(),
                g.len() == s.len(),
                solution@ == s,
                !feedback.success,
                feedback.remaining_attempts == REMAINING_ATTEMPTS,
                feedback.letters@ == credits_given(g, s, i as int),
            decreases n - i,
        {
            let c = solution[i];
            if c != feedback.letters[i].letter {
                let mut j: usize = 0;
                let mut found = false;
                while j < n && !found
                    invariant
                        j <= n,
                        i < n,
                        n == g.len(),
                        g.len() == s.len(),
                        c == s[i as int],
                        c != g[i as int],
                        !feedback.success,
                        feedback.remaining_attempts == REMAINING_ATTEMPTS,
                        !found ==> feedback.letters@ == credits_given(g, s, i as int),
                        !found ==> unmatched_count(g, s, c, j as int) <= unmatched_count(
                            s,
                            g,
                            c,
                            i as int,
                        ),
                        found ==> feedback.letters@ == credits_given(g, s, i + 1),
                    decreases n - j + if found { 0int } else { 1int },
                {
                    if feedback.letters[j].letter == c && feedback.letters[j].status
                        == LetterStatus::Unchecked {
                        feedback.letters[j].status = LetterStatus::WrongPos;
                        found = true;
                        proof {
                            lemma_credit_taken(g, s, i as int, j as int);
                        }
                    } else {
                        j += 1;
                    }
                }
                proof {
                    if !found {
                        lemma_credit_unused(g, s, i as int);
                    }
                }
            } else {
                proof {
                    lemma_matched_gives_nothing(g, s, i as int);
                }
            }
            i += 1;
        }
        assert(feedback.letters@ =~= settled(g, s, 0));

        let mut j: usize = 0;
        while j < n
            invariant
                j <= n,
                n == g.len(),
                g.len() == s.len(),
                !feedback.success,
                feedback.remaining_attempts == REMAINING_ATTEMPTS,
                feedback.letters@ == settled(g, s, j as int),
            decreases n - j,
        {
            if feedback.letters[j].status == LetterStatus::Unchecked {
                feedback.letters[j].status = LetterStatus::Invalid;
            }
            j += 1;
            assert(feedback.letters@ =~= settled(g, s, j as int));
        }
        assert(feedback.letters@ =~= score(g, s));

        if good_count == n {
            feedback.success = true;
        }
        proof {
            assert(g =~= s <==> good_count == n);
            theorem_success_iff_equal(g, s);
        }
        feedback
    }

    /// The letters of the guess with their marks, in the order of the guess.
    pub fn letters(&self) -> (letters: &Vec<LetterFeedback>)
        ensures
            letters@ == self@.letters,
    {
        &self.letters
    }

    /// Whether every letter is `Good`.
    pub fn success(&self) -> (success: bool)
        ensures
            success == self@.success,
    {
        self.success
    }

    /// How many attempts remain.
    pub fn remaining_attempts(&self) -> (remaining: u32)
        ensures
            remaining == self@.remaining_attempts,
    {
        self.remaining_attempts
    }

    /// The compact text of this feedback: a digit for each letter (`0` for
    /// `Invalid`, `1` for `WrongPos`, `2` for `Good`), then `:ye` or `:no`
    /// for success, then `:` and the remaining attempts.
    pub fn to_simple_feedback(&self) -> (text: String)
        requires
            all_checked(self@.letters),
        ensures
            text@ == simple_feedback(self@),
    {
        let mut res = String::new();
        let n = self.letters.len();
        let mut j: usize = 0;
        while j < n
            invariant
                j <= n,
                n == self.letters@.len(),
                all_checked(self.letters@),
                res@ == status_digits(self.letters@).take(j as int),
            decreases n - j,
        {
            let status_num = match self.letters[j].status.digit() {
                Some(digit) => digit,
                None => unreached(),
            };
            res.push(status_num);
            j += 1;
            proof {
                let digits = status_digits(self.letters@);
                assert(digits.take(j as int) =~= digits.take(j - 1).push(digits[j - 1]));
            }
        }
        assert(status_digits(self.letters@).take(n as int) =~= status_digits(self.letters@));
        proof {
            reveal_strlit(":ye");
            reveal_strlit(":no");
        }
        res.append(if self.success { ":ye" } else { ":no" });
        res.push(':');
        push_decimal(&mut res, self.remaining_attempts);
        res
    }
}

/// The letters of `word`, in order.
fn letters_of(word: &str) -> (letters: Vec<char>)
    ensures
        letters@ == word@,
{
    let mut letters: Vec<char> = Vec::new();
    let chars = word.chars();
    for c in it: chars
        invariant
            it.seq() == word@,
            letters@.len() == it.index(),
            forall|j: int| 0 <= j < letters@.len() ==> #[trigger] letters@[j] == word@[j],
    {
        letters.push(c);
    }
    assert(letters@ =~= word@);
    letters
}

} // verus!
