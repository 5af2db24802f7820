//! Answering a guess: the guess is checked against the word list, the word
//! of the day is picked, and the feedback is turned into a response.

use vstd::prelude::*;
use vstd::string::StrSliceExecFns;
use crate::daily::{daily_choice, get_daily_word};
use crate::encoding::simple_feedback;
use crate::engine::{GuessFeedback, GuessFeedbackView};
use crate::model::{all_checked, evaluation};
use crate::words::{contains_word, word_seq};

verus! {

/// The number of letters of every word of the puzzle.
pub const WORD_LENGTH: usize = 5;

/// What a request is answered with.
pub enum ApiResponse<T> {
    Success(T),
    BadRequest(String),
    Unauthorized(String),
    Forbidden(String),
}

/// Why a guess is turned down.
#[derive(Debug, Clone, Copy, PartialEq, Eq, Structural)]
pub enum GuessError {
    /// A word does not have `WORD_LENGTH` letters.
    LengthMismatch,
    /// The guess is not a word of the list.
    NotInWordList,
}

/// The text that tells a client why its guess was turned down.
pub open spec fn error_message(error: GuessError) -> Seq<char> {
    match error {
        GuessError::LengthMismatch => "only 5 letter words are allowed!"@,
        GuessError::NotInWordList => "not a word!"@,
    }
}

impl GuessError {
    /// The text that tells a client why its guess was turned down.
    pub fn message(&self) -> (text: String)
        ensures
            text@ == error_message(*self),
    {
        match self {
            GuessError::LengthMismatch => "only 5 letter words are allowed!".to_owned(),
            GuessError::NotInWordList => "not a word!".to_owned(),
        }
    }
}

/// Why `guess` is turned down before it is scored, if it is: for its length
/// first, then for not being in the list.
pub open spec fn rejection(guess: Seq<char>, words: Seq<Seq<char>>) -> Option<GuessError> {
    if guess.len() != WORD_LENGTH {
        Some(GuessError::LengthMismatch)
    } else if !words.contains(guess) {
        Some(GuessError::NotInWordList)
    } else {
        None
    }
}

/// The feedback for `guess` against `solution`, if both have the length of
/// the puzzle.
pub open spec fn checked_evaluation(guess: Seq<char>, solution: Seq<char>) -> Result<
    GuessFeedbackView,
    GuessError,
> {
    if guess.len() != WORD_LENGTH || solution.len() != WORD_LENGTH {
        Err(GuessError::LengthMismatch)
    } else {
        Ok(evaluation(guess, solution))
    }
}

/// The answer to `guess` when the solution is `solution`: the guess must
/// pass, and is then scored against the solution.
pub open spec fn outcome_against(guess: Seq<char>, words: Seq<Seq<char>>, solution: Seq<char>)
    -> Result<GuessFeedbackView, GuessError> {
    match rejection(guess, words) {
        Some(error) => Err(error),
        None => checked_evaluation(guess, solution),
    }
}

/// The answer to `guess` on day `day`: the answer when the solution is the
/// word of that day. A list that holds the guess is not empty, so there is
/// a word of the day whenever the guess passes.
pub open spec fn outcome_on(guess: Seq<char>, words: Seq<Seq<char>>, day: u32) -> Result<
    GuessFeedbackView,
    GuessError,
> {
    outcome_against(guess, words, daily_choice(words, day))
}

/// The content of an answer.
pub open spec fn outcome_of(result: Result<GuessFeedback, GuessError>) -> Result<
    GuessFeedbackView,
    GuessError,
> {
    match result {
        Ok(feedback) => Ok(feedback@),
        Err(error) => Err(error),
    }
}

/// Whether `response` carries `outcome` in the compact text form: the text
/// of the feedback, or a bad request with the reason.
pub open spec fn is_simple_response(
    response: ApiResponse<String>,
    outcome: Result<GuessFeedbackView, GuessError>,
) -> bool {
    match outcome {
        Ok(feedback) => response matches ApiResponse::Success(text) && text@ == simple_feedback(
            feedback,
        ),
        Err(error) => response matches ApiResponse::BadRequest(message) && message@
            == error_message(error),
    }
}

/// Whether `response` carries `outcome` in full: the feedback itself, or a
/// bad request with the reason.
pub open spec fn is_full_response(
    response: ApiResponse<GuessFeedback>,
    outcome: Result<GuessFeedbackView, GuessError>,
) -> bool {
    match outcome {
        Ok(feedback) => response matches ApiResponse::Success(carried) && carried@ == feedback,
        Err(error) => response matches ApiResponse::BadRequest(message) && message@
            == error_message(error),
    }
}

/// Checks that `guess` has the length of the puzzle. This needs no word
/// list, so a caller can turn a guess down before it loads one.
pub fn check_length(guess: &str) -> (result: Result<(), GuessError>)
    ensures
        result == if guess@.len() != WORD_LENGTH {
            Err::<(), GuessError>(GuessError::LengthMismatch)
        } else {
            Ok(())
        },
{
    if guess.unicode_len() != WORD_LENGTH {
        Err(GuessError::LengthMismatch)
    } else {
        Ok(())
    }
}

/// Checks that `guess` has the length of the puzzle and is a word of the
/// list.
pub fn validate_guess(guess: &str, words: &Vec<String>) -> (result: Result<(), GuessError>)
    ensures
        result == match rejection(guess@, word_seq(words@)) {
            Some(error) => Err::<(), GuessError>(error),
            None => Ok(()),
        },
{
    match check_length(guess) {
        Err(error) => Err(error),
        Ok(()) => if contains_word(words, guess) {
            Ok(())
        } else {
            Err(GuessError::NotInWordList)
        },
    }
}

/// Scores `guess` against `actual` after checking that both have the length
/// of the puzzle.
pub fn evaluate_checked(guess: &str, actual: &str) -> (result: Result<GuessFeedback, GuessError>)
    ensures
        outcome_of(result) == checked_evaluation(guess@, actual@),
{
    if guess.unicode_len() != WORD_LENGTH || actual.unicode_len() != WORD_LENGTH {
        Err(GuessError::LengthMismatch)
    } else {
        Ok(GuessFeedback::process_guess(guess, actual))
    }
}

/// Answers `guess` with the solution `actual` in hand.
pub fn process_guess_against(guess: &str, words: &Vec<String>, actual: &str) -> (result: Result<
    GuessFeedback,
    GuessError,
>)
    ensures
        outcome_of(result) == outcome_against(guess@, word_seq(words@), actual@),
{
    match validate_guess(guess, words) {
        Err(error) => Err(error),
        Ok(()) => evaluate_checked(guess, actual),
    }
}

/// Answers `guess` on day `day` of the year.
pub fn process_guess(guess: &str, words: &Vec<String>, day: u32) -> (result: Result<
    GuessFeedback,
    GuessError,
>)
    ensures
        outcome_of(result) == outcome_on(guess@, word_seq(words@), day),
{
    match validate_guess(guess, words) {
        Err(error) => Err(error),
        Ok(()) => {
            let actual = get_daily_word(words, day);
            evaluate_checked(guess, actual.as_str())
        },
    }
}

/// Turns an answer into a response in the compact text form.
pub fn simple_response(result: Result<GuessFeedback, GuessError>) -> (response: ApiResponse<
    String,
>)
    requires
        result matches Ok(feedback) ==> all_checked(feedback@.letters),
    ensures
        is_simple_response(response, outcome_of(result)),
{
    match result {
        Ok(val) => ApiResponse::Success(val.to_simple_feedback()),
        Err(error) => ApiResponse::BadRequest(error.message()),
    }
}

/// Turns an answer into a response that carries the feedback itself.
pub fn full_response(result: Result<GuessFeedback, GuessError>) -> (response: ApiResponse<
    GuessFeedback,
>)
    ensures
        is_full_response(response, outcome_of(result)),
{
    match result {
        Ok(val) => ApiResponse::Success(val),
        Err(error) => ApiResponse::BadRequest(error.message()),
    }
}

/// Answers `guess` on day `day` of the year in the compact text form.
pub fn guess_word(guess: &str, words: &Vec<String>, day: u32) -> (response: ApiResponse<String>)
    ensures
        is_simple_response(response, outcome_on(guess@, word_seq(words@), day)),
{
    simple_response(process_guess(guess, words, day))
}

/// Answers `guess` on day `day` of the year with the feedback itself.
pub fn guess_word_json(guess: &str, words: &Vec<String>, day: u32) -> (response: ApiResponse<
    GuessFeedback,
>)
    ensures
        is_full_response(response, outcome_on(guess@, word_seq(words@), day)),
{
    full_response(process_guess(guess, words, day))
}

} // verus!
