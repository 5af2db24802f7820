//! The compact text form of a feedback: one digit per letter, then `:ye` or
//! `:no`, then `:` and the number of remaining attempts.

use vstd::prelude::*;
use crate::engine::{GuessFeedbackView, LetterFeedback};
use crate::model::all_checked;
use crate::status::{digit_status, status_digit, LetterStatus};

verus! {

/// `String::push` appends the character to the end of the string.
pub assume_specification[ String::push ](text: &mut String, ch: char)
    ensures
        final(text)@ == old(text)@.push(ch),
;

/// The character of a decimal digit.
pub open spec fn digit_char(d: nat) -> char
    recommends
        d < 10,
{
    if d == 0 {
        '0'
    } else if d == 1 {
        '1'
    } else if d == 2 {
        '2'
    } else if d == 3 {
        '3'
    } else if d == 4 {
        '4'
    } else if d == 5 {
        '5'
    } else if d == 6 {
        '6'
    } else if d == 7 {
        '7'
    } else if d == 8 {
        '8'
    } else {
        '9'
    }
}

/// The decimal numeral of `n`, without leading zeros.
pub open spec fn decimal(n: nat) -> Seq<char>
    decreases n,
{
    if n < 10 {
        seq![digit_char(n)]
    } else {
        decimal(n / 10).push(digit_char(n % 10))
    }
}

/// The digits of the marks, in order.
pub open spec fn status_digits(letters: Seq<LetterFeedback>) -> Seq<char>
    recommends
        all_checked(letters),
{
    Seq::new(letters.len(), |j: int| status_digit(letters[j].status).unwrap())
}

/// How success is spelled.
pub open spec fn success_tag(success: bool) -> Seq<char> {
    if success {
        seq![':', 'y', 'e']
    } else {
        seq![':', 'n', 'o']
    }
}

/// The compact text of a feedback.
pub open spec fn simple_feedback(feedback: GuessFeedbackView) -> Seq<char>
    recommends
        all_checked(feedback.letters),
{
    status_digits(feedback.letters) + success_tag(feedback.success) + seq![':'] + decimal(
        feedback.remaining_attempts,
    )
}

fn digit_of(d: u32) -> (c: char)
    requires
        d < 10,
    ensures
        c == digit_char(d as nat),
{
    match d {
        0 => '0',
        1 => '1',
        2 => '2',
        3 => '3',
        4 => '4',
        5 => '5',
        6 => '6',
        7 => '7',
        8 => '8',
        _ => '9',
    }
}

/// Appends the decimal numeral of `n` to `text`.
pub fn push_decimal(text: &mut String, n: u32)
    ensures
        final(text)@ == old(text)@ + decimal(n as nat),
    decreases n,
{
    if n >= 10 {
        push_decimal(text, n / 10);
    }
    text.push(digit_of(n % 10));
    proof {
        let head = old(text)@;
        if n >= 10 {
            assert(head + decimal(n as nat / 10).push(digit_char(n as nat % 10)) =~= (head
                + decimal(n as nat / 10)).push(digit_char(n as nat % 10)));
        } else {
            assert(head + seq![digit_char(n as nat)] =~= head.push(digit_char(n as nat)));
        }
    }
}

/// Reading the digits at the front of the compact text gives back the marks,
/// position by position, and the first character after them is the colon.
pub proof fn theorem_digits_decode(feedback: GuessFeedbackView)
    requires
        all_checked(feedback.letters),
    ensures
        simple_feedback(feedback).len() > feedback.letters.len(),
        forall|j: int|
            0 <= j < feedback.letters.len() ==> digit_status(
                #[trigger] simple_feedback(feedback)[j],
            ) == Some(feedback.letters[j].status),
        simple_feedback(feedback)[feedback.letters.len() as int] == ':',
        digit_status(':') is None,
{
    let text = simple_feedback(feedback);
    let digits = status_digits(feedback.letters);
    assert forall|j: int| 0 <= j < feedback.letters.len() implies digit_status(#[trigger] text[j])
        == Some(feedback.letters[j].status) by {
        assert(text[j] == digits[j]);
        assert(feedback.letters[j].status != LetterStatus::Unchecked);
    }
}

} // verus!
