use word_guess::engine::{GuessFeedback, LetterFeedback};
use word_guess::status::LetterStatus;
use word_guess::status::LetterStatus::{Good, Invalid, Unchecked, WrongPos};

fn statuses(guess: &str, solution: &str) -> Vec<LetterStatus> {
    GuessFeedback::process_guess(guess, solution).letters().iter().map(|l| l.status).collect()
}

fn credited(feedback: &GuessFeedback, letter: char) -> usize {
    feedback
        .letters()
        .iter()
        .filter(|l| l.letter == letter && (l.status == Good || l.status == WrongPos))
        .count()
}

fn occurrences(word: &str, letter: char) -> usize {
    word.chars().filter(|c| *c == letter).count()
}

const PAIRS: [(&str, &str); 12] = [
    ("CRANE", "CRANE"),
    ("SPEED", "ERASE"),
    ("ABCDE", "EDCBA"),
    ("ZZZZZ", "FUZZY"),
    ("CRATE", "CRANE"),
    ("ERASE", "SPEED"),
    ("LEVEL", "ELECT"),
    ("AAAAA", "BBBBB"),
    ("ALLOY", "LOYAL"),
    ("ZQAA", "AXAY"),
    ("", ""),
    ("crane", "CRANE"),
];

#[test]
fn equal_words_are_all_good() {
    let feedback = GuessFeedback::process_guess("CRANE", "CRANE");
    assert_eq!(
        feedback.letters(),
        &vec![
            LetterFeedback::new('C', Good),
            LetterFeedback::new('R', Good),
            LetterFeedback::new('A', Good),
            LetterFeedback::new('N', Good),
            LetterFeedback::new('E', Good),
        ]
    );
    assert!(feedback.success());
    assert_eq!(feedback.remaining_attempts(), 5);
}

#[test]
fn speed_against_erase_marks_two_e() {
    let feedback = GuessFeedback::process_guess("SPEED", "ERASE");
    assert_eq!(
        feedback.letters(),
        &vec![
            LetterFeedback::new('S', WrongPos),
            LetterFeedback::new('P', Invalid),
            LetterFeedback::new('E', WrongPos),
            LetterFeedback::new('E', WrongPos),
            LetterFeedback::new('D', Invalid),
        ]
    );
    assert_eq!(credited(&feedback, 'E'), 2);
    assert!(!feedback.success());
}

#[test]
fn reversed_word_keeps_centre() {
    assert_eq!(statuses("ABCDE", "EDCBA"), vec![WrongPos, WrongPos, Good, WrongPos, WrongPos]);
    assert!(!GuessFeedback::process_guess("ABCDE", "EDCBA").success());
}

#[test]
fn repeated_letter_is_marked_as_often_as_the_solution_holds_it() {
    let feedback = GuessFeedback::process_guess("ZZZZZ", "FUZZY");
    assert_eq!(
        feedback.letters().iter().map(|l| l.status).collect::<Vec<_>>(),
        vec![Invalid, Invalid, Good, Good, Invalid]
    );
    assert_eq!(credited(&feedback, 'Z'), 2);
}

#[test]
fn one_wrong_letter() {
    assert_eq!(statuses("CRATE", "CRANE"), vec![Good, Good, Good, Invalid, Good]);
}

#[test]
fn match_to_the_right_does_not_use_up_an_earlier_letter_of_the_solution() {
    // The solution holds two A. One is matched at the third position, the
    // other one is left for the last position of the guess.
    assert_eq!(statuses("ZQAA", "AXAY"), vec![Invalid, Invalid, Good, WrongPos]);
}

#[test]
fn leftmost_position_receives_the_letter_first() {
    // One unmatched L in the solution, two unmatched L in the guess.
    assert_eq!(statuses("LLAMA", "CLOLX"), vec![WrongPos, Good, Invalid, Invalid, Invalid]);
    // One E in the solution, matched further right: the first E gets nothing.
    assert_eq!(statuses("EXXEX", "AAAEA"), vec![Invalid, Invalid, Invalid, Good, Invalid]);
}

#[test]
fn letter_missing_from_the_guess_gives_no_mark() {
    assert_eq!(statuses("AAAAA", "BBBBB"), vec![Invalid; 5]);
    assert_eq!(statuses("ABBBB", "CACCC"), vec![WrongPos, Invalid, Invalid, Invalid, Invalid]);
}

#[test]
fn comparison_is_case_sensitive() {
    assert_eq!(statuses("crane", "CRANE"), vec![Invalid; 5]);
    assert!(!GuessFeedback::process_guess("crane", "CRANE").success());
}

#[test]
fn letters_outside_ascii_are_single_positions() {
    let feedback = GuessFeedback::process_guess("éèêëe", "eéèêë");
    assert_eq!(feedback.letters().len(), 5);
    assert_eq!(
        feedback.letters().iter().map(|l| l.status).collect::<Vec<_>>(),
        vec![WrongPos; 5]
    );
    assert_eq!(feedback.letters()[0].letter, 'é');
}

#[test]
fn empty_words_succeed() {
    let feedback = GuessFeedback::process_guess("", "");
    assert!(feedback.letters().is_empty());
    assert!(feedback.success());
    assert_eq!(feedback.remaining_attempts(), 5);
}

#[test]
fn evaluating_twice_gives_the_same() {
    for (guess, solution) in PAIRS {
        let first = GuessFeedback::process_guess(guess, solution);
        let second = GuessFeedback::process_guess(guess, solution);
        assert_eq!(first.letters(), second.letters());
        assert_eq!(first.success(), second.success());
        assert_eq!(first.remaining_attempts(), second.remaining_attempts());
        assert_eq!(first.to_simple_feedback(), second.to_simple_feedback());
    }
}

#[test]
fn success_exactly_for_equal_words() {
    for (guess, solution) in PAIRS {
        let feedback = GuessFeedback::process_guess(guess, solution);
        assert_eq!(feedback.success(), guess == solution);
        assert_eq!(feedback.success(), feedback.letters().iter().all(|l| l.status == Good));
    }
}

#[test]
fn marks_never_exceed_the_occurrences_in_the_solution() {
    for (guess, solution) in PAIRS {
        let feedback = GuessFeedback::process_guess(guess, solution);
        for letter in guess.chars().chain(solution.chars()) {
            let marks = credited(&feedback, letter);
            assert!(marks <= occurrences(solution, letter));
            assert_eq!(
                marks,
                occurrences(guess, letter).min(occurrences(solution, letter))
            );
        }
    }
}

#[test]
fn no_letter_stays_unchecked() {
    for (guess, solution) in PAIRS {
        let feedback = GuessFeedback::process_guess(guess, solution);
        assert!(feedback.letters().iter().all(|l| l.status != Unchecked));
    }
}

#[test]
fn one_entry_for_each_letter_of_the_guess() {
    for (guess, solution) in PAIRS {
        let feedback = GuessFeedback::process_guess(guess, solution);
        assert_eq!(feedback.letters().len(), guess.chars().count());
        let letters: String = feedback.letters().iter().map(|l| l.letter).collect();
        assert_eq!(letters, guess);
    }
}

#[test]
fn remaining_attempts_are_always_five() {
    for (guess, solution) in PAIRS {
        assert_eq!(GuessFeedback::process_guess(guess, solution).remaining_attempts(), 5);
    }
}

#[test]
fn letter_feedback_holds_what_it_was_made_of() {
    let feedback = LetterFeedback::new('Q', WrongPos);
    assert_eq!(feedback.letter, 'Q');
    assert_eq!(feedback.status, WrongPos);
}
