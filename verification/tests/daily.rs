use rand::seq::SliceRandom;
use rand::SeedableRng;
use rand_chacha::ChaCha8Rng;
use word_guess::daily::get_daily_word;

fn word_list() -> Vec<String> {
    [
        "crane", "speed", "erase", "fuzzy", "alloy", "loyal", "level", "elect", "abide", "zebra",
        "onion", "quilt", "vivid",
    ]
    .iter()
    .map(|w| w.to_string())
    .collect()
}

fn drawn_directly(words: &Vec<String>, day: u32) -> String {
    let mut rng = ChaCha8Rng::seed_from_u64(day.into());
    words.choose(&mut rng).unwrap().to_string()
}

#[test]
fn list_of_one_word_gives_it_every_day() {
    let words = vec!["crane".to_string()];
    for day in 1..=366 {
        assert_eq!(get_daily_word(&words, day), "crane");
    }
}

#[test]
fn word_of_the_day_is_drawn_by_the_seeded_generator() {
    let words = word_list();
    for day in 1..=366 {
        assert_eq!(get_daily_word(&words, day), drawn_directly(&words, day));
    }
}

#[test]
fn word_of_the_day_is_a_word_of_the_list() {
    let words = word_list();
    for day in 1..=366 {
        let word = get_daily_word(&words, day);
        assert!(words.contains(&word));
    }
}

#[test]
fn same_day_gives_the_same_word() {
    let words = word_list();
    for day in [1, 59, 60, 200, 365, 366] {
        assert_eq!(get_daily_word(&words, day), get_daily_word(&words, day));
    }
}

#[test]
fn word_depends_on_the_day() {
    let words = word_list();
    let first = get_daily_word(&words, 1);
    assert!((2..=366).any(|day| get_daily_word(&words, day) != first));
}

#[test]
fn word_depends_on_the_position_in_the_list_only() {
    let words = word_list();
    let upper: Vec<String> = words.iter().map(|w| w.to_uppercase()).collect();
    for day in [1, 100, 366] {
        let word = get_daily_word(&words, day);
        let index = words.iter().position(|w| *w == word).unwrap();
        assert_eq!(get_daily_word(&upper, day), upper[index]);
    }
}

#[test]
fn any_number_seeds_a_day() {
    let words = word_list();
    for day in [0, 367, 1000, u32::MAX] {
        assert_eq!(get_daily_word(&words, day), drawn_directly(&words, day));
    }
}

#[test]
fn days_spread_over_a_long_list() {
    let words: Vec<String> = (0..5000).map(|n| format!("w{}", n)).collect();
    let mut drawn: Vec<String> = (1..=366).map(|day| get_daily_word(&words, day)).collect();
    drawn.sort();
    drawn.dedup();
    assert!(drawn.len() > 300);
}
