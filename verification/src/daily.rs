//! The word of the day: drawn from the word list by a generator that is
//! seeded with the day of the year, so that everyone gets the same word all
//! day. The caller reads the calendar and hands the day in.

use vstd::prelude::*;
use rand::seq::SliceRandom;
use rand::SeedableRng;
use rand_chacha::ChaCha8Rng;
use crate::words::word_seq;

verus! {

/// The index that a ChaCha generator with 8 rounds, seeded with `seed`,
/// draws from a slice of `len` elements.
pub uninterp spec fn seeded_index(seed: u64, len: nat) -> nat;

/// Seeds a generator with `ChaCha8Rng::seed_from_u64` and lets
/// `SliceRandom::choose` draw one word with it.
///
/// `choose` returns nothing for an empty slice, and otherwise the element at
/// an index below the length that it takes from the generator. The generator
/// is fresh and fully determined by the seed, so the index depends on the
/// seed and the length alone; the contract names it `seeded_index`.
#[verifier::external_body]
fn choose_seeded(words: &Vec<String>, seed: u64) -> (choice: Option<&String>)
    ensures
        words@.len() == 0 ==> choice is None,
        words@.len() > 0 ==> choice is Some,
        choice matches Some(word) ==> seeded_index(seed, words@.len()) < words@.len() && *word
            == words@[seeded_index(seed, words@.len()) as int],
{
    let mut rng = ChaCha8Rng::seed_from_u64(seed);
    words.choose(&mut rng)
}

/// The word of day `day` from `words`: the word at the index drawn with the
/// day as seed.
pub open spec fn daily_choice(words: Seq<Seq<char>>, day: u32) -> Seq<char>
    recommends
        words.len() > 0,
{
    words[seeded_index(day as u64, words.len()) as int]
}

/// The word of day `day` of the year. There is none to draw from an empty
/// list.
pub fn get_daily_word(words: &Vec<String>, day: u32) -> (word: String)
    requires
        words@.len() > 0,
    ensures
        word@ == daily_choice(word_seq(words@), day),
        word_seq(words@).contains(word@),
{
    let chosen = choose_seeded(words, day as u64).unwrap();
    proof {
        let index = seeded_index(day as u64, words@.len()) as int;
        assert(word_seq(words@)[index] == chosen@);
    }
    chosen.clone()
}

} // verus!
