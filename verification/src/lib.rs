//! Scoring for a daily five-letter word puzzle.
//!
//! A guess is compared with the day's solution and every letter of the guess
//! is marked as correctly placed, misplaced, or absent. Letters that repeat in
//! either word are marked at most as often as the solution holds them.

pub mod api;
pub mod daily;
pub mod encoding;
pub mod engine;
pub mod model;
pub mod passes;
pub mod status;
pub mod theorems;
pub mod words;

pub use api::{ApiResponse, GuessError};
pub use engine::{GuessFeedback, GuessFeedbackView, LetterFeedback};
pub use status::LetterStatus;
