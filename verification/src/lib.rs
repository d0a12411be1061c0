//! Core of a timed word-unscrambling game.
//!
//! A session presents the player with a scrambled word; correct guesses award
//! points and bonus time and advance to a new word, incorrect guesses cost
//! points and time.  The crate holds the word-supply pipeline (a buffer of
//! pre-fetched candidate words with at-most-one-in-flight refill
//! coordination), the answer-validation rules (exact match, or dictionary
//! word that is an anagram of the original), and the session state machine.
//! Network fetches and rendering live outside the crate; they talk to the
//! session through plain values.

pub mod anagram;
pub mod api;
pub mod contact_server;
pub mod game_state;
pub mod letters;
