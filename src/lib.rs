//! Classifies short text fragments as plausible natural-language content or gibberish
//! (random characters, encoded or enciphered data, mashed keys, binary noise), at a chosen
//! sensitivity.
//!
//! The text is normalized, split into tokens, and scored on dictionary words and on the share
//! of common trigrams and quadgrams; a tiered decision policy turns that evidence into a
//! verdict. Every function is total: no input fails or panics.
pub mod classify;
pub mod dictionary;
pub mod laws;
pub mod normalize;
pub mod passwords;
pub mod tables;
pub mod tokens;

pub use classify::{is_gibberish, Sensitivity};
pub use dictionary::is_english_word;
pub use normalize::clean_text;
pub use passwords::is_password;
pub use tables::{is_common_quadgram, is_common_trigram};
pub use tokens::generate_ngrams;
