//! A two-class word-frequency text classifier ("spam" / "ham").
//!
//! Training accumulates per-class word counts and message counts; prediction
//! compares a per-class score built from the log prior and additively smoothed
//! word frequencies.
use vstd::prelude::*;

pub mod corpus;
pub mod filter;
pub mod laws;
pub mod ratio;
pub mod tokens;
pub mod word_table;

pub use corpus::parse_training_line;
pub use filter::{ScoreTerms, SpamFilter, Verdict};
pub use ratio::fraction_greater;
pub use tokens::tokenize;

verus! {

} // verus!
