//! Cadence intake for the conversations zine: turns monthly Markdown letters
//! into ranked candidate moments.

pub mod cadence_intake;
pub mod chunks;
pub mod markdown;
pub mod moments;
pub mod options;
pub mod quarterly;
pub mod ranking;
pub mod text;

pub use cadence_intake::{CadenceIntakeConfig, CadenceIntakeResult, CadenceRecord};
pub use moments::Moment;
