//! A small single-line terminal progress bar: a tracker that counts steps from
//! zero up to a known total, an optional time-remaining estimator, and a
//! renderer that turns both into the text of one terminal line.

mod clock;
pub mod bar;
pub mod eta;
pub mod text;

pub use bar::{BarError, ProgressBar};
pub use eta::Eta;
