//! Wind and wave forecasts read from a forecast page.
//!
//! The page's embedded data block is isolated, repaired and decoded, its
//! parallel series are aligned into observations, and the observation that
//! applies at a given instant is served from a snapshot that is replaced as
//! a whole.
//!
//! - `number`, `compass`, `time`, `text`: the values that the rest works on.
//! - `block`, `dom`, `json`, `extract`: from the text of a page to its
//!   parallel series.
//! - `status`, `series`, `normalize`: from the parallel series to a series
//!   of observations.
//! - `finder`, `store`, `refresh`: the whole reading of a page, the
//!   snapshot, and the schedule by which it is refreshed.

pub mod error;
pub mod number;
pub mod compass;
pub mod time;
pub mod text;
pub mod block;
pub mod dom;
pub mod json;
pub mod extract;
pub mod status;
pub mod series;
pub mod normalize;
pub mod finder;
pub mod store;
pub mod refresh;
