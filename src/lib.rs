//! Reading statistics over a book catalogue: how many works, pages and words
//! fall into each report section, and the number formatting used to show them.

pub mod stats;
pub mod classify;
pub mod report;
pub mod sections;
pub mod digits;
