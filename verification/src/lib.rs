//! Diagnostic library for Linux namespace switch testing: parsing of
//! link-listing output, construction of the `/proc`-exposed namespace handle
//! paths, validation of how a target namespace is identified, and the
//! orchestration state machine that sequences the baseline, switched and
//! reverted observations of one test run.

pub mod parse;
pub mod paths;
pub mod run;
