//! Building blocks of a Bayesian variant caller for aligned short reads:
//! read/variant overlap classification and fragment sampling, realignment
//! windows over variant haplotypes, bias combinations, breakend and XA tag
//! parsing, the BCF framing of observations, and the ordered reassembly of
//! results computed in parallel.

pub mod bias;
pub mod breakend;
pub mod cli;
pub mod columns;
pub mod fragments;
pub mod insertion;
pub mod keyed;
pub mod mapping;
pub mod observation;
pub mod ordering;
pub mod posterior;
pub mod preprocessing;
pub mod realignment;
pub mod reference;
pub mod record_buffer;
pub mod sample;
pub mod scenario;
pub mod testcase;
pub mod text;
pub mod variants;
