//! A workload that drives the interface end to end and reports what each
//! operation did, one line for each step.

pub mod laws;
pub mod options;
pub mod report;

pub mod run;
