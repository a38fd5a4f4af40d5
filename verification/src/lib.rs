//! Core of a latency and throughput benchmarking harness for remote procedure endpoints.
//!
//! A benchmark drives a load of a given shape against an endpoint: for a number of cycles
//! or a span of time, with a number of worker threads that each keep a number of cycles in
//! flight, at full speed or at a target rate. This library holds the logic of such a
//! benchmark: the reading of its settings, the pacing of its cycles, the decisions of its
//! workers, and the statistics that it gathers, samples and folds. Sending the calls,
//! waiting, reading the clock and the stop signal, and showing and storing the results
//! are left to the program around it, which hands the library plain values.
//!
//! Every function of the library is verified, but for the few functions that make a call
//! into another crate: `hdrhistogram` keeps the histograms, `rand` picks the order of the
//! calls of a cycle, `parse_duration` reads spans of time, `serde_json` reads JSON,
//! `itertools` joins texts, `chrono` reads the clock for time stamps, and the standard
//! library appends a character to a string. What is assumed of each such call is stated
//! at the function that makes it.

pub mod config;
pub mod cycle;
pub mod error;
pub mod exec;
pub mod histogram;
pub mod interval;
pub mod numeral;
pub mod params;
pub mod sampler;
pub mod stats;
pub mod text;
pub mod workload;
