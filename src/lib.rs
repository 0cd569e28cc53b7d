//! Capture of formatted log output in memory, and assertions over the captured lines.
pub mod lines;
pub mod matching;
pub mod output;
pub mod capture;
pub mod orders;
pub mod cli;
pub mod filter;
pub mod balance;
pub mod welcome;
pub mod invocations;
pub mod span_lines;
