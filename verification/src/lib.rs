//! Re-renders structured log lines for human reading.
//!
//! Each input line is parsed as a JSON object when possible; the resolved
//! message, time and level fields, an optional filter, placeholder
//! substitution and a line template together decide what is emitted.

use vstd::prelude::*;

pub mod filter;
pub mod json;
pub mod process;
pub mod resolve;
pub mod settings;
pub mod substitution;
pub mod template;
pub mod textscan;
