//! Verified core of `domain-probe`: the decisions, parsers, scoring rules and
//! text layout behind the domain inspection report, plus the logo animation
//! model. Network, terminal and file access live in the application crate.

pub mod text;
pub mod cli;
pub mod logo;
pub mod config;
pub mod time;
pub mod style;
pub mod probe;
pub mod grade;
pub mod report;
pub mod streaming;
