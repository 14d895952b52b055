//! The decisions of a transducer agent: a program that connects to an
//! orchestrator, takes on the work items that it hands out, and hands back
//! what came of them.
//!
//! The network, the processes and the clock are dealt with elsewhere. What
//! comes from them is taken in here as plain values, and what is to be done is
//! handed back as plain values:
//!
//! - [`agent`]: what the agent advertises, its name, its condition, and how it
//!   answers to the orchestrator's control signals;
//! - [`work`]: which work items are taken on, how they are run and what is
//!   handed back for them;
//! - [`capture`] and [`progress`]: what a running process puts out, the files
//!   that it says it has modified, and when progress is reported;
//! - [`git`]: the commit that a work item leaves behind;
//! - [`artifacts`] and [`json`]: structured data besides the output, and the
//!   bytes in which it is handed on;
//! - [`spiffe_auth`]: how the agent authenticates itself;
//! - [`text`]: characters, lines and numbers;
//! - [`outside`]: the calls whose behaviour is taken on trust.

pub mod agent;
pub mod artifacts;
pub mod capture;
pub mod git;
pub mod json;
pub mod outside;
pub mod progress;
pub mod spiffe_auth;
pub mod text;
pub mod work;
