//! Dispatches a CI workflow and follows its run to completion: the records a
//! run is made of, the per-job bookkeeping that reports each step and
//! annotation once, the polling cycle, and the watch loop's decisions.

pub mod cli;
pub mod config;
pub mod github;
pub mod model;
pub mod poller;
pub mod prompts;
pub mod report;
pub mod schema;
pub mod tracker;
pub mod watch;
