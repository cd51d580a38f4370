//! What the command line works out before it asks the daemon.

pub mod report;
