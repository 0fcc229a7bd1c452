//! Verified core of a Material Design greeter for greetd: configuration,
//! persistent login state, session and user discovery rules, the greetd
//! authentication protocol and theme colour handling.
pub mod app;
pub mod cli;
pub mod config;
pub mod constants;
pub mod utils;
