//! A verified engine for checking how a substitute implementation of an
//! operation is called: which call patterns match, how often each is used,
//! in which global order strictly ordered calls arrive, and what is reported
//! when a scenario is torn down.
//!
//! Patterns are assembled with [`builders::Each`] and [`builders::Call`],
//! registered per operation in a [`session::Session`], matched by
//! [`session::Session::call`] and checked by [`session::Session::verify`].
pub mod builders;
pub mod counter;
pub mod error;
pub mod laws;
pub mod output;
pub mod pattern;
pub mod registry;
pub mod session;
