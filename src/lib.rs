//! A single-threaded echo-on-newline server core: per-connection state
//! machine, a fixed-capacity connection table and the dispatch rules of the
//! server loop, plus two small companion exercises (a dining table and a
//! request router).

pub mod state;
pub mod connection;
pub mod table;
pub mod server;
pub mod dining;
pub mod http;
