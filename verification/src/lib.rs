//! An event-driven backtester for trading strategies.

pub mod asset;
pub mod book_laws;
pub mod box_laws;
pub mod conduct_laws;
pub mod depth;
pub mod engine;
pub mod estimate_laws;
pub mod event_laws;
pub mod evs;
pub mod failure_laws;
pub mod l3;
pub mod l3_laws;
pub mod laws;
pub mod multi;
pub mod multi_laws;
pub mod proc;
pub mod quantity;
pub mod queue;
pub mod queue_laws;
pub mod request_laws;
pub mod requests;
pub mod run;
pub mod single;
pub mod single_laws;
pub mod twin_laws;
pub mod types;
pub mod wait_laws;
