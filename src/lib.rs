//! Core logic of a ride-hailing backend: matching ride requests to chairs,
//! the ride status state machine, change signalling and payment retries.

pub mod geo;
pub mod status;
mod ids;
pub mod ride;
pub mod dispatch;
pub mod broker;
pub mod payment;
pub mod service;
