//! A local line relay: producers stream framed lines to a collector, which
//! logs each producer's stream and forwards it live to one attached viewer.

pub mod text;
pub mod event;
pub mod gate;
pub mod daemon;
pub mod broker;
pub mod viewer;
pub mod client;
