//! A relay between a synchronization engine and a shared network service:
//! producers queue typed commands through handles, and a single consumer makes
//! the matching service calls in arrival order, stopping once every handle is
//! gone and nothing is pending.
//!
//! The relay here is a single-owner model of the command channel: producers on
//! other tasks reach it through a real channel, whose own ordering and sender
//! count then govern delivery and termination; the proofs are about the model.

pub mod command;
pub mod laws;
pub mod relay;
pub mod reply;
pub mod service;
