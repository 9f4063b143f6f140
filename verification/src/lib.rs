//! Core of an autonomous on-chain agent: the event-to-response pipeline.
//!
//! An incoming on-chain event becomes a prompt request; the request is turned
//! into a retrieval-augmented prompt, a generated response, a stored memory,
//! and a signed off-chain message.  This crate holds the verified logic of
//! that pipeline: event-tag resolution, the memory store with its similarity
//! retrieval, prompt composition, the processing state machine, the bounded
//! request channel, and the deterministic encoding and signing of off-chain
//! messages.  The surrounding process (configuration loading, network and
//! database transports, the asynchronous tasks) lives outside this crate and
//! hands plain values in and out.

pub mod channel;
pub mod config;
pub mod hexfelt;
pub mod memory;
pub mod offchain;
pub mod pipeline;
pub mod prompt;
pub mod run;
pub mod tags;
