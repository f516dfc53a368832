//! A single-node append-only log broker: producers stream records into named
//! topics, each topic is persisted as a pair of append-only files (data and
//! index), and consumers subscribe to topics to receive a live feed of data
//! and index updates starting from the position current at subscription time.
pub mod auth;
pub mod buff;
pub mod client;
pub mod config;
pub mod consumer;
pub mod er;
pub mod frames;
pub mod hex;
pub mod producer;
pub mod tcp;
pub mod topic;
