//! A game in a browser tab, run on a machine of its own in the cloud.
//!
//! The library decides; it never talks to the network or the disk itself. What a service
//! answered comes in as plain values, and what is to be done next goes out the same way.

pub mod aws;
pub mod commands;
pub mod config;
pub mod discover;
pub mod embedded;
pub mod headers;
pub mod lifecycle;
pub mod number;
pub mod poll;
pub mod proxy;
mod random;
pub mod stack;
pub mod state;
pub mod text;
