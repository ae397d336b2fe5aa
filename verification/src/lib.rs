//! Core of a nickname-automation bot: for every member of a server, a themed
//! replacement name is either reused from a persisted mapping or obtained from
//! a completion provider, persisted, and applied to the member's profile.
//!
//! Everything that decides — cache lookup, prompt construction, response
//! parsing, retry on provider failure, skip on an unchanged name — is verified
//! here. The unverified edges (the chat platform, the completion provider, the
//! on-disk store) drive the [`batch::Batch`] state machine: it hands out the
//! next external action and is fed the outcome.

pub mod batch;
pub mod cache;
pub mod config;
pub mod gen;
pub mod resolve;
