//! Verified core of a download-and-merge pipeline for numbered media
//! segments ("episodes"): the per-episode transfer state machine with
//! resume, throttling, pause and cancellation; the bounded-concurrency
//! batch orchestrator; and the staged merge pipeline (validation, fast
//! stream-copy concatenation, re-encode fallback) with subprocess
//! progress parsing.
//!
//! All I/O — HTTP transport, the filesystem, and the media tool
//! subprocesses — lives outside this crate; the functions here take the
//! outcomes of those operations as plain values and decide every next
//! step, so that the decisions themselves are verified.

pub mod config;
pub mod merge;
pub mod naming;
pub mod orchestrator;
pub mod paths;
pub mod progress;
pub mod series;
pub mod session;
pub mod text;
pub mod timecode;
pub mod tool;
pub mod transfer;
