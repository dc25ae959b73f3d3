//! The per-run control flags shared by every transfer in one
//! orchestrated run: pausing or cancelling affects all of them at once.
//!
//! The flags here are the plain values that the transfer step functions
//! read; the surrounding application is responsible for sharing one
//! `DownloadState` across its concurrently running transfers and for
//! snapshotting the flags between chunks.

use vstd::prelude::*;

verus! {

/// Shared pause/cancel status for one orchestrated run.
pub struct DownloadState {
    pub is_paused: bool,
    pub is_cancelled: bool,
}

impl DownloadState {
    /// A fresh run starts neither paused nor cancelled.
    pub fn new() -> (s: Self)
        ensures
            !s.is_paused,
            !s.is_cancelled,
    {
        DownloadState { is_paused: false, is_cancelled: false }
    }

    /// Request or release a pause; cancellation is unaffected.
    pub fn set_paused(&mut self, paused: bool)
        ensures
            final(self).is_paused == paused,
            final(self).is_cancelled == old(self).is_cancelled,
    {
        self.is_paused = paused;
    }

    /// Cancellation is one-way: once requested it stays requested.
    pub fn cancel(&mut self)
        ensures
            final(self).is_cancelled,
            final(self).is_paused == old(self).is_paused,
    {
        self.is_cancelled = true;
    }
}

} // verus!
