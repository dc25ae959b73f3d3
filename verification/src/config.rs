//! Download configuration: the speed cap, the naming policy for
//! per-episode files, and the series title the titled policy uses.

use vstd::prelude::*;

verus! {

/// How per-episode files are named.
#[derive(Clone, Copy, Debug, PartialEq, Eq, Structural)]
pub enum NamingPolicy {
    /// `ep_{episode zero-padded to three digits}.mp4` (the default).
    ZeroPadded,
    /// `episode_{episode}.mp4`.
    Plain,
    /// `{sanitized title}_EP{episode}.mp4`, or `EP{episode}.mp4` when
    /// the title sanitizes to nothing.
    Titled,
}

#[derive(Clone, Debug)]
pub struct DownloadConfig {
    /// Sustained-throughput cap in KiB/s; 0 means unlimited.
    pub speed_limit_kbps: i32,
    pub file_naming: NamingPolicy,
    pub series_title: String,
}

impl Default for DownloadConfig {
    /// Unlimited speed, zero-padded names, empty title.
    fn default() -> (c: Self)
        ensures
            c.speed_limit_kbps == 0,
            c.file_naming == NamingPolicy::ZeroPadded,
            c.series_title@ == Seq::<char>::empty(),
    {
        DownloadConfig {
            speed_limit_kbps: 0,
            file_naming: NamingPolicy::ZeroPadded,
            series_title: String::new(),
        }
    }
}

impl DownloadConfig {
    /// The configured cap in bytes per second; 0 means unlimited.
    pub fn speed_limit_bytes(&self) -> (r: u64)
        ensures
            r == if self.speed_limit_kbps > 0 {
                self.speed_limit_kbps * 1024
            } else {
                0
            },
    {
        if self.speed_limit_kbps > 0 {
            (self.speed_limit_kbps as u64) * 1024
        } else {
            0
        }
    }
}

} // verus!
