//! File naming: title sanitization, the per-episode naming policies,
//! the merged-output name, and classification of names in the output
//! directory.

use vstd::prelude::*;
use crate::config::{DownloadConfig, NamingPolicy};
use crate::paths::{spec_join, join_path};
use crate::text::{
    contains_sub, has_prefix, has_suffix, int_str, int_str_pad3, i32_to_string, i32_to_string_pad3,
    push_char, str_contains, str_has_prefix, str_has_suffix, trim, trim_str,
};
use vstd::string::StrSliceExecFns;
use vstd::string::StringExecFns;

verus! {

/// The characters stripped from a title before it is used in a file
/// name.
pub open spec fn is_banned_char(c: char) -> bool {
    c == '<' || c == '>' || c == ':' || c == '"' || c == '/' || c == '\\' || c == '|' || c == '?'
        || c == '*'
}

fn is_banned_char_exec(c: char) -> (r: bool)
    ensures
        r == is_banned_char(c),
{
    c == '<' || c == '>' || c == ':' || c == '"' || c == '/' || c == '\\' || c == '|' || c == '?'
        || c == '*'
}

/// `s` with every banned character removed, order kept.
pub open spec fn strip_banned(s: Seq<char>) -> Seq<char>
    decreases s.len(),
{
    if s.len() == 0 {
        Seq::empty()
    } else {
        strip_banned(s.drop_last()) + (if is_banned_char(s.last()) {
            Seq::empty()
        } else {
            seq![s.last()]
        })
    }
}

/// Sanitization strips the banned characters, trims whitespace, and
/// keeps at most the first 50 characters (characters, not bytes).
pub open spec fn spec_sanitize(s: Seq<char>) -> Seq<char> {
    let t = trim(strip_banned(s));
    if t.len() > 50 {
        t.take(50)
    } else {
        t
    }
}

/// Make `name` safe to use as (part of) a file name.
pub fn sanitize_filename(name: &str) -> (r: String)
    ensures
        r@ == spec_sanitize(name@),
{
    let n = name.unicode_len();
    let mut stripped = String::new();
    let mut i: usize = 0;
    while i < n
        invariant
            i <= n,
            n == name@.len(),
            stripped@ == strip_banned(name@.take(i as int)),
        decreases n - i,
    {
        let c = name.get_char(i);
        proof {
            let t = name@.take(i + 1);
            assert(t.drop_last() =~= name@.take(i as int));
            assert(t.last() == name@[i as int]);
        }
        if !is_banned_char_exec(c) {
            push_char(&mut stripped, c);
            proof {
                assert(stripped@ =~= strip_banned(name@.take(i as int)) + seq![name@[i as int]]);
            }
        }
        i = i + 1;
    }
    proof {
        assert(name@.take(n as int) =~= name@);
    }
    let trimmed = trim_str(stripped.as_str());
    let tn = trimmed.unicode_len();
    if tn > 50 {
        let cut = trimmed.substring_char(0, 50);
        String::from_str(cut)
    } else {
        String::from_str(trimmed)
    }
}

/// The bare file name an episode gets under a naming policy.
pub open spec fn spec_episode_filename(
    policy: NamingPolicy,
    title: Seq<char>,
    episode: int,
) -> Seq<char> {
    match policy {
        NamingPolicy::Plain => seq!['e', 'p', 'i', 's', 'o', 'd', 'e', '_'] + int_str(episode)
            + seq!['.', 'm', 'p', '4'],
        NamingPolicy::Titled => {
            let t = spec_sanitize(title);
            if t.len() == 0 {
                seq!['E', 'P'] + int_str(episode) + seq!['.', 'm', 'p', '4']
            } else {
                t + seq!['_', 'E', 'P'] + int_str(episode) + seq!['.', 'm', 'p', '4']
            }
        },
        NamingPolicy::ZeroPadded => seq!['e', 'p', '_'] + int_str_pad3(episode) + seq![
            '.',
            'm',
            'p',
            '4',
        ],
    }
}

fn episode_filename(config: &DownloadConfig, episode: i32) -> (r: String)
    ensures
        r@ == spec_episode_filename(config.file_naming, config.series_title@, episode as int),
{
    proof {
        reveal_strlit("episode_");
        reveal_strlit(".mp4");
        reveal_strlit("EP");
        reveal_strlit("_EP");
        reveal_strlit("ep_");
        assert("episode_"@ =~= seq!['e', 'p', 'i', 's', 'o', 'd', 'e', '_']);
        assert(".mp4"@ =~= seq!['.', 'm', 'p', '4']);
        assert("EP"@ =~= seq!['E', 'P']);
        assert("_EP"@ =~= seq!['_', 'E', 'P']);
        assert("ep_"@ =~= seq!['e', 'p', '_']);
    }
    match config.file_naming {
        NamingPolicy::Plain => {
            let mut out = String::from_str("episode_");
            let num = i32_to_string(episode);
            out.append(num.as_str());
            out.append(".mp4");
            proof {
                assert(out@ =~= spec_episode_filename(
                    NamingPolicy::Plain,
                    config.series_title@,
                    episode as int,
                ));
            }
            out
        },
        NamingPolicy::Titled => {
            let title = sanitize_filename(config.series_title.as_str());
            let num = i32_to_string(episode);
            if title.as_str().unicode_len() == 0 {
                let mut out = String::from_str("EP");
                out.append(num.as_str());
                out.append(".mp4");
                proof {
                    assert(out@ =~= spec_episode_filename(
                        NamingPolicy::Titled,
                        config.series_title@,
                        episode as int,
                    ));
                }
                out
            } else {
                let mut out = title;
                out.append("_EP");
                out.append(num.as_str());
                out.append(".mp4");
                proof {
                    assert(out@ =~= spec_episode_filename(
                        NamingPolicy::Titled,
                        config.series_title@,
                        episode as int,
                    ));
                }
                out
            }
        },
        NamingPolicy::ZeroPadded => {
            let mut out = String::from_str("ep_");
            let num = i32_to_string_pad3(episode);
            out.append(num.as_str());
            out.append(".mp4");
            proof {
                assert(out@ =~= spec_episode_filename(
                    NamingPolicy::ZeroPadded,
                    config.series_title@,
                    episode as int,
                ));
            }
            out
        },
    }
}

/// The verified face of the per-episode downloader: where files go and
/// how they are named. The HTTP client that feeds the transfer state
/// machine lives outside the library.
pub struct VideoDownloader {
    pub output_dir: String,
    pub config: DownloadConfig,
}

impl VideoDownloader {
    /// Build a downloader over an output directory (with `~/`
    /// expanded) and a configuration. Creating the directory on disk
    /// is the caller's concern.
    pub fn with_config(output_dir: &str, config: DownloadConfig) -> (r: Self)
        ensures
            r.config == config,
            !has_prefix(output_dir@, seq!['~', '/']) ==> r.output_dir@ == output_dir@,
            has_prefix(output_dir@, seq!['~', '/']) ==> (r.output_dir@ == output_dir@ || exists|
                h: Seq<char>,
            | r.output_dir@ == h + seq!['/'] + output_dir@.skip(2)),
    {
        let expanded = crate::paths::expand_path(output_dir);
        VideoDownloader { output_dir: expanded, config }
    }

    /// The full destination path for an episode under this
    /// configuration.
    pub fn get_episode_filename(&self, episode: i32) -> (r: String)
        ensures
            r@ == spec_join(
                self.output_dir@,
                spec_episode_filename(
                    self.config.file_naming,
                    self.config.series_title@,
                    episode as int,
                ),
            ),
    {
        let name = episode_filename(&self.config, episode);
        join_path(self.output_dir.as_str(), name.as_str())
    }
}

/// The merged output is named after the sanitized series title.
pub fn merged_output_name(series_title: &str) -> (r: String)
    ensures
        r@ == spec_sanitize(series_title@) + seq!['.', 'm', 'p', '4'],
{
    let mut out = sanitize_filename(series_title);
    out.append(".mp4");
    proof {
        reveal_strlit(".mp4");
        assert(".mp4"@ =~= seq!['.', 'm', 'p', '4']);
        assert(out@ =~= spec_sanitize(series_title@) + seq!['.', 'm', 'p', '4']);
    }
    out
}

/// Classify a media file name in the output directory: episode files
/// carry an `ep_` prefix or an `_ep` infix; anything else ending in
/// `.mp4` counts as a merged output.
pub fn classify_media_file(name: &str) -> (r: (bool, bool))
    ensures
        r.0 == (has_prefix(name@, seq!['e', 'p', '_']) || contains_sub(name@, seq!['_', 'e', 'p'])),
        r.1 == (!r.0 && has_suffix(name@, seq!['.', 'm', 'p', '4'])),
{
    proof {
        reveal_strlit("ep_");
        reveal_strlit("_ep");
        reveal_strlit(".mp4");
        assert("ep_"@ =~= seq!['e', 'p', '_']);
        assert("_ep"@ =~= seq!['_', 'e', 'p']);
        assert(".mp4"@ =~= seq!['.', 'm', 'p', '4']);
    }
    let is_episode = str_has_prefix(name, "ep_") || str_contains(name, "_ep");
    let is_merged = !is_episode && str_has_suffix(name, ".mp4");
    (is_episode, is_merged)
}

} // verus!
