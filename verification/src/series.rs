//! Series metadata and the URL shapes the downloader understands:
//! extracting a series identifier from a page address, and building
//! the canonical page address back from an identifier. Fetching and
//! scraping the pages themselves is an external concern.

use vstd::prelude::*;
use std::collections::HashMap;
use crate::text::{
    all_digits, digits_val, int_str, is_digit, i32_to_string, lemma_digits_val_nonneg, matches_at,
    parse_u64_range, str_contains, contains_sub,
};
use vstd::string::StrSliceExecFns;
use vstd::string::StringExecFns;

verus! {

/// What is known about one series: its identifier, display title,
/// episode count, optional poster, and the URL each episode's media
/// lives at.
#[derive(Debug)]
pub struct SeriesInfo {
    pub series_id: i32,
    pub title: String,
    pub total_episodes: i32,
    pub poster_url: Option<String>,
    pub episode_urls: HashMap<i32, String>,
}

/// The media URL recorded for an episode, when there is one.
pub fn episode_url<'a>(series: &'a SeriesInfo, episode: i32) -> (r: Option<&'a String>)
    ensures
        match r {
            Some(u) => series.episode_urls@.contains_key(episode) && *u
                == series.episode_urls@[episode],
            None => !series.episode_urls@.contains_key(episode),
        },
{
    broadcast use vstd::std_specs::hash::group_hash_axioms;

    series.episode_urls.get(&episode)
}

/// `key` occurs at `i` in `s` with a digit right after it.
pub open spec fn key_digit_at(s: Seq<char>, key: Seq<char>, i: int) -> bool {
    &&& matches_at(s, key, i)
    &&& i + key.len() < s.len()
    &&& is_digit(s[i + key.len()])
}

/// The leftmost position where `key` is followed by a digit.
pub open spec fn first_key_digit(s: Seq<char>, key: Seq<char>) -> Option<int>
    decreases s.len(),
{
    if s.len() < key.len() + 1 {
        None
    } else if s.take(key.len() as int) == key && is_digit(s[key.len() as int]) {
        Some(0)
    } else {
        match first_key_digit(s.drop_first(), key) {
            Some(i) => Some(i + 1),
            None => None,
        }
    }
}

proof fn lemma_first_key_digit_correct(s: Seq<char>, key: Seq<char>)
    ensures
        match first_key_digit(s, key) {
            Some(i) => key_digit_at(s, key, i) && (forall|j: int|
                0 <= j < i ==> !key_digit_at(s, key, j)),
            None => forall|j: int| !key_digit_at(s, key, j),
        },
    decreases s.len(),
{
    let m = key.len() as int;
    if s.len() < key.len() + 1 {
        assert(forall|j: int| !key_digit_at(s, key, j));
    } else if s.take(m) == key && is_digit(s[m]) {
        assert(s.subrange(0, m) =~= s.take(m));
    } else {
        lemma_first_key_digit_correct(s.drop_first(), key);
        let t = s.drop_first();
        assert forall|j: int| 1 <= j implies key_digit_at(s, key, j) == key_digit_at(
            t,
            key,
            j - 1,
        ) by {
            if j - 1 + m < t.len() {
                assert forall|k: int| 0 <= k < m implies #[trigger] t.subrange(j - 1, j - 1 + m)[k]
                    == s.subrange(j, j + m)[k] by {
                    assert(t[j - 1 + k] == s[j + k]);
                }
                assert(t.subrange(j - 1, j - 1 + m) =~= s.subrange(j, j + m));
                assert(t[j - 1 + m] == s[j + m]);
            }
        }
        assert(s.subrange(0, m) =~= s.take(m));
        assert(!key_digit_at(s, key, 0));
    }
}

/// Search for `key` followed by a digit, leftmost occurrence.
fn find_key_digit(s: &str, key: &str) -> (r: Option<usize>)
    ensures
        first_key_digit(s@, key@) == match r {
            Some(i) => Some(i as int),
            None => None::<int>,
        },
{
    proof {
        lemma_first_key_digit_correct(s@, key@);
    }
    let n = s.unicode_len();
    let m = key.unicode_len();
    if n <= m {
        return None;
    }
    let last = n - m - 1;
    let mut i: usize = 0;
    while i <= last
        invariant
            i <= last + 1,
            last == n - m - 1,
            n == s@.len(),
            m == key@.len(),
            m + 1 <= n,
            forall|j: int| 0 <= j < i ==> !key_digit_at(s@, key@, j),
        decreases last + 1 - i,
    {
        let matched = crate::text::check_match(s, key, i);
        if matched {
            assert(matches_at(s@, key@, i as int));
            let c = s.get_char(i + m);
            assert(c == s@[i as int + key@.len()]);
            let u = c as u32;
            if 48 <= u && u <= 57 {
                assert(key_digit_at(s@, key@, i as int));
                proof {
                    lemma_first_key_digit_correct(s@, key@);
                    match first_key_digit(s@, key@) {
                        Some(k) => {
                            if k < i {
                                assert(!key_digit_at(s@, key@, k));
                            }
                            if i < k {
                                assert(!key_digit_at(s@, key@, i as int));
                            }
                        },
                        None => {
                            assert(!key_digit_at(s@, key@, i as int));
                        },
                    }
                }
                return Some(i);
            }
            assert(!is_digit(s@[i as int + key@.len()]));
            assert(!key_digit_at(s@, key@, i as int));
        } else {
            assert(!matches_at(s@, key@, i as int));
            assert(!key_digit_at(s@, key@, i as int));
        }
        i = i + 1;
    }
    proof {
        lemma_first_key_digit_correct(s@, key@);
        assert forall|j: int| !key_digit_at(s@, key@, j) by {
            if j > last {
                assert(!(j + key@.len() < s@.len()));
            }
        }
        match first_key_digit(s@, key@) {
            Some(k) => {
                assert(!key_digit_at(s@, key@, k));
            },
            None => {
            },
        }
    }
    None
}

/// The first index at or after `from` that does not hold a digit.
pub open spec fn digit_run_end(s: Seq<char>, from: int) -> int
    decreases s.len() - from,
{
    if from < s.len() && is_digit(s[from]) {
        digit_run_end(s, from + 1)
    } else {
        from
    }
}

fn scan_digits(s: &str, from: usize) -> (end: usize)
    requires
        from <= s@.len(),
        s@.len() <= usize::MAX,
    ensures
        end == digit_run_end(s@, from as int),
        from <= end <= s@.len(),
{
    let n = s.unicode_len();
    let mut i: usize = from;
    while i < n
        invariant
            from <= i <= n,
            n == s@.len(),
            digit_run_end(s@, from as int) == digit_run_end(s@, i as int),
        ensures
            from <= i <= n,
            digit_run_end(s@, from as int) == digit_run_end(s@, i as int),
            i < n ==> !is_digit(s@[i as int]),
        decreases n - i,
    {
        let c = s.get_char(i);
        let u = c as u32;
        if !(48 <= u && u <= 57) {
            assert(!is_digit(s@[i as int]));
            break;
        }
        i = i + 1;
    }
    i
}

/// The identifier extracted for one key: the maximal digit run after
/// the key's leftmost digit-followed occurrence, when it fits a
/// non-negative 32-bit value.
pub open spec fn id_after_key(s: Seq<char>, key: Seq<char>) -> Option<Option<int>> {
    match first_key_digit(s, key) {
        None => None,
        Some(i) => {
            let start = i + key.len();
            let end = digit_run_end(s, start);
            let v = digits_val(s.subrange(start, end));
            Some(
                if v <= i32::MAX {
                    Some(v)
                } else {
                    None
                },
            )
        },
    }
}

/// What `parse_series_url` yields: the identifier after `series_id=`
/// when that key occurs (or nothing, when its digits overflow), and
/// otherwise the identifier after `/series/`.
pub open spec fn spec_parse_series_url(s: Seq<char>) -> Option<int> {
    match id_after_key(s, seq!['s', 'e', 'r', 'i', 'e', 's', '_', 'i', 'd', '=']) {
        Some(r) => r,
        None => match id_after_key(s, seq!['/', 's', 'e', 'r', 'i', 'e', 's', '/']) {
            Some(r) => r,
            None => None,
        },
    }
}

fn id_after_key_exec(s: &str, key: &str) -> (r: Option<Option<i32>>)
    ensures
        id_after_key(s@, key@) == match r {
            None => None::<Option<int>>,
            Some(None) => Some(None::<int>),
            Some(Some(v)) => Some(Some(v as int)),
        },
{
    let n = s.unicode_len();
    match find_key_digit(s, key) {
        None => None,
        Some(i) => {
            proof {
                lemma_first_key_digit_correct(s@, key@);
            }
            let m = key.unicode_len();
            let start = i + m;
            let end = scan_digits(s, start);
            assert(end > start) by {
                assert(is_digit(s@[start as int]));
                lemma_digit_run_end_ge(s@, start + 1);
            }
            let ghost d = s@.subrange(start as int, end as int);
            proof {
                assert(all_digits(d)) by {
                    assert forall|k: int| 0 <= k < d.len() implies is_digit(#[trigger] d[k]) by {
                        lemma_digit_run(s@, start as int, start + k);
                    }
                }
            }
            match parse_u64_range(s, start, end) {
                Some(v) => {
                    if v <= i32::MAX as u64 {
                        Some(Some(v as i32))
                    } else {
                        Some(None)
                    }
                },
                None => {
                    // all digits and non-empty, so the value overflows
                    // even a 64-bit register
                    proof {
                        lemma_digits_val_nonneg(d);
                    }
                    Some(None)
                },
            }
        },
    }
}

/// A digit run never ends before it starts.
proof fn lemma_digit_run_end_ge(s: Seq<char>, from: int)
    ensures
        digit_run_end(s, from) >= from,
    decreases s.len() - from,
{
    if from < s.len() && is_digit(s[from]) {
        lemma_digit_run_end_ge(s, from + 1);
    }
}

/// Every position of a digit run up to its end holds a digit.
proof fn lemma_digit_run(s: Seq<char>, from: int, k: int)
    requires
        0 <= from <= k < digit_run_end(s, from),
        from <= s.len(),
    ensures
        k < s.len() && is_digit(s[k]),
    decreases k - from,
{
    if from < s.len() && is_digit(s[from]) {
        if k > from {
            lemma_digit_run(s, from + 1, k);
        }
    }
}

/// The URL-shape logic of the content resolver. The HTTP client that
/// fetches and scrapes pages lives outside the library; nothing here
/// keeps state.
pub struct RongyokParser {}

impl RongyokParser {
    pub fn new() -> (p: Self) {
        RongyokParser {  }
    }

    /// Extract a series identifier from a page address: the digits
    /// after `series_id=`, or else the digits after `/series/`.
    pub fn parse_series_url(url: &str) -> (r: Option<i32>)
        ensures
            spec_parse_series_url(url@) == match r {
                Some(v) => Some(v as int),
                None => None::<int>,
            },
    {
        proof {
            reveal_strlit("series_id=");
            assert("series_id="@ =~= seq!['s', 'e', 'r', 'i', 'e', 's', '_', 'i', 'd', '=']);
            reveal_strlit("/series/");
            assert("/series/"@ =~= seq!['/', 's', 'e', 'r', 'i', 'e', 's', '/']);
        }
        match id_after_key_exec(url, "series_id=") {
            Some(r) => r,
            None => {
                match id_after_key_exec(url, "/series/") {
                    Some(r) => r,
                    None => None,
                }
            },
        }
    }

    /// The canonical page address for a series: an explicitly given
    /// address is kept when it points at the mirror host, anything
    /// else becomes the primary host's watch address; the second
    /// component is the matching referer domain.
    pub fn construct_series_url(series_id: i32, original_url: Option<&str>) -> (r: (String, String))
        ensures
            ({
                let url = match original_url {
                    Some(o) => if contains_sub(o@, "thongyok.com"@) {
                        o@
                    } else {
                        "https://rongyok.com/watch/?series_id="@ + int_str(series_id as int)
                    },
                    None => "https://rongyok.com/watch/?series_id="@ + int_str(series_id as int),
                };
                &&& r.0@ == url
                &&& r.1@ == if contains_sub(url, "thongyok.com"@) {
                    "https://thongyok.com/"@
                } else {
                    "https://rongyok.com/"@
                }
            }),
    {
        let url: String = match original_url {
            Some(o) => {
                if str_contains(o, "thongyok.com") {
                    String::from_str(o)
                } else {
                    let mut u = String::from_str("https://rongyok.com/watch/?series_id=");
                    let num = i32_to_string(series_id);
                    u.append(num.as_str());
                    u
                }
            },
            None => {
                let mut u = String::from_str("https://rongyok.com/watch/?series_id=");
                let num = i32_to_string(series_id);
                u.append(num.as_str());
                u
            },
        };
        let domain: String = if str_contains(url.as_str(), "thongyok.com") {
            String::from_str("https://thongyok.com/")
        } else {
            String::from_str("https://rongyok.com/")
        };
        (url, domain)
    }
}

} // verus!
