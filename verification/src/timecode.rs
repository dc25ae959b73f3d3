//! Parsing the media tool's textual output: plain decimal durations
//! (seconds) and the `time=HH:MM:SS.ss` progress marker. Media times
//! are held in milliseconds; fraction digits beyond the third are
//! ignored, and a value too large for the representation counts as
//! unparsable.

use vstd::prelude::*;
use crate::text::{
    all_digits, all_digits_range, digits_val, find_sub, first_sub, lemma_digits_val_nonneg,
    lemma_digits_val_small, lemma_first_sub_of_found, lemma_first_sub_of_none,
    parse_u64_range, trim, trim_str,
};
use vstd::string::StrSliceExecFns;

verus! {

/// Milliseconds contributed by a fraction part: the first (up to)
/// three digits, scaled to thousandths.
pub open spec fn frac_ms(frac: Seq<char>) -> int {
    let f3 = if frac.len() > 3 {
        frac.take(3)
    } else {
        frac
    };
    let scale: int = if frac.len() == 0 {
        1000
    } else if frac.len() == 1 {
        100
    } else if frac.len() == 2 {
        10
    } else {
        1
    };
    digits_val(f3) * scale
}

/// A plain decimal number of seconds — digits, at most one dot, at
/// least one digit overall — as milliseconds.
pub open spec fn spec_decimal_ms(s: Seq<char>) -> Option<int> {
    match first_sub(s, seq!['.']) {
        None => if s.len() > 0 && all_digits(s) {
            Some(digits_val(s) * 1000)
        } else {
            None
        },
        Some(p) => {
            let ip = s.take(p);
            let fp = s.skip(p + 1);
            if first_sub(fp, seq!['.']) is None && ip.len() + fp.len() > 0 && all_digits(ip)
                && all_digits(fp) {
                Some(digits_val(ip) * 1000 + frac_ms(fp))
            } else {
                None
            }
        },
    }
}

/// Parse a plain decimal number of seconds into milliseconds;
/// `None` when the text is not such a number or the value does not
/// fit the representation.
pub fn parse_decimal_ms(s: &str) -> (r: Option<u64>)
    ensures
        match spec_decimal_ms(s@) {
            Some(v) => r == if v <= u64::MAX {
                Some(v as u64)
            } else {
                None::<u64>
            },
            None => r is None,
        },
{
    proof {
        reveal_strlit(".");
        assert("."@ =~= seq!['.']);
    }
    let n = s.unicode_len();
    match find_sub(s, ".") {
        None => {
            proof {
                lemma_first_sub_of_none(s@, seq!['.']);
            }
            if n == 0 {
                return None;
            }
            proof {
                assert(s@.subrange(0, n as int) =~= s@);
            }
            if !all_digits_range(s, 0, n) {
                return None;
            }
            match parse_u64_range(s, 0, n) {
                Some(v) => {
                    proof {
                        lemma_digits_val_nonneg(s@);
                    }
                    if v <= u64::MAX / 1000 {
                        Some(v * 1000)
                    } else {
                        None
                    }
                },
                None => {
                    // every character is a digit and the range is
                    // non-empty, so the value itself must overflow
                    proof {
                        let dv = digits_val(s@);
                        assert(dv > u64::MAX);
                        assert(dv * 1000 >= dv) by (nonlinear_arith)
                            requires
                                dv >= 0,
                        ;
                    }
                    None
                },
            }
        },
        Some(p) => {
            proof {
                lemma_first_sub_of_found(s@, seq!['.'], p as int);
            }
            let ghost ip = s@.take(p as int);
            let ghost fp = s@.skip(p + 1);
            let fp_str = s.substring_char(p + 1, n);
            proof {
                assert(fp_str@ =~= fp);
            }
            match find_sub(fp_str, ".") {
                Some(q) => {
                    proof {
                        lemma_first_sub_of_found(fp, seq!['.'], q as int);
                    }
                    None
                },
                None => {
                    proof {
                        lemma_first_sub_of_none(fp, seq!['.']);
                    }
                    if n <= 1 {
                        // the text is just the dot
                        return None;
                    }
                    proof {
                        assert(ip =~= s@.subrange(0, p as int));
                        assert(fp =~= s@.subrange(p + 1, n as int));
                    }
                    let ip_ok = all_digits_range(s, 0, p);
                    let fp_ok = all_digits_range(s, p + 1, n);
                    if !ip_ok || !fp_ok {
                        return None;
                    }
                    let ipv: u64 = if p == 0 {
                        proof {
                            assert(ip =~= Seq::<char>::empty());
                        }
                        0
                    } else {
                        match parse_u64_range(s, 0, p) {
                            Some(v) => v,
                            None => {
                                // digits throughout, so the integer
                                // part alone overflows
                                proof {
                                    let dv = digits_val(ip);
                                    assert(dv > u64::MAX);
                                    lemma_digits_val_small(
                                        if fp.len() > 3 {
                                            fp.take(3)
                                        } else {
                                            fp
                                        },
                                    );
                                    assert(frac_ms(fp) >= 0) by {
                                        let f3 = if fp.len() > 3 {
                                            fp.take(3)
                                        } else {
                                            fp
                                        };
                                        assert(all_digits(f3)) by {
                                            assert(forall|i: int|
                                                0 <= i < f3.len() ==> f3[i] == fp[i]);
                                        }
                                        lemma_digits_val_nonneg(f3);
                                        let scale: int = if fp.len() == 0 {
                                            1000
                                        } else if fp.len() == 1 {
                                            100
                                        } else if fp.len() == 2 {
                                            10
                                        } else {
                                            1
                                        };
                                        assert(digits_val(f3) * scale >= 0) by (nonlinear_arith)
                                            requires
                                                digits_val(f3) >= 0,
                                                scale >= 1,
                                        ;
                                    }
                                    assert(dv * 1000 >= dv) by (nonlinear_arith)
                                        requires
                                            dv >= 0,
                                    ;
                                }
                                return None;
                            },
                        }
                    };
                    let fl = n - (p + 1);
                    let keep: usize = if fl > 3 {
                        3
                    } else {
                        fl
                    };
                    let ghost f3 = if fp.len() > 3 {
                        fp.take(3)
                    } else {
                        fp
                    };
                    proof {
                        assert(f3 =~= s@.subrange(p + 1, (p + 1 + keep) as int));
                        assert(all_digits(f3)) by {
                            assert(forall|i: int| 0 <= i < f3.len() ==> f3[i] == fp[i]);
                        }
                        lemma_digits_val_small(f3);
                    }
                    let fv: u64 = if keep == 0 {
                        0
                    } else {
                        match parse_u64_range(s, p + 1, p + 1 + keep) {
                            Some(v) => v,
                            None => {
                                proof {
                                    assert(false);
                                }
                                return None;
                            },
                        }
                    };
                    let scale: u64 = if fl == 0 {
                        1000
                    } else if fl == 1 {
                        100
                    } else if fl == 2 {
                        10
                    } else {
                        1
                    };
                    assert(fv * scale <= 999);
                    let fr: u64 = fv * scale;
                    proof {
                        assert(fr == frac_ms(fp));
                        lemma_digits_val_nonneg(ip);
                    }
                    let total: u128 = (ipv as u128) * 1000 + (fr as u128);
                    if total <= u64::MAX as u128 {
                        Some(total as u64)
                    } else {
                        None
                    }
                },
            }
        },
    }
}

/// A duration as the inspection tool prints it: the decimal seconds
/// with surrounding whitespace ignored.
pub fn parse_duration_ms(s: &str) -> (r: Option<u64>)
    ensures
        match spec_decimal_ms(trim(s@)) {
            Some(v) => r == if v <= u64::MAX {
                Some(v as u64)
            } else {
                None::<u64>
            },
            None => r is None,
        },
{
    let t = trim_str(s);
    parse_decimal_ms(t)
}

pub proof fn lemma_decimal_ms_nonneg(s: Seq<char>)
    ensures
        spec_decimal_ms(s) matches Some(v) ==> v >= 0,
{
    match first_sub(s, seq!['.']) {
        None => {
            if s.len() > 0 && all_digits(s) {
                lemma_digits_val_nonneg(s);
                assert(digits_val(s) * 1000 >= 0) by (nonlinear_arith)
                    requires
                        digits_val(s) >= 0,
                ;
            }
        },
        Some(p) => {
            let ip = s.take(p);
            let fp = s.skip(p + 1);
            if first_sub(fp, seq!['.']) is None && ip.len() + fp.len() > 0 && all_digits(ip)
                && all_digits(fp) {
                lemma_digits_val_nonneg(ip);
                let f3 = if fp.len() > 3 {
                    fp.take(3)
                } else {
                    fp
                };
                assert(all_digits(f3)) by {
                    assert(forall|i: int| 0 <= i < f3.len() ==> f3[i] == fp[i]);
                }
                lemma_digits_val_nonneg(f3);
                let scale: int = if fp.len() == 0 {
                    1000
                } else if fp.len() == 1 {
                    100
                } else if fp.len() == 2 {
                    10
                } else {
                    1
                };
                assert(digits_val(ip) * 1000 + digits_val(f3) * scale >= 0) by (nonlinear_arith)
                    requires
                        digits_val(ip) >= 0,
                        digits_val(f3) >= 0,
                        scale >= 1,
                ;
            }
        },
    }
}

/// The value a time component contributes: its parsed milliseconds,
/// or 0 when it cannot be parsed (or cannot be represented).
pub open spec fn component_ms(s: Seq<char>) -> int {
    match spec_decimal_ms(s) {
        Some(v) => if v <= u64::MAX {
            v
        } else {
            0
        },
        None => 0,
    }
}

fn component_ms_exec(s: &str) -> (r: u64)
    ensures
        r == component_ms(s@),
{
    proof {
        lemma_decimal_ms_nonneg(s@);
    }
    match parse_decimal_ms(s) {
        Some(v) => v,
        None => 0,
    }
}

/// The elapsed media time a diagnostic line reports: after the first
/// `time=` marker, up to the first space, a three-part `H:M:S`
/// clock whose parts are decimal (unparsable parts count as 0), in
/// milliseconds.
pub open spec fn spec_ffmpeg_time_ms(line: Seq<char>) -> Option<int> {
    match first_sub(line, seq!['t', 'i', 'm', 'e', '=']) {
        None => None,
        Some(t0) => {
            let tail = line.skip(t0 + 5);
            match first_sub(tail, seq![' ']) {
                None => None,
                Some(sp) => {
                    let part = tail.take(sp);
                    match first_sub(part, seq![':']) {
                        None => None,
                        Some(c1) => {
                            let rest = part.skip(c1 + 1);
                            match first_sub(rest, seq![':']) {
                                None => None,
                                Some(c2) => {
                                    let rest2 = rest.skip(c2 + 1);
                                    if first_sub(rest2, seq![':']) is Some {
                                        None
                                    } else {
                                        Some(
                                            component_ms(part.take(c1)) * 3600 + component_ms(
                                                rest.take(c2),
                                            ) * 60 + component_ms(rest2),
                                        )
                                    }
                                },
                            }
                        },
                    }
                },
            }
        },
    }
}

pub proof fn lemma_ffmpeg_time_nonneg(line: Seq<char>)
    ensures
        spec_ffmpeg_time_ms(line) matches Some(v) ==> v >= 0,
{
    match first_sub(line, seq!['t', 'i', 'm', 'e', '=']) {
        None => {
        },
        Some(t0) => {
            let tail = line.skip(t0 + 5);
            match first_sub(tail, seq![' ']) {
                None => {
                },
                Some(sp) => {
                    let part = tail.take(sp);
                    match first_sub(part, seq![':']) {
                        None => {
                        },
                        Some(c1) => {
                            let rest = part.skip(c1 + 1);
                            match first_sub(rest, seq![':']) {
                                None => {
                                },
                                Some(c2) => {
                                    let rest2 = rest.skip(c2 + 1);
                                    lemma_decimal_ms_nonneg(part.take(c1));
                                    lemma_decimal_ms_nonneg(rest.take(c2));
                                    lemma_decimal_ms_nonneg(rest2);
                                },
                            }
                        },
                    }
                },
            }
        },
    }
}

/// Extract the elapsed media time from one diagnostic line; `None`
/// when the line carries no (well-formed, representable) marker.
pub fn parse_ffmpeg_time(line: &str) -> (r: Option<u64>)
    ensures
        match spec_ffmpeg_time_ms(line@) {
            Some(v) => r == if v <= u64::MAX {
                Some(v as u64)
            } else {
                None::<u64>
            },
            None => r is None,
        },
{
    proof {
        reveal_strlit("time=");
        assert("time="@ =~= seq!['t', 'i', 'm', 'e', '=']);
        reveal_strlit(" ");
        assert(" "@ =~= seq![' ']);
        reveal_strlit(":");
        assert(":"@ =~= seq![':']);
    }
    let n = line.unicode_len();
    let t0 = match find_sub(line, "time=") {
        Some(i) => {
            proof {
                lemma_first_sub_of_found(line@, seq!['t', 'i', 'm', 'e', '='], i as int);
            }
            i
        },
        None => {
            proof {
                lemma_first_sub_of_none(line@, seq!['t', 'i', 'm', 'e', '=']);
            }
            return None;
        },
    };
    let tail = line.substring_char(t0 + 5, n);
    proof {
        assert(tail@ =~= line@.skip(t0 + 5));
    }
    let tn = tail.unicode_len();
    let sp = match find_sub(tail, " ") {
        Some(i) => {
            proof {
                lemma_first_sub_of_found(tail@, seq![' '], i as int);
            }
            i
        },
        None => {
            proof {
                lemma_first_sub_of_none(tail@, seq![' ']);
            }
            return None;
        },
    };
    let part = tail.substring_char(0, sp);
    proof {
        assert(part@ =~= tail@.take(sp as int));
    }
    let pn = part.unicode_len();
    let c1 = match find_sub(part, ":") {
        Some(i) => {
            proof {
                lemma_first_sub_of_found(part@, seq![':'], i as int);
            }
            i
        },
        None => {
            proof {
                lemma_first_sub_of_none(part@, seq![':']);
            }
            return None;
        },
    };
    let rest = part.substring_char(c1 + 1, pn);
    proof {
        assert(rest@ =~= part@.skip(c1 + 1));
    }
    let rn = rest.unicode_len();
    let c2 = match find_sub(rest, ":") {
        Some(i) => {
            proof {
                lemma_first_sub_of_found(rest@, seq![':'], i as int);
            }
            i
        },
        None => {
            proof {
                lemma_first_sub_of_none(rest@, seq![':']);
            }
            return None;
        },
    };
    let rest2 = rest.substring_char(c2 + 1, rn);
    proof {
        assert(rest2@ =~= rest@.skip(c2 + 1));
    }
    match find_sub(rest2, ":") {
        Some(q) => {
            proof {
                lemma_first_sub_of_found(rest2@, seq![':'], q as int);
            }
            return None;
        },
        None => {
            proof {
                lemma_first_sub_of_none(rest2@, seq![':']);
            }
        },
    }
    let hours_part = part.substring_char(0, c1);
    proof {
        assert(hours_part@ =~= part@.take(c1 as int));
    }
    let minutes_part = rest.substring_char(0, c2);
    proof {
        assert(minutes_part@ =~= rest@.take(c2 as int));
    }
    let h = component_ms_exec(hours_part);
    let m = component_ms_exec(minutes_part);
    let s2 = component_ms_exec(rest2);
    let total: u128 = (h as u128) * 3600 + (m as u128) * 60 + (s2 as u128);
    if total <= u64::MAX as u128 {
        Some(total as u64)
    } else {
        None
    }
}

} // verus!
