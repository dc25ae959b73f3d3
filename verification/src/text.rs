//! Character-level text utilities: substring search, prefix/suffix
//! tests, decimal digit parsing and formatting, and whitespace
//! trimming. Everything here is stated over `Seq<char>` views, so the
//! naming, URL and subprocess-output grammars built on top of it have
//! exact contracts.

use vstd::prelude::*;

verus! {

/// Relies on `String::push`: appends exactly the one character.
#[verifier::external_body]
pub fn push_char(s: &mut String, c: char)
    ensures
        final(s)@ == old(s)@.push(c),
{
    s.push(c);
}

// ---------------------------------------------------------------------
// Digits
// ---------------------------------------------------------------------

pub open spec fn is_digit(c: char) -> bool {
    48 <= c as u32 <= 57
}

pub open spec fn digit_val(c: char) -> int {
    c as u32 - 48
}

pub open spec fn all_digits(s: Seq<char>) -> bool {
    forall|i: int| 0 <= i < s.len() ==> is_digit(s[i])
}

/// The value of a string of decimal digits, most significant first.
pub open spec fn digits_val(s: Seq<char>) -> int
    decreases s.len(),
{
    if s.len() == 0 {
        0
    } else {
        digits_val(s.drop_last()) * 10 + digit_val(s.last())
    }
}

pub proof fn lemma_digits_val_nonneg(s: Seq<char>)
    requires
        all_digits(s),
    ensures
        digits_val(s) >= 0,
    decreases s.len(),
{
    if s.len() > 0 {
        assert(all_digits(s.drop_last())) by {
            assert(forall|i: int| 0 <= i < s.len() - 1 ==> s.drop_last()[i] == s[i]);
        }
        lemma_digits_val_nonneg(s.drop_last());
    }
}

/// A digit string is worth at least as much as any of its prefixes.
pub proof fn lemma_digits_val_prefix_le(s: Seq<char>, k: int)
    requires
        all_digits(s),
        0 <= k <= s.len(),
    ensures
        digits_val(s.take(k)) <= digits_val(s),
    decreases s.len() - k,
{
    if k < s.len() {
        lemma_digits_val_prefix_le(s, k + 1);
        let t = s.take(k + 1);
        assert(t.drop_last() =~= s.take(k));
        assert(all_digits(s.take(k))) by {
            assert(forall|i: int| 0 <= i < k ==> s.take(k)[i] == s[i]);
        }
        lemma_digits_val_nonneg(s.take(k));
        assert(digits_val(t) == digits_val(s.take(k)) * 10 + digit_val(t.last()));
        assert(digit_val(t.last()) >= 0);
    } else {
        assert(s.take(k) =~= s);
    }
}

/// Parse the character range `[from, to)` of `s` as an unsigned decimal
/// number, as `str::parse::<u64>` would: every character must be a
/// digit, the range must be non-empty, and the value must fit.
pub fn parse_u64_range(s: &str, from: usize, to: usize) -> (r: Option<u64>)
    requires
        from <= to <= s@.len(),
    ensures
        match r {
            Some(v) => {
                &&& to > from
                &&& all_digits(s@.subrange(from as int, to as int))
                &&& v == digits_val(s@.subrange(from as int, to as int))
            },
            None => {
                let d = s@.subrange(from as int, to as int);
                to == from || !all_digits(d) || digits_val(d) > u64::MAX
            },
        },
{
    let ghost d = s@.subrange(from as int, to as int);
    if from == to {
        return None;
    }
    let mut acc: u64 = 0;
    let mut i: usize = from;
    while i < to
        invariant
            from <= i <= to <= s@.len(),
            d == s@.subrange(from as int, to as int),
            all_digits(d.take(i - from)),
            acc == digits_val(d.take(i - from)),
        decreases to - i,
    {
        let c = s.get_char(i);
        let u = c as u32;
        assert(c == d[i - from]);
        if !(48 <= u && u <= 57) {
            assert(!is_digit(d[i - from]));
            return None;
        }
        let dv: u64 = (u - 48) as u64;
        proof {
            lemma_digits_val_nonneg(d.take(i - from));
        }
        if acc > (u64::MAX - dv) / 10 {
            // The prefix up to and including this digit already
            // exceeds the range, so the whole range does too.
            proof {
                let t = d.take(i - from + 1);
                assert(t.drop_last() =~= d.take(i - from));
                assert(t.last() == d[i - from]);
                assert(digits_val(t) == acc * 10 + dv);
                assert(digits_val(t) > u64::MAX);
                if all_digits(d) {
                    lemma_digits_val_prefix_le(d, i - from + 1);
                }
            }
            return None;
        }
        proof {
            let t = d.take(i - from + 1);
            assert(t.drop_last() =~= d.take(i - from));
            assert(t.last() == d[i - from]);
        }
        acc = acc * 10 + dv;
        i = i + 1;
    }
    proof {
        assert(d.take(to - from) =~= d);
    }
    Some(acc)
}

// ---------------------------------------------------------------------
// Substring search, prefixes and suffixes
// ---------------------------------------------------------------------

/// `pat` occurs in `s` starting at character index `i`.
pub open spec fn matches_at(s: Seq<char>, pat: Seq<char>, i: int) -> bool {
    &&& 0 <= i
    &&& i + pat.len() <= s.len()
    &&& s.subrange(i, i + pat.len()) == pat
}

pub open spec fn has_prefix(s: Seq<char>, pat: Seq<char>) -> bool {
    matches_at(s, pat, 0)
}

pub open spec fn has_suffix(s: Seq<char>, pat: Seq<char>) -> bool {
    matches_at(s, pat, s.len() - pat.len())
}

pub open spec fn contains_sub(s: Seq<char>, pat: Seq<char>) -> bool {
    exists|i: int| matches_at(s, pat, i)
}

/// The index of the leftmost occurrence of `pat` in `s`, as a
/// deterministic spec-level companion to [`find_sub`].
pub open spec fn first_sub(s: Seq<char>, pat: Seq<char>) -> Option<int>
    decreases s.len(),
{
    if s.len() < pat.len() {
        None
    } else if pat.len() == 0 {
        Some(0)
    } else if s.take(pat.len() as int) == pat {
        Some(0)
    } else {
        match first_sub(s.drop_first(), pat) {
            Some(i) => Some(i + 1),
            None => None,
        }
    }
}

pub proof fn lemma_first_sub_correct(s: Seq<char>, pat: Seq<char>)
    ensures
        match first_sub(s, pat) {
            Some(i) => matches_at(s, pat, i) && (forall|j: int|
                0 <= j < i ==> !matches_at(s, pat, j)),
            None => forall|j: int| !matches_at(s, pat, j),
        },
    decreases s.len(),
{
    let m = pat.len() as int;
    if s.len() < pat.len() {
        assert(forall|j: int| !matches_at(s, pat, j));
    } else if pat.len() == 0 {
        assert(s.subrange(0, 0) =~= pat);
    } else if s.take(m) == pat {
        assert(s.subrange(0, m) =~= s.take(m));
    } else {
        lemma_first_sub_correct(s.drop_first(), pat);
        let t = s.drop_first();
        assert forall|j: int| 1 <= j implies matches_at(s, pat, j) == matches_at(t, pat, j - 1) by {
            if j - 1 + m <= t.len() {
                assert forall|k: int| 0 <= k < m implies #[trigger] t.subrange(j - 1, j - 1 + m)[k]
                    == s.subrange(j, j + m)[k] by {
                    assert(t[j - 1 + k] == s[j + k]);
                }
                assert(t.subrange(j - 1, j - 1 + m) =~= s.subrange(j, j + m));
            }
        }
        assert(s.subrange(0, m) =~= s.take(m));
        assert(!matches_at(s, pat, 0));
    }
}

/// The leftmost match that a search came back with is exactly
/// `first_sub`.
pub proof fn lemma_first_sub_of_found(s: Seq<char>, pat: Seq<char>, i: int)
    requires
        matches_at(s, pat, i),
        forall|j: int| 0 <= j < i ==> !matches_at(s, pat, j),
    ensures
        first_sub(s, pat) == Some(i),
{
    lemma_first_sub_correct(s, pat);
    match first_sub(s, pat) {
        Some(k) => {
            if k < i {
                assert(!matches_at(s, pat, k));
            }
            if i < k {
                assert(!matches_at(s, pat, i));
            }
        },
        None => {
            assert(!matches_at(s, pat, i));
        },
    }
}

/// A search that found nothing agrees with `first_sub`.
pub proof fn lemma_first_sub_of_none(s: Seq<char>, pat: Seq<char>)
    requires
        forall|j: int| !matches_at(s, pat, j),
    ensures
        first_sub(s, pat) is None,
{
    lemma_first_sub_correct(s, pat);
    match first_sub(s, pat) {
        Some(i) => {
            assert(!matches_at(s, pat, i));
        },
        None => {
        },
    }
}

/// Whether every character of the range `[from, to)` is a digit.
pub fn all_digits_range(s: &str, from: usize, to: usize) -> (r: bool)
    requires
        from <= to <= s@.len(),
    ensures
        r == all_digits(s@.subrange(from as int, to as int)),
{
    let ghost d = s@.subrange(from as int, to as int);
    let mut i: usize = from;
    while i < to
        invariant
            from <= i <= to <= s@.len(),
            d == s@.subrange(from as int, to as int),
            forall|j: int| 0 <= j < i - from ==> is_digit(d[j]),
        decreases to - i,
    {
        let c = s.get_char(i);
        let u = c as u32;
        assert(c == d[i - from]);
        if !(48 <= u && u <= 57) {
            assert(!is_digit(d[i - from]));
            return false;
        }
        i = i + 1;
    }
    true
}

/// A digit string of at most three characters stays under 1000 (and
/// shorter ones under 100 and 10).
pub proof fn lemma_digits_val_small(s: Seq<char>)
    requires
        all_digits(s),
    ensures
        s.len() == 0 ==> digits_val(s) == 0,
        s.len() <= 1 ==> digits_val(s) <= 9,
        s.len() <= 2 ==> digits_val(s) <= 99,
        s.len() <= 3 ==> digits_val(s) <= 999,
    decreases s.len(),
{
    if s.len() > 0 {
        assert(all_digits(s.drop_last())) by {
            assert(forall|i: int| 0 <= i < s.len() - 1 ==> s.drop_last()[i] == s[i]);
        }
        lemma_digits_val_small(s.drop_last());
    }
}

/// Whether `pat` occurs in `s` at character index `at`.
pub(crate) fn check_match(s: &str, pat: &str, at: usize) -> (r: bool)
    requires
        at + pat@.len() <= s@.len(),
        s@.len() <= usize::MAX,
    ensures
        r == matches_at(s@, pat@, at as int),
{
    let m = pat.unicode_len();
    let mut k: usize = 0;
    let mut ok = true;
    while k < m
        invariant_except_break
            k <= m,
            m == pat@.len(),
            at + m <= s@.len(),
            s@.len() <= usize::MAX,
            ok,
            forall|t: int| 0 <= t < k ==> s@[at + t] == pat@[t],
        ensures
            m == pat@.len(),
            at + m <= s@.len(),
            ok ==> forall|t: int| 0 <= t < m ==> s@[at + t] == pat@[t],
            !ok ==> exists|t: int| 0 <= t < m && s@[at + t] != pat@[t],
        decreases m - k,
    {
        let a = s.get_char(at + k);
        let b = pat.get_char(k);
        if a != b {
            assert(s@[at + k] != pat@[k as int]);
            ok = false;
            break;
        }
        assert(s@[at + k] == pat@[k as int]);
        k = k + 1;
    }
    proof {
        if ok {
            assert(s@.subrange(at as int, at + m) =~= pat@);
        } else {
            let t0 = choose|t: int| 0 <= t < m && s@[at + t] != pat@[t];
            assert(s@.subrange(at as int, at + m)[t0] == s@[at + t0]);
            assert(s@.subrange(at as int, at + m) != pat@);
        }
    }
    ok
}

/// Leftmost occurrence of `pat` in `s`, by character index; `None` when
/// `pat` does not occur. The empty pattern matches at index 0.
pub fn find_sub(s: &str, pat: &str) -> (r: Option<usize>)
    ensures
        match r {
            Some(i) => matches_at(s@, pat@, i as int) && (forall|j: int|
                0 <= j < i ==> !matches_at(s@, pat@, j)),
            None => forall|j: int| !matches_at(s@, pat@, j),
        },
{
    let n = s.unicode_len();
    let m = pat.unicode_len();
    if m > n {
        return None;
    }
    if m == 0 {
        proof {
            assert(s@.subrange(0, 0) =~= pat@);
        }
        return Some(0);
    }
    let last = n - m;
    let mut i: usize = 0;
    while i <= last
        invariant
            i <= last + 1,
            last == n - m,
            1 <= m <= n,
            n == s@.len(),
            m == pat@.len(),
            forall|j: int| 0 <= j < i ==> !matches_at(s@, pat@, j),
        decreases last + 1 - i,
    {
        if check_match(s, pat, i) {
            return Some(i);
        }
        i = i + 1;
    }
    proof {
        assert forall|j: int| !matches_at(s@, pat@, j) by {
            if j > last {
                assert(j + pat@.len() > s@.len());
            }
        }
    }
    None
}

/// Whether `s` begins with `pat`, character for character.
pub fn str_has_prefix(s: &str, pat: &str) -> (r: bool)
    ensures
        r == has_prefix(s@, pat@),
{
    let n = s.unicode_len();
    let m = pat.unicode_len();
    if m > n {
        return false;
    }
    check_match(s, pat, 0)
}

/// Whether `s` ends with `pat`, character for character.
pub fn str_has_suffix(s: &str, pat: &str) -> (r: bool)
    ensures
        r == has_suffix(s@, pat@),
{
    let n = s.unicode_len();
    let m = pat.unicode_len();
    if m > n {
        return false;
    }
    check_match(s, pat, n - m)
}

/// Whether `pat` occurs anywhere in `s`.
pub fn str_contains(s: &str, pat: &str) -> (r: bool)
    ensures
        r == contains_sub(s@, pat@),
{
    match find_sub(s, pat) {
        Some(i) => {
            assert(matches_at(s@, pat@, i as int));
            true
        },
        None => false,
    }
}

// ---------------------------------------------------------------------
// Decimal formatting
// ---------------------------------------------------------------------

pub open spec fn digit_char(d: int) -> char {
    if d == 0 {
        '0'
    } else if d == 1 {
        '1'
    } else if d == 2 {
        '2'
    } else if d == 3 {
        '3'
    } else if d == 4 {
        '4'
    } else if d == 5 {
        '5'
    } else if d == 6 {
        '6'
    } else if d == 7 {
        '7'
    } else if d == 8 {
        '8'
    } else {
        '9'
    }
}

/// The decimal representation of a non-negative number, no sign, no
/// leading zeros (except for the number 0 itself).
pub open spec fn dec_str(n: int) -> Seq<char>
    decreases n,
{
    if n < 10 {
        seq![digit_char(n)]
    } else {
        dec_str(n / 10) + seq![digit_char(n % 10)]
    }
}

/// The decimal representation of a possibly negative number.
pub open spec fn int_str(v: int) -> Seq<char> {
    if v < 0 {
        seq!['-'] + dec_str(-v)
    } else {
        dec_str(v)
    }
}

fn digit_char_exec(d: u64) -> (c: char)
    requires
        d < 10,
    ensures
        c == digit_char(d as int),
{
    if d == 0 {
        '0'
    } else if d == 1 {
        '1'
    } else if d == 2 {
        '2'
    } else if d == 3 {
        '3'
    } else if d == 4 {
        '4'
    } else if d == 5 {
        '5'
    } else if d == 6 {
        '6'
    } else if d == 7 {
        '7'
    } else if d == 8 {
        '8'
    } else {
        '9'
    }
}

/// Format `n` in decimal.
pub fn u64_to_string(n: u64) -> (s: String)
    ensures
        s@ == dec_str(n as int),
    decreases n,
{
    if n < 10 {
        let mut s = String::new();
        let c = digit_char_exec(n);
        push_char(&mut s, c);
        proof {
            assert(s@ =~= seq![digit_char(n as int)]);
        }
        s
    } else {
        let mut s = u64_to_string(n / 10);
        let c = digit_char_exec(n % 10);
        push_char(&mut s, c);
        proof {
            assert(s@ =~= dec_str((n / 10) as int) + seq![digit_char((n % 10) as int)]);
        }
        s
    }
}

/// Format `v` in decimal with a leading `-` when negative.
pub fn i32_to_string(v: i32) -> (s: String)
    ensures
        s@ == int_str(v as int),
{
    if v >= 0 {
        u64_to_string(v as u64)
    } else {
        let mag: u64 = (-(v as i64)) as u64;
        let mut s = String::new();
        push_char(&mut s, '-');
        let body = u64_to_string(mag);
        s.append(body.as_str());
        proof {
            assert(s@ =~= seq!['-'] + dec_str(-(v as int)));
        }
        s
    }
}

/// `v` in decimal, zero-padded on the left to a total width of three
/// characters; a sign counts towards the width, and wider numbers are
/// not truncated. This mirrors formatting an integer with a
/// zero-padded width of 3.
pub open spec fn int_str_pad3(v: int) -> Seq<char> {
    let sign: Seq<char> = if v < 0 {
        seq!['-']
    } else {
        Seq::empty()
    };
    let body = dec_str(if v < 0 {
        -v
    } else {
        v
    });
    let pad = if sign.len() + body.len() < 3 {
        3 - sign.len() - body.len()
    } else {
        0
    };
    sign + Seq::new(pad as nat, |i: int| '0') + body
}

pub fn i32_to_string_pad3(v: i32) -> (s: String)
    ensures
        s@ == int_str_pad3(v as int),
{
    let mut s = String::new();
    if v < 0 {
        push_char(&mut s, '-');
    }
    let mag: u64 = if v < 0 {
        (-(v as i64)) as u64
    } else {
        v as u64
    };
    let body = u64_to_string(mag);
    let sign_len: usize = if v < 0 {
        1
    } else {
        0
    };
    let body_len = body.as_str().unicode_len();
    let pad_n: usize = if body_len >= 3 || sign_len >= 3 - body_len {
        0
    } else {
        3 - sign_len - body_len
    };
    assert(pad_n == if sign_len + body_len < 3 {
        3 - sign_len - body_len
    } else {
        0
    });
    let mut padded: usize = 0;
    while padded < pad_n
        invariant
            0 <= padded <= pad_n <= 3,
            s@ == (if v < 0 {
                seq!['-']
            } else {
                Seq::<char>::empty()
            }) + Seq::new(padded as nat, |i: int| '0'),
        decreases pad_n - padded,
    {
        push_char(&mut s, '0');
        proof {
            assert(s@ =~= (if v < 0 {
                seq!['-']
            } else {
                Seq::<char>::empty()
            }) + Seq::new((padded + 1) as nat, |i: int| '0'));
        }
        padded = padded + 1;
    }
    s.append(body.as_str());
    proof {
        assert(body@ == dec_str(if v < 0 {
            -(v as int)
        } else {
            v as int
        }));
        assert(s@ =~= int_str_pad3(v as int));
    }
    s
}

// ---------------------------------------------------------------------
// Whitespace trimming
// ---------------------------------------------------------------------

/// The whitespace characters the trimmer recognizes (the common ASCII
/// ones; subprocess output only ever carries these).
pub open spec fn is_space(c: char) -> bool {
    c == ' ' || c == '\n' || c == '\t' || c == '\r'
}

pub open spec fn ltrim(s: Seq<char>) -> Seq<char>
    decreases s.len(),
{
    if s.len() > 0 && is_space(s[0]) {
        ltrim(s.drop_first())
    } else {
        s
    }
}

pub open spec fn rtrim(s: Seq<char>) -> Seq<char>
    decreases s.len(),
{
    if s.len() > 0 && is_space(s.last()) {
        rtrim(s.drop_last())
    } else {
        s
    }
}

pub open spec fn trim(s: Seq<char>) -> Seq<char> {
    rtrim(ltrim(s))
}

proof fn lemma_ltrim_skip(s: Seq<char>, a: int)
    requires
        0 <= a <= s.len(),
        forall|i: int| 0 <= i < a ==> is_space(s[i]),
    ensures
        ltrim(s) == ltrim(s.subrange(a, s.len() as int)),
    decreases a,
{
    if a > 0 {
        assert(is_space(s[0]));
        assert(ltrim(s) == ltrim(s.drop_first()));
        let t = s.drop_first();
        assert(forall|i: int| 0 <= i < a - 1 ==> is_space(t[i]));
        lemma_ltrim_skip(t, a - 1);
        assert(t.subrange(a - 1, t.len() as int) =~= s.subrange(a, s.len() as int));
    } else {
        assert(s.subrange(0, s.len() as int) =~= s);
    }
}

proof fn lemma_rtrim_skip(s: Seq<char>, b: int)
    requires
        0 <= b <= s.len(),
        forall|i: int| b <= i < s.len() ==> is_space(s[i]),
    ensures
        rtrim(s) == rtrim(s.subrange(0, b)),
    decreases s.len() - b,
{
    if b < s.len() {
        assert(is_space(s.last()));
        assert(rtrim(s) == rtrim(s.drop_last()));
        let t = s.drop_last();
        assert(forall|i: int| b <= i < t.len() ==> is_space(t[i]));
        lemma_rtrim_skip(t, b);
        assert(t.subrange(0, b) =~= s.subrange(0, b));
    } else {
        assert(s.subrange(0, s.len() as int) =~= s);
    }
}

fn is_space_exec(c: char) -> (r: bool)
    ensures
        r == is_space(c),
{
    c == ' ' || c == '\n' || c == '\t' || c == '\r'
}

/// The slice of `s` with leading and trailing whitespace removed.
pub fn trim_str<'a>(s: &'a str) -> (r: &'a str)
    ensures
        r@ == trim(s@),
{
    let n = s.unicode_len();
    let mut a: usize = 0;
    while a < n
        invariant
            a <= n,
            n == s@.len(),
            forall|i: int| 0 <= i < a ==> is_space(s@[i]),
        ensures
            a <= n,
            forall|i: int| 0 <= i < a ==> is_space(s@[i]),
            a < n ==> !is_space(s@[a as int]),
        decreases n - a,
    {
        let c = s.get_char(a);
        if !is_space_exec(c) {
            break;
        }
        a = a + 1;
    }
    let mut b: usize = n;
    while b > a
        invariant
            a <= b <= n,
            n == s@.len(),
            forall|i: int| b <= i < n ==> is_space(s@[i]),
        ensures
            a <= b <= n,
            forall|i: int| b <= i < n ==> is_space(s@[i]),
            b > a ==> !is_space(s@[b - 1]),
        decreases b,
    {
        let c = s.get_char(b - 1);
        if !is_space_exec(c) {
            break;
        }
        b = b - 1;
    }
    let r = s.substring_char(a, b);
    proof {
        lemma_ltrim_skip(s@, a as int);
        let u = s@.subrange(a as int, n as int);
        if a < b {
            // u starts and ends with non-space, so ltrim and rtrim stop
            assert(!is_space(u[0]));
            assert(ltrim(u) == u);
            assert(forall|i: int| b - a <= i < u.len() ==> is_space(u[i]));
            lemma_rtrim_skip(u, b - a);
            assert(u.subrange(0, b - a) =~= s@.subrange(a as int, b as int));
            let w = u.subrange(0, b - a);
            assert(!is_space(w.last()));
            assert(rtrim(w) == w);
        } else {
            // everything was whitespace
            if u.len() > 0 {
                assert(is_space(u[0]));
            }
            assert(forall|i: int| 0 <= i < u.len() ==> is_space(u[i]));
            lemma_ltrim_all_spaces(u);
            assert(s@.subrange(a as int, b as int) =~= Seq::<char>::empty());
        }
    }
    r
}

proof fn lemma_ltrim_all_spaces(s: Seq<char>)
    requires
        forall|i: int| 0 <= i < s.len() ==> is_space(s[i]),
    ensures
        ltrim(s) =~= Seq::<char>::empty(),
        rtrim(ltrim(s)) =~= Seq::<char>::empty(),
    decreases s.len(),
{
    if s.len() > 0 {
        let t = s.drop_first();
        assert(forall|i: int| 0 <= i < t.len() ==> is_space(t[i]));
        lemma_ltrim_all_spaces(t);
    }
}

} // verus!
