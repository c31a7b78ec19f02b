//! Durations typed on the command line: `1h`, `30m`, `1h30m`, `90s`, or a bare
//! number of minutes.

use vstd::prelude::*;
use crate::text::{chars_of, decimal, digit_char};

verus! {

/// Whether `c` has the Unicode `White_Space` property, as `char::is_whitespace`
/// tells: tab to carriage return, space, next line, no-break space, ogham space
/// mark, the spaces from en quad to hair space, line and paragraph separators,
/// narrow no-break space, medium mathematical space, ideographic space.
pub open spec fn is_white_space(c: char) -> bool {
    let u: u32 = c as u32;
    ||| 0x09 <= u <= 0x0D
    ||| u == 0x20
    ||| u == 0x85
    ||| u == 0xA0
    ||| u == 0x1680
    ||| 0x2000 <= u <= 0x200A
    ||| u == 0x2028
    ||| u == 0x2029
    ||| u == 0x202F
    ||| u == 0x205F
    ||| u == 0x3000
}

/// `s` without its leading white space.
pub open spec fn trim_start_chars(s: Seq<char>) -> Seq<char>
    decreases s.len(),
{
    if s.len() > 0 && is_white_space(s[0]) {
        trim_start_chars(s.drop_first())
    } else {
        s
    }
}

/// `s` without its trailing white space.
pub open spec fn trim_end_chars(s: Seq<char>) -> Seq<char>
    decreases s.len(),
{
    if s.len() > 0 && is_white_space(s.last()) {
        trim_end_chars(s.drop_last())
    } else {
        s
    }
}

/// `s` without leading and trailing white space.
pub open spec fn trimmed(s: Seq<char>) -> Seq<char> {
    trim_end_chars(trim_start_chars(s))
}

fn is_white_space_char(c: char) -> (r: bool)
    ensures
        r == is_white_space(c),
{
    let u: u32 = c as u32;
    (0x09 <= u && u <= 0x0D) || u == 0x20 || u == 0x85 || u == 0xA0 || u == 0x1680 || (0x2000
        <= u && u <= 0x200A) || u == 0x2028 || u == 0x2029 || u == 0x202F || u == 0x205F || u
        == 0x3000
}

/// The characters of `v` without leading and trailing white space, as
/// `str::trim` leaves them.
fn trim_chars(v: &Vec<char>) -> (r: Vec<char>)
    ensures
        r@ == trimmed(v@),
{
    let n: usize = v.len();
    let mut lo: usize = 0;
    assert(v@.subrange(0, n as int) =~= v@);
    while lo < n && is_white_space_char(v[lo])
        invariant
            lo <= n == v.len(),
            trim_start_chars(v@) == trim_start_chars(v@.subrange(lo as int, n as int)),
        decreases n - lo,
    {
        let ghost sub = v@.subrange(lo as int, n as int);
        assert(sub[0] == v@[lo as int]);
        assert(sub.drop_first() =~= v@.subrange(lo + 1, n as int));
        lo = lo + 1;
    }
    let ghost front = v@.subrange(lo as int, n as int);
    if lo < n {
        assert(front[0] == v@[lo as int]);
    }
    assert(trim_start_chars(v@) == front);
    let mut hi: usize = n;
    assert(v@.subrange(lo as int, hi as int) =~= front);
    while hi > lo && is_white_space_char(v[hi - 1])
        invariant
            lo <= hi <= n == v.len(),
            front == v@.subrange(lo as int, n as int),
            trim_end_chars(front) == trim_end_chars(v@.subrange(lo as int, hi as int)),
        decreases hi - lo,
    {
        let ghost sub = v@.subrange(lo as int, hi as int);
        assert(sub.last() == v@[hi - 1]);
        assert(sub.drop_last() =~= v@.subrange(lo as int, hi - 1));
        hi = hi - 1;
    }
    let ghost kept = v@.subrange(lo as int, hi as int);
    if hi > lo {
        assert(kept.last() == v@[hi - 1]);
    }
    assert(trim_end_chars(front) == kept);
    let mut r: Vec<char> = Vec::new();
    let mut k: usize = lo;
    while k < hi
        invariant
            lo <= k <= hi <= n == v.len(),
            r@ == v@.subrange(lo as int, k as int),
        decreases hi - k,
    {
        r.push(v[k]);
        assert(v@.subrange(lo as int, k + 1) =~= v@.subrange(lo as int, k as int).push(v@[k as int]));
        k = k + 1;
    }
    r
}

/// An ASCII decimal digit.
pub open spec fn is_digit(c: char) -> bool {
    '0' <= c && c <= '9'
}

/// Every character of `s` is an ASCII decimal digit.
pub open spec fn all_digits(s: Seq<char>) -> bool {
    forall|i: int| 0 <= i < s.len() ==> is_digit(#[trigger] s[i])
}

/// The value of a string of decimal digits (zero for the empty string).
pub open spec fn digits_value(s: Seq<char>) -> nat
    decreases s.len(),
{
    if s.len() == 0 {
        0
    } else {
        digits_value(s.drop_last()) * 10 + ((s.last() as nat) - 48) as nat
    }
}

/// What `str::parse::<u64>` gives for `s`: an optional `+` followed by at least
/// one digit, whose value fits in a `u64`.
pub open spec fn u64_text(s: Seq<char>) -> Option<nat> {
    let body = if s.len() > 0 && s[0] == '+' {
        s.drop_first()
    } else {
        s
    };
    if body.len() > 0 && all_digits(body) && digits_value(body) <= u64::MAX {
        Some(digits_value(body))
    } else {
        None
    }
}

/// Seconds in one unit: `h`, `m` or `s`, in either case.
pub open spec fn unit_secs(c: char) -> Option<nat> {
    if c == 'h' || c == 'H' {
        Some(3600)
    } else if c == 'm' || c == 'M' {
        Some(60)
    } else if c == 's' || c == 'S' {
        Some(1)
    } else {
        None
    }
}

/// Where a left-to-right reading of `<number><unit>` groups stands.
pub enum Scan {
    /// `total` seconds so far, the digits `pending` since the last unit, and
    /// whether a unit was seen.
    Reading { total: nat, pending: Seq<char>, found_unit: bool },
    /// The text is not a duration.
    Rejected,
    /// The total went past `u64::MAX`.
    Overflowed,
}

/// One character more of the reading.
pub open spec fn scan_step(st: Scan, c: char) -> Scan {
    match st {
        Scan::Reading { total, pending, found_unit } => if is_digit(c) {
            Scan::Reading { total, pending: pending.push(c), found_unit }
        } else if pending.len() == 0 || digits_value(pending) > u64::MAX {
            Scan::Rejected
        } else {
            match unit_secs(c) {
                None => Scan::Rejected,
                Some(k) => if digits_value(pending) * k > u64::MAX || total + digits_value(pending)
                    * k > u64::MAX {
                    Scan::Overflowed
                } else {
                    Scan::Reading {
                        total: total + digits_value(pending) * k,
                        pending: Seq::empty(),
                        found_unit: true,
                    }
                },
            }
        },
        other => other,
    }
}

/// The reading of all of `s`.
pub open spec fn scan(s: Seq<char>) -> Scan
    decreases s.len(),
{
    if s.len() == 0 {
        Scan::Reading { total: 0, pending: Seq::empty(), found_unit: false }
    } else {
        scan_step(scan(s.drop_last()), s.last())
    }
}

/// The outcome of reading a duration.
#[derive(Clone, Copy, Debug, PartialEq, Eq, Structural)]
pub enum DurationParse {
    /// A duration of this many seconds.
    Seconds(u64),
    /// Not a duration.
    Invalid,
    /// A duration too long for a `u64` count of seconds.
    Overflow,
}

/// The reading of groups once all characters are read: trailing digits count
/// as seconds when a unit came before them, and a zero total is no duration.
pub open spec fn finish_scan(st: Scan) -> DurationParse {
    match st {
        Scan::Rejected => DurationParse::Invalid,
        Scan::Overflowed => DurationParse::Overflow,
        Scan::Reading { total, pending, found_unit } => if pending.len() > 0 {
            if !found_unit || digits_value(pending) > u64::MAX {
                DurationParse::Invalid
            } else if total + digits_value(pending) > u64::MAX {
                DurationParse::Overflow
            } else if total + digits_value(pending) == 0 {
                DurationParse::Invalid
            } else {
                DurationParse::Seconds((total + digits_value(pending)) as u64)
            }
        } else if total == 0 {
            DurationParse::Invalid
        } else {
            DurationParse::Seconds(total as u64)
        },
    }
}

/// The duration that `input` denotes, once trimmed: a bare number counts minutes,
/// else `<number><unit>` groups with units `h`, `m`, `s` are added up.
pub open spec fn duration_parse(input: Seq<char>) -> DurationParse {
    let t = trimmed(input);
    if t.len() == 0 {
        DurationParse::Invalid
    } else {
        match u64_text(t) {
            Some(n) => if n * 60 > u64::MAX {
                DurationParse::Overflow
            } else {
                DurationParse::Seconds((n * 60) as u64)
            },
            None => finish_scan(scan(t)),
        }
    }
}

/// A digit string's value only grows as digits are appended.
proof fn lemma_digits_prefix(s: Seq<char>, k: int)
    requires
        0 <= k <= s.len(),
    ensures
        digits_value(s.take(k)) <= digits_value(s),
    decreases s.len(),
{
    if k < s.len() {
        lemma_digits_prefix(s.drop_last(), k);
        assert(s.drop_last().take(k) =~= s.take(k));
    } else {
        assert(s.take(k) =~= s);
    }
}

/// A rejected or overflowed reading stays so, whatever follows.
proof fn lemma_scan_stops(s: Seq<char>, k: int, m: int)
    requires
        0 <= k <= m <= s.len(),
        !(scan(s.take(k)) is Reading),
    ensures
        scan(s.take(m)) == scan(s.take(k)),
    decreases m - k,
{
    if m > k {
        lemma_scan_stops(s, k, m - 1);
        assert(s.take(m).drop_last() =~= s.take(m - 1));
    }
}

fn is_digit_char(c: char) -> (r: bool)
    ensures
        r == is_digit(c),
{
    c >= '0' && c <= '9'
}

fn unit_of(c: char) -> (r: Option<u64>)
    ensures
        match unit_secs(c) {
            Some(k) => r == Some(k as u64),
            None => r is None,
        },
{
    if c == 'h' || c == 'H' {
        Some(3600)
    } else if c == 'm' || c == 'M' {
        Some(60)
    } else if c == 's' || c == 'S' {
        Some(1)
    } else {
        None
    }
}

/// The value of the digits `v[lo..hi]`, when there is at least one and it fits.
fn parse_digits(v: &Vec<char>, lo: usize, hi: usize) -> (r: Option<u64>)
    requires
        lo <= hi <= v.len(),
        all_digits(v@.subrange(lo as int, hi as int)),
    ensures
        r == (if hi > lo && digits_value(v@.subrange(lo as int, hi as int)) <= u64::MAX {
            Some(digits_value(v@.subrange(lo as int, hi as int)) as u64)
        } else {
            None::<u64>
        }),
{
    if hi == lo {
        return None;
    }
    let ghost whole = v@.subrange(lo as int, hi as int);
    let mut acc: u64 = 0;
    let mut i: usize = lo;
    assert(v@.subrange(lo as int, lo as int) =~= Seq::<char>::empty());
    while i < hi
        invariant
            lo <= i <= hi <= v.len(),
            whole == v@.subrange(lo as int, hi as int),
            all_digits(whole),
            acc == digits_value(v@.subrange(lo as int, i as int)),
        decreases hi - i,
    {
        let c = v[i];
        assert(is_digit(whole[i - lo]));
        assert(whole[i - lo] == c);
        let d: u64 = (c as u32 - 48) as u64;
        let ghost next = v@.subrange(lo as int, i + 1);
        assert(next.drop_last() =~= v@.subrange(lo as int, i as int));
        assert(next.last() == c);
        assert(digits_value(next) == acc * 10 + d);
        assert(whole.take(i + 1 - lo) =~= next);
        match acc.checked_mul(10) {
            None => {
                proof {
                    lemma_digits_prefix(whole, i + 1 - lo);
                }
                return None;
            },
            Some(a) => match a.checked_add(d) {
                None => {
                    proof {
                        lemma_digits_prefix(whole, i + 1 - lo);
                    }
                    return None;
                },
                Some(b) => {
                    acc = b;
                },
            },
        }
        i = i + 1;
    }
    Some(acc)
}

/// `str::parse::<u64>` on the characters `v`.
fn whole_number(v: &Vec<char>) -> (r: Option<u64>)
    ensures
        match u64_text(v@) {
            Some(x) => r == Some(x as u64),
            None => r is None,
        },
{
    let n: usize = v.len();
    let start: usize = if n > 0 && v[0] == '+' {
        1
    } else {
        0
    };
    let ghost body = if v@.len() > 0 && v@[0] == '+' {
        v@.drop_first()
    } else {
        v@
    };
    assert(body =~= v@.subrange(start as int, n as int));
    let mut j: usize = start;
    while j < n
        invariant
            start <= j <= n == v.len(),
            body == v@.subrange(start as int, n as int),
            u64_text(v@) == (if body.len() > 0 && all_digits(body) && digits_value(body)
                <= u64::MAX {
                Some(digits_value(body))
            } else {
                None
            }),
            all_digits(v@.subrange(start as int, j as int)),
        decreases n - j,
    {
        if !is_digit_char(v[j]) {
            assert(body[j - start] == v@[j as int]);
            assert(!is_digit(body[j - start]));
            assert(!all_digits(body));
            return None;
        }
        assert(v@.subrange(start as int, j + 1) =~= v@.subrange(start as int, j as int).push(
            v@[j as int],
        ));
        j = j + 1;
    }
    parse_digits(v, start, n)
}

/// Reads a duration and tells, besides its length, whether it is no duration
/// or one too long to count.
pub fn parse_duration_checked(input: &str) -> (r: DurationParse)
    ensures
        r == duration_parse(input@),
{
    let raw = chars_of(input);
    let v = trim_chars(&raw);
    let n: usize = v.len();
    if n == 0 {
        return DurationParse::Invalid;
    }
    match whole_number(&v) {
        Some(x) => {
            return match x.checked_mul(60) {
                Some(secs) => DurationParse::Seconds(secs),
                None => DurationParse::Overflow,
            };
        },
        None => {},
    }
    let ghost s = v@;
    let mut total: u64 = 0;
    let mut pstart: usize = 0;
    let mut found: bool = false;
    let mut i: usize = 0;
    assert(s.take(0) =~= Seq::<char>::empty());
    assert(s.subrange(0, 0) =~= Seq::<char>::empty());
    while i < n
        invariant
            pstart <= i <= n == v.len(),
            s == v@,
            s == trimmed(input@),
            s.len() > 0,
            u64_text(s) is None,
            scan(s.take(i as int)) == (Scan::Reading {
                total: total as nat,
                pending: s.subrange(pstart as int, i as int),
                found_unit: found,
            }),
            all_digits(s.subrange(pstart as int, i as int)),
        decreases n - i,
    {
        let c = v[i];
        assert(s.take(i + 1).drop_last() =~= s.take(i as int));
        assert(s.take(i + 1).last() == c);
        if is_digit_char(c) {
            assert(s.subrange(pstart as int, i + 1) =~= s.subrange(pstart as int, i as int).push(
                c,
            ));
        } else {
            match parse_digits(&v, pstart, i) {
                None => {
                    proof {
                        lemma_scan_stops(s, i + 1, n as int);
                        assert(s.take(n as int) =~= s);
                    }
                    return DurationParse::Invalid;
                },
                Some(x) => match unit_of(c) {
                    None => {
                        proof {
                            lemma_scan_stops(s, i + 1, n as int);
                            assert(s.take(n as int) =~= s);
                        }
                        return DurationParse::Invalid;
                    },
                    Some(k) => match x.checked_mul(k) {
                        None => {
                            proof {
                                lemma_scan_stops(s, i + 1, n as int);
                                assert(s.take(n as int) =~= s);
                            }
                            return DurationParse::Overflow;
                        },
                        Some(p) => match total.checked_add(p) {
                            None => {
                                proof {
                                    lemma_scan_stops(s, i + 1, n as int);
                                    assert(s.take(n as int) =~= s);
                                }
                                return DurationParse::Overflow;
                            },
                            Some(t2) => {
                                total = t2;
                                pstart = i + 1;
                                found = true;
                                assert(s.subrange(pstart as int, i + 1) =~= Seq::<char>::empty());
                            },
                        },
                    },
                },
            }
        }
        i = i + 1;
    }
    assert(s.take(n as int) =~= s);
    if pstart < n {
        if !found {
            return DurationParse::Invalid;
        }
        match parse_digits(&v, pstart, n) {
            None => DurationParse::Invalid,
            Some(x) => match total.checked_add(x) {
                None => DurationParse::Overflow,
                Some(t2) => if t2 == 0 {
                    DurationParse::Invalid
                } else {
                    DurationParse::Seconds(t2)
                },
            },
        }
    } else if total == 0 {
        DurationParse::Invalid
    } else {
        DurationParse::Seconds(total)
    }
}

/// Reads a duration, leading and trailing white space aside: a bare number
/// counts minutes (`25` is 25 minutes, `0` is zero), else `<number><unit>`
/// groups with units `h`, `m`, `s` in either case are added up (`1h30m`, `90s`),
/// digits after the last unit counting seconds. `None` when the text is no
/// duration, or groups that add up to zero. The text must not denote more
/// seconds than a `u64` holds.
pub fn parse_duration(input: &str) -> (r: Option<u64>)
    requires
        !(duration_parse(input@) is Overflow),
    ensures
        match duration_parse(input@) {
            DurationParse::Seconds(n) => r == Some(n),
            _ => r is None,
        },
{
    match parse_duration_checked(input) {
        DurationParse::Seconds(n) => Some(n),
        _ => None,
    }
}


/// Text whose first and last characters are not white space is left whole by trimming.
pub proof fn lemma_trim_keeps(s: Seq<char>)
    requires
        s.len() > 0,
        !is_white_space(s[0]),
        !is_white_space(s.last()),
    ensures
        trimmed(s) == s,
{
}

/// Reading more digits only lengthens the pending number.
pub proof fn lemma_scan_digits(p: Seq<char>, d: Seq<char>)
    requires
        all_digits(d),
        scan(p) is Reading,
    ensures
        scan(p + d) == (Scan::Reading {
            total: scan(p)->total,
            pending: scan(p)->pending + d,
            found_unit: scan(p)->found_unit,
        }),
    decreases d.len(),
{
    if d.len() == 0 {
        assert(p + d =~= p);
        assert(scan(p)->pending + d =~= scan(p)->pending);
    } else {
        let d0 = d.drop_last();
        assert(all_digits(d0)) by {
            assert forall|i: int| 0 <= i < d0.len() implies is_digit(#[trigger] d0[i]) by {
                assert(d0[i] == d[i]);
            }
        }
        lemma_scan_digits(p, d0);
        assert((p + d).drop_last() =~= p + d0);
        assert((p + d).last() == d.last());
        assert(is_digit(d[d.len() - 1]));
        assert(scan(p)->pending + d0.push(d.last()) =~= scan(p)->pending + d);
        assert(d0.push(d.last()) =~= d);
    }
}

proof fn lemma_digits_not_space(d: Seq<char>)
    requires
        d.len() > 0,
        all_digits(d),
    ensures
        !is_white_space(d[0]),
        !is_white_space(d.last()),
        d[0] != '+',
{
    assert(is_digit(d[0]));
    assert(is_digit(d[d.len() - 1]));
}

/// A bare number counts minutes: `25` is 25 minutes.
pub proof fn lemma_bare_number_is_minutes(d: Seq<char>)
    requires
        d.len() > 0,
        all_digits(d),
        digits_value(d) * 60 <= u64::MAX,
    ensures
        duration_parse(d) == DurationParse::Seconds((digits_value(d) * 60) as u64),
{
    lemma_digits_not_space(d);
    lemma_trim_keeps(d);
}

/// A number followed by a unit counts that many hours, minutes or seconds, the
/// unit in either case: `2h`, `45M`, `90s`.
pub proof fn lemma_number_with_unit(d: Seq<char>, u: char)
    requires
        d.len() > 0,
        all_digits(d),
        unit_secs(u) is Some,
        digits_value(d) > 0,
        digits_value(d) * unit_secs(u)->0 <= u64::MAX,
    ensures
        duration_parse(d.push(u)) == DurationParse::Seconds(
            (digits_value(d) * unit_secs(u)->0) as u64,
        ),
{
    let s = d.push(u);
    lemma_digits_not_space(d);
    assert(s[0] == d[0]);
    assert(s.last() == u);
    lemma_trim_keeps(s);
    assert(!is_digit(s[s.len() - 1]));
    assert(!all_digits(s));
    lemma_scan_digits(Seq::empty(), d);
    assert(Seq::<char>::empty() + d =~= d);
    assert(s.drop_last() =~= d);
    assert(Seq::<char>::empty() + d =~= d);
    assert(digits_value(d) <= digits_value(d) * unit_secs(u)->0) by (nonlinear_arith)
        requires
            unit_secs(u)->0 >= 1,
    ;
    assert(digits_value(d) * unit_secs(u)->0 > 0) by (nonlinear_arith)
        requires
            unit_secs(u)->0 >= 1,
            digits_value(d) > 0,
    ;
}

/// Groups add up: `1h30m` is an hour and thirty minutes.
pub proof fn lemma_two_groups_add(d1: Seq<char>, u1: char, d2: Seq<char>, u2: char)
    requires
        d1.len() > 0,
        d2.len() > 0,
        all_digits(d1),
        all_digits(d2),
        unit_secs(u1) is Some,
        unit_secs(u2) is Some,
        digits_value(d1) > 0,
        digits_value(d1) * unit_secs(u1)->0 + digits_value(d2) * unit_secs(u2)->0 <= u64::MAX,
    ensures
        duration_parse(d1.push(u1) + d2.push(u2)) == DurationParse::Seconds(
            (digits_value(d1) * unit_secs(u1)->0 + digits_value(d2) * unit_secs(u2)->0) as u64,
        ),
{
    let k1: nat = unit_secs(u1)->0;
    let k2: nat = unit_secs(u2)->0;
    let v1: nat = digits_value(d1);
    let v2: nat = digits_value(d2);
    let g1 = d1.push(u1);
    let s = g1 + d2.push(u2);
    lemma_digits_not_space(d1);
    assert(s[0] == d1[0]);
    assert(s.last() == u2);
    lemma_trim_keeps(s);
    assert(s[d1.len() as int] == u1);
    assert(!is_digit(s[d1.len() as int]));
    assert(!all_digits(s));
    assert(v1 * k1 >= 0 && v2 * k2 >= 0) by (nonlinear_arith)
        requires
            k1 >= 1,
            k2 >= 1,
            v1 >= 0,
            v2 >= 0,
    ;
    assert(v1 <= v1 * k1 && v2 <= v2 * k2 && v1 * k1 > 0) by (nonlinear_arith)
        requires
            k1 >= 1,
            k2 >= 1,
            v1 > 0,
            v2 >= 0,
    ;
    // first group
    lemma_scan_digits(Seq::empty(), d1);
    assert(Seq::<char>::empty() + d1 =~= d1);
    assert(g1.drop_last() =~= d1);
    assert(scan(g1) == (Scan::Reading { total: v1 * k1, pending: Seq::empty(), found_unit: true }));
    // second group
    lemma_scan_digits(g1, d2);
    assert(Seq::<char>::empty() + d2 =~= d2);
    assert(s.drop_last() =~= g1 + d2);
    assert(scan(s) == (Scan::Reading {
        total: v1 * k1 + v2 * k2,
        pending: Seq::empty(),
        found_unit: true,
    }));
}

/// Leading and trailing white space is ignored: ` 25m ` reads as `25m`.
pub proof fn lemma_spaces_ignored(s: Seq<char>)
    requires
        s.len() > 0,
        !is_white_space(s[0]),
        !is_white_space(s.last()),
    ensures
        duration_parse(seq![' '] + s + seq![' ']) == duration_parse(s),
{
    let w = seq![' '] + s + seq![' '];
    assert(w[0] == ' ');
    assert(is_white_space(' '));
    assert(w.drop_first() =~= s + seq![' ']);
    assert((s + seq![' '])[0] == s[0]);
    assert(trim_start_chars(s + seq![' ']) == s + seq![' ']);
    assert(trim_start_chars(w) == trim_start_chars(w.drop_first()));
    assert(trim_start_chars(w) == s + seq![' ']);
    assert((s + seq![' ']).drop_last() =~= s);
    assert(trim_end_chars(s + seq![' ']) == trim_end_chars(s));
    lemma_trim_keeps(s);
}


/// A number written out in decimal reads back as itself, and as that many
/// minutes when given as a duration.
pub proof fn lemma_decimal_reads_back(n: nat)
    ensures
        decimal(n).len() > 0,
        all_digits(decimal(n)),
        digits_value(decimal(n)) == n,
        n * 60 <= u64::MAX ==> duration_parse(decimal(n)) == DurationParse::Seconds(
            (n * 60) as u64,
        ),
    decreases n,
{
    let c = digit_char(n % 10);
    assert(c as nat == 48 + n % 10);
    if n < 10 {
        let d = decimal(n);
        assert(d.drop_last() =~= Seq::<char>::empty());
        assert(d.last() == c);
        assert(digits_value(d) == digits_value(d.drop_last()) * 10 + ((c as nat) - 48) as nat);
        assert(digits_value(Seq::<char>::empty()) == 0);
    } else {
        lemma_decimal_reads_back(n / 10);
        let p = decimal(n / 10);
        let d = decimal(n);
        assert(d == p.push(c));
        assert(d.drop_last() =~= p);
        assert(d.last() == c);
        assert(digits_value(d) == digits_value(p) * 10 + ((c as nat) - 48) as nat);
        assert(n == (n / 10) * 10 + n % 10);
        assert forall|i: int| 0 <= i < d.len() implies is_digit(#[trigger] d[i]) by {
            if i < p.len() {
                assert(d[i] == p[i]);
            }
        }
    }
    if n * 60 <= u64::MAX {
        lemma_bare_number_is_minutes(decimal(n));
    }
}


/// A duration written only in `<number><unit>` groups, with no white space:
/// it begins with a digit, ends with a unit, and every unit follows a digit.
pub open spec fn unit_form(s: Seq<char>) -> bool {
    &&& s.len() > 0
    &&& is_digit(s[0])
    &&& unit_secs(s.last()) is Some
    &&& forall|i: int|
        0 <= i < s.len() ==> is_digit(#[trigger] s[i]) || (unit_secs(s[i]) is Some && i > 0
            && is_digit(s[i - 1]))
}

/// Reading `b` after text whose reading stands at a unit carries the total on:
/// the totals add, as long as they fit.
proof fn lemma_scan_shift(p: Seq<char>, b: Seq<char>)
    requires
        scan(p) is Reading,
        scan(p)->pending.len() == 0,
        scan(b) is Reading,
        scan(p)->total + scan(b)->total <= u64::MAX,
    ensures
        scan(p + b) == (Scan::Reading {
            total: scan(p)->total + scan(b)->total,
            pending: scan(b)->pending,
            found_unit: scan(p)->found_unit || scan(b)->found_unit,
        }),
    decreases b.len(),
{
    if b.len() == 0 {
        assert(p + b =~= p);
        assert(scan(b)->pending =~= Seq::<char>::empty());
    } else {
        let b0 = b.drop_last();
        let c = b.last();
        assert((p + b).drop_last() =~= p + b0);
        assert((p + b).last() == c);
        // a reading that ends in `Reading` passed only through `Reading`
        if !(scan(b0) is Reading) {
            assert(scan(b) == scan_step(scan(b0), c));
            assert(false);
        }
        assert(scan(b0)->total <= scan(b)->total);
        lemma_scan_shift(p, b0);
    }
}

/// Readings of unit-form text stand at a unit, with the total the text denotes.
proof fn lemma_unit_form_reading(a: Seq<char>)
    requires
        unit_form(a),
    ensures
        trimmed(a) == a,
        u64_text(a) is None,
        scan(a) is Reading ==> scan(a)->pending.len() == 0 && scan(a)->found_unit,
        duration_parse(a) == finish_scan(scan(a)),
{
    assert(is_digit(a[0]));
    let l = a.last();
    assert(unit_secs(l) is Some);
    assert(!is_white_space(a[0]));
    assert(!is_white_space(l));
    lemma_trim_keeps(a);
    assert(a[0] != '+');
    assert(!is_digit(a[a.len() - 1]));
    assert(!all_digits(a));
}

/// Unit-form text written after unit-form text is in unit form.
proof fn lemma_unit_form_concat(a: Seq<char>, b: Seq<char>)
    requires
        unit_form(a),
        unit_form(b),
    ensures
        unit_form(a + b),
{
    let s = a + b;
    assert forall|i: int| 0 <= i < s.len() implies is_digit(#[trigger] s[i]) || (unit_secs(s[i])
        is Some && i > 0 && is_digit(s[i - 1])) by {
        if i < a.len() {
            assert(s[i] == a[i]);
            if i > 0 {
                assert(s[i - 1] == a[i - 1]);
            }
        } else {
            assert(s[i] == b[i - a.len()]);
            if i - a.len() > 0 {
                assert(s[i - 1] == b[i - 1 - a.len()]);
            }
        }
    }
    assert(s[0] == a[0]);
    assert(s.last() == b.last());
}

/// Durations written in `<number><unit>` groups add up when written one after
/// the other: `1h` followed by `30m` reads as their sum.
pub proof fn lemma_unit_forms_concatenate(a: Seq<char>, b: Seq<char>, x: u64, y: u64)
    requires
        unit_form(a),
        unit_form(b),
        duration_parse(a) == DurationParse::Seconds(x),
        duration_parse(b) == DurationParse::Seconds(y),
        x + y <= u64::MAX,
    ensures
        unit_form(a + b),
        duration_parse(a + b) == DurationParse::Seconds((x + y) as u64),
{
    let s = a + b;
    lemma_unit_form_concat(a, b);
    lemma_unit_form_reading(a);
    lemma_unit_form_reading(b);
    lemma_unit_form_reading(s);
    lemma_scan_shift(a, b);
}

/// A group of value zero (`0h`, `00m`, `0s`) adds nothing, and in particular
/// does not make the duration invalid, whether it comes before or after the
/// other groups: `0h30m` reads as `30m`, `30m0s` as `30m`.
pub proof fn lemma_zero_group_adds_nothing(z: Seq<char>, u: char, b: Seq<char>, y: u64)
    requires
        z.len() > 0,
        all_digits(z),
        digits_value(z) == 0,
        unit_secs(u) is Some,
        unit_form(b),
        duration_parse(b) == DurationParse::Seconds(y),
    ensures
        duration_parse(z.push(u) + b) == DurationParse::Seconds(y),
        duration_parse(b + z.push(u)) == DurationParse::Seconds(y),
{
    let g = z.push(u);
    assert forall|i: int| 0 <= i < g.len() implies is_digit(#[trigger] g[i]) || (unit_secs(g[i])
        is Some && i > 0 && is_digit(g[i - 1])) by {
        if i < z.len() {
            assert(g[i] == z[i]);
        } else {
            assert(g[i] == u);
            assert(g[i - 1] == z[i - 1]);
        }
    }
    assert(g[0] == z[0]);
    assert(unit_form(g));
    lemma_scan_digits(Seq::empty(), z);
    assert(Seq::<char>::empty() + z =~= z);
    assert(g.drop_last() =~= z);
    assert(g.last() == u);
    assert(digits_value(z) * unit_secs(u)->0 == 0);
    assert(scan(g) == (Scan::Reading { total: 0, pending: Seq::empty(), found_unit: true }));
    lemma_unit_form_reading(g);
    lemma_unit_form_reading(b);
    lemma_unit_form_concat(g, b);
    lemma_unit_form_concat(b, g);
    lemma_unit_form_reading(g + b);
    lemma_unit_form_reading(b + g);
    lemma_scan_shift(g, b);
    lemma_scan_shift(b, g);
}

/// `0h30m` reads as thirty minutes: a leading zero-hour group leaves the
/// minutes that follow as they are.
pub proof fn lemma_zero_hours_then_minutes(d: Seq<char>)
    requires
        d.len() > 0,
        all_digits(d),
        digits_value(d) > 0,
        digits_value(d) * 60 <= u64::MAX,
    ensures
        duration_parse(seq!['0', 'h'] + d.push('m')) == DurationParse::Seconds(
            (digits_value(d) * 60) as u64,
        ),
{
    let z = seq!['0'];
    assert(z.drop_last() =~= Seq::<char>::empty());
    assert(z.last() == '0');
    assert(('0' as nat) == 48);
    assert(digits_value(Seq::<char>::empty()) == 0);
    assert(digits_value(z) == 0);
    assert(all_digits(z));
    let b = d.push('m');
    assert forall|i: int| 0 <= i < b.len() implies is_digit(#[trigger] b[i]) || (unit_secs(b[i])
        is Some && i > 0 && is_digit(b[i - 1])) by {
        if i < d.len() {
            assert(b[i] == d[i]);
        } else {
            assert(b[i - 1] == d[i - 1]);
        }
    }
    assert(b[0] == d[0]);
    assert(unit_form(b));
    lemma_number_with_unit(d, 'm');
    lemma_zero_group_adds_nothing(z, 'h', b, (digits_value(d) * 60) as u64);
    assert(z.push('h') =~= seq!['0', 'h']);
}

} // verus!
