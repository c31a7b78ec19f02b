//! Text: clock readings, decimal numbers, the characters of a string, paths.

use vstd::prelude::*;
use crate::duration::{digits_value, lemma_decimal_reads_back};

verus! {

broadcast use vstd::string::group_string_axioms;

/// The ASCII character of a decimal digit `d` (`d < 10`).
pub open spec fn digit_char(d: nat) -> char {
    ((48 + d) as u32) as char
}

/// Decimal notation of `n`, without leading zeros (`0` is written `"0"`).
pub open spec fn decimal(n: nat) -> Seq<char>
    decreases n,
{
    if n < 10 {
        seq![digit_char(n)]
    } else {
        decimal(n / 10).push(digit_char(n % 10))
    }
}

/// Two-digit notation of `n < 100`, padded with a leading zero.
pub open spec fn two_digits(n: nat) -> Seq<char> {
    seq![digit_char(n / 10), digit_char(n % 10)]
}

/// `H:MM:SS` when at least an hour, else `MM:SS`.
pub open spec fn clock_text(secs: nat) -> Seq<char> {
    let h: nat = secs / 3600;
    let m: nat = (secs % 3600) / 60;
    let s: nat = secs % 60;
    if h > 0 {
        decimal(h) + seq![':'] + two_digits(m) + seq![':'] + two_digits(s)
    } else {
        two_digits(m) + seq![':'] + two_digits(s)
    }
}

/// Appends one character to a string (`String::push`).
#[verifier::external_body]
pub(crate) fn push_char(s: &mut String, c: char)
    ensures
        final(s)@ == old(s)@.push(c),
{
    s.push(c)
}

fn digit(d: u64) -> (c: char)
    requires
        d < 10,
    ensures
        c == digit_char(d as nat),
{
    let b: u8 = 48u8 + (d as u8);
    b as char
}

/// Appends the decimal notation of `n`.
pub(crate) fn push_decimal(s: &mut String, n: u64)
    ensures
        final(s)@ == old(s)@ + decimal(n as nat),
    decreases n,
{
    if n >= 10 {
        push_decimal(s, n / 10);
    }
    push_char(s, digit(n % 10));
    proof {
        assert(old(s)@ + decimal(n as nat) =~= s@);
    }
}

fn push_two_digits(s: &mut String, n: u64)
    requires
        n < 100,
    ensures
        final(s)@ == old(s)@ + two_digits(n as nat),
{
    push_char(s, digit(n / 10));
    push_char(s, digit(n % 10));
    proof {
        assert(old(s)@ + two_digits(n as nat) =~= s@);
    }
}

/// Formats a number of seconds as a clock: `H:MM:SS` from one hour up, `MM:SS` below.
pub fn format_time(secs: u64) -> (r: String)
    ensures
        r@ == clock_text(secs as nat),
{
    let h: u64 = secs / 3600;
    let m: u64 = (secs % 3600) / 60;
    let s: u64 = secs % 60;
    let mut out = String::new();
    if h > 0 {
        push_decimal(&mut out, h);
        push_char(&mut out, ':');
    }
    push_two_digits(&mut out, m);
    push_char(&mut out, ':');
    push_two_digits(&mut out, s);
    proof {
        assert(out@ =~= clock_text(secs as nat));
    }
    out
}

/// The characters of `s`, in order.
pub(crate) fn chars_of(s: &str) -> (v: Vec<char>)
    ensures
        v@ == s@,
{
    let mut v: Vec<char> = Vec::new();
    for c in it: s.chars()
        invariant
            v@ == it.seq().take(it.index() as int),
    {
        v.push(c);
    }
    v
}


/// `name` appended to the path `base` as `Path::join` does on Unix: an absolute
/// `name` replaces `base`; otherwise a `/` separates them unless `base` is empty
/// or already ends with one.
pub open spec fn joined_path(base: Seq<char>, name: Seq<char>) -> Seq<char> {
    if name.len() > 0 && name[0] == '/' {
        name
    } else if base.len() == 0 || base.last() == '/' {
        base + name
    } else {
        base + seq!['/'] + name
    }
}

/// `name` appended to the path `base` as `Path::join` does on Unix.
pub fn join_path(base: &str, name: &str) -> (r: String)
    ensures
        r@ == joined_path(base@, name@),
{
    let b = chars_of(base);
    let n = chars_of(name);
    if n.len() > 0 && n[0] == '/' {
        return String::from_str(name);
    }
    let mut out = String::from_str(base);
    if b.len() > 0 && b[b.len() - 1] != '/' {
        push_char(&mut out, '/');
    }
    out.append(name);
    proof {
        assert(out@ =~= joined_path(base@, name@));
    }
    out
}


/// Two-digit texts tell their numbers apart.
proof fn lemma_two_digits_injective(a: nat, b: nat)
    requires
        a < 100,
        b < 100,
        two_digits(a) == two_digits(b),
    ensures
        a == b,
{
    assert(two_digits(a)[0] == two_digits(b)[0]);
    assert(two_digits(a)[1] == two_digits(b)[1]);
    assert(digit_char(a / 10) as nat == 48 + a / 10);
    assert(digit_char(b / 10) as nat == 48 + b / 10);
    assert(digit_char(a % 10) as nat == 48 + a % 10);
    assert(digit_char(b % 10) as nat == 48 + b % 10);
}

/// Distinct numbers of seconds never show as the same clock text.
pub proof fn lemma_clock_text_injective(a: nat, b: nat)
    requires
        clock_text(a) == clock_text(b),
    ensures
        a == b,
{
    let ha: nat = a / 3600;
    let ma: nat = (a % 3600) / 60;
    let sa: nat = a % 60;
    let hb: nat = b / 3600;
    let mb: nat = (b % 3600) / 60;
    let sb: nat = b % 60;
    let ta = clock_text(a);
    lemma_decimal_reads_back(ha);
    lemma_decimal_reads_back(hb);
    let da = decimal(ha);
    let db = decimal(hb);
    if ha > 0 && hb > 0 {
        let ra = seq![':'] + two_digits(ma) + seq![':'] + two_digits(sa);
        let rb = seq![':'] + two_digits(mb) + seq![':'] + two_digits(sb);
        assert(ta == da + ra);
        assert(clock_text(b) == db + rb);
        assert(da.len() == db.len());
        assert(da =~= ta.subrange(0, da.len() as int));
        assert(db =~= ta.subrange(0, da.len() as int));
        assert(ra =~= ta.subrange(da.len() as int, ta.len() as int));
        assert(rb =~= ta.subrange(da.len() as int, ta.len() as int));
        assert(two_digits(ma) =~= ra.subrange(1, 3));
        assert(two_digits(mb) =~= rb.subrange(1, 3));
        assert(two_digits(sa) =~= ra.subrange(4, 6));
        assert(two_digits(sb) =~= rb.subrange(4, 6));
        lemma_two_digits_injective(ma, mb);
        lemma_two_digits_injective(sa, sb);
        assert(digits_value(da) == digits_value(db));
    } else if ha == 0 && hb == 0 {
        assert(two_digits(ma) =~= ta.subrange(0, 2));
        assert(two_digits(mb) =~= clock_text(b).subrange(0, 2));
        assert(two_digits(sa) =~= ta.subrange(3, 5));
        assert(two_digits(sb) =~= clock_text(b).subrange(3, 5));
        lemma_two_digits_injective(ma, mb);
        lemma_two_digits_injective(sa, sb);
    } else {
        // one text has an hour field and is longer than five characters
        let tb = clock_text(b);
        if ha > 0 {
            assert(ta == da + (seq![':'] + two_digits(ma) + seq![':'] + two_digits(sa)));
            assert(ta.len() == da.len() + 6);
            assert(tb == two_digits(mb) + seq![':'] + two_digits(sb));
            assert(tb.len() == 5);
        } else {
            assert(tb == db + (seq![':'] + two_digits(mb) + seq![':'] + two_digits(sb)));
            assert(tb.len() == db.len() + 6);
            assert(ta == two_digits(ma) + seq![':'] + two_digits(sa));
            assert(ta.len() == 5);
        }
        assert(ta.len() != tb.len());
    }
    assert(a == ha * 3600 + ma * 60 + sa);
    assert(b == hb * 3600 + mb * 60 + sb);
}

} // verus!
