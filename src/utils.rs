//! Small helpers of the build: source recognition, cross-reference counting
//! and duration text.
use vstd::prelude::*;
use vstd::string::*;
use crate::paths::{extension_of, path_extension};
use crate::text::{has_prefix, occurs_at, str_eq};

verus! {

/// Whether a path names a source document: its extension is `rst`, `md` or `txt`.
pub open spec fn is_source_path(path: Seq<char>) -> bool {
    path_extension(path) matches Some(e) && (e == "rst"@ || e == "md"@ || e == "txt"@)
}

pub fn is_source_file(path: &str) -> (r: bool)
    ensures
        r == is_source_path(path@),
{
    match extension_of(path) {
        Some(e) => str_eq(e.as_str(), "rst") || str_eq(e.as_str(), "md") || str_eq(e.as_str(), "txt"),
        None => false,
    }
}

/// Non-overlapping occurrences of `p` in `s`, scanning from the left.
pub open spec fn count_matches(s: Seq<char>, p: Seq<char>) -> nat
    recommends
        p.len() > 0,
    decreases s.len(),
{
    if s.len() == 0 || p.len() == 0 {
        0
    } else if has_prefix(s, p) {
        1 + count_matches(s.subrange(p.len() as int, s.len() as int), p)
    } else {
        count_matches(s.drop_first(), p)
    }
}

/// Non-overlapping occurrences of a non-empty `p` in `s`.
pub fn count_occurrences(s: &str, p: &str) -> (r: usize)
    requires
        p@.len() > 0,
    ensures
        r == count_matches(s@, p@),
{
    let n = s.unicode_len();
    let m = p.unicode_len();
    let mut i: usize = 0;
    let mut count: usize = 0;
    assert(s@.subrange(0, n as int) =~= s@);
    while i < n
        invariant
            n == s@.len(),
            m == p@.len(),
            m > 0,
            i <= n,
            count <= i,
            count + count_matches(s@.subrange(i as int, n as int), p@) == count_matches(s@, p@),
        decreases n - i,
    {
        let ghost rest = s@.subrange(i as int, n as int);
        if occurs_at(s, n, p, m, i) {
            assert(rest.subrange(m as int, rest.len() as int) =~= s@.subrange(i + m, n as int));
            count = count + 1;
            i = i + m;
        } else {
            assert(rest.drop_first() =~= s@.subrange(i + 1, n as int));
            i = i + 1;
        }
    }
    assert(s@.subrange(n as int, n as int).len() == 0);
    count
}

/// Occurrences in `s` of the markers counted as cross-references.
pub open spec fn marker_total(s: Seq<char>) -> nat {
    count_matches(s, ":doc:`"@)
        + count_matches(s, ":ref:`"@)
        + count_matches(s, ":func:`"@)
        + count_matches(s, ":class:`"@)
        + count_matches(s, ":meth:`"@)
        + count_matches(s, ":attr:`"@)
        + count_matches(s, ":mod:`"@)
        + count_matches(s, ":py:"@)
        + count_matches(s, ".. _"@)
        + count_matches(s, "`~"@)
}

/// Occurrences of the cross-reference markers in `content`, each counted
/// without overlap, summed; capped at the largest `usize`.
pub fn count_cross_references(content: &str) -> (r: usize)
    ensures
        r == (if marker_total(content@) > usize::MAX { usize::MAX as nat } else { marker_total(content@) }),
{
    proof {
        reveal_strlit(":doc:`");
        reveal_strlit(":ref:`");
        reveal_strlit(":func:`");
        reveal_strlit(":class:`");
        reveal_strlit(":meth:`");
        reveal_strlit(":attr:`");
        reveal_strlit(":mod:`");
        reveal_strlit(":py:");
        reveal_strlit(".. _");
        reveal_strlit("`~");
    }
    let mut total: u128 = 0;
    total = total + count_occurrences(content, ":doc:`") as u128;
    total = total + count_occurrences(content, ":ref:`") as u128;
    total = total + count_occurrences(content, ":func:`") as u128;
    total = total + count_occurrences(content, ":class:`") as u128;
    total = total + count_occurrences(content, ":meth:`") as u128;
    total = total + count_occurrences(content, ":attr:`") as u128;
    total = total + count_occurrences(content, ":mod:`") as u128;
    total = total + count_occurrences(content, ":py:") as u128;
    total = total + count_occurrences(content, ".. _") as u128;
    total = total + count_occurrences(content, "`~") as u128;
    if total > usize::MAX as u128 {
        usize::MAX
    } else {
        total as usize
    }
}

/// Relies on `Duration::as_secs`: the whole seconds; nothing more is stated.
pub assume_specification[ core::time::Duration::as_secs ](d: &core::time::Duration) -> u64;

/// Relies on `Duration::subsec_millis`: the whole milliseconds of the
/// fractional second, less than one thousand.
pub assume_specification[ core::time::Duration::subsec_millis ](d: &core::time::Duration) -> (r: u32)
    ensures
        r < 1000,
;

/// The decimal digit `d`.
pub open spec fn digit(d: nat) -> char {
    "0123456789"@[d as int]
}

/// The decimal numeral of `n`.
pub open spec fn decimal(n: nat) -> Seq<char>
    decreases n,
{
    if n < 10 {
        seq![digit(n)]
    } else {
        decimal(n / 10) + seq![digit(n % 10)]
    }
}

/// The numeral of `n`, padded with zeros to at least three digits.
pub open spec fn pad3(n: nat) -> Seq<char> {
    if n < 10 {
        "00"@ + decimal(n)
    } else if n < 100 {
        "0"@ + decimal(n)
    } else {
        decimal(n)
    }
}

/// How a duration is shown: `<secs>.<millis>s` from one second on, else `<millis>ms`.
pub open spec fn duration_text(secs: nat, millis: nat) -> Seq<char> {
    if secs > 0 {
        decimal(secs) + "."@ + pad3(millis) + "s"@
    } else {
        decimal(millis) + "ms"@
    }
}

fn digit_str(d: u64) -> (r: &'static str)
    requires
        d < 10,
    ensures
        r@ == seq![digit(d as nat)],
{
    proof {
        reveal_strlit("0123456789");
        reveal_strlit("0");
        reveal_strlit("1");
        reveal_strlit("2");
        reveal_strlit("3");
        reveal_strlit("4");
        reveal_strlit("5");
        reveal_strlit("6");
        reveal_strlit("7");
        reveal_strlit("8");
        reveal_strlit("9");
    }
    match d {
        0 => "0",
        1 => "1",
        2 => "2",
        3 => "3",
        4 => "4",
        5 => "5",
        6 => "6",
        7 => "7",
        8 => "8",
        _ => "9",
    }
}

/// Appends the decimal numeral of `n` to `out`.
fn push_decimal(out: &mut String, n: u64)
    ensures
        final(out)@ == old(out)@ + decimal(n as nat),
    decreases n,
{
    if n >= 10 {
        push_decimal(out, n / 10);
    }
    out.append(digit_str(n % 10));
    proof {
        if n < 10 {
            assert(n % 10 == n);
        }
    }
}

/// The text of a duration of `secs` seconds and `millis` milliseconds.
pub fn format_duration_parts(secs: u64, millis: u32) -> (r: String)
    ensures
        r@ == duration_text(secs as nat, millis as nat),
{
    let mut out = String::new();
    if secs > 0 {
        push_decimal(&mut out, secs);
        out.append(".");
        if millis < 10 {
            out.append("00");
        } else if millis < 100 {
            out.append("0");
        }
        push_decimal(&mut out, millis as u64);
        out.append("s");
    } else {
        push_decimal(&mut out, millis as u64);
        out.append("ms");
    }
    out
}

/// The text of a duration: `1.234s`, or `56ms` under one second.
pub fn format_duration(duration: core::time::Duration) -> (r: String)
    ensures
        exists|s: u64, m: u32| m < 1000 && r@ == duration_text(s as nat, m as nat),
{
    let secs = duration.as_secs();
    let millis = duration.subsec_millis();
    format_duration_parts(secs, millis)
}

} // verus!
