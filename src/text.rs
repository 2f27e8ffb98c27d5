//! Text produced by the stopwatch: decimal numbers and clock readings.
use vstd::prelude::*;
use vstd::string::StringExecFns;

verus! {

/// Relies on `String::push`: the character is appended at the end.
pub assume_specification[ String::push ](s: &mut String, ch: char)
    ensures
        final(s)@ == old(s)@.push(ch),
;

/// The ASCII digit for `d`, which is below ten.
pub open spec fn digit_char(d: nat) -> char {
    ((d + 48) as u8) as char
}

/// The decimal notation of `n`, without leading zeros.
pub open spec fn decimal(n: nat) -> Seq<char>
    decreases n,
{
    if n < 10 {
        seq![digit_char(n)]
    } else {
        decimal(n / 10).push(digit_char(n % 10))
    }
}

fn digit(d: u128) -> (c: char)
    requires
        d < 10,
    ensures
        c == digit_char(d as nat),
{
    ((d as u8) + 48) as char
}

/// Appends the decimal notation of `n` to `out`.
pub fn push_decimal(out: &mut String, n: u128)
    ensures
        final(out)@ == old(out)@ + decimal(n as nat),
    decreases n,
{
    if n >= 10 {
        push_decimal(out, n / 10);
    }
    out.push(digit(n % 10));
}

/// `n` in at least two digits, with a leading zero below ten.
pub open spec fn two_digits(n: nat) -> Seq<char> {
    if n < 10 {
        seq!['0'] + decimal(n)
    } else {
        decimal(n)
    }
}

pub const NANOS_PER_SEC: u64 = 1_000_000_000;

pub const NANOS_PER_DECI: u64 = 100_000_000;

/// A span of `nanos` nanoseconds as `HH:MM:SS.d`: hours, minutes and seconds
/// in two digits each (hours in more when needed), then tenths of a second,
/// truncated.
pub open spec fn clock_text(nanos: nat) -> Seq<char> {
    let secs = nanos / (NANOS_PER_SEC as nat);
    two_digits(secs / 3600) + seq![':'] + two_digits(secs % 3600 / 60) + seq![':']
        + two_digits(secs % 60) + seq!['.'] + decimal(nanos % (NANOS_PER_SEC as nat) / (
    NANOS_PER_DECI as nat))
}

fn push_two_digits(out: &mut String, n: u128)
    ensures
        final(out)@ == old(out)@ + two_digits(n as nat),
{
    if n < 10 {
        out.push('0');
    }
    push_decimal(out, n);
}

/// Renders a span of `nanos` nanoseconds as `HH:MM:SS.d`.
pub fn format_clock(nanos: u64) -> (r: String)
    ensures
        r@ == clock_text(nanos as nat),
{
    let secs = nanos / NANOS_PER_SEC;
    let mut out = String::new();
    push_two_digits(&mut out, (secs / 3600) as u128);
    out.push(':');
    push_two_digits(&mut out, (secs % 3600 / 60) as u128);
    out.push(':');
    push_two_digits(&mut out, (secs % 60) as u128);
    out.push('.');
    push_decimal(&mut out, (nanos % NANOS_PER_SEC / NANOS_PER_DECI) as u128);
    proof {
        assert(out@ =~= clock_text(nanos as nat));
    }
    out
}

/// The characters of `s`, in order.
pub fn chars_of(s: &str) -> (r: Vec<char>)
    ensures
        r@ == s@,
{
    let mut r: Vec<char> = Vec::new();
    for c in it: s.chars()
        invariant
            r@ == it.seq().take(it.index() as int),
            it.seq() == s@,
    {
        r.push(c);
    }
    r
}

/// `t` with each `%i` replaced by the decimal notation of `i` and each `%c`
/// by that of `c`, scanning from the left.
pub open spec fn expand_placeholders(t: Seq<char>, i: nat, c: nat) -> Seq<char>
    decreases t.len(),
{
    if t.len() == 0 {
        t
    } else if t.len() >= 2 && t[0] == '%' && t[1] == 'i' {
        decimal(i) + expand_placeholders(t.skip(2), i, c)
    } else if t.len() >= 2 && t[0] == '%' && t[1] == 'c' {
        decimal(c) + expand_placeholders(t.skip(2), i, c)
    } else {
        seq![t[0]] + expand_placeholders(t.skip(1), i, c)
    }
}

/// Substitutes the interval count for `%i` and the cycle count for `%c`.
pub fn expand(template: &str, intervals: u128, cycles: u128) -> (r: String)
    ensures
        r@ == expand_placeholders(template@, intervals as nat, cycles as nat),
{
    let t = chars_of(template);
    let mut out = String::new();
    let mut k: usize = 0;
    assert(t@.skip(0) =~= t@);
    assert(out@ + expand_placeholders(t@, intervals as nat, cycles as nat) =~= expand_placeholders(
        t@,
        intervals as nat,
        cycles as nat,
    ));
    while k < t.len()
        invariant
            k <= t@.len(),
            t@ == template@,
            out@ + expand_placeholders(t@.skip(k as int), intervals as nat, cycles as nat)
                == expand_placeholders(t@, intervals as nat, cycles as nat),
        decreases t.len() - k,
    {
        let ghost rest = t@.skip(k as int);
        if t[k] == '%' && k + 1 < t.len() && t[k + 1] == 'i' {
            assert(rest.skip(2) =~= t@.skip(k + 2));
            push_decimal(&mut out, intervals);
            k = k + 2;
        } else if t[k] == '%' && k + 1 < t.len() && t[k + 1] == 'c' {
            assert(rest.skip(2) =~= t@.skip(k + 2));
            push_decimal(&mut out, cycles);
            k = k + 2;
        } else {
            assert(rest.skip(1) =~= t@.skip(k + 1));
            out.push(t[k]);
            k = k + 1;
        }
        assert(out@ + expand_placeholders(t@.skip(k as int), intervals as nat, cycles as nat)
            =~= expand_placeholders(t@, intervals as nat, cycles as nat));
    }
    assert(t@.skip(k as int) =~= Seq::<char>::empty());
    assert(out@ =~= out@ + expand_placeholders(t@.skip(k as int), intervals as nat, cycles as nat));
    out
}

/// Whether `c` has the Unicode White_Space property.
pub open spec fn white_space(c: char) -> bool {
    let u = c as u32;
    ||| 0x9 <= u <= 0xD
    ||| u == 0x20
    ||| u == 0x85
    ||| u == 0xA0
    ||| u == 0x1680
    ||| 0x2000 <= u <= 0x200A
    ||| u == 0x2028
    ||| u == 0x2029
    ||| u == 0x202F
    ||| u == 0x205F
    ||| u == 0x3000
}

/// Relies on `char::is_whitespace`: true exactly of the characters with the
/// Unicode White_Space property.
pub assume_specification[ char::is_whitespace ](c: char) -> (r: bool)
    ensures
        r == white_space(c),
;

/// The words of `s` after the partial word `cur`: maximal runs of characters
/// that are not white space.
pub open spec fn words_after(s: Seq<char>, cur: Seq<char>) -> Seq<Seq<char>>
    decreases s.len(),
{
    if s.len() == 0 {
        if cur.len() == 0 {
            seq![]
        } else {
            seq![cur]
        }
    } else if white_space(s[0]) {
        (if cur.len() == 0 {
            seq![]
        } else {
            seq![cur]
        }) + words_after(s.skip(1), seq![])
    } else {
        words_after(s.skip(1), cur.push(s[0]))
    }
}

/// The words of `s`, as `str::split_whitespace` yields them.
pub open spec fn words(s: Seq<char>) -> Seq<Seq<char>> {
    words_after(s, seq![])
}

/// Splits `s` into its words.
pub fn split_words(s: &str) -> (r: Vec<String>)
    ensures
        r.deep_view() == words(s@),
{
    let t = chars_of(s);
    let mut out: Vec<String> = Vec::new();
    let mut cur = String::new();
    let mut k: usize = 0;
    assert(t@.skip(0) =~= t@);
    assert(out.deep_view() + words(s@) =~= words(s@));
    while k < t.len()
        invariant
            k <= t@.len(),
            t@ == s@,
            out.deep_view() + words_after(t@.skip(k as int), cur@) == words(s@),
        decreases t.len() - k,
    {
        let ghost rest = t@.skip(k as int);
        assert(rest.skip(1) =~= t@.skip(k + 1));
        let ghost before = out.deep_view();
        let ghost pending = cur@;
        assert(rest[0] == t@[k as int]);
        if t[k].is_whitespace() {
            if !cur.as_str().is_empty() {
                let word = cur;
                cur = String::new();
                out.push(word);
                assert(out.deep_view() =~= before + seq![pending]);
                assert(words_after(rest, pending) == seq![pending] + words_after(
                    rest.skip(1),
                    seq![],
                ));
            } else {
                assert(words_after(rest, pending) =~= words_after(rest.skip(1), seq![]));
            }
            assert(cur@ =~= Seq::<char>::empty());
            assert(out.deep_view() + words_after(rest.skip(1), cur@) =~= before + words_after(
                rest,
                pending,
            ));
        } else {
            cur.push(t[k]);
            assert(words_after(rest, pending) == words_after(rest.skip(1), cur@));
        }
        k = k + 1;
    }
    assert(t@.skip(k as int) =~= Seq::<char>::empty());
    if !cur.as_str().is_empty() {
        let ghost before = out.deep_view();
        let ghost last = cur@;
        out.push(cur);
        assert(out.deep_view() =~= before + words_after(t@.skip(k as int), last));
    }
    out
}

/// The parts joined with one space between each two.
pub open spec fn joined(parts: Seq<Seq<char>>) -> Seq<char>
    decreases parts.len(),
{
    if parts.len() == 0 {
        seq![]
    } else if parts.len() == 1 {
        parts[0]
    } else {
        joined(parts.drop_last()) + seq![' '] + parts.last()
    }
}

/// Appends `part` to `out`, which holds the parts before it joined.
pub(crate) fn push_part(out: &mut String, part: &str, parts: Ghost<Seq<Seq<char>>>)
    requires
        old(out)@ == joined(parts@),
        (old(out)@.len() == 0) == (parts@.len() == 0),
    ensures
        final(out)@ == joined(parts@.push(part@)),
{
    assert(parts@.push(part@).drop_last() =~= parts@);
    if !out.as_str().is_empty() {
        out.push(' ');
    }
    out.append(part);
}

} // verus!
