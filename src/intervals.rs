//! The interval schedule: durations and colours read from comma-separated
//! lists of integers.
use vstd::prelude::*;

use crate::text::{chars_of, decimal, digit_char};

verus! {

/// Largest colour code; codes name the eight basic ANSI colours.
pub const MAX_COLOUR_N: u8 = 7;

/// One of the eight basic ANSI colours.
#[derive(Debug, Clone, Copy, PartialEq, Eq, Structural)]
pub enum Colour {
    Black,
    Red,
    Green,
    Yellow,
    Blue,
    Magenta,
    Cyan,
    White,
}

/// The colour that a code stands for; codes above seven show as white.
pub open spec fn colour_of(code: nat) -> Colour {
    if code == 0 {
        Colour::Black
    } else if code == 1 {
        Colour::Red
    } else if code == 2 {
        Colour::Green
    } else if code == 3 {
        Colour::Yellow
    } else if code == 4 {
        Colour::Blue
    } else if code == 5 {
        Colour::Magenta
    } else if code == 6 {
        Colour::Cyan
    } else {
        Colour::White
    }
}

/// What went wrong with an interval configuration.
#[derive(Debug, Clone, Copy, PartialEq, Eq, Structural)]
pub enum ConfigError {
    /// A duration or colour is not an integer of the expected range.
    ParseFailure,
    /// Colours were given that do not match the durations; they were replaced
    /// by generated ones.
    Mismatch,
}

/// One interval of the schedule: how long it lasts and how it is shown.
#[derive(Debug, Clone, Copy, PartialEq, Eq, Structural)]
pub struct Interval {
    /// The length of the interval in whole seconds.
    pub duration_secs: u32,
    pub colour: Colour,
}

impl Interval {
    pub fn new(duration_s: u32, colour: u8) -> (r: Self)
        ensures
            r.duration_secs == duration_s,
            r.colour == colour_of(colour as nat),
    {
        Self {
            duration_secs: duration_s,
            colour: match colour {
                0 => Colour::Black,
                1 => Colour::Red,
                2 => Colour::Green,
                3 => Colour::Yellow,
                4 => Colour::Blue,
                5 => Colour::Magenta,
                6 => Colour::Cyan,
                _ => Colour::White,
            },
        }
    }
}

/// The pieces of `s` between commas: one more than there are commas.
pub open spec fn comma_fields(s: Seq<char>) -> Seq<Seq<char>>
    decreases s.len(),
{
    if s.len() == 0 {
        seq![seq![]]
    } else {
        let f = comma_fields(s.drop_last());
        if s.last() == ',' {
            f.push(seq![])
        } else {
            f.update(f.len() - 1, f.last().push(s.last()))
        }
    }
}

pub proof fn lemma_comma_fields_nonempty(s: Seq<char>)
    ensures
        comma_fields(s).len() >= 1,
    decreases s.len(),
{
    if s.len() > 0 {
        lemma_comma_fields_nonempty(s.drop_last());
    }
}

pub open spec fn is_digit(c: char) -> bool {
    48 <= (c as u32) <= 57
}

/// The number that a run of decimal digits denotes.
pub open spec fn digits_value(d: Seq<char>) -> nat
    decreases d.len(),
{
    if d.len() == 0 {
        0
    } else {
        digits_value(d.drop_last()) * 10 + ((d.last() as u32) - 48) as nat
    }
}

/// The digits of a field, after an optional leading `+`.
pub open spec fn unsigned_digits(f: Seq<char>) -> Seq<char> {
    if f.len() > 0 && f[0] == '+' {
        f.skip(1)
    } else {
        f
    }
}

/// Whether `f` is an unsigned integer: an optional `+` and then one or more
/// decimal digits, as `u32::from_str` accepts them.
pub open spec fn digit_field(f: Seq<char>) -> bool {
    let d = unsigned_digits(f);
    &&& d.len() > 0
    &&& forall|k: int| 0 <= k < d.len() ==> #[trigger] is_digit(d[k])
}

/// Whether `f` is an unsigned integer no larger than `limit`.
pub open spec fn field_fits(f: Seq<char>, limit: nat) -> bool {
    &&& digit_field(f)
    &&& digits_value(unsigned_digits(f)) <= limit
}

/// Whether every comma-separated field of `s` is an unsigned integer, of any
/// size.
pub open spec fn list_is_integers(s: Seq<char>) -> bool {
    forall|k: int| 0 <= k < comma_fields(s).len() ==> #[trigger] digit_field(comma_fields(s)[k])
}

/// A colour code as held in a byte: codes above 255 are held as 255, which
/// is no valid code either.
pub open spec fn held_code(v: nat) -> nat {
    if v > u8::MAX {
        u8::MAX as nat
    } else {
        v
    }
}

/// Whether every comma-separated field of `s` is an integer up to `limit`.
pub open spec fn list_fits(s: Seq<char>, limit: nat) -> bool {
    forall|k: int| 0 <= k < comma_fields(s).len() ==> #[trigger] field_fits(comma_fields(s)[k], limit)
}

/// The integers of a comma-separated list, in order.
pub open spec fn list_values(s: Seq<char>) -> Seq<nat> {
    comma_fields(s).map_values(|f: Seq<char>| digits_value(unsigned_digits(f)))
}

proof fn lemma_digits_prefix(d: Seq<char>, j: int)
    requires
        0 <= j <= d.len(),
    ensures
        digits_value(d.take(j)) <= digits_value(d),
    decreases d.len(),
{
    if j < d.len() {
        assert(d.drop_last().take(j) =~= d.take(j));
        lemma_digits_prefix(d.drop_last(), j);
    } else {
        assert(d.take(j) =~= d);
    }
}

/// Splits `s` at each comma.
fn split_fields(s: &str) -> (r: Vec<Vec<char>>)
    ensures
        r.deep_view() == comma_fields(s@),
{
    let t = chars_of(s);
    let mut out: Vec<Vec<char>> = Vec::new();
    let mut cur: Vec<char> = Vec::new();
    let mut k: usize = 0;
    assert(t@.take(0) =~= Seq::<char>::empty());
    assert(out.deep_view().push(cur@) =~= comma_fields(t@.take(0)));
    while k < t.len()
        invariant
            k <= t@.len(),
            t@ == s@,
            out.deep_view().push(cur@) == comma_fields(t@.take(k as int)),
        decreases t.len() - k,
    {
        let ghost before = out.deep_view();
        let ghost pending = cur@;
        assert(t@.take(k + 1).drop_last() =~= t@.take(k as int));
        if t[k] == ',' {
            let done = cur;
            assert(done.deep_view() =~= pending);
            cur = Vec::new();
            out.push(done);
            assert(out.deep_view() =~= before.push(pending));
            assert(out.deep_view().push(cur@) =~= before.push(pending).push(seq![]));
        } else {
            cur.push(t[k]);
            assert(out.deep_view().push(cur@) =~= before.push(pending).update(
                before.len() as int,
                pending.push(t@[k as int]),
            ));
        }
        k = k + 1;
    }
    assert(t@.take(k as int) =~= t@);
    let ghost before = out.deep_view();
    assert(cur.deep_view() =~= cur@);
    out.push(cur);
    assert(out.deep_view() =~= before.push(cur@));
    out
}

/// Reads one field as an unsigned integer no larger than `limit`.
fn parse_field(f: &Vec<char>, limit: u32) -> (r: Option<u32>)
    ensures
        r is Some <==> field_fits(f@, limit as nat),
        r matches Some(v) ==> v as nat == digits_value(unsigned_digits(f@)),
{
    let start: usize = if f.len() > 0 && f[0] == '+' {
        1
    } else {
        0
    };
    let ghost d = unsigned_digits(f@);
    assert(d =~= f@.skip(start as int));
    if start >= f.len() {
        return None;
    }
    let mut v: u64 = 0;
    let mut j: usize = start;
    assert(d.take(0) =~= Seq::<char>::empty());
    while j < f.len()
        invariant
            start <= j <= f@.len(),
            d == f@.skip(start as int),
            d == unsigned_digits(f@),
            d.len() > 0,
            v <= limit,
            v as nat == digits_value(d.take(j - start)),
            forall|k: int| 0 <= k < j - start ==> #[trigger] is_digit(d[k]),
        decreases f.len() - j,
    {
        let code = f[j] as u32;
        assert(d[j - start] == f@[j as int]);
        if !(48 <= code && code <= 57) {
            assert(!is_digit(d[j - start]));
            return None;
        }
        assert(d.take(j - start + 1).drop_last() =~= d.take(j - start));
        assert(d.take(j - start + 1).last() == f@[j as int]);
        v = v * 10 + (code - 48) as u64;
        j = j + 1;
        if v > limit as u64 {
            proof {
                lemma_digits_prefix(d, j - start);
            }
            return None;
        }
    }
    assert(d.take(j - start) =~= d);
    Some(v as u32)
}


/// Reads one field as an unsigned integer of any size, held in a byte as
/// `held_code` says.
fn parse_code_field(f: &Vec<char>) -> (r: Option<u8>)
    ensures
        r is Some <==> digit_field(f@),
        r matches Some(v) ==> v as nat == held_code(digits_value(unsigned_digits(f@))),
{
    let start: usize = if f.len() > 0 && f[0] == '+' {
        1
    } else {
        0
    };
    let ghost d = unsigned_digits(f@);
    assert(d =~= f@.skip(start as int));
    if start >= f.len() {
        return None;
    }
    let mut v: u32 = 0;
    let mut j: usize = start;
    assert(d.take(0) =~= Seq::<char>::empty());
    while j < f.len()
        invariant
            start <= j <= f@.len(),
            d == f@.skip(start as int),
            d == unsigned_digits(f@),
            d.len() > 0,
            v as nat == held_code(digits_value(d.take(j - start))),
            forall|k: int| 0 <= k < j - start ==> #[trigger] is_digit(d[k]),
        decreases f.len() - j,
    {
        let code = f[j] as u32;
        assert(d[j - start] == f@[j as int]);
        if !(48 <= code && code <= 57) {
            assert(!is_digit(d[j - start]));
            return None;
        }
        assert(d.take(j - start + 1).drop_last() =~= d.take(j - start));
        assert(d.take(j - start + 1).last() == f@[j as int]);
        v = v * 10 + (code - 48);
        if v > u8::MAX as u32 {
            v = u8::MAX as u32;
        }
        j = j + 1;
    }
    assert(d.take(j - start) =~= d);
    Some(v as u8)
}

/// Codes held in bytes lead to the same colours, and the same verdict on
/// whether they must be replaced, as the codes themselves.
proof fn lemma_held_codes_choose_alike(held: Seq<nat>, codes: Seq<nat>, n: nat)
    requires
        held.len() == codes.len(),
        forall|k: int| 0 <= k < codes.len() ==> #[trigger] held[k] == held_code(codes[k]),
    ensures
        chosen_colours(Some(held), n) == chosen_colours(Some(codes), n),
        colours_replaced(Some(held), n) == colours_replaced(Some(codes), n),
{
    if colours_usable(codes, n) {
        assert(held =~= codes);
    }
    if colours_usable(held, n) {
        assert forall|k: int| 0 <= k < codes.len() implies #[trigger] codes[k] <= MAX_COLOUR_N by {
            assert(held[k] <= MAX_COLOUR_N);
        }
    }
}

/// The colour codes given to `n` intervals when none usable were provided:
/// `1, 2, ..., 7` over and over, never black.
pub open spec fn cycled_colours(n: nat) -> Seq<nat> {
    Seq::new(n, |k: int| (k % 7 + 1) as nat)
}

/// Whether provided colour codes can be used for `n` intervals: one per
/// interval, each a valid code.
pub open spec fn colours_usable(codes: Seq<nat>, n: nat) -> bool {
    &&& codes.len() == n
    &&& codes.len() > 0
    &&& forall|k: int| 0 <= k < codes.len() ==> #[trigger] codes[k] <= MAX_COLOUR_N
}

/// The colour codes used for `n` intervals, given the codes provided, if any.
pub open spec fn chosen_colours(provided: Option<Seq<nat>>, n: nat) -> Seq<nat> {
    match provided {
        Some(codes) => if colours_usable(codes, n) {
            codes
        } else {
            cycled_colours(n)
        },
        None => cycled_colours(n),
    }
}

/// Whether provided colours had to be replaced.
pub open spec fn colours_replaced(provided: Option<Seq<nat>>, n: nat) -> bool {
    provided matches Some(codes) && !colours_usable(codes, n)
}

/// The schedule that the lists of durations and colours describe, given that
/// they parse.
pub open spec fn schedule_of(durations: Seq<char>, colours: Option<Seq<char>>) -> Seq<Interval> {
    let secs = list_values(durations);
    let provided = match colours {
        Some(c) => Some(list_values(c)),
        None => None,
    };
    let codes = chosen_colours(provided, secs.len());
    Seq::new(
        secs.len(),
        |k: int| Interval { duration_secs: secs[k] as u32, colour: colour_of(codes[k]) },
    )
}

/// Whether the given lists parse: durations are integers that fit `u32`,
/// colours are integers of any size.
pub open spec fn config_parses(durations: Seq<char>, colours: Option<Seq<char>>) -> bool {
    &&& list_fits(durations, u32::MAX as nat)
    &&& colours matches Some(c) ==> list_is_integers(c)
}

/// Whether, for lists that parse, the colours provided had to be replaced.
pub open spec fn config_replaces_colours(durations: Seq<char>, colours: Option<Seq<char>>) -> bool {
    colours matches Some(c) && !colours_usable(list_values(c), list_values(durations).len())
}

/// Colour codes as numbers.
pub open spec fn widen(codes: Seq<u8>) -> Seq<nat> {
    codes.map_values(|c: u8| c as nat)
}

/// Optional colour codes as numbers.
pub open spec fn codes_view(o: Option<Vec<u8>>) -> Option<Seq<nat>> {
    match o {
        Some(v) => Some(widen(v@)),
        None => None,
    }
}

/// The text of an optional string.
pub open spec fn opt_view(o: Option<String>) -> Option<Seq<char>> {
    match o {
        Some(s) => Some(s@),
        None => None,
    }
}

/// An ordered, non-empty schedule of intervals.
#[derive(Debug)]
pub struct IntervalList {
    pub intervals: Vec<Interval>,
    /// Set when the colours provided were replaced by generated ones.
    pub warning: Option<ConfigError>,
}

impl IntervalList {
    /// Builds the schedule from comma-separated durations in seconds and,
    /// optionally, comma-separated colour codes. Colours that do not match
    /// the durations in number, or hold a code above seven, are replaced by
    /// generated ones, and `warning` says so.
    pub fn new(durations_string: String, optional_colours_string: Option<String>) -> (r: Result<
        Self,
        ConfigError,
    >)
        ensures
            r is Ok <==> config_parses(durations_string@, opt_view(optional_colours_string)),
            r matches Err(e) ==> e == ConfigError::ParseFailure,
            r matches Ok(list) ==> {
                let colours = opt_view(optional_colours_string);
                &&& list.intervals@ == schedule_of(durations_string@, colours)
                &&& list.intervals@.len() > 0
                &&& (list.warning == if config_replaces_colours(durations_string@, colours) {
                    Some(ConfigError::Mismatch)
                } else {
                    None::<ConfigError>
                })
            },
    {
        let ghost colours = opt_view(optional_colours_string);
        let durations = match Self::parse_int_string(durations_string.as_str(), u32::MAX) {
            Ok(d) => d,
            Err(e) => {
                return Err(e);
            },
        };
        let ghost secs = list_values(durations_string@);
        proof {
            lemma_comma_fields_nonempty(durations_string@);
        }
        let optional_colours: Option<Vec<u8>> = match optional_colours_string {
            Some(colours_string) => {
                match Self::parse_colour_codes(colours_string.as_str()) {
                    Ok(codes) => Some(codes),
                    Err(e) => {
                        return Err(e);
                    },
                }
            },
            None => None,
        };
        let ghost provided = match colours {
            Some(c) => Some(list_values(c)),
            None => None::<Seq<nat>>,
        };
        let ghost given = codes_view(optional_colours);
        proof {
            if let Some(c) = colours {
                lemma_held_codes_choose_alike(given->0, list_values(c), secs.len());
            }
        }
        let (colours_used, warning) = Self::determine_colours(optional_colours, &durations);
        let ghost codes = chosen_colours(provided, secs.len());
        let mut intervals: Vec<Interval> = Vec::new();
        let mut i: usize = 0;
        while i < durations.len()
            invariant
                i <= durations@.len(),
                durations@.len() == secs.len(),
                widen(colours_used@) == codes,
                codes.len() == secs.len(),
                forall|k: int| 0 <= k < secs.len() ==> durations@[k] as nat == #[trigger] secs[k],
                secs == list_values(durations_string@),
                codes == chosen_colours(provided, secs.len()),
                provided == match colours {
                    Some(c) => Some(list_values(c)),
                    None => None,
                },
                intervals@ =~= schedule_of(durations_string@, colours).take(i as int),
            decreases durations.len() - i,
        {
            assert(colours_used@[i as int] as nat == codes[i as int]);
            let interval = Interval::new(durations[i], colours_used[i]);
            assert(interval == schedule_of(durations_string@, colours)[i as int]);
            intervals.push(interval);
            i = i + 1;
        }
        assert(intervals@ =~= schedule_of(durations_string@, colours));
        Ok(Self { intervals, warning })
    }

    /// Reads a comma-separated list of unsigned integers, each no larger than
    /// `limit`.
    fn parse_int_string(int_string: &str, limit: u32) -> (r: Result<Vec<u32>, ConfigError>)
        ensures
            r is Ok <==> list_fits(int_string@, limit as nat),
            r matches Ok(v) ==> v@.len() == list_values(int_string@).len() && forall|k: int|
                0 <= k < v@.len() ==> v@[k] as nat == #[trigger] list_values(int_string@)[k],
            r matches Ok(v) ==> forall|k: int| 0 <= k < v@.len() ==> #[trigger] v@[k] <= limit,
            r matches Err(e) ==> e == ConfigError::ParseFailure,
    {
        let fields = split_fields(int_string);
        let ghost fv = comma_fields(int_string@);
        assert(fields.deep_view().len() == fields@.len());
        let mut out: Vec<u32> = Vec::new();
        let mut k: usize = 0;
        while k < fields.len()
            invariant
                k <= fields@.len(),
                fields.deep_view() == fv,
                fv == comma_fields(int_string@),
                out@.len() == k,
                forall|i: int| 0 <= i < k ==> #[trigger] field_fits(fv[i], limit as nat),
                forall|i: int|
                    0 <= i < k ==> out@[i] as nat == #[trigger] list_values(int_string@)[i],
                forall|i: int| 0 <= i < k ==> #[trigger] out@[i] <= limit,
            decreases fields.len() - k,
        {
            assert(fields@[k as int]@ == fv[k as int]);
            match parse_field(&fields[k], limit) {
                Some(v) => {
                    out.push(v);
                },
                None => {
                    return Err(ConfigError::ParseFailure);
                },
            }
            k = k + 1;
        }
        Ok(out)
    }

    /// Reads a comma-separated list of colour codes: unsigned integers of any
    /// size, each held in a byte as `held_code` says.
    fn parse_colour_codes(codes_string: &str) -> (r: Result<Vec<u8>, ConfigError>)
        ensures
            r is Ok <==> list_is_integers(codes_string@),
            r matches Ok(v) ==> v@.len() == list_values(codes_string@).len() && forall|k: int|
                0 <= k < v@.len() ==> v@[k] as nat == held_code(
                    #[trigger] list_values(codes_string@)[k],
                ),
            r matches Err(e) ==> e == ConfigError::ParseFailure,
    {
        let fields = split_fields(codes_string);
        let ghost fv = comma_fields(codes_string@);
        assert(fields.deep_view().len() == fields@.len());
        let mut out: Vec<u8> = Vec::new();
        let mut k: usize = 0;
        while k < fields.len()
            invariant
                k <= fields@.len(),
                fields.deep_view() == fv,
                fv == comma_fields(codes_string@),
                out@.len() == k,
                forall|i: int| 0 <= i < k ==> #[trigger] digit_field(fv[i]),
                forall|i: int|
                    0 <= i < k ==> out@[i] as nat == held_code(
                        #[trigger] list_values(codes_string@)[i],
                    ),
            decreases fields.len() - k,
        {
            assert(fields@[k as int]@ == fv[k as int]);
            match parse_code_field(&fields[k]) {
                Some(v) => {
                    out.push(v);
                },
                None => {
                    return Err(ConfigError::ParseFailure);
                },
            }
            k = k + 1;
        }
        Ok(out)
    }

    /// Picks the colour codes for `durations.len()` intervals: the ones
    /// provided where they are usable, generated ones otherwise. The second
    /// result is set when provided colours were replaced.
    fn determine_colours(optional_colours: Option<Vec<u8>>, durations: &Vec<u32>) -> (r: (
        Vec<u8>,
        Option<ConfigError>,
    ))
        ensures
            ({
                let provided = codes_view(optional_colours);
                &&& widen(r.0@) == chosen_colours(provided, durations@.len())
                &&& r.1 == if colours_replaced(provided, durations@.len()) {
                    Some(ConfigError::Mismatch)
                } else {
                    None::<ConfigError>
                }
            }),
    {
        let n = durations.len();
        let colours = match optional_colours {
            Some(colours) => colours,
            None => {
                return (Self::generate_colours(n), None);
            },
        };
        let ghost provided = widen(colours@);
        if colours.len() != n || colours.len() == 0 {
            return (Self::generate_colours(n), Some(ConfigError::Mismatch));
        }
        let mut k: usize = 0;
        while k < colours.len()
            invariant
                k <= colours@.len(),
                optional_colours == Some(colours),
                n == durations@.len(),
                colours@.len() == n,
                provided == widen(colours@),
                forall|i: int| 0 <= i < k ==> #[trigger] provided[i] <= MAX_COLOUR_N,
            decreases colours.len() - k,
        {
            if colours[k] > MAX_COLOUR_N {
                assert(provided[k as int] > MAX_COLOUR_N);
                return (Self::generate_colours(n), Some(ConfigError::Mismatch));
            }
            k = k + 1;
        }
        assert(widen(colours@) =~= provided);
        (colours, None)
    }

    /// Generates a colour code for each of `n_colours` intervals by cycling
    /// through the codes one to seven.
    pub fn generate_colours(n_colours: usize) -> (r: Vec<u8>)
        ensures
            r@.len() == n_colours,
            forall|k: int| 0 <= k < n_colours ==> #[trigger] r@[k] == (k % 7 + 1) as u8,
            widen(r@) == cycled_colours(n_colours as nat),
    {
        let mut r: Vec<u8> = Vec::new();
        let mut n: usize = 0;
        while n < n_colours
            invariant
                n <= n_colours,
                r@.len() == n,
                forall|k: int| 0 <= k < n ==> #[trigger] r@[k] == (k % 7 + 1) as u8,
            decreases n_colours - n,
        {
            r.push((n % 7) as u8 + 1);
            n = n + 1;
        }
        assert(widen(r@) =~= cycled_colours(n_colours as nat));
        r
    }
}

/// A schedule read from lists that parse has one interval per
/// comma-separated duration, in the order given.
pub proof fn lemma_schedule_in_order(durations: Seq<char>, colours: Option<Seq<char>>)
    requires
        config_parses(durations, colours),
    ensures
        schedule_of(durations, colours).len() == comma_fields(durations).len(),
        forall|k: int|
            0 <= k < comma_fields(durations).len() ==> (#[trigger] schedule_of(durations, colours)[k]).duration_secs
                == digits_value(unsigned_digits(comma_fields(durations)[k])),
{
    assert forall|k: int| 0 <= k < comma_fields(durations).len() implies (#[trigger] schedule_of(
        durations,
        colours,
    )[k]).duration_secs == digits_value(unsigned_digits(comma_fields(durations)[k])) by {
        assert(field_fits(comma_fields(durations)[k], u32::MAX as nat));
    }
}

/// Colours given in a number other than that of the durations, or holding a
/// code above seven, are replaced by the cycle `1, 2, ..., 7, 1, 2, ...`,
/// and the schedule says so.
pub proof fn lemma_replaced_colours_cycle(durations: Seq<char>, colours: Seq<char>)
    requires
        config_parses(durations, Some(colours)),
        list_values(colours).len() != list_values(durations).len() || exists|k: int|
            0 <= k < list_values(colours).len() && #[trigger] list_values(colours)[k] > MAX_COLOUR_N,
    ensures
        config_replaces_colours(durations, Some(colours)),
        forall|k: int|
            0 <= k < schedule_of(durations, Some(colours)).len() ==> (#[trigger] schedule_of(
                durations,
                Some(colours),
            )[k]).colour == colour_of((k % 7 + 1) as nat),
{
}

/// An empty list, or one that ends in a comma, does not parse: its last
/// field is empty.
pub proof fn lemma_empty_field_fails(s: Seq<char>, limit: nat)
    requires
        s.len() == 0 || s.last() == ',',
    ensures
        !list_fits(s, limit),
{
    let f = comma_fields(s);
    assert(f.last() =~= Seq::<char>::empty());
    assert(!field_fits(f[f.len() - 1], limit));
}

/// The comma-separated decimal notation of the numbers `xs`.
pub open spec fn decimal_list(xs: Seq<nat>) -> Seq<char>
    decreases xs.len(),
{
    if xs.len() <= 1 {
        decimal(xs[0])
    } else {
        decimal_list(xs.drop_last()) + seq![','] + decimal(xs.last())
    }
}

/// The comma-separated decimal notation of optional numbers.
pub open spec fn opt_decimal_list(xs: Option<Seq<nat>>) -> Option<Seq<char>> {
    match xs {
        Some(xs) => Some(decimal_list(xs)),
        None => None,
    }
}

proof fn lemma_decimal_digits(n: nat)
    ensures
        decimal(n).len() > 0,
        forall|k: int| 0 <= k < decimal(n).len() ==> #[trigger] is_digit(decimal(n)[k]),
        digits_value(decimal(n)) == n,
    decreases n,
{
    let d = decimal(n);
    if n < 10 {
        assert(d =~= seq![digit_char(n)]);
        assert(d.drop_last() =~= Seq::<char>::empty());
        assert(digits_value(d.drop_last()) == 0);
        assert((d.last() as u32) == n + 48);
        assert(digits_value(d) == n);
    } else {
        lemma_decimal_digits(n / 10);
        assert(d.drop_last() =~= decimal(n / 10));
        assert(d.last() == digit_char(n % 10));
        assert((d.last() as u32) == n % 10 + 48);
        assert(n == (n / 10) * 10 + n % 10) by (nonlinear_arith);
        assert(digits_value(d) == digits_value(decimal(n / 10)) * 10 + n % 10);
    }
}

proof fn lemma_comma_fields_extend(a: Seq<char>, b: Seq<char>)
    requires
        forall|k: int| 0 <= k < b.len() ==> #[trigger] b[k] != ',',
    ensures
        comma_fields(a + b) == comma_fields(a).update(
            comma_fields(a).len() - 1,
            comma_fields(a).last() + b,
        ),
    decreases b.len(),
{
    lemma_comma_fields_nonempty(a);
    if b.len() == 0 {
        assert(a + b =~= a);
        assert(comma_fields(a).last() + b =~= comma_fields(a).last());
        assert(comma_fields(a).update(comma_fields(a).len() - 1, comma_fields(a).last())
            =~= comma_fields(a));
    } else {
        lemma_comma_fields_extend(a, b.drop_last());
        assert((a + b).drop_last() =~= a + b.drop_last());
        assert((a + b).last() == b.last());
        assert(comma_fields(a).last() + b =~= (comma_fields(a).last() + b.drop_last()).push(
            b.last(),
        ));
        assert(comma_fields(a + b) =~= comma_fields(a).update(
            comma_fields(a).len() - 1,
            comma_fields(a).last() + b,
        ));
    }
}

proof fn lemma_decimal_list_fields(xs: Seq<nat>)
    requires
        xs.len() > 0,
    ensures
        comma_fields(decimal_list(xs)).len() == xs.len(),
        forall|k: int|
            0 <= k < xs.len() ==> #[trigger] comma_fields(decimal_list(xs))[k] == decimal(xs[k]),
    decreases xs.len(),
{
    let last = xs[xs.len() - 1];
    lemma_decimal_digits(last);
    assert forall|k: int| 0 <= k < decimal(last).len() implies #[trigger] decimal(last)[k] != ',' by {
        assert(is_digit(decimal(last)[k]));
    }
    if xs.len() == 1 {
        let e = Seq::<char>::empty();
        lemma_comma_fields_extend(e, decimal(last));
        assert(e + decimal(last) =~= decimal(last));
        assert(Seq::<char>::empty() + decimal(last) =~= decimal(last));
    } else {
        let front = decimal_list(xs.drop_last()) + seq![','];
        lemma_decimal_list_fields(xs.drop_last());
        assert(front.drop_last() =~= decimal_list(xs.drop_last()));
        lemma_comma_fields_extend(front, decimal(last));
        assert(Seq::<char>::empty() + decimal(last) =~= decimal(last));
        assert forall|k: int| 0 <= k < xs.len() - 1 implies #[trigger] comma_fields(
            decimal_list(xs),
        )[k] == decimal(xs[k]) by {
            assert(xs.drop_last()[k] == xs[k]);
        }
    }
}

proof fn lemma_decimal_list_reads_back(xs: Seq<nat>)
    requires
        xs.len() > 0,
    ensures
        list_is_integers(decimal_list(xs)),
        list_values(decimal_list(xs)) == xs,
        forall|limit: nat|
            (forall|k: int| 0 <= k < xs.len() ==> #[trigger] xs[k] <= limit) ==> list_fits(
                decimal_list(xs),
                limit,
            ),
{
    lemma_decimal_list_fields(xs);
    let f = comma_fields(decimal_list(xs));
    assert forall|k: int| 0 <= k < f.len() implies #[trigger] digit_field(f[k])
        && digits_value(unsigned_digits(f[k])) == xs[k] by {
        lemma_decimal_digits(xs[k]);
        assert(f[k] == decimal(xs[k]));
        assert(is_digit(f[k][0]));
        assert(unsigned_digits(f[k]) == f[k]);
    }
    assert forall|k: int| 0 <= k < xs.len() implies #[trigger] list_values(decimal_list(xs))[k]
        == xs[k] by {
        lemma_decimal_digits(xs[k]);
        assert(f[k] == decimal(xs[k]));
        assert(is_digit(f[k][0]));
        assert(unsigned_digits(f[k]) == f[k]);
    }
    assert(list_values(decimal_list(xs)) =~= xs);
}

/// Lists written as comma-separated decimal numbers read back as the
/// numbers written: durations `ds` that fit `u32`, with optional colour codes
/// `cs` of any size, always build a schedule. It has one interval per
/// duration, in the order given, each with its duration; the colours are the
/// codes given when they are usable and the cycle `1, 2, ..., 7` otherwise,
/// with a warning exactly then.
pub proof fn lemma_written_lists_read_back(ds: Seq<nat>, cs: Option<Seq<nat>>)
    requires
        ds.len() > 0,
        forall|k: int| 0 <= k < ds.len() ==> #[trigger] ds[k] <= u32::MAX,
        cs matches Some(c) ==> c.len() > 0,
    ensures
        config_parses(decimal_list(ds), opt_decimal_list(cs)),
        schedule_of(decimal_list(ds), opt_decimal_list(cs)).len() == ds.len(),
        forall|k: int|
            0 <= k < ds.len() ==> (#[trigger] schedule_of(decimal_list(ds), opt_decimal_list(cs))[k])
                == (Interval {
                duration_secs: ds[k] as u32,
                colour: colour_of(chosen_colours(cs, ds.len())[k]),
            }),
        config_replaces_colours(decimal_list(ds), opt_decimal_list(cs)) == colours_replaced(
            cs,
            ds.len(),
        ),
{
    lemma_decimal_list_reads_back(ds);
    if let Some(c) = cs {
        lemma_decimal_list_reads_back(c);
    }
}

} // verus!
