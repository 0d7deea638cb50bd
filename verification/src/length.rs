//! Lengths with CSS units, and their parser.
//!
//! A `Length` holds an exact rational magnitude, a unit, and the axis it
//! measures along. The parser reads an optionally signed decimal numeral
//! with an optional unit suffix, or one of the relative keywords `larger`
//! and `smaller`. Units expressed in points, picas, centimetres or
//! millimetres are converted to inches at parse time, exactly; a percentage
//! is stored as its fraction (so `50%` has magnitude 1/2).

use vstd::prelude::*;

use crate::error::AttributeError;
use crate::ratio::{mul_ok, rat, rmul, Ratio};
use crate::text::{str_eq, trim, trimmed};

verus! {

/// The unit a length is expressed in. `Default` is user units; the two
/// relative keywords scale the inherited font size.
#[derive(Clone, Copy, Debug, PartialEq, Eq, Structural)]
pub enum LengthUnit {
    Default,
    Percent,
    FontEm,
    FontEx,
    Inch,
    RelativeLarger,
    RelativeSmaller,
}

/// The axis a length measures along, for unit resolution.
#[derive(Clone, Copy, Debug, PartialEq, Eq, Structural)]
pub enum LengthDir {
    Horizontal,
    Vertical,
    Both,
}

/// A length: an exact rational magnitude, its unit, and its axis.
#[derive(Clone, Copy, Debug, PartialEq, Eq, Structural)]
pub struct Length {
    pub length: Ratio,
    pub unit: LengthUnit,
    pub dir: LengthDir,
}

/// Whether `c` is an ASCII decimal digit.
pub open spec fn is_digit(c: char) -> bool {
    '0' <= c && c <= '9'
}

/// The numeric value of a digit character.
pub open spec fn digit_val(c: char) -> int {
    c as int - '0' as int
}

/// The value of the digit string `s` appended to an accumulator, read left
/// to right in positional notation.
pub open spec fn accum(acc: int, s: Seq<char>) -> int
    decreases s.len(),
{
    if s.len() == 0 {
        acc
    } else {
        accum(acc * 10 + digit_val(s[0]), s.drop_first())
    }
}

/// Ten to the power `n`.
pub open spec fn pow10(n: nat) -> int
    decreases n,
{
    if n == 0 {
        1
    } else {
        10 * pow10((n - 1) as nat)
    }
}

/// The index just past the run of digits starting at `i`.
pub open spec fn digit_run_end(s: Seq<char>, i: int) -> int
    decreases s.len() - i,
{
    if 0 <= i < s.len() && is_digit(s[i]) {
        digit_run_end(s, i + 1)
    } else {
        i
    }
}

/// The sign a numeral denotes: -1 under a leading minus, else 1.
pub open spec fn sign_of(t: Seq<char>) -> int {
    if t.len() > 0 && t[0] == '-' {
        -1
    } else {
        1
    }
}

/// Where the digits of a numeral start: past a leading sign.
pub open spec fn sign_end(t: Seq<char>) -> int {
    if t.len() > 0 && (t[0] == '-' || t[0] == '+') {
        1
    } else {
        0
    }
}

/// Splits a numeral into integer digits, fractional digits and a unit
/// suffix; `None` when the shape is not `sign? digits (. digits)? suffix`
/// with at least one digit.
pub open spec fn number_split(t: Seq<char>) -> Option<(Seq<char>, Seq<char>, Seq<char>)> {
    let s0 = sign_end(t);
    let j = digit_run_end(t, s0);
    if j < t.len() && t[j] == '.' {
        let k = digit_run_end(t, j + 1);
        if (j - s0) + (k - (j + 1)) >= 1 {
            Some((t.subrange(s0, j), t.subrange(j + 1, k), t.subrange(k, t.len() as int)))
        } else {
            None
        }
    } else {
        if j - s0 >= 1 {
            Some((t.subrange(s0, j), Seq::empty(), t.subrange(j, t.len() as int)))
        } else {
            None
        }
    }
}

/// The unit a suffix denotes, with the exact rational factor applied to the
/// numeral: points, picas, centimetres and millimetres become inches; a
/// percentage becomes its fraction.
pub open spec fn unit_conv(suffix: Seq<char>) -> Option<(LengthUnit, (int, int))> {
    if suffix.len() == 0 {
        Some((LengthUnit::Default, (1int, 1int)))
    } else if suffix == "px"@ {
        Some((LengthUnit::Default, (1int, 1int)))
    } else if suffix == "%"@ {
        Some((LengthUnit::Percent, (1int, 100int)))
    } else if suffix == "em"@ {
        Some((LengthUnit::FontEm, (1int, 1int)))
    } else if suffix == "ex"@ {
        Some((LengthUnit::FontEx, (1int, 1int)))
    } else if suffix == "in"@ {
        Some((LengthUnit::Inch, (1int, 1int)))
    } else if suffix == "pt"@ {
        Some((LengthUnit::Inch, (1int, 72int)))
    } else if suffix == "pc"@ {
        Some((LengthUnit::Inch, (1int, 6int)))
    } else if suffix == "cm"@ {
        Some((LengthUnit::Inch, (50int, 127int)))
    } else if suffix == "mm"@ {
        Some((LengthUnit::Inch, (5int, 127int)))
    } else {
        None
    }
}

/// The rational value and unit a trimmed length string denotes, independent
/// of machine limits. `None` when the string is malformed.
pub open spec fn length_value(t: Seq<char>) -> Option<((int, int), LengthUnit)> {
    if t == "larger"@ {
        Some(((0int, 1int), LengthUnit::RelativeLarger))
    } else if t == "smaller"@ {
        Some(((0int, 1int), LengthUnit::RelativeSmaller))
    } else {
        match number_split(t) {
            Option::None => Option::None,
            Option::Some((d1, d2, suffix)) => match unit_conv(suffix) {
                Option::None => Option::None,
                Option::Some((unit, conv)) => Some(
                    (rmul((sign_of(t) * accum(0, d1 + d2), pow10(d2.len())), conv), unit),
                ),
            },
        }
    }
}

/// Whether the value a trimmed length string denotes is representable: the
/// digits, the denominator and the unit conversion all fit in `i64`.
pub open spec fn length_fits(t: Seq<char>) -> bool {
    if t == "larger"@ || t == "smaller"@ {
        true
    } else {
        match number_split(t) {
            Option::None => true,
            Option::Some((d1, d2, suffix)) => {
                &&& accum(0, d1 + d2) <= i64::MAX
                &&& pow10(d2.len()) <= i64::MAX
                &&& match unit_conv(suffix) {
                    Option::None => true,
                    Option::Some((unit, conv)) => mul_ok(
                        (sign_of(t) * accum(0, d1 + d2), pow10(d2.len())),
                        conv,
                    ),
                }
            },
        }
    }
}

/// The rational value a trimmed bare numeral denotes: as `length_value`,
/// but with no unit suffix allowed.
pub open spec fn number_value(t: Seq<char>) -> Option<(int, int)> {
    match number_split(t) {
        Option::None => Option::None,
        Option::Some((d1, d2, suffix)) => if suffix.len() == 0 {
            Some((sign_of(t) * accum(0, d1 + d2), pow10(d2.len())))
        } else {
            Option::None
        },
    }
}

/// Whether the value a trimmed bare numeral denotes is representable.
pub open spec fn number_fits(t: Seq<char>) -> bool {
    match number_split(t) {
        Option::None => true,
        Option::Some((d1, d2, suffix)) => accum(0, d1 + d2) <= i64::MAX && pow10(d2.len())
            <= i64::MAX,
    }
}

/// Appending digits to a nonnegative accumulator never decreases it.
proof fn lemma_accum_ge(acc: int, s: Seq<char>)
    requires
        acc >= 0,
        forall|i: int| 0 <= i < s.len() ==> is_digit(s[i]),
    ensures
        accum(acc, s) >= acc,
    decreases s.len(),
{
    if s.len() > 0 {
        assert(is_digit(s[0]));
        lemma_accum_ge(acc * 10 + digit_val(s[0]), s.drop_first());
    }
}

/// Accumulating over a concatenation is accumulating over each part in turn.
proof fn lemma_accum_concat(acc: int, a: Seq<char>, b: Seq<char>)
    ensures
        accum(acc, a + b) == accum(accum(acc, a), b),
    decreases a.len(),
{
    if a.len() == 0 {
        assert(a + b =~= b);
    } else {
        assert((a + b).drop_first() =~= a.drop_first() + b);
        assert((a + b)[0] == a[0]);
        lemma_accum_concat(acc * 10 + digit_val(a[0]), a.drop_first(), b);
    }
}

/// A scan that stops at the first non-digit lands on `digit_run_end`.
proof fn lemma_digit_run_end(s: Seq<char>, from: int, i: int)
    requires
        0 <= from <= i <= s.len(),
        forall|j: int| from <= j < i ==> is_digit(s[j]),
        i < s.len() ==> !is_digit(s[i]),
    ensures
        digit_run_end(s, from) == i,
    decreases i - from,
{
    if from < i {
        lemma_digit_run_end(s, from + 1, i);
    }
}

/// Powers of ten are at least one.
proof fn lemma_pow10_pos(n: nat)
    ensures
        pow10(n) >= 1,
    decreases n,
{
    if n > 0 {
        lemma_pow10_pos((n - 1) as nat);
    }
}

/// Powers of ten grow with the exponent.
proof fn lemma_pow10_mono(m: nat, n: nat)
    requires
        m <= n,
    ensures
        pow10(m) <= pow10(n),
    decreases n,
{
    if m < n {
        lemma_pow10_mono(m, (n - 1) as nat);
        lemma_pow10_pos((n - 1) as nat);
    }
}

fn is_digit_exec(c: char) -> (r: bool)
    ensures
        r == is_digit(c),
{
    '0' <= c && c <= '9'
}

fn digit_value(c: char) -> (r: i64)
    requires
        is_digit(c),
    ensures
        r == digit_val(c),
        0 <= r <= 9,
{
    ((c as u32) - ('0' as u32)) as i64
}

/// Reads the digits of `t` in `[from, to)` onto the accumulator `start`.
/// `None` exactly when the accumulated value exceeds `i64::MAX`.
fn digits_to_acc(t: &str, from: usize, to: usize, start: i64) -> (r: Option<i64>)
    requires
        from <= to <= t@.len(),
        start >= 0,
        forall|j: int| from <= j < to ==> is_digit(t@[j]),
    ensures
        r is Some <==> accum(start as int, t@.subrange(from as int, to as int)) <= i64::MAX,
        r is Some ==> r->Some_0 == accum(start as int, t@.subrange(from as int, to as int))
            && r->Some_0 >= 0,
{
    let mut acc: i64 = start;
    let mut i: usize = from;
    while i < to
        invariant
            from <= i <= to <= t@.len(),
            acc >= 0,
            forall|j: int| from <= j < to ==> is_digit(t@[j]),
            accum(start as int, t@.subrange(from as int, to as int)) == accum(
                acc as int,
                t@.subrange(i as int, to as int),
            ),
        decreases to - i,
    {
        let c = t.get_char(i);
        let d = digit_value(c);
        proof {
            let rest = t@.subrange(i as int, to as int);
            assert(rest[0] == t@[i as int]);
            assert(rest.drop_first() =~= t@.subrange(i + 1, to as int));
            lemma_accum_ge(acc * 10 + digit_val(t@[i as int]), t@.subrange(i + 1, to as int));
        }
        let step = match acc.checked_mul(10) {
            Option::Some(v) => v.checked_add(d),
            Option::None => Option::None,
        };
        match step {
            Option::Some(v) => {
                acc = v;
            },
            Option::None => {
                return Option::None;
            },
        }
        i = i + 1;
    }
    proof {
        assert(t@.subrange(i as int, to as int) =~= Seq::<char>::empty());
    }
    Some(acc)
}

impl Length {
    /// All parts of a length are well-formed.
    pub open spec fn wf(self) -> bool {
        self.length.wf()
    }

    /// Parses a length: a trimmed, optionally signed decimal numeral with
    /// an optional unit suffix, or one of `larger` and `smaller`. Errors
    /// exactly on malformed input and on values outside the representable
    /// range.
    #[verifier::loop_isolation(false)]
    pub fn parse(s: &str, dir: LengthDir) -> (r: Result<Length, AttributeError>)
        ensures
            match r {
                Ok(l) => {
                    &&& length_value(trimmed(s@)) is Some
                    &&& length_fits(trimmed(s@))
                    &&& l.wf()
                    &&& l.dir == dir
                    &&& l.unit == length_value(trimmed(s@))->Some_0.1
                    &&& rat(l.length) == length_value(trimmed(s@))->Some_0.0
                },
                Err(e) => {
                    &&& (length_value(trimmed(s@)) is None || !length_fits(trimmed(s@)))
                    &&& e.is_invalid_value()
                },
            },
    {
        let t = trim(s);
        if str_eq(t, "larger") {
            return Ok(Length { length: Ratio::from_int(0), unit: LengthUnit::RelativeLarger, dir });
        }
        if str_eq(t, "smaller") {
            return Ok(
                Length { length: Ratio::from_int(0), unit: LengthUnit::RelativeSmaller, dir },
            );
        }
        let n = t.unicode_len();

        // Sign.
        let mut i0: usize = 0;
        let mut neg = false;
        if n > 0 {
            let c = t.get_char(0);
            if c == '-' {
                neg = true;
                i0 = 1;
            } else if c == '+' {
                i0 = 1;
            }
        }
        assert(i0 == sign_end(t@));
        assert(neg == (sign_of(t@) == -1));

        // Integer digits.
        let mut j: usize = i0;
        while j < n && is_digit_exec(t.get_char(j))
            invariant
                i0 <= j <= n,
                n == t@.len(),
                forall|p: int| i0 <= p < j ==> is_digit(t@[p]),
            decreases n - j,
        {
            j = j + 1;
        }
        proof {
            lemma_digit_run_end(t@, i0 as int, j as int);
        }

        // Optional fraction.
        let has_dot = j < n && t.get_char(j) == '.';
        let mut k: usize = j;
        if has_dot {
            k = j + 1;
            while k < n && is_digit_exec(t.get_char(k))
                invariant
                    j + 1 <= k <= n,
                    n == t@.len(),
                    forall|p: int| j + 1 <= p < k ==> is_digit(t@[p]),
                decreases n - k,
            {
                k = k + 1;
            }
            proof {
                lemma_digit_run_end(t@, j + 1, k as int);
            }
        }
        let d1len = j - i0;
        let d2len = if has_dot { k - (j + 1) } else { 0 };
        if d1len + d2len == 0 {
            return Err(AttributeError::invalid_value());
        }
        assert(number_split(t@) is Some);

        // Unit suffix.
        let suffix_from = if has_dot { k } else { j };
        let suffix = t.substring_char(suffix_from, n);
        let conv: Ratio;
        let unit: LengthUnit;
        if suffix.unicode_len() == 0 {
            proof {
                assert(suffix@ =~= Seq::<char>::empty());
            }
            conv = Ratio::new(1, 1);
            unit = LengthUnit::Default;
        } else if str_eq(suffix, "px") {
            conv = Ratio::new(1, 1);
            unit = LengthUnit::Default;
        } else if str_eq(suffix, "%") {
            conv = Ratio::new(1, 100);
            unit = LengthUnit::Percent;
        } else if str_eq(suffix, "em") {
            conv = Ratio::new(1, 1);
            unit = LengthUnit::FontEm;
        } else if str_eq(suffix, "ex") {
            conv = Ratio::new(1, 1);
            unit = LengthUnit::FontEx;
        } else if str_eq(suffix, "in") {
            conv = Ratio::new(1, 1);
            unit = LengthUnit::Inch;
        } else if str_eq(suffix, "pt") {
            conv = Ratio::new(1, 72);
            unit = LengthUnit::Inch;
        } else if str_eq(suffix, "pc") {
            conv = Ratio::new(1, 6);
            unit = LengthUnit::Inch;
        } else if str_eq(suffix, "cm") {
            conv = Ratio::new(50, 127);
            unit = LengthUnit::Inch;
        } else if str_eq(suffix, "mm") {
            conv = Ratio::new(5, 127);
            unit = LengthUnit::Inch;
        } else {
            return Err(AttributeError::invalid_value());
        }
        assert(unit_conv(suffix@) == Some((unit, rat(conv))));

        // Digit value.
        let ghost d1 = t@.subrange(i0 as int, j as int);
        let ghost d2 = if has_dot {
            t@.subrange(j + 1, k as int)
        } else {
            Seq::<char>::empty()
        };
        proof {
            lemma_accum_concat(0, d1, d2);
        }
        let acc1 = match digits_to_acc(t, i0, j, 0) {
            Option::Some(v) => v,
            Option::None => {
                proof {
                    lemma_accum_ge(accum(0, d1), d2);
                }
                return Err(AttributeError::invalid_value());
            },
        };
        let acc = if has_dot {
            match digits_to_acc(t, j + 1, k, acc1) {
                Option::Some(v) => v,
                Option::None => {
                    return Err(AttributeError::invalid_value());
                },
            }
        } else {
            proof {
                assert(accum(acc1 as int, d2) == acc1);
            }
            acc1
        };
        assert(acc == accum(0, d1 + d2));

        // Denominator.
        let mut den: i64 = 1;
        let mut c2: usize = 0;
        while c2 < d2len
            invariant
                c2 <= d2len,
                den >= 1,
                den == pow10(c2 as nat),
                d2len == d2.len(),
            decreases d2len - c2,
        {
            den = match den.checked_mul(10) {
                Option::Some(v) => v,
                Option::None => {
                    proof {
                        lemma_pow10_mono((c2 + 1) as nat, d2len as nat);
                    }
                    return Err(AttributeError::invalid_value());
                },
            };
            c2 = c2 + 1;
        }

        let num: i64 = if neg {
            -acc
        } else {
            acc
        };
        let base = Ratio::new(num, den);
        assert(rat(base) == (sign_of(t@) * accum(0, d1 + d2), pow10(d2.len())));
        match base.checked_mul(conv) {
            Option::Some(v) => Ok(Length { length: v, unit, dir }),
            Option::None => Err(AttributeError::invalid_value()),
        }
    }
}

/// Parses a bare decimal numeral, with no unit suffix, after trimming.
/// Errors exactly on malformed input and on values outside the
/// representable range.
#[verifier::loop_isolation(false)]
pub fn parse_number(s: &str) -> (r: Result<Ratio, AttributeError>)
    ensures
        match r {
            Ok(v) => {
                &&& number_value(trimmed(s@)) is Some
                &&& number_fits(trimmed(s@))
                &&& v.wf()
                &&& rat(v) == number_value(trimmed(s@))->Some_0
            },
            Err(e) => {
                &&& (number_value(trimmed(s@)) is None || !number_fits(trimmed(s@)))
                &&& e.is_invalid_value()
            },
        },
{
    let t = trim(s);
    let n = t.unicode_len();

    // Sign.
    let mut i0: usize = 0;
    let mut neg = false;
    if n > 0 {
        let c = t.get_char(0);
        if c == '-' {
            neg = true;
            i0 = 1;
        } else if c == '+' {
            i0 = 1;
        }
    }
    assert(i0 == sign_end(t@));
    assert(neg == (sign_of(t@) == -1));

    // Integer digits.
    let mut j: usize = i0;
    while j < n && is_digit_exec(t.get_char(j))
        invariant
            i0 <= j <= n,
            n == t@.len(),
            forall|p: int| i0 <= p < j ==> is_digit(t@[p]),
        decreases n - j,
    {
        j = j + 1;
    }
    proof {
        lemma_digit_run_end(t@, i0 as int, j as int);
    }

    // Optional fraction.
    let has_dot = j < n && t.get_char(j) == '.';
    let mut k: usize = j;
    if has_dot {
        k = j + 1;
        while k < n && is_digit_exec(t.get_char(k))
            invariant
                j + 1 <= k <= n,
                n == t@.len(),
                forall|p: int| j + 1 <= p < k ==> is_digit(t@[p]),
            decreases n - k,
        {
            k = k + 1;
        }
        proof {
            lemma_digit_run_end(t@, j + 1, k as int);
        }
    }
    let d1len = j - i0;
    let d2len = if has_dot { k - (j + 1) } else { 0 };
    if d1len + d2len == 0 {
        return Err(AttributeError::invalid_value());
    }
    let suffix_from = if has_dot { k } else { j };
    if suffix_from != n {
        return Err(AttributeError::invalid_value());
    }

    // Digit value.
    let ghost d1 = t@.subrange(i0 as int, j as int);
    let ghost d2 = if has_dot {
        t@.subrange(j + 1, k as int)
    } else {
        Seq::<char>::empty()
    };
    proof {
        lemma_accum_concat(0, d1, d2);
    }
    let acc1 = match digits_to_acc(t, i0, j, 0) {
        Option::Some(v) => v,
        Option::None => {
            proof {
                lemma_accum_ge(accum(0, d1), d2);
            }
            return Err(AttributeError::invalid_value());
        },
    };
    let acc = if has_dot {
        match digits_to_acc(t, j + 1, k, acc1) {
            Option::Some(v) => v,
            Option::None => {
                return Err(AttributeError::invalid_value());
            },
        }
    } else {
        proof {
            assert(accum(acc1 as int, d2) == acc1);
        }
        acc1
    };
    assert(acc == accum(0, d1 + d2));

    // Denominator.
    let mut den: i64 = 1;
    let mut c2: usize = 0;
    while c2 < d2len
        invariant
            c2 <= d2len,
            den >= 1,
            den == pow10(c2 as nat),
            d2len == d2.len(),
        decreases d2len - c2,
    {
        den = match den.checked_mul(10) {
            Option::Some(v) => v,
            Option::None => {
                proof {
                    lemma_pow10_mono((c2 + 1) as nat, d2len as nat);
                }
                return Err(AttributeError::invalid_value());
            },
        };
        c2 = c2 + 1;
    }

    let num: i64 = if neg {
        -acc
    } else {
        acc
    };
    Ok(Ratio::new(num, den))
}

impl Default for Length {
    /// The zero length in user units.
    fn default() -> (r: Length)
        ensures
            r.wf(),
            rat(r.length) == (0int, 1int),
            r.unit == LengthUnit::Default,
            r.dir == LengthDir::Both,
    {
        Length { length: Ratio::from_int(0), unit: LengthUnit::Default, dir: LengthDir::Both }
    }
}

} // verus!
