//! Tracks and their position in the emotional/structural space.

use vstd::prelude::*;

use crate::genre::Genre;
use crate::value::HALF_BITS;
use crate::value::ONE_BITS;

verus! {

/// A point (or direction) in the five-dimensional emotional/structural
/// space. Each field is the bit pattern of a binary32 value, normalised to
/// the range from zero to one.
#[derive(Debug, Clone, Copy)]
pub struct Dimensions {
    pub joy: u32,
    pub sorrow: u32,
    pub intensity: u32,
    pub density: u32,
    pub velocity: u32,
}

impl Dimensions {
    /// The centre of the space: one half in every dimension.
    pub fn neutral() -> (d: Dimensions)
        ensures
            d.joy == HALF_BITS,
            d.sorrow == HALF_BITS,
            d.intensity == HALF_BITS,
            d.density == HALF_BITS,
            d.velocity == HALF_BITS,
    {
        Dimensions {
            joy: HALF_BITS,
            sorrow: HALF_BITS,
            intensity: HALF_BITS,
            density: HALF_BITS,
            velocity: HALF_BITS,
        }
    }

    /// Equal weight (one) on every dimension.
    pub fn unit_weight() -> (d: Dimensions)
        ensures
            d.joy == ONE_BITS,
            d.sorrow == ONE_BITS,
            d.intensity == ONE_BITS,
            d.density == ONE_BITS,
            d.velocity == ONE_BITS,
    {
        Dimensions {
            joy: ONE_BITS,
            sorrow: ONE_BITS,
            intensity: ONE_BITS,
            density: ONE_BITS,
            velocity: ONE_BITS,
        }
    }
}

/// A piece of music in the catalog.
#[derive(Debug, Clone)]
pub struct Track {
    pub id: u32,
    pub title: String,
    pub year: u16,
    pub duration_secs: u32,
    pub genre: Genre,
    pub dims: Dimensions,
    /// Optional short annotation shown in the UI
    pub note: Option<String>,
}

/// The character of a decimal digit.
pub open spec fn digit_char(d: nat) -> char {
    (d + 48) as char
}

/// The decimal representation of `n`, without leading zeros.
pub open spec fn decimal(n: nat) -> Seq<char>
    decreases n,
{
    if n < 10 {
        seq![digit_char(n)]
    } else {
        decimal(n / 10).push(digit_char(n % 10))
    }
}

/// `minutes:seconds`, the seconds always with two digits.
pub open spec fn spec_duration_str(secs: nat) -> Seq<char> {
    decimal(secs / 60) + seq![':', digit_char((secs % 60) / 10), digit_char(secs % 10)]
}

/// `c` is one of the characters `0` to `9`.
pub open spec fn is_digit(c: char) -> bool {
    '0' <= c && c <= '9'
}

/// The number a string of decimal digits reads as (most significant first).
pub open spec fn numeral_value(s: Seq<char>) -> int
    decreases s.len(),
{
    if s.len() == 0 {
        0
    } else {
        numeral_value(s.drop_last()) * 10 + (s.last() as int - '0' as int)
    }
}

/// A digit's character stands for that digit.
proof fn lemma_digit_char(d: nat)
    requires
        d < 10,
    ensures
        digit_char(d) as int == d + '0' as int,
        is_digit(digit_char(d)),
        d > 0 ==> digit_char(d) != '0',
{
}

/// Law: the decimal representation of `n` is a non-empty string of digits
/// that reads back as `n`, with no leading zero.
pub proof fn lemma_decimal_reads_back(n: nat)
    ensures
        decimal(n).len() >= 1,
        forall|i: int| 0 <= i < decimal(n).len() ==> is_digit(#[trigger] decimal(n)[i]),
        numeral_value(decimal(n)) == n,
        decimal(n).len() > 1 ==> decimal(n)[0] != '0',
        n > 0 ==> decimal(n)[0] != '0',
    decreases n,
{
    lemma_digit_char(n % 10);
    if n < 10 {
        assert(decimal(n).drop_last() =~= Seq::<char>::empty());
        assert(numeral_value(decimal(n).drop_last()) == 0);
        assert(decimal(n).last() == digit_char(n));
    } else {
        lemma_decimal_reads_back(n / 10);
        let d = decimal(n);
        let p = decimal(n / 10);
        assert(d.drop_last() =~= p);
        assert(d[0] == p[0]);
        assert(d.last() == digit_char(n % 10));
        assert(numeral_value(d) == numeral_value(p) * 10 + (n % 10) as int);
        assert(n == (n / 10) * 10 + n % 10);
        assert forall|i: int| 0 <= i < d.len() implies is_digit(#[trigger] d[i]) by {
            if i < p.len() {
                assert(d[i] == p[i]);
            }
        }
    }
}

/// Law: a duration string is the minutes as a decimal numeral without
/// leading zeros, a colon, and the seconds as exactly two digits.
pub proof fn lemma_duration_str_reads_back(secs: nat)
    ensures
        ({
            let s = spec_duration_str(secs);
            let m = s.take(s.len() - 3);
            &&& s.len() >= 4
            &&& s[s.len() - 3] == ':'
            &&& forall|i: int| 0 <= i < m.len() ==> is_digit(#[trigger] m[i])
            &&& numeral_value(m) == secs / 60
            &&& m.len() > 1 ==> m[0] != '0'
            &&& is_digit(s[s.len() - 2]) && is_digit(s[s.len() - 1])
            &&& numeral_value(s.skip(s.len() - 2)) == secs % 60
        }),
{
    let s = spec_duration_str(secs);
    lemma_decimal_reads_back(secs / 60);
    lemma_digit_char((secs % 60) / 10);
    lemma_digit_char(secs % 10);
    assert(secs % 60 == (secs % 60) / 10 * 10 + secs % 10);
    assert(s.take(s.len() - 3) =~= decimal(secs / 60));
    let m = s.take(s.len() - 3);
    let t = s.skip(s.len() - 2);
    let hi = digit_char((secs % 60) / 10);
    let lo = digit_char(secs % 10);
    assert(s.len() == decimal(secs / 60).len() + 3);
    assert(s[s.len() - 3] == ':');
    assert(s[s.len() - 2] == hi);
    assert(s[s.len() - 1] == lo);
    assert forall|i: int| 0 <= i < m.len() implies is_digit(#[trigger] m[i]) by {
        assert(m[i] == decimal(secs / 60)[i]);
    }
    assert(t =~= seq![hi, lo]);
    assert(t.drop_last() =~= seq![hi]);
    assert(t.drop_last().drop_last() =~= Seq::<char>::empty());
    assert(numeral_value(t.drop_last().drop_last()) == 0);
    assert(t.drop_last().last() == hi);
    assert(numeral_value(t.drop_last()) == (secs % 60) / 10);
    assert(numeral_value(t) == (secs % 60) / 10 * 10 + secs % 10);
}

/// The one-character string of a decimal digit.
fn digit_str(d: u32) -> (r: &'static str)
    requires
        d < 10,
    ensures
        r@ == seq![digit_char(d as nat)],
{
    proof {
        reveal_strlit("0");
        reveal_strlit("1");
        reveal_strlit("2");
        reveal_strlit("3");
        reveal_strlit("4");
        reveal_strlit("5");
        reveal_strlit("6");
        reveal_strlit("7");
        reveal_strlit("8");
        reveal_strlit("9");
    }
    match d {
        0 => "0",
        1 => "1",
        2 => "2",
        3 => "3",
        4 => "4",
        5 => "5",
        6 => "6",
        7 => "7",
        8 => "8",
        _ => "9",
    }
}

/// Appends the decimal representation of `n`.
fn push_decimal(s: &mut String, n: u32)
    ensures
        final(s)@ == old(s)@ + decimal(n as nat),
    decreases n,
{
    if n >= 10 {
        push_decimal(s, n / 10);
    }
    s.append(digit_str(n % 10));
    assert(n >= 10 ==> (n / 10) as nat == n as nat / 10);
}

impl Track {
    /// Human-readable duration string, e.g. "4:32"
    pub fn duration_str(&self) -> (r: String)
        ensures
            r@ == spec_duration_str(self.duration_secs as nat),
            ({
                let m = r@.take(r@.len() - 3);
                &&& r@.len() >= 4
                &&& r@[r@.len() - 3] == ':'
                &&& forall|i: int| 0 <= i < m.len() ==> is_digit(#[trigger] m[i])
                &&& numeral_value(m) == self.duration_secs / 60
                &&& m.len() > 1 ==> m[0] != '0'
                &&& is_digit(r@[r@.len() - 2]) && is_digit(r@[r@.len() - 1])
                &&& numeral_value(r@.skip(r@.len() - 2)) == self.duration_secs % 60
            }),
    {
        let m: u32 = self.duration_secs / 60;
        let s: u32 = self.duration_secs % 60;
        let mut out = String::new();
        push_decimal(&mut out, m);
        proof {
            reveal_strlit(":");
        }
        out.append(":");
        out.append(digit_str(s / 10));
        out.append(digit_str(s % 10));
        assert(s % 10 == self.duration_secs % 10);
        proof {
            lemma_duration_str_reads_back(self.duration_secs as nat);
        }
        out
    }
}

} // verus!
