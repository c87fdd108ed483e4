//! Fixed-point numbers with two fractional digits, and their decimal text.
use vstd::prelude::*;

verus! {

/// A decimal number with two fractional digits, held as a count of hundredths.
///
/// `Fixed { hundredths: 250 }` is the number 2.5.
#[derive(Clone, Copy, Debug, PartialEq, Eq, Structural)]
pub struct Fixed {
    pub hundredths: i32,
}

/// The smallest whole number that a [`Fixed`] can hold.
pub const FIXED_WHOLE_MIN: i32 = -21474836;

/// The largest whole number that a [`Fixed`] can hold.
pub const FIXED_WHOLE_MAX: i32 = 21474836;

impl Fixed {
    /// The number as a count of hundredths.
    pub open spec fn value(self) -> int {
        self.hundredths as int
    }

    pub fn from_hundredths(hundredths: i32) -> (r: Fixed)
        ensures
            r.value() == hundredths,
    {
        Fixed { hundredths }
    }

    /// The whole number `n`.
    pub fn whole(n: i32) -> (r: Fixed)
        requires
            FIXED_WHOLE_MIN <= n <= FIXED_WHOLE_MAX,
        ensures
            r.value() == n * 100,
    {
        Fixed { hundredths: n * 100 }
    }

    pub fn zero() -> (r: Fixed)
        ensures
            r.value() == 0,
    {
        Fixed { hundredths: 0 }
    }

    pub fn one() -> (r: Fixed)
        ensures
            r.value() == 100,
    {
        Fixed { hundredths: 100 }
    }

    /// The smaller of the two numbers.
    pub fn min(self, other: Fixed) -> (r: Fixed)
        ensures
            r.value() == min_int(self.value(), other.value()),
    {
        if other.hundredths < self.hundredths {
            other
        } else {
            self
        }
    }

    /// The larger of the two numbers.
    pub fn max(self, other: Fixed) -> (r: Fixed)
        ensures
            r.value() == max_int(self.value(), other.value()),
    {
        if other.hundredths > self.hundredths {
            other
        } else {
            self
        }
    }

    /// The number as its shortest decimal text: `5`, `2.5`, `-0.25`.
    pub fn to_text(self) -> (r: String)
        ensures
            r@ == hundredths_text(self.value()),
    {
        let mut out = String::new();
        push_hundredths(&mut out, self.hundredths as i64);
        out
    }
}

pub open spec fn min_int(a: int, b: int) -> int {
    if a <= b {
        a
    } else {
        b
    }
}

pub open spec fn max_int(a: int, b: int) -> int {
    if a >= b {
        a
    } else {
        b
    }
}

pub open spec fn digit_char(d: nat) -> char {
    seq!['0', '1', '2', '3', '4', '5', '6', '7', '8', '9'][d as int]
}

/// The decimal digits of `n`, without leading zeros.
pub open spec fn nat_text(n: nat) -> Seq<char>
    decreases n,
{
    if n < 10 {
        seq![digit_char(n)]
    } else {
        nat_text(n / 10) + seq![digit_char(n % 10)]
    }
}

/// The decimal text of an integer, with a leading `-` when it is negative.
pub open spec fn int_text(v: int) -> Seq<char> {
    if v < 0 {
        seq!['-'] + nat_text((-v) as nat)
    } else {
        nat_text(v as nat)
    }
}

pub open spec fn sign_text(v: int) -> Seq<char> {
    if v < 0 {
        seq!['-']
    } else {
        Seq::empty()
    }
}

pub open spec fn abs_int(v: int) -> nat {
    if v < 0 {
        (-v) as nat
    } else {
        v as nat
    }
}

/// The shortest decimal text of the number `v / 100`: trailing fractional zeros and
/// a bare point are left out.
pub open spec fn hundredths_text(v: int) -> Seq<char> {
    let a = abs_int(v);
    let frac = a % 100;
    sign_text(v) + nat_text(a / 100) + if frac == 0 {
        Seq::empty()
    } else if frac % 10 == 0 {
        seq!['.', digit_char(frac / 10)]
    } else {
        seq!['.', digit_char(frac / 10), digit_char(frac % 10)]
    }
}

/// The decimal text of the number `v / 100` with exactly two fractional digits.
pub open spec fn two_places_text(v: int) -> Seq<char> {
    let a = abs_int(v);
    sign_text(v) + nat_text(a / 100) + seq!['.', digit_char((a % 100) / 10), digit_char(a % 10)]
}

fn digit_str(d: u64) -> (s: &'static str)
    requires
        d < 10,
    ensures
        s@ == seq![digit_char(d as nat)],
{
    proof {
        reveal_strlit("0");
        reveal_strlit("1");
        reveal_strlit("2");
        reveal_strlit("3");
        reveal_strlit("4");
        reveal_strlit("5");
        reveal_strlit("6");
        reveal_strlit("7");
        reveal_strlit("8");
        reveal_strlit("9");
    }
    if d == 0 {
        "0"
    } else if d == 1 {
        "1"
    } else if d == 2 {
        "2"
    } else if d == 3 {
        "3"
    } else if d == 4 {
        "4"
    } else if d == 5 {
        "5"
    } else if d == 6 {
        "6"
    } else if d == 7 {
        "7"
    } else if d == 8 {
        "8"
    } else {
        "9"
    }
}

/// Appends the decimal digits of `n`.
pub fn push_nat(out: &mut String, n: u64)
    ensures
        final(out)@ == old(out)@ + nat_text(n as nat),
    decreases n,
{
    if n >= 10 {
        push_nat(out, n / 10);
        out.append(digit_str(n % 10));
        assert(final(out)@ =~= old(out)@ + nat_text(n as nat));
    } else {
        out.append(digit_str(n));
    }
}

fn push_sign(out: &mut String, v: i64) -> (a: u64)
    ensures
        final(out)@ == old(out)@ + sign_text(v as int),
        a == abs_int(v as int),
{
    if v < 0 {
        proof {
            reveal_strlit("-");
        }
        out.append("-");
        ((-(v + 1)) as u64) + 1
    } else {
        assert(final(out)@ =~= old(out)@ + sign_text(v as int));
        v as u64
    }
}

/// Appends the shortest decimal text of `v / 100`.
pub fn push_hundredths(out: &mut String, v: i64)
    ensures
        final(out)@ == old(out)@ + hundredths_text(v as int),
{
    let ghost start = out@;
    let a = push_sign(out, v);
    push_nat(out, a / 100);
    let frac = a % 100;
    proof {
        reveal_strlit(".");
    }
    if frac != 0 {
        out.append(".");
        out.append(digit_str(frac / 10));
        if frac % 10 != 0 {
            out.append(digit_str(frac % 10));
        }
    }
    assert(out@ =~= start + hundredths_text(v as int));
}

/// Appends the decimal text of `v / 100` with exactly two fractional digits.
pub fn push_two_places(out: &mut String, v: i64)
    ensures
        final(out)@ == old(out)@ + two_places_text(v as int),
{
    let ghost start = out@;
    let a = push_sign(out, v);
    push_nat(out, a / 100);
    proof {
        reveal_strlit(".");
    }
    out.append(".");
    out.append(digit_str((a % 100) / 10));
    out.append(digit_str(a % 10));
    assert(out@ =~= start + two_places_text(v as int));
}

} // verus!
