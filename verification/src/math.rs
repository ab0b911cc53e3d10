use vstd::prelude::*;
use vstd::string::*;

verus! {

/// A 64-bit identifier carried as two signed 32-bit halves.
///
/// The all-zero value stands for "no identity yet".
#[derive(PartialEq, Eq, Structural, Clone, Copy, Debug)]
pub struct LogicLong {
    pub higher_int: i32,
    pub lower_int: i32,
}

impl LogicLong {
    pub fn new(higher_int: i32, lower_int: i32) -> (r: Self)
        ensures
            r.higher_int == higher_int,
            r.lower_int == lower_int,
    {
        Self { higher_int, lower_int }
    }

    /// Whether both halves are zero.
    pub open spec fn spec_is_zero(&self) -> bool {
        self.higher_int == 0 && self.lower_int == 0
    }

    #[verifier::when_used_as_spec(spec_is_zero)]
    pub fn is_zero(&self) -> (r: bool)
        ensures
            r == self.spec_is_zero(),
    {
        self.higher_int == 0 && self.lower_int == 0
    }
}

/// The text of one decimal digit.
pub open spec fn digit_text(d: nat) -> Seq<char> {
    if d == 0 {
        "0"@
    } else if d == 1 {
        "1"@
    } else if d == 2 {
        "2"@
    } else if d == 3 {
        "3"@
    } else if d == 4 {
        "4"@
    } else if d == 5 {
        "5"@
    } else if d == 6 {
        "6"@
    } else if d == 7 {
        "7"@
    } else if d == 8 {
        "8"@
    } else {
        "9"@
    }
}

/// The decimal text of a number, without leading zeros.
pub open spec fn decimal(n: nat) -> Seq<char>
    decreases n,
{
    if n < 10 {
        digit_text(n)
    } else {
        decimal(n / 10) + digit_text(n % 10)
    }
}

/// The text of one decimal digit.
pub fn digit_str(d: usize) -> (r: &'static str)
    requires
        d < 10,
    ensures
        r@ == digit_text(d as nat),
{
    if d == 0 {
        "0"
    } else if d == 1 {
        "1"
    } else if d == 2 {
        "2"
    } else if d == 3 {
        "3"
    } else if d == 4 {
        "4"
    } else if d == 5 {
        "5"
    } else if d == 6 {
        "6"
    } else if d == 7 {
        "7"
    } else if d == 8 {
        "8"
    } else {
        "9"
    }
}

/// The decimal text of a number.
pub fn decimal_string(n: usize) -> (r: String)
    ensures
        r@ == decimal(n as nat),
    decreases n,
{
    if n < 10 {
        String::from_str(digit_str(n))
    } else {
        let mut text = decimal_string(n / 10);
        text.append(digit_str(n % 10));
        text
    }
}

/// The decimal text of a number that may be negative.
pub open spec fn signed_decimal(v: int) -> Seq<char> {
    if v < 0 {
        "-"@ + decimal((-v) as nat)
    } else {
        decimal(v as nat)
    }
}

/// The decimal text of a number that may be negative.
pub fn signed_decimal_string(v: i32) -> (r: String)
    ensures
        r@ == signed_decimal(v as int),
{
    if v < 0 {
        let size: usize = (-(v as i64)) as usize;
        let mut text = String::from_str("-");
        let digits = decimal_string(size);
        text.append(digits.as_str());
        text
    } else {
        decimal_string(v as usize)
    }
}

/// An identifier as text: `LogicLong(`, the higher half, a comma, the lower
/// half, `)`.
pub open spec fn long_text(v: LogicLong) -> Seq<char> {
    "LogicLong("@ + signed_decimal(v.higher_int as int) + ","@ + signed_decimal(v.lower_int as int)
        + ")"@
}

impl LogicLong {
    /// The identifier as text.
    pub fn to_string(&self) -> (r: String)
        ensures
            r@ == long_text(*self),
    {
        let mut text = String::from_str("LogicLong(");
        let higher = signed_decimal_string(self.higher_int);
        text.append(higher.as_str());
        text.append(",");
        let lower = signed_decimal_string(self.lower_int);
        text.append(lower.as_str());
        text.append(")");
        text
    }
}

} // verus!
