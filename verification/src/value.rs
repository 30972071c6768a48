use vstd::prelude::*;
use vstd::string::*;

verus! {

/// Deep copy whose result is proved equal to the source.
///
/// Derived `Clone` impls are opaque to the verifier, so the scalar types of
/// this crate implement this trait instead; the proved contract lets callers
/// keep reasoning about copies of values.
pub trait Dup: Sized {
    fn dup(&self) -> (r: Self)
        ensures
            r == *self,
    ;
}

/// The character of a single decimal digit.
pub open spec fn digit_char(d: nat) -> char {
    if d == 0 {
        '0'
    } else if d == 1 {
        '1'
    } else if d == 2 {
        '2'
    } else if d == 3 {
        '3'
    } else if d == 4 {
        '4'
    } else if d == 5 {
        '5'
    } else if d == 6 {
        '6'
    } else if d == 7 {
        '7'
    } else if d == 8 {
        '8'
    } else {
        '9'
    }
}

/// Decimal rendering of a natural number, most significant digit first.
pub open spec fn dec_nat(n: nat) -> Seq<char>
    decreases n,
{
    if n < 10 {
        seq![digit_char(n)]
    } else {
        dec_nat(n / 10).push(digit_char(n % 10))
    }
}

/// Decimal rendering of an integer, with a leading minus sign when negative.
pub open spec fn dec_int(n: int) -> Seq<char> {
    if n >= 0 {
        dec_nat(n as nat)
    } else {
        seq!['-'] + dec_nat((-n) as nat)
    }
}

fn digit_str(d: u64) -> (r: &'static str)
    requires
        d < 10,
    ensures
        r@ == seq![digit_char(d as nat)],
{
    if d == 0 {
        let s = "0";
        proof {
            reveal_strlit("0");
            assert(s@ =~= seq![digit_char(0nat)]);
        }
        s
    } else if d == 1 {
        let s = "1";
        proof {
            reveal_strlit("1");
            assert(s@ =~= seq![digit_char(1nat)]);
        }
        s
    } else if d == 2 {
        let s = "2";
        proof {
            reveal_strlit("2");
            assert(s@ =~= seq![digit_char(2nat)]);
        }
        s
    } else if d == 3 {
        let s = "3";
        proof {
            reveal_strlit("3");
            assert(s@ =~= seq![digit_char(3nat)]);
        }
        s
    } else if d == 4 {
        let s = "4";
        proof {
            reveal_strlit("4");
            assert(s@ =~= seq![digit_char(4nat)]);
        }
        s
    } else if d == 5 {
        let s = "5";
        proof {
            reveal_strlit("5");
            assert(s@ =~= seq![digit_char(5nat)]);
        }
        s
    } else if d == 6 {
        let s = "6";
        proof {
            reveal_strlit("6");
            assert(s@ =~= seq![digit_char(6nat)]);
        }
        s
    } else if d == 7 {
        let s = "7";
        proof {
            reveal_strlit("7");
            assert(s@ =~= seq![digit_char(7nat)]);
        }
        s
    } else if d == 8 {
        let s = "8";
        proof {
            reveal_strlit("8");
            assert(s@ =~= seq![digit_char(8nat)]);
        }
        s
    } else {
        let s = "9";
        proof {
            reveal_strlit("9");
            assert(s@ =~= seq![digit_char(9nat)]);
        }
        s
    }
}

/// Renders a 64-bit natural number in decimal.
pub fn u64_to_dec(n: u64) -> (r: String)
    ensures
        r@ == dec_nat(n as nat),
    decreases n,
{
    if n < 10 {
        digit_str(n).to_owned()
    } else {
        proof {
            assert(n / 10 < n) by (nonlinear_arith)
                requires
                    n >= 10,
            ;
        }
        let mut s = u64_to_dec(n / 10);
        s.append(digit_str(n % 10));
        proof {
            assert(dec_nat((n / 10) as nat) + seq![digit_char((n % 10) as nat)] =~= dec_nat(
                (n / 10) as nat,
            ).push(digit_char((n % 10) as nat)));
        }
        s
    }
}

/// Renders an index in decimal; used for the reserved per-switch local keys.
pub fn usize_to_dec(n: usize) -> (r: String)
    ensures
        r@ == dec_nat(n as nat),
{
    u64_to_dec(n as u64)
}

/// Renders a signed 64-bit number in decimal.
pub fn i64_to_dec(n: i64) -> (r: String)
    ensures
        r@ == dec_int(n as int),
{
    if n >= 0 {
        u64_to_dec(n as u64)
    } else {
        let wide: i128 = -(n as i128);
        let mag: u64 = wide as u64;
        let mut s = "-".to_owned();
        proof {
            reveal_strlit("-");
            assert("-"@ =~= seq!['-']);
        }
        let digits = u64_to_dec(mag);
        s.append(digits.as_str());
        s
    }
}

/// Relies on `String::from(char)` of std: the returned string holds exactly
/// the one given character. vstd gives this conversion no specification.
#[verifier::external_body]
pub fn char_to_string(c: char) -> (r: String)
    ensures
        r@ == seq![c],
{
    String::from(c)
}

/// A scalar value of the story script: the flat data carried by variables,
/// resources and custom-line properties.
#[derive(Debug, PartialEq, Eq)]
pub enum RawValue {
    Unit,
    Bool(bool),
    Num(i64),
    Str(String),
}

/// Boolean coercion of a scalar: unit is false, a number is true when
/// nonzero, a string is true when nonempty.
pub open spec fn truthy(v: RawValue) -> bool {
    match v {
        RawValue::Unit => false,
        RawValue::Bool(b) => b,
        RawValue::Num(n) => n != 0,
        RawValue::Str(s) => s@.len() != 0,
    }
}

/// String coercion of a scalar: unit is empty, a boolean spells itself out,
/// a number renders in decimal.
pub open spec fn str_of(v: RawValue) -> Seq<char> {
    match v {
        RawValue::Unit => Seq::empty(),
        RawValue::Bool(b) => if b {
            seq!['t', 'r', 'u', 'e']
        } else {
            seq!['f', 'a', 'l', 's', 'e']
        },
        RawValue::Num(n) => dec_int(n as int),
        RawValue::Str(s) => s@,
    }
}

impl RawValue {
    pub fn get_bool(&self) -> (b: bool)
        ensures
            b == truthy(*self),
    {
        match self {
            RawValue::Unit => false,
            RawValue::Bool(b) => *b,
            RawValue::Num(n) => *n != 0,
            RawValue::Str(s) => !s.as_str().is_empty(),
        }
    }

    pub fn get_str(&self) -> (r: String)
        ensures
            r@ == str_of(*self),
    {
        match self {
            RawValue::Unit => String::new(),
            RawValue::Bool(b) => {
                if *b {
                    let s = "true".to_owned();
                    proof {
                        reveal_strlit("true");
                        assert("true"@ =~= seq!['t', 'r', 'u', 'e']);
                    }
                    s
                } else {
                    let s = "false".to_owned();
                    proof {
                        reveal_strlit("false");
                        assert("false"@ =~= seq!['f', 'a', 'l', 's', 'e']);
                    }
                    s
                }
            },
            RawValue::Num(n) => i64_to_dec(*n),
            RawValue::Str(s) => s.clone(),
        }
    }
}

impl Dup for RawValue {
    fn dup(&self) -> (r: Self)
        ensures
            r == *self,
    {
        match self {
            RawValue::Unit => RawValue::Unit,
            RawValue::Bool(b) => RawValue::Bool(*b),
            RawValue::Num(n) => RawValue::Num(*n),
            RawValue::Str(s) => RawValue::Str(s.clone()),
        }
    }
}

} // verus!
