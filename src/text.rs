use vstd::prelude::*;

use crate::number::{abs, Number};

verus! {

pub open spec fn digit_char(d: nat) -> char {
    if d == 0 { '0' } else if d == 1 { '1' } else if d == 2 { '2' } else if d == 3 { '3' }
    else if d == 4 { '4' } else if d == 5 { '5' } else if d == 6 { '6' } else if d == 7 { '7' }
    else if d == 8 { '8' } else { '9' }
}

/// The decimal digits of `n`, most significant first, without leading zeros.
pub open spec fn decimal(n: nat) -> Seq<char>
    decreases n,
{
    if n < 10 {
        seq![digit_char(n)]
    } else {
        decimal(n / 10).push(digit_char(n % 10))
    }
}

/// A whole number in decimal, with a leading `-` when negative.
pub open spec fn signed_decimal(n: int) -> Seq<char> {
    if n < 0 {
        seq!['-'] + decimal((-n) as nat)
    } else {
        decimal(n as nat)
    }
}

/// The digits after the point of `r / d` (for `r < d`), by long division,
/// when they end within `fuel` digits.
pub open spec fn fraction_digits(r: nat, d: nat, fuel: nat) -> Option<Seq<char>>
    decreases fuel,
{
    if r == 0 {
        Some(seq![])
    } else if fuel == 0 {
        None
    } else {
        match fraction_digits((r * 10) % d, d, (fuel - 1) as nat) {
            Some(rest) => Some(seq![digit_char((r * 10) / d)] + rest),
            None => None,
        }
    }
}

/// Enough digits for any denominator `2^a * 5^b` that fits in an `i64`.
pub open spec fn fraction_fuel() -> nat {
    64
}

/// A number as text: a whole number in decimal; a number with a finite
/// decimal expansion (every literal of the language) in decimal with a point,
/// such as `0.5` or `-1.25`; any other number as `num/den`.
pub open spec fn number_text(n: Number) -> Seq<char> {
    let a = abs(n.numer());
    let d = n.denom() as nat;
    let sign = if n.numer() < 0 {
        seq!['-']
    } else {
        seq![]
    };
    if d == 1 {
        signed_decimal(n.numer())
    } else {
        match fraction_digits(a % d, d, fraction_fuel()) {
            Some(f) => sign + decimal(a / d) + seq!['.'] + f,
            None => signed_decimal(n.numer()) + seq!['/'] + decimal(d),
        }
    }
}

pub open spec fn prepend(p: Seq<char>, o: Option<Seq<char>>) -> Option<Seq<char>> {
    match o {
        Some(x) => Some(p + x),
        None => None,
    }
}

/// The digits after the point of `r / d`, when they end within the fuel.
fn fraction_digits_text(r0: u64, d: u64) -> (res: Option<String>)
    requires
        0 < d,
        r0 < d,
    ensures
        match res {
            Some(s) => fraction_digits(r0 as nat, d as nat, fraction_fuel()) == Some(s@),
            None => fraction_digits(r0 as nat, d as nat, fraction_fuel()) is None,
        },
{
    let mut r: u64 = r0;
    let mut fuel: u64 = 64;
    let mut out = String::new();
    loop
        invariant
            0 < d,
            r < d,
            fuel <= 64,
            fraction_digits(r0 as nat, d as nat, fraction_fuel()) == prepend(
                out@,
                fraction_digits(r as nat, d as nat, fuel as nat),
            ),
        decreases fuel,
    {
        if r == 0 {
            assert(out@ + seq![] =~= out@);
            return Some(out);
        }
        if fuel == 0 {
            return None;
        }
        let t: u128 = (r as u128) * 10;
        let digit = t / (d as u128);
        let next = t % (d as u128);
        proof {
            let (rr, dd) = (r as int, d as int);
            assert(rr * 10 / dd < 10) by (nonlinear_arith)
                requires
                    0 <= rr < dd,
            ;
        }
        let ghost before = out@;
        out.append(digit_text(digit as u64));
        assert(before + (seq![digit_char(digit as nat)] + fraction_digits(
            next as nat,
            d as nat,
            (fuel - 1) as nat,
        )->Some_0) =~= out@ + fraction_digits(next as nat, d as nat, (fuel - 1) as nat)->Some_0);
        r = next as u64;
        fuel = fuel - 1;
    }
}

fn digit_text(d: u64) -> (r: &'static str)
    requires
        d < 10,
    ensures
        r@ == seq![digit_char(d as nat)],
{
    match d {
        0 => {
            proof {
                reveal_strlit("0");
            }
            "0"
        },
        1 => {
            proof {
                reveal_strlit("1");
            }
            "1"
        },
        2 => {
            proof {
                reveal_strlit("2");
            }
            "2"
        },
        3 => {
            proof {
                reveal_strlit("3");
            }
            "3"
        },
        4 => {
            proof {
                reveal_strlit("4");
            }
            "4"
        },
        5 => {
            proof {
                reveal_strlit("5");
            }
            "5"
        },
        6 => {
            proof {
                reveal_strlit("6");
            }
            "6"
        },
        7 => {
            proof {
                reveal_strlit("7");
            }
            "7"
        },
        8 => {
            proof {
                reveal_strlit("8");
            }
            "8"
        },
        _ => {
            proof {
                reveal_strlit("9");
            }
            "9"
        },
    }
}

pub fn decimal_text(n: u64) -> (r: String)
    ensures
        r@ == decimal(n as nat),
    decreases n,
{
    if n < 10 {
        String::from_str(digit_text(n))
    } else {
        let mut s = decimal_text(n / 10);
        s.append(digit_text(n % 10));
        s
    }
}

fn signed_decimal_text(n: i64) -> (r: String)
    requires
        n > i64::MIN,
    ensures
        r@ == signed_decimal(n as int),
{
    if n < 0 {
        let mut s = String::from_str("-");
        proof {
            reveal_strlit("-");
        }
        let d = decimal_text((-n) as u64);
        s.append(d.as_str());
        s
    } else {
        decimal_text(n as u64)
    }
}

pub fn number_to_text(n: &Number) -> (r: String)
    ensures
        r@ == number_text(*n),
{
    let num = n.numerator();
    let den = n.denominator();
    proof {
        use_type_invariant(n);
    }
    if den == 1 {
        return signed_decimal_text(num);
    }
    let a: u64 = if num < 0 {
        (-num) as u64
    } else {
        num as u64
    };
    let d = den as u64;
    match fraction_digits_text(a % d, d) {
        Some(f) => {
            let mut s = if num < 0 {
                proof {
                    reveal_strlit("-");
                }
                String::from_str("-")
            } else {
                proof {
                    reveal_strlit("");
                }
                String::from_str("")
            };
            let whole = decimal_text(a / d);
            s.append(whole.as_str());
            proof {
                reveal_strlit(".");
            }
            s.append(".");
            s.append(f.as_str());
            s
        },
        None => {
            let mut s = signed_decimal_text(num);
            proof {
                reveal_strlit("/");
            }
            s.append("/");
            let dt = decimal_text(d);
            s.append(dt.as_str());
            s
        },
    }
}

} // verus!
