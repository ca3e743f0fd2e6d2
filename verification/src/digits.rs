//! Decimal rendering of unsigned numbers, digit by digit.
//!
//! The ledger output needs exact decimal text for dates (zero-padded fields)
//! and amounts; these are the shared building blocks.

use vstd::prelude::*;
use vstd::string::StringExecFns;

verus! {

/// The decimal digit character for a value below ten.
pub open spec fn spec_digit_char(d: nat) -> char {
    if d == 0 {
        '0'
    } else if d == 1 {
        '1'
    } else if d == 2 {
        '2'
    } else if d == 3 {
        '3'
    } else if d == 4 {
        '4'
    } else if d == 5 {
        '5'
    } else if d == 6 {
        '6'
    } else if d == 7 {
        '7'
    } else if d == 8 {
        '8'
    } else {
        '9'
    }
}

/// The decimal digit sequence of `n`, most significant digit first, with no
/// leading zeros (a lone zero for `n == 0`).
pub open spec fn spec_digits(n: nat) -> Seq<char>
    decreases n,
{
    if n < 10 {
        seq![spec_digit_char(n)]
    } else {
        spec_digits(n / 10).push(spec_digit_char(n % 10))
    }
}

/// `n` in decimal, zero-padded on the left to at least two digits.
pub open spec fn spec_pad2(n: nat) -> Seq<char> {
    if n < 10 {
        seq!['0'] + spec_digits(n)
    } else {
        spec_digits(n)
    }
}

/// `n` in decimal, zero-padded on the left to at least four digits.
pub open spec fn spec_pad4(n: nat) -> Seq<char> {
    if n < 10 {
        seq!['0', '0', '0'] + spec_digits(n)
    } else if n < 100 {
        seq!['0', '0'] + spec_digits(n)
    } else if n < 1000 {
        seq!['0'] + spec_digits(n)
    } else {
        spec_digits(n)
    }
}

/// The one-character string of a single decimal digit.
pub fn digit_str(d: u64) -> (r: &'static str)
    requires
        d < 10,
    ensures
        r@ == seq![spec_digit_char(d as nat)],
{
    if d == 0 {
        proof {
            reveal_strlit("0");
            assert("0"@ =~= seq![spec_digit_char(d as nat)]);
        }
        "0"
    } else if d == 1 {
        proof {
            reveal_strlit("1");
            assert("1"@ =~= seq![spec_digit_char(d as nat)]);
        }
        "1"
    } else if d == 2 {
        proof {
            reveal_strlit("2");
            assert("2"@ =~= seq![spec_digit_char(d as nat)]);
        }
        "2"
    } else if d == 3 {
        proof {
            reveal_strlit("3");
            assert("3"@ =~= seq![spec_digit_char(d as nat)]);
        }
        "3"
    } else if d == 4 {
        proof {
            reveal_strlit("4");
            assert("4"@ =~= seq![spec_digit_char(d as nat)]);
        }
        "4"
    } else if d == 5 {
        proof {
            reveal_strlit("5");
            assert("5"@ =~= seq![spec_digit_char(d as nat)]);
        }
        "5"
    } else if d == 6 {
        proof {
            reveal_strlit("6");
            assert("6"@ =~= seq![spec_digit_char(d as nat)]);
        }
        "6"
    } else if d == 7 {
        proof {
            reveal_strlit("7");
            assert("7"@ =~= seq![spec_digit_char(d as nat)]);
        }
        "7"
    } else if d == 8 {
        proof {
            reveal_strlit("8");
            assert("8"@ =~= seq![spec_digit_char(d as nat)]);
        }
        "8"
    } else {
        proof {
            reveal_strlit("9");
            assert("9"@ =~= seq![spec_digit_char(d as nat)]);
        }
        "9"
    }
}

/// Renders `n` in decimal with no leading zeros.
pub fn u64_to_decimal(n: u64) -> (r: String)
    ensures
        r@ == spec_digits(n as nat),
    decreases n,
{
    if n < 10 {
        let r = String::from_str(digit_str(n));
        proof {
            assert(r@ =~= spec_digits(n as nat));
        }
        r
    } else {
        let mut s = u64_to_decimal(n / 10);
        s.append(digit_str(n % 10));
        proof {
            assert(s@ =~= spec_digits(n as nat));
        }
        s
    }
}

/// Renders `n` in decimal, zero-padded to at least two digits.
pub fn u64_pad2(n: u64) -> (r: String)
    ensures
        r@ == spec_pad2(n as nat),
{
    if n < 10 {
        proof {
            reveal_strlit("0");
        }
        let mut s = String::from_str("0");
        s.append(digit_str(n));
        proof {
            assert("0"@ =~= seq!['0']);
            assert(s@ =~= spec_pad2(n as nat));
        }
        s
    } else {
        u64_to_decimal(n)
    }
}

/// Renders `n` in decimal, zero-padded to at least four digits.
pub fn u64_pad4(n: u64) -> (r: String)
    ensures
        r@ == spec_pad4(n as nat),
{
    if n < 10 {
        proof {
            reveal_strlit("000");
        }
        let mut s = String::from_str("000");
        s.append(digit_str(n));
        proof {
            assert("000"@ =~= seq!['0', '0', '0']);
            assert(s@ =~= spec_pad4(n as nat));
        }
        s
    } else if n < 100 {
        proof {
            reveal_strlit("00");
        }
        let mut s = String::from_str("00");
        let t = u64_to_decimal(n);
        s.append(t.as_str());
        proof {
            assert("00"@ =~= seq!['0', '0']);
            assert(s@ =~= spec_pad4(n as nat));
        }
        s
    } else if n < 1000 {
        proof {
            reveal_strlit("0");
        }
        let mut s = String::from_str("0");
        let t = u64_to_decimal(n);
        s.append(t.as_str());
        proof {
            assert("0"@ =~= seq!['0']);
            assert(s@ =~= spec_pad4(n as nat));
        }
        s
    } else {
        u64_to_decimal(n)
    }
}

} // verus!
