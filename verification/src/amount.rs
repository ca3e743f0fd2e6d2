//! Amounts as fixed-point values.
//!
//! An amount is held in cents: a signed quantity scaled by one hundred, which
//! carries exactly the two decimal places the ledger prints. Parsing accepts
//! an optional sign, at least one integer digit, and an optional fraction of
//! one or two digits; anything else — in particular a non-numeric cell — is
//! rejected, and the decoder turns that rejection into a hard failure.

use vstd::math::abs;
use vstd::prelude::*;
use vstd::string::{StrSliceExecFns, StringExecFns};

use crate::digits::{spec_digits, spec_pad2, u64_pad2, u64_to_decimal};

verus! {

/// True of a decimal digit character.
pub open spec fn is_digit(c: char) -> bool {
    48 <= c as int <= 57
}

/// The value of a decimal digit character.
pub open spec fn digit_val(c: char) -> int {
    c as int - 48
}

/// True where every character of `s` is a decimal digit.
pub open spec fn all_digits(s: Seq<char>) -> bool {
    forall|k: int| 0 <= k < s.len() ==> is_digit(#[trigger] s[k])
}

/// The value of a digit sequence read in base ten.
pub open spec fn digits_val(s: Seq<char>) -> int
    decreases s.len(),
{
    if s.len() == 0 {
        0
    } else {
        10 * digits_val(s.drop_last()) + digit_val(s.last())
    }
}

/// The index of the first `'.'` in `s`, if any.
pub open spec fn first_dot(s: Seq<char>) -> Option<int>
    decreases s.len(),
{
    if s.len() == 0 {
        None
    } else if s[0] == '.' {
        Some(0)
    } else {
        match first_dot(s.drop_first()) {
            Some(i) => Some(i + 1),
            None => None,
        }
    }
}

/// The cent value of a fraction part: one digit counts as tens of cents, two
/// digits count as cents. Any other shape is rejected.
pub open spec fn frac_cents(s: Seq<char>) -> Option<int> {
    if s.len() == 1 && is_digit(s[0]) {
        Some(10 * digit_val(s[0]))
    } else if s.len() == 2 && is_digit(s[0]) && is_digit(s[1]) {
        Some(10 * digit_val(s[0]) + digit_val(s[1]))
    } else {
        None
    }
}

/// The cent value of an unsigned amount: digits, optionally followed by a
/// dot and a one- or two-digit fraction.
pub open spec fn unsigned_cents(s: Seq<char>) -> Option<int> {
    match first_dot(s) {
        None => if s.len() >= 1 && all_digits(s) {
            Some(100 * digits_val(s))
        } else {
            None
        },
        Some(i) => {
            let ip = s.take(i);
            let fp = s.skip(i + 1);
            if i >= 1 && all_digits(ip) && frac_cents(fp) is Some {
                Some(100 * digits_val(ip) + frac_cents(fp)->Some_0)
            } else {
                None
            }
        },
    }
}

/// The cent value of an amount: an optional leading sign before an unsigned
/// amount.
pub open spec fn spec_parse_amount(s: Seq<char>) -> Option<int> {
    if s.len() >= 1 && (s[0] == '+' || s[0] == '-') {
        match unsigned_cents(s.drop_first()) {
            Some(v) => Some(
                if s[0] == '-' {
                    -v
                } else {
                    v
                },
            ),
            None => None,
        }
    } else {
        unsigned_cents(s)
    }
}

/// What [`parse_amount`] returns: the parsed cent value, where the text is a
/// well-formed amount whose magnitude a machine word carries.
pub open spec fn spec_parse_amount_i64(s: Seq<char>) -> Option<i64> {
    match spec_parse_amount(s) {
        Some(v) => if -(i64::MAX as int) <= v <= i64::MAX as int {
            Some(v as i64)
        } else {
            None
        },
        None => None,
    }
}

/// A digit sequence never has a negative value.
pub proof fn lemma_digits_val_nonneg(s: Seq<char>)
    requires
        all_digits(s),
    ensures
        digits_val(s) >= 0,
    decreases s.len(),
{
    if s.len() > 0 {
        assert(all_digits(s.drop_last()));
        lemma_digits_val_nonneg(s.drop_last());
    }
}

/// Reading more digits never shrinks the value.
pub proof fn lemma_digits_val_take_le(s: Seq<char>, k: int)
    requires
        all_digits(s),
        0 <= k <= s.len(),
    ensures
        digits_val(s.take(k)) <= digits_val(s),
    decreases s.len() - k,
{
    if k == s.len() {
        assert(s.take(k) =~= s);
    } else {
        assert(s.take(k + 1).drop_last() =~= s.take(k));
        assert(all_digits(s.take(k)));
        lemma_digits_val_nonneg(s.take(k));
        assert(digits_val(s.take(k + 1)) == 10 * digits_val(s.take(k)) + digit_val(s[k]));
        lemma_digits_val_take_le(s, k + 1);
    }
}

/// Where the first `n` characters of `s` are no dots, the first dot — if any
/// — sits at or past `n`; and the reported position always holds a dot with
/// none before it.
pub proof fn lemma_first_dot_from(s: Seq<char>, n: int)
    requires
        0 <= n <= s.len(),
        forall|k: int| 0 <= k < n ==> #[trigger] s[k] != '.',
    ensures
        match first_dot(s) {
            Some(i) => n <= i < s.len() && s[i] == '.' && (forall|k: int|
                0 <= k < i ==> #[trigger] s[k] != '.'),
            None => forall|k: int| 0 <= k < s.len() ==> #[trigger] s[k] != '.',
        },
    decreases s.len(),
{
    if s.len() > 0 {
        if s[0] == '.' {
        } else {
            let t = s.drop_first();
            let m = if n == 0 {
                0
            } else {
                n - 1
            };
            assert(forall|k: int| 0 <= k < m ==> #[trigger] t[k] != '.');
            lemma_first_dot_from(t, m);
            assert(forall|k: int| 1 <= k < s.len() ==> s[k] == t[k - 1]);
        }
    }
}

/// Reads a non-empty all-digit string in base ten; `None` means the value
/// does not fit the accumulator.
fn parse_digits(d: &str) -> (r: Option<u64>)
    requires
        d@.len() >= 1,
        all_digits(d@),
    ensures
        match r {
            Some(v) => v as int == digits_val(d@),
            None => digits_val(d@) > u64::MAX as int,
        },
{
    let len = d.unicode_len();
    let mut acc: u64 = 0;
    let mut j: usize = 0;
    while j < len
        invariant
            j <= len,
            len == d@.len(),
            all_digits(d@),
            acc as int == digits_val(d@.take(j as int)),
        decreases len - j,
    {
        let c = d.get_char(j);
        let dv = ((c as u32) - 48) as u64;
        proof {
            assert(is_digit(d@[j as int]));
            assert(d@.take(j as int + 1).drop_last() =~= d@.take(j as int));
        }
        let stepped = match acc.checked_mul(10) {
            Some(a) => a.checked_add(dv),
            None => None,
        };
        match stepped {
            Some(b) => {
                acc = b;
            },
            None => {
                proof {
                    assert(digits_val(d@.take(j as int + 1)) > u64::MAX as int);
                    lemma_digits_val_take_le(d@, j as int + 1);
                }
                return None;
            },
        }
        j += 1;
    }
    proof {
        assert(d@.take(len as int) =~= d@);
    }
    Some(acc)
}

/// Reads an unsigned amount into cents; `None` covers both malformed text
/// and a magnitude beyond what the machine word carries.
fn parse_unsigned_cents(u: &str) -> (r: Option<u64>)
    ensures
        match r {
            Some(v) => unsigned_cents(u@) == Some(v as int),
            None => unsigned_cents(u@) is None || (unsigned_cents(u@) matches Some(w) && w
                > i64::MAX as int),
        },
{
    let len = u.unicode_len();
    let mut dot: Option<usize> = None;
    let mut j: usize = 0;
    while j < len
        invariant
            j <= len,
            len == u@.len(),
            match dot {
                None => forall|k: int| 0 <= k < j ==> is_digit(#[trigger] u@[k]),
                Some(i) => i < j && u@[i as int] == '.' && (forall|k: int|
                    0 <= k < i ==> is_digit(#[trigger] u@[k])) && (forall|k: int|
                    i < k < j ==> is_digit(#[trigger] u@[k])),
            },
        decreases len - j,
    {
        let c = u.get_char(j);
        let cu = c as u32;
        if c == '.' {
            if dot.is_some() {
                // A second dot sits inside the fraction part, which no
                // fraction shape admits.
                proof {
                    let i = dot->Some_0 as int;
                    assert(forall|k: int| 0 <= k < i ==> u@[k] != '.');
                    lemma_first_dot_from(u@, 0);
                    assert(first_dot(u@) == Some(i));
                    assert(u@.skip(i + 1)[j - i - 1] == '.');
                    assert(frac_cents(u@.skip(i + 1)) is None);
                }
                return None;
            }
            dot = Some(j);
        } else if 48 <= cu && cu <= 57 {
            proof {
                assert(is_digit(u@[j as int]));
            }
        } else {
            // A character that is neither digit nor dot invalidates whichever
            // part it sits in.
            proof {
                assert(u@[j as int] != '.');
                match dot {
                    None => {
                        lemma_first_dot_from(u@, j as int + 1);
                        match first_dot(u@) {
                            Some(i) => {
                                assert(u@.take(i)[j as int] == u@[j as int]);
                                assert(!all_digits(u@.take(i)));
                            },
                            None => {
                                assert(!all_digits(u@));
                            },
                        }
                    },
                    Some(i) => {
                        assert(forall|k: int| 0 <= k < i ==> u@[k] != '.');
                        lemma_first_dot_from(u@, 0);
                        assert(first_dot(u@) == Some(i as int));
                        assert(u@.skip(i as int + 1)[j - i - 1] == u@[j as int]);
                        assert(frac_cents(u@.skip(i as int + 1)) is None);
                    },
                }
            }
            return None;
        }
        j += 1;
    }
    // The scan saw only digits and at most one dot.
    proof {
        match dot {
            None => {
                lemma_first_dot_from(u@, len as int);
                assert(first_dot(u@) is None);
            },
            Some(i) => {
                assert(forall|k: int| 0 <= k < i ==> u@[k] != '.');
                lemma_first_dot_from(u@, 0);
                assert(first_dot(u@) == Some(i as int));
            },
        }
    }
    let ip_end = match dot {
        Some(i) => i,
        None => len,
    };
    if ip_end == 0 {
        // No integer digit at all: an empty string or a leading dot.
        return None;
    }
    let ip = u.substring_char(0, ip_end);
    proof {
        assert(all_digits(ip@));
    }
    let iv = match parse_digits(ip) {
        Some(v) => v,
        None => {
            // The integer part alone overflows the accumulator, so the cent
            // value is far beyond the machine word.
            proof {
                match dot {
                    None => {
                        assert(u@.take(len as int) =~= u@);
                        lemma_digits_val_nonneg(u@);
                    },
                    Some(i) => {
                        match frac_cents(u@.skip(i as int + 1)) {
                            Some(f) => {
                                assert(f >= 0);
                            },
                            None => {},
                        }
                    },
                }
            }
            return None;
        },
    };
    let fv: u64 = match dot {
        None => {
            proof {
                assert(u@.take(len as int) =~= u@);
            }
            0
        },
        Some(i) => {
            let frac_len = len - i - 1;
            if frac_len == 1 {
                let c1 = u.get_char(i + 1);
                let cu1 = c1 as u32;
                proof {
                    assert(u@.skip(i as int + 1).len() == 1);
                    assert(u@.skip(i as int + 1)[0] == u@[i as int + 1]);
                    assert(is_digit(u@[i as int + 1]));
                }
                ((cu1 - 48) as u64) * 10
            } else if frac_len == 2 {
                let c1 = u.get_char(i + 1);
                let c2 = u.get_char(i + 2);
                proof {
                    assert(u@.skip(i as int + 1).len() == 2);
                    assert(u@.skip(i as int + 1)[0] == u@[i as int + 1]);
                    assert(u@.skip(i as int + 1)[1] == u@[i as int + 2]);
                    assert(is_digit(u@[i as int + 1]));
                    assert(is_digit(u@[i as int + 2]));
                }
                ((c1 as u32 - 48) as u64) * 10 + ((c2 as u32 - 48) as u64)
            } else {
                // Zero or more than two fraction digits: no fraction shape
                // admits it.
                proof {
                    assert(u@.skip(i as int + 1).len() == frac_len as int);
                    assert(frac_cents(u@.skip(i as int + 1)) is None);
                }
                return None;
            }
        },
    };
    let cents = match iv.checked_mul(100) {
        Some(a) => match a.checked_add(fv) {
            Some(b) => b,
            None => {
                return None;
            },
        },
        None => {
            return None;
        },
    };
    Some(cents)
}

/// Parses an amount written in decimal text into cents.
///
/// Returns the exact cent value for a well-formed amount whose magnitude
/// fits the machine word, and `None` for anything else.
pub fn parse_amount(s: &str) -> (r: Option<i64>)
    ensures
        r == spec_parse_amount_i64(s@),
{
    let len = s.unicode_len();
    let mut neg = false;
    let mut start: usize = 0;
    if len > 0 {
        let c0 = s.get_char(0);
        if c0 == '+' || c0 == '-' {
            start = 1;
            neg = c0 == '-';
        }
    }
    let u = s.substring_char(start, len);
    proof {
        if start == 1 {
            assert(u@ =~= s@.drop_first());
        } else {
            assert(u@ =~= s@);
        }
    }
    match parse_unsigned_cents(u) {
        Some(v) => {
            if v <= i64::MAX as u64 {
                let m = v as i64;
                Some(
                    if neg {
                        -m
                    } else {
                        m
                    },
                )
            } else {
                None
            }
        },
        None => None,
    }
}

/// The ledger rendering of a cent value: an optional minus sign, the whole
/// units with no leading zeros, a dot, and exactly two fraction digits.
pub open spec fn spec_format_amount(c: int) -> Seq<char> {
    let sign: Seq<char> = if c < 0 {
        seq!['-']
    } else {
        Seq::empty()
    };
    sign + spec_digits((abs(c) / 100) as nat) + seq!['.'] + spec_pad2((abs(c) % 100) as nat)
}

/// Renders a cent value with two fixed decimal places.
pub fn format_amount(c: i64) -> (r: String)
    ensures
        r@ == spec_format_amount(c as int),
{
    let mag: u64 = if c < 0 {
        if c == i64::MIN {
            9223372036854775808u64
        } else {
            (-c) as u64
        }
    } else {
        c as u64
    };
    proof {
        assert(mag as int == abs(c as int));
        reveal_strlit("-");
        reveal_strlit("");
        reveal_strlit(".");
    }
    let mut s = if c < 0 {
        String::from_str("-")
    } else {
        String::from_str("")
    };
    let whole = u64_to_decimal(mag / 100);
    s.append(whole.as_str());
    s.append(".");
    let frac = u64_pad2(mag % 100);
    s.append(frac.as_str());
    proof {
        assert("-"@ =~= seq!['-']);
        assert(""@ =~= Seq::<char>::empty());
        assert("."@ =~= seq!['.']);
        assert(s@ =~= spec_format_amount(c as int));
    }
    s
}

} // verus!
