//! Rendering integers as digit strings in a radix from 2 to 16.
//!
//! `nat_digit_seq` and `int_digit_seq` say, as mathematics, what the digit
//! string of an integer is; `format_bigint` computes it.

use vstd::prelude::*;

verus! {

use num::bigint::BigInt;

use crate::numbers::{bi_val, iabs};
use crate::numbers::{bigint_clone, bigint_div, bigint_from_u32, bigint_lt, bigint_rem,
    bigint_to_i64};

/// The character for one digit value `0..16`.
pub open spec fn digit_char(d: int, upper: bool) -> char {
    if d == 0 {
        '0'
    } else if d == 1 {
        '1'
    } else if d == 2 {
        '2'
    } else if d == 3 {
        '3'
    } else if d == 4 {
        '4'
    } else if d == 5 {
        '5'
    } else if d == 6 {
        '6'
    } else if d == 7 {
        '7'
    } else if d == 8 {
        '8'
    } else if d == 9 {
        '9'
    } else if d == 10 {
        if upper {
            'A'
        } else {
            'a'
        }
    } else if d == 11 {
        if upper {
            'B'
        } else {
            'b'
        }
    } else if d == 12 {
        if upper {
            'C'
        } else {
            'c'
        }
    } else if d == 13 {
        if upper {
            'D'
        } else {
            'd'
        }
    } else if d == 14 {
        if upper {
            'E'
        } else {
            'e'
        }
    } else if d == 15 {
        if upper {
            'F'
        } else {
            'f'
        }
    } else {
        '?'
    }
}

/// The digit string of a natural number in the given radix, most significant
/// digit first, with no leading zeros (and `"0"` for zero).
pub open spec fn nat_digit_seq(v: nat, radix: int, upper: bool) -> Seq<char>
    recommends
        2 <= radix <= 16,
    decreases v,
    via nat_digit_seq_decreases
{
    if radix < 2 {
        Seq::empty()
    } else if v < radix {
        seq![digit_char(v as int, upper)]
    } else {
        nat_digit_seq(v / (radix as nat), radix, upper).push(
            digit_char((v % (radix as nat)) as int, upper),
        )
    }
}

#[via_fn]
proof fn nat_digit_seq_decreases(v: nat, radix: int, upper: bool) {
    if radix >= 2 && v >= radix {
        vstd::arithmetic::div_mod::lemma_div_decreases(v as int, radix);
    }
}

/// The digit string of an integer: a `-` sign when negative, then the digits
/// of its absolute value.
pub open spec fn int_digit_seq(v: int, radix: int, upper: bool) -> Seq<char> {
    if v < 0 {
        seq!['-'] + nat_digit_seq(iabs(v), radix, upper)
    } else {
        nat_digit_seq(v as nat, radix, upper)
    }
}

/// A one-character string for one digit value.
pub fn digit_str(d: u8, upper: bool) -> (r: &'static str)
    requires
        d < 16,
    ensures
        r@ == seq![digit_char(d as int, upper)],
{
    proof {
        reveal_strlit("0");
        reveal_strlit("1");
        reveal_strlit("2");
        reveal_strlit("3");
        reveal_strlit("4");
        reveal_strlit("5");
        reveal_strlit("6");
        reveal_strlit("7");
        reveal_strlit("8");
        reveal_strlit("9");
        reveal_strlit("a");
        reveal_strlit("b");
        reveal_strlit("c");
        reveal_strlit("d");
        reveal_strlit("e");
        reveal_strlit("f");
        reveal_strlit("A");
        reveal_strlit("B");
        reveal_strlit("C");
        reveal_strlit("D");
        reveal_strlit("E");
        reveal_strlit("F");
    }
    if d == 0 {
        "0"
    } else if d == 1 {
        "1"
    } else if d == 2 {
        "2"
    } else if d == 3 {
        "3"
    } else if d == 4 {
        "4"
    } else if d == 5 {
        "5"
    } else if d == 6 {
        "6"
    } else if d == 7 {
        "7"
    } else if d == 8 {
        "8"
    } else if d == 9 {
        "9"
    } else if d == 10 {
        if upper {
            "A"
        } else {
            "a"
        }
    } else if d == 11 {
        if upper {
            "B"
        } else {
            "b"
        }
    } else if d == 12 {
        if upper {
            "C"
        } else {
            "c"
        }
    } else if d == 13 {
        if upper {
            "D"
        } else {
            "d"
        }
    } else if d == 14 {
        if upper {
            "E"
        } else {
            "e"
        }
    } else {
        if upper {
            "F"
        } else {
            "f"
        }
    }
}

/// The digit values of `v` (nonnegative), least significant first.
pub open spec fn digits_lsb_first(v: nat, radix: int) -> Seq<int>
    recommends
        2 <= radix <= 16,
    decreases v,
    via digits_lsb_first_decreases
{
    if radix < 2 {
        Seq::empty()
    } else if v < radix {
        seq![v as int]
    } else {
        seq![(v % (radix as nat)) as int] + digits_lsb_first(v / (radix as nat), radix)
    }
}

#[via_fn]
proof fn digits_lsb_first_decreases(v: nat, radix: int) {
    if radix >= 2 && v >= radix {
        vstd::arithmetic::div_mod::lemma_div_decreases(v as int, radix);
    }
}

pub proof fn lemma_digits_reverse(v: nat, radix: int, upper: bool)
    requires
        2 <= radix <= 16,
    ensures
        nat_digit_seq(v, radix, upper) == digits_lsb_first(v, radix).reverse().map_values(
            |d: int| digit_char(d, upper),
        ),
    decreases v,
{
    if v < radix {
        assert(digits_lsb_first(v, radix).reverse() =~= seq![v as int]);
        // recursion below is guarded by v >= radix

        assert(nat_digit_seq(v, radix, upper) =~= digits_lsb_first(v, radix).reverse().map_values(
            |d: int| digit_char(d, upper),
        ));
    } else {
        vstd::arithmetic::div_mod::lemma_div_decreases(v as int, radix);
        lemma_digits_reverse(v / (radix as nat), radix, upper);
        let tail = digits_lsb_first(v / (radix as nat), radix);
        let d0 = (v % (radix as nat)) as int;
        assert(digits_lsb_first(v, radix) =~= seq![d0] + tail);
        assert((seq![d0] + tail).reverse() =~= tail.reverse().push(d0));
        assert(nat_digit_seq(v, radix, upper) =~= digits_lsb_first(v, radix).reverse().map_values(
            |d: int| digit_char(d, upper),
        ));
    }
}


/// The digit values of a nonnegative integer, least significant first.
pub fn bigint_digits(v: &BigInt, radix: u8) -> (r: Vec<u8>)
    requires
        2 <= radix <= 16,
        bi_val(*v) >= 0,
    ensures
        r@.map_values(|d: u8| d as int) == digits_lsb_first(bi_val(*v) as nat, radix as int),
        forall|k: int| 0 <= k < r@.len() ==> #[trigger] r@[k] < radix,
        r@.len() >= 1,
{
    let big_radix = bigint_from_u32(radix as u32);
    let mut mag = bigint_clone(v);
    let ghost v0: nat = bi_val(*v) as nat;

    let mut digs: Vec<u8> = Vec::new();
    loop
        invariant
            2 <= radix <= 16,
            bi_val(mag) >= 0,
            bi_val(big_radix) == radix as int,
            forall|k: int| 0 <= k < digs@.len() ==> 0 <= #[trigger] digs@[k] < radix,
            digits_lsb_first(v0, radix as int) == if bi_val(mag) >= radix {
                digs@.map_values(|d: u8| d as int) + digits_lsb_first(
                    bi_val(mag) as nat,
                    radix as int,
                )
            } else {
                digs@.map_values(|d: u8| d as int).push(bi_val(mag))
            },
        ensures
            bi_val(mag) < radix,
            digits_lsb_first(v0, radix as int) == digs@.map_values(|d: u8| d as int).push(
                bi_val(mag),
            ),
        decreases bi_val(mag),
    {
        if !bigint_lt(&mag, &big_radix) {
            let d = bigint_rem(&mag, &big_radix);
            let q = bigint_div(&mag, &big_radix);
            proof {
                lemma_trunc_div_nonneg(bi_val(mag), radix as int);
            }
            let d_small = bigint_to_i64(&d).unwrap();
            let ghost olddigs = digs@;
            digs.push(d_small as u8);
            proof {
                assert(digs@.map_values(|d: u8| d as int) =~= olddigs.map_values(|d: u8| d as int)
                    + seq![bi_val(d)]);
                assert(digits_lsb_first(bi_val(mag) as nat, radix as int) =~= seq![bi_val(d)]
                    + digits_lsb_first(bi_val(q) as nat, radix as int));
                if bi_val(q) >= radix {
                    assert(digits_lsb_first(v0, radix as int) =~= digs@.map_values(
                        |d: u8| d as int,
                    ) + digits_lsb_first(bi_val(q) as nat, radix as int));
                } else {
                    assert(digits_lsb_first(bi_val(q) as nat, radix as int) =~= seq![bi_val(q)]);
                    assert(digits_lsb_first(v0, radix as int) =~= digs@.map_values(
                        |d: u8| d as int,
                    ).push(bi_val(q)));
                }
            }
            mag = q;
        } else {
            break;
        }
    }
    let last = bigint_to_i64(&mag).unwrap();
    let ghost olddigs = digs@;
    digs.push(last as u8);
    proof {
        assert(digs@.map_values(|d: u8| d as int) =~= olddigs.map_values(|d: u8| d as int).push(
            bi_val(mag),
        ));
    }
    digs
}

/// Renders `v` in the given radix: a minus sign when negative, then the
/// digits of the absolute value, uppercase letters when `upper` asks for them.
pub fn format_bigint(v: &BigInt, radix: u8, upper: bool) -> (r: String)
    requires
        2 <= radix <= 16,
    ensures
        r@ == int_digit_seq(bi_val(*v), radix as int, upper),
{
    let zero = bigint_from_u32(0);
    let negative = bigint_lt(v, &zero);
    let mag = if negative {
        crate::numbers::bigint_neg(v)
    } else {
        bigint_clone(v)
    };
    let ghost v0: nat = iabs(bi_val(*v));

    // Collect digit values of the magnitude, least significant first.
    let digs = bigint_digits(&mag, radix);

    // Build the string, most significant digit first.
    proof {
        reveal_strlit("");
        reveal_strlit("-");
    }
    let mut out = String::from_str("");
    if negative {
        out.append("-");
    }
    let ghost prefix: Seq<char> = if negative {
        seq!['-']
    } else {
        Seq::empty()
    };
    let ghost all_digits = digs@.map_values(|d: u8| d as int);
    proof {
        lemma_digits_reverse(v0, radix as int, upper);
        assert(out@ =~= prefix);
    }
    let mut i = digs.len();
    while i > 0
        invariant
            2 <= radix <= 16,
            i <= digs@.len(),
            forall|k: int| 0 <= k < digs@.len() ==> 0 <= #[trigger] digs@[k] < radix,
            all_digits == digs@.map_values(|d: u8| d as int),
            out@ == prefix + all_digits.subrange(i as int, all_digits.len() as int)
                .reverse().map_values(|d: int| digit_char(d, upper)),
        decreases i,
    {
        i = i - 1;
        let ghost oldout = out@;
        out.append(digit_str(digs[i], upper));
        proof {
            let sub_old = all_digits.subrange(i + 1, all_digits.len() as int);
            let sub_new = all_digits.subrange(i as int, all_digits.len() as int);
            assert(sub_new =~= seq![all_digits[i as int]] + sub_old);
            assert(sub_new.reverse() =~= sub_old.reverse().push(all_digits[i as int]));
            assert(out@ =~= prefix + sub_new.reverse().map_values(
                |d: int| digit_char(d, upper),
            ));
        }
    }
    proof {
        assert(all_digits.subrange(0, all_digits.len() as int) =~= all_digits);
        assert(out@ =~= int_digit_seq(bi_val(*v), radix as int, upper));
    }
    out
}

/// Truncating division of a nonnegative value by a positive one agrees with
/// the mathematical floor quotient.
pub proof fn lemma_trunc_div_nonneg(a: int, b: int)
    requires
        a >= 0,
        b > 0,
    ensures
        crate::numbers::trunc_div(a, b) == a / b,
        crate::numbers::trunc_rem(a, b) == a % b,
{
    assert(a == b * (a / b) + a % b) by {
        vstd::arithmetic::div_mod::lemma_fundamental_div_mod(a, b);
    }
}

} // verus!
