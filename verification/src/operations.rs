//! The numeric routines: radix-aware decimal rendering and exact rational
//! exponentiation.
//!
//! `spec_render` states exactly what string `make_decimal_string` produces.

use vstd::prelude::*;

verus! {

use vstd::arithmetic::power::pow;

use num::bigint::BigInt;

use crate::digits::{bigint_digits, digit_char, digit_str, digits_lsb_first, lemma_digits_reverse,
    lemma_trunc_div_nonneg, nat_digit_seq};
use crate::errors::MathExecutionError;
use num::rational::BigRational;

use crate::numbers::{bi_val, bigint_abs, bigint_add, bigint_div, bigint_eq, bigint_from_u32,
    bigint_mul, bigint_pow_usize, bigint_rem, bigint_to_i64, iabs, rat_denom, rat_denom_of,
    rat_numer, rat_numer_of, rat_wf, round_half_away};

// ---------------------------------------------------------------------------
// Decimal rendering
// ---------------------------------------------------------------------------

/// The last `width` digits of `v` in the given radix, most significant first,
/// zero-padded on the left.
pub open spec fn fixed_digits(v: nat, radix: int, width: int, upper: bool) -> Seq<char>
    recommends
        2 <= radix <= 16,
    decreases width,
{
    if width <= 0 || radix < 2 {
        Seq::empty()
    } else {
        fixed_digits(v / (radix as nat), radix, width - 1, upper).push(
            digit_char((v % (radix as nat)) as int, upper),
        )
    }
}

/// `s` with its trailing `'0'` characters removed.
pub open spec fn spec_trim_zeros(s: Seq<char>) -> Seq<char>
    decreases s.len(),
{
    if s.len() > 0 && s.last() == '0' {
        spec_trim_zeros(s.drop_last())
    } else {
        s
    }
}

/// `s` with a comma inserted before every run of three characters counted
/// from the right.
pub open spec fn spec_group_commas(s: Seq<char>) -> Seq<char>
    decreases s.len(),
{
    if s.len() <= 3 {
        s
    } else {
        spec_group_commas(s.take(s.len() - 3)) + seq![','] + s.skip(s.len() - 3)
    }
}

/// The size of the leftmost comma group: three when the length is a positive
/// multiple of three, the remainder otherwise.
pub open spec fn first_group_len(n: int) -> int {
    if n % 3 == 0 && n > 0 {
        3
    } else {
        n % 3
    }
}

/// Comma grouping, seen from the left: the first group, then a comma before
/// every further run of three.
proof fn lemma_group_commas_left(s: Seq<char>)
    requires
        s.len() > 3,
    ensures
        spec_group_commas(s) == s.take(first_group_len(s.len() as int)) + seq![',']
            + spec_group_commas(s.skip(first_group_len(s.len() as int))),
    decreases s.len(),
{
    let n = s.len() as int;
    let f = first_group_len(n);
    let head = s.take(n - 3);
    if n - 3 <= 3 {
        assert(f == n - 3);
        assert(spec_group_commas(head) == head);
        assert(head =~= s.take(f));
        assert(s.skip(f).len() == 3);
        assert(spec_group_commas(s.skip(f)) == s.skip(f));
        assert(s.skip(n - 3) =~= s.skip(f));
    } else {
        lemma_group_commas_left(head);
        let fh = first_group_len(n - 3);
        assert(fh == f);
        assert(head.take(f) =~= s.take(f));
        // The tail of the whole string, seen from index f, still has more
        // than three characters, so its right-recursive unfolding applies.
        let tail = s.skip(f);
        assert(tail.len() == n - f);
        assert(tail.len() > 3);
        assert(spec_group_commas(tail) == spec_group_commas(tail.take(tail.len() - 3))
            + seq![','] + tail.skip(tail.len() - 3));
        assert(tail.take(tail.len() - 3) =~= head.skip(f));
        assert(tail.skip(tail.len() - 3) =~= s.skip(n - 3));
        assert(spec_group_commas(s) =~= s.take(f) + seq![','] + spec_group_commas(s.skip(f)));
    }
}

/// Trimming takes away exactly a maximal run of trailing zeros.
proof fn lemma_trim_zeros(s: Seq<char>, k: int)
    requires
        0 <= k <= s.len(),
        forall|j: int| s.len() - k <= j < s.len() ==> s[j] == '0',
        k == s.len() || s[s.len() - k - 1] != '0',
    ensures
        spec_trim_zeros(s) == s.take(s.len() - k),
    decreases k,
{
    if k == 0 {
        assert(s.take(s.len() as int) =~= s);
    } else {
        assert(s.last() == '0');
        assert(s.drop_last() =~= s.take(s.len() - 1));
        lemma_trim_zeros(s.drop_last(), k - 1);
        assert(s.drop_last().take(s.len() - k) =~= s.take(s.len() - k));
    }
}

/// The decimal rendering of the exact rational `n / d` (`d > 0`, reduced):
/// sign, then the integer part's digits (optionally comma-grouped), then — if
/// `precision > 0` and the fractional part is not trimmed away — a point and
/// the fractional digits. The value is scaled by `radix ^ precision` and
/// rounded to the nearest integer, half away from zero; when the scaled value
/// was already an integer (the value is exactly representable), trailing
/// fractional zeros are trimmed, since trailing zeros are only shown to mark
/// an approximation.
pub open spec fn spec_render(
    n: int,
    d: int,
    radix: int,
    precision: int,
    commas: bool,
    upper: bool,
) -> Seq<char>
    recommends
        d > 0,
        2 <= radix <= 16,
        0 <= precision,
{
    let sign = if n < 0 {
        seq!['-']
    } else {
        Seq::<char>::empty()
    };
    let rp = pow(radix, precision as nat);
    let mult_num = iabs(n) * rp;
    let exactly = mult_num as int % d == 0;
    let rounded = round_half_away(mult_num as int, d);
    let int_part = rounded / rp;
    let frac_part = rounded % rp;
    let frac_str = if precision == 0 {
        Seq::<char>::empty()
    } else {
        let padded = fixed_digits(frac_part as nat, radix, precision, upper);
        if exactly {
            spec_trim_zeros(padded)
        } else {
            padded
        }
    };
    let int_str = nat_digit_seq(int_part as nat, radix, upper);
    let int_grouped = if commas {
        spec_group_commas(int_str)
    } else {
        int_str
    };
    if frac_str.len() == 0 {
        sign + int_grouped
    } else {
        sign + int_grouped + seq!['.'] + frac_str
    }
}

/// Appends the characters `chars[from..to]` to `out`, where `chars` is the
/// reversed digit string of `digs`.
fn append_digit_range(out: &mut String, digs: &Vec<u8>, from: usize, to: usize, upper: bool)
    requires
        from <= to <= digs@.len(),
        forall|k: int| 0 <= k < digs@.len() ==> #[trigger] digs@[k] < 16,
    ensures
        final(out)@ == old(out)@ + digs@.map_values(
            |x: u8| digit_char(x as int, upper),
        ).reverse().subrange(from as int, to as int),
{
    let ghost chars = digs@.map_values(|x: u8| digit_char(x as int, upper)).reverse();
    let ghost base = out@;
    let mut j = from;
    while j < to
        invariant
            from <= j <= to <= digs@.len(),
            chars == digs@.map_values(|x: u8| digit_char(x as int, upper)).reverse(),
            forall|k: int| 0 <= k < digs@.len() ==> #[trigger] digs@[k] < 16,
            out@ == base + chars.subrange(from as int, j as int),
        decreases to - j,
    {
        let idx = digs.len() - 1 - j;
        out.append(digit_str(digs[idx], upper));
        proof {
            assert(chars[j as int] == digit_char(digs@[idx as int] as int, upper));
            assert(chars.subrange(from as int, j + 1) =~= chars.subrange(from as int, j as int)
                + seq![chars[j as int]]);
            assert(out@ =~= base + chars.subrange(from as int, j + 1));
        }
        j = j + 1;
    }
    proof {
        assert(out@ =~= base + chars.subrange(from as int, to as int));
    }
}

/// Appends `chars` (the reversed digit string of `digs`) to `out` with a
/// comma before every run of three characters counted from the right.
#[verifier::loop_isolation(false)]
#[verifier::rlimit(60)]
fn append_grouped_digits(out: &mut String, digs: &Vec<u8>, upper: bool)
    requires
        digs@.len() >= 1,
        forall|k: int| 0 <= k < digs@.len() ==> #[trigger] digs@[k] < 16,
    ensures
        final(out)@ == old(out)@ + spec_group_commas(
            digs@.map_values(|x: u8| digit_char(x as int, upper)).reverse(),
        ),
{
    proof {
        reveal_strlit(",");
    }
    let ghost chars = digs@.map_values(|x: u8| digit_char(x as int, upper)).reverse();
    let ghost base = out@;
    let count = digs.len();
    let first = if count % 3 == 0 {
        3
    } else {
        count % 3
    };
    proof {
        assert(first as int == first_group_len(chars.len() as int));
        if chars.len() > 3 {
            lemma_group_commas_left(chars);
        } else {
            assert(chars.take(first as int) =~= chars);
        }
    }
    append_digit_range(out, digs, 0, first, upper);
    proof {
        assert(chars.subrange(0, first as int) =~= chars.take(first as int));
    }
    let mut consumed = first;
    while consumed < count
        invariant
            first <= consumed <= count,
            count == digs@.len(),
            (count - consumed) % 3 == 0,
            chars == digs@.map_values(|x: u8| digit_char(x as int, upper)).reverse(),
            forall|k: int| 0 <= k < digs@.len() ==> #[trigger] digs@[k] < 16,
            base + spec_group_commas(chars) == if consumed == count {
                out@
            } else {
                out@ + seq![','] + spec_group_commas(chars.skip(consumed as int))
            },
        decreases count - consumed,
    {
        let ghost out_old = out@;
        let ghost rest = chars.skip(consumed as int);
        let ghost sub = chars.subrange(consumed as int, consumed as int + 3);
        out.append(",");
        proof {
            if rest.len() > 3 {
                lemma_group_commas_left(rest);
                assert(first_group_len(rest.len() as int) == 3);
                assert(rest.take(3) =~= sub);
                assert(rest.skip(3) =~= chars.skip(consumed as int + 3));
                assert(spec_group_commas(rest) == sub + seq![','] + spec_group_commas(
                    chars.skip(consumed as int + 3),
                ));
            } else {
                assert(rest.len() == 3);
                assert(spec_group_commas(rest) == rest);
                assert(rest =~= sub);
            }
        }
        append_digit_range(out, digs, consumed, consumed + 3, upper);
        proof {
            assert(out@ =~= out_old + seq![','] + sub);
            if consumed + 3 == count {
                assert(base + spec_group_commas(chars) == out_old + seq![',']
                    + spec_group_commas(rest));
                assert(base + spec_group_commas(chars) == out@);
            } else {
                let tail_g = spec_group_commas(chars.skip(consumed as int + 3));
                assert(out_old + seq![','] + (sub + seq![','] + tail_g) =~= out@ + seq![',']
                    + tail_g);
                assert(out_old + seq![','] + spec_group_commas(rest) =~= out_old + seq![','] + (
                sub + seq![','] + tail_g));
                assert(base + spec_group_commas(chars) == out@ + seq![','] + tail_g);
            }
        }
        consumed = consumed + 3;
    }
}


/// The last `width` digit values of `v` (`0 <= v < radix ^ width`), least
/// significant first.
fn fixed_digit_values(v: &BigInt, radix: u8, width: u8, upper: bool) -> (r: Vec<u8>)
    requires
        2 <= radix <= 16,
        bi_val(*v) >= 0,
    ensures
        r@.len() == width as int,
        forall|j: int| 0 <= j < r@.len() ==> #[trigger] r@[j] < radix,
        fixed_digits(bi_val(*v) as nat, radix as int, width as int, upper) == r@.map_values(
            |x: u8| digit_char(x as int, upper),
        ).reverse(),
{
    let big_radix = bigint_from_u32(radix as u32);
    let ghost full: Seq<char> = fixed_digits(bi_val(*v) as nat, radix as int, width as int, upper);
    let mut digs: Vec<u8> = Vec::new();
    let mut cur = crate::numbers::bigint_clone(v);
    let mut k: usize = 0;
    while k < width as usize
        invariant
            k <= width as usize,
            2 <= radix <= 16,
            bi_val(big_radix) == radix as int,
            bi_val(cur) >= 0,
            digs@.len() == k,
            forall|j: int| 0 <= j < digs@.len() ==> #[trigger] digs@[j] < radix,
            full == fixed_digits(bi_val(cur) as nat, radix as int, width as int - k, upper)
                + digs@.map_values(|x: u8| digit_char(x as int, upper)).reverse(),
            full == fixed_digits(bi_val(*v) as nat, radix as int, width as int, upper),
        decreases width as usize - k,
    {
        let dig = bigint_rem(&cur, &big_radix);
        let next = bigint_div(&cur, &big_radix);
        proof {
            lemma_trunc_div_nonneg(bi_val(cur), radix as int);
            vstd::arithmetic::div_mod::lemma_mod_bound(bi_val(cur), radix as int);
            vstd::arithmetic::div_mod::lemma_div_pos_is_pos(bi_val(cur), radix as int);
        }
        let dig_small = bigint_to_i64(&dig).unwrap() as u8;
        let ghost old_digs = digs@;
        digs.push(dig_small);
        proof {
            let rev_old = old_digs.map_values(|x: u8| digit_char(x as int, upper)).reverse();
            let rev_new = digs@.map_values(|x: u8| digit_char(x as int, upper)).reverse();
            assert(rev_new =~= seq![digit_char(bi_val(dig), upper)] + rev_old);
            assert(fixed_digits(bi_val(cur) as nat, radix as int, width as int - k, upper)
                =~= fixed_digits(
                bi_val(next) as nat,
                radix as int,
                width as int - k - 1,
                upper,
            ).push(digit_char(bi_val(dig), upper)));
            assert(fixed_digits(
                bi_val(next) as nat,
                radix as int,
                width as int - k - 1,
                upper,
            ).push(digit_char(bi_val(dig), upper)) + rev_old =~= fixed_digits(
                bi_val(next) as nat,
                radix as int,
                width as int - k - 1,
                upper,
            ) + rev_new);
        }
        cur = next;
        k = k + 1;
    }
    proof {
        assert(full =~= digs@.map_values(|x: u8| digit_char(x as int, upper)).reverse());
    }
    digs
}

/// Renders an exact rational as a decimal string in the given radix, with the
/// requested precision, optional comma grouping of the integer part, and
/// optional uppercase digits. Trailing fractional zeros are shown only when
/// the displayed value is a rounded approximation.
#[verifier::loop_isolation(false)]
#[verifier::rlimit(60)]
pub fn make_decimal_string(
    value: &BigRational,
    radix: u8,
    precision: u8,
    commas: bool,
    upper: bool,
) -> (r: String)
    requires
        rat_wf(*value),
        2 <= radix <= 16,
    ensures
        r@ == spec_render(
            rat_numer(*value),
            rat_denom(*value),
            radix as int,
            precision as int,
            commas,
            upper,
        ),
{
    proof {
        reveal_strlit("");
        reveal_strlit("-");
        reveal_strlit(".");
    }
    let ghost n: int = rat_numer(*value);
    let ghost d: int = rat_denom(*value);

    let numer = rat_numer_of(value);
    let denom = rat_denom_of(value);
    let zero = bigint_from_u32(0);
    let negative = crate::numbers::bigint_lt(&numer, &zero);

    let big_radix = bigint_from_u32(radix as u32);
    let radix_power = bigint_pow_usize(&big_radix, precision as usize);
    proof {
        vstd::arithmetic::power::lemma_pow_positive(radix as int, precision as nat);
    }
    let ghost rp: int = pow(radix as int, precision as nat);

    // The absolute value scaled by radix^precision is the exact fraction
    // `mult_num / d`; it is an integer exactly when `d` divides `mult_num`.
    let abs_numer = bigint_abs(&numer);
    let mult_num = bigint_mul(&abs_numer, &radix_power);
    proof {
        lemma_trunc_div_nonneg(bi_val(mult_num), d);
    }
    let exactly = {
        let rem = bigint_rem(&mult_num, &denom);
        bigint_eq(&rem, &zero)
    };

    // Round to the nearest integer, half away from zero; everything here is
    // nonnegative, so truncating division is floor division.
    let two = bigint_from_u32(2);
    let twice = bigint_mul(&two, &mult_num);
    let numer_for_round = bigint_add(&twice, &denom);
    let denom_for_round = bigint_mul(&two, &denom);
    proof {
        lemma_trunc_div_nonneg(bi_val(numer_for_round), bi_val(denom_for_round));
    }
    let rounded = bigint_div(&numer_for_round, &denom_for_round);
    proof {
        vstd::arithmetic::div_mod::lemma_div_pos_is_pos(
            bi_val(numer_for_round),
            bi_val(denom_for_round),
        );
        lemma_trunc_div_nonneg(bi_val(rounded), rp);
    }
    let int_part = bigint_div(&rounded, &radix_power);
    let frac_part = bigint_rem(&rounded, &radix_power);
    proof {
        vstd::arithmetic::div_mod::lemma_div_pos_is_pos(bi_val(rounded), rp);
        vstd::arithmetic::div_mod::lemma_mod_bound(bi_val(rounded), rp);
    }

    // The full fractional digit string: exactly `precision` digits.
    let ghost full_frac: Seq<char> = fixed_digits(
        bi_val(frac_part) as nat,
        radix as int,
        precision as int,
        upper,
    );

    // Extract the fractional digits, least significant first.
    let digs = fixed_digit_values(&frac_part, radix, precision, upper);
    proof {
        assert(full_frac == digs@.map_values(|x: u8| digit_char(x as int, upper)).reverse());
        assert(full_frac.len() == precision as int);
    }

    // Count the trailing zeros of the fractional string; they sit at the
    // front of the least-significant-first digit list.
    let mut z: usize = 0;
    while z < digs.len() && digs[z] == 0
        invariant
            z <= digs@.len(),
            forall|j: int| 0 <= j < z ==> digs@[j] == 0,
        decreases digs@.len() - z,
    {
        z = z + 1;
    }
    proof {
        assert(forall|j: int|
            full_frac.len() - z <= j < full_frac.len() ==> #[trigger] full_frac[j] == '0') by {
            assert(forall|j: int|
                full_frac.len() - z <= j < full_frac.len() ==> #[trigger] full_frac[j]
                    == digit_char(digs@[full_frac.len() - 1 - j] as int, upper));
        }
        if z < digs@.len() {
            assert(full_frac[full_frac.len() - z - 1] == digit_char(
                digs@[z as int] as int,
                upper,
            ));
        }
        lemma_trim_zeros(full_frac, z as int);
    }

    // Assemble the output: sign, integer digits, fractional digits.
    let mut out = String::from_str("");
    if negative {
        out.append("-");
    }
    let ghost sign_chars = out@;

    let int_digs = bigint_digits(&int_part, radix);
    proof {
        lemma_digits_reverse(bi_val(int_part) as nat, radix as int, upper);
        assert(int_digs@.map_values(|x: u8| digit_char(x as int, upper)).reverse()
            =~= digits_lsb_first(bi_val(int_part) as nat, radix as int).reverse().map_values(
            |x: int| digit_char(x, upper),
        ));
    }
    if commas {
        append_grouped_digits(&mut out, &int_digs, upper);
    } else {
        append_digit_range(&mut out, &int_digs, 0, int_digs.len(), upper);
        proof {
            let chars = int_digs@.map_values(|x: u8| digit_char(x as int, upper)).reverse();
            assert(chars.subrange(0, chars.len() as int) =~= chars);
        }
    }
    let ghost with_int = out@;

    let frac_count = if precision == 0 {
        0
    } else if exactly {
        digs.len() - z
    } else {
        digs.len()
    };
    if frac_count > 0 {
        out.append(".");
        append_digit_range(&mut out, &digs, 0, frac_count, upper);
    }
    proof {
        let frac_final = if precision == 0 {
            Seq::<char>::empty()
        } else if exactly {
            spec_trim_zeros(full_frac)
        } else {
            full_frac
        };
        assert(full_frac.take(full_frac.len() - z) =~= full_frac.subrange(
            0,
            full_frac.len() - z,
        ));
        if frac_count > 0 {
            assert(full_frac.subrange(0, frac_count as int) =~= frac_final);
            assert(out@ =~= with_int + seq!['.'] + frac_final);
        }
        assert(out@ =~= spec_render(n, d, radix as int, precision as int, commas, upper));
    }
    out
}

// ---------------------------------------------------------------------------
// Exponentiation
// ---------------------------------------------------------------------------

/// The numerator of the reduced form of `(bn / bd) ^ en` for an integer
/// exponent `en`: a plain integer power for `en >= 0`, the reciprocal's
/// canonical form for `en < 0`.
pub open spec fn pow_pair_num(bn: int, bd: int, en: int) -> int {
    if en >= 0 {
        pow(bn, iabs(en))
    } else {
        crate::numbers::norm_num(pow(bd, iabs(en)), pow(bn, iabs(en)))
    }
}

/// The denominator of the reduced form of `(bn / bd) ^ en` for an integer
/// exponent `en`.
pub open spec fn pow_pair_den(bn: int, bd: int, en: int) -> int {
    if en >= 0 {
        pow(bd, iabs(en))
    } else {
        crate::numbers::norm_den(pow(bd, iabs(en)), pow(bn, iabs(en)))
    }
}

/// One Newton step toward the `d`-th root of `rad`, over exact reduced
/// pairs, shaped exactly as the root-finder computes it:
/// `(rad + (d-1) * x^(d-1) * x) / (d * x^(d-1))`.
pub open spec fn sp_newton_step(x: (int, int), rad: (int, int), d: int) -> (int, int) {
    crate::numbers::pair_div(
        crate::numbers::pair_add(
            rad,
            crate::numbers::pair_mul(
                (d - 1, 1),
                crate::numbers::pair_mul(crate::numbers::pair_pow(x, (d - 1) as nat), x),
            ),
        ),
        crate::numbers::pair_mul((d, 1), crate::numbers::pair_pow(x, (d - 1) as nat)),
    )
}

/// What the root-finder guarantees of a result that is no exact integer
/// root, stated over magnitudes (`xm` the result's, `rad` the radicand's,
/// both with positive denominators): either the iteration stopped because one
/// more Newton step moves the result by at most one unit in the guard digit,
/// or — only on the iteration cap, which quadratic convergence never
/// exhausts — the result is still the bisection's integer starting point,
/// which brackets the root from below within one.
pub open spec fn sp_root_settled(xm: (int, int), rad: (int, int), d: int, bound_den: int) -> bool {
    ||| crate::numbers::pair_le(
        crate::numbers::pair_abs(
            crate::numbers::pair_sub(sp_newton_step(xm, rad, d), xm),
        ),
        (1, bound_den),
    )
    ||| (xm.1 == 1 && 1 <= xm.0 && rad.0 < pow(xm.0 + 1, d as nat) * rad.1)
}

/// A positive power of zero is zero.
proof fn lemma_pow_zero(e: nat)
    requires
        e >= 1,
    ensures
        pow(0, e) == 0,
    decreases e,
{
    reveal(pow);
    if e > 1 {
        lemma_pow_zero((e - 1) as nat);
    }
}

/// Raising to a positive power is strictly increasing on nonnegative bases.
proof fn lemma_pow_base_increases(a: int, b: int, e: nat)
    requires
        0 <= a < b,
        e >= 1,
    ensures
        pow(a, e) < pow(b, e),
    decreases e,
{
    vstd::arithmetic::power::lemma_pow_positive(b, e);
    if a == 0 {
        lemma_pow_zero(e);
    } else if e == 1 {
        vstd::arithmetic::power::lemma_pow1(a);
        vstd::arithmetic::power::lemma_pow1(b);
    } else {
        reveal(pow);
        lemma_pow_base_increases(a, b, (e - 1) as nat);
        vstd::arithmetic::power::lemma_pow_positive(a, (e - 1) as nat);
        vstd::arithmetic::power::lemma_pow_positive(b, (e - 1) as nat);
        vstd::arithmetic::mul::lemma_mul_inequality(
            pow(a, (e - 1) as nat),
            pow(b, (e - 1) as nat),
            a,
        );
        vstd::arithmetic::mul::lemma_mul_strict_inequality(a, b, pow(b, (e - 1) as nat));
        assert(pow(a, (e - 1) as nat) * a == a * pow(a, (e - 1) as nat)) by (nonlinear_arith);
        assert(pow(b, (e - 1) as nat) * a == a * pow(b, (e - 1) as nat)) by (nonlinear_arith);
        assert(a * pow(b, (e - 1) as nat) < b * pow(b, (e - 1) as nat));
    }
}

/// The sign of a power follows the base's, flipped back for even exponents.
proof fn lemma_pow_neg_base(a: int, e: nat)
    ensures
        pow(-a, e) == if e % 2 == 0 {
            pow(a, e)
        } else {
            -pow(a, e)
        },
    decreases e,
{
    reveal(pow);
    if e > 0 {
        lemma_pow_neg_base(a, (e - 1) as nat);
        assert((-a) * pow(a, (e - 1) as nat) == -(a * pow(a, (e - 1) as nat))) by (nonlinear_arith);
        assert((-a) * (-pow(a, (e - 1) as nat)) == a * pow(a, (e - 1) as nat)) by (nonlinear_arith);
    }
}

/// A nonnegative integer whose `d`-th power is the bracketed value is the
/// bracket's lower end.
proof fn lemma_root_unique(g: int, lo: int, d: nat, ran: int, rad_d: int)
    requires
        d >= 1,
        rad_d > 0,
        ran >= 0,
        g >= 0,
        lo >= 0,
        pow(g, d) * rad_d == ran,
        pow(lo, d) * rad_d <= ran,
        ran < pow(lo + 1, d) * rad_d,
    ensures
        g == lo,
{
    if g < lo {
        lemma_pow_base_increases(g, lo, d);
        vstd::arithmetic::mul::lemma_mul_strict_inequality(pow(g, d), pow(lo, d), rad_d);
        assert(pow(g, d) * rad_d == rad_d * pow(g, d)) by (nonlinear_arith);
        assert(pow(lo, d) * rad_d == rad_d * pow(lo, d)) by (nonlinear_arith);
    }
    if g > lo {
        if g > lo + 1 {
            lemma_pow_base_increases(lo + 1, g, d);
        }
        vstd::arithmetic::mul::lemma_mul_inequality(pow(lo + 1, d), pow(g, d), rad_d);
    }
}

/// Whether `hi` exceeds `lo` by more than one.
fn gap_exceeds_one(lo: &BigInt, hi: &BigInt) -> (r: bool)
    ensures
        r == (bi_val(*hi) - bi_val(*lo) > 1),
{
    let one = bigint_from_u32(1);
    let span = crate::numbers::bigint_sub(hi, lo);
    crate::numbers::bigint_lt(&one, &span)
}

/// Raises an exact rational base to an exact rational exponent.
///
/// A negative exponent inverts the base first; a zero base with a negative
/// exponent is division by zero. An integer exponent gives the exact power.
/// Otherwise the result is the `d`-th root of `radicand = base ^ n`
/// (exponent `n / d`): a negative radicand with an even root degree is an
/// imaginary result; a radicand with an exact integer root gets that root,
/// exactly; any other root is bracketed by an integer bisection and then
/// refined by Newton iteration until one further step moves the value by at
/// most `radix ^ -(precision + 1)` — one guard digit beyond the requested
/// display precision (`sp_root_settled`).
#[verifier::loop_isolation(false)]
#[verifier::rlimit(60)]
pub fn exponentiate(
    base: BigRational,
    exponent: BigRational,
    precision: u8,
    radix: u8,
) -> (r: Result<BigRational, MathExecutionError>)
    requires
        rat_wf(base),
        rat_wf(exponent),
        2 <= radix <= 16,
    ensures
        ({
            let bn = rat_numer(base);
            let bd = rat_denom(base);
            let en = rat_numer(exponent);
            let ed = rat_denom(exponent);
            let inverts_zero = en < 0 && bn == 0;
            let rad_n = pow_pair_num(bn, bd, en);
            let rad_d = pow_pair_den(bn, bd, en);
            let neg_even_root = rad_n < 0 && ed % 2 == 0;
            &&& inverts_zero ==> (r matches Err(e) && e is DivisionByZero)
            &&& !inverts_zero && ed == 1 ==> (r matches Ok(x) && rat_wf(x) && rat_numer(x)
                == rad_n && rat_denom(x) == rad_d)
            &&& !inverts_zero && ed > 1 && neg_even_root ==> (r matches Err(e)
                && e is ImaginaryResult)
            &&& !inverts_zero && ed > 1 && !neg_even_root ==> (r matches Ok(x) && rat_wf(x) && {
                &&& rad_n > 0 ==> rat_numer(x) > 0
                &&& rad_n < 0 ==> rat_numer(x) < 0
                &&& rad_n == 0 ==> rat_numer(x) == 0 && rat_denom(x) == 1
                &&& forall|g: int|
                    g * rad_n >= 0 && #[trigger] pow(g, ed as nat) * rad_d == rad_n
                        ==> rat_numer(x) == g && rat_denom(x) == 1
                &&& (forall|g: int|
                    g * rad_n >= 0 ==> #[trigger] pow(g, ed as nat) * rad_d != rad_n)
                    ==> sp_root_settled(
                    (iabs(rat_numer(x)) as int, rat_denom(x)),
                    (iabs(rad_n) as int, rad_d),
                    ed,
                    pow(radix as int, precision as nat + 1),
                )
            })
        }),
{
    let zero = bigint_from_u32(0);
    let one = bigint_from_u32(1);

    let exp_numer = rat_numer_of(&exponent);
    let exp_denom = rat_denom_of(&exponent);
    let base_numer = rat_numer_of(&base);

    // A negative exponent inverts the base, so a zero base cannot be raised
    // to one.
    if crate::numbers::bigint_lt(&exp_numer, &zero) && bigint_eq(&base_numer, &zero) {
        return Err(MathExecutionError::DivisionByZero);
    }

    // `base ^ (n/d)` is the `d`-th root of `radicand = base ^ n` (with a
    // negative `n` folded into the reciprocal of the base).
    let radicand = crate::numbers::rat_pow_bigint(&base, &exp_numer);

    // An integer exponent needs no root at all.
    if bigint_eq(&exp_denom, &one) {
        return Ok(radicand);
    }

    let radicand_numer = rat_numer_of(&radicand);
    let radicand_negative = crate::numbers::bigint_lt(&radicand_numer, &zero);
    if radicand_negative && crate::numbers::bigint_is_even(&exp_denom) {
        return Err(MathExecutionError::ImaginaryResult);
    }

    let degree = exp_denom;
    let ghost d: int = bi_val(degree);
    let ghost dn: nat = d as nat;
    let ghost rad_n: int = rat_numer(radicand);
    let ghost rad_d: int = rat_denom(radicand);
    let ghost ran: int = iabs(rad_n) as int;

    // The root is found on the radicand's magnitude; for a negative radicand
    // the degree is odd here, and the sign is restored at the end.
    let rad_abs = crate::numbers::rat_abs(&radicand);

    // Bisection over the integers for the root's integer part, with the
    // bracket invariant `lo^d <= |radicand| < hi^d`.
    let trunc = crate::numbers::rat_to_integer(&rad_abs);
    let mut lo = bigint_from_u32(0);
    let mut hi = crate::numbers::bigint_add(&trunc, &one);
    proof {
        lemma_pow_zero(dn);
        vstd::arithmetic::mul::lemma_mul_basics(rad_d);
        lemma_trunc_div_nonneg(ran, rad_d);
        vstd::arithmetic::div_mod::lemma_fundamental_div_mod(ran, rad_d);
        vstd::arithmetic::div_mod::lemma_mod_bound(ran, rad_d);
        let t = ran / rad_d;
        vstd::arithmetic::power::lemma_pow1(t + 1);
        vstd::arithmetic::power::lemma_pow_increases((t + 1) as nat, 1, dn);
        vstd::arithmetic::mul::lemma_mul_inequality(t + 1, pow(t + 1, dn), rad_d);
        assert(rad_d * t + rad_d == (t + 1) * rad_d) by (nonlinear_arith);
        assert(ran < pow(t + 1, dn) * rad_d);
        vstd::arithmetic::power::lemma1_pow(dn);
    }
    while gap_exceeds_one(&lo, &hi)
        invariant
            0 <= bi_val(lo) < bi_val(hi),
            pow(bi_val(lo), dn) * rad_d <= ran,
            ran < pow(bi_val(hi), dn) * rad_d,
        decreases bi_val(hi) - bi_val(lo),
    {
        let two = bigint_from_u32(2);
        let span = crate::numbers::bigint_sub(&hi, &lo);
        proof {
            lemma_trunc_div_nonneg(bi_val(span), 2);
            vstd::arithmetic::div_mod::lemma_fundamental_div_mod(bi_val(span), 2);
        }
        let half = bigint_div(&span, &two);
        let mid = crate::numbers::bigint_add(&lo, &half);
        let mid_rat = crate::numbers::rat_from_bigint(crate::numbers::bigint_clone(&mid));
        let mid_pow = crate::numbers::rat_pow_bigint(&mid_rat, &degree);
        if !crate::numbers::rat_lt(&rad_abs, &mid_pow) {
            lo = mid;
        } else {
            hi = mid;
        }
    }
    proof {
        assert(bi_val(hi) == bi_val(lo) + 1);
    }
    let ghost lo_i: int = bi_val(lo);

    // An exact integer root is returned exactly.
    let lo_rat = crate::numbers::rat_from_bigint(crate::numbers::bigint_clone(&lo));
    let lo_pow = crate::numbers::rat_pow_bigint(&lo_rat, &degree);
    proof {
        vstd::arithmetic::power::lemma1_pow(dn);
    }
    let root_exact = crate::numbers::rat_eq(&lo_pow, &rad_abs);
    proof {
        lemma_roots_are_bracket(d, rad_n, rad_d, lo_i, root_exact);
    }
    if root_exact {
        let result = if radicand_negative {
            crate::numbers::rat_neg(&lo_rat)
        } else {
            lo_rat
        };
        return Ok(result);
    }

    // Newton's method from the bracket's lower end (or one, when the root is
    // below one): x' = (radicand + (d-1)*x^d) / (d*x^(d-1)), iterated until
    // one further step moves the value by at most the error bound. The
    // iteration count is capped only so that termination is manifest; the cap
    // is far beyond anything the quadratic convergence can use, and falling
    // back to the starting point on it keeps the result bracketed.
    let start = if bigint_eq(&lo, &zero) {
        bigint_from_u32(1)
    } else {
        lo
    };
    proof {
        vstd::arithmetic::power::lemma_pow_positive(2, dn);
        vstd::arithmetic::mul::lemma_mul_inequality(1, pow(2, dn), rad_d);
        vstd::arithmetic::power::lemma1_pow(dn);
        if lo_i == 0 {
            assert(ran < pow(2, dn) * rad_d);
        }
    }

    let degree_ratio = crate::numbers::rat_from_bigint(crate::numbers::bigint_clone(&degree));
    let degree_dec = crate::numbers::bigint_sub(&degree, &one);
    let degree_dec_ratio = crate::numbers::rat_from_bigint(
        crate::numbers::bigint_clone(&degree_dec),
    );
    let radix_big = bigint_from_u32(radix as u32);
    let error_denom = crate::numbers::bigint_pow_usize(&radix_big, precision as usize + 1);
    proof {
        vstd::arithmetic::power::lemma_pow_positive(radix as int, precision as nat + 1);
    }
    let max_error = crate::numbers::rat_new(bigint_from_u32(1), error_denom);
    proof {
        vstd::arithmetic::power::lemma_pow1(radix as int);
        vstd::arithmetic::power::lemma_pow_increases(radix as nat, 1, precision as nat + 1);
        lemma_unit_fraction(pow(radix as int, precision as nat + 1));
    }

    let mut x = crate::numbers::rat_from_bigint(crate::numbers::bigint_clone(&start));
    let mut budget: u64 = u64::MAX;
    loop
        invariant
            rat_wf(x),
            rat_numer(x) > 0,
        decreases budget,
    {
        if budget == 0 {
            // The unreachable cap: fall back to the bracketed starting point.
            let fallback = crate::numbers::rat_from_bigint(crate::numbers::bigint_clone(&start));
            let result = if radicand_negative {
                crate::numbers::rat_neg(&fallback)
            } else {
                fallback
            };
            return Ok(result);
        }
        budget = budget - 1;

        let x_pow_dec = crate::numbers::rat_pow_bigint(&x, &degree_dec);
        proof {
            vstd::arithmetic::power::lemma_pow_positive(rat_numer(x), (d - 1) as nat);
        }
        let divisor = crate::numbers::rat_mul(&degree_ratio, &x_pow_dec);
        let x_pow = crate::numbers::rat_mul(&x_pow_dec, &x);
        let scaled = crate::numbers::rat_mul(&degree_dec_ratio, &x_pow);
        let numerator = crate::numbers::rat_add(&rad_abs, &scaled);
        let next = crate::numbers::rat_div(&numerator, &divisor);
        let step = crate::numbers::rat_sub(&next, &x);
        let gap = crate::numbers::rat_abs(&step);
        if !crate::numbers::rat_lt(&max_error, &gap) {
            proof {
                let xp = (rat_numer(x), rat_denom(x));
                let rp = (ran, rad_d);
                assert((rat_numer(next), rat_denom(next)) == sp_newton_step(xp, rp, d));
                assert(crate::numbers::pair_le(
                    crate::numbers::pair_abs(
                        crate::numbers::pair_sub(sp_newton_step(xp, rp, d), xp),
                    ),
                    (1, pow(radix as int, precision as nat + 1)),
                ));
            }
            let result = if radicand_negative {
                crate::numbers::rat_neg(&x)
            } else {
                x
            };
            return Ok(result);
        }
        x = next;
    }
}

/// With the magnitude of the radicand bracketed as
/// `lo^d <= |rad| < (lo+1)^d` and `exact <==> lo^d == |rad|`, every signed
/// integer root of the radicand is pinned down: an integer `g` on the
/// radicand's side of zero with `g^d == rad` forces `exact` and `|g| == lo`;
/// without `exact` there is no such root at all.
proof fn lemma_roots_are_bracket(d: int, rad_n: int, rad_d: int, lo_i: int, exact: bool)
    requires
        d >= 2,
        rad_d > 0,
        rad_n >= 0 || d % 2 == 1,
        lo_i >= 0,
        pow(lo_i, d as nat) * rad_d <= iabs(rad_n),
        iabs(rad_n) < pow(lo_i + 1, d as nat) * rad_d,
        exact <==> pow(lo_i, d as nat) * rad_d == iabs(rad_n),
    ensures
        forall|g: int|
            g * rad_n >= 0 && #[trigger] pow(g, d as nat) * rad_d == rad_n ==> exact && (
            if rad_n >= 0 {
                g == lo_i
            } else {
                g == -lo_i
            }),
        !exact ==> (forall|g: int|
            g * rad_n >= 0 ==> #[trigger] pow(g, d as nat) * rad_d != rad_n),
{
    let dn = d as nat;
    let ran = iabs(rad_n) as int;
    assert forall|g: int| g * rad_n >= 0 && #[trigger] pow(g, dn) * rad_d == rad_n implies exact
        && (if rad_n >= 0 {
        g == lo_i
    } else {
        g == -lo_i
    }) by {
        if rad_n >= 0 {
            if g < 0 {
                // Then the radicand is zero, and a nonzero base's power
                // cannot vanish.
                assert(rad_n == 0) by (nonlinear_arith)
                    requires g < 0 && g * rad_n >= 0 && rad_n >= 0;
                lemma_pow_neg_base(-g, dn);
                if dn % 2 == 0 {
                    assert(pow(-g, dn) * rad_d == 0);
                } else {
                    assert((-pow(-g, dn)) * rad_d == -(pow(-g, dn) * rad_d)) by (nonlinear_arith);
                    assert(pow(-g, dn) * rad_d == 0);
                }
                lemma_pow_zero_root(-g, dn, rad_d);
                assert(false);
            } else {
                lemma_root_unique(g, lo_i, dn, ran, rad_d);
            }
        } else {
            // Negative radicand, odd degree: g is nonpositive and its
            // magnitude is the magnitude's root.
            assert(g <= 0) by (nonlinear_arith)
                requires g * rad_n >= 0 && rad_n < 0;
            lemma_pow_neg_base(-g, dn);
            assert(pow(g, dn) == -pow(-g, dn));
            assert((-pow(-g, dn)) * rad_d == -(pow(-g, dn) * rad_d)) by (nonlinear_arith);
            assert(pow(-g, dn) * rad_d == ran);
            lemma_root_unique(-g, lo_i, dn, ran, rad_d);
        }
    }
    if !exact {
        assert forall|g: int| g * rad_n >= 0 implies #[trigger] pow(g, dn) * rad_d != rad_n by {
            if pow(g, dn) * rad_d == rad_n {
                assert(exact);
            }
        }
    }
}

/// A nonnegative base whose power is zero is zero.
proof fn lemma_pow_zero_root(g: int, d: nat, rad_d: int)
    requires
        g >= 0,
        d >= 1,
        rad_d > 0,
        pow(g, d) * rad_d == 0,
    ensures
        g == 0,
{
    if g > 0 {
        vstd::arithmetic::power::lemma_pow_positive(g, d);
        vstd::arithmetic::mul::lemma_mul_strict_inequality(0, pow(g, d), rad_d);
    }
}

/// The unit fraction over a positive denominator is already reduced.
proof fn lemma_unit_fraction(den: int)
    requires
        den >= 2,
    ensures
        crate::numbers::norm_num(1, den) == 1,
        crate::numbers::norm_den(1, den) == den,
{
    let dn = den as nat;
    vstd::arithmetic::div_mod::lemma_small_mod(1, dn);
    assert(1nat % dn == 1);
    assert(dn % 1nat == 0) by {
        vstd::arithmetic::div_mod::lemma_fundamental_div_mod(den, 1);
    }
    assert(crate::numbers::gcd_nat(1, dn) == crate::numbers::gcd_nat(dn, 1));
    assert(crate::numbers::gcd_nat(dn, 1) == crate::numbers::gcd_nat(1, 0));
    assert(crate::numbers::gcd_nat(1, dn) == 1);
    assert(1int / 1int == 1 && den / 1int == den) by {
        vstd::arithmetic::div_mod::lemma_fundamental_div_mod(1, 1);
        vstd::arithmetic::div_mod::lemma_fundamental_div_mod(den, 1);
    }
}

// ---------------------------------------------------------------------------
// Laws
// ---------------------------------------------------------------------------

/// Whether the rational `n / d` is exactly representable with `precision`
/// fractional digits in the given radix.
pub open spec fn spec_exactly_representable(n: int, d: int, radix: int, precision: int) -> bool {
    (iabs(n) * pow(radix, precision as nat)) as int % d == 0
}

/// The fractional part of `spec_render`'s output.
pub open spec fn spec_render_frac(
    n: int,
    d: int,
    radix: int,
    precision: int,
    upper: bool,
) -> Seq<char> {
    if precision == 0 {
        Seq::<char>::empty()
    } else {
        let rp = pow(radix, precision as nat);
        let rounded = round_half_away((iabs(n) * rp) as int, d);
        let padded = fixed_digits((rounded % rp) as nat, radix, precision, upper);
        if spec_exactly_representable(n, d, radix, precision) {
            spec_trim_zeros(padded)
        } else {
            padded
        }
    }
}

/// A trimmed string never ends in a zero.
proof fn lemma_trim_zeros_no_tail(s: Seq<char>)
    ensures
        spec_trim_zeros(s).len() == 0 || spec_trim_zeros(s).last() != '0',
    decreases s.len(),
{
    if s.len() > 0 && s.last() == '0' {
        lemma_trim_zeros_no_tail(s.drop_last());
    }
}

/// A fixed-width digit string has exactly its width.
proof fn lemma_fixed_digits_len(v: nat, radix: int, width: int, upper: bool)
    requires
        2 <= radix <= 16,
        0 <= width,
    ensures
        fixed_digits(v, radix, width, upper).len() == width,
    decreases width,
{
    if width > 0 {
        lemma_fixed_digits_len(v / (radix as nat), radix, width - 1, upper);
    }
}

/// Rendering idempotence. A value exactly representable at the display
/// precision never shows trailing zero padding: its fractional digits end in
/// a significant digit or vanish entirely. A value that needs rounding always
/// pads to exactly `precision` fractional digits, so the padding marks the
/// approximation. And zero is always exactly representable, so it renders as
/// `"0"` at every precision, never with a fractional part or a sign.
pub proof fn lemma_render_idempotence(
    n: int,
    d: int,
    radix: int,
    precision: int,
    commas: bool,
    upper: bool,
)
    requires
        d > 0,
        2 <= radix <= 16,
        precision >= 0,
    ensures
        spec_exactly_representable(n, d, radix, precision) ==> (spec_render_frac(
            n,
            d,
            radix,
            precision,
            upper,
        ).len() == 0 || spec_render_frac(n, d, radix, precision, upper).last() != '0'),
        !spec_exactly_representable(n, d, radix, precision) && precision > 0
            ==> spec_render_frac(n, d, radix, precision, upper).len() == precision,
        n == 0 ==> spec_render(n, d, radix, precision, commas, upper) == seq!['0'],
{
    vstd::arithmetic::power::lemma_pow_positive(radix, precision as nat);
    let rp = pow(radix, precision as nat);
    let rounded = round_half_away((iabs(n) * rp) as int, d);
    if precision > 0 {
        if spec_exactly_representable(n, d, radix, precision) {
            lemma_trim_zeros_no_tail(fixed_digits((rounded % rp) as nat, radix, precision, upper));
        } else {
            lemma_fixed_digits_len((rounded % rp) as nat, radix, precision, upper);
        }
    }
    if n == 0 {
        vstd::arithmetic::mul::lemma_mul_basics(rp);
        assert(iabs(n) * rp == 0);
        assert(0int % d == 0) by {
            vstd::arithmetic::div_mod::lemma_small_mod(0, d as nat);
        }
        assert(rounded == 0) by {
            vstd::arithmetic::div_mod::lemma_basic_div(d, 2 * d);
        }
        assert(0int % rp == 0) by {
            vstd::arithmetic::div_mod::lemma_small_mod(0, rp as nat);
        }
        assert(0int / rp == 0) by {
            vstd::arithmetic::div_mod::lemma_basic_div(0, rp);
        }
        lemma_fixed_zero(radix, precision, upper);
        lemma_trim_zeros(
            fixed_digits(0, radix, precision, upper),
            precision,
        );
        assert(fixed_digits(0, radix, precision, upper).take(0) =~= Seq::<char>::empty());
        assert(nat_digit_seq(0, radix, upper) == seq!['0']);
        assert(spec_group_commas(seq!['0']) == seq!['0']);
        assert(Seq::<char>::empty() + seq!['0'] =~= seq!['0']);
    }
}

/// Every digit of zero's fixed-width rendering is `'0'`.
proof fn lemma_fixed_zero(radix: int, width: int, upper: bool)
    requires
        2 <= radix <= 16,
        0 <= width,
    ensures
        fixed_digits(0, radix, width, upper).len() == width,
        forall|j: int| 0 <= j < width ==> #[trigger] fixed_digits(0, radix, width, upper)[j]
            == '0',
    decreases width,
{
    if width > 0 {
        assert(0nat / (radix as nat) == 0) by {
            vstd::arithmetic::div_mod::lemma_basic_div(0, radix);
        }
        assert(0nat % (radix as nat) == 0) by {
            vstd::arithmetic::div_mod::lemma_small_mod(0, radix as nat);
        }
        lemma_fixed_zero(radix, width - 1, upper);
    }
}

/// Exponentiation round-trip: for an integer base `b` and a positive integer
/// exponent `n`, the power `b ^ (n/1)` is computed exactly — the reduced
/// result of `exponentiate` is precisely the pair `(b^n, 1)`, with no
/// rounding.
pub proof fn lemma_integer_power_exact(bn: int, en: int)
    requires
        en > 0,
    ensures
        pow_pair_num(bn, 1, en) == pow(bn, en as nat),
        pow_pair_den(bn, 1, en) == 1,
{
    vstd::arithmetic::power::lemma1_pow(en as nat);
    assert(iabs(en) == en as nat);
}

} // verus!
