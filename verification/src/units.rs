//! Human-readable byte sizes.

use vstd::prelude::*;
use crate::numfmt::{dec, u64_to_chars, digit, dec_u128_chars_pub};
use crate::text::string_of;

verus! {

/// `n / d` rounded to the nearest integer, ties to even.
pub open spec fn round_half_even(n: nat, d: nat) -> nat
    recommends
        d > 0,
{
    let q = n / d;
    let r = n % d;
    if 2 * r > d || (2 * r == d && q % 2 == 1) {
        q + 1
    } else {
        q
    }
}

/// Distance between neighbouring `f64` values around `b` (for `b < 2^64`).
pub open spec fn f64_spacing(b: nat) -> nat
    decreases b,
{
    if b < 0x20_0000_0000_0000 {
        1
    } else {
        2 * f64_spacing(b / 2)
    }
}

/// The integer that `b as f64` holds: `b` rounded to 53 significant bits.
pub open spec fn as_f64_value(b: nat) -> nat {
    round_half_even(b, f64_spacing(b)) * f64_spacing(b)
}

pub open spec fn pow1024(k: nat) -> nat
    decreases k,
{
    if k == 0 {
        1
    } else {
        1024 * pow1024((k - 1) as nat)
    }
}

/// How many times a size is divided by 1024 before it is shown (at most four).
pub open spec fn unit_index(v: nat) -> nat {
    if v >= pow1024(4) {
        4
    } else if v >= pow1024(3) {
        3
    } else if v >= pow1024(2) {
        2
    } else if v >= pow1024(1) {
        1
    } else {
        0
    }
}

pub open spec fn unit_name(k: nat) -> Seq<char> {
    if k == 0 {
        seq!['B']
    } else if k == 1 {
        seq!['K', 'B']
    } else if k == 2 {
        seq!['M', 'B']
    } else if k == 3 {
        seq!['G', 'B']
    } else {
        seq!['T', 'B']
    }
}

/// The text of `format_bytes`: whole bytes below 1 KB, otherwise the value in
/// the largest unit up to TB with one decimal, rounded to nearest, ties to even.
pub open spec fn format_bytes_spec(bytes: nat) -> Seq<char> {
    let v = as_f64_value(bytes);
    let k = unit_index(v);
    if k == 0 {
        dec(bytes) + seq![' '] + unit_name(0)
    } else {
        let q = round_half_even(v * 10, pow1024(k));
        dec(q / 10) + seq!['.'] + dec(q % 10) + seq![' '] + unit_name(k)
    }
}

proof fn lemma_pow1024_values()
    ensures
        pow1024(1) == 1024,
        pow1024(2) == 1048576,
        pow1024(3) == 1073741824,
        pow1024(4) == 1099511627776,
{
    reveal_with_fuel(pow1024, 5);
}

fn round_half_even_exec(n: u128, d: u128) -> (res: u128)
    requires
        d > 0,
        d < 0x1000_0000_0000_0000_0000_0000_0000,
        n < 0x1000_0000_0000_0000_0000_0000_0000,
    ensures
        res == round_half_even(n as nat, d as nat),
{
    let q = n / d;
    let r = n % d;
    if 2 * r > d || (2 * r == d && q % 2 == 1) {
        q + 1
    } else {
        q
    }
}

proof fn lemma_div2(b: nat, sp: nat)
    requires
        sp > 0,
    ensures
        b / (2 * sp) == (b / sp) / 2,
{
    vstd::arithmetic::div_mod::lemma_div_denominator(b as int, sp as int, 2);
    assert(sp * 2 == 2 * sp) by (nonlinear_arith);
}

/// `format_bytes`: a size as `"{bytes} B"` or `"{value:.1} {unit}"`.
pub fn format_bytes(bytes: u64) -> (res: String)
    ensures
        res@ == format_bytes_spec(bytes as nat),
{
    let b = bytes as u128;
    let mut sp: u128 = 1;
    let mut t: u128 = b;
    while t >= 0x20_0000_0000_0000
        invariant
            sp >= 1,
            sp <= 0x1_0000_0000_0000_0000,
            t == b / sp,
            f64_spacing(b as nat) == sp * f64_spacing(t as nat),
            b < 0x1_0000_0000_0000_0000,
            t * sp <= b,
        decreases t,
    {
        proof {
            lemma_div2(b as nat, sp as nat);
            assert(sp * (2 * f64_spacing((t / 2) as nat)) == (2 * sp) * f64_spacing(
                (t / 2) as nat,
            )) by (nonlinear_arith);
            assert(t >= 0x20_0000_0000_0000);
            assert((t / 2) * (2 * sp) <= t * sp) by (nonlinear_arith)
                requires
                    t >= 0,
                    sp >= 1,
            ;
            assert(sp < 0x1_0000_0000_0000_0000) by (nonlinear_arith)
                requires
                    t * sp <= b,
                    b < 0x1_0000_0000_0000_0000,
                    t >= 0x20_0000_0000_0000,
            ;
            assert(2 * sp <= 0x1_0000_0000_0000_0000) by (nonlinear_arith)
                requires
                    t * sp <= b,
                    b < 0x1_0000_0000_0000_0000,
                    t >= 0x20_0000_0000_0000,
                    sp >= 1,
            ;
        }
        t = t / 2;
        sp = sp * 2;
    }
    let rq = round_half_even_exec(b, sp);
    assert(f64_spacing(t as nat) == 1);
    proof {
        lemma_pow1024_values();
        assert(round_half_even(b as nat, sp as nat) <= b / sp + 1);
        assert(rq * sp <= 0x2_0000_0000_0000_0000) by (nonlinear_arith)
            requires
                rq == round_half_even(b as nat, sp as nat),
                round_half_even(b as nat, sp as nat) <= b / sp + 1,
                (b / sp) * sp <= b,
                b < 0x1_0000_0000_0000_0000,
                sp <= 0x1_0000_0000_0000_0000,
                sp >= 1,
        ;
    }
    let v = rq * sp;
    let k: u128 = if v >= 1099511627776 {
        4
    } else if v >= 1073741824 {
        3
    } else if v >= 1048576 {
        2
    } else if v >= 1024 {
        1
    } else {
        0
    };
    let mut out: Vec<char>;
    if k == 0 {
        out = u64_to_chars(bytes);
        out.push(' ');
        out.push('B');
        assert(out@ =~= dec(bytes as nat) + seq![' '] + unit_name(0));
    } else {
        let d: u128 = if k == 1 {
            1024
        } else if k == 2 {
            1048576
        } else if k == 3 {
            1073741824
        } else {
            1099511627776
        };
        assert(d == pow1024(k as nat));
        let q = round_half_even_exec(v * 10, d);
        out = dec_u128_chars_pub(q / 10);
        out.push('.');
        out.push(digit((q % 10) as u8));
        out.push(' ');
        if k == 1 {
            out.push('K');
        } else if k == 2 {
            out.push('M');
        } else if k == 3 {
            out.push('G');
        } else {
            out.push('T');
        }
        out.push('B');
        proof {
            reveal_with_fuel(dec, 2);
        }
        assert(out@ =~= dec((q / 10) as nat) + seq!['.'] + dec((q % 10) as nat) + seq![' ']
            + unit_name(k as nat));
    }
    string_of(&out)
}

} // verus!
