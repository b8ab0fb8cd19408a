//! Human-readable byte sizes, as `format!("{:.1} GB", bytes as f64 / 2^30)`
//! and its MB and KB forms write them, computed exactly over integers.

use vstd::prelude::*;
use crate::text::{decimal, decimal_chars, digit_char, parse_unsigned, parse_unsigned_chars, chars_of, push_all};
use crate::trusted::string_of;

verus! {

/// The power of two by which a `u64` has to be scaled down to fit the 53-bit
/// significand of an `f64`.
pub open spec fn f64_step(n: nat) -> nat {
    if n < 0x20_0000_0000_0000 {
        1
    } else if n < 0x40_0000_0000_0000 {
        2
    } else if n < 0x80_0000_0000_0000 {
        4
    } else if n < 0x100_0000_0000_0000 {
        8
    } else if n < 0x200_0000_0000_0000 {
        16
    } else if n < 0x400_0000_0000_0000 {
        32
    } else if n < 0x800_0000_0000_0000 {
        64
    } else if n < 0x1000_0000_0000_0000 {
        128
    } else if n < 0x2000_0000_0000_0000 {
        256
    } else if n < 0x4000_0000_0000_0000 {
        512
    } else if n < 0x8000_0000_0000_0000 {
        1024
    } else {
        2048
    }
}

/// `a / d` rounded to the nearest integer, ties to the even one.
pub open spec fn div_round_even(a: nat, d: nat) -> nat
    recommends
        d > 0,
{
    let q = a / d;
    let r = a % d;
    if 2 * r > d || (2 * r == d && q % 2 == 1) {
        q + 1
    } else {
        q
    }
}

/// The value of `n as f64` for an integer below 2^64: `n` rounded to the
/// nearest multiple of its scaling step, ties to an even multiple.
pub open spec fn as_f64_value(n: nat) -> nat {
    div_round_even(n, f64_step(n)) * f64_step(n)
}

/// An exact value `num / den` written with one decimal, rounded half to
/// even, followed by `unit`.
pub open spec fn one_decimal(num: nat, den: nat, unit: Seq<char>) -> Seq<char> {
    let t = div_round_even(num * 10, den);
    decimal(t / 10) + seq!['.', digit_char(t % 10)] + unit
}

/// The size text: GB with one decimal from 2^30 bytes on, MB with one decimal
/// from 2^20 bytes on, whole KB below.
pub open spec fn size_text(bytes: nat) -> Seq<char> {
    if bytes >= 1_073_741_824 {
        one_decimal(as_f64_value(bytes), 1_073_741_824, " GB"@)
    } else if bytes >= 1_048_576 {
        one_decimal(bytes, 1_048_576, " MB"@)
    } else {
        decimal(bytes / 1024) + " KB"@
    }
}

fn f64_step_exec(n: u64) -> (p: u64)
    ensures
        p == f64_step(n as nat),
        1 <= p <= 2048,
{
    if n < 0x20_0000_0000_0000 {
        1
    } else if n < 0x40_0000_0000_0000 {
        2
    } else if n < 0x80_0000_0000_0000 {
        4
    } else if n < 0x100_0000_0000_0000 {
        8
    } else if n < 0x200_0000_0000_0000 {
        16
    } else if n < 0x400_0000_0000_0000 {
        32
    } else if n < 0x800_0000_0000_0000 {
        64
    } else if n < 0x1000_0000_0000_0000 {
        128
    } else if n < 0x2000_0000_0000_0000 {
        256
    } else if n < 0x4000_0000_0000_0000 {
        512
    } else if n < 0x8000_0000_0000_0000 {
        1024
    } else {
        2048
    }
}

fn div_round_even_exec(a: u128, d: u128) -> (r: u128)
    requires
        0 < d < 0x1_0000_0000_0000_0000,
        a < 0x1_0000_0000_0000_0000_0000_0000,
    ensures
        r == div_round_even(a as nat, d as nat),
{
    let q = a / d;
    let rem = a % d;
    proof {
        assert(q <= a) by (nonlinear_arith)
            requires
                q == a / d,
                d > 0,
        ;
        assert(rem < d) by (nonlinear_arith)
            requires
                rem == a % d,
                d > 0,
        ;
    }
    if 2 * rem > d || (2 * rem == d && q % 2 == 1) {
        q + 1
    } else {
        q
    }
}

fn one_decimal_exec(num: u128, den: u128, unit: &[char]) -> (r: Vec<char>)
    requires
        0 < den < 0x1_0000_0000_0000_0000,
        num < 0x1_0000_0000_0000_0000_0000,
    ensures
        r@ == one_decimal(num as nat, den as nat, unit@),
{
    let t = div_round_even_exec(num * 10, den);
    proof {
        assert(t <= num * 10 + 1) by (nonlinear_arith)
            requires
                t == div_round_even((num * 10) as nat, den as nat),
                den > 0,
        ;
    }
    let mut out = decimal_chars(t / 10);
    out.push('.');
    out.push(crate::text::digit_chars_exec((t % 10) as u64));
    push_all(&mut out, unit);
    proof {
        assert(out@ =~= one_decimal(num as nat, den as nat, unit@));
    }
    out
}

fn size_text_chars(bytes: u64) -> (r: Vec<char>)
    ensures
        r@ == size_text(bytes as nat),
{
    if bytes >= 1_073_741_824 {
        let step = f64_step_exec(bytes);
        let q = div_round_even_exec(bytes as u128, step as u128);
        proof {
            assert(q <= bytes as nat + 1) by (nonlinear_arith)
                requires
                    q == div_round_even(bytes as nat, step as nat),
                    step >= 1,
            ;
        }
        let v: u128 = q * (step as u128);
        let gb = chars_of(" GB");
        one_decimal_exec(v, 1_073_741_824, gb.as_slice())
    } else if bytes >= 1_048_576 {
        let mb = chars_of(" MB");
        one_decimal_exec(bytes as u128, 1_048_576, mb.as_slice())
    } else {
        let mut out = decimal_chars((bytes / 1024) as u128);
        let kb = chars_of(" KB");
        push_all(&mut out, kb.as_slice());
        out
    }
}

/// A byte count for display: `"1.5 GB"`, `"700.0 MB"`, `"12 KB"`.
pub fn format_size(bytes: u64) -> (s: String)
    ensures
        s@ == size_text(bytes as nat),
{
    string_of(size_text_chars(bytes).as_slice())
}

/// A byte count given as text, for display: the count as `u64` (0 when the
/// text does not parse), written as `format_size` writes it.
pub fn format_bytes(s: &str) -> (r: String)
    ensures
        r@ == size_text(
            match parse_unsigned(s@, 0xffff_ffff_ffff_ffff) {
                Some(v) => v,
                None => 0,
            },
        ),
{
    let v = chars_of(s);
    let n: u64 = match parse_unsigned_chars(v.as_slice(), 0xffff_ffff_ffff_ffff) {
        Some(x) => x,
        None => 0,
    };
    format_size(n)
}

} // verus!
