//! Human-readable byte counts: binary units with one decimal digit.
//!
//! A count is shown as a double-precision number would show it after the
//! division by the unit: the count is first held to a 53-bit significand,
//! then rounded to the nearest tenth of the unit, ties to the even tenth.
//! All of it is computed in integers.

use crate::text::{decimal, digit_char, digit_to_char, push_decimal};
use vstd::arithmetic::div_mod::lemma_div_denominator;
use vstd::prelude::*;
use vstd::string::StringExecFns;

verus! {

/// Bytes in one KiB.
pub const KIB: u64 = 1024;

/// Bytes in one MiB.
pub const MIB: u64 = 1024 * 1024;

/// Bytes in one GiB.
pub const GIB: u64 = 1024 * 1024 * 1024;

/// The least integer that a double-precision number cannot tell from its
/// successor: two to the power of 53.
pub const SIGNIFICAND_LIMIT: u64 = 0x20_0000_0000_0000;

/// `a / d` rounded to the nearest integer; a quotient exactly half way
/// between two integers goes to the even one.
pub open spec fn round_half_even(a: nat, d: nat) -> nat
    recommends
        d > 0,
{
    let q = a / d;
    let r = a % d;
    if 2 * r > d || (2 * r == d && q % 2 == 1) {
        q + 1
    } else {
        q
    }
}

/// The distance between neighbouring numbers with a 53-bit significand at
/// the magnitude of `n`: the least power of two `p` with `n / p` below
/// [`SIGNIFICAND_LIMIT`].
pub open spec fn significand_step(n: nat) -> nat
    decreases n,
{
    if n < SIGNIFICAND_LIMIT {
        1
    } else {
        2 * significand_step(n / 2)
    }
}

/// `n` as a 53-bit significand holds it: unchanged below
/// [`SIGNIFICAND_LIMIT`], above it rounded to the nearest multiple of
/// [`significand_step`], ties to the even multiple.
pub open spec fn significand_image(n: nat) -> nat {
    round_half_even(n, significand_step(n)) * significand_step(n)
}

/// The number of tenths of `unit` that is nearest to `n` bytes.
pub open spec fn tenths_of(n: nat, unit: nat) -> nat
    recommends
        unit > 0,
{
    round_half_even(significand_image(n) * 10, unit)
}

/// `n` bytes in the given unit: integer part, a point, one decimal digit,
/// then the unit's name.
pub open spec fn scaled_text(n: nat, unit: nat, suffix: Seq<char>) -> Seq<char>
    recommends
        unit > 0,
{
    let t = tenths_of(n, unit);
    decimal(t / 10) + seq!['.', digit_char(t % 10)] + suffix
}

/// The text of a byte count: plain bytes below 1024, otherwise the largest
/// of KiB, MiB and GiB that does not exceed the count, with one decimal
/// digit.
pub open spec fn human_size(n: nat) -> Seq<char> {
    if n < KIB {
        decimal(n) + "B"@
    } else if n < MIB {
        scaled_text(n, KIB as nat, "KiB"@)
    } else if n < GIB {
        scaled_text(n, MIB as nat, "MiB"@)
    } else {
        scaled_text(n, GIB as nat, "GiB"@)
    }
}

/// A number of bytes that renders itself in binary units.
#[derive(Clone, Copy, Debug, PartialEq, Eq, Structural)]
pub struct ByteCount(pub u64);

impl View for ByteCount {
    type V = nat;

    open spec fn view(&self) -> nat {
        self.0 as nat
    }
}

/// Below [`SIGNIFICAND_LIMIT`] every integer is its own image.
pub proof fn lemma_small_counts_are_exact(n: nat)
    requires
        n < SIGNIFICAND_LIMIT,
    ensures
        significand_step(n) == 1,
        significand_image(n) == n,
{
    assert(n / 1 == n && n % 1 == 0);
}

fn round_half_even_exec(a: u128, d: u64) -> (q: u128)
    requires
        d > 0,
        a < 0x1_0000_0000_0000_0000_0000,
    ensures
        q == round_half_even(a as nat, d as nat),
{
    let wide: u128 = d as u128;
    let q: u128 = a / wide;
    let r: u128 = a % wide;
    if 2 * r > wide || (2 * r == wide && q % 2 == 1) {
        q + 1
    } else {
        q
    }
}

fn significand_image_exec(n: u64) -> (m: u128)
    ensures
        m == significand_image(n as nat),
        m <= 0x2_0000_0000_0000_0000,
{
    let mut p: u64 = 1;
    let mut m: u64 = n;
    while m >= SIGNIFICAND_LIMIT
        invariant
            p >= 1,
            p * m <= n,
            m as nat == (n as nat) / (p as nat),
            significand_step(n as nat) == p * significand_step(m as nat),
        decreases m,
    {
        proof {
            lemma_div_denominator(n as int, p as int, 2);
            assert(2 * p * (m / 2) <= p * m) by (nonlinear_arith)
                requires
                    p >= 1,
                    2 * (m / 2) <= m,
            ;
            assert(p * (2 * significand_step((m / 2) as nat)) == (2 * p) * significand_step(
                (m / 2) as nat,
            )) by (nonlinear_arith);
            assert(p * 2 <= 0xffff_ffff_ffff_ffff) by (nonlinear_arith)
                requires
                    p * m <= n,
                    m >= 0x20_0000_0000_0000,
                    n <= 0xffff_ffff_ffff_ffff,
                    p >= 1,
            ;
        }
        m = m / 2;
        p = p * 2;
    }
    assert(significand_step(n as nat) == p) by (nonlinear_arith)
        requires
            significand_step(n as nat) == p * significand_step(m as nat),
            significand_step(m as nat) == 1,
    ;
    let q = round_half_even_exec(n as u128, p);
    proof {
        let s = p as nat;
        let nn = n as nat;
        assert((nn / s + 1) * s <= nn + s) by (nonlinear_arith)
            requires
                s > 0,
        ;
        assert(q * s <= (nn / s + 1) * s) by (nonlinear_arith)
            requires
                q <= nn / s + 1,
        ;
    }
    q * (p as u128)
}

impl ByteCount {
    /// Renders the count as [`human_size`] describes.
    pub fn to_string(&self) -> (s: String)
        ensures
            s@ == human_size(self@),
    {
        let n = self.0;
        let mut out = String::new();
        if n < KIB {
            push_decimal(&mut out, n as u128);
            out.append("B");
            assert(out@ =~= decimal(n as nat) + "B"@);
        } else if n < MIB {
            push_scaled(&mut out, n, KIB, "KiB");
            assert(out@ =~= scaled_text(n as nat, KIB as nat, "KiB"@));
        } else if n < GIB {
            push_scaled(&mut out, n, MIB, "MiB");
            assert(out@ =~= scaled_text(n as nat, MIB as nat, "MiB"@));
        } else {
            push_scaled(&mut out, n, GIB, "GiB");
            assert(out@ =~= scaled_text(n as nat, GIB as nat, "GiB"@));
        }
        out
    }
}

/// Appends `n` bytes expressed in `unit`, with one decimal digit and the
/// unit's name.
fn push_scaled(out: &mut String, n: u64, unit: u64, suffix: &str)
    requires
        unit > 0,
    ensures
        final(out)@ == old(out)@ + scaled_text(n as nat, unit as nat, suffix@),
{
    let image = significand_image_exec(n);
    let t = round_half_even_exec(image * 10, unit);
    push_decimal(out, t / 10);
    out.push('.');
    out.push(digit_to_char((t % 10) as u8));
    out.append(suffix);
    assert(final(out)@ =~= old(out)@ + scaled_text(n as nat, unit as nat, suffix@));
}

} // verus!
