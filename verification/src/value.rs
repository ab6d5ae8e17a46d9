//! Fixed-width signal values: bit-widths, signedness, and the truncation that
//! constrains an arbitrary integer to a declared width (modulo-2^w reduction
//! for unsigned signals, two's-complement wrap-around for signed ones).

use vstd::arithmetic::div_mod::{
    lemma_fundamental_div_mod, lemma_fundamental_div_mod_converse, lemma_mod_bound,
    lemma_mod_multiples_vanish, lemma_small_mod,
};
use vstd::arithmetic::power2::{lemma_pow2_adds, lemma_pow2_pos, lemma_pow2_strictly_increases, pow2};
use vstd::prelude::*;

verus! {

/// Whether a signal's bit pattern is read as a two's-complement or a plain
/// binary number.
#[derive(Clone, Copy, PartialEq, Eq, Structural, Debug)]
pub enum Signedness {
    Unsigned,
    Signed,
}

/// The widest signal the core supports.  Values of any accepted width fit an
/// `i64`, and any product of two in-range values fits an `i128` with room to
/// spare for the sums an expression can build on top of it.
pub const MAX_WIDTH: u32 = 62;

/// An accepted bit-width: at least one bit, and narrow enough that every
/// in-range value fits the simulator's value word.
pub open spec fn width_ok(w: u32) -> bool {
    1 <= w <= MAX_WIDTH
}

/// The values a signal of width `w` and signedness `s` can hold:
/// `0 <= v < 2^w` unsigned, `-2^(w-1) <= v < 2^(w-1)` signed.
pub open spec fn in_range(v: int, w: u32, s: Signedness) -> bool {
    match s {
        Signedness::Unsigned => 0 <= v < pow2(w as nat),
        Signedness::Signed => -(pow2((w - 1) as nat) as int) <= v < pow2((w - 1) as nat),
    }
}

/// The result of storing the arbitrary integer `v` into a signal of width `w`
/// and signedness `s`: the unique in-range value congruent to `v` mod `2^w`.
pub open spec fn trunc_val(v: int, w: u32, s: Signedness) -> int {
    let m = v % (pow2(w as nat) as int);
    if s == Signedness::Signed && m >= pow2((w - 1) as nat) {
        m - pow2(w as nat)
    } else {
        m
    }
}

/// Truncation always lands in the declared range.
pub proof fn lemma_trunc_in_range(v: int, w: u32, s: Signedness)
    requires
        width_ok(w),
    ensures
        in_range(trunc_val(v, w, s), w, s),
{
    let p = pow2(w as nat) as int;
    let h = pow2((w - 1) as nat) as int;
    lemma_pow2_pos(w as nat);
    lemma_pow2_adds((w - 1) as nat, 1);
    assert(pow2(1) == 2) by {
        vstd::arithmetic::power2::lemma2_to64();
    }
    lemma_mod_bound(v, p);
}

/// A value already in range is unchanged by truncation.
pub proof fn lemma_trunc_id(v: int, w: u32, s: Signedness)
    requires
        width_ok(w),
        in_range(v, w, s),
    ensures
        trunc_val(v, w, s) == v,
{
    let p = pow2(w as nat) as int;
    let h = pow2((w - 1) as nat) as int;
    lemma_pow2_pos(w as nat);
    lemma_pow2_pos((w - 1) as nat);
    lemma_pow2_adds((w - 1) as nat, 1);
    assert(pow2(1) == 2) by {
        vstd::arithmetic::power2::lemma2_to64();
    }
    if v >= 0 {
        lemma_small_mod(v as nat, p as nat);
    } else {
        // v + p is in [0, p), so v % p == v + p, which triggers the signed
        // adjustment back down to v.
        lemma_mod_multiples_vanish(1, v, p);
        lemma_small_mod((v + p) as nat, p as nat);
        assert(v % p == v + p);
    }
}

/// Truncation respects congruence mod `2^w`: adding a multiple of `2^w`
/// before truncating changes nothing.
pub proof fn lemma_trunc_multiples_vanish(a: int, v: int, w: u32, s: Signedness)
    requires
        width_ok(w),
    ensures
        trunc_val(a * (pow2(w as nat) as int) + v, w, s) == trunc_val(v, w, s),
{
    let p = pow2(w as nat) as int;
    lemma_pow2_pos(w as nat);
    lemma_mod_multiples_vanish(a, v, p);
}

/// Computes `2^w` as a machine word.
pub fn pow2_u128(w: u32) -> (r: u128)
    requires
        w <= 126,
    ensures
        r == pow2(w as nat),
{
    let mut i: u32 = 0;
    let mut r: u128 = 1;
    proof {
        vstd::arithmetic::power2::lemma2_to64();
    }
    while i < w
        invariant
            i <= w <= 126,
            r == pow2(i as nat),
        decreases w - i,
    {
        proof {
            lemma_pow2_adds(i as nat, 1);
            vstd::arithmetic::power2::lemma2_to64();
            lemma_pow2_strictly_increases((i + 1) as nat, 127);
            lemma_pow2_127();
        }
        r = r * 2;
        i = i + 1;
    }
    r
}

/// `2^126` and `2^127` written out, so bounds on narrower powers stay in
/// linear arithmetic.
proof fn lemma_pow2_127()
    ensures
        pow2(126) == 0x40000000000000000000000000000000,
        pow2(127) == 0x80000000000000000000000000000000,
{
    vstd::arithmetic::power2::lemma2_to64();
    vstd::arithmetic::power2::lemma2_to64_rest();
    lemma_pow2_adds(63, 63);
    lemma_pow2_adds(126, 1);
    assert(pow2(126) == 0x40000000000000000000000000000000) by (nonlinear_arith)
        requires
            pow2(126) == pow2(63) * pow2(63),
            pow2(63) == 0x8000000000000000,
    ;
}

/// Truncates `v` to width `w` with signedness `s`: the executable form of
/// `trunc_val`.
pub fn trunc_i128(v: i128, w: u32, s: Signedness) -> (r: i64)
    requires
        width_ok(w),
    ensures
        r == trunc_val(v as int, w, s),
        in_range(r as int, w, s),
{
    proof {
        lemma_pow2_pos(w as nat);
        lemma_pow2_pos((w - 1) as nat);
        lemma_pow2_adds((w - 1) as nat, 1);
        vstd::arithmetic::power2::lemma2_to64();
        vstd::arithmetic::power2::lemma2_to64_rest();
        if (w as nat) < 62 {
            lemma_pow2_strictly_increases(w as nat, 62);
        }
        lemma_trunc_in_range(v as int, w, s);
    }
    let ghost pi: int = pow2(w as nat) as int;
    let p: u128 = pow2_u128(w);
    assert(2 <= p <= 0x4000000000000000);
    let m: u128 = if v >= 0 {
        (v as u128) % p
    } else {
        // For v < 0, Euclidean v mod 2^w equals 2^w - 1 - ((-(v+1)) mod 2^w).
        let u_exec: i128 = -(v + 1);
        let k: u128 = (u_exec as u128) % p;
        proof {
            let u = -(v as int + 1);
            assert(u_exec as u128 == u);
            assert(k as int == u % pi);
            lemma_mod_bound(u, pi);
            lemma_fundamental_div_mod(u, pi);
            assert(u == pi * (u / pi) + u % pi);
            assert(v as int == (-(u / pi) - 1) * pi + (pi - 1 - (k as int))) by (nonlinear_arith)
                requires
                    u == pi * (u / pi) + (k as int),
                    v as int == -u - 1,
            ;
            lemma_fundamental_div_mod_converse(
                v as int,
                pi,
                -(u / pi) - 1,
                pi - 1 - (k as int),
            );
        }
        p - 1 - k
    };
    proof {
        lemma_mod_bound(v as int, pi);
        assert(m as int == (v as int) % pi);
    }
    let half: u128 = p / 2;
    assert(half as int == pow2((w - 1) as nat));
    if s == Signedness::Signed && m >= half {
        ((m as i128) - (p as i128)) as i64
    } else {
        m as i64
    }
}

/// Whether `v` lies in the declared range of a signal of width `w` and
/// signedness `s`: the executable form of `in_range`.
pub fn in_range_i64(v: i64, w: u32, s: Signedness) -> (r: bool)
    requires
        width_ok(w),
    ensures
        r == in_range(v as int, w, s),
{
    proof {
        lemma_pow2_pos((w - 1) as nat);
        lemma_pow2_strictly_increases(w as nat, 127);
        lemma_pow2_strictly_increases((w - 1) as nat, 127);
        lemma_pow2_127();
    }
    match s {
        Signedness::Unsigned => {
            let p: u128 = pow2_u128(w);
            0 <= v && (v as i128) < (p as i128)
        },
        Signedness::Signed => {
            let half: u128 = pow2_u128(w - 1);
            -(half as i128) <= (v as i128) && (v as i128) < (half as i128)
        },
    }
}

} // verus!
