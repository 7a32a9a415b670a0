//! Operations on stack cells of 1, 2, 4, 8 or 16 bytes, read as unsigned values below
//! `modulus(w)`; signed variants read the same bits in two's complement.
use crate::encoding::{encode, le_bytes, to_le, lemma_modulus_values, modulus};
use vstd::arithmetic::div_mod::*;
use vstd::arithmetic::power2::*;
use vstd::prelude::*;

verus! {

/// The cell widths, in bytes.
pub open spec fn is_width(w: nat) -> bool {
    w == 1 || w == 2 || w == 4 || w == 8 || w == 16
}

/// The two's complement reading of the `w`-byte value `a`.
pub open spec fn signed_of(a: nat, w: nat) -> int {
    if a < modulus(w) / 2 {
        a as int
    } else {
        a - modulus(w)
    }
}

/// `a` read as signed when `signed` holds, else as unsigned.
pub open spec fn operand(a: nat, w: nat, signed: bool) -> int {
    if signed {
        signed_of(a, w)
    } else {
        a as int
    }
}

pub open spec fn min_signed(w: nat) -> int {
    -(modulus(w) / 2) as int
}

pub open spec fn max_signed(w: nat) -> int {
    modulus(w) / 2 - 1
}

/// Negation that sends the least signed value to the greatest instead of to itself.
pub open spec fn neg_sat(x: int, w: nat) -> int {
    if x == min_signed(w) {
        max_signed(w)
    } else {
        -x
    }
}

pub open spec fn abs(x: int) -> nat {
    if x < 0 {
        (-x) as nat
    } else {
        x as nat
    }
}

/// Division rounding toward zero.
pub open spec fn tdiv(x: int, y: int) -> int {
    if (x >= 0) == (y >= 0) {
        (abs(x) / abs(y)) as int
    } else {
        -((abs(x) / abs(y)) as int)
    }
}

/// Remainder of `tdiv`; it takes the sign of `x`.
pub open spec fn trem(x: int, y: int) -> int {
    if x >= 0 {
        (abs(x) % abs(y)) as int
    } else {
        -((abs(x) % abs(y)) as int)
    }
}

#[derive(Clone, Copy, Debug, PartialEq, Eq, Structural)]
pub enum Arith {
    Add,
    Sub,
    Mul,
    Div,
    Rem,
}

/// The exact result of `x op y`; none for a division or remainder by zero.
pub open spec fn arith_spec(op: Arith, x: int, y: int) -> Option<int> {
    match op {
        Arith::Add => Some(x + y),
        Arith::Sub => Some(x - y),
        Arith::Mul => Some(x * y),
        Arith::Div => if y == 0 {
            None
        } else {
            Some(tdiv(x, y))
        },
        Arith::Rem => if y == 0 {
            None
        } else {
            Some(trem(x, y))
        },
    }
}

#[derive(Clone, Copy, Debug, PartialEq, Eq, Structural)]
pub enum Cmp {
    Eq,
    Ne,
    Lt,
    Le,
    Gt,
    Ge,
}

pub open spec fn compare_spec(op: Cmp, x: int, y: int) -> bool {
    match op {
        Cmp::Eq => x == y,
        Cmp::Ne => x != y,
        Cmp::Lt => x < y,
        Cmp::Le => x <= y,
        Cmp::Gt => x > y,
        Cmp::Ge => x >= y,
    }
}

#[derive(Clone, Copy, Debug, PartialEq, Eq, Structural)]
pub enum Bits {
    And,
    Or,
    Xor,
}

pub open spec fn bits_spec(op: Bits, a: u128, b: u128) -> u128 {
    match op {
        Bits::And => a & b,
        Bits::Or => a | b,
        Bits::Xor => a ^ b,
    }
}

#[derive(Clone, Copy, Debug, PartialEq, Eq, Structural)]
pub enum Shift {
    Shl,
    Shr,
    Rotl,
    Rotr,
}

/// `v` (of `bits` bits) shifted or rotated by `k < bits`, before reduction to the width.
pub open spec fn shift_spec(op: Shift, v: nat, k: nat, bits: nat) -> nat {
    match op {
        Shift::Shl => v * pow2(k),
        Shift::Shr => v / pow2(k),
        Shift::Rotl => if k == 0 {
            v
        } else {
            (v * pow2(k)) % pow2(bits) + v / pow2((bits - k) as nat)
        },
        Shift::Rotr => if k == 0 {
            v
        } else {
            v / pow2(k) + (v * pow2((bits - k) as nat)) % pow2(bits)
        },
    }
}

/// Conversion of a value to a `b`-byte cell: truncation, or zero extension.
pub open spec fn convert(v: nat, b: nat) -> nat {
    v % modulus(b)
}

proof fn lemma_width(w: nat)
    requires
        is_width(w),
    ensures
        modulus(w) > 1,
        modulus(w) % 2 == 0,
        modulus(w) <= modulus(16),
        modulus(16) % modulus(w) == 0,
        8 * w <= 128,
{
    lemma_modulus_values();
    crate::encoding::lemma_modulus_divides(w, 16);
    lemma_mod_multiples_basic(modulus((16 - w) as nat) as int, modulus(w) as int);
    assert(modulus((16 - w) as nat) * modulus(w) == modulus(16)) by (nonlinear_arith)
        requires modulus(16) == modulus(w) * modulus((16 - w) as nat);
}

/// `modulus(w) - 1`, all bits of the cell set.
fn mask(w: usize) -> (r: u128)
    requires
        is_width(w as nat),
    ensures
        r + 1 == modulus(w as nat),
{
    proof {
        lemma_modulus_values();
    }
    if w == 1 {
        0xff
    } else if w == 2 {
        0xffff
    } else if w == 4 {
        0xffff_ffff
    } else if w == 8 {
        0xffff_ffff_ffff_ffff
    } else {
        0xffff_ffff_ffff_ffff_ffff_ffff_ffff_ffff
    }
}

/// `x % modulus(w)`.
fn reduce(x: u128, w: usize) -> (r: u128)
    requires
        is_width(w as nat),
    ensures
        r as nat == x as nat % modulus(w as nat),
{
    proof {
        lemma_modulus_values();
    }
    if w == 16 {
        x
    } else {
        x % (mask(w) + 1)
    }
}

/// `(-q) % modulus(w)`.
fn neg_mod(q: u128, w: usize) -> (r: u128)
    requires
        is_width(w as nat),
        q < modulus(w as nat),
    ensures
        r < modulus(w as nat),
        r as int == (-(q as int)) % (modulus(w as nat) as int),
{
    let m = mask(w);
    proof {
        let mm = modulus(w as nat) as int;
        if q > 0 {
            lemma_mod_multiples_vanish(1, -(q as int), mm);
            lemma_small_mod((mm - q) as nat, mm as nat);
        } else {
            assert(0int % mm == 0);
        }
    }
    if q == 0 {
        0
    } else {
        m - q + 1
    }
}

/// Two values congruent modulo `modulus(w)` encode alike.
proof fn lemma_encode_congruent(x: int, y: int, w: nat)
    requires
        x % (modulus(w) as int) == y % (modulus(w) as int),
    ensures
        encode(x, w) == encode(y, w),
{
}

/// A signed reading is congruent to the unsigned one.
proof fn lemma_operand_congruent(a: nat, w: nat, signed: bool)
    requires
        is_width(w),
        a < modulus(w),
    ensures
        operand(a, w, signed) % (modulus(w) as int) == a as int,
        operand(a, w, signed) == a as int || operand(a, w, signed) == a - modulus(w),
{
    lemma_width(w);
    let m = modulus(w) as int;
    lemma_small_mod(a, m as nat);
    if operand(a, w, signed) != a as int {
        lemma_mod_multiples_vanish(-1, a as int, m);
    }
}

/// The exact sign and magnitude of a signed reading.
fn magnitude(a: u128, w: usize) -> (r: u128)
    requires
        is_width(w as nat),
        a < modulus(w as nat),
    ensures
        r as nat == abs(signed_of(a as nat, w as nat)),
        r <= modulus(w as nat) / 2,
{
    proof {
        lemma_width(w as nat);
    }
    let m = mask(w);
    if a <= m / 2 {
        a
    } else {
        m - a + 1
    }
}

/// Reducing a wrapped 128-bit result to the width gives the exact result reduced.
proof fn lemma_wide_result(r: u128, x: int, w: nat)
    requires
        is_width(w),
        r as int == x % (modulus(16) as int),
    ensures
        (r as nat % modulus(w)) as int == x % (modulus(w) as int),
{
    lemma_width(w);
    lemma_modulus_values();
    crate::encoding::lemma_modulus_divides(w, 16);
    let a = modulus(w) as int;
    let b = modulus((16 - w) as nat) as int;
    lemma_mod_mod(x, a, b);
}

/// `x op y` on `w`-byte cells, read as signed or unsigned, wrapping to the width;
/// none for a division or remainder by zero.
pub fn arith(op: Arith, signed: bool, w: usize, a: u128, b: u128) -> (r: Option<u128>)
    requires
        is_width(w as nat),
        a < modulus(w as nat),
        b < modulus(w as nat),
    ensures
        r is None <==> arith_spec(op, operand(a as nat, w as nat, signed), operand(b as nat, w as nat, signed)) is None,
        r is Some ==> r->Some_0 as int == arith_spec(
            op,
            operand(a as nat, w as nat, signed),
            operand(b as nat, w as nat, signed),
        )->Some_0 % (modulus(w as nat) as int),
{
    let ghost wn = w as nat;
    let ghost mm = modulus(wn) as int;
    let ghost big = modulus(16) as int;
    let ghost x = operand(a as nat, wn, signed);
    let ghost y = operand(b as nat, wn, signed);
    proof {
        lemma_width(wn);
        lemma_modulus_values();
        lemma_operand_congruent(a as nat, wn, signed);
        lemma_operand_congruent(b as nat, wn, signed);
    }
    match op {
        Arith::Add => {
            let r = a.wrapping_add(b);
            proof {
                assert(r as int == (a + b) % big) by {
                    if a + b > u128::MAX {
                        lemma_mod_multiples_vanish(1, a + b - big, big);
                        lemma_small_mod((a + b - big) as nat, big as nat);
                    } else {
                        lemma_small_mod((a + b) as nat, big as nat);
                    }
                }
                lemma_wide_result(r, a + b, wn);
                lemma_add_mod_noop(x, y, mm);
                lemma_add_mod_noop(a as int, b as int, mm);
            }
            Some(reduce(r, w))
        },
        Arith::Sub => {
            let r = a.wrapping_sub(b);
            proof {
                assert(r as int == (a - b) % big) by {
                    if a - b < 0 {
                        lemma_mod_multiples_vanish(1, a - b, big);
                        lemma_small_mod((a - b + big) as nat, big as nat);
                    } else {
                        lemma_small_mod((a - b) as nat, big as nat);
                    }
                }
                lemma_wide_result(r, a - b, wn);
                lemma_sub_mod_noop(x, y, mm);
                lemma_sub_mod_noop(a as int, b as int, mm);
            }
            Some(reduce(r, w))
        },
        Arith::Mul => {
            let r = a.wrapping_mul(b);
            proof {
                lemma_wide_result(r, a * b, wn);
                lemma_mul_mod_noop_general(x, y, mm);
                lemma_mul_mod_noop_general(a as int, b as int, mm);
                lemma_mul_mod_noop_general(x % mm, y, mm);
            }
            Some(reduce(r, w))
        },
        Arith::Div | Arith::Rem => {
            if b == 0 {
                proof {
                    assert(y == 0) by {
                        if signed {
                            assert(signed_of(0, wn) == 0);
                        }
                    }
                }
                return None;
            }
            proof {
                assert(y != 0);
            }
            if !signed {
                let r = if op == Arith::Div {
                    a / b
                } else {
                    a % b
                };
                proof {
                    assert(r <= a) by {
                        if op == Arith::Div {
                            lemma_div_is_ordered_by_denominator(a as int, 1, b as int);
                        } else {
                            lemma_mod_decreases(a as nat, b as nat);
                        }
                    }
                    lemma_small_mod(r as nat, mm as nat);
                }
                Some(r)
            } else {
                let ma = magnitude(a, w);
                let mb = magnitude(b, w);
                let half = mask(w) / 2;
                if op == Arith::Div {
                    let q = ma / mb;
                    proof {
                        lemma_div_is_ordered_by_denominator(ma as int, 1, mb as int);
                        lemma_small_mod(q as nat, mm as nat);
                    }
                    if (a <= half) == (b <= half) {
                        Some(q)
                    } else {
                        Some(neg_mod(q, w))
                    }
                } else {
                    let q = ma % mb;
                    proof {
                        lemma_mod_decreases(ma as nat, mb as nat);
                        lemma_small_mod(q as nat, mm as nat);
                    }
                    if a <= half {
                        Some(q)
                    } else {
                        Some(neg_mod(q, w))
                    }
                }
            }
        },
    }
}

/// `x op y` on `w`-byte cells read as signed or unsigned.
pub fn compare(op: Cmp, signed: bool, w: usize, a: u128, b: u128) -> (r: bool)
    requires
        is_width(w as nat),
        a < modulus(w as nat),
        b < modulus(w as nat),
    ensures
        r == compare_spec(op, operand(a as nat, w as nat, signed), operand(b as nat, w as nat, signed)),
{
    proof {
        lemma_width(w as nat);
    }
    // Shift signed readings up by half the range so that unsigned order is signed order.
    let (ka, kb) = if signed {
        let half = mask(w) / 2 + 1;
        let ka = if a < half {
            a + half
        } else {
            a - half
        };
        let kb = if b < half {
            b + half
        } else {
            b - half
        };
        (ka, kb)
    } else {
        (a, b)
    };
    match op {
        Cmp::Eq => ka == kb,
        Cmp::Ne => ka != kb,
        Cmp::Lt => ka < kb,
        Cmp::Le => ka <= kb,
        Cmp::Gt => ka > kb,
        Cmp::Ge => ka >= kb,
    }
}

pub fn bitwise(op: Bits, a: u128, b: u128) -> (r: u128)
    ensures
        r == bits_spec(op, a, b),
{
    match op {
        Bits::And => a & b,
        Bits::Or => a | b,
        Bits::Xor => a ^ b,
    }
}

/// `2^k`.
fn pow2_of(k: u32) -> (r: u128)
    requires
        k < 128,
    ensures
        r as nat == pow2(k as nat),
{
    let mut p: u128 = 1;
    let mut i: u32 = 0;
    proof {
        lemma2_to64();
    }
    while i < k
        invariant
            i <= k < 128,
            p as nat == pow2(i as nat),
        decreases k - i,
    {
        proof {
            lemma_pow2_unfold((i + 1) as nat);
            lemma_pow2_strictly_increases((i + 1) as nat, 128);
            lemma_modulus_values();
            assert(pow2(128) == modulus(16));
        }
        p = p * 2;
        i = i + 1;
    }
    p
}

/// `v` shifted or rotated by `n` modulo the cell's bit width, reduced to the width.
pub fn shift(op: Shift, w: usize, v: u128, n: u8) -> (r: u128)
    requires
        is_width(w as nat),
        v < modulus(w as nat),
    ensures
        r as nat == shift_spec(op, v as nat, (n as nat) % (8 * w as nat), 8 * w as nat) % modulus(
            w as nat,
        ),
{
    let ghost wn = w as nat;
    let ghost big = modulus(16) as int;
    proof {
        lemma_width(wn);
        lemma_modulus_values();
    }
    let bits: u32 = 8 * w as u32;
    let k: u32 = n as u32 % bits;
    let p = pow2_of(k);
    proof {
        lemma_pow2_pos(k as nat);
    }
    match op {
        Shift::Shl => {
            let r = v.wrapping_mul(p);
            proof {
                lemma_wide_result(r, v * p, wn);
            }
            reduce(r, w)
        },
        Shift::Shr => {
            let r = v / p;
            proof {
                lemma_pow2_pos(k as nat);
                lemma_div_is_ordered_by_denominator(v as int, 1, p as int);
                lemma_small_mod(r as nat, modulus(wn));
            }
            r
        },
        Shift::Rotl | Shift::Rotr => {
            if k == 0 {
                proof {
                    lemma_small_mod(v as nat, modulus(wn));
                }
                return v;
            }
            let q = pow2_of(bits - k);
            proof {
                lemma_pow2_pos((bits - k) as nat);
            }
            // the part that moves up, and the part that wraps around to the bottom
            let (up, up_by, down_by) = if op == Shift::Rotl {
                (v.wrapping_mul(p), p, q)
            } else {
                (v.wrapping_mul(q), q, p)
            };
            let lo = reduce(up, w);
            let hi = v / down_by;
            let r = lo.wrapping_add(hi);
            proof {
                assert(pow2(8 * wn) == modulus(wn));
                lemma_mod_mod(v * up_by, modulus(wn) as int, big / (modulus(wn) as int));
                crate::encoding::lemma_modulus_divides(wn, 16);
                assert(modulus(wn) * (big / (modulus(wn) as int)) == big) by (nonlinear_arith)
                    requires big == modulus(wn) * modulus((16 - wn) as nat), modulus(wn) > 0;
                assert(lo as int == (v * up_by) % (modulus(wn) as int));
                assert(r as int == (lo + hi) % big) by {
                    if lo + hi > u128::MAX {
                        lemma_mod_multiples_vanish(1, lo + hi - big, big);
                        lemma_small_mod((lo + hi - big) as nat, big as nat);
                    } else {
                        lemma_small_mod((lo + hi) as nat, big as nat);
                    }
                }
                lemma_wide_result(r, lo + hi, wn);
            }
            reduce(r, w)
        },
    }
}

/// Saturating negation of the signed reading of `a`.
pub fn negate(w: usize, a: u128) -> (r: u128)
    requires
        is_width(w as nat),
        a < modulus(w as nat),
    ensures
        r as int == neg_sat(signed_of(a as nat, w as nat), w as nat) % (modulus(w as nat) as int),
{
    let ghost wn = w as nat;
    let ghost m = modulus(wn) as int;
    proof {
        lemma_width(wn);
    }
    let half = mask(w) / 2 + 1;
    if a == half {
        proof {
            lemma_small_mod((half - 1) as nat, m as nat);
        }
        half - 1
    } else {
        let r = neg_mod(a, w);
        proof {
            if a > half {
                lemma_mod_multiples_vanish(1, -(a as int), m);
            }
        }
        r
    }
}

/// `v` converted to a `b`-byte cell, encoded.
pub fn convert_to(v: u128, b: usize) -> (r: Vec<u8>)
    requires
        is_width(b as nat),
    ensures
        r@ == le_bytes(convert(v as nat, b as nat), b as nat),
{
    proof {
        lemma_width(b as nat);
        lemma_mod_mod(v as int, modulus(b as nat) as int, 1);
        crate::encoding::lemma_le_bytes_congruent(v as nat, convert(v as nat, b as nat), b as nat);
    }
    to_le(v, b)
}

} // verus!
