//! Little-endian encoding of unsigned values as byte strings.
use vstd::arithmetic::div_mod::*;
use vstd::arithmetic::power2::*;
use vstd::prelude::*;

verus! {

/// Number of distinct values of a `w`-byte cell: `2^(8w)`.
pub open spec fn modulus(w: nat) -> nat {
    pow2(8 * w)
}

/// The value that the bytes `s` stand for, least significant byte first.
pub open spec fn le_nat(s: Seq<u8>) -> nat
    decreases s.len(),
{
    if s.len() == 0 {
        0
    } else {
        s[0] as nat + 256 * le_nat(s.drop_first())
    }
}

/// The `w` low-order bytes of `v`, least significant first.
pub open spec fn le_bytes(v: nat, w: nat) -> Seq<u8>
    decreases w,
{
    if w == 0 {
        Seq::empty()
    } else {
        seq![(v % 256) as u8] + le_bytes(v / 256, (w - 1) as nat)
    }
}

/// A `w`-byte cell holding `x` reduced modulo `2^(8w)` (two's complement for negative `x`).
pub open spec fn encode(x: int, w: nat) -> Seq<u8> {
    le_bytes((x % (modulus(w) as int)) as nat, w)
}

pub proof fn lemma_modulus_step(w: nat)
    ensures
        modulus(w + 1) == 256 * modulus(w),
        modulus(w) > 0,
{
    lemma2_to64();
    lemma_pow2_adds(8, 8 * w);
    assert(8 * (w + 1) == 8 + 8 * w) by (nonlinear_arith);
    lemma_pow2_pos(8 * w);
}

pub proof fn lemma_modulus_values()
    ensures
        modulus(1) == 0x100,
        modulus(2) == 0x1_0000,
        modulus(4) == 0x1_0000_0000,
        modulus(8) == 0x1_0000_0000_0000_0000,
        modulus(16) == 0x1_0000_0000_0000_0000_0000_0000_0000_0000,
{
    lemma2_to64();
    lemma_pow2_adds(64, 64);
}

pub proof fn lemma_modulus_divides(w: nat, v: nat)
    requires
        w <= v,
    ensures
        modulus(v) == modulus(w) * modulus((v - w) as nat),
        modulus(w) > 0,
        modulus((v - w) as nat) > 0,
{
    lemma_pow2_adds(8 * w, 8 * (v - w) as nat);
    assert(8 * w + 8 * (v - w) as nat == 8 * v) by (nonlinear_arith)
        requires w <= v;
    lemma_pow2_pos(8 * w);
    lemma_pow2_pos(8 * (v - w) as nat);
}

pub proof fn lemma_le_nat_bound(s: Seq<u8>)
    ensures
        le_nat(s) < modulus(s.len()),
    decreases s.len(),
{
    lemma_modulus_step(0);
    lemma2_to64();
    if s.len() > 0 {
        lemma_le_nat_bound(s.drop_first());
        lemma_modulus_step((s.len() - 1) as nat);
        assert(le_nat(s) < modulus(s.len())) by (nonlinear_arith)
            requires
                le_nat(s) == s[0] as nat + 256 * le_nat(s.drop_first()),
                s[0] < 256,
                le_nat(s.drop_first()) < modulus((s.len() - 1) as nat),
                modulus(s.len()) == 256 * modulus((s.len() - 1) as nat),
        ;
    }
}

/// Values that agree modulo `2^(8w)` have the same `w`-byte encoding.
pub proof fn lemma_le_bytes_congruent(x: nat, y: nat, w: nat)
    requires
        x % modulus(w) == y % modulus(w),
    ensures
        le_bytes(x, w) == le_bytes(y, w),
    decreases w,
{
    if w > 0 {
        let p = modulus((w - 1) as nat);
        lemma_modulus_step((w - 1) as nat);
        lemma_mod_mod(x as int, 256, p as int);
        lemma_mod_mod(y as int, 256, p as int);
        lemma_mod_breakdown(x as int, 256, p as int);
        lemma_mod_breakdown(y as int, 256, p as int);
        assert((x / 256) % p == (y / 256) % p);
        lemma_le_bytes_congruent(x / 256, y / 256, (w - 1) as nat);
    }
}

pub proof fn lemma_le_bytes_len(v: nat, w: nat)
    ensures
        le_bytes(v, w).len() == w,
    decreases w,
{
    if w > 0 {
        lemma_le_bytes_len(v / 256, (w - 1) as nat);
    }
}

/// Reading back the encoding of `v` gives `v` reduced to the cell's width.
pub proof fn lemma_le_round_trip(v: nat, w: nat)
    ensures
        le_bytes(v, w).len() == w,
        le_nat(le_bytes(v, w)) == v % modulus(w),
    decreases w,
{
    lemma_le_bytes_len(v, w);
    lemma_modulus_step(0);
    lemma2_to64();
    if w > 0 {
        let p = modulus((w - 1) as nat);
        lemma_le_round_trip(v / 256, (w - 1) as nat);
        lemma_modulus_step((w - 1) as nat);
        let s = le_bytes(v, w);
        assert(s.drop_first() =~= le_bytes(v / 256, (w - 1) as nat));
        lemma_mod_breakdown(v as int, 256, p as int);
    }
}

/// `encode` of a value already below the modulus is its plain encoding.
pub proof fn lemma_encode_nat(v: nat, w: nat)
    ensures
        encode(v as int, w) == le_bytes(v, w),
{
    lemma_pow2_pos(8 * w);
    lemma_mod_mod(v as int, modulus(w) as int, 1);
    lemma_le_bytes_congruent((v as int % (modulus(w) as int)) as nat, v, w);
}

/// The value of a little-endian byte string of at most 16 bytes.
pub fn from_le(b: &[u8]) -> (r: u128)
    requires
        b@.len() <= 16,
    ensures
        r as nat == le_nat(b@),
{
    let mut acc: u128 = 0;
    let mut i: usize = b.len();
    proof {
        assert(b@.subrange(i as int, b@.len() as int) =~= Seq::<u8>::empty());
    }
    while i > 0
        invariant
            i <= b@.len() <= 16,
            acc as nat == le_nat(b@.subrange(i as int, b@.len() as int)),
        decreases i,
    {
        let ghost tail = b@.subrange(i as int, b@.len() as int);
        let ghost next = b@.subrange(i - 1, b@.len() as int);
        proof {
            assert(next.drop_first() =~= tail);
            lemma_le_nat_bound(next);
            lemma_modulus_divides(next.len(), 16);
            lemma_modulus_values();
            assert(modulus(next.len()) <= modulus(16)) by (nonlinear_arith)
                requires
                    modulus(16) == modulus(next.len()) * modulus((16 - next.len()) as nat),
                    modulus((16 - next.len()) as nat) > 0,
            ;
        }
        acc = acc * 256 + b[i - 1] as u128;
        i = i - 1;
    }
    proof {
        assert(b@.subrange(0, b@.len() as int) =~= b@);
    }
    acc
}

/// The `w` low-order bytes of `v`, least significant first.
pub fn to_le(v: u128, w: usize) -> (r: Vec<u8>)
    ensures
        r@ == le_bytes(v as nat, w as nat),
{
    let mut out: Vec<u8> = Vec::new();
    let mut x: u128 = v;
    let mut i: usize = 0;
    while i < w
        invariant
            i <= w,
            out@ + le_bytes(x as nat, (w - i) as nat) == le_bytes(v as nat, w as nat),
        decreases w - i,
    {
        let ghost before = out@;
        out.push((x % 256) as u8);
        proof {
            assert(le_bytes(x as nat, (w - i) as nat) == seq![(x % 256) as u8] + le_bytes(
                (x / 256) as nat,
                (w - i - 1) as nat,
            ));
            assert(out@ + le_bytes((x / 256) as nat, (w - i - 1) as nat) =~= before + le_bytes(
                x as nat,
                (w - i) as nat,
            ));
        }
        x = x / 256;
        i = i + 1;
    }
    proof {
        assert(out@ + le_bytes(x as nat, 0) =~= out@);
    }
    out
}

} // verus!
