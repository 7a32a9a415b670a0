//! Properties of the instruction set, proved over the machine model.
use crate::alu::{convert, is_width, max_signed, min_signed, neg_sat, signed_of};
use crate::encoding::{encode, le_bytes, le_nat, lemma_le_round_trip, lemma_modulus_divides, modulus};
use crate::inter::Inter;
use crate::mem::overwrite;
use crate::vm::{store_op_spec, Event, exec_spec, next_spec, pop8_spec, push_next_spec, complete_spec, finish_file_read_spec, finish_read_spec, step_spec, drop_spec, dup_spec, pop_spec, push_spec, swap_spec, value_of, width_at, Machine};
use vstd::arithmetic::div_mod::{lemma_small_mod, lemma_mod_self_0};
use vstd::prelude::*;

verus! {

/// A push followed by a pop of the same width returns what was pushed, restores `sp`,
/// leaves every other register alone and changes memory only in the cell it used,
/// below the old `sp`.
pub proof fn lemma_push_then_pop(m: Machine, v: Seq<u8>)
    requires
        push_spec(m, v).1 is Ok,
    ensures
        ({
            let m1 = push_spec(m, v).0;
            let (m2, r) = pop_spec(m1, v.len());
            &&& r == Ok::<Seq<u8>, Inter>(v)
            &&& m2.sp == m.sp
            &&& m2.pc == m.pc && m2.cs == m.cs && m2.ih == m.ih && m2.ir == m.ir
            &&& m2.limit == m.limit
            &&& m2.mem.len() == m.mem.len()
            &&& forall|i: int|
                0 <= i < m.mem.len() && !(m.sp - v.len() <= i < m.sp) ==> m2.mem[i] == m.mem[i]
        }),
{
    let m1 = push_spec(m, v).0;
    assert(m1.mem.subrange(m1.sp as int, m1.sp + v.len()) =~= v);
}

/// Pushing the `w`-byte encoding of any value below `modulus(w)` and popping `w` bytes
/// gives the value back.
pub proof fn lemma_push_pop_value(m: Machine, w: nat, v: nat)
    requires
        is_width(w),
        v < modulus(w),
        push_spec(m, le_bytes(v, w)).1 is Ok,
    ensures
        value_of(pop_spec(push_spec(m, le_bytes(v, w)).0, w).1) == Ok::<nat, Inter>(v),
{
    lemma_le_round_trip(v, w);
    lemma_small_mod(v, modulus(w));
    lemma_push_then_pop(m, le_bytes(v, w));
}

/// Swapping the two top cells twice gives back the stack and memory as they were.
pub proof fn lemma_swap_twice(m: Machine, op: u8)
    requires
        30 <= op < 35,
        swap_spec(m, op).1 is Ok,
    ensures
        ({
            let m1 = swap_spec(m, op).0;
            let m2 = swap_spec(m1, op).0;
            &&& m2.mem == m.mem
            &&& m2.sp == m.sp
            &&& m2.cs == m.cs && m2.ih == m.ih && m2.ir == m.ir && m2.limit == m.limit
            &&& m.pc + 2 <= u64::MAX ==> swap_spec(m1, op).1 is Ok && m2.pc == m.pc + 2
        }),
{
    let w = width_at((op - 30) as nat);
    let sp = m.sp as int;
    let v1 = m.mem.subrange(sp, sp + w);
    let v2 = m.mem.subrange(sp + w, sp + 2 * w);
    let m1 = swap_spec(m, op).0;
    assert(m1.sp == m.sp);
    assert(m1.mem =~= overwrite(overwrite(m.mem, sp + w, v1), sp, v2));
    assert(m1.mem.subrange(sp, sp + w) =~= v2);
    assert(m1.mem.subrange(sp + w, sp + 2 * w) =~= v1);
    let m2 = swap_spec(m1, op).0;
    assert(m2.mem =~= overwrite(overwrite(m1.mem, sp + w, v2), sp, v1));
    assert(m2.mem =~= m.mem);
}

/// `dup` deepens the operand stack by the cell width, `drop` makes it shallower by as much.
pub proof fn lemma_dup_drop_depth(m: Machine, k: u8)
    requires
        k < 5,
    ensures
        dup_spec(m, (40 + k) as u8).1 is Ok ==> dup_spec(m, (40 + k) as u8).0.sp == m.sp - width_at(k as nat),
        dup_spec(m, (45 + k) as u8).1 is Ok ==> dup_spec(m, (45 + k) as u8).0.sp == m.sp - width_at(k as nat),
        drop_spec(m, (20 + k) as u8).1 is Ok ==> drop_spec(m, (20 + k) as u8).0.sp == m.sp + width_at(k as nat),
{
}

/// Converting from `a` bytes to `b` bytes and back is the identity on every `a`-byte
/// value exactly when `b` is at least `a`.
pub proof fn lemma_convert_round_trip(a: nat, b: nat)
    requires
        is_width(a),
        is_width(b),
    ensures
        (forall|v: nat| v < modulus(a) ==> #[trigger] convert(convert(v, b), a) == v) <==> b >= a,
{
    crate::encoding::lemma_modulus_values();
    if b >= a {
        lemma_modulus_divides(a, b);
        assert forall|v: nat| v < modulus(a) implies #[trigger] convert(convert(v, b), a) == v by {
            assert(modulus(a) <= modulus(b)) by (nonlinear_arith)
                requires
                    modulus(b) == modulus(a) * modulus((b - a) as nat),
                    modulus((b - a) as nat) > 0,
            ;
            lemma_small_mod(v, modulus(b));
            lemma_small_mod(v, modulus(a));
        }
    } else {
        lemma_modulus_divides(b, a);
        let v = modulus(b);
        assert(modulus(b) < modulus(a)) by (nonlinear_arith)
            requires
                modulus(a) == modulus(b) * modulus((a - b) as nat),
                modulus((a - b) as nat) > 1,
                modulus(b) > 0,
        ;
        lemma_mod_self_0(v as int);
        lemma_small_mod(0, modulus(a));
        assert(convert(convert(v, b), a) != v);
    }
}

/// Reading back the encoding of a value in the signed range gives the value.
pub proof fn lemma_signed_round_trip(x: int, w: nat)
    requires
        is_width(w),
        min_signed(w) <= x <= max_signed(w),
    ensures
        signed_of(le_nat(encode(x, w)), w) == x,
{
    crate::encoding::lemma_modulus_values();
    let m = modulus(w) as int;
    let u = (x % m) as nat;
    lemma_le_round_trip(u, w);
    lemma_small_mod(u, m as nat);
    if x >= 0 {
        lemma_small_mod(x as nat, m as nat);
    } else {
        vstd::arithmetic::div_mod::lemma_mod_multiples_vanish(1, x, m);
        lemma_small_mod((x + m) as nat, m as nat);
    }
}

/// Saturating negation twice is the identity on every signed value but the least one,
/// which negates to the greatest; through the cell encoding as well.
pub proof fn lemma_negate_twice(x: int, w: nat)
    requires
        is_width(w),
        min_signed(w) <= x <= max_signed(w),
    ensures
        neg_sat(min_signed(w), w) == max_signed(w),
        x != min_signed(w) ==> neg_sat(neg_sat(x, w), w) == x,
        x != min_signed(w) ==> neg_sat(
            signed_of(le_nat(encode(neg_sat(signed_of(le_nat(encode(x, w)), w), w), w)), w),
            w,
        ) == x,
{
    crate::encoding::lemma_modulus_values();
    lemma_signed_round_trip(x, w);
    lemma_signed_round_trip(neg_sat(x, w), w);
}

/// The length of the encoding of `op`: the opcode byte and its immediate, if any.
pub open spec fn encoding_len(op: u8) -> nat {
    if 10 <= op < 15 {
        1 + width_at((op - 10) as nat)
    } else if op == 224 || (230 <= op < 240) {
        9
    } else {
        1
    }
}

/// Whether `op` halts, calls, returns or branches, and so may set `pc` elsewhere.
pub open spec fn transfers_control(op: u8) -> bool {
    (1 <= op <= 4) || (90 <= op <= 92) || (95 <= op <= 97) || (220 <= op <= 222) || (225 <= op <= 227)
        || op == 229
}

/// Whether `op` hands a transfer to the host, which finishes it with `complete`,
/// `finish_read` or `finish_file_read`.
pub open spec fn hands_to_host(op: u8) -> bool {
    6 <= op <= 9
}

proof fn lemma_push_next_pc(m: Machine, v: Seq<u8>, n: nat)
    ensures
        push_next_spec(m, v, n).1 is Ok ==> push_next_spec(m, v, n).0.pc == m.pc + n,
{
}

proof fn lemma_advances_stack(m: Machine, op: u8)
    requires
        (op == 0 || op == 5 || (10 <= op < 20)),
        exec_spec(m, op).1 is Ok,
    ensures
        exec_spec(m, op).0.pc == m.pc + encoding_len(op),
{
    if op == 5 {
        let m1 = pop8_spec(m).0;
        lemma_push_next_pc(Machine { mem: m1.mem + Seq::new(pop8_spec(m).1->Ok_0 as nat, |i: int| 0u8), ..m1 }, le_bytes(m1.mem.len(), 8), 1);
    } else if 10 <= op < 15 {
        let m1 = next_spec(m, 1).0;
        lemma_push_next_pc(m1, m1.mem.subrange(m1.pc as int, m1.pc + width_at((op - 10) as nat)), width_at((op - 10) as nat));
    }
}

proof fn lemma_advances_cells(m: Machine, op: u8)
    requires
        20 <= op < 35,
        exec_spec(m, op).1 is Ok,
    ensures
        exec_spec(m, op).0.pc == m.pc + encoding_len(op),
{
}

proof fn lemma_advances_rot(m: Machine, op: u8)
    requires
        35 <= op < 40,
        exec_spec(m, op).1 is Ok,
    ensures
        exec_spec(m, op).0.pc == m.pc + encoding_len(op),
{
}

proof fn lemma_advances_dup(m: Machine, op: u8)
    requires
        40 <= op < 50,
        exec_spec(m, op).1 is Ok,
    ensures
        exec_spec(m, op).0.pc == m.pc + encoding_len(op),
{
}

proof fn lemma_advances_values(m: Machine, op: u8)
    requires
        (50 <= op < 90) || (100 <= op < 190) || (240 <= op < 245),
        exec_spec(m, op).1 is Ok,
    ensures
        exec_spec(m, op).0.pc == m.pc + encoding_len(op),
{
}

proof fn lemma_advances_memory(m: Machine, op: u8)
    requires
        (190 <= op < 220) || (230 <= op < 240),
        exec_spec(m, op).1 is Ok,
    ensures
        exec_spec(m, op).0.pc == m.pc + encoding_len(op),
{
}

proof fn lemma_advances_other(m: Machine, op: u8)
    requires
        op == 93 || op == 94 || op == 98 || op == 99 || op == 223 || op == 224 || op == 228 || op >= 245,
        exec_spec(m, op).1 is Ok,
    ensures
        exec_spec(m, op).0.pc == m.pc + encoding_len(op),
{
}

/// Every instruction that neither transfers control nor waits on the host, when it
/// succeeds, moves `pc` just past its own encoding.
pub proof fn lemma_pc_advances(m: Machine)
    requires
        m.pc < m.mem.len(),
        step_spec(m).1 is Ok,
        !transfers_control(m.mem[m.pc as int]),
        !hands_to_host(m.mem[m.pc as int]),
    ensures
        step_spec(m).0.pc == m.pc + encoding_len(m.mem[m.pc as int]),
{
    let op = m.mem[m.pc as int];
    assert(m.mem.subrange(m.pc as int, m.pc + 1)[0] == op);
    assert(step_spec(m) == exec_spec(m, op));
    if op == 0 || op == 5 || (10 <= op < 20) {
        lemma_advances_stack(m, op);
    } else if 20 <= op < 35 {
        lemma_advances_cells(m, op);
    } else if 35 <= op < 40 {
        lemma_advances_rot(m, op);
    } else if 40 <= op < 50 {
        lemma_advances_dup(m, op);
    } else if (50 <= op < 90) || (100 <= op < 190) || (240 <= op < 245) {
        lemma_advances_values(m, op);
    } else if (190 <= op < 220) || (230 <= op < 240) {
        lemma_advances_memory(m, op);
    } else {
        lemma_advances_other(m, op);
    }
}

/// An instruction that waits on the host leaves `pc` on its opcode; the call that
/// finishes it steps past the opcode.
pub proof fn lemma_host_transfer_advances(m: Machine, value: u64, ptr: u64, data: Seq<u8>, len: u64)
    requires
        m.pc < m.mem.len(),
        hands_to_host(m.mem[m.pc as int]),
    ensures
        step_spec(m).0.pc == m.pc,
        complete_spec(m, value).1 is Ok ==> complete_spec(m, value).0.pc == m.pc + 1,
        finish_read_spec(m, ptr, data).1 is Ok ==> finish_read_spec(m, ptr, data).0.pc == m.pc + 1,
        finish_file_read_spec(m, ptr, len, data).1 is Ok ==> finish_file_read_spec(m, ptr, len, data).0.pc
            == m.pc + 1,
{
    let op = m.mem[m.pc as int];
    assert(m.mem.subrange(m.pc as int, m.pc + 1)[0] == op);
}

/// A store whose cell would pass the end of memory faults with `OutOfMem` and writes
/// nothing, whatever the address and the value.
pub proof fn lemma_store_out_of_bounds(m: Machine, op: u8)
    requires
        215 <= op < 220,
    ensures
        ({
            let w = width_at((op - 215) as nat);
            let (m1, rv) = pop_spec(m, w);
            let (m2, rp) = pop8_spec(m1);
            rv is Ok && rp is Ok && rp->Ok_0 + w > m.mem.len() ==> store_op_spec(m, op) == (
                m2,
                Err::<Event, Inter>(Inter::OutOfMem),
            ) && m2.mem == m.mem
        }),
{
}

} // verus!
