//! The machine: registers over one flat memory, and the semantics of each instruction.
use crate::alu::{arith, arith_spec, bits_spec, bitwise, compare, compare_spec, convert, convert_to, is_width, negate, neg_sat, operand, shift, shift_spec, signed_of, Arith, Bits, Cmp, Shift};
use crate::encoding::{le_bytes, le_nat, from_le, to_le, encode, modulus, lemma_modulus_values, lemma_le_nat_bound};
use crate::inter::Inter;
use crate::mem::{overwrite, MEM, DEFAULT_LIMIT};
use crate::reg::Reg;
use vstd::arithmetic::div_mod::lemma_small_mod;
use vstd::prelude::*;

verus! {

/// The whole state of the machine, as the contracts speak of it.
pub struct Machine {
    pub pc: u64,
    pub sp: u64,
    pub cs: u64,
    pub ih: u64,
    pub ir: i8,
    pub mem: Seq<u8>,
    pub limit: nat,
}

/// What the host has to do after an instruction.
#[derive(Clone, Copy, Debug, PartialEq, Eq, Structural)]
pub enum Event {
    /// Nothing: fetch the next instruction.
    Continue,
    /// The program stopped cleanly.
    Halt,
    /// Read at most `len` bytes of standard input to `ptr`, then `finish_read`.
    ReadStdin { ptr: u64, len: u64 },
    /// Write the `len` bytes at `ptr` to standard output, then `complete` with the count.
    WriteStdout { ptr: u64, len: u64 },
    /// Read the file named by the path bytes, then `finish_file_read`.
    FileRead { path_ptr: u64, path_len: u64, dest_ptr: u64, dest_len: u64 },
    /// Write the `src_len` bytes at `src_ptr` to the named file, then `complete`.
    FileWrite { path_ptr: u64, path_len: u64, src_ptr: u64, src_len: u64 },
    /// Sleep this many milliseconds; the instruction is already done.
    Sleep { millis: u64 },
    /// Print a value of `width` bytes in hexadecimal; the instruction is already done.
    Debug { width: usize, value: u128 },
    /// Print the whole state; the instruction is already done.
    Dump,
}

/// `m` with the program counter advanced by `n`, or `RegOverflow`.
pub open spec fn next_spec(m: Machine, n: nat) -> (Machine, Result<Event, Inter>) {
    if m.pc + n > u64::MAX {
        (m, Err(Inter::RegOverflow))
    } else {
        (Machine { pc: (m.pc + n) as u64, ..m }, Ok(Event::Continue))
    }
}

/// `m` with the program counter set to `pc`.
pub open spec fn jump_spec(m: Machine, pc: u64) -> (Machine, Result<Event, Inter>) {
    (Machine { pc, ..m }, Ok(Event::Continue))
}

/// Pops `n` bytes off the operand stack.
pub open spec fn pop_spec(m: Machine, n: nat) -> (Machine, Result<Seq<u8>, Inter>) {
    if m.sp + n > m.mem.len() {
        (m, Err(Inter::OutOfMem))
    } else if m.sp + n > u64::MAX {
        (m, Err(Inter::RegOverflow))
    } else {
        (Machine { sp: (m.sp + n) as u64, ..m }, Ok(m.mem.subrange(m.sp as int, m.sp + n)))
    }
}

/// Pushes `v` onto the operand stack. When the write faults the stack pointer has
/// already moved.
pub open spec fn push_spec(m: Machine, v: Seq<u8>) -> (Machine, Result<(), Inter>) {
    if v.len() > m.sp {
        (m, Err(Inter::RegOverflow))
    } else {
        let m1 = Machine { sp: (m.sp - v.len()) as u64, ..m };
        if m1.sp + v.len() > m.mem.len() {
            (m1, Err(Inter::OutOfMem))
        } else {
            (Machine { mem: overwrite(m.mem, m1.sp as int, v), ..m1 }, Ok(()))
        }
    }
}

/// Pushes `v`, then advances the program counter by `n`.
pub open spec fn push_next_spec(m: Machine, v: Seq<u8>, n: nat) -> (Machine, Result<Event, Inter>) {
    let (m1, r) = push_spec(m, v);
    match r {
        Err(e) => (m1, Err(e)),
        Ok(_) => next_spec(m1, n),
    }
}

/// The `n` bytes at `addr`, or `OutOfMem`.
pub open spec fn load_spec(m: Machine, addr: int, n: nat) -> Result<Seq<u8>, Inter> {
    if addr + n <= m.mem.len() {
        Ok(m.mem.subrange(addr, addr + n))
    } else {
        Err(Inter::OutOfMem)
    }
}

/// `m` with `v` written at `addr`; unchanged with `OutOfMem` when it does not fit.
pub open spec fn store_spec(m: Machine, addr: int, v: Seq<u8>) -> (Machine, Result<(), Inter>) {
    if addr + v.len() <= m.mem.len() {
        (Machine { mem: overwrite(m.mem, addr, v), ..m }, Ok(()))
    } else {
        (m, Err(Inter::OutOfMem))
    }
}

pub open spec fn seq_result(r: Result<Vec<u8>, Inter>) -> Result<Seq<u8>, Inter> {
    match r {
        Ok(v) => Ok(v@),
        Err(e) => Err(e),
    }
}

pub open spec fn nat_result(r: Result<u128, Inter>) -> Result<nat, Inter> {
    match r {
        Ok(v) => Ok(v as nat),
        Err(e) => Err(e),
    }
}

pub open spec fn value_of(r: Result<Seq<u8>, Inter>) -> Result<nat, Inter> {
    match r {
        Ok(s) => Ok(le_nat(s)),
        Err(e) => Err(e),
    }
}

/// The width, in bytes, of the `i`-th member of a width family.
pub open spec fn width_at(i: nat) -> nat {
    if i == 0 {
        1
    } else if i == 1 {
        2
    } else if i == 2 {
        4
    } else if i == 3 {
        8
    } else {
        16
    }
}

pub open spec fn flag(b: bool) -> Seq<u8> {
    if b {
        seq![1u8]
    } else {
        seq![0u8]
    }
}

pub open spec fn arith_at(i: nat) -> Arith {
    if i == 0 {
        Arith::Add
    } else if i == 1 {
        Arith::Sub
    } else if i == 2 {
        Arith::Mul
    } else if i == 3 {
        Arith::Div
    } else {
        Arith::Rem
    }
}

pub open spec fn order_at(i: nat) -> Cmp {
    if i == 0 {
        Cmp::Lt
    } else if i == 1 {
        Cmp::Le
    } else if i == 2 {
        Cmp::Gt
    } else {
        Cmp::Ge
    }
}

pub open spec fn shift_at(i: nat) -> Shift {
    if i == 0 {
        Shift::Shl
    } else if i == 1 {
        Shift::Shr
    } else if i == 2 {
        Shift::Rotl
    } else {
        Shift::Rotr
    }
}

/// Whether `op` pops two cells of one width and pushes a result
/// (and, or, xor, equality, arithmetic and ordering).
pub open spec fn is_binary(op: u8) -> bool {
    (50 <= op < 60) || (80 <= op < 90) || (100 <= op < 190) || (240 <= op < 245)
}

/// The width of the operands of the binary instruction `op`.
pub open spec fn binary_width(op: u8) -> nat {
    if op >= 240 {
        width_at((op - 240) as nat)
    } else if op >= 100 {
        width_at(((op - 100) as nat) % 5)
    } else if op >= 80 {
        width_at(((op - 80) as nat) % 5)
    } else {
        width_at(((op - 50) as nat) % 5)
    }
}

/// What the binary instruction `op` pushes for the operands `a` (pushed first) and
/// `b`; none for a division or remainder by zero.
pub open spec fn binary_result(op: u8, a: nat, b: nat) -> Option<Seq<u8>> {
    let w = binary_width(op);
    if 50 <= op < 55 {
        Some(le_bytes(bits_spec(Bits::And, a as u128, b as u128) as nat, w))
    } else if 55 <= op < 60 {
        Some(le_bytes(bits_spec(Bits::Or, a as u128, b as u128) as nat, w))
    } else if 240 <= op < 245 {
        Some(le_bytes(bits_spec(Bits::Xor, a as u128, b as u128) as nat, w))
    } else if 80 <= op < 85 {
        Some(flag(a == b))
    } else if 85 <= op < 90 {
        Some(flag(a != b))
    } else if 100 <= op < 150 {
        let k = (op - 100) as nat;
        let signed = k % 10 >= 5;
        match arith_spec(arith_at(k / 10), operand(a, w, signed), operand(b, w, signed)) {
            Some(x) => Some(encode(x, w)),
            None => None,
        }
    } else {
        let k = (op - 150) as nat;
        let signed = k % 10 >= 5;
        Some(flag(compare_spec(order_at(k / 10), operand(a, w, signed), operand(b, w, signed))))
    }
}

/// Pops `b` then `a`, pushes `binary_result`; a division by zero is `InvalidInst`.
pub open spec fn binary_spec(m: Machine, op: u8) -> (Machine, Result<Event, Inter>) {
    let w = binary_width(op);
    let (m1, rb) = pop_spec(m, w);
    match rb {
        Err(e) => (m1, Err(e)),
        Ok(b) => {
            let (m2, ra) = pop_spec(m1, w);
            match ra {
                Err(e) => (m2, Err(e)),
                Ok(a) => match binary_result(op, le_nat(a), le_nat(b)) {
                    None => (m2, Err(Inter::InvalidInst)),
                    Some(v) => push_next_spec(m2, v, 1),
                },
            }
        },
    }
}

/// Pops a `w`-byte cell and pushes `f` of its value.
pub open spec fn unary_spec(m: Machine, w: nat, f: spec_fn(nat) -> Seq<u8>) -> (Machine, Result<Event, Inter>) {
    let (m1, r) = pop_spec(m, w);
    match r {
        Err(e) => (m1, Err(e)),
        Ok(a) => push_next_spec(m1, f(le_nat(a)), 1),
    }
}

/// Saturating negation (25 to 29).
pub open spec fn negate_spec(m: Machine, op: u8) -> (Machine, Result<Event, Inter>) {
    let w = width_at((op - 25) as nat);
    unary_spec(m, w, |a: nat| encode(neg_sat(signed_of(a, w), w), w))
}

/// Source and target width of the conversion `op` (190 to 209): the source steps every
/// four opcodes, the target runs through the other widths from small to large.
pub open spec fn convert_widths(op: u8) -> (nat, nat) {
    let k = (op - 190) as nat;
    let i = k / 4;
    let j = k % 4;
    (width_at(i), width_at(if j < i { j } else { j + 1 }))
}

pub open spec fn convert_spec(m: Machine, op: u8) -> (Machine, Result<Event, Inter>) {
    let (wa, wb) = convert_widths(op);
    unary_spec(m, wa, |a: nat| le_bytes(convert(a, wb), wb))
}

/// Shifts and rotates (60 to 79): pop the count byte, then the value.
pub open spec fn shift_op_spec(m: Machine, op: u8) -> (Machine, Result<Event, Inter>) {
    let k = (op - 60) as nat;
    let w = width_at(k % 5);
    let (m1, rn) = pop_spec(m, 1);
    match rn {
        Err(e) => (m1, Err(e)),
        Ok(n) => unary_spec(
            m1,
            w,
            |a: nat| encode(shift_spec(shift_at(k / 5), a, le_nat(n) % (8 * w), 8 * w) as int, w),
        ),
    }
}

/// Pops an 8-byte cell as a 64-bit value.
pub open spec fn pop8_spec(m: Machine) -> (Machine, Result<u64, Inter>) {
    let (m1, r) = pop_spec(m, 8);
    match r {
        Err(e) => (m1, Err(e)),
        Ok(b) => (m1, Ok(le_nat(b) as u64)),
    }
}

/// The 8-byte operand that follows the opcode.
pub open spec fn imm_spec(m: Machine) -> Result<u64, Inter> {
    if m.pc + 1 > u64::MAX {
        Err(Inter::RegOverflow)
    } else {
        match load_spec(m, m.pc + 1, 8) {
            Err(e) => Err(e),
            Ok(b) => Ok(le_nat(b) as u64),
        }
    }
}

/// `m` with the program counter moved back by `x`, or `RegOverflow`.
pub open spec fn back_spec(m: Machine, x: u64) -> (Machine, Result<Event, Inter>) {
    if x > m.pc {
        (m, Err(Inter::RegOverflow))
    } else {
        (Machine { pc: (m.pc - x) as u64, ..m }, Ok(Event::Continue))
    }
}

/// A jump of kind `kind`: 0 to `x`, 1 forward by `x`, 2 back by `x`.
pub open spec fn goto_spec(m: Machine, kind: nat, x: u64) -> (Machine, Result<Event, Inter>) {
    if kind == 0 {
        jump_spec(m, x)
    } else if kind == 1 {
        next_spec(m, x as nat)
    } else {
        back_spec(m, x)
    }
}

/// `r`, with the event `e` in place of `Continue`.
pub open spec fn then_event(r: (Machine, Result<Event, Inter>), e: Event) -> (Machine, Result<Event, Inter>) {
    match r.1 {
        Ok(_) => (r.0, Ok(e)),
        Err(x) => r,
    }
}

/// Whether `n` bytes from `addr` lie inside memory.
pub open spec fn fits(m: Machine, addr: int, n: int) -> bool {
    addr + n <= m.mem.len()
}

/// Pushes the `w`-byte immediate that follows the opcode (10 to 14).
pub open spec fn push_imm_spec(m: Machine, op: u8) -> (Machine, Result<Event, Inter>) {
    let w = width_at((op - 10) as nat);
    let (m1, r) = next_spec(m, 1);
    match r {
        Err(e) => (m1, Err(e)),
        Ok(_) => match load_spec(m1, m1.pc as int, w) {
            Err(e) => (m1, Err(e)),
            Ok(v) => push_next_spec(m1, v, w),
        },
    }
}

/// Pops an 8-byte value into `sp` (15), `cs` (16) or `ih` (17).
pub open spec fn set_reg_spec(m: Machine, op: u8) -> (Machine, Result<Event, Inter>) {
    let (m1, r) = pop8_spec(m);
    match r {
        Err(e) => (m1, Err(e)),
        Ok(v) => next_spec(
            if op == 15 {
                Machine { sp: v, ..m1 }
            } else if op == 16 {
                Machine { cs: v, ..m1 }
            } else {
                Machine { ih: v, ..m1 }
            },
            1,
        ),
    }
}

/// Pops a byte into `ir` (18).
pub open spec fn pop_ir_spec(m: Machine) -> (Machine, Result<Event, Inter>) {
    let (m1, r) = pop_spec(m, 1);
    match r {
        Err(e) => (m1, Err(e)),
        Ok(b) => next_spec(Machine { ir: signed_of(le_nat(b), 1) as i8, ..m1 }, 1),
    }
}

/// Drops a `w`-byte cell (20 to 24).
pub open spec fn drop_spec(m: Machine, op: u8) -> (Machine, Result<Event, Inter>) {
    let (m1, r) = pop_spec(m, width_at((op - 20) as nat));
    match r {
        Err(e) => (m1, Err(e)),
        Ok(_) => next_spec(m1, 1),
    }
}

/// Swaps the two top `w`-byte cells (30 to 34).
pub open spec fn swap_spec(m: Machine, op: u8) -> (Machine, Result<Event, Inter>) {
    let w = width_at((op - 30) as nat);
    let (m1, r1) = pop_spec(m, w);
    match r1 {
        Err(e) => (m1, Err(e)),
        Ok(v1) => {
            let (m2, r2) = pop_spec(m1, w);
            match r2 {
                Err(e) => (m2, Err(e)),
                Ok(v2) => {
                    let (m3, r3) = push_spec(m2, v1);
                    match r3 {
                        Err(e) => (m3, Err(e)),
                        Ok(_) => push_next_spec(m3, v2, 1),
                    }
                },
            }
        },
    }
}

/// Rotates the three top `w`-byte cells so that the third comes to the top (35 to 39).
pub open spec fn rot_spec(m: Machine, op: u8) -> (Machine, Result<Event, Inter>) {
    let w = width_at((op - 35) as nat);
    let (m1, r1) = pop_spec(m, w);
    match r1 {
        Err(e) => (m1, Err(e)),
        Ok(v1) => {
            let (m2, r2) = pop_spec(m1, w);
            match r2 {
                Err(e) => (m2, Err(e)),
                Ok(v2) => {
                    let (m3, r3) = pop_spec(m2, w);
                    match r3 {
                        Err(e) => (m3, Err(e)),
                        Ok(v3) => {
                            let (m4, r4) = push_spec(m3, v2);
                            match r4 {
                                Err(e) => (m4, Err(e)),
                                Ok(_) => {
                                    let (m5, r5) = push_spec(m4, v1);
                                    match r5 {
                                        Err(e) => (m5, Err(e)),
                                        Ok(_) => push_next_spec(m5, v3, 1),
                                    }
                                },
                            }
                        },
                    }
                },
            }
        },
    }
}

/// Pushes a copy of the top `w`-byte cell (40 to 44), or of the one below it (45 to 49).
pub open spec fn dup_spec(m: Machine, op: u8) -> (Machine, Result<Event, Inter>) {
    let w = width_at(((op - 40) as nat) % 5);
    let below = op >= 45;
    if below && m.sp + w > u64::MAX {
        (m, Err(Inter::RegOverflow))
    } else {
        match load_spec(m, if below { m.sp + w } else { m.sp as int }, w) {
            Err(e) => (m, Err(e)),
            Ok(v) => push_next_spec(m, v, 1),
        }
    }
}

/// Loads a `w`-byte cell from a popped (210 to 214) or immediate (230 to 234) address.
pub open spec fn load_op_spec(m: Machine, op: u8) -> (Machine, Result<Event, Inter>) {
    let imm = op >= 230;
    let w = width_at(((op - 210) as nat) % 5);
    let (m1, r) = if imm {
        (m, imm_spec(m))
    } else {
        pop8_spec(m)
    };
    match r {
        Err(e) => (m1, Err(e)),
        Ok(ptr) => match load_spec(m1, ptr as int, w) {
            Err(e) => (m1, Err(e)),
            Ok(v) => push_next_spec(m1, v, if imm { 9 } else { 1 }),
        },
    }
}

/// Pops a `w`-byte cell and stores it at a popped (215 to 219) or immediate (235 to 239)
/// address.
pub open spec fn store_op_spec(m: Machine, op: u8) -> (Machine, Result<Event, Inter>) {
    let imm = op >= 235;
    let w = width_at(((op - 215) as nat) % 5);
    let (m1, rv) = pop_spec(m, w);
    match rv {
        Err(e) => (m1, Err(e)),
        Ok(v) => {
            let (m2, r) = if imm {
                (m1, imm_spec(m1))
            } else {
                pop8_spec(m1)
            };
            match r {
                Err(e) => (m2, Err(e)),
                Ok(ptr) => {
                    let (m3, rs) = store_spec(m2, ptr as int, v);
                    match rs {
                        Err(e) => (m3, Err(e)),
                        Ok(_) => next_spec(m3, if imm { 9 } else { 1 }),
                    }
                },
            }
        },
    }
}

/// Calls `target`: pushes the return address `pc + n` on the call stack.
pub open spec fn call_spec(m: Machine, target: u64, n: nat) -> (Machine, Result<Event, Inter>) {
    if m.cs < 8 {
        (m, Err(Inter::RegOverflow))
    } else {
        let m1 = Machine { cs: (m.cs - 8) as u64, ..m };
        if m.pc + n > u64::MAX {
            (m1, Err(Inter::RegOverflow))
        } else {
            let (m2, r) = store_spec(m1, m1.cs as int, le_bytes((m.pc + n) as nat, 8));
            match r {
                Err(e) => (m2, Err(e)),
                Ok(_) => jump_spec(m2, target),
            }
        }
    }
}

/// Returns to the address on top of the call stack.
pub open spec fn ret_spec(m: Machine) -> (Machine, Result<Event, Inter>) {
    match load_spec(m, m.cs as int, 8) {
        Err(e) => (m, Err(e)),
        Ok(b) => if m.cs + 8 > u64::MAX {
            (m, Err(Inter::RegOverflow))
        } else {
            jump_spec(Machine { cs: (m.cs + 8) as u64, ..m }, le_nat(b) as u64)
        },
    }
}

/// Pops a size, grows memory by that many zero bytes and pushes where they start.
pub open spec fn alloc_spec(m: Machine) -> (Machine, Result<Event, Inter>) {
    let (m1, r) = pop8_spec(m);
    match r {
        Err(e) => (m1, Err(e)),
        Ok(n) => if m1.mem.len() + n > m1.limit {
            (m1, Err(Inter::OutOfMem))
        } else {
            push_next_spec(
                Machine { mem: m1.mem + Seq::new(n as nat, |i: int| 0u8), ..m1 },
                le_bytes(m1.mem.len(), 8),
                1,
            )
        },
    }
}

/// Standard input (6) and output (7): pop a length, then a pointer, check the range and
/// hand the transfer to the host.
pub open spec fn stdio_spec(m: Machine, op: u8) -> (Machine, Result<Event, Inter>) {
    let (m1, rl) = pop8_spec(m);
    match rl {
        Err(e) => (m1, Err(e)),
        Ok(len) => {
            let (m2, rp) = pop8_spec(m1);
            match rp {
                Err(e) => (m2, Err(e)),
                Ok(ptr) => if !fits(m2, ptr as int, len as int) {
                    (m2, Err(Inter::OutOfMem))
                } else if op == 6 {
                    (m2, Ok(Event::ReadStdin { ptr, len }))
                } else {
                    (m2, Ok(Event::WriteStdout { ptr, len }))
                },
            }
        },
    }
}

/// File read (8) and write (9): pop a length and pointer for the data, then for the path;
/// check the ranges that are read here and hand the transfer to the host.
pub open spec fn file_spec(m: Machine, op: u8) -> (Machine, Result<Event, Inter>) {
    let (m1, r1) = pop8_spec(m);
    match r1 {
        Err(e) => (m1, Err(e)),
        Ok(dlen) => {
            let (m2, r2) = pop8_spec(m1);
            match r2 {
                Err(e) => (m2, Err(e)),
                Ok(dptr) => {
                    let (m3, r3) = pop8_spec(m2);
                    match r3 {
                        Err(e) => (m3, Err(e)),
                        Ok(plen) => {
                            let (m4, r4) = pop8_spec(m3);
                            match r4 {
                                Err(e) => (m4, Err(e)),
                                Ok(pptr) => if !fits(m4, pptr as int, plen as int) {
                                    (m4, Err(Inter::OutOfMem))
                                } else if op == 8 {
                                    (
                                        m4,
                                        Ok(
                                            Event::FileRead {
                                                path_ptr: pptr,
                                                path_len: plen,
                                                dest_ptr: dptr,
                                                dest_len: dlen,
                                            },
                                        ),
                                    )
                                } else if !fits(m4, dptr as int, dlen as int) {
                                    (m4, Err(Inter::OutOfMem))
                                } else {
                                    (
                                        m4,
                                        Ok(
                                            Event::FileWrite {
                                                path_ptr: pptr,
                                                path_len: plen,
                                                src_ptr: dptr,
                                                src_len: dlen,
                                            },
                                        ),
                                    )
                                },
                            }
                        },
                    }
                },
            }
        },
    }
}

/// Jumps whose operand is popped: unconditional (90 to 92), or after a popped condition
/// byte (95 to 97), taken when it is not zero.
pub open spec fn jump_op_spec(m: Machine, op: u8) -> (Machine, Result<Event, Inter>) {
    if op < 95 {
        let (m1, r) = pop8_spec(m);
        match r {
            Err(e) => (m1, Err(e)),
            Ok(x) => goto_spec(m1, (op - 90) as nat, x),
        }
    } else {
        let (m1, rc) = pop_spec(m, 1);
        match rc {
            Err(e) => (m1, Err(e)),
            Ok(c) => {
                let (m2, r) = pop8_spec(m1);
                match r {
                    Err(e) => (m2, Err(e)),
                    Ok(x) => if c[0] != 0 {
                        goto_spec(m2, (op - 95) as nat, x)
                    } else {
                        next_spec(m2, 1)
                    },
                }
            },
        }
    }
}

/// Jumps whose operand is the immediate: unconditional (220 to 222), or after a popped
/// condition byte (225 to 227); not taken, they step over the immediate.
pub open spec fn jump_imm_spec(m: Machine, op: u8) -> (Machine, Result<Event, Inter>) {
    if op < 225 {
        match imm_spec(m) {
            Err(e) => (m, Err(e)),
            Ok(x) => goto_spec(m, (op - 220) as nat, x),
        }
    } else {
        let (m1, rc) = pop_spec(m, 1);
        match rc {
            Err(e) => (m1, Err(e)),
            Ok(c) => if c[0] != 0 {
                match imm_spec(m1) {
                    Err(e) => (m1, Err(e)),
                    Ok(x) => goto_spec(m1, (op - 225) as nat, x),
                }
            } else {
                next_spec(m1, 9)
            },
        }
    }
}

/// Pops a `w`-byte value for the host to print (251 to 255).
pub open spec fn debug_spec(m: Machine, op: u8) -> (Machine, Result<Event, Inter>) {
    let w = width_at((op - 251) as nat);
    let (m1, r) = pop_spec(m, w);
    match r {
        Err(e) => (m1, Err(e)),
        Ok(b) => then_event(next_spec(m1, 1), Event::Debug { width: w as usize, value: le_nat(b) as u128 }),
    }
}

/// Whether `op` is reserved.
pub open spec fn is_reserved(op: u8) -> bool {
    op == 93 || op == 98 || op == 99 || op == 223 || op == 228 || (245 <= op <= 249)
}

/// The effect of executing the instruction `op` at `m.pc`.
pub open spec fn exec_spec(m: Machine, op: u8) -> (Machine, Result<Event, Inter>) {
    if is_reserved(op) {
        (m, Err(Inter::InvalidInst))
    } else if op == 0 {
        next_spec(m, 1)
    } else if op == 1 {
        (m, Ok(Event::Halt))
    } else if op == 2 {
        let (m1, r) = pop8_spec(m);
        match r {
            Err(e) => (m1, Err(e)),
            Ok(a) => call_spec(m1, a, 1),
        }
    } else if op == 3 {
        ret_spec(m)
    } else if op == 4 {
        jump_spec(m, m.ih)
    } else if op == 5 {
        alloc_spec(m)
    } else if op == 6 || op == 7 {
        stdio_spec(m, op)
    } else if op == 8 || op == 9 {
        file_spec(m, op)
    } else if op < 15 {
        push_imm_spec(m, op)
    } else if op < 18 {
        set_reg_spec(m, op)
    } else if op == 18 {
        pop_ir_spec(m)
    } else if op == 19 {
        push_next_spec(m, encode(m.ir as int, 1), 1)
    } else if op < 25 {
        drop_spec(m, op)
    } else if op < 30 {
        negate_spec(m, op)
    } else if op < 35 {
        swap_spec(m, op)
    } else if op < 40 {
        rot_spec(m, op)
    } else if op < 50 {
        dup_spec(m, op)
    } else if op < 60 {
        binary_spec(m, op)
    } else if op < 80 {
        shift_op_spec(m, op)
    } else if op < 90 {
        binary_spec(m, op)
    } else if op == 94 {
        let (m1, r) = pop8_spec(m);
        match r {
            Err(e) => (m1, Err(e)),
            Ok(ms) => then_event(next_spec(m1, 1), Event::Sleep { millis: ms }),
        }
    } else if op < 100 {
        jump_op_spec(m, op)
    } else if op < 190 {
        binary_spec(m, op)
    } else if op < 210 {
        convert_spec(m, op)
    } else if op < 215 {
        load_op_spec(m, op)
    } else if op < 220 {
        store_op_spec(m, op)
    } else if op == 224 {
        match imm_spec(m) {
            Err(e) => (m, Err(e)),
            Ok(ms) => then_event(next_spec(m, 9), Event::Sleep { millis: ms }),
        }
    } else if op == 229 {
        match imm_spec(m) {
            Err(e) => (m, Err(e)),
            Ok(a) => call_spec(m, a, 9),
        }
    } else if op < 230 {
        jump_imm_spec(m, op)
    } else if op < 235 {
        load_op_spec(m, op)
    } else if op < 240 {
        store_op_spec(m, op)
    } else if op < 245 {
        binary_spec(m, op)
    } else if op == 250 {
        then_event(next_spec(m, 1), Event::Dump)
    } else {
        debug_spec(m, op)
    }
}

/// One fetch and execute: the opcode at `pc`, or `OutOfMem` when `pc` is past the end.
pub open spec fn step_spec(m: Machine) -> (Machine, Result<Event, Inter>) {
    match load_spec(m, m.pc as int, 1) {
        Err(e) => (m, Err(e)),
        Ok(b) => exec_spec(m, b[0]),
    }
}

/// Finishes a transfer from the host: pushes `value`, the byte count, as an 8-byte cell
/// and steps past the opcode.
pub open spec fn complete_spec(m: Machine, value: u64) -> (Machine, Result<Event, Inter>) {
    push_next_spec(m, le_bytes(value as nat, 8), 1)
}

/// Finishes a read: stores `data` at `ptr`, then completes with its length.
pub open spec fn finish_read_spec(m: Machine, ptr: u64, data: Seq<u8>) -> (Machine, Result<Event, Inter>) {
    let (m1, r) = store_spec(m, ptr as int, data);
    match r {
        Err(e) => (m1, Err(e)),
        Ok(_) => complete_spec(m1, data.len() as u64),
    }
}

/// Finishes a file read: keeps at most `len` bytes of `contents`.
pub open spec fn finish_file_read_spec(m: Machine, ptr: u64, len: u64, contents: Seq<u8>) -> (Machine, Result<Event, Inter>) {
    let n = if len < contents.len() { len as int } else { contents.len() as int };
    finish_read_spec(m, ptr, contents.subrange(0, n))
}

/// `m` after taking the fault `inter`: its code latched in `ir`, `pc` at the handler.
pub open spec fn trap_spec(m: Machine, inter: Inter) -> Machine {
    Machine { ir: inter.spec_code(), pc: m.ih, ..m }
}

/// Up to `fuel` steps, each fault taken by the handler, until an instruction hands
/// back an event other than `Continue`; none when the fuel runs out first.
pub open spec fn run_spec(m: Machine, fuel: nat) -> (Machine, Option<Event>)
    decreases fuel,
{
    if fuel == 0 {
        (m, None)
    } else {
        let (m1, r) = step_spec(m);
        match r {
            Ok(Event::Continue) => run_spec(m1, (fuel - 1) as nat),
            Ok(e) => (m1, Some(e)),
            Err(i) => run_spec(trap_spec(m1, i), (fuel - 1) as nat),
        }
    }
}

/// The machine: five registers and its memory.
pub struct VM {
    pc: Reg,
    sp: Reg,
    cs: Reg,
    ih: Reg,
    ir: i8,
    mem: MEM,
}

impl View for VM {
    type V = Machine;

    closed spec fn view(&self) -> Machine {
        Machine {
            pc: self.pc.0,
            sp: self.sp.0,
            cs: self.cs.0,
            ih: self.ih.0,
            ir: self.ir,
            mem: self.mem@,
            limit: self.mem.max_len(),
        }
    }
}

impl VM {
    /// A machine over the image `code`, whose last 16 bytes are stack headroom.
    pub fn new(code: Vec<u8>) -> (r: VM)
        requires
            code@.len() >= 16,
        ensures
            r@ == (Machine {
                pc: 0,
                sp: (code@.len() - 16) as u64,
                cs: 0,
                ih: 0,
                ir: 0,
                mem: code@,
                limit: DEFAULT_LIMIT as nat,
            }),
    {
        let sp = code.len() as u64 - 16;
        VM { pc: Reg(0), sp: Reg(sp), cs: Reg(0), ih: Reg(0), ir: 0, mem: MEM::new(code) }
    }

    /// As `new`, with memory allowed to grow to `limit` bytes.
    pub fn with_limit(code: Vec<u8>, limit: u64) -> (r: VM)
        requires
            code@.len() >= 16,
        ensures
            r@ == (Machine {
                pc: 0,
                sp: (code@.len() - 16) as u64,
                cs: 0,
                ih: 0,
                ir: 0,
                mem: code@,
                limit: limit as nat,
            }),
    {
        let sp = code.len() as u64 - 16;
        VM { pc: Reg(0), sp: Reg(sp), cs: Reg(0), ih: Reg(0), ir: 0, mem: MEM::with_limit(code, limit) }
    }

    pub fn pc(&self) -> (r: u64)
        ensures
            r == self@.pc,
    {
        self.pc.as_u64()
    }

    pub fn sp(&self) -> (r: u64)
        ensures
            r == self@.sp,
    {
        self.sp.as_u64()
    }

    pub fn cs(&self) -> (r: u64)
        ensures
            r == self@.cs,
    {
        self.cs.as_u64()
    }

    pub fn ih(&self) -> (r: u64)
        ensures
            r == self@.ih,
    {
        self.ih.as_u64()
    }

    pub fn ir(&self) -> (r: i8)
        ensures
            r == self@.ir,
    {
        self.ir
    }

    pub fn mem(&self) -> (r: &MEM)
        ensures
            r@ == self@.mem,
            r.max_len() == self@.limit,
    {
        &self.mem
    }

    /// Takes a fault: latches its code in `ir` and restarts at the handler `ih`.
    pub fn trap(&mut self, inter: Inter)
        ensures
            final(self)@ == trap_spec(old(self)@, inter),
    {
        self.ir = inter.code();
        self.pc = self.ih;
    }

    fn next(&mut self, n: u64) -> (r: Result<Event, Inter>)
        ensures
            (final(self)@, r) == next_spec(old(self)@, n as nat),
    {
        match self.pc.inc_by(n) {
            Ok(()) => Ok(Event::Continue),
            Err(e) => Err(e),
        }
    }

    /// Pops `n` bytes off the operand stack.
    pub fn pop(&mut self, n: u64) -> (r: Result<Vec<u8>, Inter>)
        ensures
            (final(self)@, seq_result(r)) == pop_spec(old(self)@, n as nat),
    {
        let v = match self.mem.read(self.sp.as_u64(), n) {
            Ok(v) => v,
            Err(e) => return Err(e),
        };
        match self.sp.inc_by(n) {
            Ok(()) => Ok(v),
            Err(e) => Err(e),
        }
    }

    /// Pops a `w`-byte cell and reads it as an unsigned value.
    fn pop_value(&mut self, w: u64) -> (r: Result<u128, Inter>)
        requires
            w <= 16,
        ensures
            final(self)@ == pop_spec(old(self)@, w as nat).0,
            nat_result(r) == value_of(pop_spec(old(self)@, w as nat).1),
            r is Ok ==> r->Ok_0 < modulus(w as nat),
    {
        match self.pop(w) {
            Ok(v) => {
                proof {
                    lemma_le_nat_bound(v@);
                }
                Ok(from_le(v.as_slice()))
            },
            Err(e) => Err(e),
        }
    }

    /// Pushes `val` onto the operand stack.
    pub fn push(&mut self, val: &[u8]) -> (r: Result<(), Inter>)
        ensures
            (final(self)@, r) == push_spec(old(self)@, val@),
    {
        match self.sp.dec_by(val.len() as u64) {
            Ok(()) => {},
            Err(e) => return Err(e),
        }
        match self.mem.write(self.sp.as_u64(), val) {
            Ok(()) => Ok(()),
            Err(e) => Err(e),
        }
    }

    fn push_next(&mut self, val: &[u8], n: u64) -> (r: Result<Event, Inter>)
        ensures
            (final(self)@, r) == push_next_spec(old(self)@, val@, n as nat),
    {
        match self.push(val) {
            Ok(()) => self.next(n),
            Err(e) => Err(e),
        }
    }

    /// Pops an 8-byte cell as a 64-bit value.
    fn pop8(&mut self) -> (r: Result<u64, Inter>)
        ensures
            (final(self)@, r) == pop8_spec(old(self)@),
    {
        proof {
            lemma_modulus_values();
        }
        match self.pop_value(8) {
            Ok(v) => Ok(v as u64),
            Err(e) => Err(e),
        }
    }

    /// The `n` bytes at `addr`.
    fn load(&self, addr: u64, n: u64) -> (r: Result<Vec<u8>, Inter>)
        ensures
            seq_result(r) == load_spec(self@, addr as int, n as nat),
    {
        self.mem.read(addr, n)
    }

    /// The 8-byte operand that follows the opcode.
    fn imm(&self) -> (r: Result<u64, Inter>)
        ensures
            r == imm_spec(self@),
    {
        let at = match self.pc.add(1) {
            Ok(a) => a.as_u64(),
            Err(e) => return Err(e),
        };
        proof {
            lemma_modulus_values();
        }
        match self.mem.read(at, 8) {
            Ok(b) => {
                proof {
                    lemma_le_nat_bound(b@);
                }
                Ok(from_le(b.as_slice()) as u64)
            },
            Err(e) => Err(e),
        }
    }

    fn jump(&mut self, pc: u64) -> (r: Result<Event, Inter>)
        ensures
            (final(self)@, r) == jump_spec(old(self)@, pc),
    {
        self.pc.set(pc);
        Ok(Event::Continue)
    }

    fn goto(&mut self, kind: u8, x: u64) -> (r: Result<Event, Inter>)
        ensures
            (final(self)@, r) == goto_spec(old(self)@, kind as nat, x),
    {
        if kind == 0 {
            self.jump(x)
        } else if kind == 1 {
            self.next(x)
        } else {
            match self.pc.dec_by(x) {
                Ok(()) => Ok(Event::Continue),
                Err(e) => Err(e),
            }
        }
    }

    fn exec_push_imm(&mut self, op: u8) -> (r: Result<Event, Inter>)
        requires
            10 <= op < 15,
        ensures
            (final(self)@, r) == push_imm_spec(old(self)@, op),
    {
        let w = width_of(op - 10);
        match self.next(1) {
            Ok(_) => {},
            Err(e) => return Err(e),
        }
        match self.load(self.pc.as_u64(), w) {
            Ok(v) => self.push_next(v.as_slice(), w),
            Err(e) => Err(e),
        }
    }

    fn exec_set_reg(&mut self, op: u8) -> (r: Result<Event, Inter>)
        requires
            15 <= op < 18,
        ensures
            (final(self)@, r) == set_reg_spec(old(self)@, op),
    {
        let v = match self.pop8() {
            Ok(v) => v,
            Err(e) => return Err(e),
        };
        if op == 15 {
            self.sp.set(v);
        } else if op == 16 {
            self.cs.set(v);
        } else {
            self.ih.set(v);
        }
        self.next(1)
    }

    fn exec_pop_ir(&mut self) -> (r: Result<Event, Inter>)
        ensures
            (final(self)@, r) == pop_ir_spec(old(self)@),
    {
        let b = match self.pop_value(1) {
            Ok(v) => v,
            Err(e) => return Err(e),
        };
        proof {
            lemma_modulus_values();
        }
        self.ir = if b < 128 {
            b as i8
        } else {
            (b as i16 - 256) as i8
        };
        self.next(1)
    }

    fn exec_push_ir(&mut self) -> (r: Result<Event, Inter>)
        ensures
            (final(self)@, r) == push_next_spec(old(self)@, encode(old(self)@.ir as int, 1), 1),
    {
        let b: u128 = if self.ir >= 0 {
            self.ir as u128
        } else {
            (self.ir as i16 + 256) as u128
        };
        proof {
            lemma_modulus_values();
            crate::encoding::lemma_encode_nat(b as nat, 1);
            vstd::arithmetic::div_mod::lemma_mod_multiples_vanish(1, self.ir as int, 256);
            vstd::arithmetic::div_mod::lemma_small_mod(b as nat, 256);
        }
        let v = to_le(b, 1);
        self.push_next(v.as_slice(), 1)
    }

    fn exec_drop(&mut self, op: u8) -> (r: Result<Event, Inter>)
        requires
            20 <= op < 25,
        ensures
            (final(self)@, r) == drop_spec(old(self)@, op),
    {
        match self.pop(width_of(op - 20)) {
            Ok(_) => self.next(1),
            Err(e) => Err(e),
        }
    }

    fn exec_swap(&mut self, op: u8) -> (r: Result<Event, Inter>)
        requires
            30 <= op < 35,
        ensures
            (final(self)@, r) == swap_spec(old(self)@, op),
    {
        let w = width_of(op - 30);
        let v1 = match self.pop(w) {
            Ok(v) => v,
            Err(e) => return Err(e),
        };
        let v2 = match self.pop(w) {
            Ok(v) => v,
            Err(e) => return Err(e),
        };
        match self.push(v1.as_slice()) {
            Ok(()) => {},
            Err(e) => return Err(e),
        }
        self.push_next(v2.as_slice(), 1)
    }

    fn exec_rot(&mut self, op: u8) -> (r: Result<Event, Inter>)
        requires
            35 <= op < 40,
        ensures
            (final(self)@, r) == rot_spec(old(self)@, op),
    {
        let w = width_of(op - 35);
        let v1 = match self.pop(w) {
            Ok(v) => v,
            Err(e) => return Err(e),
        };
        let v2 = match self.pop(w) {
            Ok(v) => v,
            Err(e) => return Err(e),
        };
        let v3 = match self.pop(w) {
            Ok(v) => v,
            Err(e) => return Err(e),
        };
        match self.push(v2.as_slice()) {
            Ok(()) => {},
            Err(e) => return Err(e),
        }
        match self.push(v1.as_slice()) {
            Ok(()) => {},
            Err(e) => return Err(e),
        }
        self.push_next(v3.as_slice(), 1)
    }

    fn exec_dup(&mut self, op: u8) -> (r: Result<Event, Inter>)
        requires
            40 <= op < 50,
        ensures
            (final(self)@, r) == dup_spec(old(self)@, op),
    {
        let w = width_of((op - 40) % 5);
        let at = if op >= 45 {
            match self.sp.add(w) {
                Ok(a) => a.as_u64(),
                Err(e) => return Err(e),
            }
        } else {
            self.sp.as_u64()
        };
        match self.load(at, w) {
            Ok(v) => self.push_next(v.as_slice(), 1),
            Err(e) => Err(e),
        }
    }

    fn exec_load(&mut self, op: u8) -> (r: Result<Event, Inter>)
        requires
            (210 <= op < 215) || (230 <= op < 235),
        ensures
            (final(self)@, r) == load_op_spec(old(self)@, op),
    {
        let imm = op >= 230;
        let w = width_of((op - 210) % 5);
        let ptr = if imm {
            self.imm()
        } else {
            self.pop8()
        };
        match ptr {
            Ok(p) => match self.load(p, w) {
                Ok(v) => self.push_next(v.as_slice(), if imm { 9 } else { 1 }),
                Err(e) => Err(e),
            },
            Err(e) => Err(e),
        }
    }

    fn exec_store(&mut self, op: u8) -> (r: Result<Event, Inter>)
        requires
            (215 <= op < 220) || (235 <= op < 240),
        ensures
            (final(self)@, r) == store_op_spec(old(self)@, op),
    {
        let imm = op >= 235;
        let w = width_of((op - 215) % 5);
        let v = match self.pop(w) {
            Ok(v) => v,
            Err(e) => return Err(e),
        };
        let ptr = if imm {
            self.imm()
        } else {
            self.pop8()
        };
        let p = match ptr {
            Ok(p) => p,
            Err(e) => return Err(e),
        };
        match self.mem.write(p, v.as_slice()) {
            Ok(()) => self.next(if imm { 9 } else { 1 }),
            Err(e) => Err(e),
        }
    }

    fn exec_call(&mut self, target: u64, n: u64) -> (r: Result<Event, Inter>)
        ensures
            (final(self)@, r) == call_spec(old(self)@, target, n as nat),
    {
        match self.cs.dec_by(8) {
            Ok(()) => {},
            Err(e) => return Err(e),
        }
        let back = match self.pc.add(n) {
            Ok(b) => b.to_bytes(),
            Err(e) => return Err(e),
        };
        match self.mem.write(self.cs.as_u64(), back.as_slice()) {
            Ok(()) => self.jump(target),
            Err(e) => Err(e),
        }
    }

    fn exec_ret(&mut self) -> (r: Result<Event, Inter>)
        ensures
            (final(self)@, r) == ret_spec(old(self)@),
    {
        let b = match self.load(self.cs.as_u64(), 8) {
            Ok(b) => b,
            Err(e) => return Err(e),
        };
        match self.cs.inc_by(8) {
            Ok(()) => {},
            Err(e) => return Err(e),
        }
        proof {
            lemma_le_nat_bound(b@);
            lemma_modulus_values();
        }
        self.jump(from_le(b.as_slice()) as u64)
    }

    fn exec_alloc(&mut self) -> (r: Result<Event, Inter>)
        ensures
            (final(self)@, r) == alloc_spec(old(self)@),
    {
        let n = match self.pop8() {
            Ok(n) => n,
            Err(e) => return Err(e),
        };
        let ghost before = self.mem@;
        let _size = self.mem.len();
        let at = match self.mem.allocate(n) {
            Ok(a) => a,
            Err(e) => return Err(e),
        };
        proof {
            assert(self.mem@ =~= before + Seq::new(n as nat, |i: int| 0u8));
        }
        let v = to_le(at as u128, 8);

        self.push_next(v.as_slice(), 1)
    }

    fn exec_stdio(&mut self, op: u8) -> (r: Result<Event, Inter>)
        requires
            op == 6 || op == 7,
        ensures
            (final(self)@, r) == stdio_spec(old(self)@, op),
    {
        let len = match self.pop8() {
            Ok(v) => v,
            Err(e) => return Err(e),
        };
        let ptr = match self.pop8() {
            Ok(v) => v,
            Err(e) => return Err(e),
        };
        if !self.fits(ptr, len) {
            Err(Inter::OutOfMem)
        } else if op == 6 {
            Ok(Event::ReadStdin { ptr, len })
        } else {
            Ok(Event::WriteStdout { ptr, len })
        }
    }

    /// Whether `n` bytes from `addr` lie inside memory.
    fn fits(&self, addr: u64, n: u64) -> (r: bool)
        ensures
            r == fits(self@, addr as int, n as int),
    {
        let size = self.mem.len();
        addr <= size && n <= size - addr
    }

    fn exec_file(&mut self, op: u8) -> (r: Result<Event, Inter>)
        requires
            op == 8 || op == 9,
        ensures
            (final(self)@, r) == file_spec(old(self)@, op),
    {
        let dlen = match self.pop8() {
            Ok(v) => v,
            Err(e) => return Err(e),
        };
        let dptr = match self.pop8() {
            Ok(v) => v,
            Err(e) => return Err(e),
        };
        let plen = match self.pop8() {
            Ok(v) => v,
            Err(e) => return Err(e),
        };
        let pptr = match self.pop8() {
            Ok(v) => v,
            Err(e) => return Err(e),
        };
        if !self.fits(pptr, plen) {
            Err(Inter::OutOfMem)
        } else if op == 8 {
            Ok(Event::FileRead { path_ptr: pptr, path_len: plen, dest_ptr: dptr, dest_len: dlen })
        } else if !self.fits(dptr, dlen) {
            Err(Inter::OutOfMem)
        } else {
            Ok(Event::FileWrite { path_ptr: pptr, path_len: plen, src_ptr: dptr, src_len: dlen })
        }
    }

    fn exec_jump(&mut self, op: u8) -> (r: Result<Event, Inter>)
        requires
            (90 <= op < 93) || (95 <= op < 98),
        ensures
            (final(self)@, r) == jump_op_spec(old(self)@, op),
    {
        if op < 95 {
            match self.pop8() {
                Ok(x) => self.goto(op - 90, x),
                Err(e) => Err(e),
            }
        } else {
            let c = match self.pop(1) {
                Ok(c) => c,
                Err(e) => return Err(e),
            };
            let x = match self.pop8() {
                Ok(x) => x,
                Err(e) => return Err(e),
            };
            if c[0] != 0 {
                self.goto(op - 95, x)
            } else {
                self.next(1)
            }
        }
    }

    fn exec_jump_imm(&mut self, op: u8) -> (r: Result<Event, Inter>)
        requires
            (220 <= op < 223) || (225 <= op < 228),
        ensures
            (final(self)@, r) == jump_imm_spec(old(self)@, op),
    {
        if op < 225 {
            match self.imm() {
                Ok(x) => self.goto(op - 220, x),
                Err(e) => Err(e),
            }
        } else {
            let c = match self.pop(1) {
                Ok(c) => c,
                Err(e) => return Err(e),
            };
            if c[0] != 0 {
                match self.imm() {
                    Ok(x) => self.goto(op - 225, x),
                    Err(e) => Err(e),
                }
            } else {
                self.next(9)
            }
        }
    }

    fn exec_debug(&mut self, op: u8) -> (r: Result<Event, Inter>)
        requires
            251 <= op,
        ensures
            (final(self)@, r) == debug_spec(old(self)@, op),
    {
        let w = width_of(op - 251);
        let v = match self.pop_value(w) {
            Ok(v) => v,
            Err(e) => return Err(e),
        };
        match self.next(1) {
            Ok(_) => Ok(Event::Debug { width: w as usize, value: v }),
            Err(e) => Err(e),
        }
    }

    /// Fetches the opcode at `pc` and executes it. On a fault the instruction stops
    /// where it faulted, and what it did before stays done; `trap` then takes the fault.
    pub fn step(&mut self) -> (r: Result<Event, Inter>)
        ensures
            (final(self)@, r) == step_spec(old(self)@),
    {
        match self.mem.read(self.pc.as_u64(), 1) {
            Ok(b) => self.exec(b[0]),
            Err(e) => Err(e),
        }
    }

    /// Executes the instruction `op` as if it stood at `pc`.
    pub fn exec(&mut self, op: u8) -> (r: Result<Event, Inter>)
        ensures
            (final(self)@, r) == exec_spec(old(self)@, op),
    {
        if op == 93 || op == 98 || op == 99 || op == 223 || op == 228 || (245 <= op && op <= 249) {
            Err(Inter::InvalidInst)
        } else if op == 0 {
            self.next(1)
        } else if op == 1 {
            Ok(Event::Halt)
        } else if op == 2 {
            match self.pop8() {
                Ok(a) => self.exec_call(a, 1),
                Err(e) => Err(e),
            }
        } else if op == 3 {
            self.exec_ret()
        } else if op == 4 {
            let ih = self.ih.as_u64();
            self.jump(ih)
        } else if op == 5 {
            self.exec_alloc()
        } else if op == 6 || op == 7 {
            self.exec_stdio(op)
        } else if op == 8 || op == 9 {
            self.exec_file(op)
        } else if op < 15 {
            self.exec_push_imm(op)
        } else if op < 18 {
            self.exec_set_reg(op)
        } else if op == 18 {
            self.exec_pop_ir()
        } else if op == 19 {
            self.exec_push_ir()
        } else if op < 25 {
            self.exec_drop(op)
        } else if op < 30 {
            self.exec_negate(op)
        } else if op < 35 {
            self.exec_swap(op)
        } else if op < 40 {
            self.exec_rot(op)
        } else if op < 50 {
            self.exec_dup(op)
        } else if op < 60 {
            self.exec_binary(op)
        } else if op < 80 {
            self.exec_shift(op)
        } else if op < 90 {
            self.exec_binary(op)
        } else if op == 94 {
            let ms = match self.pop8() {
                Ok(v) => v,
                Err(e) => return Err(e),
            };
            match self.next(1) {
                Ok(_) => Ok(Event::Sleep { millis: ms }),
                Err(e) => Err(e),
            }
        } else if op < 100 {
            self.exec_jump(op)
        } else if op < 190 {
            self.exec_binary(op)
        } else if op < 210 {
            self.exec_convert(op)
        } else if op < 215 {
            self.exec_load(op)
        } else if op < 220 {
            self.exec_store(op)
        } else if op == 224 {
            let ms = match self.imm() {
                Ok(v) => v,
                Err(e) => return Err(e),
            };
            match self.next(9) {
                Ok(_) => Ok(Event::Sleep { millis: ms }),
                Err(e) => Err(e),
            }
        } else if op == 229 {
            match self.imm() {
                Ok(a) => self.exec_call(a, 9),
                Err(e) => Err(e),
            }
        } else if op < 230 {
            self.exec_jump_imm(op)
        } else if op < 235 {
            self.exec_load(op)
        } else if op < 240 {
            self.exec_store(op)
        } else if op < 245 {
            self.exec_binary(op)
        } else if op == 250 {
            match self.next(1) {
                Ok(_) => Ok(Event::Dump),
                Err(e) => Err(e),
            }
        } else {
            self.exec_debug(op)
        }
    }

    /// Runs at most `fuel` instructions, vectoring every fault to the handler, and
    /// stops at the first one that halts or needs the host.
    pub fn run(&mut self, fuel: u64) -> (r: Option<Event>)
        ensures
            (final(self)@, r) == run_spec(old(self)@, fuel as nat),
    {
        let mut left = fuel;
        while left > 0
            invariant
                run_spec(self@, left as nat) == run_spec(old(self)@, fuel as nat),
            decreases left,
        {
            match self.step() {
                Ok(Event::Continue) => {},
                Ok(e) => return Some(e),
                Err(i) => self.trap(i),
            }
            left = left - 1;
        }
        None
    }

    /// Finishes a transfer whose count the host reports: pushes `value` as an 8-byte
    /// cell and steps past the opcode.
    pub fn complete(&mut self, value: u64) -> (r: Result<Event, Inter>)
        ensures
            (final(self)@, r) == complete_spec(old(self)@, value),
    {
        let v = to_le(value as u128, 8);
        self.push_next(v.as_slice(), 1)
    }

    /// Finishes a read from standard input: stores `data` at `ptr` and completes with its
    /// length.
    pub fn finish_read(&mut self, ptr: u64, data: &[u8]) -> (r: Result<Event, Inter>)
        ensures
            (final(self)@, r) == finish_read_spec(old(self)@, ptr, data@),
    {
        match self.mem.write_bytes(ptr, data) {
            Ok(()) => self.complete(data.len() as u64),
            Err(e) => Err(e),
        }
    }

    /// Finishes a file read: stores the first `min(len, contents.len())` bytes of
    /// `contents` at `ptr` and completes with that count.
    pub fn finish_file_read(&mut self, ptr: u64, len: u64, contents: &[u8]) -> (r: Result<Event, Inter>)
        ensures
            (final(self)@, r) == finish_file_read_spec(old(self)@, ptr, len, contents@),
    {
        let n: usize = if (len as u128) < (contents.len() as u128) {
            len as usize
        } else {
            contents.len()
        };
        let part = vstd::slice::slice_subrange(contents, 0, n);
        self.finish_read(ptr, part)
    }

    fn exec_binary(&mut self, op: u8) -> (r: Result<Event, Inter>)
        requires
            is_binary(op),
        ensures
            (final(self)@, r) == binary_spec(old(self)@, op),
    {
        let w = binary_width_of(op);
        let b = match self.pop_value(w) {
            Ok(v) => v,
            Err(e) => return Err(e),
        };
        let a = match self.pop_value(w) {
            Ok(v) => v,
            Err(e) => return Err(e),
        };
        match binary_value(op, a, b) {
            Some(v) => self.push_next(v.as_slice(), 1),
            None => Err(Inter::InvalidInst),
        }
    }

    fn exec_negate(&mut self, op: u8) -> (r: Result<Event, Inter>)
        requires
            25 <= op < 30,
        ensures
            (final(self)@, r) == negate_spec(old(self)@, op),
    {
        let w = width_of(op - 25);
        let a = match self.pop_value(w) {
            Ok(v) => v,
            Err(e) => return Err(e),
        };
        let v = to_le(negate(w as usize, a), w as usize);
        self.push_next(v.as_slice(), 1)
    }

    fn exec_convert(&mut self, op: u8) -> (r: Result<Event, Inter>)
        requires
            190 <= op < 210,
        ensures
            (final(self)@, r) == convert_spec(old(self)@, op),
    {
        let k = op - 190;
        let i = k / 4;
        let j = k % 4;
        let wa = width_of(i);
        let wb = width_of(if j < i { j } else { j + 1 });
        let a = match self.pop_value(wa) {
            Ok(v) => v,
            Err(e) => return Err(e),
        };
        let v = convert_to(a, wb as usize);
        self.push_next(v.as_slice(), 1)
    }

    fn exec_shift(&mut self, op: u8) -> (r: Result<Event, Inter>)
        requires
            60 <= op < 80,
        ensures
            (final(self)@, r) == shift_op_spec(old(self)@, op),
    {
        let k = op - 60;
        let w = width_of(k % 5);
        let n = match self.pop_value(1) {
            Ok(v) => v,
            Err(e) => return Err(e),
        };
        let a = match self.pop_value(w) {
            Ok(v) => v,
            Err(e) => return Err(e),
        };
        proof {
            lemma_modulus_values();
        }
        let v = to_le(shift(shift_of(k / 5), w as usize, a, n as u8), w as usize);
        self.push_next(v.as_slice(), 1)
    }
}

fn width_of(i: u8) -> (r: u64)
    requires
        i < 5,
    ensures
        r == width_at(i as nat),
        is_width(r as nat),
{
    if i == 0 {
        1
    } else if i == 1 {
        2
    } else if i == 2 {
        4
    } else if i == 3 {
        8
    } else {
        16
    }
}

fn flag_bytes(b: bool) -> (r: Vec<u8>)
    ensures
        r@ == flag(b),
{
    let mut v: Vec<u8> = Vec::new();
    v.push(if b { 1u8 } else { 0u8 });
    proof {
        assert(v@ =~= flag(b));
    }
    v
}

fn arith_of(i: u8) -> (r: Arith)
    ensures
        r == arith_at(i as nat),
{
    if i == 0 {
        Arith::Add
    } else if i == 1 {
        Arith::Sub
    } else if i == 2 {
        Arith::Mul
    } else if i == 3 {
        Arith::Div
    } else {
        Arith::Rem
    }
}

fn order_of(i: u8) -> (r: Cmp)
    ensures
        r == order_at(i as nat),
{
    if i == 0 {
        Cmp::Lt
    } else if i == 1 {
        Cmp::Le
    } else if i == 2 {
        Cmp::Gt
    } else {
        Cmp::Ge
    }
}

fn shift_of(i: u8) -> (r: Shift)
    ensures
        r == shift_at(i as nat),
{
    if i == 0 {
        Shift::Shl
    } else if i == 1 {
        Shift::Shr
    } else if i == 2 {
        Shift::Rotl
    } else {
        Shift::Rotr
    }
}

fn binary_width_of(op: u8) -> (r: u64)
    requires
        is_binary(op),
    ensures
        r == binary_width(op),
        is_width(r as nat),
{
    if op >= 240 {
        width_of(op - 240)
    } else if op >= 100 {
        width_of((op - 100) % 5)
    } else if op >= 80 {
        width_of((op - 80) % 5)
    } else {
        width_of((op - 50) % 5)
    }
}

/// What the binary instruction `op` pushes for the operands `a` and `b`.
pub fn binary_value(op: u8, a: u128, b: u128) -> (r: Option<Vec<u8>>)
    requires
        is_binary(op),
        a < modulus(binary_width(op)),
        b < modulus(binary_width(op)),
    ensures
        match r {
            Some(v) => binary_result(op, a as nat, b as nat) == Some(v@),
            None => binary_result(op, a as nat, b as nat) is None,
        },
{
    let w = binary_width_of(op);
    if 50 <= op && op < 55 {
        Some(to_le(bitwise(Bits::And, a, b), w as usize))
    } else if 55 <= op && op < 60 {
        Some(to_le(bitwise(Bits::Or, a, b), w as usize))
    } else if 240 <= op {
        Some(to_le(bitwise(Bits::Xor, a, b), w as usize))
    } else if 80 <= op && op < 85 {
        Some(flag_bytes(a == b))
    } else if 85 <= op && op < 90 {
        Some(flag_bytes(a != b))
    } else if 100 <= op && op < 150 {
        let k = op - 100;
        match arith(arith_of(k / 10), k % 10 >= 5, w as usize, a, b) {
            Some(x) => {
                proof {
                    lemma_small_mod(x as nat, modulus(w as nat));
                }
                Some(to_le(x, w as usize))
            },
            None => None,
        }
    } else {
        let k = op - 150;
        Some(flag_bytes(compare(order_of(k / 10), k % 10 >= 5, w as usize, a, b)))
    }
}

} // verus!
