use stackvm::alu::{arith, bitwise, compare, convert_to, negate, shift, Arith, Bits, Cmp, Shift};
use stackvm::encoding::{from_le, to_le};
use stackvm::mem::MEM;
use stackvm::reg::Reg;
use stackvm::inter::Inter;
use stackvm::vm::binary_value;

#[test]
fn le_round_trip_all_widths() {
    for (w, v) in [(1usize, 0xABu128), (2, 0xBEEF), (4, 0xDEADBEEF), (8, 0x0123_4567_89AB_CDEF), (16, u128::MAX - 5)] {
        let b = to_le(v, w);
        assert_eq!(b.len(), w);
        assert_eq!(from_le(&b), v);
    }
    assert_eq!(to_le(0x0102, 2), vec![0x02, 0x01]);
    assert_eq!(to_le(0x1FF, 1), vec![0xFF]);
}

#[test]
fn unsigned_arith_wraps() {
    assert_eq!(arith(Arith::Add, false, 1, 0xFF, 2), Some(1));
    assert_eq!(arith(Arith::Sub, false, 2, 1, 2), Some(0xFFFF));
    assert_eq!(arith(Arith::Mul, false, 4, 0x10000, 0x10000), Some(0));
    assert_eq!(arith(Arith::Div, false, 8, 100, 7), Some(14));
    assert_eq!(arith(Arith::Rem, false, 8, 100, 7), Some(2));
    assert_eq!(arith(Arith::Add, false, 16, u128::MAX, 3), Some(2));
    assert_eq!(arith(Arith::Div, false, 1, 5, 0), None);
    assert_eq!(arith(Arith::Rem, true, 1, 5, 0), None);
}

#[test]
fn signed_division_truncates() {
    // -7 / 2 == -3, -7 % 2 == -1 at 8 bits
    assert_eq!(arith(Arith::Div, true, 1, 0xF9, 2), Some(0xFD));
    assert_eq!(arith(Arith::Rem, true, 1, 0xF9, 2), Some(0xFF));
    // 7 / -2 == -3, 7 % -2 == 1
    assert_eq!(arith(Arith::Div, true, 1, 7, 0xFE), Some(0xFD));
    assert_eq!(arith(Arith::Rem, true, 1, 7, 0xFE), Some(1));
    // MIN / -1 wraps to MIN
    assert_eq!(arith(Arith::Div, true, 1, 0x80, 0xFF), Some(0x80));
    assert_eq!(arith(Arith::Div, true, 16, 1u128 << 127, u128::MAX), Some(1u128 << 127));
    assert_eq!(arith(Arith::Mul, true, 2, 0xFFFF, 0xFFFF), Some(1));
}

#[test]
fn comparisons_signed_and_unsigned() {
    assert!(compare(Cmp::Lt, false, 1, 1, 0xFF));
    assert!(!compare(Cmp::Lt, true, 1, 1, 0xFF));
    assert!(compare(Cmp::Ge, true, 4, 0, 0xFFFF_FFFF));
    assert!(compare(Cmp::Le, true, 16, 1u128 << 127, 0));
    assert!(compare(Cmp::Gt, false, 8, 9, 8));
    assert!(compare(Cmp::Eq, false, 2, 7, 7));
    assert!(compare(Cmp::Ne, false, 2, 7, 8));
}

#[test]
fn shifts_and_rotates() {
    assert_eq!(shift(Shift::Shl, 1, 0x81, 1), 0x02);
    assert_eq!(shift(Shift::Shl, 1, 0x01, 9), 0x02);
    assert_eq!(shift(Shift::Shr, 2, 0x8000, 15), 1);
    assert_eq!(shift(Shift::Rotl, 1, 0x81, 1), 0x03);
    assert_eq!(shift(Shift::Rotr, 1, 0x81, 1), 0xC0);
    assert_eq!(shift(Shift::Rotl, 16, 1u128 << 127, 1), 1);
    assert_eq!(shift(Shift::Rotr, 8, 1, 8), 1u128 << 56);
    assert_eq!(shift(Shift::Rotl, 4, 0x1234_5678, 0), 0x1234_5678);
}

#[test]
fn bitwise_ops() {
    assert_eq!(bitwise(Bits::And, 0b1100, 0b1010), 0b1000);
    assert_eq!(bitwise(Bits::Or, 0b1100, 0b1010), 0b1110);
    assert_eq!(bitwise(Bits::Xor, 0b1100, 0b1010), 0b0110);
}

#[test]
fn negate_saturates() {
    assert_eq!(negate(1, 0x80), 0x7F);
    assert_eq!(negate(1, 0x05), 0xFB);
    assert_eq!(negate(1, 0xFB), 0x05);
    assert_eq!(negate(1, 0), 0);
    assert_eq!(negate(16, 1u128 << 127), (1u128 << 127) - 1);
    for v in [1u128, 0x7F, 0x81, 0xFF] {
        assert_eq!(negate(1, negate(1, v)), v);
    }
}

#[test]
fn conversions_round_trip() {
    let v = 0xA1B2u128;
    // widening then narrowing restores
    let wide = convert_to(v, 8);
    assert_eq!(wide, vec![0xB2, 0xA1, 0, 0, 0, 0, 0, 0]);
    assert_eq!(convert_to(from_le(&wide), 2), vec![0xB2, 0xA1]);
    // narrowing then widening loses the high byte
    let narrow = convert_to(v, 1);
    assert_eq!(narrow, vec![0xB2]);
    assert_eq!(convert_to(from_le(&narrow), 2), vec![0xB2, 0x00]);
}

#[test]
fn binary_values_by_opcode() {
    assert_eq!(binary_value(100, 2, 3), Some(vec![5]));
    assert_eq!(binary_value(80, 4, 4), Some(vec![1]));
    assert_eq!(binary_value(85, 4, 4), Some(vec![0]));
    assert_eq!(binary_value(155, 0xFF, 1), Some(vec![1]));
    assert_eq!(binary_value(150, 0xFF, 1), Some(vec![0]));
    assert_eq!(binary_value(243, 0xF0, 0xFF), Some(vec![0x0F, 0, 0, 0, 0, 0, 0, 0]));
    assert_eq!(binary_value(135, 0x10, 0), None);
}

#[test]
fn register_overflow() {
    let mut r = Reg(u64::MAX - 1);
    assert_eq!(r.inc_by(1), Ok(()));
    assert_eq!(r.as_u64(), u64::MAX);
    assert_eq!(r.inc_by(1), Err(Inter::RegOverflow));
    assert_eq!(r.as_u64(), u64::MAX);
    let mut z = Reg(3);
    assert_eq!(z.dec_by(4), Err(Inter::RegOverflow));
    assert_eq!(z.dec_by(3), Ok(()));
    assert_eq!(z.as_u64(), 0);
    assert_eq!(Reg(7).add(1), Ok(Reg(8)));
    assert_eq!(Reg(7).sub(8), Err(Inter::RegOverflow));
    assert_eq!(Reg(0x0102).to_bytes(), vec![2, 1, 0, 0, 0, 0, 0, 0]);
    let mut s = Reg(0);
    s.set(9);
    assert_eq!(s.as_usize(), Some(9));
}

#[test]
fn memory_bounds() {
    let mut m = MEM::new(vec![1, 2, 3, 4]);
    assert_eq!(m.read(1, 2), Ok(vec![2, 3]));
    assert_eq!(m.read(3, 2), Err(Inter::OutOfMem));
    assert_eq!(m.read_bytes(u64::MAX, 2), Err(Inter::OutOfMem));
    assert_eq!(m.write(3, &[9, 9]), Err(Inter::OutOfMem));
    assert_eq!(m.read_bytes(0, 4), Ok(vec![1, 2, 3, 4]));
    assert_eq!(m.write_bytes(2, &[7, 8]), Ok(()));
    assert_eq!(m.read_bytes(0, 4), Ok(vec![1, 2, 7, 8]));
    assert_eq!(m.allocate(3), Ok(4));
    assert_eq!(m.read_bytes(0, 7), Ok(vec![1, 2, 7, 8, 0, 0, 0]));
    let mut small = MEM::with_limit(vec![0; 4], 6);
    assert_eq!(small.allocate(3), Err(Inter::OutOfMem));
    assert_eq!(small.len(), 4);
    assert_eq!(small.allocate(2), Ok(4));
}
