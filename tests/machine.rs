use stackvm::inter::Inter;
use stackvm::vm::{Event, VM};

/// The program followed by `headroom` zero bytes.
fn image(program: &[u8], headroom: usize) -> Vec<u8> {
    let mut v = program.to_vec();
    v.extend(std::iter::repeat(0u8).take(headroom));
    v
}

/// Runs until halt, answering host transfers; returns what was printed.
fn drive(vm: &mut VM) -> Vec<String> {
    let mut out = Vec::new();
    for _ in 0..1000 {
        match vm.run(10_000) {
            Some(Event::Halt) => return out,
            Some(Event::Debug { width, value }) => {
                out.push(format!("Debug{}: 0x{:x}", width * 8, value));
            }
            Some(Event::WriteStdout { ptr, len }) => {
                let bytes = vm.mem().read_bytes(ptr, len).unwrap();
                out.push(String::from_utf8_lossy(&bytes).into_owned());
                vm.complete(len).unwrap();
            }
            Some(other) => panic!("unexpected event {:?}", other),
            None => panic!("no halt"),
        }
    }
    panic!("no halt")
}

fn push8(v: u64) -> Vec<u8> {
    let mut p = vec![0x0D];
    p.extend(v.to_le_bytes());
    p
}

#[test]
fn halt_immediately() {
    let mut vm = VM::new(image(&[0x01], 16));
    assert_eq!(vm.run(10), Some(Event::Halt));
    assert_eq!(vm.pc(), 0);
}

#[test]
fn new_sets_registers() {
    let vm = VM::new(image(&[0x01, 0x00], 16));
    assert_eq!(vm.pc(), 0);
    assert_eq!(vm.sp(), 2);
    assert_eq!(vm.cs(), 0);
    assert_eq!(vm.ih(), 0);
    assert_eq!(vm.ir(), 0);
    assert_eq!(vm.mem().len(), 18);
}

// The operand stack grows down from the end of the program, so these images carry
// 32 bytes of headroom: 16 for the stack below `sp` and the 16 reserved above it.
#[test]
fn print_a() {
    let mut p = push8(20);
    p.extend(push8(1));
    p.extend([0x07, 0x01, 0x41]);
    let mut vm = VM::new(image(&p, 32));
    assert_eq!(vm.run(100), Some(Event::WriteStdout { ptr: 20, len: 1 }));
    let mut vm = VM::new(image(&p, 32));
    assert_eq!(drive(&mut vm), vec!["A".to_string()]);
}

#[test]
fn add_two_and_three() {
    let mut vm = VM::new(image(&[0x0A, 0x02, 0x0A, 0x03, 0x64, 0xFB, 0x01], 32));
    assert_eq!(drive(&mut vm), vec!["Debug8: 0x5".to_string()]);
}

#[test]
fn add_wraps_around() {
    let mut vm = VM::new(image(&[0x0A, 0xFF, 0x0A, 0x02, 0x64, 0xFB, 0x01], 32));
    assert_eq!(drive(&mut vm), vec!["Debug8: 0x1".to_string()]);
}

fn cond_jump_program(cond: u8) -> Vec<u8> {
    // push8 delta; push1 cond; cjmp_fwd; push1 0xAA; debug_u8; halt
    let mut p = push8(4);
    p.extend([0x0A, cond, 0x60, 0x0A, 0xAA, 0xFB, 0x01]);
    p
}

#[test]
fn conditional_forward_jump_taken() {
    let mut vm = VM::new(image(&cond_jump_program(1), 32));
    assert_eq!(drive(&mut vm), Vec::<String>::new());
}

#[test]
fn conditional_forward_jump_not_taken() {
    let mut vm = VM::new(image(&cond_jump_program(0), 32));
    assert_eq!(drive(&mut vm), vec!["Debug8: 0xaa".to_string()]);
}

#[test]
fn fault_goes_to_handler() {
    // push8 11; pop->ih; reserved 93; handler at 11: push1 0x5A; halt
    let mut p = push8(11);
    p.extend([0x11, 0x5D, 0x0A, 0x5A, 0x01]);
    let mut vm = VM::new(image(&p, 32));
    assert_eq!(vm.run(100), Some(Event::Halt));
    assert_eq!(vm.ir(), 3);
    assert_eq!(vm.pc(), 13);
    let sp = vm.sp();
    assert_eq!(vm.mem().read(sp, 1).unwrap(), vec![0x5A]);
}

#[test]
fn step_reports_faults() {
    let mut vm = VM::new(image(&[0x5D], 16));
    assert_eq!(vm.step(), Err(Inter::InvalidInst));
    assert_eq!(vm.pc(), 0);
    vm.trap(Inter::InvalidInst);
    assert_eq!(vm.ir(), 3);
    assert_eq!(vm.pc(), 0);
    vm.trap(Inter::IoError);
    assert_eq!(vm.ir(), 4);
}

#[test]
fn run_stops_when_fuel_runs_out() {
    // jmp_imm 0: an endless loop
    let mut p = vec![0xDC];
    p.extend(0u64.to_le_bytes());
    let mut vm = VM::new(image(&p, 16));
    assert_eq!(vm.run(50), None);
    assert_eq!(vm.pc(), 0);
}

#[test]
fn fetch_past_end_is_out_of_mem() {
    let mut vm = VM::new(image(&push8(1000), 32));
    vm.exec(0x0D).unwrap();
    assert_eq!(vm.exec(0x5A), Ok(Event::Continue));
    assert_eq!(vm.pc(), 1000);
    assert_eq!(vm.step(), Err(Inter::OutOfMem));
}

#[test]
fn push_below_zero_is_reg_overflow() {
    let mut vm = VM::new(image(&[], 16));
    assert_eq!(vm.sp(), 0);
    assert_eq!(vm.push(&[1, 2]), Err(Inter::RegOverflow));
    assert_eq!(vm.sp(), 0);
}

#[test]
fn divide_by_zero_is_invalid() {
    let mut vm = VM::new(image(&[0x0A, 0x07, 0x0A, 0x00, 0x82, 0x01], 32));
    vm.step().unwrap();
    vm.step().unwrap();
    assert_eq!(vm.step(), Err(Inter::InvalidInst));
    let mut vm = VM::new(image(&[0x0A, 0x07, 0x0A, 0x00, 0x8C, 0x01], 32));
    vm.step().unwrap();
    vm.step().unwrap();
    assert_eq!(vm.step(), Err(Inter::InvalidInst));
}

#[test]
fn fault_codes() {
    assert_eq!(Inter::OutOfMem.code(), 1);
    assert_eq!(Inter::RegOverflow.code(), 2);
    assert_eq!(Inter::InvalidInst.code(), 3);
    assert_eq!(Inter::IoError.code(), 4);
}

#[test]
fn pc_advances_by_encoding() {
    // push2 imm; push8 imm; drop8; ld_imm1 0; nop
    let mut p = vec![0x0B, 0x34, 0x12];
    p.extend(push8(7));
    p.push(0x17);
    p.push(0xE6);
    p.extend(0u64.to_le_bytes());
    p.push(0x00);
    let mut vm = VM::new(image(&p, 32));
    vm.step().unwrap();
    assert_eq!(vm.pc(), 3);
    vm.step().unwrap();
    assert_eq!(vm.pc(), 12);
    vm.step().unwrap();
    assert_eq!(vm.pc(), 13);
    vm.step().unwrap();
    assert_eq!(vm.pc(), 22);
    vm.step().unwrap();
    assert_eq!(vm.pc(), 23);
}

#[test]
fn push_then_pop_round_trip() {
    for w in [1u64, 2, 4, 8, 16] {
        let mut vm = VM::new(image(&[0x00; 8], 40));
        let sp = vm.sp();
        let above = vm.mem().read_bytes(sp, 16).unwrap();
        let v: Vec<u8> = (0..w as u8).map(|i| 0xA0 + i).collect();
        vm.push(&v).unwrap();
        assert_eq!(vm.sp(), sp - w);
        assert_eq!(vm.pop(w).unwrap(), v);
        assert_eq!(vm.sp(), sp);
        assert_eq!(vm.mem().read_bytes(sp, 16).unwrap(), above);
        assert_eq!(vm.pc(), 0);
    }
}

#[test]
fn swap_twice_is_identity() {
    let mut vm = VM::new(image(&[0x20, 0x20], 32));
    vm.push(&[1, 2, 3, 4]).unwrap();
    vm.push(&[5, 6, 7, 8]).unwrap();
    let before = vm.mem().read_bytes(0, 34).unwrap();
    let sp = vm.sp();
    vm.step().unwrap();
    assert_eq!(vm.mem().read(sp, 4).unwrap(), vec![1, 2, 3, 4]);
    assert_eq!(vm.mem().read(sp + 4, 4).unwrap(), vec![5, 6, 7, 8]);
    vm.step().unwrap();
    assert_eq!(vm.mem().read_bytes(0, 34).unwrap(), before);
    assert_eq!(vm.sp(), sp);
}

#[test]
fn rotate_three_cells() {
    let mut vm = VM::new(image(&[0x23], 32));
    vm.push(&[3]).unwrap();
    vm.push(&[2]).unwrap();
    vm.push(&[1]).unwrap();
    vm.step().unwrap();
    // top to bottom: v3, v1, v2
    assert_eq!(vm.pop(1).unwrap(), vec![3]);
    assert_eq!(vm.pop(1).unwrap(), vec![1]);
    assert_eq!(vm.pop(1).unwrap(), vec![2]);
}

#[test]
fn dup_and_drop_depth() {
    let mut vm = VM::new(image(&[0x2A, 0x2F, 0x16], 48));
    vm.push(&[9, 9, 9, 9, 7, 7, 7, 7]).unwrap();
    let sp = vm.sp();
    vm.step().unwrap();
    assert_eq!(vm.sp(), sp - 4);
    assert_eq!(vm.mem().read(sp - 4, 4).unwrap(), vec![9, 9, 9, 9]);
    vm.step().unwrap();
    assert_eq!(vm.sp(), sp - 8);
    assert_eq!(vm.mem().read(sp - 8, 4).unwrap(), vec![9, 9, 9, 9]);
    vm.step().unwrap();
    assert_eq!(vm.sp(), sp - 4);
}

#[test]
fn store_out_of_bounds_writes_nothing() {
    let mut vm = VM::new(image(&[0xDA], 32));
    let len = vm.mem().len();
    vm.push(&(len - 4).to_le_bytes()).unwrap();
    vm.push(&[1, 2, 3, 4, 5, 6, 7, 8]).unwrap();
    let before = vm.mem().read_bytes(0, len).unwrap();
    assert_eq!(vm.step(), Err(Inter::OutOfMem));
    let after = vm.mem().read_bytes(0, len).unwrap();
    // only the two pops happened
    assert_eq!(before, after);
    assert_eq!(vm.pc(), 0);
}

#[test]
fn load_and_store_through_pointer() {
    let mut vm = VM::new(image(&[0xDA, 0xD5, 0x01], 48));
    vm.push(&40u64.to_le_bytes()).unwrap();
    vm.push(&0xDEADBEEFu64.to_le_bytes()).unwrap();
    vm.step().unwrap();
    assert_eq!(vm.mem().read(40, 8).unwrap(), 0xDEADBEEFu64.to_le_bytes().to_vec());
    vm.push(&40u64.to_le_bytes()).unwrap();
    vm.step().unwrap();
    assert_eq!(vm.pop(8).unwrap(), 0xDEADBEEFu64.to_le_bytes().to_vec());
}

#[test]
fn call_and_return() {
    // cs at 64; call 21, the ret; it returns to the halt at 20
    let mut p = push8(64);
    p.push(0x10);
    p.extend(push8(21));
    p.push(0x02);
    p.push(0x01);
    p.push(0x03);
    let mut vm = VM::new(image(&p, 64));
    vm.step().unwrap();
    vm.step().unwrap();
    vm.step().unwrap();
    vm.step().unwrap();
    assert_eq!(vm.pc(), 21);
    assert_eq!(vm.cs(), 56);
    assert_eq!(vm.mem().read(56, 8).unwrap(), 20u64.to_le_bytes().to_vec());
    vm.step().unwrap();
    assert_eq!(vm.pc(), 20);
    assert_eq!(vm.cs(), 64);
    assert_eq!(vm.step(), Ok(Event::Halt));
}

#[test]
fn alloc_grows_memory() {
    let mut vm = VM::new(image(&[0x05], 32));
    vm.push(&10u64.to_le_bytes()).unwrap();
    vm.step().unwrap();
    assert_eq!(vm.mem().len(), 43);
    assert_eq!(vm.pop(8).unwrap(), 33u64.to_le_bytes().to_vec());
    assert_eq!(vm.mem().read_bytes(33, 10).unwrap(), vec![0; 10]);
}

#[test]
fn alloc_past_limit_faults() {
    let mut vm = VM::with_limit(image(&[0x05], 32), 40);
    vm.push(&10u64.to_le_bytes()).unwrap();
    assert_eq!(vm.step(), Err(Inter::OutOfMem));
    assert_eq!(vm.mem().len(), 33);
}

#[test]
fn file_read_keeps_at_most_len() {
    let mut vm = VM::new(image(&[0x08], 96));
    vm.push(&0u64.to_le_bytes()).unwrap();
    vm.push(&1u64.to_le_bytes()).unwrap();
    vm.push(&20u64.to_le_bytes()).unwrap();
    vm.push(&3u64.to_le_bytes()).unwrap();
    let ev = vm.step().unwrap();
    assert_eq!(ev, Event::FileRead { path_ptr: 0, path_len: 1, dest_ptr: 20, dest_len: 3 });
    vm.finish_file_read(20, 3, b"hello").unwrap();
    assert_eq!(vm.mem().read_bytes(20, 4).unwrap(), b"hel\0".to_vec());
    assert_eq!(vm.pop(8).unwrap(), 3u64.to_le_bytes().to_vec());
    assert_eq!(vm.pc(), 1);
}

#[test]
fn stdin_read_stores_bytes() {
    let mut vm = VM::new(image(&[0x06], 64));
    vm.push(&10u64.to_le_bytes()).unwrap();
    vm.push(&8u64.to_le_bytes()).unwrap();
    assert_eq!(vm.step(), Ok(Event::ReadStdin { ptr: 10, len: 8 }));
    vm.finish_read(10, b"hi").unwrap();
    assert_eq!(vm.mem().read_bytes(10, 2).unwrap(), b"hi".to_vec());
    assert_eq!(vm.pop(8).unwrap(), 2u64.to_le_bytes().to_vec());
}

#[test]
fn stdout_range_checked() {
    let mut vm = VM::new(image(&[0x07], 32));
    vm.push(&30u64.to_le_bytes()).unwrap();
    vm.push(&8u64.to_le_bytes()).unwrap();
    assert_eq!(vm.step(), Err(Inter::OutOfMem));
}

#[test]
fn push_and_pop_ir() {
    let mut vm = VM::new(image(&[0x12, 0x13], 32));
    vm.push(&[0xFE]).unwrap();
    vm.step().unwrap();
    assert_eq!(vm.ir(), -2);
    vm.step().unwrap();
    assert_eq!(vm.pop(1).unwrap(), vec![0xFE]);
}

#[test]
fn sleep_and_dump_events() {
    let mut p = vec![0xE0];
    p.extend(25u64.to_le_bytes());
    p.push(0xFA);
    let mut vm = VM::new(image(&p, 32));
    assert_eq!(vm.step(), Ok(Event::Sleep { millis: 25 }));
    assert_eq!(vm.pc(), 9);
    assert_eq!(vm.step(), Ok(Event::Dump));
    assert_eq!(vm.pc(), 10);
}

#[test]
fn hexdump_of_memory() {
    let vm = VM::new(image(&[0x41, 0x42], 16));
    let text = vm.mem().hexdump();
    assert!(text.starts_with("00000000: 41 42 00"), "{}", text);
    assert!(text.contains("AB"), "{}", text);
}
