use turtl::compile::compile;
use turtl::program::Program;
use turtl::vm::{Fault, Status, TurtlVM, MEM_BYTES, NUM_GEN_REGS};

fn lines(xs: &[&str]) -> Vec<String> {
    xs.iter().map(|&x| x.into()).collect()
}

fn vm_with(src: &[&str]) -> TurtlVM {
    let p = compile(lines(src)).unwrap();
    let mut vm = TurtlVM::new();
    vm.load_program(p);
    vm
}

fn vm_with_words(words: Vec<u64>) -> TurtlVM {
    let mut vm = TurtlVM::new();
    vm.load_program(Program::from_bytecode(words));
    vm
}

// hand-packed words for the opcodes the assembler does not emit
fn movi(r: u64, imm: u64) -> u64 {
    (1u64 << 58) | (r << 54) | imm
}

fn reg3(ord: u64, a: u64, b: u64, c: u64) -> u64 {
    (ord << 58) | (a << 39) | (b << 20) | c
}

fn regreg(ord: u64, a: u64, b: u64) -> u64 {
    (ord << 58) | (a << 54) | b
}

fn run_to_end(vm: &mut TurtlVM, budget: usize) {
    let mut n = 0;
    while matches!(vm.status(), Status::Ready) && n < budget {
        vm.tick();
        n += 1;
    }
}

#[test]
fn fresh_vm_is_idle_and_zeroed() {
    let vm = TurtlVM::new();
    assert!(matches!(vm.status(), Status::Idle));
    assert_eq!(vm.ip(), 0);
    for i in 0..NUM_GEN_REGS {
        assert_eq!(vm.reg(i), 0);
    }
    let mem = vm.read_mem(0, MEM_BYTES).unwrap();
    assert!(mem.iter().all(|&b| b == 0));
}

#[test]
fn tick_when_idle_is_a_no_op() {
    let mut vm = TurtlVM::new();
    vm.tick();
    assert!(matches!(vm.status(), Status::Idle));
    assert_eq!(vm.ip(), 0);
}

#[test]
fn load_program_resets_state() {
    let mut vm = vm_with(&["MOVI %r1 $7"]);
    vm.tick();
    assert_eq!(vm.reg(1), 7);
    let p2 = compile(lines(&["MOVI %r2 $9"])).unwrap();
    let id = vm.load_program(p2);
    assert!(matches!(vm.status(), Status::Ready));
    assert_eq!(vm.ip(), 0);
    assert_eq!(vm.flags(), 0);
    for i in 0..NUM_GEN_REGS {
        assert_eq!(vm.reg(i), 0);
    }
    assert_eq!(vm.loaded_id(), id);
}

#[test]
fn each_load_assigns_a_fresh_runtime_id() {
    let mut vm = TurtlVM::new();
    let a = vm.load_program(Program::new());
    let b = vm.load_program(Program::new());
    assert_ne!(a, b);
}

#[test]
fn moves_and_arithmetic() {
    let mut vm = vm_with(&[
        "MOVI %r1 $13",
        "MOVI %r2 $16",
        "ADDR %r3 %r1 %r2",
        "MOVR %r4 %r3",
    ]);
    run_to_end(&mut vm, 10);
    assert!(matches!(vm.status(), Status::Halted));
    assert_eq!(vm.reg(1), 13);
    assert_eq!(vm.reg(2), 16);
    assert_eq!(vm.reg(3), 29);
    assert_eq!(vm.reg(4), 29);
}

#[test]
fn halts_at_end_and_further_ticks_are_no_ops() {
    let mut vm = vm_with(&["MOVI %r1 $1", "MOVI %r2 $2"]);
    vm.tick();
    vm.tick();
    assert!(matches!(vm.status(), Status::Ready));
    assert_eq!(vm.ip(), 2);
    // the pointer has reached the bytecode length: this tick halts
    vm.tick();
    assert!(matches!(vm.status(), Status::Halted));
    assert_eq!(vm.ip(), 2);
    // one further tick is a no-op, never a fault
    vm.tick();
    assert!(matches!(vm.status(), Status::Halted));
    assert_eq!(vm.ip(), 2);
    assert_eq!(vm.reg(1), 1);
    assert_eq!(vm.reg(2), 2);
}

#[test]
fn store_and_load_through_memory() {
    let mut vm = vm_with(&[
        "MOVI %r1 $513",
        "STRI %r1 $100",
        "MOVI %r2 $100",
        "LODR %r3 %r2",
        "LODI %r4 $100",
    ]);
    run_to_end(&mut vm, 10);
    assert!(matches!(vm.status(), Status::Halted));
    assert_eq!(vm.reg(3), 513);
    assert_eq!(vm.reg(4), 513);
    // the bytes sit little-endian at offset 100
    let mem = vm.read_mem(100, 108).unwrap();
    assert_eq!(mem, vec![1, 2, 0, 0, 0, 0, 0, 0]);
}

#[test]
fn out_of_bounds_store_faults_and_leaves_memory_unchanged() {
    let addr = MEM_BYTES as u64; // one past the end
    let src = format!("STRI %r1 ${}", addr);
    let mut vm = vm_with(&["MOVI %r1 $77", src.as_str()]);
    vm.tick();
    vm.tick();
    assert!(matches!(vm.status(), Status::Faulted(Fault::OutOfBounds)));
    // the buffer did not grow, wrap, or change
    let mem = vm.read_mem(0, MEM_BYTES).unwrap();
    assert!(mem.iter().all(|&b| b == 0));
    assert!(vm.read_mem(0, MEM_BYTES + 1).is_err());
}

#[test]
fn store_to_the_last_word_is_within_bounds() {
    // the write must end strictly inside the buffer
    let ok_addr = MEM_BYTES as u64 - 9;
    let src = format!("STRI %r1 ${}", ok_addr);
    let mut vm = vm_with(&["MOVI %r1 $1", src.as_str()]);
    run_to_end(&mut vm, 5);
    assert!(matches!(vm.status(), Status::Halted));

    let edge_addr = MEM_BYTES as u64 - 8;
    let src2 = format!("STRI %r1 ${}", edge_addr);
    let mut vm2 = vm_with(&["MOVI %r1 $1", src2.as_str()]);
    run_to_end(&mut vm2, 5);
    assert!(matches!(vm2.status(), Status::Faulted(Fault::OutOfBounds)));
}

#[test]
fn add_wraps_on_the_register_width() {
    // build two large operands, then add them: the sum exceeds 64 bits and
    // wraps deterministically instead of faulting (MUL is hand-packed:
    // the assembler does not emit it)
    let big = (1u64 << 54) - 1;
    let mut vm = vm_with_words(vec![
        movi(1, big),
        movi(2, big),
        reg3(9, 3, 1, 2),
        reg3(6, 4, 3, 3),
        reg3(6, 5, 3, 4),
    ]);
    run_to_end(&mut vm, 10);
    assert!(matches!(vm.status(), Status::Halted));
    let x = big.wrapping_mul(big);
    let y = x.wrapping_add(x);
    assert_eq!(vm.reg(3), x);
    assert_eq!(vm.reg(4), y);
    assert_eq!(vm.reg(5), x.wrapping_add(y));
}

#[test]
fn sub_wraps_below_zero() {
    let mut vm = vm_with_words(vec![movi(1, 3), movi(2, 5), reg3(8, 3, 1, 2)]);
    run_to_end(&mut vm, 5);
    assert!(matches!(vm.status(), Status::Halted));
    assert_eq!(vm.reg(3), 3u64.wrapping_sub(5));
}

#[test]
fn division_and_divide_by_zero() {
    let mut vm = vm_with_words(vec![movi(1, 17), movi(2, 5), reg3(10, 3, 1, 2)]);
    run_to_end(&mut vm, 5);
    assert_eq!(vm.reg(3), 3);
    assert!(matches!(vm.status(), Status::Halted));

    let mut vm2 = vm_with_words(vec![movi(1, 17), reg3(10, 3, 1, 2)]);
    run_to_end(&mut vm2, 5);
    assert!(matches!(vm2.status(), Status::Faulted(Fault::DivideByZero)));
}

#[test]
fn jumps_replace_the_instruction_pointer() {
    // JMPI $3 skips the middle instruction
    let mut vm = vm_with(&["JMPI $3", "MOVI %r1 $1", "MOVI %r2 $2", "MOVI %r3 $3"]);
    vm.tick();
    assert_eq!(vm.ip(), 3);
    run_to_end(&mut vm, 5);
    assert!(matches!(vm.status(), Status::Halted));
    assert_eq!(vm.reg(1), 0);
    assert_eq!(vm.reg(3), 3);

    // JMPR jumps to the address held in a register
    let mut vm2 = vm_with(&["MOVI %r1 $3", "JMPR %r1", "MOVI %r2 $2", "MOVI %r3 $3"]);
    run_to_end(&mut vm2, 5);
    assert!(matches!(vm2.status(), Status::Halted));
    assert_eq!(vm2.reg(2), 0);
    assert_eq!(vm2.reg(3), 3);
}

#[test]
fn a_jump_past_the_end_halts() {
    let mut vm = vm_with(&["JMPI $50"]);
    vm.tick();
    assert!(matches!(vm.status(), Status::Ready));
    vm.tick();
    assert!(matches!(vm.status(), Status::Halted));
}

#[test]
fn comparison_and_logic_write_the_flags() {
    let mut vm = vm_with_words(vec![movi(1, 4), movi(2, 4), regreg(13, 1, 2)]);
    run_to_end(&mut vm, 5);
    assert_eq!(vm.flags(), 1);

    let mut vm2 = vm_with_words(vec![movi(1, 4), movi(2, 9), regreg(15, 1, 2)]);
    run_to_end(&mut vm2, 5);
    assert_eq!(vm2.flags(), 1);

    let mut vm3 = vm_with_words(vec![movi(1, 4), regreg(14, 1, 2)]);
    run_to_end(&mut vm3, 5);
    assert_eq!(vm3.flags(), 0);

    // NOT takes the single-register shape
    let mut vm4 = vm_with_words(vec![(16u64 << 58) | 1]);
    run_to_end(&mut vm4, 5);
    assert_eq!(vm4.flags(), 1);
}

#[test]
fn undecodable_words_fault() {
    // an ordinal past the instruction set
    let mut vm = TurtlVM::new();
    vm.load_program(Program::from_bytecode(vec![63u64 << 58]));
    vm.tick();
    assert!(matches!(
        vm.status(),
        Status::Faulted(Fault::UndefinedOpcode)
    ));

    // a storage-daemon opcode: decodable, but it has no operand shape here
    let mut vm2 = TurtlVM::new();
    vm2.load_program(Program::from_bytecode(vec![17u64 << 58]));
    vm2.tick();
    assert!(matches!(
        vm2.status(),
        Status::Faulted(Fault::UndefinedOpcode)
    ));
}

#[test]
fn a_fault_is_terminal() {
    let mut vm = vm_with_words(vec![reg3(10, 1, 2, 3), movi(1, 9)]);
    vm.tick();
    assert!(matches!(vm.status(), Status::Faulted(Fault::DivideByZero)));
    vm.tick();
    assert!(matches!(vm.status(), Status::Faulted(Fault::DivideByZero)));
    assert_eq!(vm.reg(1), 0);
    // loading a new program recovers
    let p = compile(lines(&["MOVI %r1 $9"])).unwrap();
    vm.load_program(p);
    run_to_end(&mut vm, 5);
    assert!(matches!(vm.status(), Status::Halted));
    assert_eq!(vm.reg(1), 9);
}
