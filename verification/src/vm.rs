//! The execution engine: a register file, an instruction pointer, a flags
//! word, a flat memory, and one loaded program. Each `tick` fetches the word
//! at the instruction pointer, decodes the opcode from its top 6 bits,
//! decodes the operands per the opcode's shape, and applies the opcode's
//! effect. Arithmetic wraps on the 64-bit register width; division by zero,
//! out-of-bounds access, and an undecodable opcode fault the engine; a
//! faulted or halted engine ignores further ticks until a new program is
//! loaded.

use crate::compile::{
    instr_ord_shifted, spec_enc_register_register, spec_parse_register, IMM54_MAX, IMM58_MAX,
};
use crate::instruction::{
    instr_decode, instr_of_ord, instr_ord, lemma_instr_ord_inverse, Instruction,
};
use crate::memory::Memory;
use crate::program::Program;
use vstd::bytes::{spec_u64_from_le_bytes, spec_u64_to_le_bytes, u64_from_le_bytes, u64_to_le_bytes};
use vstd::prelude::*;
use vstd::wrapping::u64_specs;

verus! {

/// Number of general-purpose registers in the VM's register file.
pub const NUM_GEN_REGS: usize = 12;

/// How many bytes of flat memory a VM owns.
pub const MEM_BYTES: usize = 65536;

/// The unrecoverable run-time conditions that fault the engine.
#[derive(Copy, Clone, PartialEq, Eq, Structural, Debug)]
pub enum Fault {
    /// The fetched word's ordinal names no opcode with an operand shape.
    UndefinedOpcode,
    /// A register field or memory address lies outside its range.
    OutOfBounds,
    /// A division instruction met a zero divisor.
    DivideByZero,
}

/// The engine's execution state.
#[derive(Copy, Clone, PartialEq, Eq, Structural, Debug)]
pub enum Status {
    /// No program loaded; the instruction pointer is meaningless.
    Idle,
    /// A program is loaded and execution can proceed.
    Ready,
    /// The instruction pointer advanced past the last bytecode word.
    Halted,
    /// A run-time fault stopped execution.
    Faulted(Fault),
}

/// The abstract state of the engine: what one `tick` reads and writes.
#[verifier::ext_equal]
pub struct VmState {
    pub registers: Seq<u64>,
    pub ip: int,
    pub flags: u32,
    pub bytecode: Seq<u64>,
    pub mem: Seq<u8>,
    pub status: Status,
}

/// The opcode ordinal of an encoded word: its top 6 bits.
pub open spec fn word_ord(w: u64) -> u64 {
    w >> 58
}

/// The first register of a two-operand shape: bits 57-54.
pub open spec fn field_reg_a(w: u64) -> u64 {
    (w >> 54) & 0xF
}

/// The unshifted low 54 bits: the second operand of a two-operand shape.
pub open spec fn field_low54(w: u64) -> u64 {
    w & IMM54_MAX
}

/// The unshifted low 58 bits: the whole operand field.
pub open spec fn field_low58(w: u64) -> u64 {
    w & IMM58_MAX
}

/// The first field of the three-register shape: bits 57-39.
pub open spec fn field_r3_a(w: u64) -> u64 {
    (w >> 39) & 0x7FFFF
}

/// The second field of the three-register shape: bits 38-20.
pub open spec fn field_r3_b(w: u64) -> u64 {
    (w >> 20) & 0x7FFFF
}

/// The third field of the three-register shape: bits 19-0.
pub open spec fn field_r3_c(w: u64) -> u64 {
    w & 0xFFFFF
}

/// Fault the engine: the state is otherwise untouched, so no instruction
/// applies a partial effect.
pub open spec fn spec_fault(s: VmState, f: Fault) -> VmState {
    VmState { status: Status::Faulted(f), ..s }
}

/// Write one register and advance the instruction pointer.
pub open spec fn step_regs(s: VmState, i: int, v: u64) -> VmState {
    VmState { registers: s.registers.update(i, v), ip: s.ip + 1, ..s }
}

/// Write the flags word and advance the instruction pointer.
pub open spec fn step_flags(s: VmState, v: u32) -> VmState {
    VmState { flags: v, ip: s.ip + 1, ..s }
}

/// Replace the instruction pointer: how jumps advance.
pub open spec fn step_jump(s: VmState, t: u64) -> VmState {
    VmState { ip: t as int, ..s }
}

/// Overwrite eight bytes of memory at `addr` and advance the pointer.
pub open spec fn step_mem(s: VmState, addr: int, bytes: Seq<u8>) -> VmState {
    VmState { mem: s.mem.take(addr) + bytes + s.mem.skip(addr + 8), ip: s.ip + 1, ..s }
}

/// The effect of executing one fetched word on the engine state.
///
/// Register fields must name a register strictly inside the file; memory
/// operations move a whole 64-bit register through eight little-endian
/// bytes and must stay inside the flat memory (stores, like
/// `Memory::write`, keep strictly below the capacity); arithmetic wraps on
/// the 64-bit register width; a zero divisor faults. The storage-daemon
/// opcodes (LDFS and later) have no operand shape in this core and fault
/// as undefined.
pub open spec fn spec_exec_word(s: VmState, w: u64) -> VmState {
    match instr_of_ord(word_ord(w)) {
        Option::None => spec_fault(s, Fault::UndefinedOpcode),
        Option::Some(op) => match op {
            Instruction::MOVR => {
                let a = field_reg_a(w);
                let b = field_low54(w);
                if a < NUM_GEN_REGS && b < NUM_GEN_REGS {
                    step_regs(s, a as int, s.registers[b as int])
                } else {
                    spec_fault(s, Fault::OutOfBounds)
                }
            },
            Instruction::MOVI => {
                let a = field_reg_a(w);
                if a < NUM_GEN_REGS {
                    step_regs(s, a as int, field_low54(w))
                } else {
                    spec_fault(s, Fault::OutOfBounds)
                }
            },
            Instruction::LODR => {
                let a = field_reg_a(w);
                let b = field_low54(w);
                if a < NUM_GEN_REGS && b < NUM_GEN_REGS {
                    spec_load(s, a as int, s.registers[b as int])
                } else {
                    spec_fault(s, Fault::OutOfBounds)
                }
            },
            Instruction::LODI => {
                let a = field_reg_a(w);
                if a < NUM_GEN_REGS {
                    spec_load(s, a as int, field_low54(w))
                } else {
                    spec_fault(s, Fault::OutOfBounds)
                }
            },
            Instruction::STRR => {
                let a = field_reg_a(w);
                let b = field_low54(w);
                if a < NUM_GEN_REGS && b < NUM_GEN_REGS {
                    spec_store(s, a as int, s.registers[b as int])
                } else {
                    spec_fault(s, Fault::OutOfBounds)
                }
            },
            Instruction::STRI => {
                let a = field_reg_a(w);
                if a < NUM_GEN_REGS {
                    spec_store(s, a as int, field_low54(w))
                } else {
                    spec_fault(s, Fault::OutOfBounds)
                }
            },
            Instruction::ADDR => {
                let a = field_r3_a(w);
                let b = field_r3_b(w);
                let c = field_r3_c(w);
                if a < NUM_GEN_REGS && b < NUM_GEN_REGS && c < NUM_GEN_REGS {
                    step_regs(
                        s,
                        a as int,
                        u64_specs::wrapping_add(s.registers[b as int], s.registers[c as int]),
                    )
                } else {
                    spec_fault(s, Fault::OutOfBounds)
                }
            },
            Instruction::ADDI => {
                let a = field_reg_a(w);
                if a < NUM_GEN_REGS {
                    step_regs(
                        s,
                        a as int,
                        u64_specs::wrapping_add(s.registers[a as int], field_low54(w)),
                    )
                } else {
                    spec_fault(s, Fault::OutOfBounds)
                }
            },
            Instruction::SUB => {
                let a = field_r3_a(w);
                let b = field_r3_b(w);
                let c = field_r3_c(w);
                if a < NUM_GEN_REGS && b < NUM_GEN_REGS && c < NUM_GEN_REGS {
                    step_regs(
                        s,
                        a as int,
                        u64_specs::wrapping_sub(s.registers[b as int], s.registers[c as int]),
                    )
                } else {
                    spec_fault(s, Fault::OutOfBounds)
                }
            },
            Instruction::MUL => {
                let a = field_r3_a(w);
                let b = field_r3_b(w);
                let c = field_r3_c(w);
                if a < NUM_GEN_REGS && b < NUM_GEN_REGS && c < NUM_GEN_REGS {
                    step_regs(
                        s,
                        a as int,
                        u64_specs::wrapping_mul(s.registers[b as int], s.registers[c as int]),
                    )
                } else {
                    spec_fault(s, Fault::OutOfBounds)
                }
            },
            Instruction::DIV => {
                let a = field_r3_a(w);
                let b = field_r3_b(w);
                let c = field_r3_c(w);
                if a < NUM_GEN_REGS && b < NUM_GEN_REGS && c < NUM_GEN_REGS {
                    if s.registers[c as int] == 0 {
                        spec_fault(s, Fault::DivideByZero)
                    } else {
                        step_regs(s, a as int, s.registers[b as int] / s.registers[c as int])
                    }
                } else {
                    spec_fault(s, Fault::OutOfBounds)
                }
            },
            Instruction::JMPI => step_jump(s, field_low58(w)),
            Instruction::JMPR => {
                let r = field_low58(w);
                if r < NUM_GEN_REGS {
                    step_jump(s, s.registers[r as int])
                } else {
                    spec_fault(s, Fault::OutOfBounds)
                }
            },
            Instruction::EQ => {
                let a = field_reg_a(w);
                let b = field_low54(w);
                if a < NUM_GEN_REGS && b < NUM_GEN_REGS {
                    step_flags(
                        s,
                        if s.registers[a as int] == s.registers[b as int] {
                            1u32
                        } else {
                            0u32
                        },
                    )
                } else {
                    spec_fault(s, Fault::OutOfBounds)
                }
            },
            Instruction::AND => {
                let a = field_reg_a(w);
                let b = field_low54(w);
                if a < NUM_GEN_REGS && b < NUM_GEN_REGS {
                    step_flags(
                        s,
                        if s.registers[a as int] != 0 && s.registers[b as int] != 0 {
                            1u32
                        } else {
                            0u32
                        },
                    )
                } else {
                    spec_fault(s, Fault::OutOfBounds)
                }
            },
            Instruction::LT => {
                let a = field_reg_a(w);
                let b = field_low54(w);
                if a < NUM_GEN_REGS && b < NUM_GEN_REGS {
                    step_flags(
                        s,
                        if s.registers[a as int] < s.registers[b as int] {
                            1u32
                        } else {
                            0u32
                        },
                    )
                } else {
                    spec_fault(s, Fault::OutOfBounds)
                }
            },
            Instruction::NOT => {
                let r = field_low58(w);
                if r < NUM_GEN_REGS {
                    step_flags(
                        s,
                        if s.registers[r as int] == 0 {
                            1u32
                        } else {
                            0u32
                        },
                    )
                } else {
                    spec_fault(s, Fault::OutOfBounds)
                }
            },
            _ => spec_fault(s, Fault::UndefinedOpcode),
        },
    }
}

/// Load eight little-endian memory bytes at `addr` into register `a`.
pub open spec fn spec_load(s: VmState, a: int, addr: u64) -> VmState {
    if addr + 8 <= s.mem.len() {
        step_regs(s, a, spec_u64_from_le_bytes(s.mem.subrange(addr as int, addr + 8)))
    } else {
        spec_fault(s, Fault::OutOfBounds)
    }
}

/// Store register `a` as eight little-endian bytes at `addr`.
pub open spec fn spec_store(s: VmState, a: int, addr: u64) -> VmState {
    if addr + 8 < s.mem.len() {
        step_mem(s, addr as int, spec_u64_to_le_bytes(s.registers[a]))
    } else {
        spec_fault(s, Fault::OutOfBounds)
    }
}

/// One engine step. A ready engine whose pointer has reached the bytecode
/// length halts; otherwise it executes the fetched word. A halted, faulted
/// or idle engine does not change.
pub open spec fn spec_tick(s: VmState) -> VmState {
    if s.status is Ready {
        if s.ip >= s.bytecode.len() {
            VmState { status: Status::Halted, ..s }
        } else {
            spec_exec_word(s, s.bytecode[s.ip])
        }
    } else {
        s
    }
}

/// The turtl virtual machine.
pub struct TurtlVM {
    /// General purpose VM registers
    register: Vec<u64>,
    /// Instruction pointer
    ip: u64,
    /// flags register
    flags: u32,
    /// Currently loaded program
    program: Program,
    /// Flat memory owned by this engine
    memory: Memory,
    /// Execution state
    status: Status,
    /// The next runtime identifier to hand to a loaded program
    next_id: u64,
}

impl View for TurtlVM {
    type V = VmState;

    closed spec fn view(&self) -> VmState {
        VmState {
            registers: self.register@,
            ip: self.ip as int,
            flags: self.flags,
            bytecode: self.program.bytecode@,
            mem: self.memory@,
            status: self.status,
        }
    }
}

impl TurtlVM {
    /// The engine's structural invariant: a full register file and a flat
    /// memory of the construction-time size.
    pub open spec fn wf(&self) -> bool {
        &&& self@.registers.len() == NUM_GEN_REGS
        &&& self@.mem.len() == MEM_BYTES
    }

    /// A fresh engine: zeroed registers, pointer at zero, no program.
    pub fn new() -> (vm: TurtlVM)
        ensures
            vm.wf(),
            vm@.status is Idle,
            vm@.ip == 0,
            vm@.bytecode == Seq::<u64>::empty(),
            forall|i: int| 0 <= i < NUM_GEN_REGS ==> vm@.registers[i] == 0u64,
            forall|i: int| 0 <= i < MEM_BYTES ==> vm@.mem[i] == 0u8,
    {
        let mut register: Vec<u64> = Vec::new();
        let mut i: usize = 0;
        while i < NUM_GEN_REGS
            invariant
                i <= NUM_GEN_REGS,
                register@.len() == i,
                forall|j: int| 0 <= j < i ==> register@[j] == 0u64,
            decreases NUM_GEN_REGS - i,
        {
            register.push(0u64);
            i = i + 1;
        }
        TurtlVM {
            register,
            ip: 0,
            flags: 0b1111_0000_1010_1111_1010_1111_0000_1111,
            program: Program::new(),
            memory: Memory::new(MEM_BYTES),
            status: Status::Idle,
            next_id: 1,
        }
    }

    /// Load a program: the engine takes ownership of it, assigns it a fresh
    /// runtime identifier, resets the instruction pointer, zeroes the
    /// registers and the flags word, and becomes ready. The previous
    /// program, if any, is discarded; memory contents persist.
    pub fn load_program(&mut self, prog: Program) -> (id: u64)
        requires
            old(self).wf(),
        ensures
            final(self).wf(),
            final(self)@ == (VmState {
                registers: Seq::new(NUM_GEN_REGS as nat, |i: int| 0u64),
                ip: 0,
                flags: 0,
                bytecode: prog.bytecode@,
                mem: old(self)@.mem,
                status: Status::Ready,
            }),
            id == old(self).spec_next_id(),
            final(self).spec_loaded_id() == id,
    {
        let id = self.next_id;
        let mut loaded = prog;
        loaded.runtime_id = id;
        self.program = loaded;
        self.ip = 0;
        self.flags = 0;
        self.status = Status::Ready;
        if self.next_id < u64::MAX {
            self.next_id = self.next_id + 1;
        }
        let mut i: usize = 0;
        while i < NUM_GEN_REGS
            invariant
                i <= NUM_GEN_REGS,
                self.register@.len() == NUM_GEN_REGS,
                forall|j: int| 0 <= j < i ==> self.register@[j] == 0u64,
                self.ip == 0,
                self.flags == 0,
                self.status is Ready,
                self.program.bytecode@ == prog.bytecode@,
                self.program.runtime_id == id,
                self.memory@ == old(self)@.mem,
            decreases NUM_GEN_REGS - i,
        {
            self.register.set(i, 0u64);
            i = i + 1;
        }
        proof {
            assert(self.register@ =~= Seq::new(NUM_GEN_REGS as nat, |j: int| 0u64));
            assert(self@ =~= (VmState {
                registers: Seq::new(NUM_GEN_REGS as nat, |j: int| 0u64),
                ip: 0,
                flags: 0,
                bytecode: prog.bytecode@,
                mem: old(self)@.mem,
                status: Status::Ready,
            }));
        }
        id
    }

    /// The identifier the next loaded program will receive.
    pub closed spec fn spec_next_id(&self) -> u64 {
        self.next_id
    }

    /// The runtime identifier of the currently loaded program.
    pub closed spec fn spec_loaded_id(&self) -> u64 {
        self.program.runtime_id
    }

    /// The identifier the next loaded program will receive.
    pub fn next_id(&self) -> (id: u64)
        ensures
            id == self.spec_next_id(),
    {
        self.next_id
    }

    /// The runtime identifier of the currently loaded program.
    pub fn loaded_id(&self) -> (id: u64)
        ensures
            id == self.spec_loaded_id(),
    {
        self.program.runtime_id
    }

    /// The engine's execution state.
    pub fn status(&self) -> (s: Status)
        ensures
            s == self@.status,
    {
        self.status
    }

    /// The instruction pointer.
    pub fn ip(&self) -> (ip: u64)
        ensures
            ip as int == self@.ip,
    {
        self.ip
    }

    /// The flags word.
    pub fn flags(&self) -> (f: u32)
        ensures
            f == self@.flags,
    {
        self.flags
    }

    /// Read one general-purpose register.
    pub fn reg(&self, i: usize) -> (v: u64)
        requires
            self.wf(),
            i < NUM_GEN_REGS,
        ensures
            v == self@.registers[i as int],
    {
        self.register[i]
    }

    /// Read a range of flat memory.
    pub fn read_mem(&self, start: usize, end: usize) -> (r: Result<
        Vec<u8>,
        crate::memory::Error,
    >)
        ensures
            start <= end <= self@.mem.len() ==> {
                &&& r matches Ok(v) && v@ == self@.mem.subrange(start as int, end as int)
            },
            !(start <= end <= self@.mem.len()) ==> r matches Err(crate::memory::Error::OutOfBounds),
    {
        self.memory.read(start, end)
    }

    /// Run the VM forward by one cycle.
    pub fn tick(&mut self)
        requires
            old(self).wf(),
        ensures
            final(self).wf(),
            final(self)@ == spec_tick(old(self)@),
    {
        match self.status {
            Status::Ready => {},
            _ => {
                return ;
            },
        }
        let len = self.program.bytecode.len();
        if self.ip >= len as u64 {
            self.status = Status::Halted;
            return ;
        }
        let w = self.program.bytecode[self.ip as usize];
        let op = match instr_decode(w >> 58u64) {
            Option::Some(op) => op,
            Option::None => {
                self.status = Status::Faulted(Fault::UndefinedOpcode);
                return ;
            },
        };
        match op {
            Instruction::MOVR => {
                let a = (w >> 54u64) & 0xF;
                let b = w & IMM54_MAX;
                if a < NUM_GEN_REGS as u64 && b < NUM_GEN_REGS as u64 {
                    let v = self.register[b as usize];
                    self.register.set(a as usize, v);
                    self.ip = self.ip + 1;
                } else {
                    self.status = Status::Faulted(Fault::OutOfBounds);
                }
            },
            Instruction::MOVI => {
                let a = (w >> 54u64) & 0xF;
                if a < NUM_GEN_REGS as u64 {
                    self.register.set(a as usize, w & IMM54_MAX);
                    self.ip = self.ip + 1;
                } else {
                    self.status = Status::Faulted(Fault::OutOfBounds);
                }
            },
            Instruction::LODR => {
                let a = (w >> 54u64) & 0xF;
                let b = w & IMM54_MAX;
                if a < NUM_GEN_REGS as u64 && b < NUM_GEN_REGS as u64 {
                    let addr = self.register[b as usize];
                    self.do_load(a as usize, addr);
                } else {
                    self.status = Status::Faulted(Fault::OutOfBounds);
                }
            },
            Instruction::LODI => {
                let a = (w >> 54u64) & 0xF;
                if a < NUM_GEN_REGS as u64 {
                    self.do_load(a as usize, w & IMM54_MAX);
                } else {
                    self.status = Status::Faulted(Fault::OutOfBounds);
                }
            },
            Instruction::STRR => {
                let a = (w >> 54u64) & 0xF;
                let b = w & IMM54_MAX;
                if a < NUM_GEN_REGS as u64 && b < NUM_GEN_REGS as u64 {
                    let addr = self.register[b as usize];
                    self.do_store(a as usize, addr);
                } else {
                    self.status = Status::Faulted(Fault::OutOfBounds);
                }
            },
            Instruction::STRI => {
                let a = (w >> 54u64) & 0xF;
                if a < NUM_GEN_REGS as u64 {
                    self.do_store(a as usize, w & IMM54_MAX);
                } else {
                    self.status = Status::Faulted(Fault::OutOfBounds);
                }
            },
            Instruction::ADDR => {
                let a = (w >> 39u64) & 0x7FFFF;
                let b = (w >> 20u64) & 0x7FFFF;
                let c = w & 0xFFFFF;
                if a < NUM_GEN_REGS as u64 && b < NUM_GEN_REGS as u64 && c < NUM_GEN_REGS as u64 {
                    let v = self.register[b as usize].wrapping_add(self.register[c as usize]);
                    self.register.set(a as usize, v);
                    self.ip = self.ip + 1;
                } else {
                    self.status = Status::Faulted(Fault::OutOfBounds);
                }
            },
            Instruction::ADDI => {
                let a = (w >> 54u64) & 0xF;
                if a < NUM_GEN_REGS as u64 {
                    let v = self.register[a as usize].wrapping_add(w & IMM54_MAX);
                    self.register.set(a as usize, v);
                    self.ip = self.ip + 1;
                } else {
                    self.status = Status::Faulted(Fault::OutOfBounds);
                }
            },
            Instruction::SUB => {
                let a = (w >> 39u64) & 0x7FFFF;
                let b = (w >> 20u64) & 0x7FFFF;
                let c = w & 0xFFFFF;
                if a < NUM_GEN_REGS as u64 && b < NUM_GEN_REGS as u64 && c < NUM_GEN_REGS as u64 {
                    let v = self.register[b as usize].wrapping_sub(self.register[c as usize]);
                    self.register.set(a as usize, v);
                    self.ip = self.ip + 1;
                } else {
                    self.status = Status::Faulted(Fault::OutOfBounds);
                }
            },
            Instruction::MUL => {
                let a = (w >> 39u64) & 0x7FFFF;
                let b = (w >> 20u64) & 0x7FFFF;
                let c = w & 0xFFFFF;
                if a < NUM_GEN_REGS as u64 && b < NUM_GEN_REGS as u64 && c < NUM_GEN_REGS as u64 {
                    let v = self.register[b as usize].wrapping_mul(self.register[c as usize]);
                    self.register.set(a as usize, v);
                    self.ip = self.ip + 1;
                } else {
                    self.status = Status::Faulted(Fault::OutOfBounds);
                }
            },
            Instruction::DIV => {
                let a = (w >> 39u64) & 0x7FFFF;
                let b = (w >> 20u64) & 0x7FFFF;
                let c = w & 0xFFFFF;
                if a < NUM_GEN_REGS as u64 && b < NUM_GEN_REGS as u64 && c < NUM_GEN_REGS as u64 {
                    let divisor = self.register[c as usize];
                    if divisor == 0 {
                        self.status = Status::Faulted(Fault::DivideByZero);
                    } else {
                        let v = self.register[b as usize] / divisor;
                        self.register.set(a as usize, v);
                        self.ip = self.ip + 1;
                    }
                } else {
                    self.status = Status::Faulted(Fault::OutOfBounds);
                }
            },
            Instruction::JMPI => {
                self.ip = w & IMM58_MAX;
            },
            Instruction::JMPR => {
                let r = w & IMM58_MAX;
                if r < NUM_GEN_REGS as u64 {
                    self.ip = self.register[r as usize];
                } else {
                    self.status = Status::Faulted(Fault::OutOfBounds);
                }
            },
            Instruction::EQ => {
                let a = (w >> 54u64) & 0xF;
                let b = w & IMM54_MAX;
                if a < NUM_GEN_REGS as u64 && b < NUM_GEN_REGS as u64 {
                    self.flags = if self.register[a as usize] == self.register[b as usize] {
                        1
                    } else {
                        0
                    };
                    self.ip = self.ip + 1;
                } else {
                    self.status = Status::Faulted(Fault::OutOfBounds);
                }
            },
            Instruction::AND => {
                let a = (w >> 54u64) & 0xF;
                let b = w & IMM54_MAX;
                if a < NUM_GEN_REGS as u64 && b < NUM_GEN_REGS as u64 {
                    self.flags = if self.register[a as usize] != 0 && self.register[b as usize]
                        != 0 {
                        1
                    } else {
                        0
                    };
                    self.ip = self.ip + 1;
                } else {
                    self.status = Status::Faulted(Fault::OutOfBounds);
                }
            },
            Instruction::LT => {
                let a = (w >> 54u64) & 0xF;
                let b = w & IMM54_MAX;
                if a < NUM_GEN_REGS as u64 && b < NUM_GEN_REGS as u64 {
                    self.flags = if self.register[a as usize] < self.register[b as usize] {
                        1
                    } else {
                        0
                    };
                    self.ip = self.ip + 1;
                } else {
                    self.status = Status::Faulted(Fault::OutOfBounds);
                }
            },
            Instruction::NOT => {
                let r = w & IMM58_MAX;
                if r < NUM_GEN_REGS as u64 {
                    self.flags = if self.register[r as usize] == 0 {
                        1
                    } else {
                        0
                    };
                    self.ip = self.ip + 1;
                } else {
                    self.status = Status::Faulted(Fault::OutOfBounds);
                }
            },
            _ => {
                // the storage-daemon opcodes have no operand shape in this
                // core and decode to no effect
                self.status = Status::Faulted(Fault::UndefinedOpcode);
            },
        }
    }

    /// Load eight little-endian bytes at `addr` into register `a`.
    fn do_load(&mut self, a: usize, addr: u64)
        requires
            old(self).wf(),
            a < NUM_GEN_REGS,
            old(self)@.status is Ready,
            old(self)@.ip < old(self)@.bytecode.len(),
            old(self)@.ip < u64::MAX,
        ensures
            final(self).wf(),
            final(self)@ == spec_load(old(self)@, a as int, addr),
    {
        let cap = self.memory.capacity();
        if addr <= u64::MAX - 8 && addr + 8 <= cap as u64 {
            let bytes = match self.memory.read(addr as usize, (addr + 8) as usize) {
                Ok(v) => v,
                Err(_) => {
                    proof {
                        assert(false);
                    }
                    return ;
                },
            };
            let v = u64_from_le_bytes(bytes.as_slice());
            self.register.set(a, v);
            self.ip = self.ip + 1;
        } else {
            self.status = Status::Faulted(Fault::OutOfBounds);
        }
    }

    /// Store register `a` as eight little-endian bytes at `addr`.
    fn do_store(&mut self, a: usize, addr: u64)
        requires
            old(self).wf(),
            a < NUM_GEN_REGS,
            old(self)@.status is Ready,
            old(self)@.ip < old(self)@.bytecode.len(),
            old(self)@.ip < u64::MAX,
        ensures
            final(self).wf(),
            final(self)@ == spec_store(old(self)@, a as int, addr),
    {
        let cap = self.memory.capacity();
        if addr <= u64::MAX - 8 && addr + 8 < cap as u64 {
            let bytes = u64_to_le_bytes(self.register[a]);
            match self.memory.write(bytes.as_slice(), addr as usize) {
                Ok(_) => {},
                Err(_) => {
                    proof {
                        assert(false);
                    }
                    return ;
                },
            }
            self.ip = self.ip + 1;
        } else {
            self.status = Status::Faulted(Fault::OutOfBounds);
        }
    }
}

/// Packing an opcode ordinal and two register-shape operand fields into a
/// word and decoding the fields again gives back exactly what was packed,
/// for every value that fits its field.
pub proof fn lemma_register_register_round_trip(ord: u64, r1: u64, r2: u64)
    requires
        ord <= 63,
        r1 < 16,
        r2 <= IMM54_MAX,
    ensures
        word_ord((ord << 58) | (r1 << 54) | r2) == ord,
        field_reg_a((ord << 58) | (r1 << 54) | r2) == r1,
        field_low54((ord << 58) | (r1 << 54) | r2) == r2,
{
    assert((((ord << 58) | (r1 << 54) | r2) >> 58) == ord && ((((ord << 58) | (r1 << 54) | r2)
        >> 54) & 0xF) == r1 && (((ord << 58) | (r1 << 54) | r2) & 0x3FFFFFFFFFFFFF) == r2)
        by (bit_vector)
        requires
            ord <= 63,
            r1 < 16,
            r2 <= 0x3FFFFFFFFFFFFF,
    ;
}

/// The round trip over the register+register shape: a word the compiler
/// encodes for any two-register instruction decodes back to that opcode's
/// ordinal in the top six bits and to the exact register indices the
/// source text named.
pub proof fn lemma_encoded_word_round_trip(
    op: Instruction,
    t1: Seq<u8>,
    t2: Seq<u8>,
    w: u64,
)
    requires
        spec_enc_register_register(instr_ord_shifted(op), t1, t2) == Ok::<
            u64,
            crate::compile::Error,
        >(w),
    ensures
        word_ord(w) == instr_ord(op),
        spec_parse_register(t1) matches Ok(r1) && field_reg_a(w) == r1,
        spec_parse_register(t2) matches Ok(r2) && field_low54(w) == r2,
{
    lemma_instr_ord_inverse(op);
    let r1 = spec_parse_register(t1)->Ok_0;
    let r2 = spec_parse_register(t2)->Ok_0;
    lemma_register_register_round_trip(instr_ord(op), r1, r2);
}

/// A ready engine whose instruction pointer has reached the bytecode
/// length halts, and nothing else about it changes.
pub proof fn lemma_halts_at_end(s: VmState)
    requires
        s.status is Ready,
        s.ip >= s.bytecode.len(),
    ensures
        spec_tick(s) == (VmState { status: Status::Halted, ..s }),
{
}

/// A tick of a halted, faulted or idle engine is a no-op: the state does
/// not change, and in particular one more tick after the halt never
/// faults.
pub proof fn lemma_tick_after_halt(s: VmState)
    requires
        !(s.status is Ready),
    ensures
        spec_tick(s) == s,
{
}

/// A store addressing an offset past the flat memory's capacity leaves
/// every memory byte as it was and faults the engine with the
/// out-of-bounds report, rather than growing or wrapping the buffer.
pub proof fn lemma_store_out_of_bounds(s: VmState, a: int, addr: u64)
    requires
        addr + 8 >= s.mem.len(),
    ensures
        spec_store(s, a, addr) == spec_fault(s, Fault::OutOfBounds),
        spec_store(s, a, addr).mem == s.mem,
{
}

/// An add whose operand sum exceeds the native register width wraps
/// deterministically: the destination register holds the sum reduced
/// modulo 2^64 and the engine keeps running rather than faulting.
pub proof fn lemma_add_wraps(s: VmState, w: u64)
    requires
        s.registers.len() == NUM_GEN_REGS,
        instr_of_ord(word_ord(w)) == Some(Instruction::ADDR),
        field_r3_a(w) < NUM_GEN_REGS,
        field_r3_b(w) < NUM_GEN_REGS,
        field_r3_c(w) < NUM_GEN_REGS,
    ensures
        spec_exec_word(s, w).status == s.status,
        spec_exec_word(s, w).ip == s.ip + 1,
        spec_exec_word(s, w).registers[field_r3_a(w) as int] == (s.registers[field_r3_b(
            w,
        ) as int] + s.registers[field_r3_c(w) as int]) % 0x1_0000_0000_0000_0000,
{
    let x = s.registers[field_r3_b(w) as int];
    let y = s.registers[field_r3_c(w) as int];
    if x + y <= u64::MAX {
        vstd::arithmetic::div_mod::lemma_small_mod((x + y) as nat, 0x1_0000_0000_0000_0000nat);
    } else {
        vstd::arithmetic::div_mod::lemma_mod_multiples_vanish(
            1,
            x + y - 0x1_0000_0000_0000_0000,
            0x1_0000_0000_0000_0000,
        );
        vstd::arithmetic::div_mod::lemma_small_mod(
            (x + y - 0x1_0000_0000_0000_0000) as nat,
            0x1_0000_0000_0000_0000nat,
        );
    }
}

} // verus!
