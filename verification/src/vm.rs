use vstd::prelude::*;

use crate::error::Error;
use crate::instr::{Instruction, OpCode};
use crate::mem::{le32_at, u32_le_bytes, write_seq, zero_mem, Memory};

verus! {

/// Where a guest I/O request is directed: one of the three standard streams,
/// or the open-file-table slot of a file the guest opened (slot = handle - 3).
#[derive(Copy, Clone, Debug, PartialEq, Eq, Structural)]
pub enum IoTarget {
    Stdin,
    Stdout,
    Stderr,
    Slot(usize),
}

/// What one executed instruction asks of the host.
///
/// The VM performs no host I/O itself: when the guest makes a system call
/// that needs the host, the step returns the request, the host performs it,
/// and hands the outcome back through one of the `finish_*` methods before
/// resuming the run.
#[derive(Debug)]
pub enum StepOutcome {
    /// Execution continues with the next instruction.
    Continue,
    /// The guest called `sys_exit`: the run is over with this status.
    Exit(i32),
    /// A breakpoint was hit while breakpoints are enabled: the host may
    /// inspect the registers, then resume the run.
    Break,
    /// `sys_read`: read up to `len` bytes from `target` and hand what was
    /// read to `finish_read` (or call `finish_fail` on a host error).
    ReadHost { target: IoTarget, ptr: u32, len: u32 },
    /// `sys_write`: write `data` to `target` and hand the count written to
    /// `finish_write` (or call `finish_fail`).
    WriteHost { target: IoTarget, data: Vec<u8> },
    /// `sys_open` or `sys_create`: open the file named by the raw `path`
    /// bytes with `flags` (bit 0 read, 1 write, 2 create, 3 must-not-exist,
    /// 4 truncate, 5 append), then call `finish_open` (or `finish_fail`).
    OpenHost { path: Vec<u8>, flags: u32 },
    /// `sys_close`: sync and close the file of `slot` (already removed from
    /// the table), then call `finish_close`.
    CloseHost { slot: usize },
}

/// Ghost mirror of [`IoTarget`].
pub enum SpecTarget {
    Stdin,
    Stdout,
    Stderr,
    Slot(int),
}

/// Ghost mirror of [`StepOutcome`], over mathematical values.
pub enum SpecOut {
    Continue,
    Exit(i32),
    Break,
    Read { target: SpecTarget, ptr: u32, len: u32 },
    Write { target: SpecTarget, data: Seq<u8> },
    Open { path: Seq<u8>, flags: u32 },
    Close { slot: int },
}

impl View for IoTarget {
    type V = SpecTarget;

    open spec fn view(&self) -> SpecTarget {
        match *self {
            IoTarget::Stdin => SpecTarget::Stdin,
            IoTarget::Stdout => SpecTarget::Stdout,
            IoTarget::Stderr => SpecTarget::Stderr,
            IoTarget::Slot(s) => SpecTarget::Slot(s as int),
        }
    }
}

impl View for StepOutcome {
    type V = SpecOut;

    open spec fn view(&self) -> SpecOut {
        match *self {
            StepOutcome::Continue => SpecOut::Continue,
            StepOutcome::Exit(status) => SpecOut::Exit(status),
            StepOutcome::Break => SpecOut::Break,
            StepOutcome::ReadHost { target, ptr, len } => SpecOut::Read {
                target: target@,
                ptr,
                len,
            },
            StepOutcome::WriteHost { ref target, ref data } => SpecOut::Write {
                target: target@,
                data: data@,
            },
            StepOutcome::OpenHost { ref path, flags } => SpecOut::Open { path: path@, flags },
            StepOutcome::CloseHost { slot } => SpecOut::Close { slot: slot as int },
        }
    }
}

/// The mathematical state of a machine: the 32 registers, the full 2^32-byte
/// address space, the open-file-table occupancy, and the breakpoint flag.
pub struct VmSnap {
    pub regs: Seq<u32>,
    pub mem: Seq<u8>,
    pub handles: Seq<bool>,
    pub bp: bool,
}

/// Wrapping 32-bit addition.
pub open spec fn add32(a: u32, b: u32) -> u32 {
    if a + b > u32::MAX {
        (a + b - 0x1_0000_0000) as u32
    } else {
        (a + b) as u32
    }
}

/// Wrapping 32-bit subtraction.
pub open spec fn sub32(a: u32, b: u32) -> u32 {
    if a - b < 0 {
        (a - b + 0x1_0000_0000) as u32
    } else {
        (a - b) as u32
    }
}

/// Logical left shift; the shift amount is masked to 5 bits.
pub open spec fn shl32(a: u32, sh: u32) -> u32 {
    a << (sh & 0x1f)
}

/// Logical right shift; the shift amount is masked to 5 bits.
pub open spec fn shr32(a: u32, sh: u32) -> u32 {
    a >> (sh & 0x1f)
}

/// Arithmetic right shift with sign extension; the shift amount is masked to
/// 5 bits.
pub open spec fn sra32(a: u32, sh: u32) -> u32 {
    let k = sh & 0x1f;
    if a & 0x80000000 == 0 || k == 0 {
        a >> k
    } else {
        (a >> k) | (0xffffffffu32 << ((32 - k) as u32))
    }
}

/// The signed reading of a 32-bit register value (two's complement).
pub open spec fn to_i32(a: u32) -> i32 {
    if a < 0x80000000 {
        a as i32
    } else {
        (a - 0x1_0000_0000) as i32
    }
}

/// The value computed by a register-register operation.
pub open spec fn alu_r(op: OpCode, a: u32, b: u32) -> u32 {
    match op {
        OpCode::ADD | OpCode::C_ADD => add32(a, b),
        OpCode::SUB | OpCode::C_SUB => sub32(a, b),
        OpCode::AND | OpCode::C_AND => a & b,
        OpCode::OR | OpCode::C_OR => a | b,
        OpCode::XOR | OpCode::C_XOR => a ^ b,
        OpCode::SLL | OpCode::C_SLL => shl32(a, b),
        OpCode::SRL | OpCode::C_SRL => shr32(a, b),
        OpCode::SRA | OpCode::C_SRA => sra32(a, b),
        OpCode::MV => b,
        _ => 0,
    }
}

/// The value computed by a register-immediate operation.
pub open spec fn alu_i(op: OpCode, a: u32, imm: u32) -> u32 {
    match op {
        OpCode::ADDI | OpCode::C_ADDI => add32(a, imm),
        OpCode::ANDI | OpCode::C_ANDI => a & imm,
        OpCode::ORI | OpCode::C_ORI => a | imm,
        OpCode::XORI | OpCode::C_XORI => a ^ imm,
        OpCode::SLLI | OpCode::C_SLLI => shl32(a, imm),
        OpCode::SRLI | OpCode::C_SRLI => shr32(a, imm),
        OpCode::SRAI | OpCode::C_SRAI => sra32(a, imm),
        OpCode::LI | OpCode::C_LI => imm,
        _ => 0,
    }
}

/// Whether a three-operand conditional branch is taken.
pub open spec fn branch_taken(op: OpCode, a: u32, b: u32) -> bool {
    match op {
        OpCode::BEQ => a == b,
        OpCode::BNE => a != b,
        OpCode::BLT => to_i32(a) < to_i32(b),
        OpCode::BGE => to_i32(a) >= to_i32(b),
        OpCode::BLT_U => a < b,
        OpCode::BGE_U => a >= b,
        _ => false,
    }
}

/// The state with register 3 (the return-value register) set to `v`.
pub open spec fn set_r3(s: VmSnap, v: u32) -> VmSnap {
    VmSnap { regs: s.regs.update(3, v), ..s }
}

/// The bytes of guest memory from `ptr`, `len` long, wrapping at 2^32.
pub open spec fn mem_range(m: Seq<u8>, ptr: u32, len: u32) -> Seq<u8> {
    Seq::new(len as nat, |j: int| m[(ptr + j) % 0x1_0000_0000])
}

/// The system-call dispatch, after the program counter was advanced: what
/// the call does to the state and what it asks of the host. `s` already has
/// the advanced program counter. Unknown call numbers are the error
/// `InvalidSysCall`.
pub open spec fn spec_syscall(s: VmSnap, call: u16) -> Result<(VmSnap, SpecOut), Error> {
    if call == 0 {
        Ok((s, SpecOut::Exit(to_i32(s.regs[4]))))
    } else if call == 1 {
        let h = s.regs[4];
        if h == 0 {
            Ok((s, SpecOut::Read { target: SpecTarget::Stdin, ptr: s.regs[5], len: s.regs[6] }))
        } else if h == 1 || h == 2 {
            Ok((set_r3(s, 0xffffffffu32), SpecOut::Continue))
        } else if h - 3 < s.handles.len() && s.handles[h - 3] {
            Ok(
                (
                    s,
                    SpecOut::Read {
                        target: SpecTarget::Slot(h - 3),
                        ptr: s.regs[5],
                        len: s.regs[6],
                    },
                ),
            )
        } else {
            Ok((set_r3(s, 0xffffffffu32), SpecOut::Continue))
        }
    } else if call == 2 {
        let h = s.regs[4];
        let data = mem_range(s.mem, s.regs[5], s.regs[6]);
        if h == 0 {
            Ok((set_r3(s, 0xffffffffu32), SpecOut::Continue))
        } else if h == 1 {
            Ok((s, SpecOut::Write { target: SpecTarget::Stdout, data }))
        } else if h == 2 {
            Ok((s, SpecOut::Write { target: SpecTarget::Stderr, data }))
        } else if h - 3 < s.handles.len() && s.handles[h - 3] {
            Ok((s, SpecOut::Write { target: SpecTarget::Slot(h - 3), data }))
        } else {
            Ok((set_r3(s, 0xffffffffu32), SpecOut::Continue))
        }
    } else if call == 3 {
        Ok((s, SpecOut::Open { path: mem_range(s.mem, s.regs[4], s.regs[5]), flags: s.regs[6] }))
    } else if call == 4 {
        let h = s.regs[4];
        if h >= 3 && h - 3 < s.handles.len() && s.handles[h - 3] {
            Ok(
                (
                    VmSnap { handles: s.handles.update(h - 3, false), ..s },
                    SpecOut::Close { slot: h - 3 },
                ),
            )
        } else {
            Ok((set_r3(s, 0xffffffffu32), SpecOut::Continue))
        }
    } else if call == 5 {
        Ok((s, SpecOut::Open { path: mem_range(s.mem, s.regs[4], s.regs[5]), flags: 22 }))
    } else {
        Err(Error::InvalidSysCall(call))
    }
}

/// The semantics of one decoded instruction: first the program counter
/// advances by the instruction's size, then the operation is performed on
/// the advanced state. This is the machine's semantics table.
pub open spec fn spec_exec(s: VmSnap, i: Instruction) -> Result<(VmSnap, SpecOut), Error> {
    let regs1 = s.regs.update(0, add32(s.regs[0], i.spec_size()));
    let s1 = VmSnap { regs: regs1, ..s };
    match i {
        Instruction::Register { op, dst, src1, src2 } => {
            let a = regs1[src1 as int];
            let b = regs1[src2 as int];
            Ok(
                (
                    VmSnap { regs: regs1.update(dst as int, alu_r(op, a, b)), ..s },
                    SpecOut::Continue,
                ),
            )
        },
        Instruction::Immediate { op, dst, src1, imm } => {
            let a = regs1[src1 as int];
            match op {
                OpCode::BEZ | OpCode::C_BEZ => Ok(
                    (
                        if a == 0 {
                            VmSnap { regs: regs1.update(0, add32(regs1[0], imm)), ..s }
                        } else {
                            s1
                        },
                        SpecOut::Continue,
                    ),
                ),
                OpCode::BNZ | OpCode::C_BNZ => Ok(
                    (
                        if a != 0 {
                            VmSnap { regs: regs1.update(0, add32(regs1[0], imm)), ..s }
                        } else {
                            s1
                        },
                        SpecOut::Continue,
                    ),
                ),
                OpCode::LOAD | OpCode::C_LOAD => Ok(
                    (
                        VmSnap {
                            regs: regs1.update(
                                dst as int,
                                le32_at(s.mem, add32(a, imm) as int),
                            ),
                            ..s
                        },
                        SpecOut::Continue,
                    ),
                ),
                OpCode::CALL | OpCode::C_CALL => spec_syscall(s1, (imm & 0xffff) as u16),
                OpCode::BREAK | OpCode::C_BREAK => Ok(
                    (
                        s1,
                        if s.bp {
                            SpecOut::Break
                        } else {
                            SpecOut::Continue
                        },
                    ),
                ),
                _ => Ok(
                    (
                        VmSnap { regs: regs1.update(dst as int, alu_i(op, a, imm)), ..s },
                        SpecOut::Continue,
                    ),
                ),
            }
        },
        Instruction::Store { op, src1, src2, imm } => {
            let a = regs1[src1 as int];
            let b = regs1[src2 as int];
            match op {
                OpCode::STORE | OpCode::C_STORE => Ok(
                    (
                        VmSnap {
                            mem: write_seq(s.mem, add32(a, imm) as int, u32_le_bytes(b)),
                            ..s1
                        },
                        SpecOut::Continue,
                    ),
                ),
                _ => Ok(
                    (
                        if branch_taken(op, a, b) {
                            VmSnap { regs: regs1.update(0, add32(regs1[0], imm)), ..s }
                        } else {
                            s1
                        },
                        SpecOut::Continue,
                    ),
                ),
            }
        },
        Instruction::Upper { op: _, dst, imm } => Ok(
            (VmSnap { regs: regs1.update(dst as int, imm), ..s }, SpecOut::Continue),
        ),
    }
}

/// The semantics of one fetch-decode-execute step from the current program
/// counter: the 32-bit word at the program counter is decoded (a reserved
/// opcode is the error `InvalidOpCode`), then executed.
pub open spec fn spec_step(s: VmSnap) -> Result<(VmSnap, SpecOut), Error> {
    let w = le32_at(s.mem, s.regs[0] as int);
    match Instruction::spec_decode(w) {
        Some(i) => spec_exec(s, i),
        None => Err(Error::InvalidOpCode(w & 0x3f)),
    }
}

/// The semantics of running up to `max_steps` fetch-decode-execute steps:
/// stops early at the first outcome other than `Continue`, or at the first
/// error; a result of `Continue` means the step budget ran out.
pub open spec fn spec_run(s: VmSnap, max_steps: u64) -> Result<(VmSnap, SpecOut), Error>
    decreases max_steps,
{
    if max_steps == 0 {
        Ok((s, SpecOut::Continue))
    } else {
        match spec_step(s) {
            Ok((s2, out)) => if out is Continue {
                spec_run(s2, (max_steps - 1) as u64)
            } else {
                Ok((s2, out))
            },
            Err(e) => Err(e),
        }
    }
}

/// The state a step leaves behind when it fails: a reserved opcode is found
/// during fetch, before anything changes; an unknown system-call number is
/// found during dispatch, after only the program counter advanced.
pub open spec fn spec_step_err_state(s: VmSnap) -> VmSnap {
    let w = le32_at(s.mem, s.regs[0] as int);
    match Instruction::spec_decode(w) {
        Some(i) => VmSnap { regs: s.regs.update(0, add32(s.regs[0], i.spec_size())), ..s },
        None => s,
    }
}

/// The machine state where a run stops, whether on an outcome, on an error,
/// or on an exhausted step budget.
pub open spec fn spec_run_final(s: VmSnap, max_steps: u64) -> VmSnap
    decreases max_steps,
{
    if max_steps == 0 {
        s
    } else {
        match spec_step(s) {
            Ok((s2, out)) => if out is Continue {
                spec_run_final(s2, (max_steps - 1) as u64)
            } else {
                s2
            },
            Err(_) => spec_step_err_state(s),
        }
    }
}

/// The register file at machine construction: all zero but the stack
/// pointer (register 1), which starts at 0xfffffffc.
pub open spec fn init_regs() -> Seq<u32> {
    Seq::new(32, |i: int| if i == 1 { 0xfffffffcu32 } else { 0u32 })
}

/// The execution core: the register file (register 0 is the program
/// counter, register 1 the stack pointer), a paged memory, the
/// open-file-table occupancy, and the host-facing flags.
pub struct VirtualMachine {
    pub memory: Memory,
    pub registers: [u32; 32],
    pub breakpoints_enabled: bool,
    pub verbose_output: bool,
    pub handles: Vec<bool>,
}

impl VirtualMachine {
    /// Well-formedness: the memory is well-formed.
    pub open spec fn wf(self) -> bool {
        self.memory.wf()
    }

    /// The open-file-table occupancy: slot `i` is true when handle `i + 3`
    /// is open.
    pub open spec fn handles_view(self) -> Seq<bool> {
        self.handles@
    }

    /// The mathematical state of this machine.
    pub open spec fn snap(self) -> VmSnap {
        VmSnap {
            regs: self.registers@,
            mem: self.memory@,
            handles: self.handles_view(),
            bp: self.breakpoints_enabled,
        }
    }

    /// Creates a machine with the default page size, the program image
    /// written at address 0, zeroed registers, the program counter at 0 and
    /// the stack pointer at 0xfffffffc. Fails with `ProgramTooLarge` when
    /// the image exceeds 2^32 bytes.
    pub fn new(program: Vec<u8>) -> (r: Result<VirtualMachine, Error>)
        ensures
            match r {
                Ok(vm) => {
                    &&& program@.len() <= 0x1_0000_0000
                    &&& vm.wf()
                    &&& vm.memory.spec_page_size() == 4096
                    &&& vm.snap() == (VmSnap {
                        regs: init_regs(),
                        mem: write_seq(zero_mem(), 0, program@),
                        handles: Seq::<bool>::empty(),
                        bp: false,
                    })
                    &&& !vm.verbose_output
                },
                Err(e) => e == Error::ProgramTooLarge && program@.len() > 0x1_0000_0000,
            },
    {
        if program.len() as u64 > 0xffffffffu64 + 1 {
            return Err(Error::ProgramTooLarge);
        }
        let mut vm = VirtualMachine {
            memory: Memory::new(),
            registers: [0; 32],
            breakpoints_enabled: false,
            verbose_output: false,
            handles: Vec::new(),
        };
        vm.reset();
        vm.memory.write(0, &program);
        proof {
            assert(vm.registers@ =~= init_regs());
            assert(vm.snap() == (VmSnap {
                regs: init_regs(),
                mem: write_seq(zero_mem(), 0, program@),
                handles: Seq::<bool>::empty(),
                bp: false,
            }));
        }
        Ok(vm)
    }

    /// As [`Self::new`], with the given page size, which must be positive
    /// and divide 2^32.
    pub fn with_page_size(page_size: usize, program: Vec<u8>) -> (r: Result<VirtualMachine, Error>)
        requires
            0 < page_size,
            0x1_0000_0000int % (page_size as int) == 0,
            0x1_0000_0000int / (page_size as int) <= usize::MAX as int,
        ensures
            match r {
                Ok(vm) => {
                    &&& program@.len() <= 0x1_0000_0000
                    &&& vm.wf()
                    &&& vm.memory.spec_page_size() == page_size as int
                    &&& vm.snap() == (VmSnap {
                        regs: init_regs(),
                        mem: write_seq(zero_mem(), 0, program@),
                        handles: Seq::<bool>::empty(),
                        bp: false,
                    })
                    &&& !vm.verbose_output
                },
                Err(e) => e == Error::ProgramTooLarge && program@.len() > 0x1_0000_0000,
            },
    {
        if program.len() as u64 > 0xffffffffu64 + 1 {
            return Err(Error::ProgramTooLarge);
        }
        let mut vm = VirtualMachine {
            memory: Memory::with_page_size(page_size),
            registers: [0; 32],
            breakpoints_enabled: false,
            verbose_output: false,
            handles: Vec::new(),
        };
        vm.reset();
        vm.memory.write(0, &program);
        proof {
            assert(vm.registers@ =~= init_regs());
            assert(vm.snap() == (VmSnap {
                regs: init_regs(),
                mem: write_seq(zero_mem(), 0, program@),
                handles: Seq::<bool>::empty(),
                bp: false,
            }));
        }
        Ok(vm)
    }

    /// Whether this machine equals a freshly constructed one with an empty
    /// program: all registers zero but the stack pointer, an all-zero
    /// address space, no open file, both flags off.
    pub open spec fn is_initial(self) -> bool {
        &&& self.wf()
        &&& self.memory.spec_page_size() == 4096
        &&& self.snap() == (VmSnap {
            regs: init_regs(),
            mem: zero_mem(),
            handles: Seq::<bool>::empty(),
            bp: false,
        })
        &&& !self.verbose_output
    }

    /// The program counter (register 0).
    pub fn program_ctr(&self) -> (r: u32)
        ensures
            r == self.registers@[0],
    {
        self.registers[0]
    }

    /// The stack pointer (register 1).
    pub fn stack_ptr(&self) -> (r: u32)
        ensures
            r == self.registers@[1],
    {
        self.registers[1]
    }

    /// Resets the program counter to 0 and the stack pointer to 0xfffffffc.
    pub fn reset(&mut self)
        ensures
            final(self).registers@ == old(self).registers@.update(0, 0u32).update(
                1,
                0xfffffffcu32,
            ),
            final(self).memory == old(self).memory,
            final(self).handles_view() == old(self).handles_view(),
            final(self).breakpoints_enabled == old(self).breakpoints_enabled,
            final(self).verbose_output == old(self).verbose_output,
    {
        self.registers[0] = 0;
        self.registers[1] = 0xfffffffc;
    }
}

proof fn lemma_mask5()
    by (bit_vector)
    ensures
        forall|x: u32| #[trigger] (x & 0x1f) < 32,
{
}

/// Executable form of [`to_i32`].
fn to_i32_exec(a: u32) -> (r: i32)
    ensures
        r == to_i32(a),
{
    if a < 0x80000000 {
        a as i32
    } else {
        ((a as i64) - 0x1_0000_0000i64) as i32
    }
}

/// Executable form of [`sra32`].
fn sra32_exec(a: u32, sh: u32) -> (r: u32)
    ensures
        r == sra32(a, sh),
{
    proof {
        lemma_mask5();
    }
    let k = sh & 0x1f;
    if a & 0x80000000 == 0 || k == 0 {
        a >> k
    } else {
        (a >> k) | (0xffffffffu32 << (32 - k))
    }
}

/// Executable form of [`alu_r`].
fn alu_r_exec(op: OpCode, a: u32, b: u32) -> (r: u32)
    ensures
        r == alu_r(op, a, b),
{
    proof {
        lemma_mask5();
    }
    match op {
        OpCode::ADD | OpCode::C_ADD => a.wrapping_add(b),
        OpCode::SUB | OpCode::C_SUB => a.wrapping_sub(b),
        OpCode::AND | OpCode::C_AND => a & b,
        OpCode::OR | OpCode::C_OR => a | b,
        OpCode::XOR | OpCode::C_XOR => a ^ b,
        OpCode::SLL | OpCode::C_SLL => a << (b & 0x1f),
        OpCode::SRL | OpCode::C_SRL => a >> (b & 0x1f),
        OpCode::SRA | OpCode::C_SRA => sra32_exec(a, b),
        OpCode::MV => b,
        _ => 0,
    }
}

/// Executable form of [`alu_i`].
fn alu_i_exec(op: OpCode, a: u32, imm: u32) -> (r: u32)
    ensures
        r == alu_i(op, a, imm),
{
    proof {
        lemma_mask5();
    }
    match op {
        OpCode::ADDI | OpCode::C_ADDI => a.wrapping_add(imm),
        OpCode::ANDI | OpCode::C_ANDI => a & imm,
        OpCode::ORI | OpCode::C_ORI => a | imm,
        OpCode::XORI | OpCode::C_XORI => a ^ imm,
        OpCode::SLLI | OpCode::C_SLLI => a << (imm & 0x1f),
        OpCode::SRLI | OpCode::C_SRLI => a >> (imm & 0x1f),
        OpCode::SRAI | OpCode::C_SRAI => sra32_exec(a, imm),
        OpCode::LI | OpCode::C_LI => imm,
        _ => 0,
    }
}

/// Executable form of [`branch_taken`].
fn branch_taken_exec(op: OpCode, a: u32, b: u32) -> (r: bool)
    ensures
        r == branch_taken(op, a, b),
{
    match op {
        OpCode::BEQ => a == b,
        OpCode::BNE => a != b,
        OpCode::BLT => to_i32_exec(a) < to_i32_exec(b),
        OpCode::BGE => to_i32_exec(a) >= to_i32_exec(b),
        OpCode::BLT_U => a < b,
        OpCode::BGE_U => a >= b,
        _ => false,
    }
}

impl VirtualMachine {
    /// Executes one decoded instruction per the semantics table
    /// [`spec_exec`]: the program counter advances by the instruction size,
    /// the operation acts on registers and memory, and a system call either
    /// completes locally, asks the host for I/O through the returned
    /// request, or is the error `InvalidSysCall`.
    pub fn exec_instr(&mut self, instr: Instruction) -> (r: Result<StepOutcome, Error>)
        requires
            old(self).wf(),
            instr.wf(),
        ensures
            final(self).wf(),
            final(self).memory.spec_page_size() == old(self).memory.spec_page_size(),
            final(self).breakpoints_enabled == old(self).breakpoints_enabled,
            final(self).verbose_output == old(self).verbose_output,
            match r {
                Ok(out) => spec_exec(old(self).snap(), instr) == Ok::<(VmSnap, SpecOut), Error>(
                    (final(self).snap(), out@),
                ),
                Err(e) => spec_exec(old(self).snap(), instr) == Err::<(VmSnap, SpecOut), Error>(e),
            },
            r is Err ==> final(self).snap() == (VmSnap {
                regs: old(self).snap().regs.update(
                    0,
                    add32(old(self).snap().regs[0], instr.spec_size()),
                ),
                ..old(self).snap()
            }),
    {
        let size = instr.size();
        let pc = self.registers[0];
        self.registers[0] = pc.wrapping_add(size);
        match instr {
            Instruction::Register { op, dst, src1, src2 } => {
                let a = self.registers[src1];
                let b = self.registers[src2];
                self.registers[dst] = alu_r_exec(op, a, b);
                Ok(StepOutcome::Continue)
            },
            Instruction::Immediate { op, dst, src1, imm } => {
                let a = self.registers[src1];
                match op {
                    OpCode::BEZ | OpCode::C_BEZ => {
                        if a == 0 {
                            let pc1 = self.registers[0];
                            self.registers[0] = pc1.wrapping_add(imm);
                        }
                        Ok(StepOutcome::Continue)
                    },
                    OpCode::BNZ | OpCode::C_BNZ => {
                        if a != 0 {
                            let pc1 = self.registers[0];
                            self.registers[0] = pc1.wrapping_add(imm);
                        }
                        Ok(StepOutcome::Continue)
                    },
                    OpCode::LOAD | OpCode::C_LOAD => {
                        let v = self.memory.read_u32(a.wrapping_add(imm));
                        self.registers[dst] = v;
                        Ok(StepOutcome::Continue)
                    },
                    OpCode::CALL | OpCode::C_CALL => self.exec_syscall((imm & 0xffff) as u16),
                    OpCode::BREAK | OpCode::C_BREAK => {
                        if self.breakpoints_enabled {
                            Ok(StepOutcome::Break)
                        } else {
                            Ok(StepOutcome::Continue)
                        }
                    },
                    _ => {
                        self.registers[dst] = alu_i_exec(op, a, imm);
                        Ok(StepOutcome::Continue)
                    },
                }
            },
            Instruction::Store { op, src1, src2, imm } => {
                let a = self.registers[src1];
                let b = self.registers[src2];
                match op {
                    OpCode::STORE | OpCode::C_STORE => {
                        self.memory.write_u32(a.wrapping_add(imm), b);
                        Ok(StepOutcome::Continue)
                    },
                    _ => {
                        if branch_taken_exec(op, a, b) {
                            let pc1 = self.registers[0];
                            self.registers[0] = pc1.wrapping_add(imm);
                        }
                        Ok(StepOutcome::Continue)
                    },
                }
            },
            Instruction::Upper { op: _, dst, imm } => {
                self.registers[dst] = imm;
                Ok(StepOutcome::Continue)
            },
        }
    }

    /// Dispatches a system call by number per [`spec_syscall`]: exit, read,
    /// write, open, close and create. Calls that only inspect state complete
    /// here (a bad handle leaves -1 in register 3); calls that need the host
    /// return the request. An unknown number is the error `InvalidSysCall`.
    fn exec_syscall(&mut self, call: u16) -> (r: Result<StepOutcome, Error>)
        requires
            old(self).wf(),
        ensures
            final(self).wf(),
            final(self).memory.spec_page_size() == old(self).memory.spec_page_size(),
            final(self).breakpoints_enabled == old(self).breakpoints_enabled,
            final(self).verbose_output == old(self).verbose_output,
            match r {
                Ok(out) => spec_syscall(old(self).snap(), call) == Ok::<(VmSnap, SpecOut), Error>(
                    (final(self).snap(), out@),
                ),
                Err(e) => spec_syscall(old(self).snap(), call) == Err::<(VmSnap, SpecOut), Error>(
                    e,
                ),
            },
            r is Err ==> final(self).snap() == old(self).snap(),
    {
        if call == 0 {
            let status = to_i32_exec(self.registers[4]);
            Ok(StepOutcome::Exit(status))
        } else if call == 1 {
            let h = self.registers[4];
            if h == 0 {
                Ok(
                    StepOutcome::ReadHost {
                        target: IoTarget::Stdin,
                        ptr: self.registers[5],
                        len: self.registers[6],
                    },
                )
            } else if h == 1 || h == 2 {
                self.registers[3] = 0xffffffff;
                Ok(StepOutcome::Continue)
            } else {
                let slot = (h - 3) as usize;
                if slot < self.handles.len() && self.handles[slot] {
                    Ok(
                        StepOutcome::ReadHost {
                            target: IoTarget::Slot(slot),
                            ptr: self.registers[5],
                            len: self.registers[6],
                        },
                    )
                } else {
                    self.registers[3] = 0xffffffff;
                    Ok(StepOutcome::Continue)
                }
            }
        } else if call == 2 {
            let h = self.registers[4];
            let ptr = self.registers[5];
            let len = self.registers[6];
            if h == 0 {
                self.registers[3] = 0xffffffff;
                return Ok(StepOutcome::Continue);
            }
            let target = if h == 1 {
                IoTarget::Stdout
            } else if h == 2 {
                IoTarget::Stderr
            } else {
                IoTarget::Slot((h - 3) as usize)
            };
            if h >= 3 {
                let slot = (h - 3) as usize;
                if !(slot < self.handles.len() && self.handles[slot]) {
                    self.registers[3] = 0xffffffff;
                    return Ok(StepOutcome::Continue);
                }
            }
            let mut data = crate::mem::zero_bytes(len as usize);
            self.memory.read(ptr, &mut data);
            proof {
                assert(data@ =~= mem_range(self.memory@, ptr, len));
            }
            Ok(StepOutcome::WriteHost { target, data })
        } else if call == 3 {
            let ptr = self.registers[4];
            let len = self.registers[5];
            let flags = self.registers[6];
            let mut path = crate::mem::zero_bytes(len as usize);
            self.memory.read(ptr, &mut path);
            proof {
                assert(path@ =~= mem_range(self.memory@, ptr, len));
            }
            Ok(StepOutcome::OpenHost { path, flags })
        } else if call == 4 {
            let h = self.registers[4];
            if h >= 3 {
                let slot = (h - 3) as usize;
                if slot < self.handles.len() && self.handles[slot] {
                    self.handles[slot] = false;
                    return Ok(StepOutcome::CloseHost { slot });
                }
            }
            self.registers[3] = 0xffffffff;
            Ok(StepOutcome::Continue)
        } else if call == 5 {
            let ptr = self.registers[4];
            let len = self.registers[5];
            let mut path = crate::mem::zero_bytes(len as usize);
            self.memory.read(ptr, &mut path);
            proof {
                assert(path@ =~= mem_range(self.memory@, ptr, len));
            }
            Ok(StepOutcome::OpenHost { path, flags: 22 })
        } else {
            Err(Error::InvalidSysCall(call))
        }
    }

    /// Runs fetch-decode-execute steps per [`spec_run`] until the guest
    /// exits, hits an enabled breakpoint, needs host I/O, fails, or
    /// `max_steps` steps have run (then the result is `Continue` and the
    /// run can simply be resumed).
    pub fn run(&mut self, max_steps: u64) -> (r: Result<StepOutcome, Error>)
        requires
            old(self).wf(),
        ensures
            final(self).wf(),
            final(self).memory.spec_page_size() == old(self).memory.spec_page_size(),
            final(self).breakpoints_enabled == old(self).breakpoints_enabled,
            final(self).verbose_output == old(self).verbose_output,
            match r {
                Ok(out) => spec_run(old(self).snap(), max_steps) == Ok::<
                    (VmSnap, SpecOut),
                    Error,
                >((final(self).snap(), out@)),
                Err(e) => spec_run(old(self).snap(), max_steps) == Err::<
                    (VmSnap, SpecOut),
                    Error,
                >(e),
            },
            final(self).snap() == spec_run_final(old(self).snap(), max_steps),
    {
        let ghost s0 = self.snap();
        let mut steps: u64 = 0;
        loop
            invariant
                self.wf(),
                steps <= max_steps,
                self.memory.spec_page_size() == old(self).memory.spec_page_size(),
                self.breakpoints_enabled == old(self).breakpoints_enabled,
                self.verbose_output == old(self).verbose_output,
                spec_run(s0, max_steps) == spec_run(self.snap(), (max_steps - steps) as u64),
                spec_run_final(s0, max_steps) == spec_run_final(
                    self.snap(),
                    (max_steps - steps) as u64,
                ),
                s0 == old(self).snap(),
            decreases max_steps - steps,
        {
            if steps == max_steps {
                return Ok(StepOutcome::Continue);
            }
            let w = self.memory.read_u32(self.registers[0]);
            let instr = match Instruction::try_from(w) {
                Ok(i) => i,
                Err(e) => {
                    return Err(e);
                },
            };
            proof {
                crate::instr::lemma_encode_decode(w);
            }
            let ghost pre = self.snap();
            match self.exec_instr(instr) {
                Ok(StepOutcome::Continue) => {
                    proof {
                        assert(spec_step(pre) == Ok::<(VmSnap, SpecOut), Error>(
                            (self.snap(), SpecOut::Continue),
                        ));
                    }
                    steps = steps + 1;
                },
                Ok(out) => {
                    return Ok(out);
                },
                Err(e) => {
                    return Err(e);
                },
            }
        }
    }

    /// Hands back to the machine what a host read returned: the bytes are
    /// written to guest memory at `ptr` and their count lands in register 3.
    pub fn finish_read(&mut self, ptr: u32, data: &Vec<u8>)
        requires
            old(self).wf(),
            data@.len() <= 0xffffffff,
        ensures
            final(self).wf(),
            final(self).memory.spec_page_size() == old(self).memory.spec_page_size(),
            final(self).breakpoints_enabled == old(self).breakpoints_enabled,
            final(self).verbose_output == old(self).verbose_output,
            final(self).snap() == (VmSnap {
                regs: old(self).snap().regs.update(3, data@.len() as u32),
                mem: write_seq(old(self).snap().mem, ptr as int, data@),
                ..old(self).snap()
            }),
    {
        self.memory.write(ptr, data);
        self.registers[3] = data.len() as u32;
    }

    /// Hands back the byte count a host write returned: it lands in
    /// register 3.
    pub fn finish_write(&mut self, count: u32)
        requires
            old(self).wf(),
        ensures
            final(self).wf(),
            final(self).memory.spec_page_size() == old(self).memory.spec_page_size(),
            final(self).breakpoints_enabled == old(self).breakpoints_enabled,
            final(self).verbose_output == old(self).verbose_output,
            final(self).snap() == set_r3(old(self).snap(), count),
    {
        self.registers[3] = count;
    }

    /// Reports a failed host request to the guest: register 3 becomes -1.
    pub fn finish_fail(&mut self)
        requires
            old(self).wf(),
        ensures
            final(self).wf(),
            final(self).memory.spec_page_size() == old(self).memory.spec_page_size(),
            final(self).breakpoints_enabled == old(self).breakpoints_enabled,
            final(self).verbose_output == old(self).verbose_output,
            final(self).snap() == set_r3(old(self).snap(), 0xffffffffu32),
    {
        self.registers[3] = 0xffffffff;
    }

    /// Registers a file the host opened: the lowest free open-file-table
    /// slot is taken (the table grows by one slot when full), the new
    /// handle `slot + 3` lands in register 3 and is returned.
    pub fn finish_open(&mut self) -> (h: u32)
        requires
            old(self).wf(),
            old(self).handles_view().len() + 3 <= 0xffffffff,
        ensures
            final(self).wf(),
            final(self).memory.spec_page_size() == old(self).memory.spec_page_size(),
            final(self).breakpoints_enabled == old(self).breakpoints_enabled,
            final(self).verbose_output == old(self).verbose_output,
            h >= 3,
            ({
                let slot = h - 3;
                &&& slot <= old(self).handles_view().len()
                &&& (slot < old(self).handles_view().len() ==> !old(self).handles_view()[slot])
                &&& forall|k: int| 0 <= k < slot ==> old(self).handles_view()[k]
                &&& final(self).handles_view() == (if slot < old(self).handles_view().len() {
                    old(self).handles_view().update(slot, true)
                } else {
                    old(self).handles_view().push(true)
                })
                &&& final(self).snap() == (VmSnap {
                    regs: old(self).snap().regs.update(3, h),
                    handles: final(self).handles_view(),
                    ..old(self).snap()
                })
            }),
    {
        let n = self.handles.len();
        let mut slot: usize = 0;
        loop
            invariant
                slot <= n,
                n == self.handles@.len(),
                self == old(self),
                forall|k: int| 0 <= k < slot ==> self.handles@[k],
            ensures
                slot <= n,
                n == self.handles@.len(),
                self == old(self),
                forall|k: int| 0 <= k < slot ==> self.handles@[k],
                slot == n || !self.handles@[slot as int],
            decreases n - slot,
        {
            if slot == n {
                break ;
            }
            if !self.handles[slot] {
                break ;
            }
            slot = slot + 1;
        }
        if slot < n {
            self.handles[slot] = true;
        } else {
            self.handles.push(true);
        }
        let h = (slot as u32) + 3;
        self.registers[3] = h;
        h
    }

    /// Reports the result of the host closing and syncing a file: register 3
    /// becomes 0 on success and -1 on failure (the slot was already freed
    /// when the close was requested).
    pub fn finish_close(&mut self, ok: bool)
        requires
            old(self).wf(),
        ensures
            final(self).wf(),
            final(self).memory.spec_page_size() == old(self).memory.spec_page_size(),
            final(self).breakpoints_enabled == old(self).breakpoints_enabled,
            final(self).verbose_output == old(self).verbose_output,
            final(self).snap() == set_r3(
                old(self).snap(),
                if ok {
                    0u32
                } else {
                    0xffffffffu32
                },
            ),
    {
        if ok {
            self.registers[3] = 0;
        } else {
            self.registers[3] = 0xffffffff;
        }
    }
}

impl Default for VirtualMachine {
    /// A machine with an empty program: as [`VirtualMachine::new`] of an
    /// empty image.
    fn default() -> (r: VirtualMachine)
        ensures
            r.is_initial(),
    {
        let r = match VirtualMachine::new(Vec::new()) {
            Ok(vm) => vm,
            Err(_) => VirtualMachine {
                memory: Memory::new(),
                registers: [0;32],
                breakpoints_enabled: false,
                verbose_output: false,
                handles: Vec::new(),
            },
        };
        proof {
            assert(write_seq(zero_mem(), 0, Seq::<u8>::empty()) =~= zero_mem());
            assert(r.is_initial());
        }
        r
    }
}

/// Arithmetic boundary laws: wrapping addition and subtraction are addition
/// and subtraction modulo 2^32; shift amounts are masked to five bits; the
/// logical right shift zero-extends (the sign bit of the result is clear
/// whenever the shift moves) while the arithmetic right shift sign-extends
/// (a negative value stays negative).
pub proof fn lemma_arith_boundaries(a: u32, b: u32)
    ensures
        add32(a, b) == (a + b) % 0x1_0000_0000,
        sub32(a, b) == (a + 0x1_0000_0000 - b) % 0x1_0000_0000,
        shl32(a, b) == shl32(a, b & 0x1f),
        shr32(a, b) == shr32(a, b & 0x1f),
        sra32(a, b) == sra32(a, b & 0x1f),
        a & 0x80000000 == 0 ==> sra32(a, b) == shr32(a, b),
        b & 0x1f != 0 ==> shr32(a, b) & 0x80000000 == 0,
        a & 0x80000000 != 0 ==> sra32(a, b) & 0x80000000 != 0,
{
    assert(add32(a, b) == (a + b) % 0x1_0000_0000) by (bit_vector);
    assert(sub32(a, b) == (a + 0x1_0000_0000 - b) % 0x1_0000_0000) by (bit_vector);
    assert((b & 0x1f) & 0x1f == b & 0x1f) by (bit_vector);
    assert(a & 0x80000000 == 0 ==> sra32(a, b) == shr32(a, b));
    assert(b & 0x1f != 0 ==> (a >> (b & 0x1f)) & 0x80000000 == 0) by (bit_vector);
    assert(a & 0x80000000 != 0 ==> sra32(a, b) & 0x80000000 != 0) by (bit_vector);
}

} // verus!
