use svm::Error;
use svm::Instruction;
use svm::OpCode;
use svm::StepOutcome;
use svm::VirtualMachine;

#[test]
fn add() {
    let instr = Instruction::Register { op: OpCode::ADD, dst: 2, src1: 0, src2: 0 };
    let mut vm = VirtualMachine::default();

    assert!(matches!(vm.exec_instr(instr), Ok(StepOutcome::Continue)));

    assert_eq!(vm.program_ctr(), 4);
    assert_eq!(vm.stack_ptr(), 0xfffffffc);
    assert_eq!(vm.registers[2], 8);
    assert_eq!(vm.registers[3..], [0; 29]);
}

#[test]
fn sub() {
    let instr = Instruction::Register { op: OpCode::SUB, dst: 2, src1: 0, src2: 2 };
    let mut vm = VirtualMachine::default();
    vm.registers[2] = 3;

    assert!(matches!(vm.exec_instr(instr), Ok(StepOutcome::Continue)));

    assert_eq!(vm.program_ctr(), 4);
    assert_eq!(vm.stack_ptr(), 0xfffffffc);
    assert_eq!(vm.registers[2], 1);
    assert_eq!(vm.registers[3..], [0; 29]);
}

#[test]
fn and() {
    let instr = Instruction::Register { op: OpCode::AND, dst: 2, src1: 2, src2: 3 };
    let mut vm = VirtualMachine::default();
    vm.registers[2] = 0b10101010;
    vm.registers[3] = 0b11010100;

    assert!(matches!(vm.exec_instr(instr), Ok(StepOutcome::Continue)));

    assert_eq!(vm.program_ctr(), 4);
    assert_eq!(vm.stack_ptr(), 0xfffffffc);
    assert_eq!(vm.registers[2..4], [0b10000000, 0b11010100]);
    assert_eq!(vm.registers[4..], [0; 28]);
}

#[test]
fn or() {
    let instr = Instruction::Register { op: OpCode::OR, dst: 2, src1: 2, src2: 3 };
    let mut vm = VirtualMachine::default();
    vm.registers[2] = 0b10101010;
    vm.registers[3] = 0b11010100;

    assert!(matches!(vm.exec_instr(instr), Ok(StepOutcome::Continue)));

    assert_eq!(vm.program_ctr(), 4);
    assert_eq!(vm.stack_ptr(), 0xfffffffc);
    assert_eq!(vm.registers[2..4], [0b11111110, 0b11010100]);
    assert_eq!(vm.registers[4..], [0; 28]);
}

#[test]
fn xor() {
    let instr = Instruction::Register { op: OpCode::XOR, dst: 2, src1: 2, src2: 3 };
    let mut vm = VirtualMachine::default();
    vm.registers[2] = 0b10101010;
    vm.registers[3] = 0b11010100;

    assert!(matches!(vm.exec_instr(instr), Ok(StepOutcome::Continue)));

    assert_eq!(vm.program_ctr(), 4);
    assert_eq!(vm.stack_ptr(), 0xfffffffc);
    assert_eq!(vm.registers[2..4], [0b01111110, 0b11010100]);
    assert_eq!(vm.registers[4..], [0; 28]);
}

#[test]
fn sll() {
    let instr = Instruction::Register { op: OpCode::SLL, dst: 2, src1: 0, src2: 0 };
    let mut vm = VirtualMachine::default();

    assert!(matches!(vm.exec_instr(instr), Ok(StepOutcome::Continue)));

    assert_eq!(vm.program_ctr(), 4);
    assert_eq!(vm.stack_ptr(), 0xfffffffc);
    assert_eq!(vm.registers[2], 64);
    assert_eq!(vm.registers[3..], [0; 29]);
}

#[test]
fn srl() {
    let instr = Instruction::Register { op: OpCode::SRL, dst: 2, src1: 0, src2: 2 };
    let mut vm = VirtualMachine::default();
    vm.registers[2] = 2;

    assert!(matches!(vm.exec_instr(instr), Ok(StepOutcome::Continue)));

    assert_eq!(vm.program_ctr(), 4);
    assert_eq!(vm.stack_ptr(), 0xfffffffc);
    assert_eq!(vm.registers[2], 1);
    assert_eq!(vm.registers[3..], [0; 29]);
}

#[test]
fn sra() {
    let instr = Instruction::Register { op: OpCode::SRA, dst: 2, src1: 1, src2: 2 };
    let mut vm = VirtualMachine::default();
    vm.registers[2] = 2;

    assert!(matches!(vm.exec_instr(instr), Ok(StepOutcome::Continue)));

    assert_eq!(vm.program_ctr(), 4);
    assert_eq!(vm.stack_ptr(), 0xfffffffc);
    assert_eq!(vm.registers[2], 0xffffffff);
    assert_eq!(vm.registers[3..], [0; 29]);
}

#[test]
fn addi() {
    let instr = Instruction::Immediate { op: OpCode::ADDI, dst: 2, src1: 0, imm: 2 };
    let mut vm = VirtualMachine::default();

    assert!(matches!(vm.exec_instr(instr), Ok(StepOutcome::Continue)));

    assert_eq!(vm.program_ctr(), 4);
    assert_eq!(vm.stack_ptr(), 0xfffffffc);
    assert_eq!(vm.registers[2], 6);
    assert_eq!(vm.registers[3..], [0; 29]);
}

#[test]
fn andi() {
    let instr = Instruction::Immediate { op: OpCode::ANDI, dst: 2, src1: 2, imm: 0b11010100 };
    let mut vm = VirtualMachine::default();
    vm.registers[2] = 0b10101010;

    assert!(matches!(vm.exec_instr(instr), Ok(StepOutcome::Continue)));

    assert_eq!(vm.program_ctr(), 4);
    assert_eq!(vm.stack_ptr(), 0xfffffffc);
    assert_eq!(vm.registers[2], 0b10000000);
    assert_eq!(vm.registers[3..], [0; 29]);
}

#[test]
fn ori() {
    let instr = Instruction::Immediate { op: OpCode::ORI, dst: 2, src1: 2, imm: 0b11010100 };
    let mut vm = VirtualMachine::default();
    vm.registers[2] = 0b10101010;

    assert!(matches!(vm.exec_instr(instr), Ok(StepOutcome::Continue)));

    assert_eq!(vm.program_ctr(), 4);
    assert_eq!(vm.stack_ptr(), 0xfffffffc);
    assert_eq!(vm.registers[2], 0b11111110);
    assert_eq!(vm.registers[3..], [0; 29]);
}

#[test]
fn xori() {
    let instr = Instruction::Immediate { op: OpCode::XORI, dst: 2, src1: 2, imm: 0b11010100 };
    let mut vm = VirtualMachine::default();
    vm.registers[2] = 0b10101010;

    assert!(matches!(vm.exec_instr(instr), Ok(StepOutcome::Continue)));

    assert_eq!(vm.program_ctr(), 4);
    assert_eq!(vm.stack_ptr(), 0xfffffffc);
    assert_eq!(vm.registers[2], 0b01111110);
    assert_eq!(vm.registers[3..], [0; 29]);
}

#[test]
fn slli() {
    let instr = Instruction::Immediate { op: OpCode::SLLI, dst: 2, src1: 0, imm: 4 };
    let mut vm = VirtualMachine::default();

    assert!(matches!(vm.exec_instr(instr), Ok(StepOutcome::Continue)));

    assert_eq!(vm.program_ctr(), 4);
    assert_eq!(vm.stack_ptr(), 0xfffffffc);
    assert_eq!(vm.registers[2], 64);
    assert_eq!(vm.registers[3..], [0; 29]);
}

#[test]
fn srli() {
    let instr = Instruction::Immediate { op: OpCode::SRLI, dst: 2, src1: 0, imm: 2 };
    let mut vm = VirtualMachine::default();

    assert!(matches!(vm.exec_instr(instr), Ok(StepOutcome::Continue)));

    assert_eq!(vm.program_ctr(), 4);
    assert_eq!(vm.stack_ptr(), 0xfffffffc);
    assert_eq!(vm.registers[2], 1);
    assert_eq!(vm.registers[3..], [0; 29]);
}

#[test]
fn srai() {
    let instr = Instruction::Immediate { op: OpCode::SRAI, dst: 2, src1: 1, imm: 2 };
    let mut vm = VirtualMachine::default();

    assert!(matches!(vm.exec_instr(instr), Ok(StepOutcome::Continue)));

    assert_eq!(vm.program_ctr(), 4);
    assert_eq!(vm.stack_ptr(), 0xfffffffc);
    assert_eq!(vm.registers[2], 0xffffffff);
    assert_eq!(vm.registers[3..], [0; 29]);
}

#[test]
fn bez() {
    let instr = Instruction::Immediate { op: OpCode::BEZ, dst: 2, src1: 2, imm: 4 };
    let mut vm = VirtualMachine::default();

    assert!(matches!(vm.exec_instr(instr), Ok(StepOutcome::Continue)));

    assert_eq!(vm.program_ctr(), 8);
    assert_eq!(vm.stack_ptr(), 0xfffffffc);
    assert_eq!(vm.registers[2..], [0; 30]);
}

#[test]
fn bnz() {
    let instr = Instruction::Immediate { op: OpCode::BNZ, dst: 1, src1: 1, imm: 4 };
    let mut vm = VirtualMachine::default();

    assert!(matches!(vm.exec_instr(instr), Ok(StepOutcome::Continue)));

    assert_eq!(vm.program_ctr(), 8);
    assert_eq!(vm.stack_ptr(), 0xfffffffc);
    assert_eq!(vm.registers[2..], [0; 30]);
}

#[test]
fn beq() {
    let instr = Instruction::Store { op: OpCode::BEQ, src1: 1, src2: 1, imm: 4 };
    let mut vm = VirtualMachine::default();

    assert!(matches!(vm.exec_instr(instr), Ok(StepOutcome::Continue)));

    assert_eq!(vm.program_ctr(), 8);
    assert_eq!(vm.stack_ptr(), 0xfffffffc);
    assert_eq!(vm.registers[2..], [0; 30]);
}

#[test]
fn bne() {
    let instr = Instruction::Store { op: OpCode::BNE, src1: 0, src2: 1, imm: 4 };
    let mut vm = VirtualMachine::default();

    assert!(matches!(vm.exec_instr(instr), Ok(StepOutcome::Continue)));

    assert_eq!(vm.program_ctr(), 8);
    assert_eq!(vm.stack_ptr(), 0xfffffffc);
    assert_eq!(vm.registers[2..], [0; 30]);
}

#[test]
fn blt() {
    let instr = Instruction::Store { op: OpCode::BLT, src1: 1, src2: 0, imm: 4 };
    let mut vm = VirtualMachine::default();

    assert!(matches!(vm.exec_instr(instr), Ok(StepOutcome::Continue)));

    assert_eq!(vm.program_ctr(), 8);
    assert_eq!(vm.stack_ptr(), 0xfffffffc);
    assert_eq!(vm.registers[2..], [0; 30]);
}

#[test]
fn bge() {
    let instr = Instruction::Store { op: OpCode::BGE, src1: 0, src2: 1, imm: 4 };
    let mut vm = VirtualMachine::default();

    assert!(matches!(vm.exec_instr(instr), Ok(StepOutcome::Continue)));

    assert_eq!(vm.program_ctr(), 8);
    assert_eq!(vm.stack_ptr(), 0xfffffffc);
    assert_eq!(vm.registers[2..], [0; 30]);
}

#[test]
fn blt_u() {
    let instr = Instruction::Store { op: OpCode::BLT_U, src1: 0, src2: 1, imm: 4 };
    let mut vm = VirtualMachine::default();

    assert!(matches!(vm.exec_instr(instr), Ok(StepOutcome::Continue)));

    assert_eq!(vm.program_ctr(), 8);
    assert_eq!(vm.stack_ptr(), 0xfffffffc);
    assert_eq!(vm.registers[2..], [0; 30]);
}

#[test]
fn bge_u() {
    let instr = Instruction::Store { op: OpCode::BGE_U, src1: 1, src2: 0, imm: 4 };
    let mut vm = VirtualMachine::default();

    assert!(matches!(vm.exec_instr(instr), Ok(StepOutcome::Continue)));

    assert_eq!(vm.program_ctr(), 8);
    assert_eq!(vm.stack_ptr(), 0xfffffffc);
    assert_eq!(vm.registers[2..], [0; 30]);
}

#[test]
fn li() {
    let instr = Instruction::Immediate { op: OpCode::LI, dst: 2, src1: 2, imm: 1 };
    let mut vm = VirtualMachine::default();

    assert!(matches!(vm.exec_instr(instr), Ok(StepOutcome::Continue)));

    assert_eq!(vm.program_ctr(), 4);
    assert_eq!(vm.stack_ptr(), 0xfffffffc);
    assert_eq!(vm.registers[2], 1);
    assert_eq!(vm.registers[3..], [0; 29]);
}

#[test]
fn lui() {
    let instr = Instruction::Upper { op: OpCode::LUI, dst: 2, imm: 0xffff0000 };
    let mut vm = VirtualMachine::default();

    assert!(matches!(vm.exec_instr(instr), Ok(StepOutcome::Continue)));

    assert_eq!(vm.program_ctr(), 4);
    assert_eq!(vm.stack_ptr(), 0xfffffffc);
    assert_eq!(vm.registers[2], 0xffff0000);
    assert_eq!(vm.registers[3..], [0; 29]);
}

#[test]
fn load() {
    let instr = Instruction::Immediate { op: OpCode::LOAD, dst: 2, src1: 0, imm: 2 };
    let mut vm = VirtualMachine::new(vec![0, 0, 0, 0, 0, 0, 0x1f, 0x2c]).unwrap();

    assert!(matches!(vm.exec_instr(instr), Ok(StepOutcome::Continue)));

    assert_eq!(vm.program_ctr(), 4);
    assert_eq!(vm.stack_ptr(), 0xfffffffc);
    assert_eq!(vm.registers[2], 0x2c1f);
    assert_eq!(vm.registers[3..], [0; 29]);
}

#[test]
fn store() {
    let instr = Instruction::Store { op: OpCode::STORE, src1: 0, src2: 0, imm: 2 };
    let mut vm = VirtualMachine::default();

    assert!(matches!(vm.exec_instr(instr), Ok(StepOutcome::Continue)));

    assert_eq!(vm.program_ctr(), 4);
    assert_eq!(vm.stack_ptr(), 0xfffffffc);
    assert_eq!(vm.registers[2..], [0; 30]);
    assert_eq!(vm.memory.read_u32(6), 4);
}

#[test]
fn break_() {
    let instr = Instruction::Immediate { op: OpCode::BREAK, dst: 0, src1: 0, imm: 0 };
    let mut vm = VirtualMachine::default();

    assert!(matches!(vm.exec_instr(instr), Ok(StepOutcome::Continue)));

    assert_eq!(vm.program_ctr(), 4);
    assert_eq!(vm.stack_ptr(), 0xfffffffc);
    assert_eq!(vm.registers[2..], [0; 30]);
}

#[test]
fn break_with_breakpoints_enabled() {
    let instr = Instruction::Immediate { op: OpCode::BREAK, dst: 0, src1: 0, imm: 0 };
    let mut vm = VirtualMachine::default();
    vm.breakpoints_enabled = true;

    assert!(matches!(vm.exec_instr(instr), Ok(StepOutcome::Break)));
    assert_eq!(vm.program_ctr(), 4);
}

#[test]
fn mv() {
    let instr = Instruction::Register { op: OpCode::MV, dst: 2, src1: 2, src2: 0 };
    let mut vm = VirtualMachine::default();

    assert!(matches!(vm.exec_instr(instr), Ok(StepOutcome::Continue)));

    assert_eq!(vm.program_ctr(), 2);
    assert_eq!(vm.stack_ptr(), 0xfffffffc);
    assert_eq!(vm.registers[2], 2);
    assert_eq!(vm.registers[3..], [0; 29]);
}

#[test]
fn sys_exit() {
    let instr = Instruction::Immediate { op: OpCode::CALL, dst: 0, src1: 0, imm: 0 };
    let mut vm = VirtualMachine::default();
    vm.registers[4] = 1;

    assert!(matches!(vm.exec_instr(instr), Ok(StepOutcome::Exit(1))));

    assert_eq!(vm.program_ctr(), 4);
    assert_eq!(vm.stack_ptr(), 0xfffffffc);
    assert_eq!(vm.registers[2..5], [0, 0, 1]);
    assert_eq!(vm.registers[5..], [0; 27]);
}

#[test]
fn add_wide_step() {
    // One wide ADD r0, r0, r1: the program counter advances by 4 before the
    // operation, so with r1 holding 0 the step leaves r0 at old PC + size
    // + r1 = 4 and r1 unchanged. (A fresh machine starts r1, the stack
    // pointer, at 0xfffffffc, under which the same step wraps r0 to 0.)
    let mut vm = VirtualMachine::new(vec![0x02, 0x00, 0x01, 0x00]).unwrap();
    vm.registers[1] = 0;
    assert!(matches!(vm.run(1), Ok(StepOutcome::Continue)));
    assert_eq!(vm.program_ctr(), 4);
    assert_eq!(vm.registers[1], 0);

    let mut vm2 = VirtualMachine::new(vec![0x02, 0x00, 0x01, 0x00]).unwrap();
    assert!(matches!(vm2.run(1), Ok(StepOutcome::Continue)));
    assert_eq!(vm2.program_ctr(), 0);
}

#[test]
fn addi_step() {
    // ADDI r0, r0, 4: increment then add the immediate, so PC ends at 8.
    let mut vm = VirtualMachine::new(vec![0x12, 0x00, 0x04, 0x00]).unwrap();
    assert!(matches!(vm.run(1), Ok(StepOutcome::Continue)));
    assert_eq!(vm.program_ctr(), 8);
}

#[test]
fn run_rejects_invalid_opcode() {
    let mut vm = VirtualMachine::new(vec![0x00, 0x00, 0x00, 0x00]).unwrap();
    assert_eq!(vm.run(10).unwrap_err(), Error::InvalidOpCode(0));
}

#[test]
fn run_rejects_invalid_syscall() {
    // CALL 9: an unknown system-call number terminates the run.
    let instr = Instruction::Immediate { op: OpCode::CALL, dst: 0, src1: 0, imm: 9 };
    let mut buf = Vec::new();
    instr.write_bytes(&mut buf);
    let mut vm = VirtualMachine::new(buf).unwrap();
    assert_eq!(vm.run(10).unwrap_err(), Error::InvalidSysCall(9));
}

#[test]
fn wrapping_add_and_sub() {
    let mut vm = VirtualMachine::default();
    vm.registers[2] = u32::MAX;
    vm.registers[3] = 2;
    let add = Instruction::Register { op: OpCode::ADD, dst: 4, src1: 2, src2: 3 };
    assert!(matches!(vm.exec_instr(add), Ok(StepOutcome::Continue)));
    assert_eq!(vm.registers[4], 1);

    let sub = Instruction::Register { op: OpCode::SUB, dst: 5, src1: 4, src2: 3 };
    assert!(matches!(vm.exec_instr(sub), Ok(StepOutcome::Continue)));
    assert_eq!(vm.registers[5], u32::MAX);
}

#[test]
fn shift_amounts_masked_to_five_bits() {
    let mut vm = VirtualMachine::default();
    vm.registers[2] = 1;
    vm.registers[3] = 33;  // 33 & 0x1f == 1
    let sll = Instruction::Register { op: OpCode::SLL, dst: 4, src1: 2, src2: 3 };
    assert!(matches!(vm.exec_instr(sll), Ok(StepOutcome::Continue)));
    assert_eq!(vm.registers[4], 2);

    vm.registers[5] = 0x80000000;
    let srl = Instruction::Register { op: OpCode::SRL, dst: 6, src1: 5, src2: 3 };
    assert!(matches!(vm.exec_instr(srl), Ok(StepOutcome::Continue)));
    assert_eq!(vm.registers[6], 0x40000000);

    let sra = Instruction::Register { op: OpCode::SRA, dst: 7, src1: 5, src2: 3 };
    assert!(matches!(vm.exec_instr(sra), Ok(StepOutcome::Continue)));
    assert_eq!(vm.registers[7], 0xc0000000);
}

#[test]
fn error_descriptions() {
    assert_eq!(Error::ProgramTooLarge.description(), "length of program exceeds 2^32 bytes");
    assert_eq!(Error::InvalidOpCode(0x38).description(), "invalid opcode encountered");
    assert_eq!(Error::InvalidSysCall(9).description(), "invalid syscall encountered");
}

#[test]
fn reset_restores_counters() {
    let mut vm = VirtualMachine::default();
    vm.registers[0] = 44;
    vm.registers[1] = 7;
    vm.reset();
    assert_eq!(vm.program_ctr(), 0);
    assert_eq!(vm.stack_ptr(), 0xfffffffc);
}

#[test]
fn run_resumes_after_step_limit() {
    // Exhausting the step budget returns Continue and the run picks up
    // where it left off.
    let program = vec![
        0x92, 0x10, 0x01, 0x00, // ADDI r2, r2, 1
        0x92, 0x10, 0x01, 0x00, // ADDI r2, r2, 1
        0x3c, 0x00, 0x00, 0x00, // CALL 0 (sys_exit, r4 = 0)
    ];
    let mut vm = VirtualMachine::new(program).unwrap();
    assert!(matches!(vm.run(1), Ok(StepOutcome::Continue)));
    assert_eq!(vm.registers[2], 1);
    assert!(matches!(vm.run(100), Ok(StepOutcome::Exit(0))));
    assert_eq!(vm.registers[2], 2);
}

#[test]
fn custom_page_size_run() {
    // The same one-instruction program under a small page size: fetch and
    // execution cross page boundaries transparently.
    let mut vm = VirtualMachine::with_page_size(2, vec![0x12, 0x00, 0x04, 0x00]).unwrap();
    assert!(matches!(vm.run(1), Ok(StepOutcome::Continue)));
    assert_eq!(vm.program_ctr(), 8);
}

#[test]
fn invalid_syscall_preserves_state() {
    // An unknown system-call number terminates the run after only the
    // program-counter advance: registers, memory and the open-file table
    // keep their values.
    let instr = Instruction::Immediate { op: OpCode::CALL, dst: 0, src1: 0, imm: 9 };
    let mut vm = VirtualMachine::default();
    let handle = vm.finish_open();
    assert_eq!(handle, 3);
    vm.registers[3] = 7;
    vm.registers[4] = 11;
    vm.memory.write(100, &vec![0xab]);

    assert_eq!(vm.exec_instr(instr).unwrap_err(), Error::InvalidSysCall(9));

    assert_eq!(vm.program_ctr(), 4);
    assert_eq!(vm.registers[3], 7);
    assert_eq!(vm.registers[4], 11);
    let mut buf = vec![0u8; 1];
    vm.memory.read(100, &mut buf);
    assert_eq!(buf, [0xab]);
    // slot 0 is still open: closing it succeeds
    let close = Instruction::Immediate { op: OpCode::CALL, dst: 0, src1: 0, imm: 4 };
    vm.registers[4] = 3;
    assert!(matches!(vm.exec_instr(close), Ok(StepOutcome::CloseHost { slot: 0 })));
}

#[test]
fn invalid_opcode_preserves_state() {
    // A reserved opcode fails the fetch before anything changes.
    let mut vm = VirtualMachine::new(vec![0x38, 0x00, 0x00, 0x00]).unwrap();
    vm.registers[5] = 9;
    assert_eq!(vm.run(10).unwrap_err(), Error::InvalidOpCode(0x38));
    assert_eq!(vm.program_ctr(), 0);
    assert_eq!(vm.registers[5], 9);
}
