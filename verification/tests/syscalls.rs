use svm::Instruction;
use svm::IoTarget;
use svm::OpCode;
use svm::StepOutcome;
use svm::VirtualMachine;

#[test]
fn sys_read() {
    let instr = Instruction::Immediate { op: OpCode::CALL, dst: 0, src1: 0, imm: 1 };
    let mut vm = VirtualMachine::default();
    let handle = vm.finish_open();
    assert_eq!(handle, 3);
    vm.registers[4..7].copy_from_slice(&[3, 0, 13]);

    // The read goes to the file of slot 0; the host performs it and hands
    // the bytes back.
    match vm.exec_instr(instr) {
        Ok(StepOutcome::ReadHost { target, ptr, len }) => {
            assert_eq!(target, IoTarget::Slot(0));
            assert_eq!(ptr, 0);
            assert_eq!(len, 13);
        }
        other => panic!("unexpected outcome: {:?}", other),
    }
    vm.finish_read(0, &b"Hello, World!".to_vec());

    assert_eq!(vm.program_ctr(), 4);
    assert_eq!(vm.stack_ptr(), 0xfffffffc);
    assert_eq!(vm.registers[2..7], [0, 13, 3, 0, 13]);
    assert_eq!(vm.registers[7..], [0; 25]);

    let mut buf = vec![0; 13];
    vm.memory.read(0, &mut buf);
    assert_eq!(&buf, b"Hello, World!");
}

#[test]
fn sys_write() {
    let instr = Instruction::Immediate { op: OpCode::CALL, dst: 0, src1: 0, imm: 2 };
    let mut vm = VirtualMachine::default();
    let handle = vm.finish_open();
    assert_eq!(handle, 3);
    vm.registers[4..7].copy_from_slice(&[3, 0, 13]);
    vm.memory.write(0, &b"Hello, World!".to_vec());

    // The write goes to the file of slot 0 with the 13 bytes read from
    // guest memory; the host writes them and reports the count.
    match vm.exec_instr(instr) {
        Ok(StepOutcome::WriteHost { target, data }) => {
            assert_eq!(target, IoTarget::Slot(0));
            assert_eq!(&data, b"Hello, World!");
        }
        other => panic!("unexpected outcome: {:?}", other),
    }
    vm.finish_write(13);

    assert_eq!(vm.program_ctr(), 4);
    assert_eq!(vm.stack_ptr(), 0xfffffffc);
    assert_eq!(vm.registers[2..7], [0, 13, 3, 0, 13]);
    assert_eq!(vm.registers[7..], [0; 25]);
}

#[test]
fn sys_open() {
    let instr = Instruction::Immediate { op: OpCode::CALL, dst: 0, src1: 0, imm: 3 };
    let mut vm = VirtualMachine::default();
    vm.registers[4..7].copy_from_slice(&[0, 14, 1]);
    vm.memory.write(0, &b".sys_open_test".to_vec());

    match vm.exec_instr(instr) {
        Ok(StepOutcome::OpenHost { path, flags }) => {
            assert_eq!(&path, b".sys_open_test");
            assert_eq!(flags, 1);
        }
        other => panic!("unexpected outcome: {:?}", other),
    }
    let handle = vm.finish_open();
    assert_eq!(handle, 3);

    assert_eq!(vm.program_ctr(), 4);
    assert_eq!(vm.stack_ptr(), 0xfffffffc);
    assert_eq!(vm.registers[2..7], [0, 3, 0, 14, 1]);
    assert_eq!(vm.registers[7..], [0; 25]);
}

#[test]
fn sys_close() {
    let instr = Instruction::Immediate { op: OpCode::CALL, dst: 0, src1: 0, imm: 4 };
    let mut vm = VirtualMachine::default();
    let handle = vm.finish_open();
    assert_eq!(handle, 3);
    vm.registers[4] = 3;

    match vm.exec_instr(instr) {
        Ok(StepOutcome::CloseHost { slot }) => assert_eq!(slot, 0),
        other => panic!("unexpected outcome: {:?}", other),
    }
    vm.finish_close(true);

    assert_eq!(vm.program_ctr(), 4);
    assert_eq!(vm.stack_ptr(), 0xfffffffc);
    assert_eq!(vm.registers[2..5], [0, 0, 3]);
    assert_eq!(vm.registers[5..], [0; 27]);
}

#[test]
fn sys_create() {
    let instr = Instruction::Immediate { op: OpCode::CALL, dst: 0, src1: 0, imm: 5 };
    let mut vm = VirtualMachine::default();
    vm.registers[4..6].copy_from_slice(&[0, 16]);
    vm.memory.write(0, &b".sys_create_test".to_vec());

    // create is open with flags CREATE | WRITE | TRUNCATE.
    match vm.exec_instr(instr) {
        Ok(StepOutcome::OpenHost { path, flags }) => {
            assert_eq!(&path, b".sys_create_test");
            assert_eq!(flags, 0b10110);
        }
        other => panic!("unexpected outcome: {:?}", other),
    }
    let handle = vm.finish_open();
    assert_eq!(handle, 3);

    assert_eq!(vm.program_ctr(), 4);
    assert_eq!(vm.stack_ptr(), 0xfffffffc);
    assert_eq!(vm.registers[2..6], [0, 3, 0, 16]);
    assert_eq!(vm.registers[6..], [0; 26]);
}

#[test]
fn read_from_stdout_fails() {
    let instr = Instruction::Immediate { op: OpCode::CALL, dst: 0, src1: 0, imm: 1 };
    let mut vm = VirtualMachine::default();
    vm.registers[4] = 1;
    assert!(matches!(vm.exec_instr(instr), Ok(StepOutcome::Continue)));
    assert_eq!(vm.registers[3], u32::MAX);
}

#[test]
fn write_to_stdin_fails() {
    let instr = Instruction::Immediate { op: OpCode::CALL, dst: 0, src1: 0, imm: 2 };
    let mut vm = VirtualMachine::default();
    vm.registers[4] = 0;
    assert!(matches!(vm.exec_instr(instr), Ok(StepOutcome::Continue)));
    assert_eq!(vm.registers[3], u32::MAX);
}

#[test]
fn bad_handle_fails_locally() {
    let mut vm = VirtualMachine::default();
    vm.registers[4..7].copy_from_slice(&[7, 0, 4]);
    let read = Instruction::Immediate { op: OpCode::CALL, dst: 0, src1: 0, imm: 1 };
    assert!(matches!(vm.exec_instr(read), Ok(StepOutcome::Continue)));
    assert_eq!(vm.registers[3], u32::MAX);

    vm.registers[3] = 0;
    let close = Instruction::Immediate { op: OpCode::CALL, dst: 0, src1: 0, imm: 4 };
    vm.registers[4] = 3;
    assert!(matches!(vm.exec_instr(close), Ok(StepOutcome::Continue)));
    assert_eq!(vm.registers[3], u32::MAX);
}

#[test]
fn open_reuses_lowest_free_slot() {
    let mut vm = VirtualMachine::default();
    assert_eq!(vm.finish_open(), 3);
    assert_eq!(vm.finish_open(), 4);
    assert_eq!(vm.finish_open(), 5);

    // Close handle 4; the next open lands in its slot again.
    let close = Instruction::Immediate { op: OpCode::CALL, dst: 0, src1: 0, imm: 4 };
    vm.registers[4] = 4;
    assert!(matches!(vm.exec_instr(close), Ok(StepOutcome::CloseHost { slot: 1 })));
    vm.finish_close(true);
    assert_eq!(vm.registers[3], 0);

    assert_eq!(vm.finish_open(), 4);
    assert_eq!(vm.finish_open(), 6);
}

#[test]
fn failed_host_request_reports_minus_one() {
    let mut vm = VirtualMachine::default();
    vm.finish_fail();
    assert_eq!(vm.registers[3], u32::MAX);
}
