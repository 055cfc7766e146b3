use svm::assembler::lex_ident;
use svm::assembler::lex_immediate;
use svm::assembler::lex_mnemonic;
use svm::assembler::lex_number;
use svm::assembler::lex_register;
use svm::assembler::parse_instruction;
use svm::assembler::parse_line;
use svm::assembler::parse_operands;
use svm::AsmError;
use svm::Instruction;
use svm::ImmediatePlaceholder;
use svm::InstructionPlaceholder;
use svm::OpCode;

#[test]
fn comment() {
    let line = b"# This is a comment...".to_vec();
    assert_eq!(parse_line(&line), Some((None, None)));
}

#[test]
fn identifier() {
    let s = b"Label_1".to_vec();
    assert_eq!(lex_ident(&s, 0), Some((b"Label_1".to_vec(), 7)));
}

#[test]
fn label() {
    let line = b"Label_1:".to_vec();
    assert_eq!(parse_line(&line), Some((Some(b"Label_1".to_vec()), None)));
}

#[test]
fn register() {
    let s = b"r31".to_vec();
    assert_eq!(lex_register(&s, 0), Some((31, 3)));
}

#[test]
fn number() {
    assert_eq!(lex_number(&b"10".to_vec(), 0), Some((10, 2)));
    assert_eq!(lex_number(&b"0x1f".to_vec(), 0), Some((0x1f, 4)));
    assert_eq!(lex_number(&b"-4".to_vec(), 0), Some((-4i32 as u32, 2)));
    assert_eq!(lex_number(&b"-0b101".to_vec(), 0), Some((-0b101i32 as u32, 6)));
    assert_eq!(lex_number(&b"+7".to_vec(), 0), Some((7, 2)));
    assert_eq!(lex_number(&b"0o17".to_vec(), 0), Some((15, 4)));
    // out of range for a 32-bit signed literal
    assert_eq!(lex_number(&b"0x80000000".to_vec(), 0), None);
    assert_eq!(lex_number(&b"2147483647".to_vec(), 0), Some((0x7fffffff, 10)));
    // a digit outside the radix
    assert_eq!(lex_number(&b"0b2".to_vec(), 0), None);
}

#[test]
fn immediate() {
    assert_eq!(
        lex_immediate(&b"-2".to_vec(), 0),
        Some((ImmediatePlaceholder::Value(-2i32 as u32), 2))
    );
    assert_eq!(
        lex_immediate(&b"%label1".to_vec(), 0),
        Some((ImmediatePlaceholder::LabelAbsolute(b"label1".to_vec()), 7))
    );
    assert_eq!(
        lex_immediate(&b"$label1".to_vec(), 0),
        Some((ImmediatePlaceholder::LabelRelative(b"label1".to_vec()), 7))
    );
}

#[test]
fn mnemonic() {
    // "addi": no prefix, no suffix.
    let (pre, key, suf, j) = lex_mnemonic(&b"addi".to_vec(), 0).unwrap();
    assert_eq!((pre, suf, j), (false, false, 4));
    assert_eq!(key, Some(0x61646469));

    // "c.addi": the compressed prefix.
    let (pre, key, suf, j) = lex_mnemonic(&b"c.addi".to_vec(), 0).unwrap();
    assert_eq!((pre, suf, j), (true, false, 6));
    assert_eq!(key, Some(0x61646469));

    // "blt.u": the unsigned suffix.
    let (pre, key, suf, j) = lex_mnemonic(&b"blt.u".to_vec(), 0).unwrap();
    assert_eq!((pre, suf, j), (false, true, 5));
    assert_eq!(key, Some(0x626c74));
}

#[test]
fn instruction_r() {
    let s = b"r0, r0, r1".to_vec();
    assert_eq!(
        parse_operands(&s, 0, OpCode::ADD),
        Some((
            InstructionPlaceholder::Register { op: OpCode::ADD, dst: 0, src1: 0, src2: 1 },
            s.len()
        ))
    );
}

#[test]
fn instruction_i() {
    let s = b"r0, r0, $label".to_vec();
    assert_eq!(
        parse_operands(&s, 0, OpCode::ADDI),
        Some((
            InstructionPlaceholder::Immediate {
                op: OpCode::ADDI,
                dst: 0,
                src1: 0,
                imm: ImmediatePlaceholder::LabelRelative(b"label".to_vec())
            },
            s.len()
        ))
    );
}

#[test]
fn instruction_s() {
    let s = b"r0, r1, -4".to_vec();
    assert_eq!(
        parse_operands(&s, 0, OpCode::STORE),
        Some((
            InstructionPlaceholder::Store {
                op: OpCode::STORE,
                src1: 0,
                src2: 1,
                imm: ImmediatePlaceholder::Value(-4i32 as u32)
            },
            s.len()
        ))
    );
}

#[test]
fn instruction_u() {
    let s = b"r1, 0x1fa800c5".to_vec();
    assert_eq!(
        parse_operands(&s, 0, OpCode::LUI),
        Some((
            InstructionPlaceholder::Upper {
                op: OpCode::LUI,
                dst: 1,
                imm: ImmediatePlaceholder::Value(0x1fa800c5)
            },
            s.len()
        ))
    );
}

#[test]
fn instruction_cr() {
    let s = b"r3, r4".to_vec();
    assert_eq!(
        parse_operands(&s, 0, OpCode::C_ADD),
        Some((
            InstructionPlaceholder::Register { op: OpCode::C_ADD, dst: 3, src1: 3, src2: 4 },
            s.len()
        ))
    );
}

#[test]
fn instruction_ci() {
    let s = b"r0, %label".to_vec();
    assert_eq!(
        parse_operands(&s, 0, OpCode::C_ADDI),
        Some((
            InstructionPlaceholder::Immediate {
                op: OpCode::C_ADDI,
                dst: 0,
                src1: 0,
                imm: ImmediatePlaceholder::LabelAbsolute(b"label".to_vec())
            },
            s.len()
        ))
    );
}

#[test]
fn instruction_cl() {
    let s = b"r3, r1, 0".to_vec();
    assert_eq!(
        parse_operands(&s, 0, OpCode::C_LOAD),
        Some((
            InstructionPlaceholder::Immediate {
                op: OpCode::C_LOAD,
                dst: 3,
                src1: 1,
                imm: ImmediatePlaceholder::Value(0)
            },
            s.len()
        ))
    );
}

#[test]
fn instruction_cs() {
    let s = b"r1, r3, -4".to_vec();
    assert_eq!(
        parse_operands(&s, 0, OpCode::C_STORE),
        Some((
            InstructionPlaceholder::Store {
                op: OpCode::C_STORE,
                src1: 1,
                src2: 3,
                imm: ImmediatePlaceholder::Value(-4i32 as u32)
            },
            s.len()
        ))
    );
}

#[test]
fn instruction_cu() {
    let s = b"r2, %label".to_vec();
    assert_eq!(
        parse_operands(&s, 0, OpCode::C_LUI),
        Some((
            InstructionPlaceholder::Upper {
                op: OpCode::C_LUI,
                dst: 2,
                imm: ImmediatePlaceholder::LabelAbsolute(b"label".to_vec())
            },
            s.len()
        ))
    );
}

#[test]
fn instruction() {
    let s = b"add r0, r0, r1".to_vec();
    assert_eq!(
        parse_instruction(&s, 0),
        Some((
            InstructionPlaceholder::Register { op: OpCode::ADD, dst: 0, src1: 0, src2: 1 },
            s.len()
        ))
    );

    let s = b"addi r0, r0, 0xff".to_vec();
    assert_eq!(
        parse_instruction(&s, 0),
        Some((
            InstructionPlaceholder::Immediate {
                op: OpCode::ADDI,
                dst: 0,
                src1: 0,
                imm: ImmediatePlaceholder::Value(0xff)
            },
            s.len()
        ))
    );

    let s = b"store r0, r1, -4".to_vec();
    assert_eq!(
        parse_instruction(&s, 0),
        Some((
            InstructionPlaceholder::Store {
                op: OpCode::STORE,
                src1: 0,
                src2: 1,
                imm: ImmediatePlaceholder::Value(-4i32 as u32)
            },
            s.len()
        ))
    );

    let s = b"lui r1, %label".to_vec();
    assert_eq!(
        parse_instruction(&s, 0),
        Some((
            InstructionPlaceholder::Upper {
                op: OpCode::LUI,
                dst: 1,
                imm: ImmediatePlaceholder::LabelAbsolute(b"label".to_vec())
            },
            s.len()
        ))
    );

    let s = b"c.add r0, r1".to_vec();
    assert_eq!(
        parse_instruction(&s, 0),
        Some((
            InstructionPlaceholder::Register { op: OpCode::C_ADD, dst: 0, src1: 0, src2: 1 },
            s.len()
        ))
    );

    let s = b"c.addi r0, 0xff".to_vec();
    assert_eq!(
        parse_instruction(&s, 0),
        Some((
            InstructionPlaceholder::Immediate {
                op: OpCode::C_ADDI,
                dst: 0,
                src1: 0,
                imm: ImmediatePlaceholder::Value(0xff)
            },
            s.len()
        ))
    );

    let s = b"c.load r3, r1, 0".to_vec();
    assert_eq!(
        parse_instruction(&s, 0),
        Some((
            InstructionPlaceholder::Immediate {
                op: OpCode::C_LOAD,
                dst: 3,
                src1: 1,
                imm: ImmediatePlaceholder::Value(0)
            },
            s.len()
        ))
    );

    let s = b"c.store r1, r3, -4".to_vec();
    assert_eq!(
        parse_instruction(&s, 0),
        Some((
            InstructionPlaceholder::Store {
                op: OpCode::C_STORE,
                src1: 1,
                src2: 3,
                imm: ImmediatePlaceholder::Value(-4i32 as u32)
            },
            s.len()
        ))
    );

    let s = b"c.lui r2, $label".to_vec();
    assert_eq!(
        parse_instruction(&s, 0),
        Some((
            InstructionPlaceholder::Upper {
                op: OpCode::C_LUI,
                dst: 2,
                imm: ImmediatePlaceholder::LabelRelative(b"label".to_vec())
            },
            s.len()
        ))
    );
}

#[test]
fn parse_single_lines() {
    let line = b" # add r0, r0, r1 ".to_vec();
    assert_eq!(parse_line(&line), Some((None, None)));

    let line = b" add r0, r0, r1   # ignore me".to_vec();
    assert_eq!(
        parse_line(&line),
        Some((
            None,
            Some(InstructionPlaceholder::Register { op: OpCode::ADD, dst: 0, src1: 0, src2: 1 })
        ))
    );

    let line = b"label:".to_vec();
    assert_eq!(parse_line(&line), Some((Some(b"label".to_vec()), None)));

    let line = b" label :\tadd r0,r0,r1 ".to_vec();
    assert_eq!(
        parse_line(&line),
        Some((
            Some(b"label".to_vec()),
            Some(InstructionPlaceholder::Register { op: OpCode::ADD, dst: 0, src1: 0, src2: 1 })
        ))
    );
}

#[test]
fn parse_program_text() {
    assert_eq!(svm::parse("add r0, r0, r1".to_owned()), Ok(vec![0x02, 0x00, 0x01, 0x00]));
    assert_eq!(svm::parse("addi r0, r0, 4".to_owned()), Ok(vec![0x12, 0x00, 0x04, 0x00]));

    assert_eq!(
        svm::parse("label:\n add r2, r2, r3\n addi r0, r0, $label".to_owned()),
        Ok(vec![0x82, 0x10, 0x03, 0x00, 0x12, 0x00, 0xf8, 0xff])
    );

    assert_eq!(svm::parse("load r0, r2, %label\n label:".to_owned()), Ok(vec![0x34, 0x10, 0x04, 0x00]));
}

#[test]
fn parse_bytes_pseudo_op() {
    assert_eq!(svm::parse("bytes \"AB\\n\"".to_owned()), Ok(vec![0x41, 0x42, 0x0a]));
    assert_eq!(svm::parse("bytes \"\"".to_owned()), Ok(vec![]));
    // a label after raw bytes sits past them
    assert_eq!(
        svm::parse("bytes \"abcd\"\nhere:\n call %here".to_owned()),
        Ok(vec![0x61, 0x62, 0x63, 0x64, 0x3c, 0x00, 0x04, 0x00])
    );
}

#[test]
fn parse_reports_line_numbers() {
    assert_eq!(svm::parse("not an instruction".to_owned()), Err(AsmError::LineError(1)));
    assert_eq!(svm::parse("add r0, r0, r1\nwhat?".to_owned()), Err(AsmError::LineError(2)));
    // too many operands is an error, not ignored
    assert_eq!(svm::parse("add r0, r0, r1, r2".to_owned()), Err(AsmError::LineError(1)));
}

#[test]
fn parse_reports_missing_labels() {
    assert_eq!(
        svm::parse("addi r0, r0, %nope".to_owned()),
        Err(AsmError::LabelNotFound(b"nope".to_vec()))
    );
    assert_eq!(
        svm::parse("bez r1, $gone".to_owned()),
        Err(AsmError::LabelNotFound(b"gone".to_vec()))
    );
}

#[test]
fn parse_is_case_insensitive() {
    assert_eq!(svm::parse("ADD r0, r0, r1".to_owned()), Ok(vec![0x02, 0x00, 0x01, 0x00]));
    assert_eq!(svm::parse("C.Add r0, r1".to_owned()), Ok(vec![0x03, 0x08]));
    assert_eq!(svm::parse("blt.U r0, r1, 4".to_owned()), svm::parse("blt.u r0, r1, 4".to_owned()));
}

#[test]
fn later_label_definition_wins() {
    // The same name defined twice: references use the later address.
    let out = svm::parse("x:\n add r0, r0, r0\nx:\n call %x".to_owned()).unwrap();
    assert_eq!(&out[4..], [0x3c, 0x00, 0x04, 0x00]);
}

#[test]
fn into_instr_resolves_labels() {
    let labels: Vec<(Vec<u8>, u32)> = vec![(b"loop".to_vec(), 4)];
    // Absolute reference: the label's address.
    let item = InstructionPlaceholder::Immediate {
        op: OpCode::ADDI,
        dst: 0,
        src1: 0,
        imm: ImmediatePlaceholder::LabelAbsolute(b"loop".to_vec()),
    };
    assert_eq!(
        item.into_instr(&labels, 12),
        Ok(Instruction::Immediate { op: OpCode::ADDI, dst: 0, src1: 0, imm: 4 })
    );

    // Relative reference: the label's address minus the next instruction's.
    let item = InstructionPlaceholder::Immediate {
        op: OpCode::ADDI,
        dst: 0,
        src1: 0,
        imm: ImmediatePlaceholder::LabelRelative(b"loop".to_vec()),
    };
    assert_eq!(
        item.into_instr(&labels, 12),
        Ok(Instruction::Immediate { op: OpCode::ADDI, dst: 0, src1: 0, imm: -8i32 as u32 })
    );

    // An undefined name reports itself.
    let item = InstructionPlaceholder::Upper {
        op: OpCode::LUI,
        dst: 1,
        imm: ImmediatePlaceholder::LabelAbsolute(b"gone".to_vec()),
    };
    assert_eq!(item.into_instr(&labels, 0), Err(AsmError::LabelNotFound(b"gone".to_vec())));
}

#[test]
fn placeholder_sizes() {
    let wide = InstructionPlaceholder::Register { op: OpCode::ADD, dst: 0, src1: 0, src2: 0 };
    let compressed =
        InstructionPlaceholder::Immediate {
            op: OpCode::C_LI,
            dst: 0,
            src1: 0,
            imm: ImmediatePlaceholder::Value(0),
        };
    let raw = InstructionPlaceholder::StringLiteral(b"abc".to_vec());
    assert_eq!(wide.size(), 4);
    assert_eq!(compressed.size(), 2);
    assert_eq!(raw.size(), 3);
}

#[test]
fn string_literal_escapes() {
    assert_eq!(
        svm::parse("bytes \"a\\tb\\rc\\0d\\'e\"".to_owned()),
        Ok(vec![0x61, 0x09, 0x62, 0x0d, 0x63, 0x00, 0x64, 0x27, 0x65])
    );
    // A double backslash collapses to one.
    assert_eq!(svm::parse("bytes \"a\\\\b\"".to_owned()), Ok(vec![0x61, 0x5c, 0x62]));
    // An unterminated literal is a line error.
    assert_eq!(svm::parse("bytes \"abc".to_owned()), Err(AsmError::LineError(1)));
}
