use bankasm::chunk::{CompileData, CompileError, LabeledChunk};
use bankasm::compiler::{Compiler, Statement};
use bankasm::encoder::Mnemonic;
use bankasm::expr::{ExprNode, Expression};
use bankasm::size::SizeHint;

fn drain(c: &mut Compiler) -> Vec<CompileData> {
    let mut out = Vec::new();
    while let Some(u) = c.take_output() {
        out.push(u);
    }
    out
}

fn only_chunk_data(mut c: Compiler) -> Vec<u8> {
    c.end_of_stream();
    let out = drain(&mut c);
    assert_eq!(out.len(), 1);
    match out.into_iter().next().unwrap() {
        CompileData::Chunk { chunk, .. } => chunk.data,
        other => panic!("expected a chunk unit, got {:?}", other),
    }
}

fn instr(c: &mut Compiler, m: Mnemonic, declared: SizeHint, root: ExprNode) {
    c.push_statement(Statement::Instruction {
        name: m,
        size: declared,
        arg: Expression { root, size: SizeHint::Implicit },
    });
}

#[test]
fn long_constant_encodes_three_bytes_little_endian() {
    let mut c = Compiler::new();
    instr(&mut c, Mnemonic::Lda, SizeHint::Long, ExprNode::Constant(0x123456));
    assert_eq!(only_chunk_data(c), vec![0xaf, 0x56, 0x34, 0x12]);
}

#[test]
fn word_constant_encodes_two_bytes_little_endian() {
    let mut c = Compiler::new();
    instr(&mut c, Mnemonic::Lda, SizeHint::Word, ExprNode::Constant(0x2a10));
    assert_eq!(only_chunk_data(c), vec![0xad, 0x10, 0x2a]);
}

#[test]
fn negative_byte_constant_encodes_twos_complement() {
    let mut c = Compiler::new();
    instr(&mut c, Mnemonic::Lda, SizeHint::Byte, ExprNode::Constant(-1));
    assert_eq!(only_chunk_data(c), vec![0xa5, 0xff]);
}

#[test]
fn implicit_instruction_is_one_opcode_byte() {
    let mut c = Compiler::new();
    instr(&mut c, Mnemonic::Nop, SizeHint::Implicit, ExprNode::Empty);
    instr(&mut c, Mnemonic::Inx, SizeHint::Implicit, ExprNode::Empty);
    assert_eq!(only_chunk_data(c), vec![0xea, 0xe8]);
}

#[test]
fn size_narrows_from_coarse_hint_to_declared_form() {
    // LDA's coarse hint is Long; the declared Word form narrows it
    let mut c = Compiler::new();
    c.push_statement(Statement::Instruction {
        name: Mnemonic::Lda,
        size: SizeHint::Word,
        arg: Expression { root: ExprNode::Constant(0x10), size: SizeHint::Implicit },
    });
    assert_eq!(only_chunk_data(c), vec![0xad, 0x10, 0x00]);
}

#[test]
fn operand_size_on_expression_narrows_too() {
    let mut c = Compiler::new();
    c.push_statement(Statement::Instruction {
        name: Mnemonic::Sta,
        size: SizeHint::Implicit,
        arg: Expression { root: ExprNode::Constant(0x22), size: SizeHint::Byte },
    });
    assert_eq!(only_chunk_data(c), vec![0x85, 0x22]);
}

#[test]
fn rel_word_branch_patches_sixteen_bit_displacement() {
    let mut c = Compiler::new();
    c.push_statement(Statement::BackwardAnonLabel { count: 1 });
    let t = c.backward_ref(1);
    c.push_statement(Statement::Instruction {
        name: Mnemonic::Brl,
        size: SizeHint::Implicit,
        arg: Expression { root: t, size: SizeHint::Implicit },
    });
    // label at 0, operand at 1: displacement 0 - 1 - 1 = -2 = 0xFFFE
    assert_eq!(only_chunk_data(c), vec![0x82, 0xfe, 0xff]);
}

#[test]
fn jump_encodes_absolute_word_target() {
    let mut c = Compiler::new();
    instr(&mut c, Mnemonic::Jmp, SizeHint::Implicit, ExprNode::Constant(0x8000));
    assert_eq!(only_chunk_data(c), vec![0x4c, 0x00, 0x80]);
}

#[test]
fn mnemonic_without_byte_form_is_a_mismatch() {
    let mut c = Compiler::new();
    // JMP narrows to Byte here, but has no one-byte addressing form
    instr(&mut c, Mnemonic::Jmp, SizeHint::Byte, ExprNode::Constant(0x10));
    let out = drain(&mut c);
    assert_eq!(out.len(), 1);
    assert!(matches!(
        out[0],
        CompileData::Error(CompileError::AddressingModeMismatch { .. })
    ));
}

#[test]
fn implicit_mnemonic_with_operand_is_a_mismatch() {
    let mut c = Compiler::new();
    instr(&mut c, Mnemonic::Nop, SizeHint::Implicit, ExprNode::Constant(1));
    let out = drain(&mut c);
    assert_eq!(out.len(), 1);
    assert!(matches!(
        out[0],
        CompileData::Error(CompileError::AddressingModeMismatch { .. })
    ));
}

#[test]
fn absolute_reference_to_local_offset_is_carried_to_the_linker() {
    let mut c = Compiler::new();
    c.push_statement(Statement::BackwardAnonLabel { count: 1 });
    let t = c.backward_ref(1);
    c.push_statement(Statement::Instruction {
        name: Mnemonic::Lda,
        size: SizeHint::Word,
        arg: Expression { root: t, size: SizeHint::Implicit },
    });
    c.end_of_stream();
    let out = drain(&mut c);
    match &out[0] {
        CompileData::Chunk { chunk, .. } => {
            // the chunk-relative offset is known, the final address is not:
            // the fixup leaves with a resolved-offset root for the linker
            assert_eq!(chunk.data, vec![0xad, 0x00, 0x00]);
            assert_eq!(chunk.pending_exprs.len(), 1);
            assert_eq!(chunk.pending_exprs[0].offset, 1);
            assert_eq!(chunk.pending_exprs[0].same_bank, true);
            assert_eq!(chunk.pending_exprs[0].expr.root, ExprNode::LabelOffset(0));
        },
        other => panic!("expected a chunk unit, got {:?}", other),
    }
}

#[test]
fn padding_chunk_is_zero_filled_and_diverging() {
    let p = LabeledChunk::padding(4, Some(2));
    assert_eq!(p.get_data(), &[0u8, 0, 0, 0] as &[u8]);
    assert_eq!(p.size(), 4);
    assert_eq!(p.diverging, true);
    assert_eq!(p.bank_hint, Some(2));
    assert!(p.pending_exprs.is_empty());
    assert!(p.attrs.is_empty());
}

#[test]
fn default_chunk_is_fresh() {
    let d = LabeledChunk::default();
    assert_eq!(d.size(), 0);
    assert_eq!(d.diverging, false);
    assert_eq!(d.bank_hint, None);
}
