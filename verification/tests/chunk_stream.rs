use bankasm::chunk::{Attribute, CompileData, CompileError, LabeledChunk};
use bankasm::compiler::{Compiler, Statement};
use bankasm::encoder::Mnemonic;
use bankasm::expr::{BinOp, ExprNode, Expression};
use bankasm::size::SizeHint;

fn drain(c: &mut Compiler) -> Vec<CompileData> {
    let mut out = Vec::new();
    while let Some(u) = c.take_output() {
        out.push(u);
    }
    out
}

fn expect_chunk(u: &CompileData) -> (&String, &LabeledChunk) {
    match u {
        CompileData::Chunk { label, chunk } => (label, chunk),
        other => panic!("expected a chunk unit, got {:?}", other),
    }
}

#[test]
fn empty_stream_emits_root_chunk() {
    let mut c = Compiler::new();
    c.end_of_stream();
    let out = drain(&mut c);
    assert_eq!(out.len(), 1);
    let (label, chunk) = expect_chunk(&out[0]);
    assert_eq!(label, "*root");
    assert_eq!(chunk.get_data(), &[] as &[u8]);
    assert!(chunk.pending_exprs.is_empty());
    assert_eq!(chunk.size(), 0);
    // termination is idempotent: nothing further comes out
    c.end_of_stream();
    assert!(c.take_output().is_none());
}

#[test]
fn adjacent_labels_yield_empty_chunk() {
    let mut c = Compiler::new();
    c.push_statement(Statement::TopLevelLabel { name: "first".to_string(), attrs: Vec::new() });
    c.push_statement(Statement::TopLevelLabel { name: "second".to_string(), attrs: Vec::new() });
    c.end_of_stream();
    let out = drain(&mut c);
    assert_eq!(out.len(), 3);
    let (l0, c0) = expect_chunk(&out[0]);
    assert_eq!(l0, "*root");
    assert_eq!(c0.size(), 0);
    let (l1, c1) = expect_chunk(&out[1]);
    assert_eq!(l1, "first");
    assert_eq!(c1.get_data(), &[] as &[u8]);
    assert!(c1.pending_exprs.is_empty());
    let (l2, _) = expect_chunk(&out[2]);
    assert_eq!(l2, "second");
}

#[test]
fn define_is_returned_before_the_enclosing_chunk() {
    let mut c = Compiler::new();
    c.push_statement(Statement::TopLevelLabel { name: "t".to_string(), attrs: Vec::new() });
    c.push_statement(Statement::Define {
        label: "answer".to_string(),
        expr: Expression { root: ExprNode::Constant(42), size: SizeHint::Implicit },
    });
    c.push_statement(Statement::TopLevelLabel { name: "u".to_string(), attrs: Vec::new() });
    c.end_of_stream();
    let out = drain(&mut c);
    assert_eq!(out.len(), 4);
    assert_eq!(expect_chunk(&out[0]).0, "*root");
    match &out[1] {
        CompileData::Define { label, expr } => {
            assert_eq!(label, "answer");
            assert_eq!(expr.root, ExprNode::Constant(42));
        },
        other => panic!("expected a define unit, got {:?}", other),
    }
    assert_eq!(expect_chunk(&out[2]).0, "t");
    assert_eq!(expect_chunk(&out[3]).0, "u");
}

#[test]
fn bank_attribute_pins_chunk_and_attrs_pass_through() {
    let mut c = Compiler::new();
    c.push_statement(Statement::TopLevelLabel {
        name: "code".to_string(),
        attrs: vec![
            Attribute::Other("keep".to_string()),
            Attribute::Bank(3),
            Attribute::Bank(5),
        ],
    });
    c.end_of_stream();
    let out = drain(&mut c);
    assert_eq!(out.len(), 2);
    let (label, chunk) = expect_chunk(&out[1]);
    assert_eq!(label, "code");
    assert_eq!(chunk.bank_hint, Some(5));
    assert_eq!(chunk.attrs.len(), 3);
    assert_eq!(chunk.attrs[0], Attribute::Other("keep".to_string()));
}

#[test]
fn raw_data_sets_diverging_and_local_label_clears_it() {
    let mut c = Compiler::new();
    c.push_statement(Statement::TopLevelLabel { name: "d".to_string(), attrs: Vec::new() });
    assert_eq!(c.chunk.diverging, false);
    c.push_statement(Statement::RawData { data: vec![1, 2, 3], pending_exprs: Vec::new() });
    assert_eq!(c.chunk.diverging, true);
    c.push_statement(Statement::LocalLabel { depth: 0, name: "after".to_string() });
    assert_eq!(c.chunk.diverging, false);
    c.end_of_stream();
    let out = drain(&mut c);
    let (_, chunk) = expect_chunk(&out[1]);
    assert_eq!(chunk.diverging, false);
    assert_eq!(chunk.get_data(), &[1u8, 2, 3] as &[u8]);
}

#[test]
fn control_transfer_sets_diverging() {
    let mut c = Compiler::new();
    c.push_statement(Statement::Instruction {
        name: Mnemonic::Rts,
        size: SizeHint::Implicit,
        arg: Expression { root: ExprNode::Empty, size: SizeHint::Implicit },
    });
    assert_eq!(c.chunk.diverging, true);
    c.end_of_stream();
    let out = drain(&mut c);
    let (_, chunk) = expect_chunk(&out[0]);
    assert_eq!(chunk.get_data(), &[0x60u8] as &[u8]);
    assert_eq!(chunk.diverging, true);
}

#[test]
fn backward_rel_byte_reference_patches_displacement() {
    let mut c = Compiler::new();
    c.push_statement(Statement::TopLevelLabel { name: "start".to_string(), attrs: Vec::new() });
    c.push_statement(Statement::BackwardAnonLabel { count: 1 });
    let target = c.backward_ref(1);
    c.push_statement(Statement::Instruction {
        name: Mnemonic::Bra,
        size: SizeHint::Implicit,
        arg: Expression { root: target, size: SizeHint::Implicit },
    });
    c.end_of_stream();
    let out = drain(&mut c);
    let (label, chunk) = expect_chunk(&out[1]);
    assert_eq!(label, "start");
    // label at offset 0, operand at offset 1: displacement 0 - 1 - 1 = -2
    assert_eq!(chunk.get_data(), &[0x80u8, 0xfe] as &[u8]);
    assert!(chunk.pending_exprs.is_empty());
}

#[test]
fn rel_byte_displacement_out_of_range_is_field_overflow() {
    let mut c = Compiler::new();
    c.push_statement(Statement::TopLevelLabel { name: "far".to_string(), attrs: Vec::new() });
    c.push_statement(Statement::BackwardAnonLabel { count: 1 });
    c.push_statement(Statement::RawData { data: vec![0; 130], pending_exprs: Vec::new() });
    let target = c.backward_ref(1);
    c.push_statement(Statement::Instruction {
        name: Mnemonic::Bra,
        size: SizeHint::Implicit,
        arg: Expression { root: target, size: SizeHint::Implicit },
    });
    c.end_of_stream();
    let out = drain(&mut c);
    // displacement 0 - 131 - 1 = -132 does not fit a signed byte
    match &out[1] {
        CompileData::Error(CompileError::FieldOverflow { label, offset, size, value }) => {
            assert_eq!(label, "far");
            assert_eq!(*offset, 131);
            assert_eq!(*size, SizeHint::RelByte);
            assert_eq!(*value, 0);
        },
        other => panic!("expected a field-overflow error, got {:?}", other),
    }
}

#[test]
fn forward_local_label_resolves_within_chunk() {
    let mut c = Compiler::new();
    c.push_statement(Statement::TopLevelLabel { name: "loopy".to_string(), attrs: Vec::new() });
    let target = c.local_ref(0, "x".to_string());
    c.push_statement(Statement::Instruction {
        name: Mnemonic::Bra,
        size: SizeHint::Implicit,
        arg: Expression { root: target, size: SizeHint::Implicit },
    });
    c.push_statement(Statement::LocalLabel { depth: 0, name: "x".to_string() });
    c.end_of_stream();
    let out = drain(&mut c);
    let (_, chunk) = expect_chunk(&out[1]);
    // label at offset 2, operand at offset 1: displacement 2 - 1 - 1 = 0
    assert_eq!(chunk.get_data(), &[0x80u8, 0x00] as &[u8]);
    assert!(chunk.pending_exprs.is_empty());
}

#[test]
fn forward_anonymous_label_pairs_with_its_reference() {
    let mut c = Compiler::new();
    c.push_statement(Statement::TopLevelLabel { name: "anon".to_string(), attrs: Vec::new() });
    let target = c.forward_ref(1);
    c.push_statement(Statement::Instruction {
        name: Mnemonic::Bra,
        size: SizeHint::Implicit,
        arg: Expression { root: target, size: SizeHint::Implicit },
    });
    c.push_statement(Statement::RawData { data: vec![0xea], pending_exprs: Vec::new() });
    c.push_statement(Statement::ForwardAnonLabel { count: 1 });
    c.end_of_stream();
    let out = drain(&mut c);
    let (_, chunk) = expect_chunk(&out[1]);
    // label at offset 3, operand at offset 1: displacement 3 - 1 - 1 = 1
    assert_eq!(chunk.get_data(), &[0x80u8, 0x01, 0xea] as &[u8]);
    assert!(chunk.pending_exprs.is_empty());
}

#[test]
fn local_labels_do_not_alias_across_chunks() {
    let mut c = Compiler::new();
    c.push_statement(Statement::TopLevelLabel { name: "a".to_string(), attrs: Vec::new() });
    c.push_statement(Statement::LocalLabel { depth: 0, name: "x".to_string() });
    c.push_statement(Statement::TopLevelLabel { name: "b".to_string(), attrs: Vec::new() });
    // a reference to .x inside chunk b must not see chunk a's definition
    let target = c.local_ref(0, "x".to_string());
    c.push_statement(Statement::Instruction {
        name: Mnemonic::Lda,
        size: SizeHint::Word,
        arg: Expression { root: target, size: SizeHint::Implicit },
    });
    c.end_of_stream();
    let out = drain(&mut c);
    let (label, chunk) = expect_chunk(&out[2]);
    assert_eq!(label, "b");
    // the reference stays unresolved and goes to the linker
    assert_eq!(chunk.pending_exprs.len(), 1);
    assert!(matches!(chunk.pending_exprs[0].expr.root, ExprNode::LabelId(_)));
}

#[test]
fn word_constant_operand_patches_little_endian_at_fixup_offset() {
    let mut c = Compiler::new();
    c.push_statement(Statement::TopLevelLabel { name: "w".to_string(), attrs: Vec::new() });
    c.push_statement(Statement::BackwardAnonLabel { count: 1 });
    let r1 = c.backward_ref(1);
    let r2 = c.backward_ref(1);
    // (label - label) + 0x2A10 reduces to the constant 0x2A10 at merge time
    let expr = ExprNode::Bin(
        BinOp::Add,
        Box::new(ExprNode::Bin(BinOp::Sub, Box::new(r1), Box::new(r2))),
        Box::new(ExprNode::Constant(0x2a10)),
    );
    c.push_statement(Statement::Instruction {
        name: Mnemonic::Lda,
        size: SizeHint::Word,
        arg: Expression { root: expr, size: SizeHint::Implicit },
    });
    c.end_of_stream();
    let out = drain(&mut c);
    let (_, chunk) = expect_chunk(&out[1]);
    // fixup offset 1: bytes 0x10, 0x2A little-endian
    assert_eq!(chunk.get_data(), &[0xadu8, 0x10, 0x2a] as &[u8]);
    assert!(chunk.pending_exprs.is_empty());
}

#[test]
fn empty_fixup_expression_leaves_placeholder_bytes() {
    let mut c = Compiler::new();
    c.push_statement(Statement::TopLevelLabel { name: "ph".to_string(), attrs: Vec::new() });
    c.push_statement(Statement::RawData {
        data: vec![0xaa, 0xbb],
        pending_exprs: vec![(0, Expression { root: ExprNode::Empty, size: SizeHint::Word })],
    });
    c.end_of_stream();
    let out = drain(&mut c);
    let (_, chunk) = expect_chunk(&out[1]);
    assert_eq!(chunk.get_data(), &[0xaau8, 0xbb] as &[u8]);
    assert!(chunk.pending_exprs.is_empty());
}

#[test]
fn instruction_fixup_same_bank_raw_data_fixup_not() {
    let mut c = Compiler::new();
    c.push_statement(Statement::TopLevelLabel { name: "banks".to_string(), attrs: Vec::new() });
    let r1 = c.forward_ref(1);
    c.push_statement(Statement::Instruction {
        name: Mnemonic::Lda,
        size: SizeHint::Word,
        arg: Expression { root: r1, size: SizeHint::Implicit },
    });
    let r2 = c.forward_ref(1);
    c.push_statement(Statement::RawData {
        data: vec![0, 0],
        pending_exprs: vec![(0, Expression { root: r2, size: SizeHint::Word })],
    });
    c.end_of_stream();
    let out = drain(&mut c);
    let (_, chunk) = expect_chunk(&out[1]);
    assert_eq!(chunk.pending_exprs.len(), 2);
    assert_eq!(chunk.pending_exprs[0].offset, 1);
    assert_eq!(chunk.pending_exprs[0].same_bank, true);
    assert_eq!(chunk.pending_exprs[1].offset, 3);
    assert_eq!(chunk.pending_exprs[1].same_bank, false);
    assert!(matches!(chunk.pending_exprs[0].expr.root, ExprNode::LabelId(_)));
    assert!(matches!(chunk.pending_exprs[1].expr.root, ExprNode::LabelId(_)));
}

#[test]
fn identical_streams_produce_identical_units() {
    let mut outs: Vec<Vec<CompileData>> = Vec::new();
    for _ in 0..2 {
        let mut c = Compiler::new();
        c.push_statement(Statement::TopLevelLabel {
            name: "m".to_string(),
            attrs: vec![Attribute::Bank(1)],
        });
        c.push_statement(Statement::BackwardAnonLabel { count: 1 });
        let t = c.backward_ref(1);
        c.push_statement(Statement::Instruction {
            name: Mnemonic::Bne,
            size: SizeHint::Implicit,
            arg: Expression { root: t, size: SizeHint::Implicit },
        });
        c.push_statement(Statement::Define {
            label: "k".to_string(),
            expr: Expression { root: ExprNode::Constant(7), size: SizeHint::Implicit },
        });
        let u = c.local_ref(0, "end".to_string());
        c.push_statement(Statement::RawData {
            data: vec![9, 9],
            pending_exprs: vec![(0, Expression { root: u, size: SizeHint::Word })],
        });
        c.push_statement(Statement::LocalLabel { depth: 0, name: "end".to_string() });
        c.end_of_stream();
        outs.push(drain(&mut c));
    }
    assert_eq!(outs[0], outs[1]);
}

#[test]
fn source_error_surfaces_and_stream_continues() {
    let mut c = Compiler::new();
    c.push_statement(Statement::SourceError { reason: "bad token".to_string() });
    c.push_statement(Statement::RawData { data: vec![5], pending_exprs: Vec::new() });
    c.end_of_stream();
    let out = drain(&mut c);
    assert_eq!(out.len(), 2);
    match &out[0] {
        CompileData::Error(CompileError::ParseError { reason }) => assert_eq!(reason, "bad token"),
        other => panic!("expected a parse error unit, got {:?}", other),
    }
    let (_, chunk) = expect_chunk(&out[1]);
    assert_eq!(chunk.get_data(), &[5u8] as &[u8]);
}

#[test]
fn incompatible_sizes_give_addressing_mode_mismatch() {
    let mut c = Compiler::new();
    // JMP is Word-sized; a RelByte operand form cannot be narrowed with it
    c.push_statement(Statement::Instruction {
        name: Mnemonic::Jmp,
        size: SizeHint::RelByte,
        arg: Expression { root: ExprNode::Constant(0x1234), size: SizeHint::Implicit },
    });
    let out = drain(&mut c);
    assert_eq!(out.len(), 1);
    match &out[0] {
        CompileData::Error(CompileError::AddressingModeMismatch { label, mnemonic, .. }) => {
            assert_eq!(label, "*root");
            assert_eq!(*mnemonic, Some(Mnemonic::Jmp));
        },
        other => panic!("expected a mismatch error, got {:?}", other),
    }
    // the chunk keeps accumulating after the isolated failure
    c.push_statement(Statement::RawData { data: vec![1], pending_exprs: Vec::new() });
    c.end_of_stream();
    let out2 = drain(&mut c);
    let (_, chunk) = expect_chunk(&out2[0]);
    assert_eq!(chunk.get_data(), &[1u8] as &[u8]);
}

#[test]
fn constant_too_wide_for_byte_is_field_overflow() {
    let mut c = Compiler::new();
    c.push_statement(Statement::Instruction {
        name: Mnemonic::Lda,
        size: SizeHint::Byte,
        arg: Expression { root: ExprNode::Constant(0x1ff), size: SizeHint::Implicit },
    });
    let out = drain(&mut c);
    assert_eq!(out.len(), 1);
    match &out[0] {
        CompileData::Error(CompileError::FieldOverflow { label, offset, size, value }) => {
            assert_eq!(label, "*root");
            assert_eq!(*offset, 1);
            assert_eq!(*size, SizeHint::Byte);
            assert_eq!(*value, 0x1ff);
        },
        other => panic!("expected a field-overflow error, got {:?}", other),
    }
}

#[test]
fn relative_size_with_constant_result_is_internal_consistency() {
    let mut c = Compiler::new();
    c.push_statement(Statement::TopLevelLabel { name: "odd".to_string(), attrs: Vec::new() });
    c.push_statement(Statement::RawData {
        data: vec![0, 0],
        pending_exprs: vec![(0, Expression { root: ExprNode::Constant(5), size: SizeHint::RelByte })],
    });
    c.end_of_stream();
    let out = drain(&mut c);
    // the failed chunk is replaced by an error unit
    match &out[1] {
        CompileData::Error(CompileError::InternalConsistency { label, offset, size }) => {
            assert_eq!(label, "odd");
            assert_eq!(*offset, 0);
            assert_eq!(*size, SizeHint::RelByte);
        },
        other => panic!("expected an internal-consistency error, got {:?}", other),
    }
}
