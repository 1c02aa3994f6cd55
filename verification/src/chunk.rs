//! Output data model: labeled chunks, fixups, attributes, compiled units
//! and the error kinds surfaced through the unit stream.

use vstd::prelude::*;
use crate::expr::Expression;
use crate::size::SizeHint;
use crate::encoder::Mnemonic;

verus! {

/// A chunk attribute. A bank pin fixes the memory bank of its chunk; every
/// other attribute passes through opaquely for downstream consumers.
#[derive(Debug, PartialEq)]
pub enum Attribute {
    Bank(u8),
    Other(String),
}

/// A deferred patch: where in the chunk, what expression to resolve, and
/// whether the referenced label must be placed in the same bank.
#[derive(Debug, PartialEq)]
pub struct LabelRef {
    pub offset: usize,
    pub expr: Expression,
    pub same_bank: bool,
}

/// Contiguous encoded bytes for one top-level label, with the fixups still
/// unresolved after local resolution.
#[derive(Debug, PartialEq)]
pub struct LabeledChunk {
    pub data: Vec<u8>,
    pub pending_exprs: Vec<LabelRef>,
    pub attrs: Vec<Attribute>,
    pub diverging: bool,
    pub bank_hint: Option<u8>,
}

impl LabeledChunk {
    /// The empty chunk: no bytes, no fixups, no attributes, assumed to fall
    /// through, pinned to no bank.
    pub open spec fn is_fresh(self) -> bool {
        &&& self.data@ == Seq::<u8>::empty()
        &&& self.pending_exprs@ == Seq::<LabelRef>::empty()
        &&& self.attrs@ == Seq::<Attribute>::empty()
        &&& self.diverging == false
        &&& self.bank_hint is None
    }

    /// A chunk of `len` zero bytes, treated as non-executable filler.
    pub fn padding(len: usize, bank_hint: Option<u8>) -> (r: Self)
        ensures
            r.data@ == Seq::new(len as nat, |i: int| 0u8),
            r.pending_exprs@ == Seq::<LabelRef>::empty(),
            r.attrs@ == Seq::<Attribute>::empty(),
            r.diverging == true,
            r.bank_hint == bank_hint,
    {
        Self {
            data: vec![0; len],
            diverging: true,
            attrs: Vec::new(),
            pending_exprs: vec![],
            bank_hint,
        }
    }

    pub fn get_data(&self) -> (r: &[u8])
        ensures
            r@ == self.data@,
    {
        self.data.as_slice()
    }

    pub fn size(&self) -> (r: usize)
        ensures
            r == self.data@.len(),
    {
        self.data.len()
    }
}

impl Default for LabeledChunk {
    fn default() -> (r: Self)
        ensures
            r.is_fresh(),
    {
        Self {
            data: Vec::new(),
            pending_exprs: Vec::new(),
            attrs: Vec::new(),
            diverging: false,
            bank_hint: None,
        }
    }
}

/// Why a compiled unit failed. Statement-level failures carry the label of
/// the chunk in progress, the offending operand context, and the expected
/// field width.
#[derive(Debug, PartialEq)]
pub enum CompileError {
    /// Wrapped failure of the statement source.
    ParseError { reason: String },
    /// The operand form is incompatible with the mnemonic's resolved size.
    AddressingModeMismatch { label: String, mnemonic: Option<Mnemonic>, operand: Expression },
    /// A relative size was paired with a non-offset result during fixup
    /// resolution, or a patch fell outside the chunk.
    InternalConsistency { label: String, offset: usize, size: SizeHint },
    /// A patched value does not fit its target field width (`size` names
    /// the expected width, `value` the actual value).
    FieldOverflow { label: String, offset: usize, size: SizeHint, value: i64 },
}

/// One unit of compiler output.
#[derive(Debug, PartialEq)]
pub enum CompileData {
    Chunk { label: String, chunk: LabeledChunk },
    Define { label: String, expr: Expression },
    Error(CompileError),
}

} // verus!
