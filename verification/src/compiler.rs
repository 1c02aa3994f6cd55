//! The chunk compiler: a statement-driven state machine that turns a
//! statement stream into a stream of compiled units, one top-level label's
//! worth of bytes per chunk.
//!
//! The compiler is push-driven: the driver feeds one statement at a time
//! with [`Compiler::push_statement`], drains the produced units with
//! [`Compiler::take_output`] before feeding the next statement, and closes
//! the stream with [`Compiler::end_of_stream`].

use vstd::prelude::*;
use crate::size::SizeHint;
use crate::expr::{ExprNode, Expression, labels_wf, const_only_node, reduce_node};
use crate::ident::{LocalLabelState, CompilerState, CompilerStateInner, assoc, assoc_local};
use crate::encoder::{Mnemonic, EncodeFault, spec_parse, spec_encode, parse_mode, encode};
use crate::chunk::{Attribute, LabelRef, LabeledChunk, CompileError, CompileData};
use crate::resolver::{ResolveFault, resolve_seq, merge_labels};

verus! {

/// One already-parsed statement, as handed over by the statement source.
#[derive(Debug, PartialEq)]
pub enum Statement {
    /// A named constant definition; emitted as a standalone unit.
    Define { label: String, expr: Expression },
    /// A top-level label: the boundary between two chunks.
    TopLevelLabel { name: String, attrs: Vec<Attribute> },
    /// A backward anonymous label definition with the given sigil count.
    BackwardAnonLabel { count: u64 },
    /// A forward anonymous label definition with the given sigil count.
    ForwardAnonLabel { count: u64 },
    /// A named local label definition at the given depth.
    LocalLabel { depth: u64, name: String },
    /// Raw bytes, with fixups relative to the start of those bytes.
    RawData { data: Vec<u8>, pending_exprs: Vec<(usize, Expression)> },
    /// An instruction: mnemonic, syntactic operand-form size hint, operand.
    Instruction { name: Mnemonic, size: SizeHint, arg: Expression },
    /// A failure reported by the statement source.
    SourceError { reason: String },
}

/// Ghost observation of an attribute, names as character sequences.
pub enum AttrModel {
    Bank(u8),
    Other(Seq<char>),
}

/// Ghost observation of an emitted chunk.
pub struct ChunkModel {
    pub data: Seq<u8>,
    pub fixups: Seq<LabelRef>,
    pub attrs: Seq<AttrModel>,
    pub diverging: bool,
    pub bank: Option<u8>,
}

/// Ghost observation of an error unit.
pub enum ErrorModel {
    Parse(Seq<char>),
    Mismatch { label: Seq<char>, mnemonic: Option<Mnemonic>, operand: Expression },
    Internal { label: Seq<char>, offset: usize, size: SizeHint },
    Overflow { label: Seq<char>, offset: usize, size: SizeHint, value: i64 },
}

/// Ghost observation of one compiled unit.
pub enum UnitModel {
    Chunk { label: Seq<char>, chunk: ChunkModel },
    Define { label: Seq<char>, expr: Expression },
    Fault(ErrorModel),
}

pub open spec fn attr_model(a: Attribute) -> AttrModel {
    match a {
        Attribute::Bank(c) => AttrModel::Bank(c),
        Attribute::Other(s) => AttrModel::Other(s@),
    }
}

pub open spec fn chunk_model(c: LabeledChunk) -> ChunkModel {
    ChunkModel {
        data: c.data@,
        fixups: c.pending_exprs@,
        attrs: c.attrs@.map_values(|a: Attribute| attr_model(a)),
        diverging: c.diverging,
        bank: c.bank_hint,
    }
}

pub open spec fn error_model(e: CompileError) -> ErrorModel {
    match e {
        CompileError::ParseError { reason } => ErrorModel::Parse(reason@),
        CompileError::AddressingModeMismatch { label, mnemonic, operand } =>
            ErrorModel::Mismatch { label: label@, mnemonic, operand },
        CompileError::InternalConsistency { label, offset, size } =>
            ErrorModel::Internal { label: label@, offset, size },
        CompileError::FieldOverflow { label, offset, size, value } =>
            ErrorModel::Overflow { label: label@, offset, size, value },
    }
}

pub open spec fn unit_model(u: CompileData) -> UnitModel {
    match u {
        CompileData::Chunk { label, chunk } =>
            UnitModel::Chunk { label: label@, chunk: chunk_model(chunk) },
        CompileData::Define { label, expr } =>
            UnitModel::Define { label: label@, expr },
        CompileData::Error(e) => UnitModel::Fault(error_model(e)),
    }
}

/// The name a finalized chunk is emitted under.
pub open spec fn label_view(l: Option<String>) -> Seq<char> {
    match l {
        Some(s) => s@,
        None => Seq::<char>::empty(),
    }
}

/// The bank pin named by an attribute set: the last bank attribute wins.
pub open spec fn bank_of(attrs: Seq<Attribute>) -> Option<u8>
    decreases attrs.len(),
{
    if attrs.len() == 0 {
        None
    } else {
        match attrs.last() {
            Attribute::Bank(c) => Some(c),
            _ => bank_of(attrs.drop_last()),
        }
    }
}

/// The mnemonic's coarse size hint, narrowed by the operand expression's
/// declared size, narrowed by the syntactic operand form's hint.
pub open spec fn instr_size(m: Mnemonic, arg_size: SizeHint, declared: SizeHint) -> Option<SizeHint> {
    match m.spec_size_hint().spec_narrow(arg_size) {
        None => None,
        Some(s1) => s1.spec_narrow(declared),
    }
}

/// The chunk compiler's state between statements.
pub struct Compiler {
    /// Identity-minting state shared with the statement source.
    pub state: CompilerState,
    /// Small output queue, drained before new input is pulled.
    pub extra: Vec<CompileData>,
    /// Name of the chunk being accumulated (pending until its end is seen);
    /// `None` once the stream has ended.
    pub next_label: Option<String>,
    /// Attribute set belonging to the pending label.
    pub next_attrs: Vec<Attribute>,
    /// The chunk being accumulated.
    pub chunk: LabeledChunk,
    /// Chunk-local label table: identity to byte offset, later wins.
    pub labels: Vec<(u64, usize)>,
    /// Fixups queued against the current chunk.
    pub pending_exprs: Vec<LabelRef>,
}

impl Compiler {
    /// Internal consistency of the state: label offsets fit `i64`, the
    /// chunk stays under the patchable length bound, and every queued fixup
    /// points inside the chunk's bytes.
    pub open spec fn wf(self) -> bool {
        &&& labels_wf(self.labels@)
        &&& self.chunk.data@.len() <= 0x7fff_ffff_ffff_ffff
        &&& forall|j: int| 0 <= j < self.pending_exprs@.len()
            ==> (#[trigger] self.pending_exprs@[j]).offset < self.chunk.data@.len()
    }

    /// Fields other than the output queue, unchanged.
    pub open spec fn same_core(pre: Compiler, post: Compiler) -> bool {
        &&& post.chunk.data@ == pre.chunk.data@
        &&& post.chunk.pending_exprs@ == pre.chunk.pending_exprs@
        &&& post.chunk.attrs@ == pre.chunk.attrs@
        &&& post.chunk.diverging == pre.chunk.diverging
        &&& post.chunk.bank_hint == pre.chunk.bank_hint
        &&& post.labels@ == pre.labels@
        &&& post.pending_exprs@ == pre.pending_exprs@
        &&& post.next_label == pre.next_label
        &&& post.next_attrs@ == pre.next_attrs@
    }

    /// The identity allocator after a chunk boundary: scope forgotten,
    /// counter kept.
    pub open spec fn lls_cleared(pre: Compiler, post: Compiler) -> bool {
        &&& post.state.0.lls.next_id == pre.state.0.lls.next_id
        &&& post.state.0.lls.neg_heads@.len() == 0
        &&& post.state.0.lls.pos_heads@.len() == 0
        &&& post.state.0.lls.locals@.len() == 0
    }

    /// What finalizing the current chunk emits: the resolver's result under
    /// the pending label, with the pending attribute set and its bank pin;
    /// or the resolver's fault as an error unit.
    pub open spec fn finalize_model(pre: Compiler) -> UnitModel {
        match resolve_seq(pre.chunk.data@, pre.labels@, pre.pending_exprs@) {
            Ok(dk) => UnitModel::Chunk {
                label: label_view(pre.next_label),
                chunk: ChunkModel {
                    data: dk.0,
                    fixups: dk.1,
                    attrs: pre.next_attrs@.map_values(|a: Attribute| attr_model(a)),
                    diverging: pre.chunk.diverging,
                    bank: bank_of(pre.next_attrs@),
                },
            },
            Err(f) => UnitModel::Fault(match f {
                ResolveFault::Internal { offset, size } => ErrorModel::Internal {
                    label: label_view(pre.next_label),
                    offset,
                    size,
                },
                ResolveFault::Overflow { offset, size, value } => ErrorModel::Overflow {
                    label: label_view(pre.next_label),
                    offset,
                    size,
                    value,
                },
            }),
        }
    }

    /// One unit appended to the output queue, nothing else touched.
    pub open spec fn emitted(pre: Compiler, post: Compiler, u: UnitModel) -> bool {
        &&& post.extra@.len() == pre.extra@.len() + 1
        &&& post.extra@.drop_last() == pre.extra@
        &&& unit_model(post.extra@.last()) == u
    }

    pub open spec fn step_define(pre: Compiler, label: String, expr: Expression, post: Compiler) -> bool {
        &&& Compiler::same_core(pre, post)
        &&& post.state == pre.state
        &&& post.extra@ == pre.extra@.push(CompileData::Define { label, expr })
    }

    pub open spec fn step_source_error(pre: Compiler, reason: String, post: Compiler) -> bool {
        &&& Compiler::same_core(pre, post)
        &&& post.state == pre.state
        &&& post.extra@ == pre.extra@.push(CompileData::Error(CompileError::ParseError { reason }))
    }

    pub open spec fn step_label(pre: Compiler, name: String, attrs: Vec<Attribute>, post: Compiler) -> bool {
        &&& Compiler::emitted(pre, post, Compiler::finalize_model(pre))
        &&& post.chunk.is_fresh()
        &&& post.labels@.len() == 0
        &&& post.pending_exprs@.len() == 0
        &&& post.next_label == Some(name)
        &&& post.next_attrs@ == attrs@
        &&& Compiler::lls_cleared(pre, post)
    }

    pub open spec fn step_backward(pre: Compiler, count: u64, post: Compiler) -> bool {
        let id = post.labels@.last().0;
        &&& post.extra@ == pre.extra@
        &&& post.chunk.data@ == pre.chunk.data@
        &&& post.chunk.diverging == pre.chunk.diverging
        &&& post.chunk.attrs@ == pre.chunk.attrs@
        &&& post.chunk.bank_hint == pre.chunk.bank_hint
        &&& post.pending_exprs@ == pre.pending_exprs@
        &&& post.next_label == pre.next_label
        &&& post.next_attrs@ == pre.next_attrs@
        &&& post.labels@ == pre.labels@.push((id, pre.chunk.data@.len() as usize))
        &&& post.state.0.lls.neg_heads@ == pre.state.0.lls.neg_heads@.push((count, id))
        &&& assoc(post.state.0.lls.neg_heads@, count) == Some(id)
        &&& post.state.0.lls.pos_heads == pre.state.0.lls.pos_heads
        &&& post.state.0.lls.locals == pre.state.0.lls.locals
    }

    pub open spec fn step_forward(pre: Compiler, count: u64, post: Compiler) -> bool {
        let id = post.labels@.last().0;
        &&& post.extra@ == pre.extra@
        &&& post.chunk.data@ == pre.chunk.data@
        &&& post.chunk.diverging == false
        &&& post.chunk.attrs@ == pre.chunk.attrs@
        &&& post.chunk.bank_hint == pre.chunk.bank_hint
        &&& post.pending_exprs@ == pre.pending_exprs@
        &&& post.next_label == pre.next_label
        &&& post.next_attrs@ == pre.next_attrs@
        &&& post.labels@ == pre.labels@.push((id, pre.chunk.data@.len() as usize))
        &&& (match assoc(pre.state.0.lls.pos_heads@, count) {
            Some(reserved) => id == reserved,
            None => true,
        })
        &&& assoc(post.state.0.lls.pos_heads@, count) is None
        &&& post.state.0.lls.neg_heads == pre.state.0.lls.neg_heads
        &&& post.state.0.lls.locals == pre.state.0.lls.locals
    }

    pub open spec fn step_local(pre: Compiler, depth: u64, name: String, post: Compiler) -> bool {
        let id = post.labels@.last().0;
        &&& post.extra@ == pre.extra@
        &&& post.chunk.data@ == pre.chunk.data@
        &&& post.chunk.diverging == false
        &&& post.chunk.attrs@ == pre.chunk.attrs@
        &&& post.chunk.bank_hint == pre.chunk.bank_hint
        &&& post.pending_exprs@ == pre.pending_exprs@
        &&& post.next_label == pre.next_label
        &&& post.next_attrs@ == pre.next_attrs@
        &&& post.labels@ == pre.labels@.push((id, pre.chunk.data@.len() as usize))
        &&& assoc_local(post.state.0.lls.locals_view(), depth, name@) == Some(id)
        &&& (match assoc_local(pre.state.0.lls.locals_view(), depth, name@) {
            Some(known) => id == known,
            None => true,
        })
        &&& post.state.0.lls.neg_heads == pre.state.0.lls.neg_heads
        &&& post.state.0.lls.pos_heads == pre.state.0.lls.pos_heads
    }

    pub open spec fn step_raw(pre: Compiler, data: Vec<u8>, pending: Vec<(usize, Expression)>, post: Compiler) -> bool {
        &&& post.extra@ == pre.extra@
        &&& post.chunk.data@ == pre.chunk.data@ + data@
        &&& post.chunk.diverging == true
        &&& post.chunk.attrs@ == pre.chunk.attrs@
        &&& post.chunk.bank_hint == pre.chunk.bank_hint
        &&& post.labels@ == pre.labels@
        &&& post.next_label == pre.next_label
        &&& post.next_attrs@ == pre.next_attrs@
        &&& post.pending_exprs@ == pre.pending_exprs@ + pending@.map_values(
            |p: (usize, Expression)| LabelRef {
                offset: (pre.chunk.data@.len() + p.0) as usize,
                expr: p.1,
                same_bank: false,
            },
        )
        &&& post.state == pre.state
    }

    pub open spec fn step_instruction(pre: Compiler, m: Mnemonic, declared: SizeHint, arg: Expression, post: Compiler) -> bool {
        match instr_size(m, arg.size, declared) {
            None => Compiler::emitted_error_only(pre, post, ErrorModel::Mismatch {
                label: label_view(pre.next_label),
                mnemonic: Some(m),
                operand: arg,
            }),
            Some(s) => {
                let red = reduce_node(arg.root);
                match spec_parse(red, s) {
                    Err(EncodeFault::Mismatch) => Compiler::emitted_error_only(pre, post,
                        ErrorModel::Mismatch {
                            label: label_view(pre.next_label),
                            mnemonic: Some(m),
                            operand: arg,
                        }),
                    Err(EncodeFault::Overflow(c)) => Compiler::emitted_error_only(pre, post,
                        ErrorModel::Overflow {
                            label: label_view(pre.next_label),
                            offset: (pre.chunk.data@.len() + 1) as usize,
                            size: s,
                            value: c,
                        }),
                    Ok(mode) => match spec_encode(m, mode) {
                        None => Compiler::emitted_error_only(pre, post, ErrorModel::Mismatch {
                            label: label_view(pre.next_label),
                            mnemonic: Some(m),
                            operand: arg,
                        }),
                        Some(bytes) => {
                            let const_only = const_only_node(arg.root)
                                || m.spec_size_hint() == SizeHint::Implicit;
                            &&& post.extra@ == pre.extra@
                            &&& post.chunk.data@ == pre.chunk.data@ + bytes
                            &&& post.chunk.diverging == (pre.chunk.diverging || m.spec_is_transfer())
                            &&& post.chunk.attrs@ == pre.chunk.attrs@
                            &&& post.chunk.bank_hint == pre.chunk.bank_hint
                            &&& post.labels@ == pre.labels@
                            &&& post.next_label == pre.next_label
                            &&& post.next_attrs@ == pre.next_attrs@
                            &&& post.pending_exprs@ == pre.pending_exprs@ + (if const_only {
                                Seq::<LabelRef>::empty()
                            } else {
                                seq![LabelRef {
                                    offset: (pre.chunk.data@.len() + 1) as usize,
                                    expr: Expression { root: arg.root, size: s },
                                    same_bank: true,
                                }]
                            })
                            &&& post.state == pre.state
                        },
                    },
                }
            },
        }
    }

    /// An error unit appended; the chunk, tables and allocator untouched.
    pub open spec fn emitted_error_only(pre: Compiler, post: Compiler, e: ErrorModel) -> bool {
        &&& Compiler::same_core(pre, post)
        &&& post.state == pre.state
        &&& Compiler::emitted(pre, post, UnitModel::Fault(e))
    }

    /// A fresh compiler whose first pending label is the synthetic root
    /// identifier for code before any explicit label.
    pub fn new() -> (r: Compiler)
        ensures
            r.wf(),
            r.extra@.len() == 0,
            r.chunk.is_fresh(),
            r.labels@.len() == 0,
            r.pending_exprs@.len() == 0,
            r.next_label is Some,
            label_view(r.next_label) == "*root"@,
            r.next_attrs@.len() == 0,
            r.state.0.lls.next_id == 1,
            r.state.0.lls.neg_heads@.len() == 0,
            r.state.0.lls.pos_heads@.len() == 0,
            r.state.0.lls.locals@.len() == 0,
    {
        Compiler {
            state: CompilerState(CompilerStateInner { lls: LocalLabelState::new() }),
            extra: Vec::new(),
            next_label: Some("*root".to_owned()),
            next_attrs: Vec::new(),
            chunk: LabeledChunk::default(),
            labels: Vec::new(),
            pending_exprs: Vec::new(),
        }
    }

    /// The pending label's name, for error context.
    fn label_clone(&self) -> (l: String)
        ensures
            l@ == label_view(self.next_label),
    {
        match &self.next_label {
            Some(l) => l.clone(),
            None => String::new(),
        }
    }

    /// Finalize the accumulating chunk: run the resolver, emit the chunk
    /// (or the resolver's fault) under the pending label with the pending
    /// attributes, and reset chunk, tables and label scope.
    fn emit_chunk(&mut self)
        requires
            old(self).wf(),
        ensures
            final(self).wf(),
            Compiler::emitted(*old(self), *final(self), Compiler::finalize_model(*old(self))),
            final(self).chunk.is_fresh(),
            final(self).labels@.len() == 0,
            final(self).pending_exprs@.len() == 0,
            final(self).next_label == old(self).next_label,
            final(self).next_attrs@.len() == 0,
            Compiler::lls_cleared(*old(self), *final(self)),
    {
        let label = self.label_clone();
        let mut done = LabeledChunk::default();
        core::mem::swap(&mut self.chunk, &mut done);
        let mut fixups: Vec<LabelRef> = Vec::new();
        core::mem::swap(&mut self.pending_exprs, &mut fixups);
        let mut attrs: Vec<Attribute> = Vec::new();
        core::mem::swap(&mut self.next_attrs, &mut attrs);
        let res = merge_labels(&mut done, &self.labels, fixups);
        self.labels.clear();
        self.state.0.lls.clear_chunk_scope();
        match res {
            Ok(()) => {
                let mut bank: Option<u8> = None;
                let mut i: usize = 0;
                proof {
                    assert(attrs@.take(0) =~= Seq::<Attribute>::empty());
                }
                while i < attrs.len()
                    invariant
                        i <= attrs@.len(),
                        bank == bank_of(attrs@.take(i as int)),
                    decreases attrs@.len() - i,
                {
                    proof {
                        assert(attrs@.take(i + 1 as int).drop_last() =~= attrs@.take(i as int));
                        assert(attrs@.take(i + 1 as int).last() == attrs@[i as int]);
                    }
                    match &attrs[i] {
                        Attribute::Bank(c) => {
                            bank = Some(*c);
                        },
                        _ => {},
                    }
                    i = i + 1;
                }
                proof {
                    assert(attrs@.take(attrs@.len() as int) =~= attrs@);
                }
                done.bank_hint = bank;
                done.attrs = attrs;
                self.extra.push(CompileData::Chunk { label, chunk: done });
                proof {
                    assert(self.extra@.drop_last() =~= old(self).extra@);
                }
            },
            Err(f) => {
                let e = match f {
                    ResolveFault::Internal { offset, size } =>
                        CompileError::InternalConsistency { label, offset, size },
                    ResolveFault::Overflow { offset, size, value } =>
                        CompileError::FieldOverflow { label, offset, size, value },
                };
                self.extra.push(CompileData::Error(e));
                proof {
                    assert(self.extra@.drop_last() =~= old(self).extra@);
                }
            },
        }
    }

    /// Feed one statement. Produced units are appended to the output
    /// queue; the driver drains the queue before feeding the next
    /// statement, so output order is the order of production.
    #[verifier::loop_isolation(false)]
    pub fn push_statement(&mut self, stmt: Statement)
        requires
            old(self).wf(),
            old(self).next_label is Some,
            (match stmt {
                Statement::RawData { ref data, ref pending_exprs } => {
                    &&& old(self).chunk.data@.len() + data@.len() <= 0x7fff_ffff_ffff_ffff
                    &&& old(self).chunk.data@.len() + data@.len() <= usize::MAX
                    &&& forall|j: int| 0 <= j < pending_exprs@.len()
                        ==> (#[trigger] pending_exprs@[j]).0 < data@.len()
                },
                Statement::Instruction { .. } => {
                    &&& old(self).chunk.data@.len() + 4 <= 0x7fff_ffff_ffff_ffff
                    &&& old(self).chunk.data@.len() + 4 <= usize::MAX
                },
                _ => true,
            }),
        ensures
            final(self).wf(),
            final(self).next_label is Some,
            (match stmt {
                Statement::Define { label, expr } =>
                    Compiler::step_define(*old(self), label, expr, *final(self)),
                Statement::TopLevelLabel { name, attrs } =>
                    Compiler::step_label(*old(self), name, attrs, *final(self)),
                Statement::BackwardAnonLabel { count } =>
                    Compiler::step_backward(*old(self), count, *final(self)),
                Statement::ForwardAnonLabel { count } =>
                    Compiler::step_forward(*old(self), count, *final(self)),
                Statement::LocalLabel { depth, name } =>
                    Compiler::step_local(*old(self), depth, name, *final(self)),
                Statement::RawData { data, pending_exprs } =>
                    Compiler::step_raw(*old(self), data, pending_exprs, *final(self)),
                Statement::Instruction { name, size, arg } =>
                    Compiler::step_instruction(*old(self), name, size, arg, *final(self)),
                Statement::SourceError { reason } =>
                    Compiler::step_source_error(*old(self), reason, *final(self)),
            }),
    {
        match stmt {
            Statement::Define { label, expr } => {
                self.extra.push(CompileData::Define { label, expr });
            },
            Statement::SourceError { reason } => {
                self.extra.push(CompileData::Error(CompileError::ParseError { reason }));
            },
            Statement::TopLevelLabel { name, attrs } => {
                self.emit_chunk();
                self.next_label = Some(name);
                self.next_attrs = attrs;
            },
            Statement::BackwardAnonLabel { count } => {
                let id = self.state.0.lls.incr_neg_id(count);
                let off = self.chunk.data.len();
                self.labels.push((id, off));
            },
            Statement::ForwardAnonLabel { count } => {
                let id = self.state.0.lls.incr_pos_id(count);
                let off = self.chunk.data.len();
                self.labels.push((id, off));
                self.chunk.diverging = false;
            },
            Statement::LocalLabel { depth, name } => {
                let id = self.state.0.lls.push_local(depth, name);
                let off = self.chunk.data.len();
                self.labels.push((id, off));
                self.chunk.diverging = false;
            },
            Statement::RawData { data, pending_exprs } => {
                let mut data = data;
                self.chunk.diverging = true;
                let base = self.chunk.data.len();
                let ghost f = |p: (usize, Expression)| LabelRef {
                    offset: (base + p.0) as usize,
                    expr: p.1,
                    same_bank: false,
                };
                let ghost pre_pending = self.pending_exprs@;
                let mut i: usize = 0;
                proof {
                    assert(pending_exprs@.take(0).map_values(f) =~= Seq::<LabelRef>::empty());
                    assert(pre_pending + pending_exprs@.take(0).map_values(f) =~= pre_pending);
                }
                while i < pending_exprs.len()
                    invariant
                        i <= pending_exprs@.len(),
                        forall|j: int| 0 <= j < pending_exprs@.len()
                            ==> (#[trigger] pending_exprs@[j]).0 < data@.len(),
                        base + data@.len() <= usize::MAX,
                        base == old(self).chunk.data@.len(),
                        pre_pending == old(self).pending_exprs@,
                        self.state == old(self).state,
                        self.extra@ == old(self).extra@,
                        self.labels@ == old(self).labels@,
                        self.next_label == old(self).next_label,
                        self.next_attrs@ == old(self).next_attrs@,
                        self.chunk.data@ == old(self).chunk.data@,
                        self.chunk.attrs@ == old(self).chunk.attrs@,
                        self.chunk.bank_hint == old(self).chunk.bank_hint,
                        self.chunk.pending_exprs@ == old(self).chunk.pending_exprs@,
                        self.chunk.diverging == true,
                        self.pending_exprs@ == pre_pending + pending_exprs@.take(i as int).map_values(f),
                        f == (|p: (usize, Expression)| LabelRef {
                            offset: (base + p.0) as usize,
                            expr: p.1,
                            same_bank: false,
                        }),
                    decreases pending_exprs@.len() - i,
                {
                    let off = pending_exprs[i].0;
                    let e = pending_exprs[i].1.duplicate();
                    self.pending_exprs.push(LabelRef {
                        offset: base + off,
                        expr: e,
                        same_bank: false,
                    });
                    proof {
                        assert(pending_exprs@.take(i + 1 as int).map_values(f)
                            =~= pending_exprs@.take(i as int).map_values(f).push(
                                f(pending_exprs@[i as int])));
                        assert(self.pending_exprs@
                            =~= pre_pending + pending_exprs@.take(i + 1 as int).map_values(f));
                    }
                    i = i + 1;
                }
                proof {
                    assert(pending_exprs@.take(pending_exprs@.len() as int) =~= pending_exprs@);
                }
                self.chunk.data.append(&mut data);
                proof {
                    assert forall|j: int| 0 <= j < self.pending_exprs@.len()
                        implies (#[trigger] self.pending_exprs@[j]).offset
                            < self.chunk.data@.len() by {
                        if j >= pre_pending.len() {
                            let k = j - pre_pending.len();
                            assert(self.pending_exprs@[j]
                                == pending_exprs@.map_values(f)[k]);
                            assert(pending_exprs@.map_values(f)[k]
                                == f(pending_exprs@[k]));
                        }
                    }
                    let g = |p: (usize, Expression)| LabelRef {
                        offset: (old(self).chunk.data@.len() + p.0) as usize,
                        expr: p.1,
                        same_bank: false,
                    };
                    assert forall|k: int| 0 <= k < pending_exprs@.len()
                        implies pending_exprs@.map_values(f)[k]
                            == pending_exprs@.map_values(g)[k] by {
                        assert(pending_exprs@.map_values(f)[k] == f(pending_exprs@[k]));
                        assert(pending_exprs@.map_values(g)[k] == g(pending_exprs@[k]));
                    }
                    assert(pending_exprs@.map_values(f) =~= pending_exprs@.map_values(g));
                }
            },
            Statement::Instruction { name, size, arg } => {
                let hint = name.size_hint();
                let s_opt = match hint.and_then(arg.size) {
                    None => None,
                    Some(s1) => s1.and_then(size),
                };
                match s_opt {
                    None => {
                        let label = self.label_clone();
                        self.extra.push(CompileData::Error(CompileError::AddressingModeMismatch {
                            label,
                            mnemonic: Some(name),
                            operand: arg,
                        }));
                        proof {
                            assert(self.extra@.drop_last() =~= old(self).extra@);
                        }
                    },
                    Some(s) => {
                        let const_only = arg.root.is_const_only()
                            || matches!(hint, SizeHint::Implicit);
                        let red = arg.root.duplicate().reduce();
                        match parse_mode(&red, s) {
                            Err(EncodeFault::Mismatch) => {
                                let label = self.label_clone();
                                self.extra.push(CompileData::Error(
                                    CompileError::AddressingModeMismatch {
                                        label,
                                        mnemonic: Some(name),
                                        operand: arg,
                                    },
                                ));
                                proof {
                                    assert(self.extra@.drop_last() =~= old(self).extra@);
                                }
                            },
                            Err(EncodeFault::Overflow(c)) => {
                                let label = self.label_clone();
                                let off = self.chunk.data.len() + 1;
                                self.extra.push(CompileData::Error(CompileError::FieldOverflow {
                                    label,
                                    offset: off,
                                    size: s,
                                    value: c,
                                }));
                                proof {
                                    assert(self.extra@.drop_last() =~= old(self).extra@);
                                }
                            },
                            Ok(mode) => {
                                match encode(name, mode) {
                                    None => {
                                        let label = self.label_clone();
                                        self.extra.push(CompileData::Error(
                                            CompileError::AddressingModeMismatch {
                                                label,
                                                mnemonic: Some(name),
                                                operand: arg,
                                            },
                                        ));
                                        proof {
                                            assert(self.extra@.drop_last()
                                                =~= old(self).extra@);
                                        }
                                    },
                                    Some(bytes) => {
                                        let mut bytes = bytes;
                                        proof {
                                            if !(const_only_node(arg.root)
                                                || name.spec_size_hint() == SizeHint::Implicit) {
                                                assert(s != SizeHint::Implicit);
                                                assert(bytes@.len() >= 2);
                                            }
                                        }
                                        let off = self.chunk.data.len() + 1;
                                        if !const_only {
                                            self.pending_exprs.push(LabelRef {
                                                offset: off,
                                                expr: Expression { root: arg.root, size: s },
                                                same_bank: true,
                                            });
                                            proof {
                                                assert(self.pending_exprs@
                                                    =~= old(self).pending_exprs@
                                                        + seq![self.pending_exprs@.last()]);
                                            }
                                        }
                                        self.chunk.data.append(&mut bytes);
                                        if name.is_transfer() {
                                            self.chunk.diverging = true;
                                        }
                                        proof {
                                            if const_only_node(arg.root)
                                                || name.spec_size_hint() == SizeHint::Implicit {
                                                assert(self.pending_exprs@
                                                    =~= old(self).pending_exprs@
                                                        + Seq::<LabelRef>::empty());
                                            }
                                        }
                                    },
                                }
                            },
                        }
                    },
                }
            },
        }
    }

    /// Close the statement stream: finalize and emit the last open chunk.
    /// Once closed, further calls change nothing (idempotent termination).
    pub fn end_of_stream(&mut self)
        requires
            old(self).wf(),
        ensures
            final(self).wf(),
            final(self).next_label is None,
            (match old(self).next_label {
                Some(_) => Compiler::emitted(*old(self), *final(self),
                    Compiler::finalize_model(*old(self)))
                    && final(self).chunk.is_fresh()
                    && final(self).labels@.len() == 0
                    && final(self).pending_exprs@.len() == 0
                    && final(self).next_attrs@.len() == 0
                    && Compiler::lls_cleared(*old(self), *final(self)),
                None => *final(self) == *old(self),
            }),
    {
        if self.next_label.is_some() {
            self.emit_chunk();
            self.next_label = None;
        }
    }

    /// Pop the oldest queued unit, first produced first returned.
    pub fn take_output(&mut self) -> (r: Option<CompileData>)
        ensures
            old(self).extra@.len() == 0 ==> r is None && *final(self) == *old(self),
            old(self).extra@.len() > 0 ==> (match r {
                Some(u) => u == old(self).extra@[0]
                    && final(self).extra@ == old(self).extra@.skip(1)
                    && Compiler::same_core(*old(self), *final(self))
                    && final(self).state == old(self).state,
                None => false,
            }),
    {
        if self.extra.len() > 0 {
            let u = self.extra.remove(0);
            proof {
                assert(self.extra@ =~= old(self).extra@.skip(1));
            }
            Some(u)
        } else {
            None
        }
    }

    /// Identity a backward anonymous reference resolves to, for the
    /// statement source building reference expressions in lockstep.
    pub fn backward_ref(&mut self, count: u64) -> (r: ExprNode)
        ensures
            Compiler::same_core(*old(self), *final(self)),
            final(self).extra@ == old(self).extra@,
            final(self).state.0.lls.neg_heads == old(self).state.0.lls.neg_heads,
            final(self).state.0.lls.pos_heads == old(self).state.0.lls.pos_heads,
            final(self).state.0.lls.locals == old(self).state.0.lls.locals,
            r is LabelId,
            (match assoc(old(self).state.0.lls.neg_heads@, count) {
                Some(head) => r == ExprNode::LabelId(head),
                None => true,
            }),
    {
        ExprNode::LabelId(self.state.0.lls.neg_ref_id(count))
    }

    /// Identity a forward anonymous reference resolves to.
    pub fn forward_ref(&mut self, count: u64) -> (r: ExprNode)
        ensures
            Compiler::same_core(*old(self), *final(self)),
            final(self).extra@ == old(self).extra@,
            final(self).state.0.lls.neg_heads == old(self).state.0.lls.neg_heads,
            final(self).state.0.lls.locals == old(self).state.0.lls.locals,
            r is LabelId,
            (match r {
                ExprNode::LabelId(id) =>
                    assoc(final(self).state.0.lls.pos_heads@, count) == Some(id),
                _ => false,
            }),
    {
        ExprNode::LabelId(self.state.0.lls.pos_ref_id(count))
    }

    /// Identity a named local reference at `depth` resolves to.
    pub fn local_ref(&mut self, depth: u64, name: String) -> (r: ExprNode)
        ensures
            Compiler::same_core(*old(self), *final(self)),
            final(self).extra@ == old(self).extra@,
            final(self).state.0.lls.neg_heads == old(self).state.0.lls.neg_heads,
            final(self).state.0.lls.pos_heads == old(self).state.0.lls.pos_heads,
            r is LabelId,
            (match r {
                ExprNode::LabelId(id) => assoc_local(
                    final(self).state.0.lls.locals_view(), depth, name@) == Some(id),
                _ => false,
            }),
    {
        ExprNode::LabelId(self.state.0.lls.push_local(depth, name))
    }
}

/// Crossing two adjacent top-level labels with no intervening statements
/// yields a chunk with empty bytes and no fixups: after a boundary the
/// accumulating chunk is fresh, and finalizing a fresh chunk emits an
/// empty one.
pub proof fn lemma_adjacent_labels_empty(pre: Compiler)
    requires
        pre.chunk.is_fresh(),
        pre.labels@.len() == 0,
        pre.pending_exprs@.len() == 0,
    ensures
        (match Compiler::finalize_model(pre) {
            UnitModel::Chunk { label, chunk } => chunk.data.len() == 0 && chunk.fixups.len() == 0,
            _ => false,
        }),
{
}

/// Two compilers whose observable state agrees produce the same finalized
/// unit: resolution and emission depend on the statement history alone,
/// never on an internal iteration order.
pub proof fn lemma_finalize_deterministic(a: Compiler, b: Compiler)
    requires
        a.chunk.data@ == b.chunk.data@,
        a.chunk.diverging == b.chunk.diverging,
        a.labels@ == b.labels@,
        a.pending_exprs@ == b.pending_exprs@,
        label_view(a.next_label) == label_view(b.next_label),
        a.next_attrs@.map_values(|t: Attribute| attr_model(t))
            == b.next_attrs@.map_values(|t: Attribute| attr_model(t)),
    ensures
        Compiler::finalize_model(a) == Compiler::finalize_model(b),
{
    lemma_bank_of_model(a.next_attrs@, b.next_attrs@);
}

/// Attribute sets that agree observationally pin the same bank.
proof fn lemma_bank_of_model(a: Seq<Attribute>, b: Seq<Attribute>)
    requires
        a.map_values(|t: Attribute| attr_model(t)) == b.map_values(|t: Attribute| attr_model(t)),
    ensures
        bank_of(a) == bank_of(b),
{
    let f = |t: Attribute| attr_model(t);
    assert(a.map_values(f).len() == b.map_values(f).len());
    assert forall|i: int| 0 <= i < a.len() implies attr_model(a[i]) == attr_model(b[i]) by {
        assert(a.map_values(f)[i] == f(a[i]));
        assert(b.map_values(f)[i] == f(b[i]));
    }
    lemma_bank_of_pointwise(a, b);
}

/// Pointwise observational agreement pins the same bank.
proof fn lemma_bank_of_pointwise(a: Seq<Attribute>, b: Seq<Attribute>)
    requires
        a.len() == b.len(),
        forall|i: int| 0 <= i < a.len() ==> #[trigger] attr_model(a[i]) == attr_model(b[i]),
    ensures
        bank_of(a) == bank_of(b),
    decreases a.len(),
{
    if a.len() > 0 {
        assert(attr_model(a[a.len() - 1]) == attr_model(b[b.len() - 1]));
        assert(forall|i: int| 0 <= i < a.drop_last().len()
            ==> #[trigger] attr_model(a.drop_last()[i]) == attr_model(b.drop_last()[i]));
        lemma_bank_of_pointwise(a.drop_last(), b.drop_last());
    }
}

} // verus!
