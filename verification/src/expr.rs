//! Expression trees over constants, unresolved symbol identities and
//! chunk-relative resolved offsets, with leaf classification, symbol
//! substitution and constant folding.

use vstd::prelude::*;
use crate::size::SizeHint;

verus! {

/// Binary operators retained by the folder. Folding uses wrapping 64-bit
/// arithmetic.
#[derive(Clone, Copy, Debug, PartialEq, Eq, Structural)]
pub enum BinOp {
    Add,
    Sub,
}

/// One node of an expression tree.
#[derive(Debug, PartialEq)]
pub enum ExprNode {
    /// No operand at all.
    Empty,
    /// A fully known integer.
    Constant(i64),
    /// An unresolved symbol, named by an allocator-minted identity.
    LabelId(u64),
    /// A byte offset within the current chunk (known locally, but not a
    /// final address).
    LabelOffset(i64),
    /// An operator over two subtrees.
    Bin(BinOp, Box<ExprNode>, Box<ExprNode>),
}

/// An expression together with its declared operand size.
#[derive(Debug, PartialEq)]
pub struct Expression {
    pub root: ExprNode,
    pub size: SizeHint,
}

/// Offsets recorded in a label table fit in an `i64`, so substitution can
/// turn them into `LabelOffset` nodes.
pub open spec fn labels_wf(labels: Seq<(u64, usize)>) -> bool {
    forall|i: int| 0 <= i < labels.len() ==> #[trigger] labels[i].1 <= i64::MAX
}

/// Chunk-local label lookup: the most recently inserted binding for `id`
/// wins.
pub open spec fn lookup(labels: Seq<(u64, usize)>, id: u64) -> Option<usize>
    decreases labels.len(),
{
    if labels.len() == 0 {
        None
    } else if labels.last().0 == id {
        Some(labels.last().1)
    } else {
        lookup(labels.drop_last(), id)
    }
}

/// Every leaf is a constant or empty, so the operand needs no fixup.
pub open spec fn const_only_node(n: ExprNode) -> bool
    decreases n,
{
    match n {
        ExprNode::Empty => true,
        ExprNode::Constant(_) => true,
        ExprNode::LabelId(_) => false,
        ExprNode::LabelOffset(_) => false,
        ExprNode::Bin(_, l, r) => const_only_node(*l) && const_only_node(*r),
    }
}

/// Replace every `LabelId` leaf whose identity is bound in `labels` by a
/// `LabelOffset` node carrying that byte offset; other leaves stay as they
/// are.
pub open spec fn subst_node(n: ExprNode, labels: Seq<(u64, usize)>) -> ExprNode
    decreases n,
{
    match n {
        ExprNode::LabelId(id) => match lookup(labels, id) {
            Some(k) => ExprNode::LabelOffset(k as i64),
            None => ExprNode::LabelId(id),
        },
        ExprNode::Bin(op, l, r) => ExprNode::Bin(
            op,
            Box::new(subst_node(*l, labels)),
            Box::new(subst_node(*r, labels)),
        ),
        other => other,
    }
}

/// Fold a pair of reduced subtrees under `op`. Constants fold with wrapping
/// 64-bit arithmetic; an offset shifted by a constant stays an offset; the
/// difference of two offsets within one chunk is a plain constant.
pub open spec fn fold_bin(op: BinOp, l: ExprNode, r: ExprNode) -> ExprNode {
    match (l, r) {
        (ExprNode::Constant(a), ExprNode::Constant(b)) => match op {
            BinOp::Add => ExprNode::Constant(a.wrapping_add(b)),
            BinOp::Sub => ExprNode::Constant(a.wrapping_sub(b)),
        },
        (ExprNode::LabelOffset(a), ExprNode::Constant(b)) => match op {
            BinOp::Add => ExprNode::LabelOffset(a.wrapping_add(b)),
            BinOp::Sub => ExprNode::LabelOffset(a.wrapping_sub(b)),
        },
        (ExprNode::Constant(a), ExprNode::LabelOffset(b)) => match op {
            BinOp::Add => ExprNode::LabelOffset(a.wrapping_add(b)),
            BinOp::Sub => ExprNode::Bin(
                op,
                Box::new(ExprNode::Constant(a)),
                Box::new(ExprNode::LabelOffset(b)),
            ),
        },
        (ExprNode::LabelOffset(a), ExprNode::LabelOffset(b)) => match op {
            BinOp::Add => ExprNode::Bin(
                op,
                Box::new(ExprNode::LabelOffset(a)),
                Box::new(ExprNode::LabelOffset(b)),
            ),
            BinOp::Sub => ExprNode::Constant(a.wrapping_sub(b)),
        },
        (l2, r2) => ExprNode::Bin(op, Box::new(l2), Box::new(r2)),
    }
}

/// Constant folding: reduce an expression to the simplest possible root
/// node.
pub open spec fn reduce_node(n: ExprNode) -> ExprNode
    decreases n,
{
    match n {
        ExprNode::Bin(op, l, r) => fold_bin(op, reduce_node(*l), reduce_node(*r)),
        other => other,
    }
}

impl ExprNode {
    /// A structural copy of the tree.
    pub fn duplicate(&self) -> (r: ExprNode)
        ensures
            r == *self,
        decreases *self,
    {
        match self {
            ExprNode::Empty => ExprNode::Empty,
            ExprNode::Constant(c) => ExprNode::Constant(*c),
            ExprNode::LabelId(id) => ExprNode::LabelId(*id),
            ExprNode::LabelOffset(k) => ExprNode::LabelOffset(*k),
            ExprNode::Bin(op, l, r) => ExprNode::Bin(
                *op,
                Box::new(l.duplicate()),
                Box::new(r.duplicate()),
            ),
        }
    }

    /// True when every leaf is a constant or empty.
    pub fn is_const_only(&self) -> (b: bool)
        ensures
            b == const_only_node(*self),
        decreases *self,
    {
        match self {
            ExprNode::Empty => true,
            ExprNode::Constant(_) => true,
            ExprNode::LabelId(_) => false,
            ExprNode::LabelOffset(_) => false,
            ExprNode::Bin(_, l, r) => {
                let bl = l.is_const_only();
                let br = r.is_const_only();
                bl && br
            },
        }
    }

    /// Substitute locally known label identities by their chunk offsets.
    pub fn substitute(self, labels: &Vec<(u64, usize)>) -> (r: ExprNode)
        requires
            labels_wf(labels@),
        ensures
            r == subst_node(self, labels@),
        decreases self,
    {
        match self {
            ExprNode::LabelId(id) => match lookup_label(labels, id) {
                Some(k) => ExprNode::LabelOffset(k as i64),
                None => ExprNode::LabelId(id),
            },
            ExprNode::Bin(op, l, r) => ExprNode::Bin(
                op,
                Box::new((*l).substitute(labels)),
                Box::new((*r).substitute(labels)),
            ),
            other => other,
        }
    }

    /// Fold the tree to its simplest root.
    pub fn reduce(self) -> (r: ExprNode)
        ensures
            r == reduce_node(self),
        decreases self,
    {
        match self {
            ExprNode::Bin(op, l, r) => {
                let rl = (*l).reduce();
                let rr = (*r).reduce();
                match (rl, rr) {
                    (ExprNode::Constant(a), ExprNode::Constant(b)) => match op {
                        BinOp::Add => ExprNode::Constant(a.wrapping_add(b)),
                        BinOp::Sub => ExprNode::Constant(a.wrapping_sub(b)),
                    },
                    (ExprNode::LabelOffset(a), ExprNode::Constant(b)) => match op {
                        BinOp::Add => ExprNode::LabelOffset(a.wrapping_add(b)),
                        BinOp::Sub => ExprNode::LabelOffset(a.wrapping_sub(b)),
                    },
                    (ExprNode::Constant(a), ExprNode::LabelOffset(b)) => match op {
                        BinOp::Add => ExprNode::LabelOffset(a.wrapping_add(b)),
                        BinOp::Sub => ExprNode::Bin(
                            op,
                            Box::new(ExprNode::Constant(a)),
                            Box::new(ExprNode::LabelOffset(b)),
                        ),
                    },
                    (ExprNode::LabelOffset(a), ExprNode::LabelOffset(b)) => match op {
                        BinOp::Add => ExprNode::Bin(
                            op,
                            Box::new(ExprNode::LabelOffset(a)),
                            Box::new(ExprNode::LabelOffset(b)),
                        ),
                        BinOp::Sub => ExprNode::Constant(a.wrapping_sub(b)),
                    },
                    (l2, r2) => ExprNode::Bin(op, Box::new(l2), Box::new(r2)),
                }
            },
            other => other,
        }
    }
}

impl Expression {
    /// A structural copy.
    pub fn duplicate(&self) -> (r: Expression)
        ensures
            r == *self,
    {
        Expression { root: self.root.duplicate(), size: self.size }
    }
}

/// The most recently inserted binding for `id` in the chunk-local label
/// table, if any.
pub fn lookup_label(labels: &Vec<(u64, usize)>, id: u64) -> (r: Option<usize>)
    ensures
        r == lookup(labels@, id),
{
    let mut i: usize = labels.len();
    proof {
        assert(labels@.take(labels@.len() as int) =~= labels@);
    }
    while i > 0
        invariant
            i <= labels@.len(),
            lookup(labels@, id) == lookup(labels@.take(i as int), id),
        decreases i,
    {
        i = i - 1;
        let (k, v) = labels[i];
        proof {
            assert(labels@.take(i + 1 as int).drop_last() =~= labels@.take(i as int));
            assert(labels@.take(i + 1 as int).last() == labels@[i as int]);
        }
        if k == id {
            return Some(v);
        }
    }
    proof {
        assert(labels@.take(0) =~= Seq::<(u64, usize)>::empty());
    }
    None
}

} // verus!
