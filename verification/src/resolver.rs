//! The fixup resolver: substitutes locally known symbols into queued
//! fixups, folds each expression, and either patches the chunk's bytes,
//! drops the fixup, carries it forward for the linker, or reports a fault.

use vstd::prelude::*;
use crate::expr::{ExprNode, Expression, labels_wf, lookup, subst_node, reduce_node};
use crate::size::SizeHint;
use crate::encoder::{pow256, two_comp, fits_absolute, fits_relative};
use crate::chunk::{LabelRef, LabeledChunk};

verus! {

/// A failure during fixup resolution, without the chunk label (the chunk
/// compiler adds it when surfacing the fault as an error unit).
#[derive(Clone, Copy, Debug, PartialEq, Eq, Structural)]
pub enum ResolveFault {
    /// A relative size paired with a plain constant, a patch outside the
    /// chunk, or a width without a patchable field.
    Internal { offset: usize, size: SizeHint },
    /// The resolved value does not fit the field width.
    Overflow { offset: usize, size: SizeHint, value: i64 },
}

/// Little-endian bytes of `v` in `w` bytes, for `v` in `[0, 256^w)` and
/// `w` in 1..=3.
pub open spec fn le_bytes(v: int, w: nat) -> Seq<u8> {
    if w == 1 {
        seq![(v % 0x100) as u8]
    } else if w == 2 {
        seq![(v % 0x100) as u8, ((v / 0x100) % 0x100) as u8]
    } else if w == 3 {
        seq![(v % 0x100) as u8, ((v / 0x100) % 0x100) as u8, ((v / 0x1_0000) % 0x100) as u8]
    } else {
        Seq::<u8>::empty()
    }
}

/// `data` with `bytes` written at `off`, everything else untouched.
pub open spec fn patch_at(data: Seq<u8>, off: int, bytes: Seq<u8>) -> Seq<u8> {
    data.take(off) + bytes + data.skip(off + bytes.len())
}

/// Resolve one fixup against a chunk's bytes and its local label table.
///
/// The fixup's expression, substituted and reduced, dictates the outcome:
/// an `empty` root drops the fixup without touching the placeholder bytes;
/// a constant root is patched at the fixup's offset with the width its size
/// names (a relative or implicit size paired with a constant is an internal
/// fault); a resolved-offset root with a relative size is patched as the
/// signed displacement from the byte after the operand, overflow reported;
/// everything else is carried forward, substituted and reduced, for the
/// linker.
pub open spec fn resolve_one(data: Seq<u8>, labels: Seq<(u64, usize)>, r: LabelRef)
    -> Result<(Seq<u8>, Option<LabelRef>), ResolveFault>
{
    let root = reduce_node(subst_node(r.expr.root, labels));
    let s = r.expr.size;
    match root {
        ExprNode::Empty => Ok((data, None)),
        ExprNode::Constant(c) => {
            if s.is_absolute() {
                let w = s.spec_width();
                if !fits_absolute(c as int, w) {
                    Err(ResolveFault::Overflow { offset: r.offset, size: s, value: c })
                } else if r.offset + w > data.len() {
                    Err(ResolveFault::Internal { offset: r.offset, size: s })
                } else {
                    Ok((patch_at(data, r.offset as int, le_bytes(two_comp(c as int, w), w)), None))
                }
            } else {
                Err(ResolveFault::Internal { offset: r.offset, size: s })
            }
        },
        ExprNode::LabelOffset(c) => {
            if s.is_relative() {
                let w = s.spec_width();
                let d = c - r.offset - 1;
                if !fits_relative(d, w) {
                    Err(ResolveFault::Overflow { offset: r.offset, size: s, value: c })
                } else if r.offset + w > data.len() {
                    Err(ResolveFault::Internal { offset: r.offset, size: s })
                } else {
                    Ok((patch_at(data, r.offset as int, le_bytes(two_comp(d, w), w)), None))
                }
            } else {
                Ok((data, Some(LabelRef {
                    offset: r.offset,
                    expr: Expression { root: ExprNode::LabelOffset(c), size: s },
                    same_bank: r.same_bank,
                })))
            }
        },
        other => Ok((data, Some(LabelRef {
            offset: r.offset,
            expr: Expression { root: other, size: s },
            same_bank: r.same_bank,
        }))),
    }
}

/// Resolve a queue of fixups in order; the first fault wins.
pub open spec fn resolve_seq(data: Seq<u8>, labels: Seq<(u64, usize)>, fixups: Seq<LabelRef>)
    -> Result<(Seq<u8>, Seq<LabelRef>), ResolveFault>
    decreases fixups.len(),
{
    if fixups.len() == 0 {
        Ok((data, Seq::<LabelRef>::empty()))
    } else {
        match resolve_one(data, labels, fixups[0]) {
            Err(f) => Err(f),
            Ok((d2, kept)) => match resolve_seq(d2, labels, fixups.skip(1)) {
                Err(f) => Err(f),
                Ok((d3, rest)) => {
                    let head = match kept {
                        Some(k) => seq![k],
                        None => Seq::<LabelRef>::empty(),
                    };
                    Ok((d3, head + rest))
                },
            },
        }
    }
}

/// A backward local label defined at chunk offset `k`, referenced by a
/// fixup at offset `u` with RelByte size, patches to the signed byte value
/// `k - u - 1` (the displacement from the byte following the operand) when
/// that displacement lies in `[-128, 127]`; a displacement outside that
/// range is a field-overflow fault, never a silent truncation.
pub proof fn lemma_rel_byte_displacement(
    data: Seq<u8>,
    labels: Seq<(u64, usize)>,
    id: u64,
    k: usize,
    u: usize,
    same_bank: bool,
)
    requires
        lookup(labels, id) == Some(k),
        k <= 0x7fff_ffff_ffff_ffff,
        u + 1 <= data.len(),
    ensures
        ({
            let fx = LabelRef {
                offset: u,
                expr: Expression { root: ExprNode::LabelId(id), size: SizeHint::RelByte },
                same_bank,
            };
            let d = k - u - 1;
            if -128 <= d < 128 {
                resolve_one(data, labels, fx) == Ok::<(Seq<u8>, Option<LabelRef>), ResolveFault>(
                    (patch_at(data, u as int, seq![(d % 256) as u8]), None))
            } else {
                resolve_one(data, labels, fx) == Err::<(Seq<u8>, Option<LabelRef>), ResolveFault>(
                    ResolveFault::Overflow { offset: u, size: SizeHint::RelByte, value: k as i64 })
            }
        }),
{
    let fx = LabelRef {
        offset: u,
        expr: Expression { root: ExprNode::LabelId(id), size: SizeHint::RelByte },
        same_bank,
    };
    assert(subst_node(fx.expr.root, labels) == ExprNode::LabelOffset(k as i64));
    assert(reduce_node(ExprNode::LabelOffset(k as i64)) == ExprNode::LabelOffset(k as i64));
}

/// A fixup whose substituted, reduced expression is `empty` is dropped,
/// and the pre-existing placeholder bytes at its offset stay unmodified.
pub proof fn lemma_empty_fixup_keeps_bytes(data: Seq<u8>, labels: Seq<(u64, usize)>, fx: LabelRef)
    requires
        reduce_node(subst_node(fx.expr.root, labels)) == ExprNode::Empty,
    ensures
        resolve_one(data, labels, fx) == Ok::<(Seq<u8>, Option<LabelRef>), ResolveFault>(
            (data, None)),
{
}

/// Resolution never changes a chunk's byte length, and every fixup it
/// carries forward still points inside the chunk: an emitted chunk's
/// outgoing fixups lie within its final bytes.
pub proof fn lemma_resolve_preserves_extent(
    data: Seq<u8>,
    labels: Seq<(u64, usize)>,
    fixups: Seq<LabelRef>,
)
    requires
        forall|j: int| 0 <= j < fixups.len() ==> (#[trigger] fixups[j]).offset < data.len(),
    ensures
        (match resolve_seq(data, labels, fixups) {
            Ok(dk) => dk.0.len() == data.len()
                && forall|j: int| 0 <= j < dk.1.len()
                    ==> (#[trigger] dk.1[j]).offset < dk.0.len(),
            Err(_) => true,
        }),
    decreases fixups.len(),
{
    if fixups.len() > 0 {
        match resolve_one(data, labels, fixups[0]) {
            Err(_) => {},
            Ok(dkept) => {
                let d2 = dkept.0;
                assert(d2.len() == data.len());
                assert(forall|j: int| 0 <= j < fixups.skip(1).len()
                    ==> (#[trigger] fixups.skip(1)[j]).offset < d2.len());
                lemma_resolve_preserves_extent(d2, labels, fixups.skip(1));
                match resolve_seq(d2, labels, fixups.skip(1)) {
                    Err(_) => {},
                    Ok(dk) => {
                        match dkept.1 {
                            None => {},
                            Some(k) => {
                                assert(k.offset == fixups[0].offset);
                                assert((seq![k] + dk.1)[0] == k);
                                assert(forall|j: int| 1 <= j < (seq![k] + dk.1).len()
                                    ==> (seq![k] + dk.1)[j] == dk.1[j - 1]);
                            },
                        }
                    },
                }
            },
        }
    }
}

/// Write `bytes` over `data` starting at `off`.
fn patch_bytes(data: &mut Vec<u8>, off: usize, bytes: &Vec<u8>)
    requires
        off + bytes@.len() <= old(data)@.len(),
    ensures
        final(data)@ == patch_at(old(data)@, off as int, bytes@),
{
    let mut j: usize = 0;
    let dlen = data.len();
    while j < bytes.len()
        invariant
            j <= bytes@.len(),
            dlen == data@.len(),
            off + bytes@.len() <= data@.len(),
            data@.len() == old(data)@.len(),
            forall|k: int| 0 <= k < j ==> data@[off + k] == bytes@[k],
            forall|k: int| 0 <= k < data@.len() && !(off <= k < off + j)
                ==> data@[k] == old(data)@[k],
        decreases bytes@.len() - j,
    {
        data.set(off + j, bytes[j]);
        j = j + 1;
    }
    proof {
        assert(data@ =~= patch_at(old(data)@, off as int, bytes@));
    }
}

/// Little-endian encoding of `n` in `w` bytes.
fn le_encode(n: u64, w: usize) -> (r: Vec<u8>)
    requires
        1 <= w <= 3,
        n < pow256(w as nat),
    ensures
        r@ == le_bytes(n as int, w as nat),
        r@.len() == w,
{
    let mut r: Vec<u8> = Vec::new();
    r.push((n % 0x100) as u8);
    if w >= 2 {
        r.push(((n / 0x100) % 0x100) as u8);
    }
    if w == 3 {
        r.push(((n / 0x1_0000) % 0x100) as u8);
    }
    proof {
        assert(r@ =~= le_bytes(n as int, w as nat));
    }
    r
}

/// Two's-complement representation of `c` in `w` bytes, for `c` within
/// the union of the signed and unsigned ranges of that width.
fn norm_val(c: i64, w: usize) -> (n: u64)
    requires
        1 <= w <= 3,
        -(pow256(w as nat) / 2) <= c < pow256(w as nat),
    ensures
        n == two_comp(c as int, w as nat),
        n < pow256(w as nat),
{
    if w == 1 {
        if c >= 0 { c as u64 } else { (c + 0x100) as u64 }
    } else if w == 2 {
        if c >= 0 { c as u64 } else { (c + 0x1_0000) as u64 }
    } else {
        if c >= 0 { c as u64 } else { (c + 0x100_0000) as u64 }
    }
}

/// Run the resolver over a chunk: patch what can be finished, keep the
/// rest as the chunk's outgoing fixups. On a fault the chunk's bytes are
/// left partially patched and the caller discards them.
pub fn merge_labels(chunk: &mut LabeledChunk, labels: &Vec<(u64, usize)>, pending_exprs: Vec<LabelRef>)
    -> (r: Result<(), ResolveFault>)
    requires
        labels_wf(labels@),
    ensures
        (match resolve_seq(old(chunk).data@, labels@, pending_exprs@) {
            Ok((d, keep)) => r is Ok
                && final(chunk).data@ == d
                && final(chunk).pending_exprs@ == keep
                && final(chunk).attrs == old(chunk).attrs
                && final(chunk).diverging == old(chunk).diverging
                && final(chunk).bank_hint == old(chunk).bank_hint,
            Err(f) => r == Err::<(), ResolveFault>(f),
        }),
{
    let ghost data0 = chunk.data@;
    let mut keep: Vec<LabelRef> = Vec::new();
    let mut i: usize = 0;
    proof {
        assert(pending_exprs@.skip(0) =~= pending_exprs@);
    }
    while i < pending_exprs.len()
        invariant
            labels_wf(labels@),
            i <= pending_exprs@.len(),
            data0 == old(chunk).data@,
            chunk.attrs == old(chunk).attrs,
            chunk.diverging == old(chunk).diverging,
            chunk.bank_hint == old(chunk).bank_hint,
            resolve_seq(data0, labels@, pending_exprs@) == (match resolve_seq(
                chunk.data@, labels@, pending_exprs@.skip(i as int)) {
                Ok((d, k)) => Ok::<(Seq<u8>, Seq<LabelRef>), ResolveFault>((d, keep@ + k)),
                Err(f) => Err::<(Seq<u8>, Seq<LabelRef>), ResolveFault>(f),
            }),
        decreases pending_exprs@.len() - i,
    {
        let fx = &pending_exprs[i];
        let offset = fx.offset;
        let s = fx.expr.size;
        let same_bank = fx.same_bank;
        let root = fx.expr.root.duplicate().substitute(labels).reduce();
        proof {
            assert(pending_exprs@.skip(i as int)[0] == pending_exprs@[i as int]);
            assert(pending_exprs@.skip(i as int).skip(1) =~= pending_exprs@.skip(i + 1 as int));
        }
        let ghost pre_data = chunk.data@;
        let ghost pre_keep = keep@;
        let step: Result<Option<LabelRef>, ResolveFault> = match root {
            ExprNode::Empty => Ok(None),
            ExprNode::Constant(c) => {
                match s {
                    SizeHint::Byte | SizeHint::Word | SizeHint::Long => {
                        let w = s.width();
                        let fits = match s {
                            SizeHint::Byte => -0x80 <= c && c < 0x100,
                            SizeHint::Word => -0x8000 <= c && c < 0x1_0000,
                            _ => -0x80_0000 <= c && c < 0x100_0000,
                        };
                        if !fits {
                            Err(ResolveFault::Overflow { offset, size: s, value: c })
                        } else if offset > chunk.data.len() || w > chunk.data.len() - offset {
                            Err(ResolveFault::Internal { offset, size: s })
                        } else {
                            let n = norm_val(c, w);
                            let bytes = le_encode(n, w);
                            patch_bytes(&mut chunk.data, offset, &bytes);
                            Ok(None)
                        }
                    },
                    _ => Err(ResolveFault::Internal { offset, size: s }),
                }
            },
            ExprNode::LabelOffset(c) => {
                match s {
                    SizeHint::RelByte | SizeHint::RelWord => {
                        let w = s.width();
                        let d: i128 = c as i128 - offset as i128 - 1;
                        let fits = match s {
                            SizeHint::RelByte => -0x80 <= d && d < 0x80,
                            _ => -0x8000 <= d && d < 0x8000,
                        };
                        if !fits {
                            Err(ResolveFault::Overflow { offset, size: s, value: c })
                        } else if offset > chunk.data.len() || w > chunk.data.len() - offset {
                            Err(ResolveFault::Internal { offset, size: s })
                        } else {
                            let n = norm_val(d as i64, w);
                            let bytes = le_encode(n, w);
                            patch_bytes(&mut chunk.data, offset, &bytes);
                            Ok(None)
                        }
                    },
                    _ => Ok(Some(LabelRef {
                        offset,
                        expr: Expression { root: ExprNode::LabelOffset(c), size: s },
                        same_bank,
                    })),
                }
            },
            other => Ok(Some(LabelRef {
                offset,
                expr: Expression { root: other, size: s },
                same_bank,
            })),
        };
        match step {
            Err(f) => {
                proof {
                    let rest = pending_exprs@.skip(i as int);
                    assert(rest[0] == pending_exprs@[i as int]);
                    assert(resolve_one(chunk.data@, labels@, rest[0])
                        == Err::<(Seq<u8>, Option<LabelRef>), ResolveFault>(f));
                    assert(resolve_seq(chunk.data@, labels@, rest)
                        == Err::<(Seq<u8>, Seq<LabelRef>), ResolveFault>(f));
                    assert(resolve_seq(data0, labels@, pending_exprs@)
                        == Err::<(Seq<u8>, Seq<LabelRef>), ResolveFault>(f));
                }
                return Err(f);
            },
            Ok(kept) => {
                proof {
                    assert(resolve_one(pre_data, labels@, pending_exprs@[i as int])
                        == Ok::<(Seq<u8>, Option<LabelRef>), ResolveFault>((chunk.data@, kept)));
                }
                match kept {
                    Some(k) => {
                        proof {
                            assert(pre_keep.push(k) =~= pre_keep + seq![k]);
                        }
                        keep.push(k);
                    },
                    None => {},
                }
                proof {
                    if let Ok((dr, kr)) = resolve_seq(chunk.data@, labels@,
                        pending_exprs@.skip(i + 1 as int)) {
                        assert(keep@ + kr =~= pre_keep + (match kept {
                            Some(k) => seq![k],
                            None => Seq::<LabelRef>::empty(),
                        } + kr));
                    }
                }
            },
        }
        i = i + 1;
    }
    proof {
        assert(pending_exprs@.skip(pending_exprs@.len() as int)
            =~= Seq::<LabelRef>::empty());
        assert(keep@ + Seq::<LabelRef>::empty() =~= keep@);
    }
    chunk.pending_exprs = keep;
    Ok(())
}

} // verus!
