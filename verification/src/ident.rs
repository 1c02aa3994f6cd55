//! Symbol identity allocator for anonymous forward/backward local labels
//! and named depth-scoped local labels.
//!
//! Identities are minted from one monotone counter, so any two labels that
//! were allocated separately are distinct. The statement source mints
//! reference identities and the chunk compiler mints definition identities
//! against the same state, in program order, so a reference and its
//! intended definition share an identity. At every top-level chunk boundary
//! the scope is cleared: the same textual name under two different chunks
//! never aliases.

use vstd::prelude::*;

verus! {

/// Association lookup by key, later entries winning.
pub open spec fn assoc(entries: Seq<(u64, u64)>, key: u64) -> Option<u64>
    decreases entries.len(),
{
    if entries.len() == 0 {
        None
    } else if entries.last().0 == key {
        Some(entries.last().1)
    } else {
        assoc(entries.drop_last(), key)
    }
}

/// Named-local lookup by (depth, name), later entries winning.
pub open spec fn assoc_local(entries: Seq<(u64, Seq<char>, u64)>, depth: u64, name: Seq<char>) -> Option<u64>
    decreases entries.len(),
{
    if entries.len() == 0 {
        None
    } else if entries.last().0 == depth && entries.last().1 == name {
        Some(entries.last().2)
    } else {
        assoc_local(entries.drop_last(), depth, name)
    }
}

/// Shared identity-minting state for local labels.
#[derive(Debug)]
pub struct LocalLabelState {
    /// Next identity to mint; identity 0 is never handed out twice because
    /// minting starts at 1 and saturates at `u64::MAX`.
    pub next_id: u64,
    /// Per sigil count, the identity of the most recent backward
    /// definition.
    pub neg_heads: Vec<(u64, u64)>,
    /// Per sigil count, the identity reserved for the next forward
    /// definition, when some reference already asked for it.
    pub pos_heads: Vec<(u64, u64)>,
    /// Named locals of the current chunk: (depth, name, identity).
    pub locals: Vec<(u64, String, u64)>,
}

impl LocalLabelState {
    /// View of the named-local table with names as character sequences.
    pub open spec fn locals_view(self) -> Seq<(u64, Seq<char>, u64)> {
        self.locals@.map_values(|e: (u64, String, u64)| (e.0, e.1@, e.2))
    }

    pub fn new() -> (r: LocalLabelState)
        ensures
            r.next_id == 1,
            r.neg_heads@ =~= Seq::<(u64, u64)>::empty(),
            r.pos_heads@ =~= Seq::<(u64, u64)>::empty(),
            r.locals@ =~= Seq::<(u64, String, u64)>::empty(),
    {
        LocalLabelState {
            next_id: 1,
            neg_heads: Vec::new(),
            pos_heads: Vec::new(),
            locals: Vec::new(),
        }
    }

    /// Mint a fresh identity. The counter saturates at `u64::MAX`; below
    /// saturation every minted identity is distinct from all earlier ones.
    fn mint(&mut self) -> (id: u64)
        ensures
            old(self).next_id < u64::MAX ==> (id == old(self).next_id
                && final(self).next_id == old(self).next_id + 1),
            old(self).next_id == u64::MAX ==> (id == u64::MAX
                && final(self).next_id == u64::MAX),
            final(self).neg_heads == old(self).neg_heads,
            final(self).pos_heads == old(self).pos_heads,
            final(self).locals == old(self).locals,
    {
        let id = self.next_id;
        if self.next_id < u64::MAX {
            self.next_id = self.next_id + 1;
        }
        id
    }

    /// Record a new backward anonymous definition for sigil count `count`
    /// and return its identity; later backward references to `count` see
    /// it.
    pub fn incr_neg_id(&mut self, count: u64) -> (id: u64)
        ensures
            final(self).neg_heads@ == old(self).neg_heads@.push((count, id)),
            assoc(final(self).neg_heads@, count) == Some(id),
            final(self).pos_heads == old(self).pos_heads,
            final(self).locals == old(self).locals,
            old(self).next_id < u64::MAX ==> id == old(self).next_id
                && final(self).next_id == old(self).next_id + 1,
    {
        let id = self.mint();
        self.neg_heads.push((count, id));
        id
    }

    /// Identity a backward reference with sigil count `count` resolves to:
    /// the most recent backward definition, or a fresh identity (which no
    /// definition will ever match) when there is none yet.
    pub fn neg_ref_id(&mut self, count: u64) -> (id: u64)
        ensures
            final(self).neg_heads == old(self).neg_heads,
            final(self).pos_heads == old(self).pos_heads,
            final(self).locals == old(self).locals,
            (match assoc(old(self).neg_heads@, count) {
                Some(head) => id == head && *final(self) == *old(self),
                None => true,
            }),
    {
        match assoc_get(&self.neg_heads, count) {
            Some(head) => head,
            None => self.mint(),
        }
    }

    /// Record a forward anonymous definition for sigil count `count`: it
    /// takes the identity earlier forward references reserved, if any, and
    /// clears the reservation so later references wait for the next
    /// definition.
    pub fn incr_pos_id(&mut self, count: u64) -> (id: u64)
        ensures
            (match assoc(old(self).pos_heads@, count) {
                Some(head) => id == head,
                None => true,
            }),
            assoc(final(self).pos_heads@, count) is None,
            forall|c2: u64| c2 != count ==> #[trigger] assoc(final(self).pos_heads@, c2)
                == assoc(old(self).pos_heads@, c2),
            final(self).neg_heads == old(self).neg_heads,
            final(self).locals == old(self).locals,
    {
        let pending = assoc_get(&self.pos_heads, count);
        assoc_del(&mut self.pos_heads, count);
        match pending {
            Some(head) => head,
            None => self.mint(),
        }
    }

    /// Identity a forward reference with sigil count `count` resolves to:
    /// the reservation for the next forward definition, minted now if no
    /// earlier reference made one.
    pub fn pos_ref_id(&mut self, count: u64) -> (id: u64)
        ensures
            assoc(final(self).pos_heads@, count) == Some(id),
            (match assoc(old(self).pos_heads@, count) {
                Some(head) => id == head && *final(self) == *old(self),
                None => final(self).pos_heads@ == old(self).pos_heads@.push((count, id)),
            }),
            final(self).neg_heads == old(self).neg_heads,
            final(self).locals == old(self).locals,
    {
        match assoc_get(&self.pos_heads, count) {
            Some(head) => head,
            None => {
                let id = self.mint();
                self.pos_heads.push((count, id));
                id
            },
        }
    }

    /// Identity for a named local label at `depth`: the identity already
    /// recorded for (depth, name) in the current chunk, minted now
    /// otherwise. Definitions and references share this operation, so a
    /// forward reference and its later definition agree.
    pub fn push_local(&mut self, depth: u64, name: String) -> (id: u64)
        ensures
            assoc_local(final(self).locals_view(), depth, name@) == Some(id),
            (match assoc_local(old(self).locals_view(), depth, name@) {
                Some(head) => id == head && *final(self) == *old(self),
                None => final(self).locals_view()
                    == old(self).locals_view().push((depth, name@, id)),
            }),
            final(self).neg_heads == old(self).neg_heads,
            final(self).pos_heads == old(self).pos_heads,
    {
        match local_get(&self.locals, depth, &name) {
            Some(head) => head,
            None => {
                let id = self.mint();
                proof {
                    let pre = self.locals@;
                    assert(self.locals@.push((depth, name, id)).map_values(
                        |e: (u64, String, u64)| (e.0, e.1@, e.2))
                        =~= pre.map_values(|e: (u64, String, u64)| (e.0, e.1@, e.2))
                            .push((depth, name@, id)));
                }
                self.locals.push((depth, name, id));
                id
            },
        }
    }

    /// Forget every local identity at a top-level chunk boundary: local
    /// labels never outlive their chunk, and the same textual name under
    /// the next chunk mints a distinct identity.
    pub fn clear_chunk_scope(&mut self)
        ensures
            final(self).neg_heads@ =~= Seq::<(u64, u64)>::empty(),
            final(self).pos_heads@ =~= Seq::<(u64, u64)>::empty(),
            final(self).locals@ =~= Seq::<(u64, String, u64)>::empty(),
            final(self).next_id == old(self).next_id,
    {
        self.neg_heads.clear();
        self.pos_heads.clear();
        self.locals.clear();
    }
}

/// Latest association for `key`, if any.
fn assoc_get(entries: &Vec<(u64, u64)>, key: u64) -> (r: Option<u64>)
    ensures
        r == assoc(entries@, key),
{
    let mut i: usize = entries.len();
    proof {
        assert(entries@.take(entries@.len() as int) =~= entries@);
    }
    while i > 0
        invariant
            i <= entries@.len(),
            assoc(entries@, key) == assoc(entries@.take(i as int), key),
        decreases i,
    {
        i = i - 1;
        let (k, v) = entries[i];
        proof {
            assert(entries@.take(i + 1 as int).drop_last() =~= entries@.take(i as int));
            assert(entries@.take(i + 1 as int).last() == entries@[i as int]);
        }
        if k == key {
            return Some(v);
        }
    }
    proof {
        assert(entries@.take(0) =~= Seq::<(u64, u64)>::empty());
    }
    None
}

/// Remove every association for `key`, keeping every other association as
/// it was.
fn assoc_del(entries: &mut Vec<(u64, u64)>, key: u64)
    ensures
        assoc(final(entries)@, key) is None,
        forall|k2: u64| k2 != key ==> #[trigger] assoc(final(entries)@, k2)
            == assoc(old(entries)@, k2),
{
    let mut out: Vec<(u64, u64)> = Vec::new();
    let mut i: usize = 0;
    proof {
        assert(entries@.take(0) =~= Seq::<(u64, u64)>::empty());
    }
    while i < entries.len()
        invariant
            i <= entries@.len(),
            assoc(out@, key) is None,
            forall|k2: u64| k2 != key ==> #[trigger] assoc(out@, k2)
                == assoc(entries@.take(i as int), k2),
        decreases entries@.len() - i,
    {
        let (k, v) = entries[i];
        proof {
            assert(entries@.take(i + 1 as int).drop_last() =~= entries@.take(i as int));
            assert(entries@.take(i + 1 as int).last() == entries@[i as int]);
            if k != key {
                assert(out@.push((k, v)).drop_last() =~= out@);
                assert forall|k2: u64| k2 != key implies #[trigger] assoc(out@.push((k, v)), k2)
                    == assoc(entries@.take(i + 1 as int), k2) by {
                    assert(assoc(out@, k2) == assoc(entries@.take(i as int), k2));
                }
            } else {
                assert forall|k2: u64| k2 != key implies #[trigger] assoc(out@, k2)
                    == assoc(entries@.take(i + 1 as int), k2) by {
                    assert(assoc(out@, k2) == assoc(entries@.take(i as int), k2));
                }
            }
        }
        if k != key {
            out.push((k, v));
        }
        i = i + 1;
    }
    proof {
        assert(entries@.take(entries@.len() as int) =~= entries@);
    }
    *entries = out;
}

/// Latest named-local association for (depth, name), if any.
fn local_get(entries: &Vec<(u64, String, u64)>, depth: u64, name: &String) -> (r: Option<u64>)
    ensures
        r == assoc_local(entries@.map_values(|e: (u64, String, u64)| (e.0, e.1@, e.2)), depth, name@),
{
    let ghost view = entries@.map_values(|e: (u64, String, u64)| (e.0, e.1@, e.2));
    let mut i: usize = entries.len();
    proof {
        assert(view.take(view.len() as int) =~= view);
    }
    while i > 0
        invariant
            i <= entries@.len(),
            view == entries@.map_values(|e: (u64, String, u64)| (e.0, e.1@, e.2)),
            assoc_local(view, depth, name@) == assoc_local(view.take(i as int), depth, name@),
        decreases i,
    {
        i = i - 1;
        let entry = &entries[i];
        proof {
            assert(view.take(i + 1 as int).drop_last() =~= view.take(i as int));
            assert(view.take(i + 1 as int).last() == view[i as int]);
        }
        if entry.0 == depth && entry.1 == *name {
            return Some(entry.2);
        }
    }
    proof {
        assert(view.take(0) =~= Seq::<(u64, Seq<char>, u64)>::empty());
    }
    None
}

/// The mutable state shared by the statement source and the chunk compiler
/// for the lifetime of one compilation.
#[derive(Debug)]
pub struct CompilerStateInner {
    pub lls: LocalLabelState,
}

/// Owning handle to the shared compiler state. Both components run on one
/// thread of control, so the state is held by value and threaded
/// explicitly.
#[derive(Debug)]
pub struct CompilerState(pub CompilerStateInner);

} // verus!
