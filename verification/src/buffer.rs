//! The mutation buffer: pending set/remove operations accumulated in memory,
//! keyed by alias name, before they are merged into the settings document on
//! commit. A later mutation for an alias replaces the earlier one.

use vstd::prelude::*;

use crate::setting::{AliasSetting, TomlSetting};
use crate::strmap::StrMap;

verus! {

/// What a pending mutation does to its alias.
#[derive(Clone, Copy, Debug, PartialEq, Eq, Structural)]
pub enum MutationKind {
    SetAlias,
    RemoveAlias,
}

/// One buffered mutation. `Set` carries the new setting; `Remove` carries
/// none.
pub struct PendingMutation {
    pub kind: MutationKind,
    pub group: String,
    pub setting: Option<AliasSetting>,
}

/// The mathematical value of a pending mutation.
pub struct PendV {
    pub kind: MutationKind,
    pub group: Seq<char>,
    pub setting: Option<Seq<char>>,
}

impl View for PendingMutation {
    type V = PendV;

    open spec fn view(&self) -> PendV {
        PendV {
            kind: self.kind,
            group: self.group@,
            setting: match self.setting {
                Some(s) => Some(s@),
                None => None,
            },
        }
    }
}

impl PendingMutation {
    /// `Set` mutations always carry a setting; `Remove` mutations never do.
    pub open spec fn wf(self) -> bool {
        (self.kind is SetAlias) <==> (self.setting is Some)
    }
}

/// The buffered `Remove` mutations that `remove_group` adds: one per alias
/// currently present in `g` of the given group map.
pub open spec fn group_removals(
    groups: Map<Seq<char>, Map<Seq<char>, Seq<char>>>,
    g: Seq<char>,
) -> Map<Seq<char>, PendV> {
    Map::new(
        |a: Seq<char>| groups.dom().contains(g) && groups[g].dom().contains(a),
        |a: Seq<char>| PendV { kind: MutationKind::RemoveAlias, group: g, setting: None },
    )
}

/// The in-memory buffer of pending mutations: at most one per alias name.
pub struct MutationBuffer {
    pub pending: StrMap<PendingMutation>,
}

impl View for MutationBuffer {
    type V = Map<Seq<char>, PendV>;

    open spec fn view(&self) -> Map<Seq<char>, PendV> {
        self.pending@
    }
}

impl MutationBuffer {
    pub open spec fn wf(self) -> bool {
        &&& self.pending.wf()
        &&& forall|i: int|
            0 <= i < self.pending.pairs@.len() ==> (#[trigger] self.pending.pairs@[i].1).wf()
    }

    /// An empty buffer.
    pub fn new() -> (r: Self)
        ensures
            r@ == Map::<Seq<char>, PendV>::empty(),
            r.wf(),
            r.pending.pairs@.len() == 0,
    {
        MutationBuffer { pending: StrMap::new() }
    }

    /// Upserts a `Set` mutation for `alias`, discarding any previously
    /// buffered mutation for that alias name.
    pub fn set(&mut self, group: String, alias: String, setting: AliasSetting)
        requires
            old(self).wf(),
        ensures
            final(self).wf(),
            final(self)@ == old(self)@.insert(
                alias@,
                PendV { kind: MutationKind::SetAlias, group: group@, setting: Some(setting@) },
            ),
    {
        let m = PendingMutation { kind: MutationKind::SetAlias, group, setting: Some(setting) };
        self.pending.insert(alias, m);
    }

    /// Upserts a `Remove` mutation for `alias`.
    pub fn remove(&mut self, group: String, alias: String)
        requires
            old(self).wf(),
        ensures
            final(self).wf(),
            final(self)@ == old(self)@.insert(
                alias@,
                PendV { kind: MutationKind::RemoveAlias, group: group@, setting: None },
            ),
    {
        let m = PendingMutation { kind: MutationKind::RemoveAlias, group, setting: None };
        self.pending.insert(alias, m);
    }

    /// Buffers a `Remove` for every alias currently present in `group` per
    /// the given (persisted) document, not per the buffer.
    pub fn remove_group(&mut self, group: &String, doc: &TomlSetting)
        requires
            old(self).wf(),
            doc.wf(),
        ensures
            final(self).wf(),
            final(self)@ == old(self)@.union_prefer_right(group_removals(doc@.groups, group@)),
    {
        let ghost removals = group_removals(doc@.groups, group@);
        match doc.alias.get(group) {
            None => {
                proof {
                    assert(old(self)@.union_prefer_right(removals) =~= old(self)@);
                }
            },
            Some(grp) => {
                let ghost pairs = grp.mapping.pairs@;
                proof {
                    let i = choose|i: int|
                        0 <= i < doc.alias.pairs@.len() && *grp == doc.alias.pairs@[i].1;
                    assert(doc.alias.pairs@[i].1.wf());
                    crate::strmap::lemma_assoc_view_dom(pairs);
                }
                let n = grp.mapping.len();
                let mut i: usize = 0;
                while i < n
                    invariant
                        i <= n,
                        n == pairs.len(),
                        pairs == grp.mapping.pairs@,
                        grp.mapping.wf(),
                        grp.mapping@ == doc@.groups[group@],
                        doc@.groups.dom().contains(group@),
                        removals == group_removals(doc@.groups, group@),
                        self.wf(),
                        self@ == old(self)@.union_prefer_right(
                            Map::new(
                                |a: Seq<char>|
                                    exists|j: int| 0 <= j < i && #[trigger] pairs[j].0@ == a,
                                |a: Seq<char>|
                                    PendV { kind: MutationKind::RemoveAlias, group: group@, setting: None },
                            ),
                        ),
                    decreases n - i,
                {
                    let alias = grp.mapping.pairs[i].0.clone();
                    self.remove(group.clone(), alias);
                    i += 1;
                    proof {
                        let prev = Map::new(
                            |a: Seq<char>|
                                exists|j: int| 0 <= j < i - 1 && #[trigger] pairs[j].0@ == a,
                            |a: Seq<char>|
                                PendV { kind: MutationKind::RemoveAlias, group: group@, setting: None },
                        );
                        let next = Map::new(
                            |a: Seq<char>|
                                exists|j: int| 0 <= j < i && #[trigger] pairs[j].0@ == a,
                            |a: Seq<char>|
                                PendV { kind: MutationKind::RemoveAlias, group: group@, setting: None },
                        );
                        assert(pairs[i - 1].0@ == pairs[i - 1].0@);
                        assert(old(self)@.union_prefer_right(prev).insert(
                            pairs[i - 1].0@,
                            PendV { kind: MutationKind::RemoveAlias, group: group@, setting: None },
                        ) =~= old(self)@.union_prefer_right(next));
                    }
                }
                proof {
                    let done = Map::new(
                        |a: Seq<char>| exists|j: int| 0 <= j < n && #[trigger] pairs[j].0@ == a,
                        |a: Seq<char>|
                            PendV { kind: MutationKind::RemoveAlias, group: group@, setting: None },
                    );
                    let keyseq = pairs.map_values(|p: (String, AliasSetting)| p.0@);
                    assert forall|a: Seq<char>| #[trigger] removals.dom().contains(a) implies done.dom().contains(a) by {
                        assert(grp.mapping@.dom().contains(a));
                        assert(keyseq.to_set().contains(a));
                        let j = choose|j: int| 0 <= j < keyseq.len() && #[trigger] keyseq[j] == a;
                        assert(pairs[j].0@ == a);
                    }
                    assert forall|a: Seq<char>| #[trigger] done.dom().contains(a) implies removals.dom().contains(a) by {
                        let j = choose|j: int| 0 <= j < n && #[trigger] pairs[j].0@ == a;
                        assert(keyseq[j] == a);
                        assert(keyseq.to_set().contains(a));
                    }
                    assert(old(self)@.union_prefer_right(done) =~= old(self)@.union_prefer_right(
                        removals,
                    ));
                }
            },
        }
    }

    /// Hands out every pending mutation, keyed by alias name and in buffer
    /// order, leaving the buffer empty. Downstream merging must not depend
    /// on the order: each alias's final state is its own last mutation.
    pub fn drain(&mut self) -> (r: Vec<(String, PendingMutation)>)
        requires
            old(self).wf(),
        ensures
            final(self)@ == Map::<Seq<char>, PendV>::empty(),
            final(self).wf(),
            r@ == old(self).pending.pairs@,
            crate::strmap::assoc_view(r@) == old(self)@,
    {
        let ghost opairs = self.pending.pairs@;
        let mut out: Vec<(String, PendingMutation)> = Vec::new();
        while self.pending.pairs.len() > 0
            invariant
                out@.len() <= opairs.len(),
                out@ == opairs.take(out@.len() as int),
                self.pending.pairs@ == opairs.skip(out@.len() as int),
            decreases self.pending.pairs@.len(),
        {
            let ghost done = out@.len() as int;
            let p = self.pending.pairs.remove(0);
            out.push(p);
            proof {
                assert(opairs.skip(done)[0] == opairs[done]);
                assert(out@ =~= opairs.take(done + 1));
                assert(self.pending.pairs@ =~= opairs.skip(done + 1));
            }
        }
        proof {
            assert(out@ =~= opairs);
            assert(self.pending.pairs@ =~= Seq::<(String, PendingMutation)>::empty());
        }
        out
    }

    /// Discards every pending mutation without applying it.
    pub fn clear(&mut self)
        ensures
            final(self)@ == Map::<Seq<char>, PendV>::empty(),
            final(self).wf(),
            final(self).pending.pairs@.len() == 0,
    {
        self.pending = StrMap::new();
    }

    /// The number of pending mutations.
    pub fn len(&self) -> (r: usize)
        ensures
            r == self.pending.pairs@.len(),
    {
        self.pending.len()
    }
}

} // verus!
