//! The alias engine: one loaded settings document, a buffer of pending
//! mutations, and the commit step that merges the buffer into the document
//! and decides which script files must be written or removed. The engine
//! itself performs no I/O: `commit` and `clear` hand back the settings text
//! and the script actions, and the caller applies them to disk.

use vstd::prelude::*;

use crate::buffer::{group_removals, MutationBuffer, MutationKind, PendingMutation, PendV};
use crate::codec::{doc_model, serialize_setting};
use crate::error::{AliasError, AliasErrorCode};
use crate::script::{
    build_script_content, build_script_path, script_content, script_path_of, PlatformKind,
};
use crate::setting::{AliasGroupSetting, AliasSetting, TomlSetting};
use crate::strmap::StrMap;
use crate::toml_io::toml_ser_of;

verus! {

/// The buffer sets `a` into group `g`.
pub open spec fn sets_into(buf: Map<Seq<char>, PendV>, g: Seq<char>, a: Seq<char>) -> bool {
    buf.dom().contains(a) && buf[a].group == g && buf[a].kind is SetAlias
}

/// The buffer removes `a` from group `g`.
pub open spec fn removes_from(buf: Map<Seq<char>, PendV>, g: Seq<char>, a: Seq<char>) -> bool {
    buf.dom().contains(a) && buf[a].group == g && buf[a].kind is RemoveAlias
}

/// One group's aliases after the buffer is merged: aliases set into the
/// group appear with their new command, aliases removed from it disappear,
/// everything else is untouched.
pub open spec fn group_after(
    m: Map<Seq<char>, Seq<char>>,
    buf: Map<Seq<char>, PendV>,
    g: Seq<char>,
) -> Map<Seq<char>, Seq<char>> {
    Map::new(
        |a: Seq<char>| (m.dom().contains(a) || sets_into(buf, g, a)) && !removes_from(buf, g, a),
        |a: Seq<char>|
            if sets_into(buf, g, a) {
                buf[a].setting->0
            } else {
                m[a]
            },
    )
}

/// The whole group map after the buffer is merged: a group is created by
/// the first `Set` into it and never deleted by a `Remove`.
pub open spec fn merged_groups(
    groups: Map<Seq<char>, Map<Seq<char>, Seq<char>>>,
    buf: Map<Seq<char>, PendV>,
) -> Map<Seq<char>, Map<Seq<char>, Seq<char>>> {
    Map::new(
        |g: Seq<char>| groups.dom().contains(g) || (exists|a: Seq<char>| sets_into(buf, g, a)),
        |g: Seq<char>|
            group_after(
                if groups.dom().contains(g) {
                    groups[g]
                } else {
                    Map::empty()
                },
                buf,
                g,
            ),
    )
}

/// The group map after one single mutation is applied.
pub open spec fn apply_one(
    groups: Map<Seq<char>, Map<Seq<char>, Seq<char>>>,
    a: Seq<char>,
    m: PendV,
) -> Map<Seq<char>, Map<Seq<char>, Seq<char>>> {
    if m.kind is SetAlias {
        let gm = if groups.dom().contains(m.group) {
            groups[m.group]
        } else {
            Map::empty()
        };
        groups.insert(m.group, gm.insert(a, m.setting->0))
    } else {
        if groups.dom().contains(m.group) {
            groups.insert(m.group, groups[m.group].remove(a))
        } else {
            groups
        }
    }
}

/// Merging a buffer extended by one fresh alias equals merging the buffer
/// and then applying that alias's mutation: the merge can be computed one
/// mutation at a time, in any order over distinct aliases.
pub proof fn lemma_merged_step(
    g0: Map<Seq<char>, Map<Seq<char>, Seq<char>>>,
    buf: Map<Seq<char>, PendV>,
    a: Seq<char>,
    m: PendV,
)
    requires
        !buf.dom().contains(a),
    ensures
        merged_groups(g0, buf.insert(a, m)) == apply_one(merged_groups(g0, buf), a, m),
{
    let buf2 = buf.insert(a, m);
    let lhs = merged_groups(g0, buf2);
    let before = merged_groups(g0, buf);
    let rhs = apply_one(before, a, m);
    assert forall|g: Seq<char>| lhs.dom().contains(g) == rhs.dom().contains(g) by {
        if m.kind is SetAlias {
            if g == m.group {
                assert(sets_into(buf2, g, a));
                assert(lhs.dom().contains(g));
                assert(rhs.dom().contains(g));
            } else {
                assert forall|x: Seq<char>| sets_into(buf2, g, x) == sets_into(buf, g, x) by {}
            }
        } else {
            assert forall|x: Seq<char>| sets_into(buf2, g, x) == sets_into(buf, g, x) by {}
        }
    }
    assert forall|g: Seq<char>| lhs.dom().contains(g) implies lhs[g] == rhs[g] by {
        let base = if g0.dom().contains(g) {
            g0[g]
        } else {
            Map::<Seq<char>, Seq<char>>::empty()
        };
        if m.kind is SetAlias && g == m.group {
            // the touched group: the new alias appears, all else as before
            if before.dom().contains(g) {
                assert(lhs[g] =~= before[g].insert(a, m.setting->0));
            } else {
                // no earlier set into g and g not persisted: only `a` is left
                assert forall|x: Seq<char>|
                    x != a implies !((base.dom().contains(x) || sets_into(buf2, g, x))
                    && !removes_from(buf2, g, x)) by {
                    assert(!g0.dom().contains(g));
                    if sets_into(buf, g, x) {
                        assert(before.dom().contains(g));
                    }
                }
                assert(lhs[g] =~= Map::<Seq<char>, Seq<char>>::empty().insert(
                    a,
                    m.setting->0,
                ));
            }
        } else if m.kind is RemoveAlias && g == m.group {
            if before.dom().contains(g) {
                assert(lhs[g] =~= before[g].remove(a));
            } else {
                assert(lhs.dom().contains(g));
                assert(g0.dom().contains(g) || (exists|x: Seq<char>| sets_into(buf2, g, x)));
                if !g0.dom().contains(g) {
                    let x = choose|x: Seq<char>| sets_into(buf2, g, x);
                    assert(sets_into(buf, g, x));
                    assert(before.dom().contains(g));
                }
            }
        } else {
            // an untouched group: merging with or without the new entry agrees
            assert(lhs[g] =~= group_after(base, buf, g));
            assert(before.dom().contains(g));
        }
    }
    assert(lhs =~= rhs);
}

/// Merging an empty buffer changes nothing.
pub proof fn lemma_merged_empty(g0: Map<Seq<char>, Map<Seq<char>, Seq<char>>>)
    ensures
        merged_groups(g0, Map::<Seq<char>, PendV>::empty()) == g0,
{
    let e = Map::<Seq<char>, PendV>::empty();
    assert forall|g: Seq<char>|
        merged_groups(g0, e).dom().contains(g) == g0.dom().contains(g) by {
        if exists|a: Seq<char>| sets_into(e, g, a) {
            let a = choose|a: Seq<char>| sets_into(e, g, a);
            assert(false);
        }
    }
    assert forall|g: Seq<char>| g0.dom().contains(g) implies merged_groups(g0, e)[g]
        == g0[g] by {
        assert(group_after(g0[g], e, g) =~= g0[g]);
    }
    assert(merged_groups(g0, e) =~= g0);
}

/// Applies one buffered mutation to the in-memory document.
fn apply_mutation(doc: &mut TomlSetting, alias: &String, m: &PendingMutation)
    requires
        old(doc).wf(),
        m.wf(),
    ensures
        final(doc).wf(),
        final(doc)@.groups == apply_one(old(doc)@.groups, alias@, m@),
        final(doc).global == old(doc).global,
{
    match m.kind {
        MutationKind::SetAlias => {
            let setting = match &m.setting {
                Some(s) => s.clone(),
                None => vstd::pervasive::unreached(),
            };
            let grp_opt = doc.alias.remove_key(&m.group);
            let mut grp = match grp_opt {
                Some(g) => {
                    proof {
                        let i = choose|i: int|
                            0 <= i < old(doc).alias.pairs@.len() && g == #[trigger] old(
                                doc,
                            ).alias.pairs@[i].1;
                        assert(old(doc).alias.pairs@[i].1.wf());
                    }
                    g
                },
                None => AliasGroupSetting::new(),
            };
            let ghost gm = grp@;
            grp.mapping.insert(alias.clone(), setting);
            doc.alias.insert(m.group.clone(), grp);
            proof {
                assert(doc@.groups =~= old(doc)@.groups.insert(
                    m.group@,
                    gm.insert(alias@, m@.setting->0),
                ));
                assert(doc@.groups =~= apply_one(old(doc)@.groups, alias@, m@));
            }
        },
        MutationKind::RemoveAlias => {
            let grp_opt = doc.alias.remove_key(&m.group);
            match grp_opt {
                None => {
                    proof {
                        assert(doc@.groups =~= old(doc)@.groups);
                    }
                },
                Some(mut g) => {
                    proof {
                        let i = choose|i: int|
                            0 <= i < old(doc).alias.pairs@.len() && g == #[trigger] old(
                                doc,
                            ).alias.pairs@[i].1;
                        assert(old(doc).alias.pairs@[i].1.wf());
                    }
                    let ghost gm = g@;
                    g.mapping.remove_key(alias);
                    doc.alias.insert(m.group.clone(), g);
                    proof {
                        assert(doc@.groups =~= old(doc)@.groups.insert(
                            m.group@,
                            gm.remove(alias@),
                        ));
                        assert(doc@.groups =~= apply_one(old(doc)@.groups, alias@, m@));
                    }
                },
            }
        },
    }
}

/// One file operation that `commit` decided on.
pub enum ScriptAction {
    WriteScript { path: String, content: Vec<u8> },
    RemoveScript { path: String },
}

/// The mathematical value of a script action.
pub enum ScriptActionV {
    Write { path: Seq<char>, content: Seq<u8> },
    Remove { path: Seq<char> },
}

impl View for ScriptAction {
    type V = ScriptActionV;

    open spec fn view(&self) -> ScriptActionV {
        match self {
            ScriptAction::WriteScript { path, content } => (ScriptActionV::Write {
                path: path@,
                content: content@,
            }),
            ScriptAction::RemoveScript { path } => (ScriptActionV::Remove { path: path@ }),
        }
    }
}

/// The script action that `commit` performs for one buffered mutation.
pub open spec fn action_of(
    plat: PlatformKind,
    root: Seq<char>,
    a: Seq<char>,
    m: PendV,
) -> ScriptActionV {
    if m.kind is SetAlias {
        ScriptActionV::Write {
            path: script_path_of(plat, root, a),
            content: script_content(plat, m.setting->0),
        }
    } else {
        ScriptActionV::Remove { path: script_path_of(plat, root, a) }
    }
}

/// The actions listed for `names`: one action per named alias, in order.
pub open spec fn plan_matches(
    names: Seq<Seq<char>>,
    actions: Seq<ScriptActionV>,
    buf: Map<Seq<char>, PendV>,
    plat: PlatformKind,
    root: Seq<char>,
) -> bool {
    &&& names.no_duplicates()
    &&& names.to_set() == buf.dom()
    &&& actions.len() == names.len()
    &&& forall|i: int|
        0 <= i < actions.len() ==> #[trigger] actions[i] == action_of(
            plat,
            root,
            names[i],
            buf[names[i]],
        )
}

/// The mathematical values of a list of script actions.
pub open spec fn actions_views(actions: Seq<ScriptAction>) -> Seq<ScriptActionV> {
    actions.map_values(|x: ScriptAction| x@)
}

/// The plan holds exactly one action per buffered mutation: a write for
/// each `Set`, a removal for each `Remove`, and nothing else, in some
/// order of the buffered alias names.
pub open spec fn plan_covers(
    actions: Seq<ScriptActionV>,
    buf: Map<Seq<char>, PendV>,
    plat: PlatformKind,
    root: Seq<char>,
) -> bool {
    exists|names: Seq<Seq<char>>| #[trigger] plan_matches(names, actions, buf, plat, root)
}

/// A covering plan holds the action of every buffered mutation.
pub proof fn lemma_plan_covers_elem(
    actions: Seq<ScriptActionV>,
    buf: Map<Seq<char>, PendV>,
    plat: PlatformKind,
    root: Seq<char>,
    a: Seq<char>,
)
    requires
        plan_covers(actions, buf, plat, root),
        buf.dom().contains(a),
    ensures
        actions.contains(action_of(plat, root, a, buf[a])),
{
    let names = choose|names: Seq<Seq<char>>| plan_matches(names, actions, buf, plat, root);
    assert(names.to_set().contains(a));
    let j = choose|j: int| 0 <= j < names.len() && names[j] == a;
    assert(actions[j] == action_of(plat, root, a, buf[a]));
}

/// Everything `commit` hands back: the new settings text to persist and the
/// script writes and removals to perform.
pub struct CommitPlan {
    pub settings_text: String,
    pub actions: Vec<ScriptAction>,
}

/// All alias names present anywhere in the group map.
pub open spec fn alias_name_set(groups: Map<Seq<char>, Map<Seq<char>, Seq<char>>>) -> Set<
    Seq<char>,
> {
    Set::new(
        |a: Seq<char>|
            exists|g: Seq<char>| #[trigger] groups[g].dom().contains(a) && groups.dom().contains(g),
    )
}

/// The alias names of the first `i` groups of a stored group list.
pub open spec fn doms_union(gpairs: Seq<(String, AliasGroupSetting)>, i: int) -> Set<Seq<char>>
    decreases i,
{
    if i <= 0 {
        Set::empty()
    } else {
        doms_union(gpairs, i - 1).union(gpairs[i - 1].1@.dom())
    }
}

proof fn lemma_doms_union_elem(
    gpairs: Seq<(String, AliasGroupSetting)>,
    i: int,
    j: int,
    a: Seq<char>,
)
    requires
        0 <= j < i,
        gpairs[j].1@.dom().contains(a),
    ensures
        doms_union(gpairs, i).contains(a),
    decreases i,
{
    if j < i - 1 {
        lemma_doms_union_elem(gpairs, i - 1, j, a);
    }
}

proof fn lemma_doms_union_witness(gpairs: Seq<(String, AliasGroupSetting)>, i: int, a: Seq<char>)
    requires
        doms_union(gpairs, i).contains(a),
    ensures
        exists|j: int| 0 <= j < i && (#[trigger] gpairs[j]).1@.dom().contains(a),
    decreases i,
{
    if i > 0 {
        if gpairs[i - 1].1@.dom().contains(a) {
            assert(0 <= i - 1 < i && gpairs[i - 1].1@.dom().contains(a));
        } else {
            lemma_doms_union_witness(gpairs, i - 1, a);
        }
    }
}

/// The alias names of the first `i` groups of a stored group list, in
/// storage order: group by group, each group's aliases in their stored
/// order. An alias name held by several groups appears once per group.
pub open spec fn group_name_list(
    gpairs: Seq<(String, AliasGroupSetting)>,
    i: int,
) -> Seq<Seq<char>>
    decreases i,
{
    if i <= 0 {
        Seq::empty()
    } else {
        group_name_list(gpairs, i - 1) + gpairs[i - 1].1.mapping.key_seq()
    }
}

/// The listed names cover exactly the groups' alias names.
proof fn lemma_group_name_list_set(gpairs: Seq<(String, AliasGroupSetting)>, i: int)
    requires
        0 <= i <= gpairs.len(),
    ensures
        group_name_list(gpairs, i).to_set() == doms_union(gpairs, i),
    decreases i,
{
    if i <= 0 {
        assert(group_name_list(gpairs, i).to_set() =~= doms_union(gpairs, i));
    } else {
        lemma_group_name_list_set(gpairs, i - 1);
        crate::strmap::lemma_assoc_view_dom(gpairs[i - 1].1.mapping.pairs@);
        let a = group_name_list(gpairs, i - 1);
        let b = gpairs[i - 1].1.mapping.key_seq();
        assert forall|x: Seq<char>| #[trigger] (a + b).to_set().contains(x) implies
            a.to_set().union(b.to_set()).contains(x) by {
            let j = choose|j: int| 0 <= j < (a + b).len() && (a + b)[j] == x;
            if j < a.len() {
                assert(a[j] == x);
            } else {
                assert(b[j - a.len()] == x);
            }
        }
        assert forall|x: Seq<char>| a.to_set().union(b.to_set()).contains(x) implies #[trigger] (a
            + b).to_set().contains(x) by {
            if a.to_set().contains(x) {
                let j = choose|j: int| 0 <= j < a.len() && a[j] == x;
                assert((a + b)[j] == x);
            } else {
                let j = choose|j: int| 0 <= j < b.len() && b[j] == x;
                assert((a + b)[a.len() + j] == x);
            }
        }
        assert((a + b).to_set() =~= a.to_set().union(b.to_set()));
        assert(gpairs[i - 1].1@.dom() == b.to_set());
        assert(group_name_list(gpairs, i).to_set() =~= doms_union(gpairs, i));
    }
}

/// The alias engine: the loaded document, the pending buffer, and the
/// platform parameters resolved once at load time.
pub struct AliasEngine {
    pub platform: PlatformKind,
    pub script_root: String,
    pub env_var_name: Option<String>,
    pub doc: TomlSetting,
    pub buffer: MutationBuffer,
}

impl AliasEngine {
    pub open spec fn wf(self) -> bool {
        &&& self.doc.wf()
        &&& self.buffer.wf()
    }

    /// A fresh engine over a loaded document, with the script root and the
    /// environment-variable name already resolved to platform defaults.
    pub fn new(
        platform: PlatformKind,
        script_root: String,
        env_var_name: Option<String>,
        doc: TomlSetting,
    ) -> (r: Self)
        requires
            doc.wf(),
        ensures
            r.wf(),
            r.platform == platform,
            r.script_root == script_root,
            r.env_var_name == env_var_name,
            r.doc == doc,
            r.buffer@ == Map::<Seq<char>, PendV>::empty(),
    {
        AliasEngine { platform, script_root, env_var_name, doc, buffer: MutationBuffer::new() }
    }

    /// The alias's setting in the given group of the loaded document; reads
    /// never see buffered-but-uncommitted mutations.
    pub fn get(&self, group: &String, alias: &String) -> (r: Option<AliasSetting>)
        requires
            self.wf(),
        ensures
            match r {
                Some(s) => self.doc@.groups.dom().contains(group@)
                    && self.doc@.groups[group@].dom().contains(alias@) && s@
                    == self.doc@.groups[group@][alias@],
                None => !(self.doc@.groups.dom().contains(group@)
                    && self.doc@.groups[group@].dom().contains(alias@)),
            },
    {
        match self.doc.alias.get(group) {
            None => None,
            Some(g) => {
                proof {
                    let i = choose|i: int|
                        0 <= i < self.doc.alias.pairs@.len() && *g == #[trigger] self
                            .doc
                            .alias
                            .pairs@[i].1;
                    assert(self.doc.alias.pairs@[i].1.wf());
                }
                match g.mapping.get(alias) {
                    None => None,
                    Some(s) => Some(s.clone()),
                }
            },
        }
    }

    /// The whole group, if present in the loaded document.
    pub fn get_group(&self, group: &String) -> (r: Option<&AliasGroupSetting>)
        requires
            self.wf(),
        ensures
            match r {
                Some(g) => self.doc@.groups.dom().contains(group@) && g@
                    == self.doc@.groups[group@] && g.wf(),
                None => !self.doc@.groups.dom().contains(group@),
            },
    {
        let r = self.doc.alias.get(group);
        proof {
            if let Some(g) = r {
                let i = choose|i: int|
                    0 <= i < self.doc.alias.pairs@.len() && *g == #[trigger] self
                        .doc
                        .alias
                        .pairs@[i].1;
                assert(self.doc.alias.pairs@[i].1.wf());
            }
        }
        r
    }

    /// The whole group map of the loaded document.
    pub fn get_all(&self) -> (r: &StrMap<AliasGroupSetting>)
        ensures
            r == &self.doc.alias,
    {
        &self.doc.alias
    }

    /// Every alias name present in the document: group by group in storage
    /// order, each group's aliases in their stored order.
    pub fn list(&self) -> (r: Vec<String>)
        requires
            self.wf(),
        ensures
            r@.map_values(|s: String| s@) == group_name_list(
                self.doc.alias.pairs@,
                self.doc.alias.pairs@.len() as int,
            ),
            r@.map_values(|s: String| s@).to_set() == alias_name_set(self.doc@.groups),
    {
        let ghost gpairs = self.doc.alias.pairs@;
        let mut r: Vec<String> = Vec::new();
        let n = self.doc.alias.len();
        let mut i: usize = 0;
        while i < n
            invariant
                i <= n,
                n == gpairs.len(),
                gpairs == self.doc.alias.pairs@,
                self.wf(),
                r@.map_values(|s: String| s@) == group_name_list(gpairs, i as int),
            decreases n - i,
        {
            let ghost base = group_name_list(gpairs, i as int);
            let grp = &self.doc.alias.pairs[i].1;
            let ghost mkeys = grp.mapping.key_seq();
            let m = grp.mapping.len();
            let mut k: usize = 0;
            proof {
                assert(mkeys.take(0) =~= Seq::<Seq<char>>::empty());
                assert(r@.map_values(|s: String| s@) =~= base + mkeys.take(0));
            }
            while k < m
                invariant
                    k <= m,
                    m == mkeys.len(),
                    mkeys == gpairs[i as int].1.mapping.key_seq(),
                    0 <= i < gpairs.len(),
                    gpairs == self.doc.alias.pairs@,
                    self.wf(),
                    base == group_name_list(gpairs, i as int),
                    r@.map_values(|s: String| s@) == base + mkeys.take(k as int),
                decreases m - k,
            {
                let ghost rold = r@;
                r.push(self.doc.alias.pairs[i].1.mapping.pairs[k].0.clone());
                k += 1;
                proof {
                    let mapped = r@.map_values(|s: String| s@);
                    let prevpart = base + mkeys.take(k - 1);
                    let curpart = base + mkeys.take(k as int);
                    assert(r@.drop_last() =~= rold);
                    assert(mapped.drop_last() =~= rold.map_values(|s: String| s@));
                    assert(mapped.last() == mkeys[k - 1]);
                    assert(mapped.len() == prevpart.len() + 1);
                    assert(curpart.len() == prevpart.len() + 1);
                    assert forall|j: int| 0 <= j < mapped.len() implies #[trigger] mapped[j]
                        == curpart[j] by {
                        if j < mapped.len() - 1 {
                            assert(mapped[j] == mapped.drop_last()[j]);
                            assert(mapped.drop_last()[j] == prevpart[j]);
                            if j < base.len() {
                                assert(curpart[j] == base[j]);
                                assert(prevpart[j] == base[j]);
                            } else {
                                assert(prevpart[j] == mkeys.take(k - 1)[j - base.len()]);
                                assert(mkeys.take(k - 1)[j - base.len()] == mkeys[j - base.len()]);
                                assert(curpart[j] == mkeys.take(k as int)[j - base.len()]);
                                assert(mkeys.take(k as int)[j - base.len()] == mkeys[j
                                    - base.len()]);
                            }
                        } else {
                            assert(mapped[j] == mkeys[k - 1]);
                            assert(curpart[j] == mkeys.take(k as int)[k - 1]);
                            assert(mkeys.take(k as int)[k - 1] == mkeys[k - 1]);
                        }
                    }
                    assert(mapped =~= curpart);
                }
            }
            i += 1;
            proof {
                assert(mkeys.take(m as int) =~= mkeys);
                assert(r@.map_values(|s: String| s@) == group_name_list(gpairs, i as int));
            }
        }
        proof {
            lemma_group_name_list_set(gpairs, n as int);
            crate::strmap::lemma_assoc_view_dom(gpairs);
            let gkeys = gpairs.map_values(|p: (String, AliasGroupSetting)| p.0@);
            let rset = r@.map_values(|s: String| s@).to_set();
            assert forall|a: Seq<char>| #[trigger] rset.contains(a) implies alias_name_set(
                self.doc@.groups,
            ).contains(a) by {
                lemma_doms_union_witness(gpairs, n as int, a);
                let j = choose|j: int|
                    0 <= j < n && (#[trigger] gpairs[j]).1@.dom().contains(a);
                crate::strmap::lemma_assoc_view_index(gpairs, j);
                let g = gpairs[j].0@;
                assert(self.doc@.groups[g].dom().contains(a));
            }
            assert forall|a: Seq<char>| alias_name_set(self.doc@.groups).contains(a) implies
                #[trigger] rset.contains(a) by {
                let g = choose|g: Seq<char>|
                    #[trigger] self.doc@.groups[g].dom().contains(a)
                        && self.doc@.groups.dom().contains(g);
                assert(gkeys.to_set().contains(g));
                let j = choose|j: int| 0 <= j < gkeys.len() && gkeys[j] == g;
                crate::strmap::lemma_assoc_view_index(gpairs, j);
                assert(gpairs[j].1@ == self.doc@.groups[g]);
                lemma_doms_union_elem(gpairs, n as int, j, a);
            }
            assert(rset =~= alias_name_set(self.doc@.groups));
        }
        r
    }

    /// Buffers a set of `alias` in `group`; no I/O occurs and reads of the
    /// document are unaffected until `commit`.
    pub fn set(&mut self, group: String, alias: String, setting: AliasSetting)
        requires
            old(self).wf(),
        ensures
            final(self).wf(),
            final(self).buffer@ == old(self).buffer@.insert(
                alias@,
                PendV { kind: MutationKind::SetAlias, group: group@, setting: Some(setting@) },
            ),
            final(self).doc == old(self).doc,
            final(self).platform == old(self).platform,
            final(self).script_root == old(self).script_root,
            final(self).env_var_name == old(self).env_var_name,
    {
        self.buffer.set(group, alias, setting);
    }

    /// Buffers a removal of `alias` from `group`.
    pub fn remove(&mut self, group: &String, alias: &String)
        requires
            old(self).wf(),
        ensures
            final(self).wf(),
            final(self).buffer@ == old(self).buffer@.insert(
                alias@,
                PendV { kind: MutationKind::RemoveAlias, group: group@, setting: None },
            ),
            final(self).doc == old(self).doc,
            final(self).platform == old(self).platform,
            final(self).script_root == old(self).script_root,
            final(self).env_var_name == old(self).env_var_name,
    {
        self.buffer.remove(group.clone(), alias.clone());
    }

    /// Buffers a removal for every alias currently present in `group` per
    /// the loaded document; later unrelated mutations do not disturb them.
    pub fn remove_group(&mut self, group: &String)
        requires
            old(self).wf(),
        ensures
            final(self).wf(),
            final(self).buffer@ == old(self).buffer@.union_prefer_right(
                group_removals(old(self).doc@.groups, group@),
            ),
            final(self).doc == old(self).doc,
            final(self).platform == old(self).platform,
            final(self).script_root == old(self).script_root,
            final(self).env_var_name == old(self).env_var_name,
    {
        self.buffer.remove_group(group, &self.doc);
    }

    /// Immediately empties the document's alias groups and renders the new
    /// settings text, bypassing the buffer. Already-generated scripts are
    /// deliberately left on disk untouched.
    pub fn clear(&mut self) -> (r: Result<String, AliasError>)
        requires
            old(self).wf(),
        ensures
            final(self).wf(),
            final(self).doc@.groups == Map::<Seq<char>, Map<Seq<char>, Seq<char>>>::empty(),
            final(self).doc.global == old(self).doc.global,
            final(self).buffer == old(self).buffer,
            final(self).platform == old(self).platform,
            final(self).script_root == old(self).script_root,
            final(self).env_var_name == old(self).env_var_name,
            match r {
                Ok(s) => toml_ser_of(doc_model(final(self).doc@)) == Some(s@),
                Err(e) => toml_ser_of(doc_model(final(self).doc@)) is None && e.err
                    == AliasErrorCode::ConfigWriteError,
            },
    {
        self.doc.alias = StrMap::new();
        serialize_setting(&self.doc)
    }

    /// Replaces the whole in-memory document; the buffer is untouched.
    pub fn overwrite_setting(&mut self, setting: TomlSetting)
        requires
            old(self).wf(),
            setting.wf(),
        ensures
            final(self).wf(),
            final(self).doc == setting,
            final(self).buffer == old(self).buffer,
            final(self).platform == old(self).platform,
            final(self).script_root == old(self).script_root,
            final(self).env_var_name == old(self).env_var_name,
    {
        self.doc = setting;
    }

    /// Merges every buffered mutation into the document, renders the new
    /// settings text, and decides one script action per mutated alias. The
    /// buffer is cleared exactly when the text could be rendered; the
    /// merged document stays in memory either way.
    pub fn commit(&mut self) -> (r: Result<CommitPlan, AliasError>)
        requires
            old(self).wf(),
        ensures
            final(self).wf(),
            final(self).platform == old(self).platform,
            final(self).script_root == old(self).script_root,
            final(self).env_var_name == old(self).env_var_name,
            final(self).doc@.groups == merged_groups(old(self).doc@.groups, old(self).buffer@),
            final(self).doc.global == old(self).doc.global,
            match r {
                Ok(plan) => {
                    &&& toml_ser_of(doc_model(final(self).doc@)) == Some(plan.settings_text@)
                    &&& plan_covers(
                        plan.actions@.map_values(|x: ScriptAction| x@),
                        old(self).buffer@,
                        old(self).platform,
                        old(self).script_root@,
                    )
                    &&& final(self).buffer@ == Map::<Seq<char>, PendV>::empty()
                },
                Err(e) => {
                    &&& toml_ser_of(doc_model(final(self).doc@)) is None
                    &&& e.err == AliasErrorCode::ConfigWriteError
                    &&& final(self).buffer == old(self).buffer
                },
            },
    {
        let ghost g0 = self.doc@.groups;
        let ghost bpairs = self.buffer.pending.pairs@;
        let n = self.buffer.pending.len();
        let mut i: usize = 0;
        proof {
            assert(bpairs.take(0) =~= Seq::<(String, PendingMutation)>::empty());
            assert(crate::strmap::assoc_view(bpairs.take(0)) == Map::<Seq<char>, PendV>::empty());
            lemma_merged_empty(g0);
        }
        while i < n
            invariant
                i <= n,
                n == bpairs.len(),
                bpairs == self.buffer.pending.pairs@,
                self.buffer == old(self).buffer,
                self.buffer.wf(),
                self.doc.wf(),
                self.platform == old(self).platform,
                self.script_root == old(self).script_root,
                self.env_var_name == old(self).env_var_name,
                self.doc.global == old(self).doc.global,
                g0 == old(self).doc@.groups,
                self.doc@.groups == merged_groups(
                    g0,
                    crate::strmap::assoc_view(bpairs.take(i as int)),
                ),
            decreases n - i,
        {
            proof {
                assert(self.buffer.pending.pairs@[i as int].1.wf());
            }
            apply_mutation(
                &mut self.doc,
                &self.buffer.pending.pairs[i].0,
                &self.buffer.pending.pairs[i].1,
            );
            i += 1;
            proof {
                let prefix = bpairs.take(i - 1);
                let cur = bpairs.take(i as int);
                assert(cur.drop_last() =~= prefix);
                assert(cur.last() == bpairs[i - 1]);
                crate::strmap::lemma_assoc_view_dom(prefix);
                let keys = self.buffer.pending.key_seq();
                let prefkeys = prefix.map_values(|p: (String, PendingMutation)| p.0@);
                assert forall|j: int| 0 <= j < i - 1 implies #[trigger] prefkeys[j] != bpairs[i
                    - 1].0@ by {
                    assert(keys[j] == prefkeys[j]);
                    assert(keys[i - 1] == bpairs[i - 1].0@);
                }
                if crate::strmap::assoc_view(prefix).dom().contains(bpairs[i - 1].0@) {
                    assert(prefkeys.to_set().contains(bpairs[i - 1].0@));
                    let j = choose|j: int|
                        0 <= j < prefkeys.len() && #[trigger] prefkeys[j] == bpairs[i - 1].0@;
                    assert(false);
                }
                lemma_merged_step(
                    g0,
                    crate::strmap::assoc_view(prefix),
                    bpairs[i - 1].0@,
                    bpairs[i - 1].1@,
                );
            }
        }
        proof {
            assert(bpairs.take(n as int) =~= bpairs);
        }
        let text = match serialize_setting(&self.doc) {
            Ok(t) => t,
            Err(e) => {
                return Err(e);
            },
        };
        let mut actions: Vec<ScriptAction> = Vec::new();
        let mut i2: usize = 0;
        while i2 < n
            invariant
                i2 <= n,
                n == bpairs.len(),
                bpairs == self.buffer.pending.pairs@,
                self.buffer == old(self).buffer,
                self.buffer.wf(),
                self.platform == old(self).platform,
                self.script_root == old(self).script_root,
                actions@.len() == i2,
                forall|j: int|
                    0 <= j < i2 ==> (#[trigger] actions@[j])@ == action_of(
                        self.platform,
                        self.script_root@,
                        bpairs[j].0@,
                        bpairs[j].1@,
                    ),
            decreases n - i2,
        {
            proof {
                assert(self.buffer.pending.pairs@[i2 as int].1.wf());
            }
            let path = build_script_path(
                self.platform,
                &self.script_root,
                &self.buffer.pending.pairs[i2].0,
            );
            let m = &self.buffer.pending.pairs[i2].1;
            match m.kind {
                MutationKind::SetAlias => {
                    let cmd = match &m.setting {
                        Some(s) => &s.cmd,
                        None => vstd::pervasive::unreached(),
                    };
                    let content = build_script_content(self.platform, cmd);
                    actions.push(ScriptAction::WriteScript { path, content });
                },
                MutationKind::RemoveAlias => {
                    actions.push(ScriptAction::RemoveScript { path });
                },
            }
            i2 += 1;
        }
        proof {
            let av = actions@.map_values(|x: ScriptAction| x@);
            let buf = old(self).buffer@;
            crate::strmap::lemma_assoc_view_dom(bpairs);
            let keys = bpairs.map_values(|p: (String, PendingMutation)| p.0@);
            assert(keys =~= self.buffer.pending.key_seq());
            assert forall|j: int| 0 <= j < av.len() implies #[trigger] av[j] == action_of(
                old(self).platform,
                old(self).script_root@,
                keys[j],
                buf[keys[j]],
            ) by {
                crate::strmap::lemma_assoc_view_index(bpairs, j);
                assert(buf[bpairs[j].0@] == bpairs[j].1@);
                assert((actions@[j])@ == action_of(
                    old(self).platform,
                    old(self).script_root@,
                    bpairs[j].0@,
                    bpairs[j].1@,
                ));
            }
            assert(plan_matches(keys, av, buf, old(self).platform, old(self).script_root@));
            assert(plan_covers(av, buf, old(self).platform, old(self).script_root@));
        }
        self.buffer.clear();
        Ok(CommitPlan { settings_text: text, actions })
    }
}

} // verus!
