//! Administrative operations over any alias engine: `rebuild` regenerates
//! every script from the document after clearing it, `export` renders the
//! whole document, and `import` replaces it from external text and rebuilds.
//! `rebuild_relates` pins what a rebuild leaves: the same aliases with the
//! same commands, each alias in exactly one of the groups it occupied, and
//! no empty group; `lemma_rebuild_idempotent` shows a second run changes
//! nothing more.

use vstd::prelude::*;

use crate::alias::Alias;
use crate::buffer::{MutationKind, PendV};
use crate::codec::{doc_model, doc_of_model, parse_setting, serialize_setting};
use crate::engine::{
    lemma_plan_covers_elem, merged_groups, sets_into, CommitPlan, ScriptActionV,
};
use crate::error::{AliasError, AliasErrorCode};
use crate::script::{script_content, script_path_of, PlatformKind};
use crate::setting::{AliasGroupSetting, AliasSetting, DocView, GlobalSetting, TomlSetting};
use crate::strmap::{assoc_view, lemma_assoc_view_dom, lemma_assoc_view_index, StrMap};
use crate::toml_io::{toml_parse_of, toml_ser_of};

verus! {

/// The (group, alias, command) entries of one stored group, in order.
pub open spec fn group_entries(p: (String, AliasGroupSetting)) -> Seq<
    (Seq<char>, Seq<char>, Seq<char>),
> {
    p.1.mapping.pairs@.map_values(|q: (String, AliasSetting)| (p.0@, q.0@, q.1@))
}

/// All (group, alias, command) entries of a stored group list, in order.
pub open spec fn flatten_doc(gpairs: Seq<(String, AliasGroupSetting)>) -> Seq<
    (Seq<char>, Seq<char>, Seq<char>),
>
    decreases gpairs.len(),
{
    if gpairs.len() == 0 {
        Seq::empty()
    } else {
        flatten_doc(gpairs.drop_last()) + group_entries(gpairs.last())
    }
}

/// The buffer that re-setting the entries in order leaves behind: one `Set`
/// per alias name, a later entry for the same name winning.
pub open spec fn sets_from(
    ts: Seq<(Seq<char>, Seq<char>, Seq<char>)>,
    buf0: Map<Seq<char>, PendV>,
) -> Map<Seq<char>, PendV>
    decreases ts.len(),
{
    if ts.len() == 0 {
        buf0
    } else {
        sets_from(ts.drop_last(), buf0).insert(
            ts.last().1,
            PendV { kind: MutationKind::SetAlias, group: ts.last().0, setting: Some(ts.last().2) },
        )
    }
}

/// Every entry of the re-set buffer is a `Set` taken from the entry list.
pub(crate) proof fn lemma_sets_from_entry(ts: Seq<(Seq<char>, Seq<char>, Seq<char>)>, a: Seq<char>)
    requires
        sets_from(ts, Map::empty()).dom().contains(a),
    ensures
        sets_from(ts, Map::empty())[a].kind is SetAlias,
        sets_from(ts, Map::empty())[a].setting is Some,
        ts.contains(
            (
                sets_from(ts, Map::empty())[a].group,
                a,
                sets_from(ts, Map::empty())[a].setting->0,
            ),
        ),
    decreases ts.len(),
{
    if ts.len() > 0 {
        let last = ts.last();
        if a == last.1 && sets_from(ts, Map::empty())[a] == (PendV {
            kind: MutationKind::SetAlias,
            group: last.0,
            setting: Some(last.2),
        }) {
            assert(ts[ts.len() - 1] == (last.0, a, last.2));
        } else {
            lemma_sets_from_entry(ts.drop_last(), a);
            let m = sets_from(ts.drop_last(), Map::empty())[a];
            let j = choose|j: int|
                0 <= j < ts.drop_last().len() && #[trigger] ts.drop_last()[j] == (m.group, a, m.setting->0);
            assert(ts[j] == (m.group, a, m.setting->0));
        }
    }
}

/// Every listed alias name ends up in the re-set buffer.
pub(crate) proof fn lemma_sets_from_covers(ts: Seq<(Seq<char>, Seq<char>, Seq<char>)>, i: int)
    requires
        0 <= i < ts.len(),
    ensures
        sets_from(ts, Map::empty()).dom().contains(ts[i].1),
    decreases ts.len(),
{
    if i < ts.len() - 1 {
        lemma_sets_from_covers(ts.drop_last(), i);
        assert(ts.drop_last()[i] == ts[i]);
    }
}

/// Everything a group contributes to the entry list is in the whole list.
pub(crate) proof fn lemma_flatten_subseq(
    gpairs: Seq<(String, AliasGroupSetting)>,
    j: int,
    t: (Seq<char>, Seq<char>, Seq<char>),
)
    requires
        0 <= j < gpairs.len(),
        group_entries(gpairs[j]).contains(t),
    ensures
        flatten_doc(gpairs).contains(t),
    decreases gpairs.len(),
{
    let a = flatten_doc(gpairs.drop_last());
    let b = group_entries(gpairs.last());
    if j == gpairs.len() - 1 {
        let k = choose|k: int| 0 <= k < b.len() && b[k] == t;
        assert(flatten_doc(gpairs)[a.len() + k] == t);
    } else {
        assert(gpairs.drop_last()[j] == gpairs[j]);
        lemma_flatten_subseq(gpairs.drop_last(), j, t);
        let k = choose|k: int| 0 <= k < a.len() && a[k] == t;
        assert(flatten_doc(gpairs)[k] == t);
    }
}

/// Every entry of the flattened list is a real entry of the document.
pub(crate) proof fn lemma_flatten_entry(
    gpairs: Seq<(String, AliasGroupSetting)>,
    t: (Seq<char>, Seq<char>, Seq<char>),
)
    requires
        gpairs.map_values(|p: (String, AliasGroupSetting)| p.0@).no_duplicates(),
        forall|i: int| 0 <= i < gpairs.len() ==> (#[trigger] gpairs[i].1).wf(),
        flatten_doc(gpairs).contains(t),
    ensures
        assoc_view(gpairs).dom().contains(t.0),
        assoc_view(gpairs)[t.0].dom().contains(t.1),
        assoc_view(gpairs)[t.0][t.1] == t.2,
    decreases gpairs.len(),
{
    let keys = gpairs.map_values(|p: (String, AliasGroupSetting)| p.0@);
    let a = flatten_doc(gpairs.drop_last());
    let b = group_entries(gpairs.last());
    let i = choose|i: int| 0 <= i < flatten_doc(gpairs).len() && flatten_doc(gpairs)[i] == t;
    assert(gpairs.drop_last().map_values(|p: (String, AliasGroupSetting)| p.0@)
        =~= keys.drop_last());
    if i < a.len() {
        assert(a[i] == t);
        lemma_flatten_entry(gpairs.drop_last(), t);
        lemma_assoc_view_dom(gpairs.drop_last());
        if t.0 == gpairs.last().0@ {
            let dk = keys.drop_last();
            assert(dk.to_set().contains(t.0));
            let j = choose|j: int| 0 <= j < dk.len() && dk[j] == t.0;
            assert(keys[j] == keys[keys.len() - 1]);
            assert(false);
        }
    } else {
        assert(b[i - a.len()] == t);
        let mpairs = gpairs.last().1.mapping.pairs@;
        assert(mpairs.map_values(|q: (String, AliasSetting)| (gpairs.last().0@, q.0@, q.1@))[i
            - a.len()] == t);
        assert(t.0 == gpairs.last().0@ && mpairs[i - a.len()].0@ == t.1 && mpairs[i - a.len()].1@
            == t.2);
        assert(gpairs[gpairs.len() - 1].1.wf());
        lemma_assoc_view_index(mpairs, i - a.len());
        lemma_assoc_view_index(gpairs, gpairs.len() - 1);
    }
}

/// Every document entry is somewhere in the flattened list.
pub(crate) proof fn lemma_flatten_covers(gpairs: Seq<(String, AliasGroupSetting)>, g: Seq<char>, x: Seq<char>)
    requires
        gpairs.map_values(|p: (String, AliasGroupSetting)| p.0@).no_duplicates(),
        forall|i: int| 0 <= i < gpairs.len() ==> (#[trigger] gpairs[i].1).wf(),
        assoc_view(gpairs).dom().contains(g),
        assoc_view(gpairs)[g].dom().contains(x),
    ensures
        flatten_doc(gpairs).contains((g, x, assoc_view(gpairs)[g][x])),
{
    let keys = gpairs.map_values(|p: (String, AliasGroupSetting)| p.0@);
    lemma_assoc_view_dom(gpairs);
    assert(keys.to_set().contains(g));
    let j = choose|j: int| 0 <= j < keys.len() && keys[j] == g;
    lemma_assoc_view_index(gpairs, j);
    let grp = gpairs[j].1;
    assert(grp.wf());
    let mpairs = grp.mapping.pairs@;
    let mkeys = mpairs.map_values(|q: (String, AliasSetting)| q.0@);
    lemma_assoc_view_dom(mpairs);
    assert(mkeys.to_set().contains(x));
    let k = choose|k: int| 0 <= k < mkeys.len() && mkeys[k] == x;
    lemma_assoc_view_index(mpairs, k);
    assert(group_entries(gpairs[j])[k] == (g, x, assoc_view(gpairs)[g][x]));
    lemma_flatten_subseq(gpairs, j, (g, x, assoc_view(gpairs)[g][x]));
}

/// What a rebuild leaves: only original aliases with their original
/// commands, every original alias surviving in one of its groups, each
/// alias in exactly one group, and no group empty.
pub open spec fn rebuild_relates(
    orig: Map<Seq<char>, Map<Seq<char>, Seq<char>>>,
    result: Map<Seq<char>, Map<Seq<char>, Seq<char>>>,
) -> bool {
    &&& forall|g: Seq<char>, a: Seq<char>|
        result.dom().contains(g) && #[trigger] result[g].dom().contains(a) ==> orig.dom().contains(
            g,
        ) && orig[g].dom().contains(a) && result[g][a] == orig[g][a]
    &&& forall|g: Seq<char>, a: Seq<char>|
        orig.dom().contains(g) && #[trigger] orig[g].dom().contains(a) ==> exists|g2: Seq<char>|
            result.dom().contains(g2) && #[trigger] result[g2].dom().contains(a)
    &&& forall|g1: Seq<char>, g2: Seq<char>, a: Seq<char>|
        result.dom().contains(g1) && result.dom().contains(g2) && #[trigger] result[
            g1].dom().contains(a) && #[trigger] result[g2].dom().contains(a) ==> g1 == g2
    &&& forall|g: Seq<char>|
        #[trigger] result.dom().contains(g) ==> exists|a: Seq<char>| result[g].dom().contains(a)
}

/// The write actions that a rebuilt document calls for: one per alias, with
/// the content its command renders to.
pub open spec fn write_actions_of(
    groups: Map<Seq<char>, Map<Seq<char>, Seq<char>>>,
    plat: PlatformKind,
    root: Seq<char>,
) -> Set<ScriptActionV> {
    Set::new(
        |x: ScriptActionV|
            exists|g: Seq<char>, a: Seq<char>|
                groups.dom().contains(g) && #[trigger] groups[g].dom().contains(a) && x
                    == (ScriptActionV::Write {
                    path: script_path_of(plat, root, a),
                    content: script_content(plat, groups[g][a]),
                }),
    )
}

/// A rebuild merges a pure-`Set` buffer into an empty document, which
/// relates the result to the original document as `rebuild_relates` says.
pub(crate) proof fn lemma_rebuild_result(gpairs: Seq<(String, AliasGroupSetting)>)
    requires
        gpairs.map_values(|p: (String, AliasGroupSetting)| p.0@).no_duplicates(),
        forall|i: int| 0 <= i < gpairs.len() ==> (#[trigger] gpairs[i].1).wf(),
    ensures
        rebuild_relates(
            assoc_view(gpairs),
            merged_groups(
                Map::empty(),
                sets_from(flatten_doc(gpairs), Map::empty()),
            ),
        ),
{
    let orig = assoc_view(gpairs);
    let buf = sets_from(flatten_doc(gpairs), Map::empty());
    let result = merged_groups(Map::<Seq<char>, Map<Seq<char>, Seq<char>>>::empty(), buf);
    assert forall|g: Seq<char>, a: Seq<char>|
        result.dom().contains(g) && #[trigger] result[g].dom().contains(a) implies
        orig.dom().contains(g) && orig[g].dom().contains(a) && result[g][a] == orig[g][a] by {
        assert(sets_into(buf, g, a));
        lemma_sets_from_entry(flatten_doc(gpairs), a);
        lemma_flatten_entry(gpairs, (g, a, buf[a].setting->0));
        assert(result[g][a] == buf[a].setting->0);
    }
    assert forall|g: Seq<char>, a: Seq<char>|
        orig.dom().contains(g) && #[trigger] orig[g].dom().contains(a) implies exists|
        g2: Seq<char>,
    |
        result.dom().contains(g2) && #[trigger] result[g2].dom().contains(a) by {
        lemma_flatten_covers(gpairs, g, a);
        let ts = flatten_doc(gpairs);
        let i = choose|i: int| 0 <= i < ts.len() && ts[i] == (g, a, orig[g][a]);
        lemma_sets_from_covers(ts, i);
        lemma_sets_from_entry(ts, a);
        let g2 = buf[a].group;
        assert(sets_into(buf, g2, a));
        assert(result.dom().contains(g2));
        assert(result[g2].dom().contains(a));
    }
    assert forall|g1: Seq<char>, g2: Seq<char>, a: Seq<char>|
        result.dom().contains(g1) && result.dom().contains(g2) && #[trigger] result[
        g1].dom().contains(a) && #[trigger] result[g2].dom().contains(a) implies g1 == g2 by {
        assert(sets_into(buf, g1, a));
        assert(sets_into(buf, g2, a));
    }
    assert forall|g: Seq<char>| #[trigger] result.dom().contains(g) implies exists|a: Seq<char>|
        result[g].dom().contains(a) by {
        let a = choose|a: Seq<char>| sets_into(buf, g, a);
        assert(result[g].dom().contains(a));
    }
}

/// Rebuilding is idempotent: a second rebuild reproduces the first one's
/// document exactly. The script sets agree too: `rebuild` pins its write
/// actions as a function of the final document, the platform and the script
/// root, and all three are unchanged by the second run.
pub proof fn lemma_rebuild_idempotent(
    orig: Map<Seq<char>, Map<Seq<char>, Seq<char>>>,
    r1: Map<Seq<char>, Map<Seq<char>, Seq<char>>>,
    r2: Map<Seq<char>, Map<Seq<char>, Seq<char>>>,
)
    requires
        rebuild_relates(orig, r1),
        rebuild_relates(r1, r2),
    ensures
        r2 == r1,
{
    assert forall|g: Seq<char>| r2.dom().contains(g) == r1.dom().contains(g) by {
        if r2.dom().contains(g) {
            let a = choose|a: Seq<char>| r2[g].dom().contains(a);
            assert(r2[g].dom().contains(a));
        }
        if r1.dom().contains(g) {
            let a = choose|a: Seq<char>| r1[g].dom().contains(a);
            assert(r1[g].dom().contains(a));
            let g2 = choose|g2: Seq<char>|
                r2.dom().contains(g2) && #[trigger] r2[g2].dom().contains(a);
            assert(r1[g2].dom().contains(a));
            assert(g2 == g);
        }
    }
    assert forall|g: Seq<char>| r1.dom().contains(g) implies r2[g] == r1[g] by {
        assert forall|a: Seq<char>| r2[g].dom().contains(a) == r1[g].dom().contains(a) by {
            if r2[g].dom().contains(a) {
                assert(r2.dom().contains(g));
            }
            if r1[g].dom().contains(a) {
                let g2 = choose|g2: Seq<char>|
                    r2.dom().contains(g2) && #[trigger] r2[g2].dom().contains(a);
                assert(r1[g2].dom().contains(a));
                assert(g2 == g);
            }
        }
        assert forall|a: Seq<char>| r2[g].dom().contains(a) implies r2[g][a] == r1[g][a] by {
            assert(r2.dom().contains(g));
        }
        assert(r2[g] =~= r1[g]);
    }
    assert(r2 =~= r1);
}

/// After one successful rebuild nothing is left for a second run to fail
/// on: the second run's merged document equals the first run's, so the text
/// the first run rendered is rendered again and the second run returns
/// `Ok`.
pub proof fn lemma_rebuild_second_total(
    orig: Map<Seq<char>, Map<Seq<char>, Seq<char>>>,
    prev: DocView,
    next: DocView,
)
    requires
        rebuild_relates(orig, prev.groups),
        rebuild_relates(prev.groups, next.groups),
        next.script_root == prev.script_root,
        next.script_root_env_var_name == prev.script_root_env_var_name,
        toml_ser_of(doc_model(prev)) is Some,
    ensures
        next == prev,
        toml_ser_of(doc_model(next)) is Some,
{
    lemma_rebuild_idempotent(orig, prev.groups, next.groups);
}

/// Collects every (group, alias, command) entry of a document, cloned, in
/// storage order.
pub(crate) fn collect_entries(groups: &StrMap<AliasGroupSetting>) -> (r: Vec<(String, String, String)>)
    requires
        groups.wf(),
        forall|i: int| 0 <= i < groups.pairs@.len() ==> (#[trigger] groups.pairs@[i].1).wf(),
    ensures
        r@.map_values(|t: (String, String, String)| (t.0@, t.1@, t.2@)) == flatten_doc(
            groups.pairs@,
        ),
{
    let ghost gpairs = groups.pairs@;
    let mut r: Vec<(String, String, String)> = Vec::new();
    let n = groups.len();
    let mut i: usize = 0;
    while i < n
        invariant
            i <= n,
            n == gpairs.len(),
            gpairs == groups.pairs@,
            forall|q: int| 0 <= q < gpairs.len() ==> (#[trigger] gpairs[q].1).wf(),
            r@.map_values(|t: (String, String, String)| (t.0@, t.1@, t.2@)) == flatten_doc(
                gpairs.take(i as int),
            ),
        decreases n - i,
    {
        let grp = &groups.pairs[i].1;
        let ghost mpairs = grp.mapping.pairs@;
        let m = grp.mapping.len();
        let mut k: usize = 0;
        while k < m
            invariant
                k <= m,
                m == mpairs.len(),
                mpairs == gpairs[i as int].1.mapping.pairs@,
                0 <= i < gpairs.len(),
                gpairs == groups.pairs@,
                r@.map_values(|t: (String, String, String)| (t.0@, t.1@, t.2@)) == flatten_doc(
                    gpairs.take(i as int),
                ) + mpairs.take(k as int).map_values(
                    |q: (String, AliasSetting)| (gpairs[i as int].0@, q.0@, q.1@),
                ),
            decreases m - k,
        {
            let ghost rold = r@;
            let alias = groups.pairs[i].1.mapping.pairs[k].0.clone();
            let cmd = groups.pairs[i].1.mapping.pairs[k].1.cmd.clone();
            r.push((groups.pairs[i].0.clone(), alias, cmd));
            k += 1;
            proof {
                let f = |t: (String, String, String)| (t.0@, t.1@, t.2@);
                let cl = |q: (String, AliasSetting)| (gpairs[i as int].0@, q.0@, q.1@);
                assert(r@.drop_last() =~= rold);
                assert(r@.map_values(f).drop_last() =~= rold.map_values(f));
                assert(r@.map_values(f).last() == f(r@.last()));
                assert(f(r@.last()) == (gpairs[i as int].0@, mpairs[k - 1].0@, mpairs[k - 1].1@));
                assert(mpairs.take(k as int) =~= mpairs.take(k - 1).push(mpairs[k - 1]));
                assert(mpairs.take(k as int).map_values(cl) =~= mpairs.take(k - 1).map_values(
                    cl,
                ).push(cl(mpairs[k - 1])));
                assert(rold.map_values(f) == flatten_doc(gpairs.take(i as int)) + mpairs.take(
                    k - 1,
                ).map_values(cl));
                assert(r@.map_values(f).len() == rold.map_values(f).len() + 1);
                assert forall|q: int| 0 <= q < r@.map_values(f).len() implies #[trigger] r@
                    .map_values(f)[q] == (flatten_doc(gpairs.take(i as int)) + mpairs.take(
                    k as int,
                ).map_values(cl))[q] by {
                    if q < rold.len() {
                        assert(r@.map_values(f)[q] == rold.map_values(f)[q]);
                    }
                }
                assert(r@.map_values(f) =~= flatten_doc(gpairs.take(i as int)) + mpairs.take(
                    k as int,
                ).map_values(cl));
            }
        }
        i += 1;
        proof {
            assert(mpairs.take(m as int) =~= mpairs);
            assert(gpairs.take(i as int).drop_last() =~= gpairs.take(i - 1));
            assert(gpairs.take(i as int).last() == gpairs[i - 1]);
            assert(r@.map_values(|t: (String, String, String)| (t.0@, t.1@, t.2@)) =~= flatten_doc(
                gpairs.take(i as int),
            ));
        }
    }
    proof {
        assert(gpairs.take(n as int) =~= gpairs);
    }
    r
}

/// Administrative operations over an alias engine.
pub trait AliasManage: Sized {
    /// The loaded document of the managed engine.
    spec fn mdoc(&self) -> DocView;

    /// The managed engine's pending buffer.
    spec fn mbuf(&self) -> Map<Seq<char>, PendV>;

    /// The managed engine's platform.
    spec fn mplat(&self) -> PlatformKind;

    /// The managed engine's script root.
    spec fn mroot(&self) -> Seq<char>;

    /// The managed engine's invariant.
    spec fn minv(&self) -> bool;

    /// The managed engine's stored group list, in storage order.
    spec fn mpairs(&self) -> Seq<(String, AliasGroupSetting)>;

    /// Clears the document in memory and re-applies every entry as a fresh
    /// `Set`, committing the result: the script directory is regenerated
    /// from the document. The new settings text is rendered once, by the
    /// commit, which is also the one point where the operation can fail.
    fn rebuild(&mut self) -> (r: Result<CommitPlan, AliasError>)
        requires
            old(self).minv(),
            old(self).mbuf() == Map::<Seq<char>, PendV>::empty(),
        ensures
            final(self).minv(),
            final(self).mplat() == old(self).mplat(),
            final(self).mroot() == old(self).mroot(),
            final(self).mdoc().script_root == old(self).mdoc().script_root,
            final(self).mdoc().script_root_env_var_name == old(
                self,
            ).mdoc().script_root_env_var_name,
            match r {
                Ok(plan) => {
                    &&& rebuild_relates(old(self).mdoc().groups, final(self).mdoc().groups)
                    &&& final(self).mbuf() == Map::<Seq<char>, PendV>::empty()
                    &&& toml_ser_of(doc_model(final(self).mdoc())) == Some(plan.settings_text@)
                    &&& plan.actions@.map_values(|x: crate::engine::ScriptAction| x@).to_set()
                        == write_actions_of(
                        final(self).mdoc().groups,
                        old(self).mplat(),
                        old(self).mroot(),
                    )
                },
                Err(e) => {
                    &&& e.err == AliasErrorCode::ConfigWriteError
                    &&& toml_ser_of(doc_model(final(self).mdoc())) is None
                    &&& rebuild_relates(old(self).mdoc().groups, final(self).mdoc().groups)
                    &&& final(self).mbuf() == sets_from(
                        flatten_doc(old(self).mpairs()),
                        Map::empty(),
                    )
                },
            },
    ;

    /// Renders the whole document as TOML text, for an external file.
    fn export(&self) -> (r: Result<String, AliasError>)
        requires
            self.minv(),
        ensures
            match r {
                Ok(s) => toml_ser_of(doc_model(self.mdoc())) == Some(s@),
                Err(e) => toml_ser_of(doc_model(self.mdoc())) is None && e.err
                    == AliasErrorCode::ConfigWriteError,
            },
    ;

    /// Replaces the whole document from external TOML text and rebuilds.
    fn import(&mut self, content: &String) -> (r: Result<CommitPlan, AliasError>)
        requires
            old(self).minv(),
            old(self).mbuf() == Map::<Seq<char>, PendV>::empty(),
        ensures
            final(self).minv(),
            final(self).mplat() == old(self).mplat(),
            final(self).mroot() == old(self).mroot(),
            match r {
                Ok(plan) => {
                    &&& toml_parse_of(content@) is Some
                    &&& doc_of_model(toml_parse_of(content@)->0) is Some
                    &&& rebuild_relates(
                        doc_of_model(toml_parse_of(content@)->0)->0.groups,
                        final(self).mdoc().groups,
                    )
                    &&& final(self).mbuf() == Map::<Seq<char>, PendV>::empty()
                    &&& toml_ser_of(doc_model(final(self).mdoc())) == Some(plan.settings_text@)
                    &&& plan.actions@.map_values(|x: crate::engine::ScriptAction| x@).to_set()
                        == write_actions_of(
                        final(self).mdoc().groups,
                        old(self).mplat(),
                        old(self).mroot(),
                    )
                },
                Err(e) => {
                    &&& (e.err == AliasErrorCode::ConfigParseError || e.err
                        == AliasErrorCode::ConfigWriteError)
                    &&& (e.err == AliasErrorCode::ConfigParseError) == (toml_parse_of(content@)
                        is None || doc_of_model(toml_parse_of(content@)->0) is None)
                    &&& e.err == AliasErrorCode::ConfigParseError ==> final(self).mdoc() == old(
                        self,
                    ).mdoc() && final(self).mbuf() == old(self).mbuf()
                    &&& e.err == AliasErrorCode::ConfigWriteError ==> toml_ser_of(
                        doc_model(final(self).mdoc()),
                    ) is None && rebuild_relates(
                        doc_of_model(toml_parse_of(content@)->0)->0.groups,
                        final(self).mdoc().groups,
                    )
                },
            },
    ;
}

/// The manager: administrative operations over one owned engine.
pub struct AliasManager<A: Alias> {
    pub alias_base: A,
}

impl<A: Alias> AliasManager<A> {
    pub fn new(alias_base: A) -> (r: Self)
        ensures
            r.alias_base == alias_base,
    {
        Self { alias_base }
    }
}

impl<A: Alias> AliasManage for AliasManager<A> {
    open spec fn mdoc(&self) -> DocView {
        self.alias_base.doc_view()
    }

    open spec fn mbuf(&self) -> Map<Seq<char>, PendV> {
        self.alias_base.buf_view()
    }

    open spec fn mplat(&self) -> PlatformKind {
        self.alias_base.plat()
    }

    open spec fn mroot(&self) -> Seq<char> {
        self.alias_base.root_view()
    }

    open spec fn minv(&self) -> bool {
        self.alias_base.inv()
    }

    open spec fn mpairs(&self) -> Seq<(String, AliasGroupSetting)> {
        self.alias_base.doc_pairs()
    }

    fn rebuild(&mut self) -> (r: Result<CommitPlan, AliasError>) {
        let ghost orig = self.alias_base.doc_view().groups;
        let all = self.alias_base.get_all();
        let ghost gpairs = all.pairs@;
        proof {
            lemma_rebuild_result(gpairs);
        }
        let entries = collect_entries(all);
        let ghost ts = flatten_doc(gpairs);
        // empty the document in memory, keeping the global settings; the
        // commit below renders the whole new text in one step
        let emptied = {
            let current = self.alias_base.setting();
            TomlSetting {
                global: GlobalSetting {
                    script_root: match &current.global.script_root {
                        Some(s) => Some(s.clone()),
                        None => None,
                    },
                    script_root_env_var_name: match &current.global.script_root_env_var_name {
                        Some(s) => Some(s.clone()),
                        None => None,
                    },
                },
                alias: StrMap::new(),
            }
        };
        self.alias_base.overwrite_setting(emptied);
        let n = entries.len();
        let mut j: usize = 0;
        proof {
            assert(ts.take(0) =~= Seq::<(Seq<char>, Seq<char>, Seq<char>)>::empty());
        }
        while j < n
            invariant
                j <= n,
                n == entries@.len(),
                entries@.map_values(|t: (String, String, String)| (t.0@, t.1@, t.2@)) == ts,
                self.alias_base.inv(),
                self.alias_base.plat() == old(self).alias_base.plat(),
                self.alias_base.root_view() == old(self).alias_base.root_view(),
                self.alias_base.doc_view().groups == Map::<
                    Seq<char>,
                    Map<Seq<char>, Seq<char>>,
                >::empty(),
                self.alias_base.doc_view().script_root == old(self).mdoc().script_root,
                self.alias_base.doc_view().script_root_env_var_name == old(
                    self,
                ).mdoc().script_root_env_var_name,
                self.alias_base.buf_view() == sets_from(ts.take(j as int), Map::empty()),
            decreases n - j,
        {
            let group = entries[j].0.clone();
            let alias = entries[j].1.clone();
            let cmd = entries[j].2.clone();
            self.alias_base.set(group, alias, AliasSetting { cmd });
            j += 1;
            proof {
                assert(ts.take(j as int).drop_last() =~= ts.take(j - 1));
                assert(ts.take(j as int).last() == ts[j - 1]);
                assert(ts[j - 1] == (entries@[j - 1].0@, entries@[j - 1].1@, entries@[j - 1].2@));
            }
        }
        proof {
            assert(ts.take(n as int) =~= ts);
        }
        let plan = match self.alias_base.commit() {
            Ok(p) => p,
            Err(e) => {
                return Err(e);
            },
        };
        proof {
            let buf = sets_from(ts, Map::empty());
            let finalg = self.alias_base.doc_view().groups;
            let av = plan.actions@.map_values(|x: crate::engine::ScriptAction| x@);
            let plat = old(self).alias_base.plat();
            let root = old(self).alias_base.root_view();
            assert forall|x: ScriptActionV| av.to_set().contains(x) implies write_actions_of(
                finalg,
                plat,
                root,
            ).contains(x) by {
                let i = choose|i: int| 0 <= i < av.len() && av[i] == x;
                let names = choose|names: Seq<Seq<char>>|
                    crate::engine::plan_matches(names, av, buf, plat, root);
                let a = names[i];
                assert(names.to_set().contains(a));
                assert(buf.dom().contains(a));
                lemma_sets_from_entry(ts, a);
                let g = buf[a].group;
                assert(sets_into(buf, g, a));
                assert(finalg.dom().contains(g) && finalg[g].dom().contains(a));
                assert(finalg[g][a] == buf[a].setting->0);
                assert(x == crate::engine::action_of(plat, root, a, buf[a]));
            }
            assert forall|x: ScriptActionV| write_actions_of(finalg, plat, root).contains(
                x,
            ) implies av.to_set().contains(x) by {
                let (g, a) = choose|g: Seq<char>, a: Seq<char>|
                    finalg.dom().contains(g) && #[trigger] finalg[g].dom().contains(a) && x
                        == (ScriptActionV::Write {
                        path: script_path_of(plat, root, a),
                        content: script_content(plat, finalg[g][a]),
                    });
                assert(sets_into(buf, g, a));
                assert(finalg[g][a] == buf[a].setting->0);
                lemma_plan_covers_elem(av, buf, plat, root, a);
                assert(crate::engine::action_of(plat, root, a, buf[a]) == x);
            }
            assert(av.to_set() =~= write_actions_of(finalg, plat, root));
        }
        Ok(plan)
    }

    fn export(&self) -> (r: Result<String, AliasError>) {
        serialize_setting(self.alias_base.setting())
    }

    fn import(&mut self, content: &String) -> (r: Result<CommitPlan, AliasError>) {
        let doc = match parse_setting(content) {
            Ok(d) => d,
            Err(e) => {
                return Err(e);
            },
        };
        self.alias_base.overwrite_setting(doc);
        self.rebuild()
    }
}

} // verus!
