//! The engine's laws, stated over the same models its contracts use: what a
//! committed `set` or `remove` leaves in the document and in the script
//! plan, that buffering is last-write-wins, and that a group removal
//! survives unrelated buffered work.

use vstd::prelude::*;

use crate::buffer::{group_removals, MutationKind, PendV};
use crate::engine::{
    action_of, lemma_plan_covers_elem, merged_groups, plan_covers, removes_from, sets_into,
    ScriptActionV,
};
use crate::script::{script_content, script_path_of, PlatformKind};

verus! {

/// The buffered mutation a `set(group, alias, setting)` records.
pub open spec fn set_mutation(g: Seq<char>, s: Seq<char>) -> PendV {
    PendV { kind: MutationKind::SetAlias, group: g, setting: Some(s) }
}

/// The buffered mutation a `remove(group, alias)` records.
pub open spec fn remove_mutation(g: Seq<char>) -> PendV {
    PendV { kind: MutationKind::RemoveAlias, group: g, setting: None }
}

/// After `set(g, a, s)` is committed, the document maps `a` to `s` in `g`
/// (creating the group if needed), and the plan writes `a`'s script with
/// content derived from `s` at its expected path.
pub proof fn lemma_set_then_commit(
    groups: Map<Seq<char>, Map<Seq<char>, Seq<char>>>,
    buf: Map<Seq<char>, PendV>,
    actions: Seq<ScriptActionV>,
    plat: PlatformKind,
    root: Seq<char>,
    g: Seq<char>,
    a: Seq<char>,
    s: Seq<char>,
)
    requires
        plan_covers(actions, buf.insert(a, set_mutation(g, s)), plat, root),
    ensures
        merged_groups(groups, buf.insert(a, set_mutation(g, s))).dom().contains(g),
        merged_groups(groups, buf.insert(a, set_mutation(g, s)))[g].dom().contains(a),
        merged_groups(groups, buf.insert(a, set_mutation(g, s)))[g][a] == s,
        actions.contains(
            ScriptActionV::Write {
                path: script_path_of(plat, root, a),
                content: script_content(plat, s),
            },
        ),
{
    let buf2 = buf.insert(a, set_mutation(g, s));
    assert(sets_into(buf2, g, a));
    assert(!removes_from(buf2, g, a));
    lemma_plan_covers_elem(actions, buf2, plat, root, a);
    assert(action_of(plat, root, a, buf2[a]) == (ScriptActionV::Write {
        path: script_path_of(plat, root, a),
        content: script_content(plat, s),
    }));
}

/// After `remove(g, a)` is committed, `a` is gone from `g` (the group
/// itself is kept), and the plan removes `a`'s script at its expected path.
pub proof fn lemma_remove_then_commit(
    groups: Map<Seq<char>, Map<Seq<char>, Seq<char>>>,
    buf: Map<Seq<char>, PendV>,
    actions: Seq<ScriptActionV>,
    plat: PlatformKind,
    root: Seq<char>,
    g: Seq<char>,
    a: Seq<char>,
)
    requires
        plan_covers(actions, buf.insert(a, remove_mutation(g)), plat, root),
    ensures
        merged_groups(groups, buf.insert(a, remove_mutation(g))).dom().contains(g)
            ==> !merged_groups(groups, buf.insert(a, remove_mutation(g)))[g].dom().contains(a),
        groups.dom().contains(g) ==> merged_groups(
            groups,
            buf.insert(a, remove_mutation(g)),
        ).dom().contains(g),
        actions.contains(ScriptActionV::Remove { path: script_path_of(plat, root, a) }),
{
    let buf2 = buf.insert(a, remove_mutation(g));
    assert(removes_from(buf2, g, a));
    lemma_plan_covers_elem(actions, buf2, plat, root, a);
    assert(action_of(plat, root, a, buf2[a]) == (ScriptActionV::Remove {
        path: script_path_of(plat, root, a),
    }));
}

/// Buffering is last-write-wins: two buffered sets of the same alias leave
/// only the later one, so committing yields the later setting.
pub proof fn lemma_set_last_write_wins(
    groups: Map<Seq<char>, Map<Seq<char>, Seq<char>>>,
    buf: Map<Seq<char>, PendV>,
    g: Seq<char>,
    a: Seq<char>,
    s1: Seq<char>,
    s2: Seq<char>,
)
    ensures
        buf.insert(a, set_mutation(g, s1)).insert(a, set_mutation(g, s2)) == buf.insert(
            a,
            set_mutation(g, s2),
        ),
        merged_groups(groups, buf.insert(a, set_mutation(g, s1)).insert(a, set_mutation(g, s2)))[
            g][a] == s2,
{
    assert(buf.insert(a, set_mutation(g, s1)).insert(a, set_mutation(g, s2)) =~= buf.insert(
        a,
        set_mutation(g, s2),
    ));
    let buf2 = buf.insert(a, set_mutation(g, s2));
    assert(sets_into(buf2, g, a));
    assert(!removes_from(buf2, g, a));
}

/// A committed `remove_group(g)` empties `g`: every alias that was in `g`
/// at call time is removed, even where further mutations for other aliases
/// or other groups were buffered before the commit. (A later `set` that
/// reuses one of those very alias names overwrites its buffered removal and
/// is therefore excluded below.)
pub proof fn lemma_remove_group_then_commit(
    groups: Map<Seq<char>, Map<Seq<char>, Seq<char>>>,
    buf2: Map<Seq<char>, PendV>,
    g: Seq<char>,
)
    requires
        groups.dom().contains(g),
        // the removals buffered by `remove_group(g)` are still in place
        forall|a: Seq<char>|
            #[trigger] groups[g].dom().contains(a) ==> buf2.dom().contains(a) && buf2[a]
                == remove_mutation(g),
        // no buffered mutation sets an alias into `g`
        forall|a: Seq<char>| !(#[trigger] sets_into(buf2, g, a)),
    ensures
        merged_groups(groups, buf2).dom().contains(g),
        merged_groups(groups, buf2)[g] == Map::<Seq<char>, Seq<char>>::empty(),
{
    let merged = merged_groups(groups, buf2);
    assert forall|a: Seq<char>| !(#[trigger] merged[g].dom().contains(a)) by {
        if groups[g].dom().contains(a) {
            assert(removes_from(buf2, g, a));
        }
    }
    assert(merged[g] =~= Map::<Seq<char>, Seq<char>>::empty());
}

/// `remove_group` buffers exactly those removals, so its buffer state meets
/// the premises of `lemma_remove_group_then_commit` as long as later
/// mutations touch neither those alias names nor the group.
pub proof fn lemma_remove_group_buffer(
    groups: Map<Seq<char>, Map<Seq<char>, Seq<char>>>,
    buf: Map<Seq<char>, PendV>,
    g: Seq<char>,
)
    requires
        groups.dom().contains(g),
    ensures
        forall|a: Seq<char>|
            #[trigger] groups[g].dom().contains(a) ==> buf.union_prefer_right(
                group_removals(groups, g),
            ).dom().contains(a) && buf.union_prefer_right(group_removals(groups, g))[a]
                == remove_mutation(g),
{
}

} // verus!
