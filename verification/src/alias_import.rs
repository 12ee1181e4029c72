//! The importer: re-applies every alias already in the document as a fresh
//! `Set` and commits, so the script directory is regenerated without
//! touching the document. Re-setting existing entries merges to the same
//! document, which `lemma_merged_redundant` proves.

use vstd::prelude::*;

use crate::alias::Alias;
use crate::alias_manage::{
    flatten_doc, lemma_flatten_covers, lemma_flatten_entry, lemma_sets_from_covers,
    lemma_sets_from_entry, sets_from, write_actions_of,
};
use crate::buffer::PendV;
use crate::codec::doc_model;
use crate::engine::{
    alias_name_set, group_after, lemma_plan_covers_elem, merged_groups, removes_from, sets_into,
    CommitPlan, ScriptActionV,
};
use crate::error::AliasError;
use crate::script::{script_content, script_path_of};
use crate::setting::AliasSetting;
use crate::strmap::assoc_view;
use crate::toml_io::toml_ser_of;

verus! {

/// Merging a buffer that only re-sets existing entries changes nothing.
pub proof fn lemma_merged_redundant(
    groups: Map<Seq<char>, Map<Seq<char>, Seq<char>>>,
    buf: Map<Seq<char>, PendV>,
)
    requires
        forall|a: Seq<char>|
            #[trigger] buf.dom().contains(a) ==> buf[a].kind is SetAlias && buf[a].setting is Some
                && groups.dom().contains(buf[a].group) && groups[buf[a].group].dom().contains(a)
                && groups[buf[a].group][a] == buf[a].setting->0,
    ensures
        merged_groups(groups, buf) == groups,
{
    let merged = merged_groups(groups, buf);
    assert forall|g: Seq<char>| merged.dom().contains(g) == groups.dom().contains(g) by {
        if !groups.dom().contains(g) && merged.dom().contains(g) {
            let a = choose|a: Seq<char>| sets_into(buf, g, a);
            assert(buf.dom().contains(a));
        }
    }
    assert forall|g: Seq<char>| groups.dom().contains(g) implies merged[g] == groups[g] by {
        assert forall|a: Seq<char>|
            group_after(groups[g], buf, g).dom().contains(a) == groups[g].dom().contains(a) by {
            if sets_into(buf, g, a) {
                assert(buf.dom().contains(a));
            }
            if removes_from(buf, g, a) {
                assert(buf.dom().contains(a));
            }
        }
        assert forall|a: Seq<char>| groups[g].dom().contains(a) implies group_after(
            groups[g],
            buf,
            g,
        )[a] == groups[g][a] by {
            if sets_into(buf, g, a) {
                assert(buf.dom().contains(a));
            }
        }
        assert(group_after(groups[g], buf, g) =~= groups[g]);
    }
    assert(merged =~= groups);
}

/// A committed re-set plan only writes scripts the document calls for, and
/// writes one for every alias of the document.
proof fn lemma_import_plan(
    gpairs: Seq<(String, crate::setting::AliasGroupSetting)>,
    av: Seq<ScriptActionV>,
    plat: crate::script::PlatformKind,
    root: Seq<char>,
)
    requires
        gpairs.map_values(|p: (String, crate::setting::AliasGroupSetting)| p.0@).no_duplicates(),
        forall|i: int| 0 <= i < gpairs.len() ==> (#[trigger] gpairs[i].1).wf(),
        crate::engine::plan_covers(
            av,
            sets_from(flatten_doc(gpairs), Map::empty()),
            plat,
            root,
        ),
    ensures
        av.to_set().subset_of(write_actions_of(assoc_view(gpairs), plat, root)),
        forall|a: Seq<char>|
            #[trigger] alias_name_set(assoc_view(gpairs)).contains(a) ==> exists|c: Seq<u8>|
                #[trigger] av.contains(
                    (ScriptActionV::Write { path: script_path_of(plat, root, a), content: c }),
                ),
{
    let orig = assoc_view(gpairs);
    let ts = flatten_doc(gpairs);
    let buf = sets_from(ts, Map::empty());
    assert forall|x: ScriptActionV| av.to_set().contains(x) implies write_actions_of(
        orig,
        plat,
        root,
    ).contains(x) by {
        let i = choose|i: int| 0 <= i < av.len() && av[i] == x;
        let names = choose|names: Seq<Seq<char>>|
            crate::engine::plan_matches(names, av, buf, plat, root);
        let a = names[i];
        assert(names.to_set().contains(a));
        assert(buf.dom().contains(a));
        lemma_sets_from_entry(ts, a);
        lemma_flatten_entry(gpairs, (buf[a].group, a, buf[a].setting->0));
        let g = buf[a].group;
        assert(orig.dom().contains(g) && orig[g].dom().contains(a) && orig[g][a]
            == buf[a].setting->0);
        assert(x == crate::engine::action_of(plat, root, a, buf[a]));
    }
    assert forall|a: Seq<char>| #[trigger] alias_name_set(orig).contains(a) implies exists|
        c: Seq<u8>,
    |
        #[trigger] av.contains(
            (ScriptActionV::Write { path: script_path_of(plat, root, a), content: c }),
        ) by {
        let g = choose|g: Seq<char>|
            #[trigger] orig[g].dom().contains(a) && orig.dom().contains(g);
        lemma_flatten_covers(gpairs, g, a);
        let i = choose|i: int| 0 <= i < ts.len() && ts[i] == (g, a, orig[g][a]);
        lemma_sets_from_covers(ts, i);
        lemma_sets_from_entry(ts, a);
        lemma_plan_covers_elem(av, buf, plat, root, a);
        let c = script_content(plat, buf[a].setting->0);
        assert(av.contains(
            (ScriptActionV::Write { path: script_path_of(plat, root, a), content: c }),
        ));
    }
}

/// Regenerates the script of every alias in the document.
pub trait AliasImport: Sized {
    /// The loaded document of the wrapped engine.
    spec fn idoc(&self) -> crate::setting::DocView;

    /// The wrapped engine's pending buffer.
    spec fn ibuf(&self) -> Map<Seq<char>, PendV>;

    /// The wrapped engine's platform.
    spec fn iplat(&self) -> crate::script::PlatformKind;

    /// The wrapped engine's script root.
    spec fn iroot(&self) -> Seq<char>;

    /// The wrapped engine's invariant.
    spec fn iinv(&self) -> bool;

    /// The wrapped engine's stored group list, in storage order.
    spec fn ipairs(&self) -> Seq<(String, crate::setting::AliasGroupSetting)>;

    /// Re-applies every alias of the document as a fresh `Set` and commits:
    /// the document is unchanged, and every alias's script is rewritten.
    fn import(&mut self) -> (r: Result<CommitPlan, AliasError>)
        requires
            old(self).iinv(),
            old(self).ibuf() == Map::<Seq<char>, PendV>::empty(),
        ensures
            final(self).iinv(),
            final(self).iplat() == old(self).iplat(),
            final(self).iroot() == old(self).iroot(),
            final(self).idoc() == old(self).idoc(),
            match r {
                Ok(plan) => {
                    &&& final(self).ibuf() == Map::<Seq<char>, PendV>::empty()
                    &&& toml_ser_of(doc_model(final(self).idoc())) == Some(plan.settings_text@)
                    &&& crate::engine::actions_views(plan.actions@).to_set().subset_of(
                        write_actions_of(
                            old(self).idoc().groups,
                            old(self).iplat(),
                            old(self).iroot(),
                        ),
                    )
                    &&& forall|a: Seq<char>|
                        #[trigger] alias_name_set(old(self).idoc().groups).contains(a)
                            ==> exists|c: Seq<u8>|
                            #[trigger] crate::engine::actions_views(plan.actions@).contains(
                                (ScriptActionV::Write {
                                    path: script_path_of(old(self).iplat(), old(self).iroot(), a),
                                    content: c,
                                }),
                            )
                },
                Err(e) => {
                    &&& e.err == crate::error::AliasErrorCode::ConfigWriteError
                    &&& toml_ser_of(doc_model(old(self).idoc())) is None
                    &&& final(self).ibuf() == sets_from(
                        flatten_doc(old(self).ipairs()),
                        Map::empty(),
                    )
                },
            },
    ;
}

/// The importer over one owned engine.
pub struct AliasImporter<A: Alias> {
    pub alias: A,
}

impl<A: Alias> AliasImporter<A> {
    pub fn new(alias: A) -> (r: Result<Self, AliasError>)
        ensures
            r is Ok,
            r->Ok_0.alias == alias,
    {
        Ok(Self { alias })
    }
}

impl<A: Alias> AliasImport for AliasImporter<A> {
    open spec fn idoc(&self) -> crate::setting::DocView {
        self.alias.doc_view()
    }

    open spec fn ibuf(&self) -> Map<Seq<char>, PendV> {
        self.alias.buf_view()
    }

    open spec fn iplat(&self) -> crate::script::PlatformKind {
        self.alias.plat()
    }

    open spec fn iroot(&self) -> Seq<char> {
        self.alias.root_view()
    }

    open spec fn iinv(&self) -> bool {
        self.alias.inv()
    }

    open spec fn ipairs(&self) -> Seq<(String, crate::setting::AliasGroupSetting)> {
        self.alias.doc_pairs()
    }

    #[verifier::rlimit(60)]
    #[verifier::spinoff_prover]
    fn import(&mut self) -> (r: Result<CommitPlan, AliasError>) {
        let ghost orig = self.alias.doc_view().groups;
        let all = self.alias.get_all();
        let ghost gpairs = all.pairs@;
        let entries = crate::alias_manage::collect_entries(all);
        let ghost ts = flatten_doc(gpairs);
        let n = entries.len();
        let mut j: usize = 0;
        proof {
            assert(ts.take(0) =~= Seq::<(Seq<char>, Seq<char>, Seq<char>)>::empty());
        }
        while j < n
            invariant
                j <= n,
                n == entries@.len(),
                entries@.map_values(|t: (String, String, String)| (t.0@, t.1@, t.2@)) == ts,
                self.alias.inv(),
                self.alias.plat() == old(self).alias.plat(),
                self.alias.root_view() == old(self).alias.root_view(),
                self.alias.doc_view() == old(self).alias.doc_view(),
                self.alias.buf_view() == sets_from(ts.take(j as int), Map::empty()),
            decreases n - j,
        {
            let group = entries[j].0.clone();
            let alias = entries[j].1.clone();
            let cmd = entries[j].2.clone();
            self.alias.set(group, alias, AliasSetting { cmd });
            j += 1;
            proof {
                assert(ts.take(j as int).drop_last() =~= ts.take(j - 1));
                assert(ts.take(j as int).last() == ts[j - 1]);
                assert(ts[j - 1] == (entries@[j - 1].0@, entries@[j - 1].1@, entries@[j - 1].2@));
            }
        }
        proof {
            assert(ts.take(n as int) =~= ts);
            let buf = sets_from(ts, Map::empty());
            assert forall|a: Seq<char>| #[trigger] buf.dom().contains(a) implies buf[a].kind is
                SetAlias && buf[a].setting is Some && orig.dom().contains(buf[a].group)
                && orig[buf[a].group].dom().contains(a) && orig[buf[a].group][a]
                == buf[a].setting->0 by {
                lemma_sets_from_entry(ts, a);
                lemma_flatten_entry(gpairs, (buf[a].group, a, buf[a].setting->0));
            }
            lemma_merged_redundant(orig, buf);
        }
        let plan = match self.alias.commit() {
            Ok(p) => p,
            Err(e) => {
                return Err(e);
            },
        };
        proof {
            lemma_import_plan(
                gpairs,
                crate::engine::actions_views(plan.actions@),
                old(self).alias.plat(),
                old(self).alias.root_view(),
            );
        }
        Ok(plan)
    }
}

} // verus!
