//! The façade each platform variant implements with one and the same
//! contract: pure reads of the loaded document, buffered mutations, and the
//! commit/clear/overwrite operations of the shared engine. Implementations
//! differ only in script format and activation mechanism.

use vstd::prelude::*;

use crate::buffer::{group_removals, MutationKind, PendV};
use crate::codec::doc_model;
use crate::engine::{alias_name_set, group_name_list, merged_groups, plan_covers, CommitPlan};
use crate::error::{AliasError, AliasErrorCode};
use crate::script::PlatformKind;
use crate::setting::{AliasGroupSetting, AliasSetting, DocView, TomlSetting};
use crate::strmap::StrMap;
use crate::toml_io::toml_ser_of;

verus! {

/// One platform's alias engine. All state the contracts speak of is
/// exposed through the spec functions; every method behaves identically on
/// every platform.
pub trait Alias: Sized {
    /// The loaded document.
    spec fn doc_view(&self) -> DocView;

    /// The pending mutation buffer.
    spec fn buf_view(&self) -> Map<Seq<char>, PendV>;

    /// The platform the engine generates scripts for.
    spec fn plat(&self) -> PlatformKind;

    /// The resolved script root.
    spec fn root_view(&self) -> Seq<char>;

    /// The engine's invariant.
    spec fn inv(&self) -> bool;

    /// The stored group list realizing the document, in storage order.
    spec fn doc_pairs(&self) -> Seq<(String, AliasGroupSetting)>;

    /// The group list realizes the document: its association view is the
    /// group map, its group names are unique, and its groups are
    /// well-formed.
    proof fn pairs_agree(&self)
        requires
            self.inv(),
        ensures
            self.doc_view().groups == crate::strmap::assoc_view(self.doc_pairs()),
            self.doc_pairs().map_values(
                |p: (String, AliasGroupSetting)| p.0@,
            ).no_duplicates(),
            forall|i: int|
                0 <= i < self.doc_pairs().len() ==> (#[trigger] self.doc_pairs()[i].1).wf(),
    ;

    /// The loaded settings document itself.
    fn setting(&self) -> (r: &TomlSetting)
        requires
            self.inv(),
        ensures
            r@ == self.doc_view(),
            r.wf(),
    ;

    /// The alias's setting in the given group; reads never see buffered
    /// mutations.
    fn get(&self, group: &String, alias: &String) -> (r: Option<AliasSetting>)
        requires
            self.inv(),
        ensures
            match r {
                Some(s) => self.doc_view().groups.dom().contains(group@)
                    && self.doc_view().groups[group@].dom().contains(alias@) && s@
                    == self.doc_view().groups[group@][alias@],
                None => !(self.doc_view().groups.dom().contains(group@)
                    && self.doc_view().groups[group@].dom().contains(alias@)),
            },
    ;

    /// The whole group, if present.
    fn get_group(&self, group: &String) -> (r: Option<&AliasGroupSetting>)
        requires
            self.inv(),
        ensures
            match r {
                Some(g) => self.doc_view().groups.dom().contains(group@) && g@
                    == self.doc_view().groups[group@] && g.wf(),
                None => !self.doc_view().groups.dom().contains(group@),
            },
    ;

    /// The whole group map.
    fn get_all(&self) -> (r: &StrMap<AliasGroupSetting>)
        requires
            self.inv(),
        ensures
            r@ == self.doc_view().groups,
            r.pairs@ == self.doc_pairs(),
            r.wf(),
            forall|i: int| 0 <= i < r.pairs@.len() ==> (#[trigger] r.pairs@[i].1).wf(),
    ;

    /// Every alias name present in the document: group by group in storage
    /// order, each group's aliases in their stored order. A name held by
    /// several groups appears once per group.
    fn list(&self) -> (r: Vec<String>)
        requires
            self.inv(),
        ensures
            r@.map_values(|s: String| s@) == group_name_list(
                self.doc_pairs(),
                self.doc_pairs().len() as int,
            ),
            r@.map_values(|s: String| s@).to_set() == alias_name_set(self.doc_view().groups),
    ;

    /// Buffers a set; the document is unchanged until `commit`.
    fn set(&mut self, group: String, alias: String, setting: AliasSetting)
        requires
            old(self).inv(),
        ensures
            final(self).inv(),
            final(self).buf_view() == old(self).buf_view().insert(
                alias@,
                PendV { kind: MutationKind::SetAlias, group: group@, setting: Some(setting@) },
            ),
            final(self).doc_view() == old(self).doc_view(),
            final(self).doc_pairs() == old(self).doc_pairs(),
            final(self).plat() == old(self).plat(),
            final(self).root_view() == old(self).root_view(),
    ;

    /// Buffers a removal; the document is unchanged until `commit`.
    fn remove(&mut self, group: &String, alias: &String)
        requires
            old(self).inv(),
        ensures
            final(self).inv(),
            final(self).buf_view() == old(self).buf_view().insert(
                alias@,
                PendV { kind: MutationKind::RemoveAlias, group: group@, setting: None },
            ),
            final(self).doc_view() == old(self).doc_view(),
            final(self).doc_pairs() == old(self).doc_pairs(),
            final(self).plat() == old(self).plat(),
            final(self).root_view() == old(self).root_view(),
    ;

    /// Buffers a removal for every alias currently present in `group` per
    /// the loaded document.
    fn remove_group(&mut self, group: &String)
        requires
            old(self).inv(),
        ensures
            final(self).inv(),
            final(self).buf_view() == old(self).buf_view().union_prefer_right(
                group_removals(old(self).doc_view().groups, group@),
            ),
            final(self).doc_view() == old(self).doc_view(),
            final(self).doc_pairs() == old(self).doc_pairs(),
            final(self).plat() == old(self).plat(),
            final(self).root_view() == old(self).root_view(),
    ;

    /// Immediately empties the document's groups and renders the new
    /// settings text, bypassing the buffer; generated scripts stay on disk.
    fn clear(&mut self) -> (r: Result<String, AliasError>)
        requires
            old(self).inv(),
        ensures
            final(self).inv(),
            final(self).doc_view().groups == Map::<Seq<char>, Map<Seq<char>, Seq<char>>>::empty(),
            final(self).doc_view().script_root == old(self).doc_view().script_root,
            final(self).doc_view().script_root_env_var_name == old(
                self,
            ).doc_view().script_root_env_var_name,
            final(self).buf_view() == old(self).buf_view(),
            final(self).plat() == old(self).plat(),
            final(self).root_view() == old(self).root_view(),
            match r {
                Ok(s) => toml_ser_of(doc_model(final(self).doc_view())) == Some(s@),
                Err(e) => toml_ser_of(doc_model(final(self).doc_view())) is None && e.err
                    == AliasErrorCode::ConfigWriteError,
            },
    ;

    /// Merges the buffer into the document; on success the settings text
    /// and one script action per mutated alias come back and the buffer is
    /// cleared.
    fn commit(&mut self) -> (r: Result<CommitPlan, AliasError>)
        requires
            old(self).inv(),
        ensures
            final(self).inv(),
            final(self).plat() == old(self).plat(),
            final(self).root_view() == old(self).root_view(),
            final(self).doc_view().groups == merged_groups(
                old(self).doc_view().groups,
                old(self).buf_view(),
            ),
            final(self).doc_view().script_root == old(self).doc_view().script_root,
            final(self).doc_view().script_root_env_var_name == old(
                self,
            ).doc_view().script_root_env_var_name,
            match r {
                Ok(plan) => {
                    &&& toml_ser_of(doc_model(final(self).doc_view())) == Some(
                        plan.settings_text@,
                    )
                    &&& plan_covers(
                        plan.actions@.map_values(|x: crate::engine::ScriptAction| x@),
                        old(self).buf_view(),
                        old(self).plat(),
                        old(self).root_view(),
                    )
                    &&& final(self).buf_view() == Map::<Seq<char>, PendV>::empty()
                },
                Err(e) => {
                    &&& toml_ser_of(doc_model(final(self).doc_view())) is None
                    &&& e.err == AliasErrorCode::ConfigWriteError
                    &&& final(self).buf_view() == old(self).buf_view()
                },
            },
    ;

    /// Replaces the whole in-memory document; the buffer is untouched.
    fn overwrite_setting(&mut self, setting: TomlSetting)
        requires
            old(self).inv(),
            setting.wf(),
        ensures
            final(self).inv(),
            final(self).doc_view() == setting@,
            final(self).buf_view() == old(self).buf_view(),
            final(self).plat() == old(self).plat(),
            final(self).root_view() == old(self).root_view(),
    ;
}

} // verus!
