//! The Linux alias engine: the shared POSIX behaviour, unchanged.

use vstd::prelude::*;

use crate::alias::Alias;
use crate::engine::CommitPlan;
use crate::error::AliasError;
use crate::script::PlatformKind;
use crate::setting::{AliasGroupSetting, AliasSetting, DocView, TomlSetting};
use crate::strmap::StrMap;
use crate::unix_like_base::UnixLikeAlias;

verus! {

/// The Linux alias engine, delegating to the shared POSIX base.
pub struct LinuxAlias {
    pub unix_like_base: UnixLikeAlias,
}

impl LinuxAlias {
    /// Builds the engine over a loaded document.
    pub fn new(home: &String, doc: TomlSetting) -> (r: Self)
        requires
            doc.wf(),
        ensures
            r.inv(),
            r.plat() == PlatformKind::Posix,
            r.doc_view() == doc@,
            r.buf_view() == Map::<Seq<char>, crate::buffer::PendV>::empty(),
            r.root_view() == (match doc@.script_root {
                Some(s) => s,
                None => crate::unix_like_base::default_script_home_of(home@),
            }),
    {
        LinuxAlias { unix_like_base: UnixLikeAlias::new(home, doc) }
    }
}

impl Alias for LinuxAlias {
    open spec fn doc_view(&self) -> DocView {
        self.unix_like_base.doc_view()
    }

    open spec fn buf_view(&self) -> Map<Seq<char>, crate::buffer::PendV> {
        self.unix_like_base.buf_view()
    }

    open spec fn plat(&self) -> PlatformKind {
        self.unix_like_base.plat()
    }

    open spec fn root_view(&self) -> Seq<char> {
        self.unix_like_base.root_view()
    }

    open spec fn doc_pairs(&self) -> Seq<(String, AliasGroupSetting)> {
        self.unix_like_base.doc_pairs()
    }

    proof fn pairs_agree(&self) {
        assert(self.inv());
        assert(self.unix_like_base.inv());
        self.unix_like_base.pairs_agree();
    }

    open spec fn inv(&self) -> bool {
        self.unix_like_base.inv()
    }

    fn setting(&self) -> (r: &TomlSetting) {
        self.unix_like_base.setting()
    }

    fn get(&self, group: &String, alias: &String) -> (r: Option<AliasSetting>) {
        self.unix_like_base.get(group, alias)
    }

    fn get_group(&self, group: &String) -> (r: Option<&AliasGroupSetting>) {
        self.unix_like_base.get_group(group)
    }

    fn get_all(&self) -> (r: &StrMap<AliasGroupSetting>) {
        self.unix_like_base.get_all()
    }

    fn list(&self) -> (r: Vec<String>) {
        self.unix_like_base.list()
    }

    fn set(&mut self, group: String, alias: String, setting: AliasSetting) {
        self.unix_like_base.set(group, alias, setting);
    }

    fn remove(&mut self, group: &String, alias: &String) {
        self.unix_like_base.remove(group, alias);
    }

    fn remove_group(&mut self, group: &String) {
        self.unix_like_base.remove_group(group);
    }

    fn clear(&mut self) -> (r: Result<String, AliasError>) {
        self.unix_like_base.clear()
    }

    fn commit(&mut self) -> (r: Result<CommitPlan, AliasError>) {
        self.unix_like_base.commit()
    }

    fn overwrite_setting(&mut self, setting: TomlSetting) {
        self.unix_like_base.overwrite_setting(setting);
    }
}

} // verus!
