//! The shared POSIX engine: default locations under the home directory,
//! the engine construction with defaults resolved, and the profile-edit
//! decision behind `init`. Linux and macOS both delegate here.

use vstd::prelude::*;

use crate::activate::{shell_profile_of, updated_profile_content};
use crate::alias::Alias;
use crate::engine::{AliasEngine, CommitPlan};
use crate::error::{AliasError, AliasErrorCode};
use crate::script::{build_script_path, script_path_of, PlatformKind};
use crate::setting::{AliasGroupSetting, AliasSetting, DocView, TomlSetting};
use crate::strmap::StrMap;
use crate::text::contains_seq;

verus! {

/// The tool's directory under the user's home.
pub open spec fn default_home_of(home: Seq<char>) -> Seq<char> {
    home + "/.alias-rs"@
}

/// The default script directory.
pub open spec fn default_script_home_of(home: Seq<char>) -> Seq<char> {
    default_home_of(home) + "/script"@
}

/// The default settings file path.
pub open spec fn default_setting_path_of(home: Seq<char>) -> Seq<char> {
    default_home_of(home) + "/alias-setting.toml"@
}

/// The tool's directory under the given home directory.
pub fn get_default_home(home: &String) -> (r: String)
    ensures
        r@ == default_home_of(home@),
{
    let mut s = home.clone();
    s.append("/.alias-rs");
    s
}

/// The default script directory under the given home directory.
pub fn get_default_script_home(home: &String) -> (r: String)
    ensures
        r@ == default_script_home_of(home@),
{
    let mut s = get_default_home(home);
    s.append("/script");
    s
}

/// The default settings file path under the given home directory.
pub fn get_default_setting_path(home: &String) -> (r: String)
    ensures
        r@ == default_setting_path_of(home@),
{
    let mut s = get_default_home(home);
    s.append("/alias-setting.toml");
    s
}

/// The POSIX alias engine: plain scripts, profile-file activation.
pub struct UnixLikeAlias {
    pub base: AliasEngine,
}

impl UnixLikeAlias {
    /// Builds the engine over a loaded document; a missing script root
    /// falls back to the default under the home directory.
    pub fn new(home: &String, doc: TomlSetting) -> (r: Self)
        requires
            doc.wf(),
        ensures
            r.inv(),
            r.plat() == PlatformKind::Posix,
            r.doc_view() == doc@,
            r.buf_view() == Map::<Seq<char>, crate::buffer::PendV>::empty(),
            r.root_view() == (match doc@.script_root {
                Some(s) => s,
                None => default_script_home_of(home@),
            }),
    {
        let root = match &doc.global.script_root {
            Some(s) => s.clone(),
            None => get_default_script_home(home),
        };
        UnixLikeAlias { base: AliasEngine::new(PlatformKind::Posix, root, None, doc) }
    }

    /// The script path of one alias under this engine's script root.
    pub fn build_alias_script_path(&self, alias: &String) -> (r: String)
        ensures
            r@ == script_path_of(PlatformKind::Posix, self.root_view(), alias@),
    {
        build_script_path(PlatformKind::Posix, &self.base.script_root, alias)
    }

    /// The activation decision: given the detected shell, the home
    /// directory and the profile's current content, either the shell is
    /// unsupported, or the profile already holds the PATH block, or the
    /// profile at the returned path is to be overwritten with the returned
    /// content.
    pub fn init(&self, shell: &String, home: &String, profile_content: &String) -> (r: Result<
        Option<(String, String)>,
        AliasError,
    >)
        ensures
            match r {
                Ok(None) => shell_profile_of(shell@, home@) is Some && contains_seq(
                    profile_content@,
                    crate::activate::profile_block(self.root_view()),
                ),
                Ok(Some(edit)) => Some(edit.0@) == shell_profile_of(shell@, home@)
                    && !contains_seq(
                    profile_content@,
                    crate::activate::profile_block(self.root_view()),
                ) && edit.1@ == profile_content@ + "\n\n"@ + crate::activate::profile_block(
                    self.root_view(),
                ),
                Err(e) => shell_profile_of(shell@, home@) is None && e.err
                    == AliasErrorCode::UnsupportedShellError,
            },
    {
        let profile_path = crate::activate::get_shell_profile(shell, home)?;
        match updated_profile_content(profile_content, &self.base.script_root) {
            None => Ok(None),
            Some(new_content) => Ok(Some((profile_path, new_content))),
        }
    }
}

impl Alias for UnixLikeAlias {
    open spec fn doc_view(&self) -> DocView {
        self.base.doc@
    }

    open spec fn buf_view(&self) -> Map<Seq<char>, crate::buffer::PendV> {
        self.base.buffer@
    }

    open spec fn plat(&self) -> PlatformKind {
        self.base.platform
    }

    open spec fn root_view(&self) -> Seq<char> {
        self.base.script_root@
    }

    open spec fn doc_pairs(&self) -> Seq<(String, AliasGroupSetting)> {
        self.base.doc.alias.pairs@
    }

    proof fn pairs_agree(&self) {
        assert(self.inv());
        assert(self.base.doc.wf());
        assert(self.base.doc.alias.key_seq().no_duplicates());
        assert(self.base.doc.alias.key_seq() =~= self.base.doc.alias.pairs@.map_values(
            |p: (String, AliasGroupSetting)| p.0@,
        ));
    }

    open spec fn inv(&self) -> bool {
        self.base.wf() && self.base.platform == PlatformKind::Posix
    }

    fn setting(&self) -> (r: &TomlSetting) {
        &self.base.doc
    }

    fn get(&self, group: &String, alias: &String) -> (r: Option<AliasSetting>) {
        self.base.get(group, alias)
    }

    fn get_group(&self, group: &String) -> (r: Option<&AliasGroupSetting>) {
        self.base.get_group(group)
    }

    fn get_all(&self) -> (r: &StrMap<AliasGroupSetting>) {
        self.base.get_all()
    }

    fn list(&self) -> (r: Vec<String>) {
        self.base.list()
    }

    fn set(&mut self, group: String, alias: String, setting: AliasSetting) {
        self.base.set(group, alias, setting);
    }

    fn remove(&mut self, group: &String, alias: &String) {
        self.base.remove(group, alias);
    }

    fn remove_group(&mut self, group: &String) {
        self.base.remove_group(group);
    }

    fn clear(&mut self) -> (r: Result<String, AliasError>) {
        self.base.clear()
    }

    fn commit(&mut self) -> (r: Result<CommitPlan, AliasError>) {
        self.base.commit()
    }

    fn overwrite_setting(&mut self, setting: TomlSetting) {
        self.base.overwrite_setting(setting);
    }
}

} // verus!
