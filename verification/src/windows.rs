//! The Windows alias engine: batch wrapper scripts under the local
//! application data directory, activated through user-scoped environment
//! variables instead of a profile file.

use vstd::prelude::*;

use crate::activate::{win_env_updates, windows_env_updates};
use crate::alias::Alias;
use crate::engine::{AliasEngine, CommitPlan};
use crate::error::AliasError;
use crate::script::{build_script_path, script_path_of, PlatformKind};
use crate::setting::{AliasGroupSetting, AliasSetting, DocView, TomlSetting};
use crate::strmap::StrMap;

verus! {

/// The tool's directory under the local application data directory.
pub open spec fn default_home_of(local_app_home: Seq<char>) -> Seq<char> {
    local_app_home + "\\alias-rs"@
}

/// The default script directory.
pub open spec fn default_script_home_of(local_app_home: Seq<char>) -> Seq<char> {
    default_home_of(local_app_home) + "\\script"@
}

/// The default settings file path.
pub open spec fn default_setting_path_of(local_app_home: Seq<char>) -> Seq<char> {
    default_home_of(local_app_home) + "\\alias-setting.toml"@
}

/// The tool's directory under the given local application data directory.
pub fn get_default_home(local_app_home: &String) -> (r: String)
    ensures
        r@ == default_home_of(local_app_home@),
{
    let mut s = local_app_home.clone();
    s.append("\\alias-rs");
    s
}

/// The default script directory under the given local application data
/// directory.
pub fn get_default_script_home(local_app_home: &String) -> (r: String)
    ensures
        r@ == default_script_home_of(local_app_home@),
{
    let mut s = get_default_home(local_app_home);
    s.append("\\script");
    s
}

/// The default settings file path under the given local application data
/// directory.
pub fn get_default_setting_path(local_app_home: &String) -> (r: String)
    ensures
        r@ == default_setting_path_of(local_app_home@),
{
    let mut s = get_default_home(local_app_home);
    s.append("\\alias-setting.toml");
    s
}

/// The Windows alias engine.
pub struct WindowsAlias {
    pub base: AliasEngine,
}

impl WindowsAlias {
    /// Builds the engine over a loaded document; a missing script root or
    /// environment-variable name falls back to the platform defaults.
    pub fn new(local_app_home: &String, doc: TomlSetting) -> (r: Self)
        requires
            doc.wf(),
        ensures
            r.inv(),
            r.plat() == PlatformKind::Windows,
            r.doc_view() == doc@,
            r.buf_view() == Map::<Seq<char>, crate::buffer::PendV>::empty(),
            r.root_view() == (match doc@.script_root {
                Some(s) => s,
                None => default_script_home_of(local_app_home@),
            }),
            r.env_name_view() == (match doc@.script_root_env_var_name {
                Some(s) => s,
                None => "ALIAS_SCRIPT_HOME"@,
            }),
    {
        let root = match &doc.global.script_root {
            Some(s) => s.clone(),
            None => get_default_script_home(local_app_home),
        };
        let env_name = match &doc.global.script_root_env_var_name {
            Some(s) => s.clone(),
            None => "ALIAS_SCRIPT_HOME".to_owned(),
        };
        WindowsAlias {
            base: AliasEngine::new(PlatformKind::Windows, root, Some(env_name), doc),
        }
    }

    /// The resolved name of the script-home environment variable.
    pub open spec fn env_name_view(&self) -> Seq<char> {
        self.base.env_var_name->0@
    }

    /// The script path of one alias under this engine's script root.
    pub fn build_alias_script_path(&self, alias: &String) -> (r: String)
        ensures
            r@ == script_path_of(PlatformKind::Windows, self.root_view(), alias@),
    {
        build_script_path(PlatformKind::Windows, &self.base.script_root, alias)
    }

    /// The activation decision: which user-environment assignments to
    /// perform, given the current values of the script-home variable and
    /// `Path`.
    pub fn init(&self, current_home: Option<String>, current_path: Option<String>) -> (r: Vec<
        (String, String),
    >)
        requires
            self.inv(),
        ensures
            r@.map_values(|p: (String, String)| (p.0@, p.1@)) == win_env_updates(
                self.env_name_view(),
                self.root_view(),
                crate::setting::opt_string_view(current_home),
                crate::setting::opt_string_view(current_path),
            ),
    {
        let name = match &self.base.env_var_name {
            Some(n) => n.clone(),
            None => vstd::pervasive::unreached(),
        };
        windows_env_updates(&name, &self.base.script_root, current_home, current_path)
    }
}

impl Alias for WindowsAlias {
    open spec fn doc_view(&self) -> DocView {
        self.base.doc@
    }

    open spec fn buf_view(&self) -> Map<Seq<char>, crate::buffer::PendV> {
        self.base.buffer@
    }

    open spec fn plat(&self) -> PlatformKind {
        self.base.platform
    }

    open spec fn root_view(&self) -> Seq<char> {
        self.base.script_root@
    }

    open spec fn doc_pairs(&self) -> Seq<(String, AliasGroupSetting)> {
        self.base.doc.alias.pairs@
    }

    proof fn pairs_agree(&self) {
        assert(self.inv());
        assert(self.base.doc.wf());
        assert(self.base.doc.alias.key_seq().no_duplicates());
        assert(self.base.doc.alias.key_seq() =~= self.base.doc.alias.pairs@.map_values(
            |p: (String, AliasGroupSetting)| p.0@,
        ));
    }

    open spec fn inv(&self) -> bool {
        self.base.wf() && self.base.platform == PlatformKind::Windows
            && self.base.env_var_name is Some
    }

    fn setting(&self) -> (r: &TomlSetting) {
        &self.base.doc
    }

    fn get(&self, group: &String, alias: &String) -> (r: Option<AliasSetting>) {
        self.base.get(group, alias)
    }

    fn get_group(&self, group: &String) -> (r: Option<&AliasGroupSetting>) {
        self.base.get_group(group)
    }

    fn get_all(&self) -> (r: &StrMap<AliasGroupSetting>) {
        self.base.get_all()
    }

    fn list(&self) -> (r: Vec<String>) {
        self.base.list()
    }

    fn set(&mut self, group: String, alias: String, setting: AliasSetting) {
        self.base.set(group, alias, setting);
    }

    fn remove(&mut self, group: &String, alias: &String) {
        self.base.remove(group, alias);
    }

    fn remove_group(&mut self, group: &String) {
        self.base.remove_group(group);
    }

    fn clear(&mut self) -> (r: Result<String, AliasError>) {
        self.base.clear()
    }

    fn commit(&mut self) -> (r: Result<CommitPlan, AliasError>) {
        self.base.commit()
    }

    fn overwrite_setting(&mut self, setting: TomlSetting) {
        self.base.overwrite_setting(setting);
    }
}

} // verus!
