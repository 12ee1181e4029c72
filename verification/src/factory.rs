//! The factory: picks the platform variant of the alias engine from the
//! host operating system's name. The caller detects the OS and supplies the
//! loaded document together with the platform's base directory.

use vstd::prelude::*;

use crate::alias::Alias;
use crate::alias_import::AliasImporter;
use crate::engine::CommitPlan;
use crate::error::AliasError;
use crate::linux::LinuxAlias;
use crate::macos::MacosAlias;
use crate::script::PlatformKind;
use crate::setting::{AliasGroupSetting, AliasSetting, DocView, TomlSetting};
use crate::strmap::StrMap;
use crate::windows::WindowsAlias;

verus! {

/// The alias engine of whichever platform the factory picked.
pub enum PlatformAlias {
    Linux(LinuxAlias),
    Macos(MacosAlias),
    Windows(WindowsAlias),
}

impl Alias for PlatformAlias {
    open spec fn doc_view(&self) -> DocView {
        match self {
            PlatformAlias::Linux(a) => a.doc_view(),
            PlatformAlias::Macos(a) => a.doc_view(),
            PlatformAlias::Windows(a) => a.doc_view(),
        }
    }

    open spec fn buf_view(&self) -> Map<Seq<char>, crate::buffer::PendV> {
        match self {
            PlatformAlias::Linux(a) => a.buf_view(),
            PlatformAlias::Macos(a) => a.buf_view(),
            PlatformAlias::Windows(a) => a.buf_view(),
        }
    }

    open spec fn plat(&self) -> PlatformKind {
        match self {
            PlatformAlias::Linux(a) => a.plat(),
            PlatformAlias::Macos(a) => a.plat(),
            PlatformAlias::Windows(a) => a.plat(),
        }
    }

    open spec fn root_view(&self) -> Seq<char> {
        match self {
            PlatformAlias::Linux(a) => a.root_view(),
            PlatformAlias::Macos(a) => a.root_view(),
            PlatformAlias::Windows(a) => a.root_view(),
        }
    }

    open spec fn inv(&self) -> bool {
        match self {
            PlatformAlias::Linux(a) => a.inv(),
            PlatformAlias::Macos(a) => a.inv(),
            PlatformAlias::Windows(a) => a.inv(),
        }
    }

    open spec fn doc_pairs(&self) -> Seq<(String, AliasGroupSetting)> {
        match self {
            PlatformAlias::Linux(a) => a.doc_pairs(),
            PlatformAlias::Macos(a) => a.doc_pairs(),
            PlatformAlias::Windows(a) => a.doc_pairs(),
        }
    }

    proof fn pairs_agree(&self) {
        assert(self.inv());
        match self {
            PlatformAlias::Linux(a) => a.pairs_agree(),
            PlatformAlias::Macos(a) => a.pairs_agree(),
            PlatformAlias::Windows(a) => a.pairs_agree(),
        }
    }

    fn setting(&self) -> (r: &TomlSetting) {
        match self {
            PlatformAlias::Linux(a) => a.setting(),
            PlatformAlias::Macos(a) => a.setting(),
            PlatformAlias::Windows(a) => a.setting(),
        }
    }

    fn get(&self, group: &String, alias: &String) -> (r: Option<AliasSetting>) {
        match self {
            PlatformAlias::Linux(a) => a.get(group, alias),
            PlatformAlias::Macos(a) => a.get(group, alias),
            PlatformAlias::Windows(a) => a.get(group, alias),
        }
    }

    fn get_group(&self, group: &String) -> (r: Option<&AliasGroupSetting>) {
        match self {
            PlatformAlias::Linux(a) => a.get_group(group),
            PlatformAlias::Macos(a) => a.get_group(group),
            PlatformAlias::Windows(a) => a.get_group(group),
        }
    }

    fn get_all(&self) -> (r: &StrMap<AliasGroupSetting>) {
        match self {
            PlatformAlias::Linux(a) => a.get_all(),
            PlatformAlias::Macos(a) => a.get_all(),
            PlatformAlias::Windows(a) => a.get_all(),
        }
    }

    fn list(&self) -> (r: Vec<String>) {
        match self {
            PlatformAlias::Linux(a) => a.list(),
            PlatformAlias::Macos(a) => a.list(),
            PlatformAlias::Windows(a) => a.list(),
        }
    }

    fn set(&mut self, group: String, alias: String, setting: AliasSetting) {
        match self {
            PlatformAlias::Linux(a) => a.set(group, alias, setting),
            PlatformAlias::Macos(a) => a.set(group, alias, setting),
            PlatformAlias::Windows(a) => a.set(group, alias, setting),
        }
    }

    fn remove(&mut self, group: &String, alias: &String) {
        match self {
            PlatformAlias::Linux(a) => a.remove(group, alias),
            PlatformAlias::Macos(a) => a.remove(group, alias),
            PlatformAlias::Windows(a) => a.remove(group, alias),
        }
    }

    fn remove_group(&mut self, group: &String) {
        match self {
            PlatformAlias::Linux(a) => a.remove_group(group),
            PlatformAlias::Macos(a) => a.remove_group(group),
            PlatformAlias::Windows(a) => a.remove_group(group),
        }
    }

    fn clear(&mut self) -> (r: Result<String, AliasError>) {
        match self {
            PlatformAlias::Linux(a) => a.clear(),
            PlatformAlias::Macos(a) => a.clear(),
            PlatformAlias::Windows(a) => a.clear(),
        }
    }

    fn commit(&mut self) -> (r: Result<CommitPlan, AliasError>) {
        match self {
            PlatformAlias::Linux(a) => a.commit(),
            PlatformAlias::Macos(a) => a.commit(),
            PlatformAlias::Windows(a) => a.commit(),
        }
    }

    fn overwrite_setting(&mut self, setting: TomlSetting) {
        match self {
            PlatformAlias::Linux(a) => a.overwrite_setting(setting),
            PlatformAlias::Macos(a) => a.overwrite_setting(setting),
            PlatformAlias::Windows(a) => a.overwrite_setting(setting),
        }
    }
}

/// Picks the platform engine for the named operating system; `base_dir` is
/// the home directory on POSIX systems and the local application data
/// directory on Windows. Unsupported systems get no engine.
pub fn get_alias(os: &String, base_dir: &String, doc: TomlSetting) -> (r: Option<PlatformAlias>)
    requires
        doc.wf(),
    ensures
        match r {
            Some(a) => a.inv() && a.doc_view() == doc@ && a.buf_view() == Map::<
                Seq<char>,
                crate::buffer::PendV,
            >::empty() && (os@ == "macos"@ || os@ == "linux"@ || os@ == "windows"@),
            None => !(os@ == "macos"@ || os@ == "linux"@ || os@ == "windows"@),
        },
{
    if *os == "macos".to_owned() {
        Some(PlatformAlias::Macos(MacosAlias::new(base_dir, doc)))
    } else if *os == "linux".to_owned() {
        Some(PlatformAlias::Linux(LinuxAlias::new(base_dir, doc)))
    } else if *os == "windows".to_owned() {
        Some(PlatformAlias::Windows(WindowsAlias::new(base_dir, doc)))
    } else {
        None
    }
}

/// Picks the platform engine and wraps it for a whole-document import.
pub fn get_alias_importer(os: &String, base_dir: &String, doc: TomlSetting) -> (r: Option<
    AliasImporter<PlatformAlias>,
>)
    requires
        doc.wf(),
    ensures
        match r {
            Some(imp) => imp.alias.inv() && imp.alias.doc_view() == doc@ && imp.alias.buf_view()
                == Map::<Seq<char>, crate::buffer::PendV>::empty() && (os@ == "macos"@ || os@
                == "linux"@ || os@ == "windows"@),
            None => !(os@ == "macos"@ || os@ == "linux"@ || os@ == "windows"@),
        },
{
    match get_alias(os, base_dir, doc) {
        Some(alias) => match AliasImporter::new(alias) {
            Ok(imp) => Some(imp),
            Err(_) => None,
        },
        None => None,
    }
}

} // verus!
