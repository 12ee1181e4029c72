//! Persistent shell aliases: a buffered mutation model over a structured
//! settings document, committed to a config file and a set of generated
//! per-alias scripts, with platform-specific activation.
//!
//! The crate is organised around one shared engine. A settings document is
//! loaded once, queried directly, and mutated only through a buffer of
//! pending operations; `commit` merges the buffer into the document and
//! returns the file writes and deletions that make the disk match it again.
//! The caller performs the actual I/O and hands raw text back in.

use vstd::prelude::*;

pub mod activate;
pub mod alias;
pub mod alias_import;
pub mod alias_manage;
pub mod buffer;
pub mod cli;
pub mod codec;
pub mod engine;
pub mod error;
pub mod factory;
pub mod laws;
pub mod linux;
pub mod macos;
pub mod script;
pub mod setting;
pub mod strmap;
pub mod text;
pub mod toml_io;
pub mod unix_like_base;
pub mod windows;

verus! {

/// Tells whether this tool supports the host operating system.
pub fn support_target_os(os: &String) -> (r: bool)
    ensures
        r == (os@ == "macos"@ || os@ == "linux"@ || os@ == "windows"@),
{
    *os == "macos".to_owned() || *os == "linux".to_owned() || *os == "windows".to_owned()
}

} // verus!
