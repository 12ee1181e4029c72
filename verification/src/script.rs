//! The script generator: turns one alias's command string into the path and
//! content of its executable artifact. POSIX scripts hold the command text
//! itself; Windows batch wrappers invoke PowerShell with the command as an
//! escaped argument, rendered in the legacy console encoding.

use vstd::prelude::*;

use crate::text::{chars_to_string, replace_all, replace_all_chars, str_chars};

verus! {

/// The platform variant a script is generated for.
#[derive(Clone, Copy, Debug, PartialEq, Eq, Structural)]
pub enum PlatformKind {
    Posix,
    Windows,
}

/// Batch-argument escaping: `|` and `$` each get a caret in front.
pub open spec fn bat_escaped(s: Seq<char>) -> Seq<char> {
    replace_all(replace_all(s, seq!['|'], seq!['^', '|']), seq!['$'], seq!['^', '$'])
}

/// Escapes a string for use as a batch-file argument.
pub fn convert_to_bat_str_arg(string_arg: String) -> (r: String)
    ensures
        r@ == bat_escaped(string_arg@),
{
    let chars = str_chars(string_arg.as_str());
    let mut pat: Vec<char> = Vec::new();
    pat.push('|');
    let mut to: Vec<char> = Vec::new();
    to.push('^');
    to.push('|');
    proof {
        assert(pat@ =~= seq!['|']);
        assert(to@ =~= seq!['^', '|']);
    }
    let step1 = replace_all_chars(&chars, &pat, &to);
    let mut pat2: Vec<char> = Vec::new();
    pat2.push('$');
    let mut to2: Vec<char> = Vec::new();
    to2.push('^');
    to2.push('$');
    proof {
        assert(pat2@ =~= seq!['$']);
        assert(to2@ =~= seq!['^', '$']);
    }
    let step2 = replace_all_chars(&step1, &pat2, &to2);
    chars_to_string(&step2)
}

/// The content of a POSIX alias script: exactly the command text.
pub open spec fn posix_script_text(cmd: Seq<char>) -> Seq<char> {
    cmd
}

/// The content of a Windows batch wrapper: a PowerShell invocation carrying
/// the escaped command and forwarding the batch arguments.
pub open spec fn bat_script_text(cmd: Seq<char>) -> Seq<char> {
    "PowerShell -ExecutionPolicy Bypass -Command "@ + bat_escaped(cmd) + " ^$args"@
}

/// Builds the batch wrapper text for one command.
pub fn build_bat_script(cmd: String) -> (r: String)
    ensures
        r@ == bat_script_text(cmd@),
{
    let mut s = "PowerShell -ExecutionPolicy Bypass -Command ".to_owned();
    let escaped = convert_to_bat_str_arg(cmd);
    s.append(escaped.as_str());
    s.append(" ^$args");
    s
}

/// The bytes that the legacy Windows console encoding renders for a string.
pub uninterp spec fn gbk_bytes_of(s: Seq<char>) -> Seq<u8>;

/// Relies on `encoding_rs::GBK.encode`: the encoded bytes depend on the
/// characters alone.
#[verifier::external_body]
pub(crate) fn gbk_encode(s: &String) -> (r: Vec<u8>)
    ensures
        r@ == gbk_bytes_of(s@),
{
    encoding_rs::GBK.encode(s.as_str()).0.into_owned()
}

/// The on-disk bytes of one alias script.
pub open spec fn script_content(plat: PlatformKind, cmd: Seq<char>) -> Seq<u8> {
    match plat {
        PlatformKind::Posix => vstd::utf8::encode_utf8(posix_script_text(cmd)),
        PlatformKind::Windows => gbk_bytes_of(bat_script_text(cmd)),
    }
}

/// Builds the on-disk bytes of one alias script.
pub fn build_script_content(plat: PlatformKind, cmd: &String) -> (r: Vec<u8>)
    ensures
        r@ == script_content(plat, cmd@),
{
    match plat {
        PlatformKind::Posix => vstd::slice::slice_to_vec(cmd.as_str().as_bytes()),
        PlatformKind::Windows => {
            let bat = build_bat_script(cmd.clone());
            gbk_encode(&bat)
        },
    }
}

/// The path of one alias's script under the script root.
pub open spec fn script_path_of(plat: PlatformKind, root: Seq<char>, alias: Seq<char>) -> Seq<
    char,
> {
    match plat {
        PlatformKind::Posix => root + "/"@ + alias + ".sh"@,
        PlatformKind::Windows => root + "\\"@ + alias + ".bat"@,
    }
}

/// Builds the path of one alias's script under the script root.
pub fn build_script_path(plat: PlatformKind, root: &String, alias: &String) -> (r: String)
    ensures
        r@ == script_path_of(plat, root@, alias@),
{
    let mut s = root.clone();
    match plat {
        PlatformKind::Posix => {
            s.append("/");
            s.append(alias.as_str());
            s.append(".sh");
        },
        PlatformKind::Windows => {
            s.append("\\");
            s.append(alias.as_str());
            s.append(".bat");
        },
    }
    s
}

} // verus!
