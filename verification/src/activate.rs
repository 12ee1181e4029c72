//! The activation binder's decision logic: which profile file belongs to
//! the user's shell, what PATH-export block is appended to it (exactly
//! once), and which user-environment assignments Windows needs. The file
//! edits, environment writes and child processes stay with the caller; this
//! module only computes text from text.

use vstd::prelude::*;

use crate::error::{AliasError, AliasErrorCode};
use crate::text::{
    chars_to_string, contains_chars, contains_seq, first_match_from, lemma_first_match_from_some,
    str_chars,
};

verus! {

/// The user's shell as detected from the `SHELL` value: a supported shell
/// carries its name and its profile file path.
pub enum Shell {
    Supported(String, String),
    Unsupported(String),
}

/// The profile file, under the home directory, of each supported shell.
pub open spec fn shell_profile_of(shell: Seq<char>, home: Seq<char>) -> Option<Seq<char>> {
    if shell == "/bin/zsh"@ {
        Some(home + "/.zshrc"@)
    } else if shell == "/bin/bash"@ {
        Some(home + "/.bashrc"@)
    } else if shell == "/bin/ksh"@ {
        Some(home + "/.kshrc"@)
    } else if shell == "/bin/csh"@ {
        Some(home + "/.cshrc"@)
    } else if shell == "/bin/dash"@ {
        Some(home + "/.bashrc"@)
    } else if shell == "/bin/tcsh"@ {
        Some(home + "/.tcshrc"@)
    } else {
        None
    }
}

/// Maps the `SHELL` value and the home directory to the shell's profile
/// path; unknown shells are unsupported.
pub fn get_shell_type(shell: &String, home: &String) -> (r: Shell)
    ensures
        match r {
            Shell::Supported(sh, profile) => sh@ == shell@ && Some(profile@) == shell_profile_of(
                shell@,
                home@,
            ),
            Shell::Unsupported(sh) => sh@ == shell@ && shell_profile_of(shell@, home@) is None,
        },
{
    let suffix: &str = if *shell == "/bin/zsh".to_owned() {
        "/.zshrc"
    } else if *shell == "/bin/bash".to_owned() {
        "/.bashrc"
    } else if *shell == "/bin/ksh".to_owned() {
        "/.kshrc"
    } else if *shell == "/bin/csh".to_owned() {
        "/.cshrc"
    } else if *shell == "/bin/dash".to_owned() {
        "/.bashrc"
    } else if *shell == "/bin/tcsh".to_owned() {
        "/.tcshrc"
    } else {
        return Shell::Unsupported(shell.clone());
    };
    let mut profile = home.clone();
    profile.append(suffix);
    Shell::Supported(shell.clone(), profile)
}

/// The profile path for the detected shell, or `UnsupportedShellError`.
pub fn get_shell_profile(shell: &String, home: &String) -> (r: Result<String, AliasError>)
    ensures
        match r {
            Ok(p) => Some(p@) == shell_profile_of(shell@, home@),
            Err(e) => shell_profile_of(shell@, home@) is None && e.err
                == AliasErrorCode::UnsupportedShellError,
        },
{
    match get_shell_type(shell, home) {
        Shell::Supported(_, profile) => Ok(profile),
        Shell::Unsupported(sh) => {
            let mut msg = "unsupported shell type :: ".to_owned();
            msg.append(sh.as_str());
            Err(AliasError::new(AliasErrorCode::UnsupportedShellError, msg))
        },
    }
}

/// The sentinel-delimited PATH-export block appended to a profile.
pub open spec fn profile_block(root: Seq<char>) -> Seq<char> {
    "# alias-rs :: start\nexport PATH=$PATH:"@ + root + "\n# alias-rs :: end"@
}

/// Builds the PATH-export block for the given script root.
pub fn build_profile_block(root: &String) -> (r: String)
    ensures
        r@ == profile_block(root@),
{
    let mut s = "# alias-rs :: start\nexport PATH=$PATH:".to_owned();
    s.append(root.as_str());
    s.append("\n# alias-rs :: end");
    s
}

/// The profile edit that activation performs: nothing when the block is
/// already present (the edit is idempotent), else the block is appended
/// after a blank line.
pub fn updated_profile_content(content: &String, script_root: &String) -> (r: Option<String>)
    ensures
        match r {
            None => contains_seq(content@, profile_block(script_root@)),
            Some(s) => !contains_seq(content@, profile_block(script_root@)) && s@ == content@
                + "\n\n"@ + profile_block(script_root@),
        },
{
    let block = build_profile_block(script_root);
    let cv = str_chars(content.as_str());
    let bv = str_chars(block.as_str());
    proof {
        reveal_strlit("# alias-rs :: start\nexport PATH=$PATH:");
        assert(bv@.len() >= 1);
    }
    if contains_chars(&cv, &bv) {
        None
    } else {
        let mut s = content.clone();
        s.append("\n\n");
        s.append(block.as_str());
        Some(s)
    }
}

/// The `%NAME%` placeholder under which the script root is referenced from
/// `Path`.
pub open spec fn env_placeholder(name: Seq<char>) -> Seq<char> {
    "%"@ + name + "%"@
}

/// The user-environment assignments Windows activation performs, in order:
/// the script-home variable is set unless it already holds the root, and
/// `Path` gains the `%NAME%` placeholder unless it is already there.
pub open spec fn win_env_updates(
    name: Seq<char>,
    root: Seq<char>,
    cur_home: Option<Seq<char>>,
    cur_path: Option<Seq<char>>,
) -> Seq<(Seq<char>, Seq<char>)> {
    let first: Seq<(Seq<char>, Seq<char>)> = if cur_home == Some(root) {
        Seq::empty()
    } else {
        seq![(name, root)]
    };
    let ph = env_placeholder(name);
    let second: Seq<(Seq<char>, Seq<char>)> = match cur_path {
        None => seq![("Path"@, ph)],
        Some(p) => if contains_seq(p, ph) {
            Seq::empty()
        } else {
            seq![("Path"@, p + ";"@ + ph)]
        },
    };
    first + second
}

/// Decides the Windows user-environment assignments from the current
/// values of the script-home variable and `Path`.
pub fn windows_env_updates(
    env_name: &String,
    script_root: &String,
    current_home: Option<String>,
    current_path: Option<String>,
) -> (r: Vec<(String, String)>)
    ensures
        r@.map_values(|p: (String, String)| (p.0@, p.1@)) == win_env_updates(
            env_name@,
            script_root@,
            crate::setting::opt_string_view(current_home),
            crate::setting::opt_string_view(current_path),
        ),
{
    let ghost expected = win_env_updates(
        env_name@,
        script_root@,
        crate::setting::opt_string_view(current_home),
        crate::setting::opt_string_view(current_path),
    );
    let mut r: Vec<(String, String)> = Vec::new();
    let differs = match &current_home {
        None => true,
        Some(h) => !(*h == *script_root),
    };
    if differs {
        r.push((env_name.clone(), script_root.clone()));
    }
    let mut ph = "%".to_owned();
    ph.append(env_name.as_str());
    ph.append("%");
    proof {
        reveal_strlit("%");
        assert(ph@.len() >= 1);
    }
    match &current_path {
        None => {
            r.push(("Path".to_owned(), ph));
        },
        Some(p) => {
            let pv = str_chars(p.as_str());
            let phv = str_chars(ph.as_str());
            if !contains_chars(&pv, &phv) {
                let mut joined = p.clone();
                joined.append(";");
                joined.append(ph.as_str());
                r.push(("Path".to_owned(), joined));
            }
        },
    }
    proof {
        assert(r@.map_values(|p: (String, String)| (p.0@, p.1@)) =~= expected);
    }
    r
}

/// The PowerShell command that reads a user environment variable from the
/// registry hive to test its presence.
pub open spec fn env_exist_cmd_of(name: Seq<char>) -> Seq<char> {
    "(Get-ItemProperty -Path 'HKCU:\\Environment')."@ + name
}

/// Builds the presence-check command for a user environment variable.
pub fn user_env_var_exist_cmd(var_name: &String) -> (r: String)
    ensures
        r@ == env_exist_cmd_of(var_name@),
{
    let mut s = "(Get-ItemProperty -Path 'HKCU:\\Environment').".to_owned();
    s.append(var_name.as_str());
    s
}

/// The PowerShell command whose output carries a user environment
/// variable's value.
pub open spec fn env_query_cmd_of(name: Seq<char>) -> Seq<char> {
    "(reg query 'HKEY_CURRENT_USER\\Environment' /v '"@ + name + "')[2].ToString()"@
}

/// Builds the value-query command for a user environment variable.
pub fn user_env_var_query_cmd(var_name: &String) -> (r: String)
    ensures
        r@ == env_query_cmd_of(var_name@),
{
    let mut s = "(reg query 'HKEY_CURRENT_USER\\Environment' /v '".to_owned();
    s.append(var_name.as_str());
    s.append("')[2].ToString()");
    s
}

/// The PowerShell command that assigns a user environment variable.
pub open spec fn env_set_cmd_of(name: Seq<char>, value: Seq<char>) -> Seq<char> {
    "[System.Environment]::SetEnvironmentVariable('"@ + name + "', '"@ + value + "', 'USER')"@
}

/// Builds the assignment command for a user environment variable.
pub fn user_env_var_set_cmd(var_name: &String, var_value: &String) -> (r: String)
    ensures
        r@ == env_set_cmd_of(var_name@, var_value@),
{
    let mut s = "[System.Environment]::SetEnvironmentVariable('".to_owned();
    s.append(var_name.as_str());
    s.append("', '");
    s.append(var_value.as_str());
    s.append("', 'USER')");
    s
}

/// The carriage-return/line-feed separator of console output.
pub open spec fn crlf() -> Seq<char> {
    seq!['\r', '\n']
}

/// Console output split at each `\r\n`.
pub open spec fn split_crlf(s: Seq<char>) -> Seq<Seq<char>>
    decreases s.len(),
    via split_crlf_decreases
{
    match first_match_from(s, crlf(), 0) {
        None => seq![s],
        Some(i) => seq![s.take(i)] + split_crlf(s.skip(i + 2)),
    }
}

#[via_fn]
proof fn split_crlf_decreases(s: Seq<char>) {
    if first_match_from(s, crlf(), 0) is Some {
        lemma_first_match_from_some(s, crlf(), 0);
    }
}

/// The non-empty segments of a segment list, in order.
pub open spec fn nonempty_segments(ls: Seq<Seq<char>>) -> Seq<Seq<char>>
    decreases ls.len(),
{
    if ls.len() == 0 {
        Seq::empty()
    } else {
        nonempty_segments(ls.drop_last()) + (if ls.last().len() > 0 {
            seq![ls.last()]
        } else {
            Seq::<Seq<char>>::empty()
        })
    }
}

/// Splits `s` at each `\r\n`, as character vectors.
fn split_crlf_exec(s: &Vec<char>) -> (r: Vec<Vec<char>>)
    ensures
        r@.map_values(|x: Vec<char>| x@) == split_crlf(s@),
    decreases s@.len(),
{
    let mut pat: Vec<char> = Vec::new();
    pat.push('\r');
    pat.push('\n');
    proof {
        assert(pat@ =~= crlf());
    }
    match crate::text::find_first_from(s, &pat, 0) {
        None => {
            let mut r: Vec<Vec<char>> = Vec::new();
            r.push(s.clone());
            proof {
                assert(r@.map_values(|x: Vec<char>| x@) =~= split_crlf(s@));
            }
            r
        },
        Some(i) => {
            let n = s.len();
            proof {
                lemma_first_match_from_some(s@, crlf(), 0);
                assert(i + 2 <= n);
            }
            let mut head: Vec<char> = Vec::new();
            let mut j: usize = 0;
            while j < i
                invariant
                    j <= i,
                    i < s@.len(),
                    head@ =~= s@.take(j as int),
                decreases i - j,
            {
                head.push(s[j]);
                j += 1;
            }
            let mut tail: Vec<char> = Vec::new();
            let mut k: usize = i + 2;
            while k < s.len()
                invariant
                    i + 2 <= k <= s@.len(),
                    tail@ =~= s@.subrange(i + 2, k as int),
                decreases s@.len() - k,
            {
                tail.push(s[k]);
                k += 1;
            }
            proof {
                assert(tail@ =~= s@.skip(i + 2));
            }
            let rest = split_crlf_exec(&tail);
            let mut r: Vec<Vec<char>> = Vec::new();
            r.push(head);
            let mut m: usize = 0;
            while m < rest.len()
                invariant
                    m <= rest@.len(),
                    r@.len() == m + 1,
                    r@[0]@ == s@.take(i as int),
                    forall|q: int| 1 <= q < m + 1 ==> #[trigger] r@[q]@ == rest@[q - 1]@,
                decreases rest@.len() - m,
            {
                let piece = rest[m].clone();
                r.push(piece);
                m += 1;
            }
            proof {
                assert(r@.map_values(|x: Vec<char>| x@) =~= split_crlf(s@));
            }
            r
        },
    }
}

/// The non-empty lines of console output, split at `\r\n`; `None` where
/// every line is empty.
pub fn split_stdout_lines(stdout: &String) -> (r: Option<Vec<String>>)
    ensures
        match r {
            Some(v) => v@.map_values(|x: String| x@) == nonempty_segments(split_crlf(stdout@))
                && v@.len() > 0,
            None => nonempty_segments(split_crlf(stdout@)).len() == 0,
        },
{
    let chars = str_chars(stdout.as_str());
    let pieces = split_crlf_exec(&chars);
    let ghost lines = split_crlf(stdout@);
    let mut out: Vec<String> = Vec::new();
    let mut i: usize = 0;
    while i < pieces.len()
        invariant
            i <= pieces@.len(),
            pieces@.map_values(|x: Vec<char>| x@) == lines,
            lines.len() == pieces@.len(),
            out@.map_values(|x: String| x@) == nonempty_segments(lines.take(i as int)),
        decreases pieces@.len() - i,
    {
        let ghost before = out@;
        if pieces[i].len() > 0 {
            out.push(chars_to_string(&pieces[i]));
        }
        i += 1;
        proof {
            assert(lines.take(i as int).drop_last() =~= lines.take(i - 1));
            assert(lines.take(i as int).last() == lines[i - 1]);
            assert(lines[i - 1] == pieces@[i - 1]@);
            assert(out@.map_values(|x: String| x@) =~= nonempty_segments(lines.take(i as int)));
        }
    }
    proof {
        assert(lines.take(lines.len() as int) =~= lines);
    }
    if out.len() == 0 {
        None
    } else {
        Some(out)
    }
}

/// What remains of `s` after its leftmost occurrence of `pat`, or all of
/// `s` where `pat` does not occur.
pub open spec fn after_first(s: Seq<char>, pat: Seq<char>) -> Seq<char> {
    match first_match_from(s, pat, 0) {
        None => s,
        Some(i) => s.skip(i + pat.len()),
    }
}

/// Drops everything up to and including the leftmost occurrence of `pat`.
fn skip_after_first(s: &Vec<char>, pat: &Vec<char>) -> (r: Vec<char>)
    requires
        pat@.len() >= 1,
    ensures
        r@ == after_first(s@, pat@),
{
    match crate::text::find_first_from(s, pat, 0) {
        None => s.clone(),
        Some(i) => {
            let n = s.len();
            proof {
                lemma_first_match_from_some(s@, pat@, 0);
                assert(i + pat@.len() <= n);
            }
            let mut r: Vec<char> = Vec::new();
            let mut k: usize = i + pat.len();
            while k < s.len()
                invariant
                    i + pat@.len() <= k <= s@.len(),
                    r@ =~= s@.subrange(i + pat@.len() as int, k as int),
                decreases s@.len() - k,
            {
                r.push(s[k]);
                k += 1;
            }
            proof {
                assert(r@ =~= s@.skip(i + pat@.len() as int));
            }
            r
        },
    }
}

/// The value field of one `reg query` output line: everything after the
/// third four-space separator (or after the last one, where fewer occur).
pub open spec fn reg_query_value_of(line: Seq<char>) -> Seq<char> {
    let sep = "    "@;
    after_first(after_first(after_first(line, sep), sep), sep)
}

/// Extracts a variable's value from `reg query` console output: the value
/// field of the first non-empty line, or `None` where there is none.
pub fn parse_reg_query_value(stdout: &String) -> (r: Option<String>)
    ensures
        match r {
            Some(v) => nonempty_segments(split_crlf(stdout@)).len() > 0 && v@
                == reg_query_value_of(nonempty_segments(split_crlf(stdout@))[0]),
            None => nonempty_segments(split_crlf(stdout@)).len() == 0,
        },
{
    match split_stdout_lines(stdout) {
        None => None,
        Some(v) => {
            let first = str_chars(v[0].as_str());
            let sep = str_chars("    ");
            proof {
                reveal_strlit("    ");
                assert(sep@.len() == 4);
            }
            let s1 = skip_after_first(&first, &sep);
            let s2 = skip_after_first(&s1, &sep);
            let s3 = skip_after_first(&s2, &sep);
            Some(chars_to_string(&s3))
        },
    }
}

} // verus!
