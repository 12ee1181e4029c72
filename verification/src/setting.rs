//! The settings document: per-alias commands grouped into named namespaces,
//! plus optional global settings, together with `{{name}}` placeholder
//! substitution over the raw document text and the parsing of `key=value`
//! runtime variable definitions.

use vstd::prelude::*;

use crate::error::{AliasError, AliasErrorCode};
use crate::strmap::StrMap;
use crate::text::{chars_to_string, placeholder_of, replace_all_chars, str_chars, substituted};

verus! {

/// One alias: the shell command text bound to the alias name.
pub struct AliasSetting {
    pub cmd: String,
}

impl View for AliasSetting {
    type V = Seq<char>;

    open spec fn view(&self) -> Seq<char> {
        self.cmd@
    }
}

impl AliasSetting {
    pub fn new(cmd: String) -> (r: Self)
        ensures
            r@ == cmd@,
    {
        AliasSetting { cmd }
    }
}

impl Clone for AliasSetting {
    fn clone(&self) -> (r: Self)
        ensures
            r@ == self@,
    {
        AliasSetting { cmd: self.cmd.clone() }
    }
}

/// A named group of aliases: a namespace in which alias names are unique.
pub struct AliasGroupSetting {
    pub mapping: StrMap<AliasSetting>,
}

impl View for AliasGroupSetting {
    type V = Map<Seq<char>, Seq<char>>;

    open spec fn view(&self) -> Map<Seq<char>, Seq<char>> {
        self.mapping@
    }
}

impl AliasGroupSetting {
    pub open spec fn wf(self) -> bool {
        self.mapping.wf()
    }

    pub fn new() -> (r: Self)
        ensures
            r@ == Map::<Seq<char>, Seq<char>>::empty(),
            r.wf(),
    {
        AliasGroupSetting { mapping: StrMap::new() }
    }
}

/// The optional global settings; platform defaults are substituted when a
/// field is absent.
pub struct GlobalSetting {
    pub script_root: Option<String>,
    pub script_root_env_var_name: Option<String>,
}

impl Default for GlobalSetting {
    fn default() -> (r: Self)
        ensures
            r.script_root is None,
            r.script_root_env_var_name is None,
    {
        GlobalSetting { script_root: None, script_root_env_var_name: None }
    }
}

/// The mathematical value of a settings document.
pub struct DocView {
    pub script_root: Option<Seq<char>>,
    pub script_root_env_var_name: Option<Seq<char>>,
    pub groups: Map<Seq<char>, Map<Seq<char>, Seq<char>>>,
}

/// The persisted document root: global settings and the group map.
pub struct TomlSetting {
    pub global: GlobalSetting,
    pub alias: StrMap<AliasGroupSetting>,
}

pub open spec fn opt_string_view(o: Option<String>) -> Option<Seq<char>> {
    match o {
        Some(s) => Some(s@),
        None => None,
    }
}

impl View for TomlSetting {
    type V = DocView;

    open spec fn view(&self) -> DocView {
        DocView {
            script_root: opt_string_view(self.global.script_root),
            script_root_env_var_name: opt_string_view(self.global.script_root_env_var_name),
            groups: self.alias@,
        }
    }
}

impl TomlSetting {
    /// Well-formed: group names are unique and every group is well-formed.
    pub open spec fn wf(self) -> bool {
        &&& self.alias.wf()
        &&& forall|i: int|
            0 <= i < self.alias.pairs@.len() ==> (#[trigger] self.alias.pairs@[i].1).wf()
    }
}

impl Default for TomlSetting {
    fn default() -> (r: Self)
        ensures
            r@.script_root is None,
            r@.script_root_env_var_name is None,
            r@.groups == Map::<Seq<char>, Map<Seq<char>, Seq<char>>>::empty(),
            r.wf(),
    {
        TomlSetting { global: GlobalSetting::default(), alias: StrMap::new() }
    }
}

/// The pairs of a runtime-variable map, as character sequences, in storage
/// order.
pub open spec fn vars_pairs_view(m: StrMap<String>) -> Seq<(Seq<char>, Seq<char>)> {
    m.pairs@.map_values(|p: (String, String)| (p.0@, p.1@))
}

/// Replaces, for each runtime variable in turn, every occurrence of its
/// `{{name}}` placeholder in `content` by its value. Placeholders with no
/// matching variable are left untouched.
pub fn substitute_variables(content: &String, vars: &StrMap<String>) -> (r: String)
    ensures
        r@ == substituted(content@, vars_pairs_view(*vars)),
{
    let ghost pv = vars_pairs_view(*vars);
    let mut cur: Vec<char> = str_chars(content.as_str());
    let mut i: usize = 0;
    while i < vars.pairs.len()
        invariant
            i <= vars.pairs@.len(),
            pv == vars_pairs_view(*vars),
            pv.len() == vars.pairs@.len(),
            cur@ == substituted(content@, pv.take(i as int)),
        decreases vars.pairs@.len() - i,
    {
        let name = str_chars(vars.pairs[i].0.as_str());
        let val = str_chars(vars.pairs[i].1.as_str());
        let mut pat: Vec<char> = Vec::new();
        pat.push('{');
        pat.push('{');
        let mut j: usize = 0;
        while j < name.len()
            invariant
                j <= name@.len(),
                pat@.len() == j + 2,
                pat@[0] == '{' && pat@[1] == '{',
                forall|k: int| 0 <= k < j ==> pat@[k + 2] == name@[k],
            decreases name@.len() - j,
        {
            pat.push(name[j]);
            j += 1;
        }
        pat.push('}');
        pat.push('}');
        proof {
            assert(pat@ =~= placeholder_of(pv[i as int].0));
        }
        let next = replace_all_chars(&cur, &pat, &val);
        cur = next;
        i += 1;
        proof {
            crate::text::lemma_substituted_snoc(
                content@,
                pv.take(i - 1),
                pv[i - 1],
            );
            assert(pv.take(i as int) =~= pv.take(i - 1).push(pv[i - 1]));
        }
    }
    proof {
        assert(pv.take(pv.len() as int) =~= pv);
    }
    chars_to_string(&cur)
}

/// Tells whether `s` is a well-formed `key=value` definition: exactly one
/// `=`, splitting the key from the value.
pub open spec fn kv_split_at(s: Seq<char>, p: int) -> bool {
    0 <= p < s.len() && s[p] == '=' && forall|q: int| 0 <= q < s.len() && q != p ==> s[q] != '='
}

pub open spec fn is_kv(s: Seq<char>) -> bool {
    exists|p: int| kv_split_at(s, p)
}

pub open spec fn kv_key(s: Seq<char>) -> Seq<char> {
    s.take(choose|p: int| kv_split_at(s, p))
}

pub open spec fn kv_val(s: Seq<char>) -> Seq<char> {
    s.skip((choose|p: int| kv_split_at(s, p)) + 1)
}

/// The runtime-variable map denoted by a list of `key=value` definitions:
/// later definitions of the same key win.
pub open spec fn vars_map_of(kvs: Seq<Seq<char>>) -> Map<Seq<char>, Seq<char>>
    decreases kvs.len(),
{
    if kvs.len() == 0 {
        Map::empty()
    } else {
        vars_map_of(kvs.drop_last()).insert(kv_key(kvs.last()), kv_val(kvs.last()))
    }
}

/// Splits one `key=value` definition, or reports where it is malformed.
fn split_kv(kv: &String) -> (r: Option<(String, String)>)
    ensures
        match r {
            Some(p) => is_kv(kv@) && p.0@ == kv_key(kv@) && p.1@ == kv_val(kv@),
            None => !is_kv(kv@),
        },
{
    let chars = str_chars(kv.as_str());
    let n = chars.len();
    let mut count: usize = 0;
    let mut pos: usize = 0;
    let ghost mut other: int = 0;
    let mut i: usize = 0;
    while i < n
        invariant
            i <= n,
            n == chars@.len(),
            count == 0 ==> forall|q: int| 0 <= q < i ==> chars@[q] != '=',
            count == 1 ==> pos < i && chars@[pos as int] == '=' && forall|q: int|
                0 <= q < i && q != pos ==> chars@[q] != '=',
            count >= 2 ==> 0 <= other < i && other != pos && pos < i && chars@[pos as int] == '='
                && chars@[other] == '=',
        decreases n - i,
    {
        if chars[i] == '=' {
            if count == 1 {
                proof {
                    other = pos as int;
                }
            }
            if count < 2 {
                count += 1;
            }
            pos = i;
        }
        i += 1;
    }
    if count == 1 {
        proof {
            assert(kv_split_at(kv@, pos as int));
            let p = choose|p: int| kv_split_at(kv@, p);
            assert(kv_split_at(kv@, p));
            if p != pos as int {
                assert(kv@[pos as int] == '=');
                assert(false);
            }
        }
        let mut keyv: Vec<char> = Vec::new();
        let mut j: usize = 0;
        while j < pos
            invariant
                j <= pos,
                pos < chars@.len(),
                keyv@ =~= chars@.take(j as int),
            decreases pos - j,
        {
            keyv.push(chars[j]);
            j += 1;
        }
        let mut valv: Vec<char> = Vec::new();
        let mut k: usize = pos + 1;
        while k < n
            invariant
                pos + 1 <= k <= n,
                n == chars@.len(),
                valv@ =~= chars@.subrange(pos + 1, k as int),
            decreases n - k,
        {
            valv.push(chars[k]);
            k += 1;
        }
        proof {
            assert(keyv@ =~= kv@.take(pos as int));
            assert(valv@ =~= kv@.skip(pos + 1));
        }
        Some((chars_to_string(&keyv), chars_to_string(&valv)))
    } else {
        proof {
            if is_kv(kv@) {
                let p = choose|p: int| kv_split_at(kv@, p);
                if count == 0 {
                    assert(kv@[p] == '=');
                } else {
                    assert(kv@[pos as int] == '=');
                    assert(kv@[other] == '=');
                }
            }
        }
        None
    }
}

/// Turns the repeatable `key=value` definitions into a runtime-variable map.
/// Every definition must carry exactly one `=`; otherwise nothing is built
/// and the whole call fails with `MalformedRuntimeVariable`.
pub fn runtime_variables_vec_to_map(kv_variables: Vec<String>) -> (r: Result<
    StrMap<String>,
    AliasError,
>)
    ensures
        match r {
            Ok(m) => {
                &&& m.wf()
                &&& forall|i: int| 0 <= i < kv_variables@.len() ==> is_kv(#[trigger] kv_variables@[i]@)
                &&& m@ == vars_map_of(kv_variables@.map_values(|s: String| s@))
            },
            Err(e) => {
                &&& e.err == AliasErrorCode::MalformedRuntimeVariable
                &&& exists|i: int|
                    0 <= i < kv_variables@.len() && !is_kv(#[trigger] kv_variables@[i]@)
            },
        },
{
    let ghost kvs = kv_variables@.map_values(|s: String| s@);
    let mut map: StrMap<String> = StrMap::new();
    let mut i: usize = 0;
    while i < kv_variables.len()
        invariant
            i <= kv_variables@.len(),
            kvs == kv_variables@.map_values(|s: String| s@),
            kvs.len() == kv_variables@.len(),
            map.wf(),
            map@ == vars_map_of(kvs.take(i as int)),
            forall|j: int| 0 <= j < i ==> is_kv(#[trigger] kv_variables@[j]@),
        decreases kv_variables@.len() - i,
    {
        match split_kv(&kv_variables[i]) {
            Some((key, val)) => {
                map.insert(key, val);
            },
            None => {
                let mut msg = String::new();
                msg.append("runtime variables define should be like \"--define key=value\" :: ");
                msg.append(kv_variables[i].as_str());
                return Err(AliasError::new(AliasErrorCode::MalformedRuntimeVariable, msg));
            },
        }
        i += 1;
        proof {
            assert(kvs.take(i as int) =~= kvs.take(i - 1).push(kvs[i - 1]));
            assert(kvs.take(i as int).drop_last() =~= kvs.take(i - 1));
        }
    }
    proof {
        assert(kvs.take(kvs.len() as int) =~= kvs);
    }
    Ok(map)
}

} // verus!
