//! The codec between the settings document and its TOML table: the document
//! is rendered into an untyped table (and from there to text), and recovered
//! from a parsed table, key by key. `lemma_doc_model_round_trip` shows that
//! reading back the table built from a document recovers that document
//! exactly; only the text-level inversion belongs to the `toml` crate.

use vstd::prelude::*;

use crate::error::{AliasError, AliasErrorCode};
use crate::setting::{AliasGroupSetting, AliasSetting, DocView, GlobalSetting, TomlSetting};
use crate::strmap::StrMap;
use crate::toml_io::{
    table_contains, table_get_str, table_get_table, table_insert_str, table_insert_table,
    table_keys, table_model, table_new, TomlNode, TomlTable,
};

verus! {

/// The TOML node holding one alias: a table with its command under `cmd`.
pub open spec fn alias_node(cmd: Seq<char>) -> TomlNode {
    TomlNode::Tab(Map::empty().insert("cmd"@, TomlNode::Str(cmd)))
}

/// The TOML node holding one group: its aliases under `mapping`.
pub open spec fn group_node(m: Map<Seq<char>, Seq<char>>) -> TomlNode {
    TomlNode::Tab(
        Map::empty().insert("mapping"@, TomlNode::Tab(m.map_values(|c: Seq<char>| alias_node(c)))),
    )
}

/// The TOML contents of the `alias` table: one node per group.
pub open spec fn groups_model(gs: Map<Seq<char>, Map<Seq<char>, Seq<char>>>) -> Map<
    Seq<char>,
    TomlNode,
> {
    gs.map_values(|m: Map<Seq<char>, Seq<char>>| group_node(m))
}

/// The TOML contents of the `global` table: each optional field present
/// exactly when set.
pub open spec fn global_model(root: Option<Seq<char>>, env: Option<Seq<char>>) -> Map<
    Seq<char>,
    TomlNode,
> {
    let m0 = Map::<Seq<char>, TomlNode>::empty();
    let m1 = match root {
        Some(r) => m0.insert("script_root"@, TomlNode::Str(r)),
        None => m0,
    };
    match env {
        Some(e) => m1.insert("script_root_env_var_name"@, TomlNode::Str(e)),
        None => m1,
    }
}

/// The TOML table that a settings document renders to.
pub open spec fn doc_model(d: DocView) -> Map<Seq<char>, TomlNode> {
    Map::empty().insert(
        "global"@,
        TomlNode::Tab(global_model(d.script_root, d.script_root_env_var_name)),
    ).insert("alias"@, TomlNode::Tab(groups_model(d.groups)))
}

/// The command text under `cmd`, where the node is a table carrying one.
pub open spec fn node_cmd(n: TomlNode) -> Option<Seq<char>> {
    match n {
        TomlNode::Tab(t) => if t.dom().contains("cmd"@) {
            match t["cmd"@] {
                TomlNode::Str(s) => Some(s),
                _ => None,
            }
        } else {
            None
        },
        _ => None,
    }
}

/// The alias map of a group node, where it is well-shaped.
pub open spec fn node_group(n: TomlNode) -> Option<Map<Seq<char>, Seq<char>>> {
    match n {
        TomlNode::Tab(t) => if t.dom().contains("mapping"@) {
            match t["mapping"@] {
                TomlNode::Tab(mt) => if forall|a: Seq<char>|
                    mt.dom().contains(a) ==> node_cmd(#[trigger] mt[a]) is Some {
                    Some(
                        Map::new(
                            |a: Seq<char>| mt.dom().contains(a),
                            |a: Seq<char>| node_cmd(mt[a])->0,
                        ),
                    )
                } else {
                    None
                },
                _ => None,
            }
        } else {
            None
        },
        _ => None,
    }
}

/// The group map read from a parsed document table: absent means empty; a
/// present `alias` table must hold well-shaped groups throughout.
pub open spec fn model_groups(m: Map<Seq<char>, TomlNode>) -> Option<
    Map<Seq<char>, Map<Seq<char>, Seq<char>>>,
> {
    if !m.dom().contains("alias"@) {
        Some(Map::empty())
    } else {
        match m["alias"@] {
            TomlNode::Tab(gt) => if forall|g: Seq<char>|
                gt.dom().contains(g) ==> node_group(#[trigger] gt[g]) is Some {
                Some(
                    Map::new(
                        |g: Seq<char>| gt.dom().contains(g),
                        |g: Seq<char>| node_group(gt[g])->0,
                    ),
                )
            } else {
                None
            },
            _ => None,
        }
    }
}

/// An optional string field of a table: absent is fine, any non-string
/// value is a shape error.
pub open spec fn model_opt_str(t: Map<Seq<char>, TomlNode>, k: Seq<char>) -> Option<
    Option<Seq<char>>,
> {
    if !t.dom().contains(k) {
        Some(None)
    } else {
        match t[k] {
            TomlNode::Str(s) => Some(Some(s)),
            _ => None,
        }
    }
}

/// The global fields read from a parsed document table.
pub open spec fn model_global(m: Map<Seq<char>, TomlNode>) -> Option<
    (Option<Seq<char>>, Option<Seq<char>>),
> {
    if !m.dom().contains("global"@) {
        Some((None, None))
    } else {
        match m["global"@] {
            TomlNode::Tab(g) => match (
                model_opt_str(g, "script_root"@),
                model_opt_str(g, "script_root_env_var_name"@),
            ) {
                (Some(r), Some(e)) => Some((r, e)),
                _ => None,
            },
            _ => None,
        }
    }
}

/// The settings document denoted by a parsed TOML table, where the table is
/// well-shaped.
pub open spec fn doc_of_model(m: Map<Seq<char>, TomlNode>) -> Option<DocView> {
    match (model_global(m), model_groups(m)) {
        (Some(gl), Some(gs)) => Some(
            DocView { script_root: gl.0, script_root_env_var_name: gl.1, groups: gs },
        ),
        _ => None,
    }
}

/// Builds the `mapping` table of one group.
fn mapping_table_of_group(grp: &AliasGroupSetting) -> (r: TomlTable)
    requires
        grp.wf(),
    ensures
        table_model(r) == grp@.map_values(|c: Seq<char>| alias_node(c)),
{
    let ghost pairs = grp.mapping.pairs@;
    let mut mt = table_new();
    let n = grp.mapping.len();
    let mut i: usize = 0;
    while i < n
        invariant
            i <= n,
            n == pairs.len(),
            pairs == grp.mapping.pairs@,
            grp.mapping.wf(),
            table_model(mt) == Map::new(
                |a: Seq<char>| exists|j: int| 0 <= j < i && #[trigger] pairs[j].0@ == a,
                |a: Seq<char>| alias_node(grp@[a]),
            ),
        decreases n - i,
    {
        let mut at = table_new();
        table_insert_str(&mut at, "cmd", &grp.mapping.pairs[i].1.cmd);
        let ghost before = table_model(mt);
        table_insert_table(&mut mt, grp.mapping.pairs[i].0.as_str(), at);
        i += 1;
        proof {
            crate::strmap::lemma_assoc_view_index(pairs, i - 1);
            assert(table_model(at) =~= Map::empty().insert("cmd"@, TomlNode::Str(pairs[i - 1].1@)));
            assert(grp@[pairs[i - 1].0@] == pairs[i - 1].1@);
            assert(before.insert(pairs[i - 1].0@, TomlNode::Tab(table_model(at))) =~= Map::new(
                |a: Seq<char>| exists|j: int| 0 <= j < i && #[trigger] pairs[j].0@ == a,
                |a: Seq<char>| alias_node(grp@[a]),
            ));
        }
    }
    proof {
        crate::strmap::lemma_assoc_view_dom(pairs);
        let keyseq = pairs.map_values(|p: (String, AliasSetting)| p.0@);
        assert forall|a: Seq<char>| #[trigger] grp@.dom().contains(a) implies exists|j: int|
            0 <= j < n && #[trigger] pairs[j].0@ == a by {
            assert(keyseq.to_set().contains(a));
            let j = choose|j: int| 0 <= j < keyseq.len() && #[trigger] keyseq[j] == a;
            assert(pairs[j].0@ == a);
        }
        assert forall|a: Seq<char>| (exists|j: int| 0 <= j < n && #[trigger] pairs[j].0@ == a)
            implies grp@.dom().contains(a) by {
            let j = choose|j: int| 0 <= j < n && #[trigger] pairs[j].0@ == a;
            assert(keyseq[j] == a);
            assert(keyseq.to_set().contains(a));
        }
        assert(table_model(mt) =~= grp@.map_values(|c: Seq<char>| alias_node(c)));
    }
    mt
}

/// Builds the TOML table that renders a settings document.
pub(crate) fn table_of_doc(doc: &TomlSetting) -> (r: TomlTable)
    requires
        doc.wf(),
    ensures
        table_model(r) == doc_model(doc@),
{
    // the [global] table
    let mut gt = table_new();
    match &doc.global.script_root {
        Some(s) => table_insert_str(&mut gt, "script_root", s),
        None => (),
    }
    match &doc.global.script_root_env_var_name {
        Some(s) => table_insert_str(&mut gt, "script_root_env_var_name", s),
        None => (),
    }
    proof {
        assert(table_model(gt) =~= global_model(
            doc@.script_root,
            doc@.script_root_env_var_name,
        ));
    }
    // the [alias] table, one sub-table per group
    let ghost pairs = doc.alias.pairs@;
    let mut gst = table_new();
    let n = doc.alias.len();
    let mut i: usize = 0;
    while i < n
        invariant
            i <= n,
            n == pairs.len(),
            pairs == doc.alias.pairs@,
            doc.wf(),
            table_model(gst) == Map::new(
                |g: Seq<char>| exists|j: int| 0 <= j < i && #[trigger] pairs[j].0@ == g,
                |g: Seq<char>| group_node(doc@.groups[g]),
            ),
        decreases n - i,
    {
        let mt = mapping_table_of_group(&doc.alias.pairs[i].1);
        let mut grt = table_new();
        table_insert_table(&mut grt, "mapping", mt);
        let ghost before = table_model(gst);
        table_insert_table(&mut gst, doc.alias.pairs[i].0.as_str(), grt);
        i += 1;
        proof {
            crate::strmap::lemma_assoc_view_index(pairs, i - 1);
            assert(doc@.groups[pairs[i - 1].0@] == pairs[i - 1].1@);
            assert(table_model(grt) =~= Map::empty().insert(
                "mapping"@,
                TomlNode::Tab(pairs[i - 1].1@.map_values(|c: Seq<char>| alias_node(c))),
            ));
            assert(TomlNode::Tab(table_model(grt)) == group_node(doc@.groups[pairs[i - 1].0@]));
            assert(before.insert(pairs[i - 1].0@, TomlNode::Tab(table_model(grt))) =~= Map::new(
                |g: Seq<char>| exists|j: int| 0 <= j < i && #[trigger] pairs[j].0@ == g,
                |g: Seq<char>| group_node(doc@.groups[g]),
            ));
        }
    }
    proof {
        crate::strmap::lemma_assoc_view_dom(pairs);
        let keyseq = pairs.map_values(|p: (String, AliasGroupSetting)| p.0@);
        assert forall|g: Seq<char>| #[trigger] doc@.groups.dom().contains(g) implies exists|j: int|
            0 <= j < n && #[trigger] pairs[j].0@ == g by {
            assert(keyseq.to_set().contains(g));
            let j = choose|j: int| 0 <= j < keyseq.len() && #[trigger] keyseq[j] == g;
            assert(pairs[j].0@ == g);
        }
        assert forall|g: Seq<char>| (exists|j: int| 0 <= j < n && #[trigger] pairs[j].0@ == g)
            implies doc@.groups.dom().contains(g) by {
            let j = choose|j: int| 0 <= j < n && #[trigger] pairs[j].0@ == g;
            assert(keyseq[j] == g);
            assert(keyseq.to_set().contains(g));
        }
        assert(table_model(gst) =~= groups_model(doc@.groups));
    }
    // the document root
    let mut root = table_new();
    table_insert_table(&mut root, "global", gt);
    table_insert_table(&mut root, "alias", gst);
    proof {
        assert(table_model(root) =~= doc_model(doc@));
    }
    root
}

/// Renders a settings document as TOML text.
pub fn serialize_setting(doc: &TomlSetting) -> (r: Result<String, AliasError>)
    requires
        doc.wf(),
    ensures
        match r {
            Ok(s) => crate::toml_io::toml_ser_of(doc_model(doc@)) == Some(s@),
            Err(e) => crate::toml_io::toml_ser_of(doc_model(doc@)) is None && e.err
                == AliasErrorCode::ConfigWriteError,
        },
{
    let t = table_of_doc(doc);
    match crate::toml_io::table_to_text(&t) {
        Ok(s) => Ok(s),
        Err(m) => {
            let mut msg = "serialize alias setting error :: ".to_owned();
            msg.append(m.as_str());
            Err(AliasError::new(AliasErrorCode::ConfigWriteError, msg))
        },
    }
}

/// Reads one group's aliases out of its `mapping` table.
fn read_mapping(mt: &TomlTable) -> (r: Option<AliasGroupSetting>)
    ensures
        match r {
            Some(g) => g.wf() && (forall|a: Seq<char>|
                table_model(*mt).dom().contains(a) ==> node_cmd(
                    #[trigger] table_model(*mt)[a],
                ) is Some) && g@ == Map::new(
                |a: Seq<char>| table_model(*mt).dom().contains(a),
                |a: Seq<char>| node_cmd(table_model(*mt)[a])->0,
            ),
            None => exists|a: Seq<char>|
                table_model(*mt).dom().contains(a) && node_cmd(
                    #[trigger] table_model(*mt)[a],
                ) is None,
        },
{
    let ghost model = table_model(*mt);
    let ks = table_keys(mt);
    let ghost kv = ks@.map_values(|s: String| s@);
    let mut built: StrMap<AliasSetting> = StrMap::new();
    let n = ks.len();
    let mut i: usize = 0;
    while i < n
        invariant
            i <= n,
            n == ks@.len(),
            kv == ks@.map_values(|s: String| s@),
            kv.to_set() == model.dom(),
            kv.no_duplicates(),
            model == table_model(*mt),
            built.wf(),
            forall|j: int| 0 <= j < i ==> node_cmd(model[#[trigger] kv[j]]) is Some,
            built@ == Map::new(
                |a: Seq<char>| exists|j: int| 0 <= j < i && #[trigger] kv[j] == a,
                |a: Seq<char>| node_cmd(model[a])->0,
            ),
        decreases n - i,
    {
        proof {
            assert(kv[i as int] == ks@[i as int]@);
            assert(kv.to_set().contains(kv[i as int]));
        }
        let bad = match table_get_table(mt, ks[i].as_str()) {
            Some(at) => {
                match table_get_str(at, "cmd") {
                    Some(cmd) => {
                        let ghost before = built@;
                        built.insert(ks[i].clone(), AliasSetting::new(cmd));
                        proof {
                            assert(node_cmd(model[kv[i as int]]) == Some(cmd@));
                            assert(before.insert(kv[i as int], cmd@) =~= Map::new(
                                |a: Seq<char>| exists|j: int| 0 <= j <= i && #[trigger] kv[j] == a,
                                |a: Seq<char>| node_cmd(model[a])->0,
                            ));
                        }
                        false
                    },
                    None => true,
                }
            },
            None => true,
        };
        if bad {
            proof {
                assert(model.dom().contains(kv[i as int]) && node_cmd(model[kv[i as int]]) is None);
            }
            return None;
        }
        i += 1;
    }
    proof {
        assert forall|a: Seq<char>| #[trigger] model.dom().contains(a) implies node_cmd(
            model[a],
        ) is Some by {
            let j = choose|j: int| 0 <= j < kv.len() && #[trigger] kv[j] == a;
            assert(node_cmd(model[kv[j]]) is Some);
        }
        assert forall|a: Seq<char>| #[trigger] model.dom().contains(a) implies exists|j: int|
            0 <= j < n && #[trigger] kv[j] == a by {
            assert(kv.to_set().contains(a));
        }
        assert(built@ =~= Map::new(
            |a: Seq<char>| model.dom().contains(a),
            |a: Seq<char>| node_cmd(model[a])->0,
        ));
    }
    Some(AliasGroupSetting { mapping: built })
}

/// Reads one group out of its table.
fn read_group(gt: &TomlTable) -> (r: Option<AliasGroupSetting>)
    ensures
        match r {
            Some(g) => g.wf() && node_group(TomlNode::Tab(table_model(*gt))) == Some(g@),
            None => node_group(TomlNode::Tab(table_model(*gt))) is None,
        },
{
    if !table_contains(gt, "mapping") {
        return None;
    }
    match table_get_table(gt, "mapping") {
        None => None,
        Some(mt) => read_mapping(mt),
    }
}

fn parse_error() -> (r: AliasError)
    ensures
        r.err == AliasErrorCode::ConfigParseError,
{
    AliasError::new(AliasErrorCode::ConfigParseError, "deserialize setting fail".to_owned())
}

/// Recovers a settings document from a parsed TOML table, or reports the
/// first shape error.
pub(crate) fn doc_of_table(t: &TomlTable) -> (r: Result<TomlSetting, AliasError>)
    ensures
        match r {
            Ok(doc) => doc.wf() && doc_of_model(table_model(*t)) == Some(doc@),
            Err(e) => doc_of_model(table_model(*t)) is None && e.err
                == AliasErrorCode::ConfigParseError,
        },
{
    let ghost model = table_model(*t);
    // the [global] table
    let mut script_root: Option<String> = None;
    let mut env_name: Option<String> = None;
    if table_contains(t, "global") {
        match table_get_table(t, "global") {
            None => {
                return Err(parse_error());
            },
            Some(g) => {
                if table_contains(g, "script_root") {
                    match table_get_str(g, "script_root") {
                        Some(s) => {
                            script_root = Some(s);
                        },
                        None => {
                            return Err(parse_error());
                        },
                    }
                }
                if table_contains(g, "script_root_env_var_name") {
                    match table_get_str(g, "script_root_env_var_name") {
                        Some(s) => {
                            env_name = Some(s);
                        },
                        None => {
                            return Err(parse_error());
                        },
                    }
                }
            },
        }
    }
    proof {
        assert(model_global(model) == Some(
            (
                crate::setting::opt_string_view(script_root),
                crate::setting::opt_string_view(env_name),
            ),
        ));
    }
    // the [alias] table, one group per key
    let mut groups: StrMap<AliasGroupSetting> = StrMap::new();
    if table_contains(t, "alias") {
        match table_get_table(t, "alias") {
            None => {
                return Err(parse_error());
            },
            Some(gtab) => {
                let ghost gmodel = table_model(*gtab);
                let ks = table_keys(gtab);
                let ghost kv = ks@.map_values(|s: String| s@);
                let n = ks.len();
                let mut i: usize = 0;
                while i < n
                    invariant
                        i <= n,
                        n == ks@.len(),
                        kv == ks@.map_values(|s: String| s@),
                        kv.to_set() == gmodel.dom(),
                        kv.no_duplicates(),
                        gmodel == table_model(*gtab),
                        model == table_model(*t),
                        model.dom().contains("alias"@),
                        model["alias"@] == TomlNode::Tab(gmodel),
                        groups.wf(),
                        forall|j: int|
                            0 <= j < groups.pairs@.len() ==> (#[trigger] groups.pairs@[j].1).wf(),
                        forall|j: int| 0 <= j < i ==> node_group(gmodel[#[trigger] kv[j]]) is Some,
                        groups@ == Map::new(
                            |g: Seq<char>| exists|j: int| 0 <= j < i && #[trigger] kv[j] == g,
                            |g: Seq<char>| node_group(gmodel[g])->0,
                        ),
                    decreases n - i,
                {
                    proof {
                        assert(kv[i as int] == ks@[i as int]@);
                        assert(kv.to_set().contains(kv[i as int]));
                    }
                    let ok = match table_get_table(gtab, ks[i].as_str()) {
                        None => false,
                        Some(grt) => {
                            match read_group(grt) {
                                None => false,
                                Some(g) => {
                                    let ghost before = groups@;
                                    groups.insert(ks[i].clone(), g);
                                    proof {
                                        assert(node_group(gmodel[kv[i as int]]) == Some(g@));
                                        assert(before.insert(kv[i as int], g@) =~= Map::new(
                                            |x: Seq<char>| exists|j: int|
                                                0 <= j <= i && #[trigger] kv[j] == x,
                                            |x: Seq<char>| node_group(gmodel[x])->0,
                                        ));
                                    }
                                    true
                                },
                            }
                        },
                    };
                    if !ok {
                        proof {
                            assert(gmodel.dom().contains(kv[i as int]) && node_group(
                                gmodel[kv[i as int]],
                            ) is None);
                            assert(model_groups(model) is None);
                        }
                        return Err(parse_error());
                    }
                    i += 1;
                }
                proof {
                    assert forall|g: Seq<char>| #[trigger] gmodel.dom().contains(g) implies
                        node_group(gmodel[g]) is Some by {
                        let j = choose|j: int| 0 <= j < kv.len() && #[trigger] kv[j] == g;
                        assert(node_group(gmodel[kv[j]]) is Some);
                    }
                    assert forall|g: Seq<char>| #[trigger] gmodel.dom().contains(g) implies exists|
                        j: int,
                    |
                        0 <= j < n && #[trigger] kv[j] == g by {
                        assert(kv.to_set().contains(g));
                    }
                    assert(groups@ =~= Map::new(
                        |g: Seq<char>| gmodel.dom().contains(g),
                        |g: Seq<char>| node_group(gmodel[g])->0,
                    ));
                    assert(model_groups(model) == Some(groups@));
                }
            },
        }
    }
    proof {
        if !model.dom().contains("alias"@) {
            assert(groups@ =~= Map::<Seq<char>, Map<Seq<char>, Seq<char>>>::empty());
            assert(model_groups(model) == Some(groups@));
        }
    }
    let doc = TomlSetting {
        global: GlobalSetting { script_root, script_root_env_var_name: env_name },
        alias: groups,
    };
    Ok(doc)
}

/// Parses settings text (already substituted) into a document.
pub fn parse_setting(text: &String) -> (r: Result<TomlSetting, AliasError>)
    ensures
        match r {
            Ok(doc) => {
                &&& doc.wf()
                &&& crate::toml_io::toml_parse_of(text@) is Some
                &&& doc_of_model(crate::toml_io::toml_parse_of(text@)->0) == Some(doc@)
            },
            Err(e) => {
                &&& (crate::toml_io::toml_parse_of(text@) is None || doc_of_model(
                    crate::toml_io::toml_parse_of(text@)->0,
                ) is None)
                &&& e.err == AliasErrorCode::ConfigParseError
            },
        },
{
    match crate::toml_io::table_parse(text) {
        Err(m) => {
            let mut msg = "deserialize setting fail :: ".to_owned();
            msg.append(m.as_str());
            Err(AliasError::new(AliasErrorCode::ConfigParseError, msg))
        },
        Ok(t) => doc_of_table(&t),
    }
}

/// Loads a settings document from raw text: every `{{name}}` placeholder is
/// replaced from the runtime variables first, then the result is parsed.
pub fn load(content: &String, runtime_variables: &StrMap<String>) -> (r: Result<
    TomlSetting,
    AliasError,
>)
    ensures
        ({
            let sub = crate::text::substituted(
                content@,
                crate::setting::vars_pairs_view(*runtime_variables),
            );
            match r {
                Ok(doc) => {
                    &&& doc.wf()
                    &&& crate::toml_io::toml_parse_of(sub) is Some
                    &&& doc_of_model(crate::toml_io::toml_parse_of(sub)->0) == Some(doc@)
                },
                Err(e) => {
                    &&& (crate::toml_io::toml_parse_of(sub) is None || doc_of_model(
                        crate::toml_io::toml_parse_of(sub)->0,
                    ) is None)
                    &&& e.err == AliasErrorCode::ConfigParseError
                },
            }
        }),
{
    let substituted_text = crate::setting::substitute_variables(content, runtime_variables);
    parse_setting(&substituted_text)
}

/// Reading back the table built from a document recovers the document: the
/// codec between documents and TOML tables loses nothing.
pub proof fn lemma_doc_model_round_trip(d: DocView)
    ensures
        doc_of_model(doc_model(d)) == Some(d),
{
    reveal_strlit("global");
    reveal_strlit("alias");
    reveal_strlit("script_root");
    reveal_strlit("script_root_env_var_name");
    let m = doc_model(d);
    assert("global"@.len() == 6);
    assert("alias"@.len() == 5);
    assert("global"@ != "alias"@);
    assert("script_root"@.len() == 11);
    assert("script_root_env_var_name"@.len() == 24);
    assert("script_root"@ != "script_root_env_var_name"@);
    let g = global_model(d.script_root, d.script_root_env_var_name);
    assert(m["global"@] == TomlNode::Tab(g));
    assert(model_opt_str(g, "script_root"@) == Some(d.script_root));
    assert(model_opt_str(g, "script_root_env_var_name"@) == Some(d.script_root_env_var_name));
    assert(model_global(m) == Some((d.script_root, d.script_root_env_var_name)));
    let gs = groups_model(d.groups);
    assert(m["alias"@] == TomlNode::Tab(gs));
    assert forall|g2: Seq<char>| gs.dom().contains(g2) implies node_group(
        #[trigger] gs[g2],
    ) == Some(d.groups[g2]) by {
        let inner = d.groups[g2];
        let mapped = inner.map_values(|c: Seq<char>| alias_node(c));
        assert(gs[g2] == group_node(inner));
        assert forall|a: Seq<char>| mapped.dom().contains(a) implies node_cmd(
            #[trigger] mapped[a],
        ) == Some(inner[a]) by {
            assert(mapped[a] == alias_node(inner[a]));
        }
        assert(node_group(group_node(inner))->0 =~= inner);
    }
    assert(model_groups(m)->0 =~= d.groups);
    assert(doc_of_model(doc_model(d)) == Some(d));
}

} // verus!
