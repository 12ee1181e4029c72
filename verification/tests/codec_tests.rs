use alias_rs::alias::Alias;
use alias_rs::alias_manage::{AliasManage, AliasManager};
use alias_rs::codec::{load, parse_setting, serialize_setting};
use alias_rs::error::AliasErrorCode;
use alias_rs::linux::LinuxAlias;
use alias_rs::setting::{
    runtime_variables_vec_to_map, AliasGroupSetting, AliasSetting, GlobalSetting, TomlSetting,
};
use alias_rs::strmap::StrMap;

fn doc_with(entries: &[(&str, &str, &str)], root: Option<&str>) -> TomlSetting {
    let mut groups: StrMap<AliasGroupSetting> = StrMap::new();
    for (g, a, c) in entries {
        let grp = match groups.remove_key(&(*g).to_owned()) {
            Some(grp) => grp,
            None => AliasGroupSetting::new(),
        };
        let mut grp = grp;
        grp.mapping
            .insert((*a).to_owned(), AliasSetting::new((*c).to_owned()));
        groups.insert((*g).to_owned(), grp);
    }
    TomlSetting {
        global: GlobalSetting {
            script_root: root.map(|s| s.to_owned()),
            script_root_env_var_name: None,
        },
        alias: groups,
    }
}

#[test]
fn serialize_then_parse_round_trips_a_two_group_document() {
    let doc = doc_with(
        &[
            ("default", "ll", "ls -la"),
            ("default", "gs", "git status"),
            ("work", "deploy", "make deploy"),
            ("work", "логи", "journalctl -f"),
        ],
        Some("/opt/scripts"),
    );
    let text = serialize_setting(&doc).unwrap();
    let back = parse_setting(&text).unwrap();
    for (g, a, c) in [
        ("default", "ll", "ls -la"),
        ("default", "gs", "git status"),
        ("work", "deploy", "make deploy"),
        ("work", "логи", "journalctl -f"),
    ] {
        let grp = back.alias.get(&g.to_owned()).unwrap();
        assert_eq!(grp.mapping.get(&a.to_owned()).unwrap().cmd, c);
    }
    assert_eq!(back.global.script_root.as_deref(), Some("/opt/scripts"));
    assert_eq!(back.global.script_root_env_var_name, None);
}

#[test]
fn serialized_text_is_real_toml() {
    let doc = doc_with(&[("default", "ll", "ls -la")], None);
    let text = serialize_setting(&doc).unwrap();
    // cross-check against the toml crate's own typed view of the text
    let table: toml::Table = text.parse().unwrap();
    let cmd = table["alias"]["default"]["mapping"]["ll"]["cmd"].as_str();
    assert_eq!(cmd, Some("ls -la"));
}

#[test]
fn placeholder_substitution_happens_before_parsing() {
    let text = "[alias.default.mapping.hello]\ncmd = \"echo {{name}}\"\n".to_owned();
    let vars = runtime_variables_vec_to_map(vec!["name=world".to_owned()]).unwrap();
    let doc = load(&text, &vars).unwrap();
    let grp = doc.alias.get(&"default".to_owned()).unwrap();
    assert_eq!(grp.mapping.get(&"hello".to_owned()).unwrap().cmd, "echo world");
}

#[test]
fn unresolved_placeholders_are_left_untouched() {
    let text = "[alias.default.mapping.hello]\ncmd = \"echo {{name}}\"\n".to_owned();
    let vars = runtime_variables_vec_to_map(vec!["other=x".to_owned()]).unwrap();
    let doc = load(&text, &vars).unwrap();
    let grp = doc.alias.get(&"default".to_owned()).unwrap();
    assert_eq!(
        grp.mapping.get(&"hello".to_owned()).unwrap().cmd,
        "echo {{name}}"
    );
}

#[test]
fn malformed_toml_is_a_parse_error() {
    let vars: StrMap<String> = StrMap::new();
    let err = match load(&"this is [not toml".to_owned(), &vars) {
        Err(e) => e,
        Ok(_) => panic!("expected a parse error"),
    };
    assert_eq!(err.err, AliasErrorCode::ConfigParseError);
}

#[test]
fn wrong_shapes_are_parse_errors() {
    let vars: StrMap<String> = StrMap::new();
    for bad in [
        "alias = \"not a table\"\n",
        "[alias.default]\nmapping = 3\n",
        "[alias.default.mapping]\nll = \"missing table\"\n",
        "[alias.default.mapping.ll]\nother = \"no cmd key\"\n",
        "[global]\nscript_root = 5\n",
    ] {
        let err = match load(&bad.to_owned(), &vars) {
            Err(e) => e,
            Ok(_) => panic!("expected a parse error: {}", bad),
        };
        assert_eq!(err.err, AliasErrorCode::ConfigParseError, "case: {}", bad);
    }
}

#[test]
fn missing_tables_mean_an_empty_default_document() {
    let vars: StrMap<String> = StrMap::new();
    let doc = load(&"".to_owned(), &vars).unwrap();
    assert_eq!(doc.alias.len(), 0);
    assert!(doc.global.script_root.is_none());
}

#[test]
fn default_document_serializes_and_reloads() {
    let text = serialize_setting(&TomlSetting::default()).unwrap();
    let doc = parse_setting(&text).unwrap();
    assert_eq!(doc.alias.len(), 0);
}

#[test]
fn export_then_import_reproduces_an_equivalent_document() {
    let doc = doc_with(
        &[
            ("default", "ll", "ls -la"),
            ("default", "gs", "git status"),
            ("work", "deploy", "make deploy"),
            ("work", "tail", "journalctl -f"),
        ],
        None,
    );
    let exporter = AliasManager::new(LinuxAlias::new(&"/home/u".to_owned(), doc));
    let exported = exporter.export().unwrap();

    let mut importer = AliasManager::new(LinuxAlias::new(
        &"/home/u".to_owned(),
        TomlSetting::default(),
    ));
    importer.import(&exported).unwrap();
    for (g, a, c) in [
        ("default", "ll", "ls -la"),
        ("default", "gs", "git status"),
        ("work", "deploy", "make deploy"),
        ("work", "tail", "journalctl -f"),
    ] {
        let got = importer.alias_base.get(&g.to_owned(), &a.to_owned()).unwrap();
        assert_eq!(got.cmd, c, "{}::{}", g, a);
    }
}

#[test]
fn rebuild_is_idempotent() {
    let doc = doc_with(
        &[
            ("default", "ll", "ls -la"),
            ("work", "deploy", "make deploy"),
        ],
        None,
    );
    let mut mgr = AliasManager::new(LinuxAlias::new(&"/home/u".to_owned(), doc));
    let plan1 = mgr.rebuild().unwrap();
    let text1 = plan1.settings_text.clone();
    let plan2 = mgr.rebuild().unwrap();
    assert_eq!(plan2.settings_text, text1);
    let mut w1: Vec<String> = plan1
        .actions
        .iter()
        .map(|a| format!("{:?}", action_key(a)))
        .collect();
    let mut w2: Vec<String> = plan2
        .actions
        .iter()
        .map(|a| format!("{:?}", action_key(a)))
        .collect();
    w1.sort();
    w2.sort();
    assert_eq!(w1, w2);
}

fn action_key(a: &alias_rs::engine::ScriptAction) -> (bool, String, Vec<u8>) {
    match a {
        alias_rs::engine::ScriptAction::WriteScript { path, content } => {
            (true, path.clone(), content.clone())
        }
        alias_rs::engine::ScriptAction::RemoveScript { path } => (false, path.clone(), Vec::new()),
    }
}
