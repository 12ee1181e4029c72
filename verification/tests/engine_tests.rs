use alias_rs::buffer::{MutationBuffer, MutationKind};
use alias_rs::engine::{AliasEngine, ScriptAction};
use alias_rs::script::PlatformKind;
use alias_rs::setting::{AliasSetting, TomlSetting};

fn fresh_engine() -> AliasEngine {
    AliasEngine::new(
        PlatformKind::Posix,
        "/tmp/alias-scripts".to_owned(),
        None,
        TomlSetting::default(),
    )
}

fn write_paths(actions: &[ScriptAction]) -> Vec<String> {
    actions
        .iter()
        .filter_map(|a| match a {
            ScriptAction::WriteScript { path, .. } => Some(path.clone()),
            _ => None,
        })
        .collect()
}

fn remove_paths(actions: &[ScriptAction]) -> Vec<String> {
    actions
        .iter()
        .filter_map(|a| match a {
            ScriptAction::RemoveScript { path } => Some(path.clone()),
            _ => None,
        })
        .collect()
}

#[test]
fn set_then_commit_updates_document_and_writes_script() {
    let mut e = fresh_engine();
    e.set(
        "default".to_owned(),
        "ll".to_owned(),
        AliasSetting::new("ls -la".to_owned()),
    );
    // reads never see buffered mutations
    assert!(e.get(&"default".to_owned(), &"ll".to_owned()).is_none());
    let plan = e.commit().unwrap();
    let got = e.get(&"default".to_owned(), &"ll".to_owned()).unwrap();
    assert_eq!(got.cmd, "ls -la");
    let writes = write_paths(&plan.actions);
    assert_eq!(writes, vec!["/tmp/alias-scripts/ll.sh".to_owned()]);
    match &plan.actions[0] {
        ScriptAction::WriteScript { content, .. } => {
            assert_eq!(content.as_slice(), b"ls -la");
        }
        _ => panic!("expected a write action"),
    }
}

#[test]
fn remove_then_commit_deletes_alias_and_script() {
    let mut e = fresh_engine();
    e.set(
        "default".to_owned(),
        "ll".to_owned(),
        AliasSetting::new("ls -la".to_owned()),
    );
    e.commit().unwrap();
    e.remove(&"default".to_owned(), &"ll".to_owned());
    let plan = e.commit().unwrap();
    assert!(e.get(&"default".to_owned(), &"ll".to_owned()).is_none());
    assert_eq!(
        remove_paths(&plan.actions),
        vec!["/tmp/alias-scripts/ll.sh".to_owned()]
    );
    // the group survives its last removal
    assert!(e.get_group(&"default".to_owned()).is_some());
}

#[test]
fn buffering_is_last_write_wins() {
    let mut e = fresh_engine();
    e.set(
        "g".to_owned(),
        "a".to_owned(),
        AliasSetting::new("first".to_owned()),
    );
    e.set(
        "g".to_owned(),
        "a".to_owned(),
        AliasSetting::new("second".to_owned()),
    );
    let plan = e.commit().unwrap();
    assert_eq!(
        e.get(&"g".to_owned(), &"a".to_owned()).unwrap().cmd,
        "second"
    );
    // one single write action, carrying the later command
    assert_eq!(plan.actions.len(), 1);
    match &plan.actions[0] {
        ScriptAction::WriteScript { content, .. } => {
            assert_eq!(content.as_slice(), b"second");
        }
        _ => panic!("expected a write action"),
    }
}

#[test]
fn remove_group_removes_every_alias_present_at_call_time() {
    let mut e = fresh_engine();
    e.set(
        "work".to_owned(),
        "a1".to_owned(),
        AliasSetting::new("cmd1".to_owned()),
    );
    e.set(
        "work".to_owned(),
        "a2".to_owned(),
        AliasSetting::new("cmd2".to_owned()),
    );
    e.commit().unwrap();
    e.remove_group(&"work".to_owned());
    // a further unrelated set for another group before the commit
    e.set(
        "other".to_owned(),
        "b1".to_owned(),
        AliasSetting::new("cmd3".to_owned()),
    );
    e.commit().unwrap();
    assert!(e.get(&"work".to_owned(), &"a1".to_owned()).is_none());
    assert!(e.get(&"work".to_owned(), &"a2".to_owned()).is_none());
    assert_eq!(
        e.get(&"other".to_owned(), &"b1".to_owned()).unwrap().cmd,
        "cmd3"
    );
}

#[test]
fn commit_clears_the_buffer_and_is_then_a_no_op() {
    let mut e = fresh_engine();
    e.set(
        "default".to_owned(),
        "x".to_owned(),
        AliasSetting::new("y".to_owned()),
    );
    let first = e.commit().unwrap();
    assert_eq!(first.actions.len(), 1);
    let second = e.commit().unwrap();
    assert_eq!(second.actions.len(), 0);
    assert_eq!(e.get(&"default".to_owned(), &"x".to_owned()).unwrap().cmd, "y");
}

#[test]
fn clear_empties_the_document_but_keeps_buffer_and_scripts() {
    let mut e = fresh_engine();
    e.set(
        "default".to_owned(),
        "x".to_owned(),
        AliasSetting::new("y".to_owned()),
    );
    e.commit().unwrap();
    let text = e.clear().unwrap();
    assert!(e.get(&"default".to_owned(), &"x".to_owned()).is_none());
    // the cleared document still parses and holds no groups
    let doc = alias_rs::codec::parse_setting(&text).unwrap();
    assert_eq!(doc.alias.len(), 0);
}

#[test]
fn end_to_end_fresh_environment_set_list_remove_list() {
    let mut e = fresh_engine();
    e.set(
        "default".to_owned(),
        "ll".to_owned(),
        AliasSetting::new("ls -la".to_owned()),
    );
    e.commit().unwrap();
    assert_eq!(e.list(), vec!["ll".to_owned()]);
    e.remove(&"default".to_owned(), &"ll".to_owned());
    e.commit().unwrap();
    assert_eq!(e.list(), Vec::<String>::new());
}

#[test]
fn set_into_two_groups_keeps_them_independent() {
    let mut e = fresh_engine();
    e.set(
        "g1".to_owned(),
        "a".to_owned(),
        AliasSetting::new("one".to_owned()),
    );
    e.commit().unwrap();
    e.set(
        "g2".to_owned(),
        "a".to_owned(),
        AliasSetting::new("two".to_owned()),
    );
    e.commit().unwrap();
    assert_eq!(e.get(&"g1".to_owned(), &"a".to_owned()).unwrap().cmd, "one");
    assert_eq!(e.get(&"g2".to_owned(), &"a".to_owned()).unwrap().cmd, "two");
}

#[test]
fn windows_commit_writes_batch_wrappers_in_console_encoding() {
    let mut e = AliasEngine::new(
        PlatformKind::Windows,
        "C:\\scripts".to_owned(),
        Some("ALIAS_SCRIPT_HOME".to_owned()),
        TomlSetting::default(),
    );
    e.set(
        "default".to_owned(),
        "ll".to_owned(),
        AliasSetting::new("dir | sort".to_owned()),
    );
    let plan = e.commit().unwrap();
    match &plan.actions[0] {
        ScriptAction::WriteScript { path, content } => {
            assert_eq!(path, "C:\\scripts\\ll.bat");
            let wrapper = "PowerShell -ExecutionPolicy Bypass -Command dir ^| sort ^$args";
            assert_eq!(content, &encoding_rs::GBK.encode(wrapper).0.into_owned());
        }
        _ => panic!("expected a write action"),
    }
}

#[test]
fn drain_hands_out_the_pending_mutations_and_empties_the_buffer() {
    let mut b = MutationBuffer::new();
    b.set(
        "g".to_owned(),
        "a".to_owned(),
        AliasSetting::new("one".to_owned()),
    );
    b.remove("g".to_owned(), "b".to_owned());
    let drained = b.drain();
    assert_eq!(drained.len(), 2);
    assert_eq!(drained[0].0, "a");
    assert!(matches!(drained[0].1.kind, MutationKind::SetAlias));
    assert_eq!(drained[1].0, "b");
    assert!(matches!(drained[1].1.kind, MutationKind::RemoveAlias));
    assert!(drained[1].1.setting.is_none());
    assert_eq!(b.len(), 0);
}

#[test]
fn list_names_every_group_occurrence_in_storage_order() {
    let mut e = fresh_engine();
    e.set(
        "g1".to_owned(),
        "a".to_owned(),
        AliasSetting::new("one".to_owned()),
    );
    e.commit().unwrap();
    e.set(
        "g2".to_owned(),
        "a".to_owned(),
        AliasSetting::new("two".to_owned()),
    );
    e.set(
        "g2".to_owned(),
        "b".to_owned(),
        AliasSetting::new("three".to_owned()),
    );
    e.commit().unwrap();
    // group by group, each group's aliases in stored order; a name held by
    // two groups appears once per group
    assert_eq!(
        e.list(),
        vec!["a".to_owned(), "a".to_owned(), "b".to_owned()]
    );
}
