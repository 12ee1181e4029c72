use alias_rs::activate::{
    get_shell_profile, get_shell_type, parse_reg_query_value, split_stdout_lines,
    updated_profile_content, user_env_var_exist_cmd, user_env_var_query_cmd, user_env_var_set_cmd,
    windows_env_updates, Shell,
};
use alias_rs::alias::Alias;
use alias_rs::alias_import::AliasImport;
use alias_rs::alias_manage::AliasManage;
use alias_rs::error::AliasErrorCode;
use alias_rs::factory::{get_alias, get_alias_importer, PlatformAlias};
use alias_rs::script::{build_bat_script, build_script_content, build_script_path, convert_to_bat_str_arg, PlatformKind};
use alias_rs::setting::{AliasSetting, TomlSetting};
use alias_rs::unix_like_base::{
    get_default_home, get_default_script_home, get_default_setting_path, UnixLikeAlias,
};
use alias_rs::windows::WindowsAlias;

#[test]
fn bat_argument_escaping_carets_pipes_and_dollars() {
    assert_eq!(
        convert_to_bat_str_arg("echo $PATH | grep x".to_owned()),
        "echo ^$PATH ^| grep x"
    );
    assert_eq!(convert_to_bat_str_arg("plain".to_owned()), "plain");
}

#[test]
fn bat_script_wraps_the_escaped_command() {
    assert_eq!(
        build_bat_script("dir | find \"x\"".to_owned()),
        "PowerShell -ExecutionPolicy Bypass -Command dir ^| find \"x\" ^$args"
    );
}

#[test]
fn script_paths_follow_the_platform() {
    assert_eq!(
        build_script_path(PlatformKind::Posix, &"/root/s".to_owned(), &"ll".to_owned()),
        "/root/s/ll.sh"
    );
    assert_eq!(
        build_script_path(
            PlatformKind::Windows,
            &"C:\\s".to_owned(),
            &"ll".to_owned()
        ),
        "C:\\s\\ll.bat"
    );
}

#[test]
fn posix_script_content_is_the_command_bytes() {
    assert_eq!(
        build_script_content(PlatformKind::Posix, &"ls -la".to_owned()),
        b"ls -la".to_vec()
    );
}

#[test]
fn windows_script_content_is_the_console_encoding_of_the_wrapper() {
    let content = build_script_content(PlatformKind::Windows, &"echo 中文".to_owned());
    let wrapper = "PowerShell -ExecutionPolicy Bypass -Command echo 中文 ^$args";
    let expected = encoding_rs::GBK.encode(wrapper).0.into_owned();
    assert_eq!(content, expected);
    // the legacy encoding really re-encodes: the bytes differ from UTF-8
    assert_ne!(content, wrapper.as_bytes().to_vec());
}

#[test]
fn shell_profile_table() {
    let home = "/home/u".to_owned();
    for (shell, profile) in [
        ("/bin/zsh", "/home/u/.zshrc"),
        ("/bin/bash", "/home/u/.bashrc"),
        ("/bin/ksh", "/home/u/.kshrc"),
        ("/bin/csh", "/home/u/.cshrc"),
        ("/bin/dash", "/home/u/.bashrc"),
        ("/bin/tcsh", "/home/u/.tcshrc"),
    ] {
        assert_eq!(get_shell_profile(&shell.to_owned(), &home).unwrap(), profile);
        match get_shell_type(&shell.to_owned(), &home) {
            Shell::Supported(s, p) => {
                assert_eq!(s, shell);
                assert_eq!(p, profile);
            }
            Shell::Unsupported(_) => panic!("{} should be supported", shell),
        }
    }
    let err = get_shell_profile(&"/bin/fish".to_owned(), &home).unwrap_err();
    assert_eq!(err.err, AliasErrorCode::UnsupportedShellError);
    let err = get_shell_profile(&"/bin/sh".to_owned(), &home).unwrap_err();
    assert_eq!(err.err, AliasErrorCode::UnsupportedShellError);
}

#[test]
fn profile_edit_is_idempotent() {
    let root = "/home/u/.alias-rs/script".to_owned();
    let original = "# my profile\n".to_owned();
    let edited = updated_profile_content(&original, &root).unwrap();
    assert_eq!(
        edited,
        "# my profile\n\n\n# alias-rs :: start\nexport PATH=$PATH:/home/u/.alias-rs/script\n# alias-rs :: end"
    );
    assert!(updated_profile_content(&edited, &root).is_none());
}

#[test]
fn windows_env_updates_follow_the_current_state() {
    let name = "ALIAS_SCRIPT_HOME".to_owned();
    let root = "C:\\s".to_owned();
    // nothing set yet: both assignments
    let ups = windows_env_updates(&name, &root, None, None);
    assert_eq!(
        ups,
        vec![
            ("ALIAS_SCRIPT_HOME".to_owned(), "C:\\s".to_owned()),
            ("Path".to_owned(), "%ALIAS_SCRIPT_HOME%".to_owned()),
        ]
    );
    // both already right: nothing to do
    let ups = windows_env_updates(
        &name,
        &root,
        Some("C:\\s".to_owned()),
        Some("C:\\bin;%ALIAS_SCRIPT_HOME%".to_owned()),
    );
    assert_eq!(ups, Vec::<(String, String)>::new());
    // home differs, path lacks the placeholder: appended after a semicolon
    let ups = windows_env_updates(
        &name,
        &root,
        Some("D:\\other".to_owned()),
        Some("C:\\bin".to_owned()),
    );
    assert_eq!(
        ups,
        vec![
            ("ALIAS_SCRIPT_HOME".to_owned(), "C:\\s".to_owned()),
            ("Path".to_owned(), "C:\\bin;%ALIAS_SCRIPT_HOME%".to_owned()),
        ]
    );
}

#[test]
fn powershell_command_builders() {
    assert_eq!(
        user_env_var_exist_cmd(&"Path".to_owned()),
        "(Get-ItemProperty -Path 'HKCU:\\Environment').Path"
    );
    assert_eq!(
        user_env_var_query_cmd(&"Path".to_owned()),
        "(reg query 'HKEY_CURRENT_USER\\Environment' /v 'Path')[2].ToString()"
    );
    assert_eq!(
        user_env_var_set_cmd(&"A".to_owned(), &"B".to_owned()),
        "[System.Environment]::SetEnvironmentVariable('A', 'B', 'USER')"
    );
}

#[test]
fn stdout_lines_split_and_drop_empties() {
    let lines = split_stdout_lines(&"a\r\n\r\nb\r\n".to_owned()).unwrap();
    assert_eq!(lines, vec!["a".to_owned(), "b".to_owned()]);
    assert!(split_stdout_lines(&"\r\n\r\n".to_owned()).is_none());
    assert!(split_stdout_lines(&"".to_owned()).is_none());
}

#[test]
fn reg_query_value_is_after_the_third_separator() {
    let out = "    Path    REG_EXPAND_SZ    C:\\bin;%X%\r\n".to_owned();
    assert_eq!(parse_reg_query_value(&out).unwrap(), "C:\\bin;%X%");
    assert!(parse_reg_query_value(&"\r\n".to_owned()).is_none());
}

#[test]
fn default_locations_posix() {
    let home = "/home/u".to_owned();
    assert_eq!(get_default_home(&home), "/home/u/.alias-rs");
    assert_eq!(get_default_script_home(&home), "/home/u/.alias-rs/script");
    assert_eq!(
        get_default_setting_path(&home),
        "/home/u/.alias-rs/alias-setting.toml"
    );
}

#[test]
fn default_locations_windows() {
    let lad = "C:\\Users\\u\\AppData\\Local".to_owned();
    assert_eq!(
        alias_rs::windows::get_default_home(&lad),
        "C:\\Users\\u\\AppData\\Local\\alias-rs"
    );
    assert_eq!(
        alias_rs::windows::get_default_script_home(&lad),
        "C:\\Users\\u\\AppData\\Local\\alias-rs\\script"
    );
    assert_eq!(
        alias_rs::windows::get_default_setting_path(&lad),
        "C:\\Users\\u\\AppData\\Local\\alias-rs\\alias-setting.toml"
    );
}

#[test]
fn unix_engine_resolves_the_default_script_root() {
    let e = UnixLikeAlias::new(&"/home/u".to_owned(), TomlSetting::default());
    assert_eq!(
        e.build_alias_script_path(&"ll".to_owned()),
        "/home/u/.alias-rs/script/ll.sh"
    );
    let edit = e
        .init(
            &"/bin/bash".to_owned(),
            &"/home/u".to_owned(),
            &"# profile\n".to_owned(),
        )
        .unwrap();
    let (path, content) = edit.unwrap();
    assert_eq!(path, "/home/u/.bashrc");
    assert!(content.contains("export PATH=$PATH:/home/u/.alias-rs/script"));
}

#[test]
fn windows_engine_resolves_defaults_and_env_updates() {
    let e = WindowsAlias::new(&"C:\\lad".to_owned(), TomlSetting::default());
    assert_eq!(
        e.build_alias_script_path(&"ll".to_owned()),
        "C:\\lad\\alias-rs\\script\\ll.bat"
    );
    let ups = e.init(None, None);
    assert_eq!(
        ups,
        vec![
            (
                "ALIAS_SCRIPT_HOME".to_owned(),
                "C:\\lad\\alias-rs\\script".to_owned()
            ),
            ("Path".to_owned(), "%ALIAS_SCRIPT_HOME%".to_owned()),
        ]
    );
}

#[test]
fn factory_picks_by_operating_system() {
    for os in ["macos", "linux", "windows"] {
        assert!(get_alias(&os.to_owned(), &"/base".to_owned(), TomlSetting::default()).is_some());
    }
    assert!(get_alias(&"plan9".to_owned(), &"/base".to_owned(), TomlSetting::default()).is_none());
    assert!(alias_rs::support_target_os(&"linux".to_owned()));
    assert!(!alias_rs::support_target_os(&"plan9".to_owned()));
}

#[test]
fn importer_rewrites_every_script_and_keeps_the_document() {
    let mut e = match get_alias(&"linux".to_owned(), &"/home/u".to_owned(), TomlSetting::default())
    {
        Some(a) => a,
        None => unreachable!(),
    };
    e.set(
        "default".to_owned(),
        "ll".to_owned(),
        AliasSetting::new("ls -la".to_owned()),
    );
    e.commit().unwrap();
    let doc_text_before = {
        let mgr = alias_rs::alias_manage::AliasManager::new(e);
        let t = mgr.export().unwrap();
        e = mgr.alias_base;
        t
    };
    let mut imp = match e {
        PlatformAlias::Linux(l) => alias_rs::alias_import::AliasImporter::new(l).unwrap(),
        _ => unreachable!(),
    };
    let plan = imp.import().unwrap();
    assert_eq!(plan.actions.len(), 1);
    assert_eq!(
        imp.alias
            .get(&"default".to_owned(), &"ll".to_owned())
            .unwrap()
            .cmd,
        "ls -la"
    );
    let mgr = alias_rs::alias_manage::AliasManager::new(imp.alias);
    assert_eq!(mgr.export().unwrap(), doc_text_before);
}

#[test]
fn importer_factory_only_for_supported_systems() {
    assert!(get_alias_importer(&"linux".to_owned(), &"/h".to_owned(), TomlSetting::default())
        .is_some());
    assert!(get_alias_importer(&"plan9".to_owned(), &"/h".to_owned(), TomlSetting::default())
        .is_none());
}
