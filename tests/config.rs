use monirs::config::{
    moni_from_settings, opt_string_vec_to_str_vec, split_space_or_comma, string_vec_to_str_vec,
    MoniCli, MoniJson, MoniJsonConfig,
};
use monirs::debuger::DefaultMoniDebugMessage;
use monirs::pattern::ConfigError;
use monirs::watch::Dispatch;

fn cli(
    workspace: &str,
    ignore_extensions: &str,
    ignore_filenames: &str,
    ignore_path_words: &str,
    target_extensions: &str,
    execute_command: &str,
) -> MoniCli {
    MoniCli {
        workspace: Some(workspace.to_string()),
        target_extensions: Some(target_extensions.to_string()),
        ignore_filenames: Some(ignore_filenames.to_string()),
        ignore_extensions: Some(ignore_extensions.to_string()),
        ignore_path_words: Some(ignore_path_words.to_string()),
        execute_command: execute_command.to_string(),
    }
}

#[test]
fn test_ignore_extensions_case_split_space() {
    let moni_cli = cli("test", "py js", "", "", "", "");
    assert_eq!(moni_cli.ignore_extensions().unwrap(), vec!["py", "js"]);
    let moni_cli = cli("test", "py js rs", "", "", "", "");
    assert_eq!(
        moni_cli.ignore_extensions().unwrap(),
        vec!["py", "js", "rs"]
    );
    let moni_cli = cli("test", "py", "", "", "", "");
    assert_eq!(moni_cli.ignore_extensions().unwrap(), vec!["py"]);
}

#[test]
fn test_ignore_extensions_case_split_comma() {
    let moni_cli = cli("test", "py,js", "", "", "", "");
    assert_eq!(moni_cli.ignore_extensions().unwrap(), vec!["py", "js"]);
    let moni_cli = cli("test", "py,js,rs", "", "", "", "");
    assert_eq!(
        moni_cli.ignore_extensions().unwrap(),
        vec!["py", "js", "rs"]
    );
    let moni_cli = cli("test", "py", "", "", "", "");
    assert_eq!(moni_cli.ignore_extensions().unwrap(), vec!["py"]);
}

#[test]
fn comma_wins_over_space() {
    assert_eq!(split_space_or_comma("a b,c"), vec!["a b", "c"]);
    assert_eq!(split_space_or_comma("a\t b"), vec!["a", "b"]);
    assert_eq!(split_space_or_comma(""), vec![""]);
}

#[test]
fn absent_option_gives_none() {
    let c = MoniCli {
        workspace: None,
        target_extensions: None,
        ignore_filenames: None,
        ignore_extensions: None,
        ignore_path_words: None,
        execute_command: "echo".to_string(),
    };
    assert_eq!(c.ignore_filenames(), None);
    assert_eq!(c.target_extensions(), None);
    let m = c.to_moni().ok().unwrap();
    assert_eq!(m.searcher().root(), "./");
}

#[test]
fn cli_builds_watch() {
    let c = cli("src", "md", "skip.rs", "^gen", "rs py", "cargo test");
    assert_eq!(c.ignore_path_words().unwrap(), vec!["^gen"]);
    let m = c.to_moni().ok().unwrap();
    let f = m.searcher();
    assert_eq!(f.root(), "src");
    assert!(f.should_report("lib.rs"));
    assert!(f.should_report("a.py"));
    assert!(!f.should_report("skip.rs"));
    assert!(!f.should_report("gen.rs"));
    assert!(!f.should_report("doc.md"));
    assert_eq!(m.dispatch_for("x"), Dispatch::Command("cargo test".to_string()));
    assert_eq!(m.around(), (0, 100_000_000));
}

#[test]
fn bad_pattern_refuses_to_build() {
    let c = cli("src", "", "", "(", "", "true");
    assert!(matches!(c.to_moni(), Err(ConfigError::InvalidPattern(p)) if p == "("));
}

fn json() -> MoniJson {
    MoniJson {
        workspace: None,
        target_extensions: Some(vec!["rs".to_string()]),
        ignore_filenames: None,
        ignore_extensions: None,
        ignore_path_words: Some(vec!["target".to_string()]),
        debug_message: None,
        execute_command: "cargo run MONI_FILE_PATH".to_string(),
    }
}

#[test]
fn json_builds_watch() {
    let j = json();
    assert!(!j.is_set_debug_message());
    assert_eq!(j.workspace(), None);
    let m = j.to_moni().ok().unwrap();
    assert_eq!(m.searcher().root(), "./");
    assert!(!m.searcher().should_recurse("target"));
    assert_eq!(
        m.dispatch_for("a.rs"),
        Dispatch::Command("cargo run a.rs".to_string())
    );
    let wrapped = MoniJsonConfig { json_content: json() };
    assert!(wrapped.to_moni().is_ok());
    let d = j.debug_message();
    assert_eq!(d.separator_line(), "-".repeat(68));
    let message = DefaultMoniDebugMessage::default();
    assert_eq!(d.start_line(), message.make_start_line_message());
    assert_eq!(d.ok_line(), message.make_ok_line_message());
    assert_eq!(d.error_line(), message.make_error_line_message());
    assert_eq!(
        d.execute_command_line("ls"),
        format!("{}\n execute  ls", "*".repeat(68))
    );
}

#[test]
fn settings_with_defaults() {
    let m = moni_from_settings(Some("w"), None, None, None, None, "ls").ok().unwrap();
    assert_eq!(m.searcher().root(), "w");
    assert!(m.searcher().should_report("anything.bin"));
    let bad = moni_from_settings(None, None, None, None, Some(vec!["a{".to_string()]), "ls");
    assert!(bad.is_err());
}

#[test]
fn string_lists_are_borrowed() {
    let v = vec!["a".to_string(), "b".to_string()];
    assert_eq!(string_vec_to_str_vec(&v), vec!["a", "b"]);
    assert_eq!(opt_string_vec_to_str_vec(Some(&v)), Some(vec!["a", "b"]));
    assert_eq!(opt_string_vec_to_str_vec(None), None);
}
