use monirs::command::MoniExecuteCommand;
use monirs::searcher::FileSearcherBuilder;
use monirs::watch::{
    callback_reports, command_reports, observations, CommandRun, Dispatch, Moni, Report,
};

fn obs(items: &[(&str, u128)]) -> Vec<(String, u128)> {
    items.iter().map(|(p, s)| (p.to_string(), *s)).collect()
}

fn watch(command: Option<&str>, use_callback: bool) -> Moni {
    let searcher = FileSearcherBuilder::new().build();
    Moni::new(searcher, command.map(MoniExecuteCommand::new), use_callback)
}

#[test]
fn first_cycle_after_seed_is_quiet() {
    let mut m = watch(Some("echo MONI_FILE_PATH"), false);
    let seen = obs(&[("./a.rs", 10), ("./b/c.txt", 0), ("./d.md", 7)]);
    m.seed(&seen);
    assert_eq!(m.poll_cycle(&seen), Vec::<String>::new());
}

#[test]
fn changed_files_dispatch_in_scan_order() {
    let mut m = watch(Some("echo MONI_FILE_PATH"), false);
    m.seed(&obs(&[("x", 1), ("y", 2), ("z", 3)]));
    let due = m.poll_cycle(&obs(&[("x", 1), ("y", 5), ("new", 0), ("z", 4)]));
    assert_eq!(due, vec!["y", "new", "z"]);
    assert_eq!(m.poll_cycle(&obs(&[("x", 1), ("y", 5), ("new", 0), ("z", 4)])).len(), 0);
}

#[test]
fn size_change_fires_once() {
    let mut m = watch(None, true);
    m.seed(&obs(&[("f", 1)]));
    assert!(m.observe("f".to_string(), 2));
    assert!(!m.observe("f".to_string(), 2));
    assert!(m.observe("g".to_string(), 0));
    assert!(!m.observe("g".to_string(), 0));
}

#[test]
fn vanished_file_keeps_its_size() {
    let mut m = watch(None, true);
    m.seed(&obs(&[("f", 1), ("g", 2)]));
    assert_eq!(m.poll_cycle(&obs(&[("g", 2)])), Vec::<String>::new());
    assert_eq!(m.poll_cycle(&obs(&[("f", 1), ("g", 2)])), Vec::<String>::new());
}

#[test]
fn seed_keeps_first_size() {
    let mut m = watch(None, false);
    m.seed(&obs(&[("f", 1), ("f", 9)]));
    assert_eq!(m.poll_cycle(&obs(&[("f", 1)])), Vec::<String>::new());
}

#[test]
fn callback_takes_precedence() {
    let m = watch(Some("python MONI_FILE_PATH"), true);
    assert_eq!(m.dispatch_for("foo.py"), Dispatch::Callback("foo.py".to_string()));
    let m = watch(Some("python MONI_FILE_PATH"), false);
    assert_eq!(
        m.dispatch_for("foo.py"),
        Dispatch::Command("python foo.py".to_string())
    );
    let m = watch(None, false);
    assert_eq!(m.dispatch_for("foo.py"), Dispatch::Nothing);
}

#[test]
fn reports_for_callbacks() {
    assert_eq!(
        callback_reports(Ok("done".to_string())),
        vec![Report::Success("done".to_string()), Report::Separator]
    );
    assert_eq!(
        callback_reports(Err("bad".to_string())),
        vec![Report::Error("bad".to_string()), Report::Separator]
    );
}

#[test]
fn reports_for_commands() {
    let ok = CommandRun::Exited {
        success: true,
        stdout: "out".to_string(),
        stderr: "err".to_string(),
    };
    assert_eq!(
        command_reports(ok),
        vec![Report::Success("out".to_string()), Report::Separator]
    );
    let failed = CommandRun::Exited {
        success: false,
        stdout: "out".to_string(),
        stderr: "err".to_string(),
    };
    assert_eq!(
        command_reports(failed),
        vec![Report::Error("err".to_string()), Report::Separator]
    );
    assert_eq!(
        command_reports(CommandRun::SpawnFailed("no shell".to_string())),
        vec![Report::Error("no shell".to_string())]
    );
}

#[test]
fn unread_files_are_dropped_in_order() {
    let read = vec![
        ("a".to_string(), Some(1)),
        ("gone".to_string(), None),
        ("b".to_string(), Some(0)),
    ];
    assert_eq!(observations(&read), obs(&[("a", 1), ("b", 0)]));
    assert_eq!(observations(&Vec::new()), Vec::<(String, u128)>::new());
}
