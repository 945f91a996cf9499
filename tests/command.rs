use monirs::command::MoniExecuteCommand;

#[test]
fn test_execute_command_case_replace() {
    let moni_exe = MoniExecuteCommand::new("python MONI_FILE_PATH");
    let filepath = "test.py";
    assert_eq!(
        moni_exe.to_execute_command(filepath),
        format!("python {}", filepath)
    )
}

#[test]
fn test_execute_command_case_not_replace() {
    let moni_exe = MoniExecuteCommand::new("python test.py");
    let filepath = "test.py";
    assert_eq!(
        moni_exe.to_execute_command(filepath),
        format!("python test.py")
    )
}

#[test]
fn command_for_foo_py() {
    let moni_exe = MoniExecuteCommand::new("python MONI_FILE_PATH");
    assert_eq!(moni_exe.to_execute_command("foo.py"), "python foo.py");
}

#[test]
fn every_placeholder_is_replaced() {
    let moni_exe = MoniExecuteCommand::new("cp MONI_FILE_PATH MONI_FILE_PATH.bak");
    assert_eq!(moni_exe.to_execute_command("a.txt"), "cp a.txt a.txt.bak");
}
