use monirs::config::MoniDebugerConfigJson;
use monirs::debuger::{DefaultMoniDebugMessage, MoniDebuger, MoniDebugerConfig};

#[test]
fn test_line_len() {
    let default_debuger = DefaultMoniDebugMessage::default();
    assert_eq!(
        default_debuger.error_message().len(),
        default_debuger.line_message().len()
    );
    assert_eq!(
        default_debuger.success_message().len(),
        default_debuger.line_message().len()
    );
}

#[test]
fn default_lines_are_framed() {
    let message = DefaultMoniDebugMessage::default();
    assert_eq!(message.make_line_message(), "-".repeat(68));
    assert_eq!(
        message.make_ok_line_message(),
        format!("{} ok {}", "-".repeat(32), "-".repeat(32))
    );
    assert_eq!(
        message.make_error_line_message(),
        format!("{} error {}-", "-".repeat(30), "-".repeat(30))
    );
    assert_eq!(
        message.make_execute_line_message(),
        format!("\n{} execute {}-\n", "-".repeat(29), "-".repeat(29))
    );
    assert_eq!(message.make_execute_command_line_message(), "execute ");
}

#[test]
fn start_banner() {
    let message = DefaultMoniDebugMessage::default();
    let edge = "-".repeat(68);
    let middle = format!("{} start monitaring {}", "-".repeat(25), "-".repeat(25));
    assert_eq!(
        message.make_start_line_message(),
        format!("\n{}\n{}\n{}\n", edge, middle, edge)
    );
}

#[test]
fn json_lines_fall_back_to_defaults() {
    let config = MoniDebugerConfigJson {
        title: None,
        success: None,
        error: Some("E".to_string()),
        line: None,
        execute: None,
    };
    assert_eq!(config.start_message(), " start monitaring ");
    assert_eq!(config.success_message(), " success ");
    assert_eq!(config.error_message(), "E");
    assert_eq!(config.line_message(), " --- ");
    assert_eq!(config.execute_message("ls"), " *** \n execute ");
}

#[test]
fn json_execute_message_puts_command_in_place() {
    let config = MoniDebugerConfigJson {
        title: None,
        success: None,
        error: None,
        line: Some("-=-".to_string()),
        execute: Some("run MONI_EXE now".to_string()),
    };
    assert_eq!(config.execute_message("make"), "*=*\nrun make now");
}

#[test]
fn json_lines_from_default_message() {
    let message = DefaultMoniDebugMessage::default();
    let config = MoniDebugerConfigJson::from_message(&message);
    assert_eq!(config.line_message(), message.make_line_message());
    assert_eq!(config.error_message(), message.make_error_line_message());
    assert_eq!(config.execute, Some(" execute MONI_EXE".to_string()));
}

#[test]
fn debuger_lines() {
    let d = MoniDebuger::new("t", "s", "ok", "err", "exe");
    assert_eq!(d.start_line(), "t");
    assert_eq!(d.separator_line(), "s");
    assert_eq!(d.ok_line(), "ok");
    assert_eq!(d.error_line(), "err");
    assert_eq!(d.execute_command_line("ls -l"), "exe ls -l");
    let d = MoniDebuger::default();
    assert_eq!(d.start_line(), "start");
    assert_eq!(d.execute_command_line("x"), "execute x");
}

#[test]
fn debuger_from_config() {
    let message = DefaultMoniDebugMessage::default();
    let d = MoniDebuger::from_config(&message);
    assert_eq!(d.ok_line(), message.make_ok_line_message());
    assert_eq!(d.separator_line(), message.make_line_message());
    assert_eq!(d.execute_command_line("ls"), "execute  ls");
}
