use console_parser::{CommandResult, IntoCommandResult};

#[test]
fn command_results() {
    let r = ().into_command_result();
    assert!(r.success && r.message.is_none());
    let r = "done".to_string().into_command_result();
    assert!(r.success);
    assert_eq!(r.message, Some("done".to_string()));
    let r = None::<String>.into_command_result();
    assert!(r.success && r.message.is_none());
    let r = Err::<String, String>("bad".to_string()).into_command_result();
    assert!(!r.success);
    assert_eq!(r.message, Some("bad".to_string()));
    let r = Ok::<String, String>("fine".to_string()).into_command_result();
    assert!(r.success);
    assert_eq!(r.message, Some("fine".to_string()));
    let r = CommandResult { success: false, message: None }.into_command_result();
    assert!(!r.success);
}
