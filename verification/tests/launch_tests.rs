use okey::launch::{daemon_arguments, user_session_command_line};

#[test]
fn daemon_arguments_with_and_without_config() {
    assert_eq!(daemon_arguments(None), vec!["start"]);
    assert_eq!(
        daemon_arguments(Some("C:\\okey.yaml".to_string())),
        vec!["start", "--config", "C:\\okey.yaml"]
    );
}

#[test]
fn user_session_command() {
    let exe = "C:\\Program Files\\okey\\okey.exe";
    let mut want: Vec<u16> = format!("{} start", exe).encode_utf16().collect();
    want.push(0);
    assert_eq!(user_session_command_line(exe), want);
    let mut want: Vec<u16> = "\u{1F600} start".encode_utf16().collect();
    want.push(0);
    assert_eq!(user_session_command_line("\u{1F600}"), want);
}
