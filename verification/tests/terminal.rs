use admin_backend::status::Status;
use admin_backend::terminal::{exec_command, get_history, respond, ExecRequest, TerminalStore};

fn req(command: &str) -> ExecRequest {
    ExecRequest { command: command.to_string() }
}

#[test]
fn welcome_session_has_two_lines() {
    let before = chrono::Utc::now().timestamp_millis();
    let store = TerminalStore::new_welcome();
    let after = chrono::Utc::now().timestamp_millis();
    let lines = get_history(&store);
    assert_eq!(lines.len(), 2);
    assert_eq!(lines[0].id, "1");
    assert_eq!(lines[0].kind, "output");
    assert_eq!(lines[0].content, "Добро пожаловать в терминал панели управления v2.1.0");
    assert_eq!(lines[1].id, "2");
    assert_eq!(lines[1].kind, "output");
    assert_eq!(lines[1].content, "Введите \"help\" для получения списка доступных команд.");
    assert!(before <= lines[0].timestamp && lines[0].timestamp <= lines[1].timestamp);
    assert!(lines[1].timestamp <= after);
}

#[test]
fn welcome_with_given_stamps() {
    let store = TerminalStore::welcome(10, 20);
    let lines = get_history(&store);
    assert_eq!((lines[0].timestamp, lines[1].timestamp), (10, 20));
    assert_eq!(store.len(), 2);
}

#[test]
fn exec_pwd_appends_echo_and_output() {
    let mut store = TerminalStore::new_welcome();
    let status = exec_command(&mut store, &req("pwd"));
    assert_eq!(status, Status::Success);
    let lines = get_history(&store);
    assert_eq!(lines.len(), 4);
    assert_eq!(lines[0].id, "1");
    assert_eq!(lines[1].id, "2");
    assert_eq!(lines[2].kind, "command");
    assert_eq!(lines[2].content, "$ pwd");
    assert_eq!(lines[3].kind, "output");
    assert_eq!(lines[3].content, "/home/user/project");
    assert_ne!(lines[2].id, lines[3].id);
    let echo: i64 = lines[2].id.parse().unwrap();
    assert_eq!(lines[2].timestamp, echo);
}

#[test]
fn exec_clear_empties_the_history() {
    let mut store = TerminalStore::new_welcome();
    exec_command(&mut store, &req("pwd"));
    let status = exec_command(&mut store, &req("clear"));
    assert_eq!(status, Status::NoContent);
    assert!(get_history(&store).is_empty());
    assert_eq!(store.len(), 0);
    assert_eq!(exec_command(&mut store, &req("  clear \n")), Status::NoContent);
    assert!(get_history(&store).is_empty());
}

#[test]
fn exec_after_clear_starts_again() {
    let mut store = TerminalStore::welcome(1, 2);
    store.run("clear", "clear", 5, 6, 7);
    assert_eq!(store.run("whoami", "whoami", 5, 6, 7), Status::Success);
    let lines = get_history(&store);
    assert_eq!(lines.len(), 2);
    assert_eq!(lines[0].content, "$ whoami");
    assert_eq!(lines[1].content, "admin");
}

#[test]
fn run_stamps_and_labels_lines_by_the_given_counts() {
    let mut store = TerminalStore::welcome(1, 2);
    assert_eq!(store.run("whoami", "whoami", 100, 200, 300), Status::Success);
    let lines = get_history(&store);
    assert_eq!(lines[2].id, "100");
    assert_eq!(lines[2].timestamp, 100);
    assert_eq!(lines[2].content, "$ whoami");
    assert_eq!(lines[3].id, "200");
    assert_eq!(lines[3].timestamp, 300);
    assert_eq!(lines[3].content, "admin");
    assert_eq!(lines[3].kind, "output");
}

#[test]
fn run_within_one_millisecond_keeps_labels_distinct() {
    let mut store = TerminalStore::welcome(1, 2);
    store.run("pwd", "pwd", 100, 100, 100);
    store.run("pwd", "pwd", 100, 100, 100);
    store.run("help", "help", 1, 1, 1);
    let lines = get_history(&store);
    let ids: Vec<&str> = lines.iter().map(|l| l.id.as_str()).collect();
    assert_eq!(ids, vec!["1", "2", "100", "101", "102", "103", "3", "4"]);
    assert_eq!(lines[3].timestamp, 100);
    assert_eq!(lines[7].content, "Доступные команды: ls, pwd, whoami, date, clear, help");
}

#[test]
fn exec_echoes_the_command_untrimmed_and_answers_trimmed() {
    let mut store = TerminalStore::new();
    assert_eq!(exec_command(&mut store, &req("  whoami\t")), Status::Success);
    let lines = get_history(&store);
    assert_eq!(lines.len(), 2);
    assert_eq!(lines[0].content, "$   whoami\t");
    assert_eq!(lines[0].kind, "command");
    assert_eq!(lines[1].content, "admin");
    assert_eq!(lines[1].kind, "output");
}

#[test]
fn exec_unknown_command_is_an_error_line() {
    let mut store = TerminalStore::new();
    assert_eq!(exec_command(&mut store, &req(" ls -la ")), Status::Success);
    let lines = get_history(&store);
    assert_eq!(lines[0].content, "$  ls -la ");
    assert_eq!(lines[1].kind, "error");
    assert_eq!(lines[1].content, "Команда не найдена: ls -la");
    assert_eq!(exec_command(&mut store, &req("")), Status::Success);
    let lines = get_history(&store);
    assert_eq!(lines.len(), 4);
    assert_eq!(lines[2].content, "$ ");
    assert_eq!(lines[3].content, "Команда не найдена: ");
    assert_eq!(lines[3].kind, "error");
}

#[test]
fn exec_commands_are_case_sensitive() {
    let mut store = TerminalStore::new();
    exec_command(&mut store, &req("PWD"));
    let lines = get_history(&store);
    assert_eq!(lines[1].kind, "error");
    assert_eq!(lines[1].content, "Команда не найдена: PWD");
}

#[test]
fn respond_knows_its_commands() {
    assert_eq!(respond("pwd"), Some(("/home/user/project".to_string(), "output".to_string())));
    assert_eq!(respond("whoami"), Some(("admin".to_string(), "output".to_string())));
    assert_eq!(
        respond("help"),
        Some((
            "Доступные команды: ls, pwd, whoami, date, clear, help".to_string(),
            "output".to_string()
        ))
    );
    assert_eq!(respond("clear"), None);
    assert_eq!(respond("date"), Some(("Команда не найдена: date".to_string(), "error".to_string())));
    assert_eq!(respond(" pwd"), Some(("Команда не найдена:  pwd".to_string(), "error".to_string())));
    assert_eq!(respond("pw"), Some(("Команда не найдена: pw".to_string(), "error".to_string())));
}

#[test]
fn history_is_a_copy() {
    let mut store = TerminalStore::welcome(1, 2);
    let mut copy = get_history(&store);
    copy.clear();
    assert_eq!(get_history(&store).len(), 2);
    exec_command(&mut store, &req("help"));
    assert_eq!(get_history(&store).len(), 4);
}
