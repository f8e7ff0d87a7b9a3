use dhara_storage::report::{CommandReport, ReportField, ReportStatus};
use dhara_storage::shell::{BuilderAction, BuilderPaths};
use dhara_storage::shell_app::{
    is_actionable_key, is_exit_key, KeyCode, KeyEvent, KeyEventKind, KeyModifiers, Screen,
    ShellApp,
};

fn sample_paths() -> BuilderPaths {
    BuilderPaths {
        package_dir: "package".to_string(),
        output_dir: "output".to_string(),
        logs_dir: "logs".to_string(),
    }
}

fn press(code: KeyCode) -> KeyEvent {
    KeyEvent::new(code, KeyModifiers::none())
}

#[test]
fn ui_ctrl_c_is_always_an_exit_key() {
    let key = KeyEvent::new(KeyCode::Char('c'), KeyModifiers::control());
    assert!(is_exit_key(key));
}

#[test]
fn tests_ctrl_c_is_always_an_exit_key() {
    let key = KeyEvent::new(KeyCode::Char('c'), KeyModifiers::control());
    assert!(is_exit_key(key));
}

#[test]
fn key_release_events_are_ignored() {
    let key = KeyEvent {
        code: KeyCode::Down,
        modifiers: KeyModifiers::none(),
        kind: KeyEventKind::Release,
    };
    assert!(!is_actionable_key(key));
}

#[test]
fn ui_log_toggle_keeps_shell_on_menu() {
    let mut app = ShellApp::new(sample_paths(), "logs\\2026-04-10_def_builder.log".to_string());
    app.handle_key(KeyEvent::new(KeyCode::Char('l'), KeyModifiers::none()));
    assert!(app.show_logs);
    assert!(matches!(app.screen, Screen::Menu));
}

#[test]
fn tests_log_toggle_keeps_shell_on_menu() {
    let mut app = ShellApp::new(sample_paths(), "logs\\2026-04-10_def_builder.log".to_string());
    app.handle_key(KeyEvent::new(KeyCode::Char('l'), KeyModifiers::none()));
    assert!(app.show_logs);
    assert!(matches!(app.screen, Screen::Menu));
}

#[test]
fn verify_form_edits_runs_and_reports() {
    let mut app = ShellApp::new(sample_paths(), "logs/builder.log".to_string());
    for _ in 0..5 {
        app.handle_key(press(KeyCode::Down));
    }
    assert_eq!(app.menu_index, 5);
    assert!(app.handle_key(press(KeyCode::Enter)).is_none());
    assert!(matches!(app.screen, Screen::Form(_)));

    // The right-hand package is blank: running reports the missing field.
    assert!(app.handle_key(press(KeyCode::Char('r'))).is_none());
    match &app.screen {
        Screen::Result(result) => {
            assert_eq!(result.title, "Command Failed");
            assert_eq!(result.lines[1], "Right is required.");
        }
        other => panic!("unexpected screen {:?}", other),
    }
    app.handle_key(press(KeyCode::Enter));
    assert!(matches!(app.screen, Screen::Menu));

    app.handle_key(press(KeyCode::Enter));
    app.handle_key(press(KeyCode::Down));
    app.handle_key(press(KeyCode::Enter));
    for c in "b.rpkx".chars() {
        app.handle_key(press(KeyCode::Char(c)));
    }
    app.handle_key(press(KeyCode::Backspace));
    app.handle_key(press(KeyCode::Char('g')));
    app.handle_key(press(KeyCode::Esc));
    let action = app.handle_key(press(KeyCode::F(5))).expect("the command should start");
    assert_eq!(
        action,
        BuilderAction::Verify {
            left: "output\\filedefs.rpkg".to_string(),
            right: "b.rpkg".to_string(),
        }
    );
    match &app.screen {
        Screen::Running(running) => assert_eq!(running.title, "Verification"),
        other => panic!("unexpected screen {:?}", other),
    }

    app.finish(Ok(CommandReport {
        title: "Verification".to_string(),
        status: ReportStatus::Success,
        fields: vec![ReportField {
            label: "Result".to_string(),
            value: "match".to_string(),
        }],
        exit_code: 0,
    }));
    match &app.screen {
        Screen::Result(result) => {
            assert_eq!(result.lines.len(), 4);
            assert_eq!(result.lines[1], format!("{:<20} {}", "Result", "match"));
            assert_eq!(result.lines[3], "Press Enter to return to the main menu.");
        }
        other => panic!("unexpected screen {:?}", other),
    }

    app.handle_key(KeyEvent::new(KeyCode::Char('c'), KeyModifiers::control()));
    assert!(app.should_exit);
}

#[test]
fn menu_cursor_stays_on_the_menu() {
    let mut app = ShellApp::new(sample_paths(), "log".to_string());
    app.handle_key(press(KeyCode::Up));
    assert_eq!(app.menu_index, 0);
    for _ in 0..20 {
        app.handle_key(press(KeyCode::Down));
    }
    assert_eq!(app.menu_index, 7);
    app.handle_key(press(KeyCode::Enter));
    assert!(app.should_exit);
}
