use dhara_storage::shell::{
    determine_launch_mode, BuilderPaths, Command, FormState, LaunchMode, MenuAction, MENU_ITEMS,
};

fn sample_paths() -> BuilderPaths {
    BuilderPaths {
        package_dir: "package".to_string(),
        output_dir: "output".to_string(),
        logs_dir: "logs".to_string(),
    }
}

#[test]
fn ui_menu_contains_all_primary_actions() {
    assert_eq!(MENU_ITEMS.len(), 8);
    assert_eq!(MENU_ITEMS[0], MenuAction::Pack);
    assert_eq!(MENU_ITEMS[1], MenuAction::BuildTridXml);
    assert_eq!(MENU_ITEMS[7], MenuAction::Exit);
}

#[test]
fn tests_menu_contains_all_primary_actions() {
    assert_eq!(MENU_ITEMS.len(), 8);
    assert_eq!(MENU_ITEMS[0], MenuAction::Pack);
    assert_eq!(MENU_ITEMS[1], MenuAction::BuildTridXml);
    assert_eq!(MENU_ITEMS[7], MenuAction::Exit);
}

#[test]
fn ui_build_form_uses_default_paths() {
    let form = FormState::new(MenuAction::BuildTridXml, &sample_paths());
    assert_eq!(form.fields[0].value, "package\\triddefs_xml.7z");
    assert_eq!(form.fields[1].value, "output\\filedefs.rpkg");
}

#[test]
fn tests_build_form_uses_default_paths() {
    let form = FormState::new(MenuAction::BuildTridXml, &sample_paths());
    assert_eq!(form.fields[0].value, "package\\triddefs_xml.7z");
    assert_eq!(form.fields[1].value, "output\\filedefs.rpkg");
}

#[test]
fn no_subcommand_with_tty_launches_shell() {
    let mode = determine_launch_mode(None, false, true, true);
    assert_eq!(mode, LaunchMode::InteractiveShell);
}

#[test]
fn silent_without_subcommand_falls_back_to_help() {
    let mode = determine_launch_mode(None, true, true, true);
    assert_eq!(mode, LaunchMode::Help);
}

#[test]
fn explicit_command_stays_direct() {
    let command = Command::Inspect { input: None };
    let mode = determine_launch_mode(Some(&command), false, true, true);
    assert_eq!(mode, LaunchMode::Direct);
}
