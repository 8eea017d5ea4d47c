use podman_tui::app::{App, AppMode, ContainerOp, Effect, EditingTarget, Key, PendingAction, ShellManagerTab};
use podman_tui::order::SortBy;
use podman_tui::podman::{ContainerInfo, ContainerStats, SystemInfo};
use podman_tui::shell::{load_shell_config, EnvVar, ShellKind};

fn container(name: &str, state: &str) -> ContainerInfo {
    ContainerInfo {
        id: format!("id-{}", name),
        name: name.to_string(),
        image: "img".to_string(),
        status: "Up".to_string(),
        state: state.to_string(),
    }
}

fn stats(name: &str, cpu: f64, mem: f64) -> ContainerStats {
    ContainerStats {
        name: name.to_string(),
        cpu_percent_bits: cpu.to_bits(),
        mem_usage: "1MiB / 2GiB".to_string(),
        mem_percent_bits: mem.to_bits(),
        net_io: "1kB / 2kB".to_string(),
        block_io: "0B / 0B".to_string(),
    }
}

fn names(app: &App) -> Vec<&str> {
    app.containers.iter().map(|c| c.name.as_str()).collect()
}

fn sample() -> App {
    App::new(
        Ok(vec![container("web", "running"), container("db", "exited"), container("cache", "running")]),
        Ok(vec![stats("web", 12.5, 1.0), stats("db", 0.5, 30.0), stats("cache", 50.0, 5.0)]),
        SystemInfo::default(),
    )
}

fn shell_app() -> App {
    let mut app = sample();
    assert_eq!(app.handle_key(Key::Char('v')), Effect::LoadShellConfig);
    let cfg = load_shell_config(ShellKind::Bash, Some("export A=1\nexport B=2\nexport PATH=/usr/bin:/opt/go/bin\n"), "");
    app.load_shell_config(vec![ShellKind::Fish, ShellKind::Zsh, ShellKind::Bash], cfg);
    app
}

#[test]
fn new_sorts_by_name() {
    let app = sample();
    assert_eq!(names(&app), vec!["cache", "db", "web"]);
    assert_eq!(app.mode, AppMode::Dashboard);
    assert_eq!(app.selected, 0);
    assert!(app.error_message.is_none());
}

#[test]
fn new_with_error() {
    let app = App::new(Ok(vec![container("a", "running")]), Err("no podman".to_string()), SystemInfo::default());
    assert!(app.containers.is_empty());
    assert_eq!(app.error_message, Some("no podman".to_string()));
    let app = App::new(Err("first".to_string()), Err("second".to_string()), SystemInfo::default());
    assert_eq!(app.error_message, Some("first".to_string()));
}

#[test]
fn sort_cycle() {
    let mut app = sample();
    app.handle_key(Key::Char('t'));
    assert_eq!(app.sort_by, SortBy::Status);
    assert_eq!(names(&app), vec!["db", "cache", "web"]);
    app.handle_key(Key::Char('t'));
    assert_eq!(app.sort_by, SortBy::Cpu);
    assert_eq!(names(&app), vec!["cache", "web", "db"]);
    app.handle_key(Key::Char('t'));
    assert_eq!(app.sort_by, SortBy::Memory);
    assert_eq!(names(&app), vec!["db", "cache", "web"]);
    app.handle_key(Key::Char('t'));
    assert_eq!(app.sort_by, SortBy::Name);
    assert_eq!(names(&app), vec!["cache", "db", "web"]);
}

#[test]
fn sort_is_stable_and_handles_missing_stats() {
    let mut app = App::new(
        Ok(vec![container("b", "x"), container("a", "x"), container("c", "x")]),
        Ok(vec![stats("c", 1.0, 1.0)]),
        SystemInfo::default(),
    );
    app.handle_key(Key::Char('t'));
    assert_eq!(names(&app), vec!["a", "b", "c"]);
    app.handle_key(Key::Char('t'));
    assert_eq!(names(&app), vec!["c", "a", "b"]);
}

#[test]
fn navigation_is_clamped() {
    let mut app = sample();
    app.handle_key(Key::Char('k'));
    assert_eq!(app.selected, 0);
    app.handle_key(Key::Down);
    app.handle_key(Key::Char('j'));
    app.handle_key(Key::Char('j'));
    assert_eq!(app.selected, 2);
    app.handle_key(Key::Up);
    assert_eq!(app.selected, 1);
    app.handle_key(Key::Char('h'));
    app.handle_key(Key::Char('j'));
    assert_eq!(app.selected, 1);
}

#[test]
fn container_command_outcomes() {
    let mut app = sample();
    app.handle_key(Key::Char('j'));
    // 'S' is not a key of the dashboard.
    let before_sort = app.sort_by;
    assert_eq!(app.handle_key(Key::Char('S')), Effect::Nothing);
    assert_eq!(app.sort_by, before_sort);
    app.finish_container_command("Container started: db".to_string(), Ok(()));
    assert_eq!(app.status_message, Some("Container started: db".to_string()));
    app.finish_container_command("x".to_string(), Err("boom".to_string()));
    assert_eq!(app.error_message, Some("boom".to_string()));
    assert_eq!(app.status_message, Some("Container started: db".to_string()));
}

#[test]
fn stop_needs_confirmation() {
    let mut app = sample();
    assert_eq!(app.handle_key(Key::Char('x')), Effect::Nothing);
    assert_eq!(app.pending_action, Some(PendingAction::Stop("cache".to_string())));
    assert_eq!(
        app.handle_key(Key::Char('y')),
        Effect::ContainerCommand {
            op: ContainerOp::Stop,
            name: "cache".to_string(),
            success: "Container stopped: cache".to_string()
        }
    );
    assert!(app.pending_action.is_none());
    assert_eq!(app.handle_key(Key::Char('y')), Effect::Nothing);
    app.handle_key(Key::Char('d'));
    assert_eq!(app.pending_action, Some(PendingAction::Delete("cache".to_string())));
    app.handle_key(Key::Esc);
    assert!(app.pending_action.is_none());
    assert_eq!(app.handle_key(Key::Char('y')), Effect::Nothing);
}

#[test]
fn dashboard_other_keys() {
    let mut app = sample();
    assert_eq!(app.handle_key(Key::Char('q')), Effect::Quit);
    assert_eq!(app.handle_key(Key::Char('r')), Effect::Refresh);
    assert_eq!(app.status_message, Some("Stats refreshed".to_string()));
    assert_eq!(app.handle_key(Key::Char('b')), Effect::OpenTerminal);
    assert_eq!(
        app.handle_key(Key::Char('E')),
        Effect::Exec { name: "cache".to_string(), state: "running".to_string(), as_root: true }
    );
    assert_eq!(app.handle_key(Key::Other), Effect::Nothing);
    let mut empty = App::new(Ok(vec![]), Ok(vec![]), SystemInfo::default());
    assert_eq!(empty.handle_key(Key::Char('e')), Effect::Nothing);
    empty.handle_key(Key::Char('j'));
    assert_eq!(empty.selected, 0);
}

#[test]
fn refresh_updates_state() {
    let mut app = sample();
    app.handle_key(Key::Char('j'));
    app.handle_key(Key::Char('j'));
    let mut sys = SystemInfo::default();
    sys.net_rx_bytes = 1000;
    sys.net_tx_bytes = 500;
    app.refresh_stats(sys, Ok(vec![container("z", "running")]), Ok(vec![]));
    assert_eq!(names(&app), vec!["z"]);
    assert_eq!(app.selected, 0);
    assert_eq!(app.net_rx_delta, 0);
    let mut sys2 = sys;
    sys2.net_rx_bytes = 4000;
    sys2.net_tx_bytes = 400;
    app.refresh_stats(sys2, Err("gone".to_string()), Ok(vec![]));
    assert_eq!(app.net_rx_delta, 3000);
    assert_eq!(app.net_tx_delta, 0);
    assert_eq!(app.error_message, Some("gone".to_string()));
    assert_eq!(names(&app), vec!["z"]);
    app.refresh_stats(sys2, Ok(vec![]), Ok(vec![]));
    assert!(app.error_message.is_none());
}

#[test]
fn shell_manager_navigation_and_tabs() {
    let mut app = shell_app();
    assert_eq!(app.mode, AppMode::ShellManager);
    assert_eq!(app.shell_manager.env_vars.len(), 2);
    app.handle_key(Key::Char('j'));
    app.handle_key(Key::Char('j'));
    assert_eq!(app.shell_manager.selected, 1);
    app.handle_key(Key::Tab);
    assert_eq!(app.shell_manager.active_tab, ShellManagerTab::Paths);
    assert_eq!(app.shell_manager.selected, 0);
    app.handle_key(Key::Char('1'));
    assert_eq!(app.shell_manager.active_tab, ShellManagerTab::Variables);
    app.handle_key(Key::Char('?'));
    assert!(app.shell_manager.show_help);
    app.handle_key(Key::Char('j'));
    assert_eq!(app.shell_manager.selected, 0);
    app.handle_key(Key::Char('q'));
    assert!(!app.shell_manager.show_help);
    assert_eq!(app.mode, AppMode::ShellManager);
    app.handle_key(Key::Char('q'));
    assert_eq!(app.mode, AppMode::Dashboard);
}

#[test]
fn add_variable_by_typing() {
    let mut app = shell_app();
    app.handle_key(Key::Char('a'));
    assert!(app.modal_display().is_some());
    app.handle_key(Key::Enter);
    assert_eq!(app.shell_manager.error, Some("Name cannot be empty".to_string()));
    assert_eq!(app.shell_manager.editing, EditingTarget::AddVarName);
    for c in " GOPATH ".chars() {
        app.handle_key(Key::Char(c));
    }
    assert!(app.shell_manager.error.is_none());
    app.handle_key(Key::Enter);
    assert_eq!(app.shell_manager.editing, EditingTarget::AddVarValue { name: "GOPATH".to_string() });
    assert_eq!(
        app.modal_display(),
        Some(("Add Variable".to_string(), "GOPATH".to_string(), String::new(), "e.g. /home/dev/go".to_string()))
    );
    for c in "/home/x".chars() {
        app.handle_key(Key::Char(c));
    }
    app.handle_key(Key::Backspace);
    app.handle_key(Key::Enter);
    assert_eq!(app.shell_manager.env_vars.len(), 3);
    assert_eq!(
        app.shell_manager.env_vars[2],
        EnvVar { name: "GOPATH".to_string(), value: "/home/".to_string(), enabled: true }
    );
    assert_eq!(app.shell_manager.selected, 2);
    assert_eq!(app.shell_manager.message, Some("Variable added".to_string()));
    assert!(app.modal_display().is_none());
}

#[test]
fn edit_rename_toggle_delete() {
    let mut app = shell_app();
    app.handle_key(Key::Char('e'));
    assert_eq!(app.shell_manager.input_buffer, "1");
    app.handle_key(Key::Char('0'));
    app.handle_key(Key::Enter);
    assert_eq!(app.shell_manager.env_vars[0].value, "10");
    assert_eq!(app.shell_manager.message, Some("Updated 'A'".to_string()));
    app.handle_key(Key::Char('r'));
    assert_eq!(app.modal_display().unwrap().0, "Rename Variable");
    app.handle_key(Key::Backspace);
    app.handle_key(Key::Char('Z'));
    app.handle_key(Key::Enter);
    assert_eq!(app.shell_manager.env_vars[0].name, "Z");
    assert_eq!(app.shell_manager.message, Some("Renamed 'A' -> 'Z'".to_string()));
    app.handle_key(Key::Char('t'));
    assert!(!app.shell_manager.env_vars[0].enabled);
    app.handle_key(Key::Char('T'));
    assert!(app.shell_manager.env_vars[0].enabled);
    app.handle_key(Key::Char('j'));
    app.handle_key(Key::Char('d'));
    assert_eq!(app.shell_manager.env_vars.len(), 1);
    assert_eq!(app.shell_manager.selected, 0);
    assert_eq!(app.shell_manager.message, Some("Removed 'B'".to_string()));
    app.handle_key(Key::Char('r'));
    app.handle_key(Key::Esc);
    assert_eq!(app.shell_manager.editing, EditingTarget::Inactive);
    assert_eq!(app.shell_manager.input_buffer, "");
}

#[test]
fn path_entries_editing() {
    let mut app = shell_app();
    app.handle_key(Key::Char('2'));
    app.handle_key(Key::Char('a'));
    for c in " /opt/node/bin ".chars() {
        app.handle_key(Key::Char(c));
    }
    app.handle_key(Key::Enter);
    assert_eq!(app.shell_manager.path_entries.len(), 3);
    assert_eq!(app.shell_manager.path_entries[2].path, "/opt/node/bin");
    assert_eq!(app.shell_manager.path_entries[2].label, Some("Node.js".to_string()));
    assert_eq!(app.shell_manager.selected, 2);
    app.handle_key(Key::Char('e'));
    for _ in 0..20 {
        app.handle_key(Key::Backspace);
    }
    app.handle_key(Key::Enter);
    assert_eq!(app.shell_manager.error, Some("Path cannot be empty".to_string()));
    for c in "/opt/go".chars() {
        app.handle_key(Key::Char(c));
    }
    app.handle_key(Key::Enter);
    assert_eq!(app.shell_manager.path_entries[2].path, "/opt/go");
    assert_eq!(app.shell_manager.path_entries[2].label, Some("Go".to_string()));
    assert_eq!(app.shell_manager.message, Some("PATH entry updated".to_string()));
}

#[test]
fn shell_switching_and_saving() {
    let mut app = shell_app();
    assert_eq!(app.handle_key(Key::Char('>')), Effect::SwitchShell(ShellKind::Fish));
    assert_eq!(app.handle_key(Key::Char('<')), Effect::SwitchShell(ShellKind::Zsh));
    let cfg = load_shell_config(ShellKind::Zsh, None, "/bin");
    app.switch_shell(ShellKind::Zsh, cfg);
    assert_eq!(app.shell_manager.selected_shell, ShellKind::Zsh);
    assert_eq!(app.shell_manager.message, Some("Switched to zsh".to_string()));
    assert_eq!(app.handle_key(Key::Char('.')), Effect::SwitchShell(ShellKind::Bash));
    assert_eq!(app.handle_key(Key::Char('s')), Effect::SaveShellConfig);
    app.finish_save(Ok("/home/u/.zshrc".to_string()));
    assert_eq!(app.shell_manager.message, Some("Saved to ~.zshrc".to_string()));
    app.finish_save(Err("denied".to_string()));
    assert_eq!(app.shell_manager.error, Some("denied".to_string()));
    assert!(app.shell_manager.message.is_none());
}

#[test]
fn initial_shell_choice() {
    assert_eq!(App::select_shell(&vec![ShellKind::Fish, ShellKind::Bash], ShellKind::Bash), ShellKind::Bash);
    assert_eq!(App::select_shell(&vec![ShellKind::Fish, ShellKind::Bash], ShellKind::Zsh), ShellKind::Fish);
    assert_eq!(App::select_shell(&vec![], ShellKind::Zsh), ShellKind::Bash);
}

#[test]
fn help_rows() {
    let rows = App::keybindings_help();
    assert_eq!(rows.len(), 26);
    assert_eq!(rows[0], ("Navigation", ""));
    assert_eq!(rows[25], ("q / Esc", "Quit / Go back"));
}

#[test]
fn finish_reports() {
    let mut app = sample();
    app.finish_exec(Ok("Opened: web".to_string()));
    assert_eq!(app.status_message, Some("Opened: web".to_string()));
    app.finish_open_terminal(Ok("bin".to_string()));
    assert_eq!(app.status_message, Some("Terminal opened in: bin".to_string()));
    assert!(app.error_message.is_none());
}

#[test]
fn s_cycles_the_sort_order_on_the_dashboard() {
    let mut app = sample();
    assert_eq!(app.sort_by, SortBy::Name);
    assert_eq!(app.handle_key(Key::Char('s')), Effect::Nothing);
    assert_eq!(app.sort_by, SortBy::Status);
    app.handle_key(Key::Char('s'));
    assert_eq!(app.sort_by, SortBy::Cpu);
    assert_eq!(names(&app), vec!["cache", "web", "db"]);
    app.handle_key(Key::Char('s'));
    app.handle_key(Key::Char('s'));
    assert_eq!(app.sort_by, SortBy::Name);
    assert_eq!(names(&app), vec!["cache", "db", "web"]);
}

#[test]
fn tab_on_the_dashboard_opens_the_shell_manager() {
    let mut app = sample();
    assert_eq!(app.handle_key(Key::Tab), Effect::LoadShellConfig);
    assert_eq!(app.mode, AppMode::ShellManager);
    assert!(!app.shell_manager.show_help);
}

#[test]
fn h_toggles_the_shell_manager_help() {
    let mut app = shell_app();
    assert!(!app.shell_manager.show_help);
    assert_eq!(app.handle_key(Key::Char('h')), Effect::Nothing);
    assert!(app.shell_manager.show_help);
    app.handle_key(Key::Char('h'));
    assert!(!app.shell_manager.show_help);
    // While a name is typed, `h` is part of it.
    app.handle_key(Key::Char('a'));
    app.handle_key(Key::Char('h'));
    assert!(!app.shell_manager.show_help);
    assert_eq!(app.shell_manager.input_buffer, "h");
}

#[test]
fn typing_then_backspace_restores_the_text() {
    let mut app = shell_app();
    app.handle_key(Key::Char('a'));
    app.handle_key(Key::Char('X'));
    app.handle_key(Key::Char('h'));
    app.handle_key(Key::Backspace);
    assert_eq!(app.shell_manager.input_buffer, "X");
    assert!(app.shell_manager.error.is_none());
}
