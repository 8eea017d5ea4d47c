use podman_tui::app::{App, Key, PendingAction};
use podman_tui::order::SortBy;
use podman_tui::podman::{ContainerInfo, ContainerStats, SwapInfo, SystemInfo};
use podman_tui::shell::{load_shell_config, PathEntry, ShellKind};
use podman_tui::view::{
    body_split, bottom_height, can_show_details, container_counts, container_table, dashboard_bar,
    details_view, help_lines, paths_view, popup_area, preview_view, selector_view, shell_bar,
    summary_height, summary_lines, tab_bar_width, tabs_view, title_view, variables_view, with_cursor,
    mark_of_lowercase, BarNote, ContainerColumns, HelpLine, StateMark, SummaryLine, TabSize,
};

fn container(name: &str, state: &str) -> ContainerInfo {
    ContainerInfo {
        id: format!("id-{}", name),
        name: name.to_string(),
        image: "img".to_string(),
        status: "Up".to_string(),
        state: state.to_string(),
    }
}

fn stats(name: &str) -> ContainerStats {
    ContainerStats {
        name: name.to_string(),
        cpu_percent_bits: 1.5f64.to_bits(),
        mem_usage: "1MiB / 2GiB".to_string(),
        mem_percent_bits: 0.5f64.to_bits(),
        net_io: "1kB / 2kB".to_string(),
        block_io: "0B / 0B".to_string(),
    }
}

fn sample() -> App {
    App::new(
        Ok(vec![container("web", "running"), container("db", "exited"), container("cache", "Running")]),
        Ok(vec![stats("web"), stats("db"), stats("cache")]),
        SystemInfo::default(),
    )
}

fn shell_app() -> App {
    let mut app = sample();
    app.handle_key(Key::Char('v'));
    let cfg = load_shell_config(ShellKind::Bash, Some("export A=1\nexport B=2\nexport PATH=/usr/bin:/opt/go/bin\n"), "");
    app.load_shell_config(vec![ShellKind::Fish, ShellKind::Zsh, ShellKind::Bash], cfg);
    app
}

#[test]
fn title_by_width() {
    let t = title_view(SortBy::Cpu, 80);
    assert_eq!(t.heading, "Podman TUI Dashboard");
    assert_eq!(t.gap, 15);
    assert_eq!(t.sort_label, Some("[sorted by: Cpu]".to_string()));
    let t = title_view(SortBy::Memory, 40);
    assert_eq!((t.heading.as_str(), t.gap, t.sort_label), ("Podman TUI", 2, Some("[Memory]".to_string())));
    let t = title_view(SortBy::Name, 20);
    assert_eq!(t.heading, "Podman TUI");
    assert_eq!(t.sort_label, None);
}

#[test]
fn screen_division() {
    assert_eq!(body_split(130), (true, 55));
    assert_eq!(body_split(100), (true, 50));
    assert_eq!(body_split(79), (false, 55));
    assert_eq!(summary_height(14), 10);
    assert_eq!(summary_height(10), 8);
    assert_eq!(summary_height(9), 6);
    let mut app = shell_app();
    assert_eq!(bottom_height(&app), 3);
    app.handle_key(Key::Char('?'));
    assert_eq!(bottom_height(&app), 18);
    assert_eq!(tab_bar_width(120), Some(50));
    assert_eq!(tab_bar_width(80), Some(38));
    assert_eq!(tab_bar_width(60), None);
}

#[test]
fn container_table_wide_and_narrow() {
    let app = sample();
    let wide = container_table(&app, 60).unwrap();
    assert_eq!(wide.columns, ContainerColumns { wide: true, name: 7, status: 6, cpu: 8, mem: 37 });
    let names: Vec<&str> = wide.rows.iter().map(|r| r.name.as_str()).collect();
    assert_eq!(names, vec!["cache", "db", "web"]);
    assert_eq!(wide.rows[0].mark, StateMark::Running);
    assert_eq!(wide.rows[1].mark, StateMark::Other);
    assert_eq!(wide.rows[0].stats_at, Some(2));
    assert_eq!(wide.rows[1].stats_at, Some(1));
    assert!(wide.rows[0].selected && !wide.rows[1].selected);
    let narrow = container_table(&app, 30).unwrap();
    assert_eq!(narrow.columns, ContainerColumns { wide: false, name: 7, status: 6, cpu: 8, mem: 0 });
    let empty = App::new(Ok(vec![]), Ok(vec![]), SystemInfo::default());
    assert!(container_table(&empty, 60).is_none());
}

#[test]
fn state_marks_ignore_case() {
    let app = App::new(
        Ok(vec![container("a", "Paused"), container("b", "STOPPED"), container("c", "created")]),
        Ok(vec![]),
        SystemInfo::default(),
    );
    let t = container_table(&app, 80).unwrap();
    let marks: Vec<StateMark> = t.rows.iter().map(|r| r.mark).collect();
    assert_eq!(marks, vec![StateMark::Halted, StateMark::Halted, StateMark::Other]);
    assert_eq!(t.rows[0].stats_at, None);
}

#[test]
fn counts_and_summary_lines() {
    let mut app = sample();
    assert_eq!(container_counts(&app), (3, 2, 1));
    assert_eq!(
        summary_lines(&app, 12, 40),
        vec![
            SummaryLine::ContainerUsage,
            SummaryLine::Counts,
            SummaryLine::Io,
            SummaryLine::Divider(38),
            SummaryLine::HostUsage,
            SummaryLine::Network
        ]
    );
    assert_eq!(summary_lines(&app, 5, 40), vec![SummaryLine::ContainerUsage, SummaryLine::Counts, SummaryLine::Io]);
    app.system_info.swap = SwapInfo { total_bytes: 100, used_bytes: 5 };
    assert_eq!(summary_lines(&app, 8, 30).last(), Some(&SummaryLine::Swap));
    assert_eq!(summary_lines(&app, 9, 30).len(), 7);
}

#[test]
fn details_cut_to_the_panel() {
    let mut app = sample();
    let d = details_view(&app, 40).unwrap();
    assert_eq!((d.name.as_str(), d.id.as_str(), d.image.as_str()), ("cache", "id-cache", "img"));
    assert_eq!(d.stats_at, Some(2));
    app.containers[0].id = "0123456789abcdef".to_string();
    app.containers[0].name = "a-very-long-container-name-indeed".to_string();
    assert!(can_show_details(&app, 20));
    let d = details_view(&app, 20).unwrap();
    assert_eq!(d.id, "0123456789ab");
    assert_eq!(d.name, "a-very-long…");
    app.containers[0].name = "ééééé".to_string();
    assert!(!can_show_details(&app, 12));
    assert!(can_show_details(&app, 13));
    app.selected = 7;
    assert!(details_view(&app, 40).is_none());
}

#[test]
fn variable_and_path_lists() {
    let mut app = shell_app();
    let v = variables_view(&app, 50).unwrap();
    assert_eq!((v.first_width, v.second_width), (28, 11));
    assert_eq!(v.rows.len(), 2);
    assert_eq!((v.rows[0].first.as_str(), v.rows[0].second.as_str()), ("A", "1"));
    assert!(v.rows[0].selected && !v.rows[1].selected && v.rows[1].enabled);
    app.shell_manager.path_entries = vec![
        PathEntry { path: "/a".to_string(), enabled: true, label: None },
        PathEntry { path: "/b/c".to_string(), enabled: false, label: Some("Tools".to_string()) },
    ];
    let p = paths_view(&app, 60).unwrap();
    assert_eq!((p.first_width, p.second_width), (38, 11));
    assert_eq!(p.rows[0].second, "-");
    assert_eq!(p.rows[1].second, "Tools");
    assert!(!p.rows[1].enabled);
    app.shell_manager.env_vars.clear();
    assert!(variables_view(&app, 50).is_none());
}

#[test]
fn preview_and_selector() {
    let mut app = shell_app();
    let p = preview_view(&app);
    assert_eq!(p.file, "~.bashrc");
    assert_eq!(p.syntax, "export ");
    assert_eq!(p.var_lines, vec!["export A=1".to_string(), "export B=2".to_string()]);
    assert_eq!(p.path_lines, vec!["export PATH=\"/usr/bin:/opt/go/bin\"".to_string()]);
    let s = selector_view(&app, ShellKind::Bash);
    assert_eq!(s.shells, "fish  zsh  [BASH]");
    assert!(s.detected);
    assert_eq!(s.file, "~.bashrc");
    assert!(!selector_view(&app, ShellKind::Zsh).detected);
    app.shell_manager.selected_shell = ShellKind::Fish;
    app.shell_manager.env_vars[1].enabled = false;
    let p = preview_view(&app);
    assert_eq!(p.var_lines, vec!["set -gx A 1".to_string()]);
    assert_eq!(p.path_lines, vec!["fish_add_path /usr/bin".to_string(), "fish_add_path /opt/go/bin".to_string()]);
}

#[test]
fn tabs_follow_the_screen() {
    let app = sample();
    let t = tabs_view(&app, 40);
    assert_eq!(t.size, TabSize::Long);
    assert!(t.dashboard && !t.shell && !t.variables && !t.paths);
    let app = shell_app();
    let t = tabs_view(&app, 30);
    assert_eq!(t.size, TabSize::Short);
    assert!(!t.dashboard && t.shell && t.variables && !t.paths);
    assert_eq!(tabs_view(&app, 20).size, TabSize::Tiny);
}

#[test]
fn bottom_bars() {
    let mut app = sample();
    app.pending_action = Some(PendingAction::Stop("web".to_string()));
    let bar = dashboard_bar(&app, 120);
    assert!(bar.bindings.starts_with(" [j/k]Nav [s]Start [x]Stop [d]Delete"));
    assert!(matches!(bar.note, Some(BarNote::Confirm(ref t)) if t == "[y] Confirm Stop 'web'"));
    app.pending_action = None;
    app.error_message = Some("boom".to_string());
    assert!(matches!(dashboard_bar(&app, 40).note, Some(BarNote::Error(ref e)) if e == "boom"));
    assert_eq!(dashboard_bar(&app, 40).bindings, " j/k Nav | s Start | x Stop | e Exec | q Quit ");

    let mut app = shell_app();
    app.shell_manager.message = None;
    app.shell_manager.error = None;
    let bar = shell_bar(&app, 120);
    assert_eq!(
        bar.bindings,
        "[j/k]Nav [a]Add [d]Del [e]Edit [r]Rename [t]Toggle [s]Save [Tab]Tab [1/2]Jump [<,>]Shell [fish/zsh/bash] [?]Help [v]Back [q]Quit"
    );
    assert!(bar.note.is_none());
    assert_eq!(bar.active, "Active:Vars");
    app.handle_key(Key::Char('a'));
    assert!(matches!(shell_bar(&app, 80).note, Some(BarNote::Typing)));
    assert_eq!(shell_bar(&app, 60).bindings, "j/k Nav | a Add | d Del | e Edit | s Save | q Quit");
}

#[test]
fn help_and_input_box() {
    let lines = help_lines();
    assert_eq!(lines.len(), App::keybindings_help().len());
    assert!(matches!(&lines[0], HelpLine::Section(t) if t == "  Navigation"));
    assert!(matches!(&lines[1], HelpLine::Binding(k, d) if k == "    j / Down      " && d == "Move down"));
    assert!(matches!(&lines[5], HelpLine::Blank));
    let a = popup_area(100, 40);
    assert_eq!((a.x, a.y, a.width, a.height), (15, 16, 70, 7));
    let a = popup_area(50, 20);
    assert_eq!((a.x, a.y, a.width, a.height), (2, 6, 46, 7));
    assert_eq!(with_cursor("ab"), "ab▌");
    assert_eq!(with_cursor(""), "▌");
}

#[test]
fn marks_of_lowercase_states() {
    assert_eq!(mark_of_lowercase("running"), StateMark::Running);
    assert_eq!(mark_of_lowercase("paused"), StateMark::Halted);
    assert_eq!(mark_of_lowercase("stopped"), StateMark::Halted);
    assert_eq!(mark_of_lowercase("Paused"), StateMark::Other);
    assert_eq!(mark_of_lowercase("exited"), StateMark::Other);
}
