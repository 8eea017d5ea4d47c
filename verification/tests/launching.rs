use podman_tui::launch::{
    exec_command_args, exec_message, fallback_terminal_candidates, host_terminal_candidates,
    is_running, root_shell_candidates, terminal_for_program, terminal_for_term,
    terminal_open_args, ProgramTerminal,
};
use podman_tui::launch::{first_shell_pick, next_shell_pick, running_lowercase, terminal_for_lowercase_program, ShellPick};
use podman_tui::order::f64_rank_of;

fn strings(v: &[&str]) -> Vec<String> {
    v.iter().map(|s| s.to_string()).collect()
}

#[test]
fn running_state() {
    assert!(is_running("running"));
    assert!(is_running("Running"));
    assert!(!is_running("exited"));
    assert!(!is_running(" running"));
}

#[test]
fn exec_args() {
    let args = exec_command_args(&strings(&["-e"]), "web", true, "/usr/bin/fish");
    assert_eq!(
        args,
        strings(&["-e", "podman", "exec", "-it", "-u", "root", "-w", "/workspace", "web", "/usr/bin/fish", "-l"])
    );
    let args = exec_command_args(&vec![], "db", false, "/bin/bash");
    assert_eq!(args, strings(&["podman", "exec", "-it", "-u", "1000", "-w", "/workspace", "db", "/bin/bash", "-l"]));
    assert_eq!(exec_message("web", true), "Opened: web");
    assert_eq!(exec_message("web", false), "Started and opened: web");
    assert_eq!(root_shell_candidates(), vec!["/usr/bin/fish", "/bin/zsh", "/bin/bash", "/usr/bin/zsh"]);
}

#[test]
fn terminals() {
    assert_eq!(terminal_for_program("Apple_Terminal"), ProgramTerminal::Use("open".to_string(), vec![]));
    assert_eq!(terminal_for_program("iTerm.app"), ProgramTerminal::Use("open".to_string(), strings(&["-a", "iTerm"])));
    assert_eq!(terminal_for_program("WezTerm"), ProgramTerminal::Use("wezterm".to_string(), strings(&["start", "--"])));
    assert_eq!(terminal_for_program("vscode"), ProgramTerminal::Unsupported);
    assert_eq!(terminal_for_program("foot"), ProgramTerminal::Probe);
    assert_eq!(terminal_for_term("tmux-256color"), Some(("tmux".to_string(), strings(&["split-window", "-h"]))));
    assert_eq!(terminal_for_term("xterm-256color"), None);
    assert_eq!(terminal_open_args(&strings(&["start", "--"])), strings(&["start"]));
    assert_eq!(terminal_open_args(&strings(&["-e", "-x"])), strings(&["-x"]));
    let hosts: Vec<&str> = host_terminal_candidates().iter().map(|c| c.name).collect();
    assert_eq!(hosts, vec!["ghostty", "alacritty", "kitty", "wezterm", "konsole", "gnome-terminal", "xterm"]);
    let fallback = fallback_terminal_candidates();
    assert_eq!(fallback.len(), 5);
    assert!(fallback[2].args.is_empty());
}

#[test]
fn float_ranks_follow_partial_cmp() {
    let vals = [f64::NEG_INFINITY, -3.5, -0.0, 0.0, 1e-300, 0.5, 12.25, 99.0, f64::INFINITY];
    for a in vals {
        for b in vals {
            let by_rank = f64_rank_of(a.to_bits()).cmp(&f64_rank_of(b.to_bits()));
            assert_eq!(Some(by_rank), a.partial_cmp(&b), "{} {}", a, b);
        }
    }
    assert_eq!(f64_rank_of(f64::NAN.to_bits()), 0);
}

#[test]
fn root_shell_is_the_first_that_exists() {
    assert_eq!(first_shell_pick(false), ShellPick::Use("/bin/bash"));
    assert_eq!(first_shell_pick(true), ShellPick::Check(0));
    assert_eq!(next_shell_pick(0, true), ShellPick::Use("/usr/bin/fish"));
    assert_eq!(next_shell_pick(0, false), ShellPick::Check(1));
    assert_eq!(next_shell_pick(1, true), ShellPick::Use("/bin/zsh"));
    assert_eq!(next_shell_pick(2, false), ShellPick::Check(3));
    assert_eq!(next_shell_pick(3, true), ShellPick::Use("/usr/bin/zsh"));
    assert_eq!(next_shell_pick(3, false), ShellPick::Use("/bin/bash"));
}

#[test]
fn lowercase_tables() {
    assert!(running_lowercase("running"));
    assert!(!running_lowercase("Running"));
    assert!(!running_lowercase("exited"));
    assert_eq!(
        terminal_for_lowercase_program("iterm.app"),
        ProgramTerminal::Use("open".to_string(), vec!["-a".to_string(), "iTerm".to_string()])
    );
    assert_eq!(terminal_for_lowercase_program("iTerm.app"), ProgramTerminal::Probe);
    assert_eq!(terminal_for_lowercase_program("vscode"), ProgramTerminal::Unsupported);
}
