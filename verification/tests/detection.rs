use podman_tui::detect::{
    shell_search_step, start_shell_search, start_terminal_search, terminal_search_step, HostAnswer,
    ShellQuestion, ShellSearch, TerminalQuestion, TerminalSearch,
};
use podman_tui::shell::ShellKind;

fn text(s: &str) -> HostAnswer {
    HostAnswer::Text(Some(s.to_string()))
}

/// Runs the shell search on the answers, returning the questions asked and the result.
fn run_shell(answers: Vec<HostAnswer>) -> (Vec<ShellQuestion>, ShellSearch) {
    let (mut s, mut q) = start_shell_search();
    let mut asked = vec![q];
    for a in answers {
        (s, q) = shell_search_step(s, a);
        asked.push(q);
    }
    (asked, s)
}

#[test]
fn shell_from_shell_var_when_installed() {
    let (asked, s) = run_shell(vec![text("/usr/bin/zsh"), HostAnswer::Yes(true)]);
    assert_eq!(asked, vec![ShellQuestion::ShellVar, ShellQuestion::Installed(ShellKind::Zsh), ShellQuestion::Done(ShellKind::Zsh)]);
    assert_eq!(s, ShellSearch::Found(ShellKind::Zsh));
}

#[test]
fn shell_from_process_name() {
    let (asked, s) = run_shell(vec![HostAnswer::Text(None), text("fish\n")]);
    assert_eq!(asked[1], ShellQuestion::Comm);
    assert_eq!(s, ShellSearch::Found(ShellKind::Fish));
}

#[test]
fn shell_from_login_name_after_missing_shell() {
    let (asked, s) = run_shell(vec![
        text("/bin/bash"),
        HostAnswer::Yes(false),
        text("podman-tui\n"),
        text("-zsh\n"),
    ]);
    assert_eq!(
        asked,
        vec![
            ShellQuestion::ShellVar,
            ShellQuestion::Installed(ShellKind::Bash),
            ShellQuestion::Comm,
            ShellQuestion::LoginName,
            ShellQuestion::Done(ShellKind::Zsh)
        ]
    );
    assert_eq!(s, ShellSearch::Found(ShellKind::Zsh));
}

#[test]
fn shell_fallbacks() {
    let (asked, s) = run_shell(vec![
        HostAnswer::Text(None),
        HostAnswer::Text(None),
        HostAnswer::Text(None),
        HostAnswer::Yes(false),
        HostAnswer::Yes(true),
    ]);
    assert_eq!(asked[3], ShellQuestion::Installed(ShellKind::Fish));
    assert_eq!(asked[4], ShellQuestion::Installed(ShellKind::Zsh));
    assert_eq!(asked[5], ShellQuestion::Done(ShellKind::Zsh));
    assert_eq!(s, ShellSearch::Found(ShellKind::Zsh));
    let (_, s) = run_shell(vec![
        HostAnswer::Text(None),
        HostAnswer::Text(None),
        text("sh"),
        HostAnswer::Yes(false),
        HostAnswer::Yes(false),
    ]);
    assert_eq!(s, ShellSearch::Found(ShellKind::Bash));
}

/// Runs the terminal search on the answers, returning the questions asked and the result.
fn run_terminal(answers: Vec<HostAnswer>) -> (Vec<TerminalQuestion>, Option<(String, Vec<String>)>) {
    let (mut s, mut q) = start_terminal_search();
    let mut asked = vec![q.clone()];
    for a in answers {
        (s, q) = terminal_search_step(s, a);
        asked.push(q.clone());
    }
    match s {
        TerminalSearch::Found(t) => (asked, t),
        _ => panic!("search not over"),
    }
}

fn term(name: &str, args: &[&str]) -> Option<(String, Vec<String>)> {
    Some((name.to_string(), args.iter().map(|s| s.to_string()).collect()))
}

#[test]
fn terminal_from_term_program() {
    assert_eq!(run_terminal(vec![text("Apple_Terminal")]).1, term("open", &[]));
    assert_eq!(run_terminal(vec![text("vscode")]).1, None);
    let (asked, t) = run_terminal(vec![text("foot"), HostAnswer::Yes(true)]);
    assert_eq!(asked[1], TerminalQuestion::ProgramRuns("foot".to_string()));
    assert_eq!(t, term("foot", &["-e"]));
    assert_eq!(run_terminal(vec![text("foot"), HostAnswer::Yes(false)]).1, None);
}

#[test]
fn terminal_from_tmux_or_known_ones() {
    let (asked, t) = run_terminal(vec![HostAnswer::Text(None), text("tmux-256color")]);
    assert_eq!(asked[1], TerminalQuestion::Term);
    assert_eq!(t, term("tmux", &["split-window", "-h"]));
    let (asked, t) = run_terminal(vec![
        HostAnswer::Text(None),
        text("xterm-256color"),
        HostAnswer::Yes(false),
        HostAnswer::Yes(true),
    ]);
    assert_eq!(asked[2], TerminalQuestion::CandidateRuns(0));
    assert_eq!(asked[3], TerminalQuestion::CandidateRuns(1));
    assert_eq!(t, term("alacritty", &["-e"]));
    let mut none = vec![HostAnswer::Text(None), HostAnswer::Text(None)];
    none.extend((0..7).map(|_| HostAnswer::Yes(false)));
    let (asked, t) = run_terminal(none);
    assert_eq!(asked.len(), 10);
    assert_eq!(asked[9], TerminalQuestion::Done);
    assert_eq!(t, None);
}

#[test]
fn fallback_terminal_is_the_first_that_runs() {
    use_fallback_steps();
}

fn use_fallback_steps() {
    let first = podman_tui::detect::first_fallback();
    assert!(matches!(first, podman_tui::detect::FallbackStep::Check(0)));
    assert!(matches!(podman_tui::detect::next_fallback(0, false), podman_tui::detect::FallbackStep::Check(1)));
    match podman_tui::detect::next_fallback(2, true) {
        podman_tui::detect::FallbackStep::Use((name, args)) => {
            assert_eq!(name, "kitty");
            assert!(args.is_empty());
        }
        _ => panic!("kitty expected"),
    }
    match podman_tui::detect::next_fallback(4, true) {
        podman_tui::detect::FallbackStep::Use((name, args)) => {
            assert_eq!(name, "xterm");
            assert_eq!(args, vec!["-e".to_string()]);
        }
        _ => panic!("xterm expected"),
    }
    assert!(matches!(podman_tui::detect::next_fallback(4, false), podman_tui::detect::FallbackStep::NoneLeft));
}
