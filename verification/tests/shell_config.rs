use podman_tui::shell::{
    config_with_managed_section, detect_shell_kind, format_env_var, format_path_entry_single,
    guess_path_label, load_current_path_entries, load_shell_config, parse_shell_config,
    remove_managed_section, shell_config_filename, shell_export_syntax, shell_from_comm,
    shell_from_login_name, shell_name, EnvVar, PathEntry, ShellKind,
};

fn var(name: &str, value: &str, enabled: bool) -> EnvVar {
    EnvVar { name: name.to_string(), value: value.to_string(), enabled }
}

fn entry(path: &str, enabled: bool) -> PathEntry {
    PathEntry { path: path.to_string(), enabled, label: guess_path_label(path) }
}

#[test]
fn detect_shell_kind_reads_basename() {
    assert_eq!(detect_shell_kind("/usr/bin/zsh"), ShellKind::Zsh);
    assert_eq!(detect_shell_kind("/usr/local/bin/fish"), ShellKind::Fish);
    assert_eq!(detect_shell_kind("/bin/bash"), ShellKind::Bash);
    assert_eq!(detect_shell_kind("zsh"), ShellKind::Zsh);
    assert_eq!(detect_shell_kind("/bin/sh"), ShellKind::Bash);
    assert_eq!(detect_shell_kind("/usr/bin/zsh/"), ShellKind::Bash);
}

#[test]
fn config_filenames_and_syntax() {
    assert_eq!(shell_config_filename(ShellKind::Bash), ".bashrc");
    assert_eq!(shell_config_filename(ShellKind::Zsh), ".zshrc");
    assert_eq!(shell_config_filename(ShellKind::Fish), ".config/fish/config.fish");
    assert_eq!(shell_export_syntax(ShellKind::Fish), ("set -gx ", ""));
    assert_eq!(shell_export_syntax(ShellKind::Zsh), ("export ", ""));
    assert_eq!(shell_name(ShellKind::Fish), "fish");
}

#[test]
fn path_labels() {
    assert_eq!(guess_path_label("/usr/local/go/bin"), Some("Go".to_string()));
    assert_eq!(guess_path_label("/home/u/.nvm/versions/node/bin"), Some("Node.js".to_string()));
    assert_eq!(guess_path_label("/home/u/.pyenv/shims"), Some("Python".to_string()));
    assert_eq!(guess_path_label("/home/u/.rustup/toolchains/bin"), Some("Rust/Cargo".to_string()));
    // "cargo" holds "go", which is looked for first.
    assert_eq!(guess_path_label("/home/u/.cargo/bin"), Some("Go".to_string()));
    assert_eq!(guess_path_label("/home/u/.bun/bin"), Some("Bun".to_string()));
    assert_eq!(guess_path_label("/home/u/.yarn/bin"), Some("Yarn".to_string()));
    assert_eq!(guess_path_label("/opt/podman/bin"), Some("Container Tools".to_string()));
    assert_eq!(guess_path_label("/usr/bin"), Some("System".to_string()));
    assert_eq!(guess_path_label("/sbin"), Some("System".to_string()));
    assert_eq!(guess_path_label("/opt/homebrew/bin"), Some("Homebrew".to_string()));
    assert_eq!(guess_path_label("/opt/tools"), None);
    // "go" is looked for first: "/opt/google" counts as Go.
    assert_eq!(guess_path_label("/opt/google/bin"), Some("Go".to_string()));
    // pnpm holds "npm", which is tested earlier.
    assert_eq!(guess_path_label("/home/u/.pnpm"), Some("Node.js".to_string()));
}

#[test]
fn parse_bash_config() {
    let content = "# comment\n\
        export EDITOR=vim\n\
        export GOPATH=\"/home/dev/go\"\n\
        export MSG='hello world'\n\
        export PATH=\"/usr/local/bin:/home/dev/.cargo/bin::\"\n\
        PATH=\"$HOME/bin:/opt/tools:$PATH\"\n\
        alias ll='ls -l'\n\
        export NOVALUE\n";
    let (vars, paths) = parse_shell_config(ShellKind::Bash, content);
    assert_eq!(
        vars,
        vec![var("EDITOR", "vim", true), var("GOPATH", "/home/dev/go", true), var("MSG", "hello world", true)]
    );
    let got: Vec<&str> = paths.iter().map(|p| p.path.as_str()).collect();
    assert_eq!(got, vec!["/usr/local/bin", "/home/dev/.cargo/bin", "/opt/tools"]);
    assert!(paths.iter().all(|p| p.enabled));
    assert_eq!(paths[0].label, Some("System".to_string()));
    assert_eq!(paths[1].label, Some("Go".to_string()));
}

#[test]
fn parse_fish_config() {
    let content = "set -gx EDITOR nvim\n\
        set -gx PATH /usr/bin /opt/go/bin\n\
        fish_add_path  /home/dev/.bun/bin  \n\
        set -gx LONELY\n\
        export IGNORED=1\n";
    let (vars, paths) = parse_shell_config(ShellKind::Fish, content);
    assert_eq!(vars, vec![var("EDITOR", "nvim", true)]);
    let got: Vec<&str> = paths.iter().map(|p| p.path.as_str()).collect();
    assert_eq!(got, vec!["/usr/bin", "/opt/go/bin", "/home/dev/.bun/bin"]);
    assert_eq!(paths[2].label, Some("Bun".to_string()));
}

#[test]
fn parse_skips_markers_and_crlf() {
    let content = "# === Podman TUI Managed ===\r\nexport A=1\r\n# === End Podman TUI Managed ===\r\n";
    let (vars, paths) = parse_shell_config(ShellKind::Zsh, content);
    assert_eq!(vars, vec![var("A", "1", true)]);
    assert!(paths.is_empty());
}

#[test]
fn current_path_entries() {
    let entries = load_current_path_entries("/usr/bin::/opt/go/bin:");
    let got: Vec<&str> = entries.iter().map(|p| p.path.as_str()).collect();
    assert_eq!(got, vec!["/usr/bin", "/opt/go/bin"]);
    assert!(load_current_path_entries("").is_empty());
}

#[test]
fn load_config_falls_back_to_path() {
    let cfg = load_shell_config(ShellKind::Bash, Some("export A=b\n"), "/usr/bin:/bin");
    assert_eq!(cfg.shell, ShellKind::Bash);
    assert_eq!(cfg.config_path, ".bashrc");
    assert_eq!(cfg.env_vars, vec![var("A", "b", true)]);
    let got: Vec<&str> = cfg.path_entries.iter().map(|p| p.path.as_str()).collect();
    assert_eq!(got, vec!["/usr/bin", "/bin"]);

    let cfg = load_shell_config(ShellKind::Fish, None, "/x");
    assert!(cfg.env_vars.is_empty());
    assert_eq!(cfg.path_entries.len(), 1);
    assert_eq!(cfg.config_path, ".config/fish/config.fish");

    let cfg = load_shell_config(ShellKind::Zsh, Some("export PATH=/a:/b\n"), "/x");
    let got: Vec<&str> = cfg.path_entries.iter().map(|p| p.path.as_str()).collect();
    assert_eq!(got, vec!["/a", "/b"]);
}

#[test]
fn formatting_lines() {
    assert_eq!(format_env_var(ShellKind::Bash, &var("A", "b", true)), "export A=b");
    assert_eq!(format_env_var(ShellKind::Bash, &var("A", "b c", true)), "export A=\"b c\"");
    assert_eq!(format_env_var(ShellKind::Zsh, &var("A", "$HOME/x", true)), "export A=\"$HOME/x\"");
    assert_eq!(format_env_var(ShellKind::Fish, &var("A", "$HOME/x", true)), "set -gx A $HOME/x");
    assert_eq!(format_env_var(ShellKind::Fish, &var("A", "b c", true)), "set -gx A \"b c\"");
    assert_eq!(format_env_var(ShellKind::Bash, &var("A", "b", false)), "# export A=b");
    assert_eq!(format_path_entry_single(ShellKind::Fish, "/opt/bin"), "fish_add_path /opt/bin");
    assert_eq!(format_path_entry_single(ShellKind::Bash, "/opt/bin"), "export PATH=\"/opt/bin:$PATH\"");
}

#[test]
fn remove_managed_keeps_the_rest() {
    let content = "alias a=b\n# === Podman TUI Managed ===\nexport X=1\n# === End Podman TUI Managed ===\nalias c=d\n";
    assert_eq!(remove_managed_section(content), "alias a=b\nalias c=d");
    assert_eq!(remove_managed_section(""), "");
    // An unclosed section runs to the end.
    assert_eq!(remove_managed_section("a\n  # === Podman TUI Managed ===  \nb\n"), "a");
    // Empty lines before anything kept add no newline.
    assert_eq!(remove_managed_section("\n\nx"), "x");
}

#[test]
fn saved_config_bash() {
    let vars = vec![var("EDITOR", "vim", true), var("OFF", "1", false), var("GREETING", "hi there", true)];
    let paths = vec![entry("/opt/go/bin", true), entry("/skip", false), entry("/usr/bin", true)];
    let out = config_with_managed_section("alias ll='ls -l'\n\n\n", ShellKind::Bash, &vars, &paths);
    let expected = "alias ll='ls -l'\n\n\
        # === Podman TUI Managed ===\n\
        # DO NOT EDIT MANUALLY - Changes will be overwritten\n\
        \n\
        # PATH entries (managed by Podman TUI)\n\
        export PATH=\"/opt/go/bin:/usr/bin\"\n\
        \n\
        # Environment variables (managed by Podman TUI)\n\
        export EDITOR=vim\n\
        export GREETING=\"hi there\"\n\
        \n\
        # === End Podman TUI Managed ===";
    assert_eq!(out, expected);
    // Saving again replaces the section rather than adding one.
    let again = config_with_managed_section(&out, ShellKind::Bash, &vars, &paths);
    assert_eq!(again, expected);
}

#[test]
fn saved_config_fish_and_empty() {
    let vars = vec![var("EDITOR", "nvim", true)];
    let paths = vec![entry("/opt/go/bin", true), entry("/usr/bin", true)];
    let out = config_with_managed_section("", ShellKind::Fish, &vars, &paths);
    let expected = "# === Podman TUI Managed ===\n\
        # DO NOT EDIT MANUALLY - Changes will be overwritten\n\
        \n\
        # PATH entries (managed by Podman TUI)\n\
        fish_add_path /opt/go/bin\n\
        fish_add_path /usr/bin\n\
        \n\
        # Environment variables (managed by Podman TUI)\n\
        set -gx EDITOR nvim\n\
        \n\
        # === End Podman TUI Managed ===";
    assert_eq!(out, expected);
    let none = config_with_managed_section("", ShellKind::Zsh, &[], &[entry("/x", false)]);
    assert_eq!(
        none,
        "# === Podman TUI Managed ===\n# DO NOT EDIT MANUALLY - Changes will be overwritten\n\n# PATH entries (managed by Podman TUI)\n\n# === End Podman TUI Managed ==="
    );
}

#[test]
fn saved_config_reads_back() {
    let vars = vec![var("EDITOR", "vim", true), var("GREETING", "hi there", true)];
    let paths = vec![entry("/opt/go/bin", true), entry("/usr/bin", true)];
    let out = config_with_managed_section("", ShellKind::Bash, &vars, &paths);
    let (v2, p2) = parse_shell_config(ShellKind::Bash, &out);
    assert_eq!(v2, vars);
    assert_eq!(p2, paths);
}

#[test]
fn host_shell_names() {
    assert_eq!(shell_from_comm("zsh\n"), Some(ShellKind::Zsh));
    assert_eq!(shell_from_comm("fish"), Some(ShellKind::Fish));
    assert_eq!(shell_from_comm("bash"), Some(ShellKind::Bash));
    assert_eq!(shell_from_comm("podman-tui"), None);
    assert_eq!(shell_from_login_name("-zsh\n"), Some(ShellKind::Zsh));
    assert_eq!(shell_from_login_name("/usr/bin/fish"), Some(ShellKind::Fish));
    assert_eq!(shell_from_login_name("--bash"), Some(ShellKind::Bash));
    assert_eq!(shell_from_login_name("sh"), None);
}

#[test]
fn saved_fish_config_reads_back_enabled_only() {
    let vars = vec![var("EDITOR", "nvim", true), var("OFF", "1", false), var("PAGER", "less", true)];
    let paths = vec![entry("/opt/go/bin", true), entry("/skip", false), entry("/home/u/.local/bin", true)];
    let out = config_with_managed_section("set -x FOO bar\n", ShellKind::Fish, &vars, &paths);
    let (v2, p2) = parse_shell_config(ShellKind::Fish, &out);
    assert_eq!(v2, vec![var("EDITOR", "nvim", true), var("PAGER", "less", true)]);
    assert_eq!(p2, vec![entry("/opt/go/bin", true), entry("/home/u/.local/bin", true)]);
}

#[test]
fn saving_twice_keeps_user_lines_and_one_section() {
    let vars = vec![var("EDITOR", "vim", true)];
    let paths = vec![entry("/opt/go/bin", true)];
    let existing = "alias a=b\n# === Podman TUI Managed ===\nexport OLD=1\n# === End Podman TUI Managed ===\nalias c=d  \n\n";
    let once = config_with_managed_section(existing, ShellKind::Zsh, &vars, &paths);
    let twice = config_with_managed_section(&once, ShellKind::Zsh, &vars, &paths);
    assert_eq!(twice, once);
    assert!(once.starts_with("alias a=b\nalias c=d\n\n# === Podman TUI Managed ===\n"));
    assert_eq!(once.matches("# === Podman TUI Managed ===").count(), 1);
    // Only whitespace kept: the first save writes a blank line first, the second does not.
    let spaces = config_with_managed_section("  ", ShellKind::Zsh, &vars, &paths);
    assert!(spaces.starts_with("\n\n# === Podman TUI Managed ==="));
    let again = config_with_managed_section(&spaces, ShellKind::Zsh, &vars, &paths);
    assert!(again.starts_with("# === Podman TUI Managed ==="));
}

#[test]
fn saved_config_reads_back_after_user_lines() {
    let vars = vec![var("EDITOR", "vim", true), var("OFF", "1", false)];
    let paths = vec![entry("/opt/go/bin", true)];
    let existing = "export FOO=bar\r\nalias x=y\n# === Podman TUI Managed ===\nexport OLD=1\n# === End Podman TUI Managed ===\nPATH=\"/srv/bin:$PATH\"\n";
    let out = config_with_managed_section(existing, ShellKind::Bash, &vars, &paths);
    let (v2, p2) = parse_shell_config(ShellKind::Bash, &out);
    assert_eq!(v2, vec![var("FOO", "bar", true), var("EDITOR", "vim", true)]);
    assert_eq!(p2, vec![entry("/srv/bin", true), entry("/opt/go/bin", true)]);
}

#[test]
fn parsing_joined_texts_concatenates() {
    let a = "export A=1\r\nfish_add_path /x\nexport PATH=/opt/bin:$PATH";
    let b = "export B=2\n";
    let (va, pa) = parse_shell_config(ShellKind::Bash, a);
    let (vb, pb) = parse_shell_config(ShellKind::Bash, b);
    let (v, p) = parse_shell_config(ShellKind::Bash, &format!("{}\n{}", a, b));
    assert_eq!(v, [va, vb].concat());
    assert_eq!(p, [pa, pb].concat());
    assert_eq!(parse_shell_config(ShellKind::Zsh, a), parse_shell_config(ShellKind::Bash, a));
}

#[test]
fn disabled_variable_line_sets_nothing() {
    for shell in [ShellKind::Bash, ShellKind::Zsh, ShellKind::Fish] {
        let line = format_env_var(shell, &var("EDITOR", "vim  ", false));
        assert!(line.starts_with("# "));
        let (v, p) = parse_shell_config(shell, &line);
        assert!(v.is_empty() && p.is_empty());
    }
}

#[test]
fn parsed_entries_are_enabled_with_paths() {
    let (v, p) = parse_shell_config(ShellKind::Fish, "set -gx PATH /a  /b\nfish_add_path  /c \nset -gx X y\n");
    assert!(v.iter().all(|e| e.enabled));
    assert_eq!(p.len(), 3);
    assert!(p.iter().all(|e| e.enabled && !e.path.is_empty() && e.label == guess_path_label(&e.path)));
}

#[test]
fn removing_the_written_section_leaves_nothing() {
    let vars = vec![var("EDITOR", "vim", true), var("OFF", "1", false)];
    let paths = vec![entry("/opt/go/bin", true)];
    for shell in [ShellKind::Bash, ShellKind::Fish] {
        let section = config_with_managed_section("", shell, &vars, &paths);
        assert_eq!(remove_managed_section(&section), "");
    }
}
