//! Opening terminals: which terminal emulator to use, and the command line that
//! opens a shell inside a container.
use vstd::prelude::*;
use crate::text;

verus! {

/// A state already in lower case is `running`.
pub open spec fn running_lowercase_spec(l: Seq<char>) -> bool {
    l == "running"@
}

/// A state reported by podman is "running", whatever its case.
pub open spec fn running_spec(state: Seq<char>) -> bool {
    running_lowercase_spec(text::lowercase(state))
}

/// Whether a state already in lower case is `running`.
pub fn running_lowercase(l: &str) -> (r: bool)
    ensures
        r == running_lowercase_spec(l@),
{
    let c = text::to_chars(l);
    text::eq_str(&c, "running")
}

/// Whether a container's state, compared without case, is `running`.
pub fn is_running(state: &str) -> (r: bool)
    ensures
        r == running_spec(state@),
{
    let l = text::to_lowercase(state);
    running_lowercase(l.as_str())
}

/// The user a shell in a container runs as: `root`, or the user with id 1000.
pub open spec fn exec_user_spec(as_root: bool) -> Seq<char> {
    if as_root {
        "root"@
    } else {
        "1000"@
    }
}

/// The shells looked for, in order, when a container is entered as root.
pub open spec fn root_shells_spec() -> Seq<Seq<char>> {
    seq!["/usr/bin/fish"@, "/bin/zsh"@, "/bin/bash"@, "/usr/bin/zsh"@]
}

/// The shells looked for, in order, when a container is entered as root.
pub fn root_shell_candidates() -> (r: Vec<&'static str>)
    ensures
        r@.map_values(|s: &'static str| s@) == root_shells_spec(),
{
    let mut v: Vec<&'static str> = Vec::new();
    v.push("/usr/bin/fish");
    v.push("/bin/zsh");
    v.push("/bin/bash");
    v.push("/usr/bin/zsh");
    assert(v@.map_values(|s: &'static str| s@) =~= root_shells_spec());
    v
}

/// The shell used where none of the candidates is found, and for other users.
pub fn default_shell() -> (r: &'static str)
    ensures
        r@ == "/bin/bash"@,
{
    "/bin/bash"
}

/// The contents of a sequence of strings.
pub open spec fn string_views(v: Seq<String>) -> Seq<Seq<char>> {
    v.map_values(|s: String| s@)
}

/// The arguments handed to the terminal to enter container `name` running
/// `shell`: the terminal's own arguments, then
/// `podman exec -it -u USER -w /workspace NAME SHELL -l`.
pub open spec fn exec_args_spec(
    term_args: Seq<Seq<char>>,
    name: Seq<char>,
    as_root: bool,
    shell: Seq<char>,
) -> Seq<Seq<char>> {
    term_args + seq![
        "podman"@,
        "exec"@,
        "-it"@,
        "-u"@,
        exec_user_spec(as_root),
        "-w"@,
        "/workspace"@,
        name,
        shell,
        "-l"@,
    ]
}

fn push_str(v: &mut Vec<String>, s: &str)
    ensures
        string_views(final(v)@) == string_views(old(v)@).push(s@),
{
    v.push(String::from_str(s));
    assert(string_views(v@) =~= string_views(old(v)@).push(s@));
}

/// The arguments handed to the terminal to enter a container (see `exec_args_spec`).
pub fn exec_command_args(term_args: &Vec<String>, name: &str, as_root: bool, shell: &str) -> (r:
    Vec<String>)
    ensures
        string_views(r@) == exec_args_spec(string_views(term_args@), name@, as_root, shell@),
{
    let mut v: Vec<String> = Vec::new();
    let mut i: usize = 0;
    while i < term_args.len()
        invariant
            i <= term_args.len(),
            string_views(v@) == string_views(term_args@).take(i as int),
        decreases term_args.len() - i,
    {
        let ghost before = string_views(v@);
        let a = term_args[i].clone();
        v.push(a);
        assert(string_views(v@) =~= before.push(term_args@[i as int]@));
        assert(string_views(term_args@).take(i + 1) =~= string_views(term_args@).take(i as int).push(term_args@[i as int]@));
        i = i + 1;
    }
    assert(string_views(term_args@).take(i as int) =~= string_views(term_args@));
    push_str(&mut v, "podman");
    push_str(&mut v, "exec");
    push_str(&mut v, "-it");
    push_str(&mut v, "-u");
    push_str(&mut v, if as_root {
        "root"
    } else {
        "1000"
    });
    push_str(&mut v, "-w");
    push_str(&mut v, "/workspace");
    push_str(&mut v, name);
    push_str(&mut v, shell);
    push_str(&mut v, "-l");
    assert(string_views(v@) =~= exec_args_spec(string_views(term_args@), name@, as_root, shell@));
    v
}

/// The status shown after a shell was opened in a container: whether it had to
/// be started first.
pub open spec fn exec_message_spec(name: Seq<char>, was_running: bool) -> Seq<char> {
    if was_running {
        "Opened: "@ + name
    } else {
        "Started and opened: "@ + name
    }
}

/// The status shown after a shell was opened in a container.
pub fn exec_message(name: &str, was_running: bool) -> (r: String)
    ensures
        r@ == exec_message_spec(name@, was_running),
{
    let mut s = if was_running {
        String::from_str("Opened: ")
    } else {
        String::from_str("Started and opened: ")
    };
    s.append(name);
    s
}

/// The terminal's arguments for opening a plain terminal: those that only serve
/// to run a command (`-e`, `--`) left out.
pub open spec fn open_args_spec(args: Seq<Seq<char>>) -> Seq<Seq<char>>
    decreases args.len(),
{
    if args.len() == 0 {
        Seq::empty()
    } else {
        open_args_spec(args.drop_last()) + (if args.last() != "-e"@ && args.last() != "--"@ {
            seq![args.last()]
        } else {
            Seq::empty()
        })
    }
}

/// The terminal's arguments for opening a plain terminal (see `open_args_spec`).
pub fn terminal_open_args(args: &Vec<String>) -> (r: Vec<String>)
    ensures
        string_views(r@) == open_args_spec(string_views(args@)),
{
    let mut v: Vec<String> = Vec::new();
    let mut i: usize = 0;
    while i < args.len()
        invariant
            i <= args.len(),
            string_views(v@) == open_args_spec(string_views(args@).take(i as int)),
        decreases args.len() - i,
    {
        assert(string_views(args@).take(i + 1).drop_last() =~= string_views(args@).take(i as int));
        let c = text::string_chars(&args[i]);
        let ghost before = string_views(v@);
        if !text::eq_str(&c, "-e") && !text::eq_str(&c, "--") {
            v.push(args[i].clone());
            assert(string_views(v@) =~= before + seq![args@[i as int]@]);
        } else {
            assert(string_views(v@) =~= before + Seq::<Seq<char>>::empty());
        }
        i = i + 1;
    }
    assert(string_views(args@).take(i as int) =~= string_views(args@));
    v
}

/// What `$TERM_PROGRAM` says of the terminal to use.
#[derive(Debug, Clone, PartialEq)]
pub enum ProgramTerminal {
    /// This terminal, with these arguments before the command.
    Use(String, Vec<String>),
    /// No terminal is to be opened from here.
    Unsupported,
    /// Use the program itself, with `-e`, if it can be run.
    Probe,
}

/// What a `$TERM_PROGRAM` already in lower case says of the terminal to use:
/// macOS Terminal and iTerm are opened through `open`, ghostty and wezterm
/// directly, VS Code's terminal is not supported, and any other program is
/// probed.
pub open spec fn program_terminal_lowercase_spec(l: Seq<char>) -> (Option<(Seq<char>, Seq<Seq<char>>)>, bool) {
    if l == "apple_terminal"@ {
        (Some(("open"@, Seq::empty())), false)
    } else if l == "iterm.app"@ {
        (Some(("open"@, seq!["-a"@, "iTerm"@])), false)
    } else if l == "ghostty"@ {
        (Some(("ghostty"@, seq!["-e"@])), false)
    } else if l == "vscode"@ {
        (None, false)
    } else if l == "wezterm"@ {
        (Some(("wezterm"@, seq!["start"@, "--"@])), false)
    } else {
        (None, true)
    }
}

/// What `$TERM_PROGRAM` says of the terminal to use, compared without case
/// (see `program_terminal_lowercase_spec`).
pub open spec fn program_terminal_spec(term_program: Seq<char>) -> (Option<(Seq<char>, Seq<Seq<char>>)>, bool) {
    program_terminal_lowercase_spec(text::lowercase(term_program))
}

/// The meaning of a `ProgramTerminal`: a terminal to use, and whether to probe.
pub open spec fn program_terminal_view(t: ProgramTerminal) -> (Option<(Seq<char>, Seq<Seq<char>>)>, bool) {
    match t {
        ProgramTerminal::Use(term, args) => (Some((term@, string_views(args@))), false),
        ProgramTerminal::Unsupported => (None, false),
        ProgramTerminal::Probe => (None, true),
    }
}

fn strings2(a: &str, b: &str) -> (r: Vec<String>)
    ensures
        string_views(r@) == seq![a@, b@],
{
    let mut v: Vec<String> = Vec::new();
    push_str(&mut v, a);
    push_str(&mut v, b);
    assert(string_views(v@) =~= seq![a@, b@]);
    v
}

/// What a `$TERM_PROGRAM` already in lower case says of the terminal to use
/// (see `program_terminal_lowercase_spec`).
pub fn terminal_for_lowercase_program(l: &str) -> (r: ProgramTerminal)
    ensures
        program_terminal_view(r) == program_terminal_lowercase_spec(l@),
{
    let c = text::to_chars(l);
    if text::eq_str(&c, "apple_terminal") {
        let v: Vec<String> = Vec::new();
        assert(string_views(v@) =~= Seq::<Seq<char>>::empty());
        ProgramTerminal::Use(String::from_str("open"), v)
    } else if text::eq_str(&c, "iterm.app") {
        ProgramTerminal::Use(String::from_str("open"), strings2("-a", "iTerm"))
    } else if text::eq_str(&c, "ghostty") {
        let mut v: Vec<String> = Vec::new();
        push_str(&mut v, "-e");
        assert(string_views(v@) =~= seq!["-e"@]);
        ProgramTerminal::Use(String::from_str("ghostty"), v)
    } else if text::eq_str(&c, "vscode") {
        ProgramTerminal::Unsupported
    } else if text::eq_str(&c, "wezterm") {
        ProgramTerminal::Use(String::from_str("wezterm"), strings2("start", "--"))
    } else {
        ProgramTerminal::Probe
    }
}

/// What `$TERM_PROGRAM` says of the terminal to use (see `program_terminal_spec`).
pub fn terminal_for_program(term_program: &str) -> (r: ProgramTerminal)
    ensures
        program_terminal_view(r) == program_terminal_spec(term_program@),
{
    let l = text::to_lowercase(term_program);
    terminal_for_lowercase_program(l.as_str())
}

/// Inside tmux (a `$TERM` that mentions it), a new pane is split off.
pub open spec fn tmux_terminal_spec(term: Seq<char>) -> Option<(Seq<char>, Seq<Seq<char>>)> {
    if text::contains(term, "tmux"@) {
        Some(("tmux"@, seq!["split-window"@, "-h"@]))
    } else {
        None
    }
}

/// The terminal to use inside tmux, given `$TERM`.
pub fn terminal_for_term(term: &str) -> (r: Option<(String, Vec<String>)>)
    ensures
        match r {
            Some((t, a)) => tmux_terminal_spec(term@) == Some((t@, string_views(a@))),
            None => tmux_terminal_spec(term@) is None,
        },
{
    let c = text::to_chars(term);
    if text::contains_str(&c, "tmux") {
        Some((String::from_str("tmux"), strings2("split-window", "-h")))
    } else {
        None
    }
}

/// A terminal emulator to try, and the arguments that precede the command.
pub struct TerminalCandidate {
    pub name: &'static str,
    pub args: Vec<&'static str>,
}

/// The contents of a terminal candidate.
pub open spec fn candidate_view(c: TerminalCandidate) -> (Seq<char>, Seq<Seq<char>>) {
    (c.name@, c.args@.map_values(|s: &'static str| s@))
}

fn candidate(name: &'static str, args: Vec<&'static str>) -> (r: TerminalCandidate)
    ensures
        r.name == name,
        r.args@ == args@,
{
    TerminalCandidate { name, args }
}

/// The terminal emulators looked for on the host, in order.
pub open spec fn host_terminals_spec() -> Seq<(Seq<char>, Seq<Seq<char>>)> {
    seq![
        ("ghostty"@, seq!["-e"@]),
        ("alacritty"@, seq!["-e"@]),
        ("kitty"@, Seq::empty()),
        ("wezterm"@, seq!["start"@, "--"@]),
        ("konsole"@, seq!["-e"@]),
        ("gnome-terminal"@, seq!["--"@]),
        ("xterm"@, seq!["-e"@]),
    ]
}

/// The terminal emulators tried when the host's terminal is not known, in order.
pub open spec fn fallback_terminals_spec() -> Seq<(Seq<char>, Seq<Seq<char>>)> {
    seq![
        ("ghostty"@, seq!["-e"@]),
        ("alacritty"@, seq!["-e"@]),
        ("kitty"@, Seq::empty()),
        ("konsole"@, seq!["-e"@]),
        ("xterm"@, seq!["-e"@]),
    ]
}

fn args0() -> (r: Vec<&'static str>)
    ensures
        r@.map_values(|s: &'static str| s@) == Seq::<Seq<char>>::empty(),
{
    let v: Vec<&'static str> = Vec::new();
    assert(v@.map_values(|s: &'static str| s@) =~= Seq::<Seq<char>>::empty());
    v
}

fn args1(a: &'static str) -> (r: Vec<&'static str>)
    ensures
        r@.map_values(|s: &'static str| s@) == seq![a@],
{
    let mut v: Vec<&'static str> = Vec::new();
    v.push(a);
    assert(v@.map_values(|s: &'static str| s@) =~= seq![a@]);
    v
}

fn args2(a: &'static str, b: &'static str) -> (r: Vec<&'static str>)
    ensures
        r@.map_values(|s: &'static str| s@) == seq![a@, b@],
{
    let mut v: Vec<&'static str> = Vec::new();
    v.push(a);
    v.push(b);
    assert(v@.map_values(|s: &'static str| s@) =~= seq![a@, b@]);
    v
}

fn push_candidate(v: &mut Vec<TerminalCandidate>, c: TerminalCandidate)
    ensures
        final(v)@.map_values(|c: TerminalCandidate| candidate_view(c)) == old(v)@.map_values(
            |c: TerminalCandidate| candidate_view(c),
        ).push(candidate_view(c)),
{
    v.push(c);
    assert(v@.map_values(|c: TerminalCandidate| candidate_view(c)) =~= old(v)@.map_values(
        |c: TerminalCandidate| candidate_view(c),
    ).push(candidate_view(c)));
}

/// The terminal emulators looked for on the host, in order.
pub fn host_terminal_candidates() -> (r: Vec<TerminalCandidate>)
    ensures
        r@.map_values(|c: TerminalCandidate| candidate_view(c)) == host_terminals_spec(),
{
    let mut v: Vec<TerminalCandidate> = Vec::new();
    push_candidate(&mut v, candidate("ghostty", args1("-e")));
    push_candidate(&mut v, candidate("alacritty", args1("-e")));
    push_candidate(&mut v, candidate("kitty", args0()));
    push_candidate(&mut v, candidate("wezterm", args2("start", "--")));
    push_candidate(&mut v, candidate("konsole", args1("-e")));
    push_candidate(&mut v, candidate("gnome-terminal", args1("--")));
    push_candidate(&mut v, candidate("xterm", args1("-e")));
    assert(v@.map_values(|c: TerminalCandidate| candidate_view(c)) =~= host_terminals_spec());
    v
}

/// The terminal emulators tried when the host's terminal is not known, in order.
pub fn fallback_terminal_candidates() -> (r: Vec<TerminalCandidate>)
    ensures
        r@.map_values(|c: TerminalCandidate| candidate_view(c)) == fallback_terminals_spec(),
{
    let mut v: Vec<TerminalCandidate> = Vec::new();
    push_candidate(&mut v, candidate("ghostty", args1("-e")));
    push_candidate(&mut v, candidate("alacritty", args1("-e")));
    push_candidate(&mut v, candidate("kitty", args0()));
    push_candidate(&mut v, candidate("konsole", args1("-e")));
    push_candidate(&mut v, candidate("xterm", args1("-e")));
    assert(v@.map_values(|c: TerminalCandidate| candidate_view(c)) =~= fallback_terminals_spec());
    v
}

/// The shell to open in a container, or the root shell candidate whose
/// presence in the container is to be checked next.
#[derive(Debug, Clone, Copy, PartialEq, Eq)]
pub enum ShellPick {
    /// Open this shell.
    Use(&'static str),
    /// Check whether the candidate at this place of `root_shell_candidates` exists.
    Check(usize),
}

/// The contents of a shell pick.
pub enum ShellPickModel {
    Use(Seq<char>),
    Check(usize),
}

/// The contents of a shell pick.
pub open spec fn shell_pick_view(p: ShellPick) -> ShellPickModel {
    match p {
        ShellPick::Use(s) => ShellPickModel::Use(s@),
        ShellPick::Check(i) => ShellPickModel::Check(i),
    }
}

/// The first step in choosing the shell: as root the candidates are checked in
/// order, else `/bin/bash` is opened.
pub fn first_shell_pick(as_root: bool) -> (r: ShellPick)
    ensures
        shell_pick_view(r) == (if as_root {
            ShellPickModel::Check(0)
        } else {
            ShellPickModel::Use("/bin/bash"@)
        }),
{
    if as_root {
        ShellPick::Check(0)
    } else {
        ShellPick::Use(default_shell())
    }
}

/// The step after checking the candidate at `i`: it is opened when it exists,
/// else the next one is checked; after the last, `/bin/bash` is opened.
pub open spec fn next_shell_pick_spec(i: usize, exists: bool) -> ShellPickModel {
    let cands = root_shells_spec();
    if exists && i < cands.len() {
        ShellPickModel::Use(cands[i as int])
    } else if i + 1 < cands.len() {
        ShellPickModel::Check((i + 1) as usize)
    } else {
        ShellPickModel::Use("/bin/bash"@)
    }
}

/// The step after checking whether the candidate at `i` exists.
pub fn next_shell_pick(i: usize, exists: bool) -> (r: ShellPick)
    ensures
        shell_pick_view(r) == next_shell_pick_spec(i, exists),
{
    let cands = root_shell_candidates();
    proof {
        reveal_strlit("/usr/bin/fish");
    }
    assert(root_shells_spec().len() == 4);
    if exists && i < cands.len() {
        assert(cands@.map_values(|s: &'static str| s@)[i as int] == cands@[i as int]@);
        ShellPick::Use(cands[i])
    } else if i < 3 {
        ShellPick::Check(i + 1)
    } else {
        ShellPick::Use(default_shell())
    }
}

/// Law: choosing the shell ends: each check moves to a later candidate or
/// settles on a shell, so at most four checks are made.
pub proof fn lemma_shell_pick_ends(i: usize, exists: bool)
    ensures
        next_shell_pick_spec(i, exists) matches ShellPickModel::Check(j) ==> i < j < 4,
{
}

/// Law: the command line starts with every one of the terminal's own arguments,
/// in order, and then holds exactly the ten words of `podman exec`: the user
/// (`root`, or `1000`), the working directory `/workspace`, the container's
/// name, the shell, and `-l` for a login shell.
pub proof fn lemma_exec_args_layout(
    term_args: Seq<Seq<char>>,
    name: Seq<char>,
    as_root: bool,
    shell: Seq<char>,
)
    ensures
        ({
            let r = exec_args_spec(term_args, name, as_root, shell);
            let n = term_args.len() as int;
            &&& r.len() == term_args.len() + 10
            &&& r.take(n) == term_args
            &&& forall|i: int| 0 <= i < n ==> r[i] == term_args[i]
            &&& r[n] == "podman"@
            &&& r[n + 1] == "exec"@
            &&& r[n + 2] == "-it"@
            &&& r[n + 3] == "-u"@
            &&& (as_root ==> r[n + 4] == "root"@)
            &&& (!as_root ==> r[n + 4] == "1000"@)
            &&& r[n + 5] == "-w"@
            &&& r[n + 6] == "/workspace"@
            &&& r[n + 7] == name
            &&& r[n + 8] == shell
            &&& r[n + 9] == "-l"@
        }),
{
    let r = exec_args_spec(term_args, name, as_root, shell);
    let n = term_args.len() as int;
    assert(r.take(n) =~= term_args);
}

/// Law: the arguments for a plain terminal are the terminal's arguments, in
/// their order, with every `-e` and `--` left out and nothing else.
pub proof fn lemma_open_args_filter(args: Seq<Seq<char>>)
    ensures
        open_args_spec(args) == args.filter(|a: Seq<char>| a != "-e"@ && a != "--"@),
    decreases args.len(),
{
    reveal(Seq::filter);
    if args.len() > 0 {
        lemma_open_args_filter(args.drop_last());
        let sub = open_args_spec(args.drop_last());
        if args.last() != "-e"@ && args.last() != "--"@ {
            assert(sub + seq![args.last()] =~= sub.push(args.last()));
        } else {
            assert(sub + Seq::<Seq<char>>::empty() =~= sub);
        }
    }
}

} // verus!
