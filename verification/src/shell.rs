//! Shell configuration: the shells that are managed, how their configuration
//! files are read into environment variables and PATH entries, and how a managed
//! section is written back.
use vstd::prelude::*;
use crate::text;

verus! {

// ─── Shell kinds ──────────────────────────────────────────────────────────────

/// A shell whose configuration file can be managed.
#[derive(Debug, Clone, Copy, PartialEq, Eq, Structural)]
pub enum ShellKind {
    Bash,
    Zsh,
    Fish,
}

/// The name by which a shell is shown and found on the system.
pub open spec fn shell_name_spec(shell: ShellKind) -> Seq<char> {
    match shell {
        ShellKind::Bash => "bash"@,
        ShellKind::Zsh => "zsh"@,
        ShellKind::Fish => "fish"@,
    }
}

/// The name of a shell: `bash`, `zsh` or `fish`.
pub fn shell_name(shell: ShellKind) -> (r: &'static str)
    ensures
        r@ == shell_name_spec(shell),
{
    match shell {
        ShellKind::Bash => "bash",
        ShellKind::Zsh => "zsh",
        ShellKind::Fish => "fish",
    }
}

// ─── Environment variables and PATH entries ──────────────────────────────────

/// An environment variable set in a shell configuration.
#[derive(Debug, Clone, PartialEq)]
pub struct EnvVar {
    pub name: String,
    pub value: String,
    pub enabled: bool,
}

/// An entry of the PATH.
#[derive(Debug, Clone, PartialEq)]
pub struct PathEntry {
    pub path: String,
    pub enabled: bool,
    /// Human-friendly label (optional)
    pub label: Option<String>,
}

/// The contents of an environment variable.
pub struct EnvVarModel {
    pub name: Seq<char>,
    pub value: Seq<char>,
    pub enabled: bool,
}

/// The contents of a PATH entry.
pub struct PathEntryModel {
    pub path: Seq<char>,
    pub enabled: bool,
    pub label: Option<Seq<char>>,
}

/// The characters of an optional string.
pub open spec fn opt_view(o: Option<String>) -> Option<Seq<char>> {
    match o {
        Some(s) => Some(s@),
        None => None,
    }
}

impl View for EnvVar {
    type V = EnvVarModel;

    open spec fn view(&self) -> EnvVarModel {
        EnvVarModel { name: self.name@, value: self.value@, enabled: self.enabled }
    }
}

impl View for PathEntry {
    type V = PathEntryModel;

    open spec fn view(&self) -> PathEntryModel {
        PathEntryModel { path: self.path@, enabled: self.enabled, label: opt_view(self.label) }
    }
}

/// The contents of a sequence of environment variables.
pub open spec fn env_views(v: Seq<EnvVar>) -> Seq<EnvVarModel> {
    v.map_values(|e: EnvVar| e@)
}

/// The contents of a sequence of PATH entries.
pub open spec fn path_views(v: Seq<PathEntry>) -> Seq<PathEntryModel> {
    v.map_values(|e: PathEntry| e@)
}

/// A shell's configuration as loaded from its file.
#[derive(Debug, Clone)]
pub struct ShellConfig {
    pub shell: ShellKind,
    pub config_path: String,
    pub env_vars: Vec<EnvVar>,
    pub path_entries: Vec<PathEntry>,
}

// ─── Shell detection ──────────────────────────────────────────────────────────

/// The shell named by the last component of a shell's path.
pub open spec fn shell_kind_of(shell_path: Seq<char>) -> ShellKind {
    let base = text::split_char(shell_path, '/').last();
    if base == "zsh"@ {
        ShellKind::Zsh
    } else if base == "fish"@ {
        ShellKind::Fish
    } else {
        ShellKind::Bash
    }
}

/// The shell named by a path such as `/usr/bin/zsh`; anything but `zsh` or
/// `fish` is taken for bash.
pub fn detect_shell_kind(shell_path: &str) -> (r: ShellKind)
    ensures
        r == shell_kind_of(shell_path@),
{
    let v = text::to_chars(shell_path);
    let parts = text::split_char_chars(&v, '/');
    proof {
        text::lemma_split_from_nonempty(v@, '/', Seq::empty());
    }
    let last = &parts[parts.len() - 1];
    assert(last@ == text::split_char(v@, '/').last());
    if text::eq_str(last, "zsh") {
        ShellKind::Zsh
    } else if text::eq_str(last, "fish") {
        ShellKind::Fish
    } else {
        ShellKind::Bash
    }
}

/// The configuration file of a shell, relative to the home directory.
pub open spec fn config_filename_spec(shell: ShellKind) -> Seq<char> {
    match shell {
        ShellKind::Bash => ".bashrc"@,
        ShellKind::Zsh => ".zshrc"@,
        ShellKind::Fish => ".config/fish/config.fish"@,
    }
}

/// The configuration file of a shell, relative to the home directory.
pub fn shell_config_filename(shell: ShellKind) -> (r: &'static str)
    ensures
        r@ == config_filename_spec(shell),
{
    match shell {
        ShellKind::Bash => ".bashrc",
        ShellKind::Zsh => ".zshrc",
        ShellKind::Fish => ".config/fish/config.fish",
    }
}

/// The text that starts a variable assignment in a shell, and the one that ends it.
pub fn shell_export_syntax(shell: ShellKind) -> (r: (&'static str, &'static str))
    ensures
        r.0@ == (if shell == ShellKind::Fish {
            "set -gx "@
        } else {
            "export "@
        }),
        r.1@ == ""@,
{
    match shell {
        ShellKind::Fish => ("set -gx ", ""),
        _ => ("export ", ""),
    }
}

/// The shell named by the contents of `/proc/<pid>/comm`, if it is one of the three.
pub open spec fn shell_of_comm(comm: Seq<char>) -> Option<ShellKind> {
    let name = text::trim(comm);
    if name == "zsh"@ {
        Some(ShellKind::Zsh)
    } else if name == "fish"@ {
        Some(ShellKind::Fish)
    } else if name == "bash"@ {
        Some(ShellKind::Bash)
    } else {
        None
    }
}

/// The shell named by a process name read from `/proc/<pid>/comm`.
pub fn shell_from_comm(comm: &str) -> (r: Option<ShellKind>)
    ensures
        r == shell_of_comm(comm@),
{
    let v = text::to_chars(comm);
    let name = text::trim_chars(&v);
    if text::eq_str(&name, "zsh") {
        Some(ShellKind::Zsh)
    } else if text::eq_str(&name, "fish") {
        Some(ShellKind::Fish)
    } else if text::eq_str(&name, "bash") {
        Some(ShellKind::Bash)
    } else {
        None
    }
}

/// The shell named in the output of `echo $0`; a login shell's leading `-` is ignored.
pub open spec fn shell_of_login_name(output: Seq<char>) -> Option<ShellKind> {
    let name = text::trim_start_char(text::trim(output), '-');
    if text::contains(name, "zsh"@) {
        Some(ShellKind::Zsh)
    } else if text::contains(name, "fish"@) {
        Some(ShellKind::Fish)
    } else if text::contains(name, "bash"@) {
        Some(ShellKind::Bash)
    } else {
        None
    }
}

/// The shell named in the output of `echo $0`.
pub fn shell_from_login_name(output: &str) -> (r: Option<ShellKind>)
    ensures
        r == shell_of_login_name(output@),
{
    let v = text::to_chars(output);
    let t = text::trim_chars(&v);
    let name = text::trim_start_char_chars(&t, '-');
    if text::contains_str(&name, "zsh") {
        Some(ShellKind::Zsh)
    } else if text::contains_str(&name, "fish") {
        Some(ShellKind::Fish)
    } else if text::contains_str(&name, "bash") {
        Some(ShellKind::Bash)
    } else {
        None
    }
}

/// The shells that are looked for on the host, in the order of preference.
pub open spec fn shell_candidates_spec() -> Seq<ShellKind> {
    seq![ShellKind::Fish, ShellKind::Zsh, ShellKind::Bash]
}

/// The shells that are looked for on the host, in the order of preference.
pub fn shell_candidates() -> (r: Vec<ShellKind>)
    ensures
        r@ == shell_candidates_spec(),
{
    let mut r: Vec<ShellKind> = Vec::new();
    r.push(ShellKind::Fish);
    r.push(ShellKind::Zsh);
    r.push(ShellKind::Bash);
    assert(r@ =~= shell_candidates_spec());
    r
}

// ─── PATH labels ──────────────────────────────────────────────────────────────

/// What a PATH entry is probably for.
pub open spec fn path_label(p: Seq<char>) -> Option<Seq<char>> {
    if text::contains(p, "go"@) || text::contains(p, "golang"@) {
        Some("Go"@)
    } else if text::contains(p, "node"@) || text::contains(p, "npm"@) || text::contains(p, "nvm"@) {
        Some("Node.js"@)
    } else if text::contains(p, "python"@) || text::contains(p, "pyenv"@) {
        Some("Python"@)
    } else if text::contains(p, "rust"@) || text::contains(p, "cargo"@) || text::contains(p, ".cargo"@) {
        Some("Rust/Cargo"@)
    } else if text::contains(p, "bun"@) {
        Some("Bun"@)
    } else if text::contains(p, "pnpm"@) {
        Some("pnpm"@)
    } else if text::contains(p, "yarn"@) {
        Some("Yarn"@)
    } else if text::contains(p, "docker"@) || text::contains(p, "podman"@) {
        Some("Container Tools"@)
    } else if p == "/usr/local/bin"@ || p == "/usr/bin"@ || p == "/bin"@ || p == "/usr/sbin"@ || p
        == "/sbin"@ {
        Some("System"@)
    } else if text::contains(p, "homebrew"@) || text::contains(p, "Homebrew"@) {
        Some("Homebrew"@)
    } else {
        None
    }
}

fn some_label(lit: &str) -> (r: Option<String>)
    ensures
        opt_view(r) == Some(lit@),
{
    Some(String::from_str(lit))
}

/// What a PATH entry, given by its characters, is probably for.
pub fn path_label_of(p: &Vec<char>) -> (r: Option<String>)
    ensures
        opt_view(r) == path_label(p@),
{
    if text::contains_str(p, "go") || text::contains_str(p, "golang") {
        some_label("Go")
    } else if text::contains_str(p, "node") || text::contains_str(p, "npm") || text::contains_str(p, "nvm") {
        some_label("Node.js")
    } else if text::contains_str(p, "python") || text::contains_str(p, "pyenv") {
        some_label("Python")
    } else if text::contains_str(p, "rust") || text::contains_str(p, "cargo") || text::contains_str(p, ".cargo") {
        some_label("Rust/Cargo")
    } else if text::contains_str(p, "bun") {
        some_label("Bun")
    } else if text::contains_str(p, "pnpm") {
        some_label("pnpm")
    } else if text::contains_str(p, "yarn") {
        some_label("Yarn")
    } else if text::contains_str(p, "docker") || text::contains_str(p, "podman") {
        some_label("Container Tools")
    } else if text::eq_str(p, "/usr/local/bin") || text::eq_str(p, "/usr/bin") || text::eq_str(p, "/bin") || text::eq_str(
        p,
        "/usr/sbin",
    ) || text::eq_str(p, "/sbin") {
        some_label("System")
    } else if text::contains_str(p, "homebrew") || text::contains_str(p, "Homebrew") {
        some_label("Homebrew")
    } else {
        None
    }
}

/// What a PATH entry is probably for: Go, Node.js, Python, Rust/Cargo, Bun, pnpm,
/// Yarn, Container Tools, System or Homebrew, tested in that order; `None` when
/// none applies.
pub fn guess_path_label(path: &str) -> (r: Option<String>)
    ensures
        opt_view(r) == path_label(path@),
{
    let v = text::to_chars(path);
    path_label_of(&v)
}

/// The enabled PATH entry for a path, with its guessed label.
pub open spec fn path_entry_of(p: Seq<char>) -> PathEntryModel {
    PathEntryModel { path: p, enabled: true, label: path_label(p) }
}

fn make_path_entry(p: &Vec<char>) -> (r: PathEntry)
    ensures
        r@ == path_entry_of(p@),
{
    PathEntry { path: text::from_chars(p), enabled: true, label: path_label_of(p) }
}

// ─── Parsing a configuration ─────────────────────────────────────────────────

/// The line that opens the section this program manages.
pub open spec fn managed_begin() -> Seq<char> {
    "# === Podman TUI Managed ==="@
}

/// The line that closes the section this program manages.
pub open spec fn managed_end() -> Seq<char> {
    "# === End Podman TUI Managed ==="@
}

/// `s` trimmed, and without one pair of matching surrounding quotes (`"` or `'`).
pub open spec fn unquote(s: Seq<char>) -> Seq<char> {
    let t = text::trim(s);
    if t.len() >= 2 && ((t[0] == '"' && t.last() == '"') || (t[0] == '\'' && t.last() == '\'')) {
        t.subrange(1, t.len() - 1)
    } else {
        t
    }
}

fn strip_quotes(s: &Vec<char>) -> (r: Vec<char>)
    ensures
        r@ == unquote(s@),
{
    let t = text::trim_chars(s);
    let n = t.len();
    if n >= 2 && ((t[0] == '"' && t[n - 1] == '"') || (t[0] == '\'' && t[n - 1] == '\'')) {
        text::slice_chars(&t, 1, n - 1)
    } else {
        t
    }
}

/// The entries for the non-empty pieces, in order.
pub open spec fn nonempty_entries(ps: Seq<Seq<char>>) -> Seq<PathEntryModel>
    decreases ps.len(),
{
    if ps.len() == 0 {
        Seq::empty()
    } else {
        nonempty_entries(ps.drop_last()) + (if ps.last().len() > 0 {
            seq![path_entry_of(ps.last())]
        } else {
            Seq::empty()
        })
    }
}

/// The entries for the pieces that, trimmed, are neither empty nor a variable
/// reference (`$...`), in order.
pub open spec fn literal_entries(ps: Seq<Seq<char>>) -> Seq<PathEntryModel>
    decreases ps.len(),
{
    if ps.len() == 0 {
        Seq::empty()
    } else {
        let p = text::trim(ps.last());
        literal_entries(ps.drop_last()) + (if p.len() > 0 && p[0] != '$' {
            seq![path_entry_of(p)]
        } else {
            Seq::empty()
        })
    }
}

/// The entries for all the pieces, in order.
pub open spec fn word_entries(ps: Seq<Seq<char>>) -> Seq<PathEntryModel>
    decreases ps.len(),
{
    if ps.len() == 0 {
        Seq::empty()
    } else {
        word_entries(ps.drop_last()) + seq![path_entry_of(ps.last())]
    }
}

/// Nothing found on a line.
pub open spec fn nothing() -> (Seq<EnvVarModel>, Seq<PathEntryModel>) {
    (Seq::empty(), Seq::empty())
}

/// What one line of a fish configuration sets, the line already trimmed.
pub open spec fn parse_fish_line(t: Seq<char>) -> (Seq<EnvVarModel>, Seq<PathEntryModel>) {
    if text::starts_with(t, "set -gx "@) {
        let rest = t.skip("set -gx "@.len() as int);
        match text::find_char(rest, ' ') {
            Some(i) => {
                let name = rest.take(i);
                let value = text::trim(rest.skip(i + 1));
                if name == "PATH"@ || name == "path"@ {
                    (Seq::empty(), word_entries(text::split_ws(value)))
                } else {
                    (seq![EnvVarModel { name, value, enabled: true }], Seq::empty())
                }
            },
            None => nothing(),
        }
    } else if text::starts_with(t, "fish_add_path "@) {
        let p = text::trim(t.skip("fish_add_path "@.len() as int));
        (Seq::empty(), seq![path_entry_of(p)])
    } else {
        nothing()
    }
}

/// What one line of a bash or zsh configuration sets, the line already trimmed.
pub open spec fn parse_posix_line(t: Seq<char>) -> (Seq<EnvVarModel>, Seq<PathEntryModel>) {
    if text::starts_with(t, "export "@) {
        let rest = t.skip("export "@.len() as int);
        match text::find_char(rest, '=') {
            Some(i) => {
                let name = rest.take(i);
                let value = unquote(text::trim(rest.skip(i + 1)));
                if name == "PATH"@ {
                    (Seq::empty(), nonempty_entries(text::split_char(value, ':')))
                } else {
                    (seq![EnvVarModel { name, value, enabled: true }], Seq::empty())
                }
            },
            None => nothing(),
        }
    } else if text::starts_with(t, "PATH="@) || text::starts_with(t, "export PATH="@) {
        let raw = if text::starts_with(t, "export PATH="@) {
            t.skip("export PATH="@.len() as int)
        } else {
            t.skip("PATH="@.len() as int)
        };
        (Seq::empty(), literal_entries(text::split_char(unquote(raw), ':')))
    } else {
        nothing()
    }
}

/// What one line of a configuration sets: the environment variables and the
/// PATH entries it adds. Blank lines, comments and the markers of the managed
/// section set nothing.
pub open spec fn parse_line(shell: ShellKind, line: Seq<char>) -> (
    Seq<EnvVarModel>,
    Seq<PathEntryModel>,
) {
    let t = text::trim(line);
    if text::contains(t, managed_begin()) || text::contains(t, managed_end()) || (t.len() > 0 && t[0] == '#')
        || t.len() == 0 {
        nothing()
    } else if shell == ShellKind::Fish {
        parse_fish_line(t)
    } else {
        parse_posix_line(t)
    }
}

/// What a sequence of lines sets, line after line.
pub open spec fn parse_lines(shell: ShellKind, ls: Seq<Seq<char>>) -> (
    Seq<EnvVarModel>,
    Seq<PathEntryModel>,
)
    decreases ls.len(),
{
    if ls.len() == 0 {
        nothing()
    } else {
        let prev = parse_lines(shell, ls.drop_last());
        let cur = parse_line(shell, ls.last());
        (prev.0 + cur.0, prev.1 + cur.1)
    }
}

/// The environment variables and PATH entries that a configuration sets.
pub open spec fn parse_config(shell: ShellKind, content: Seq<char>) -> (
    Seq<EnvVarModel>,
    Seq<PathEntryModel>,
) {
    parse_lines(shell, text::lines(content))
}

fn push_nonempty_entries(out: &mut Vec<PathEntry>, ps: &Vec<Vec<char>>)
    ensures
        path_views(final(out)@) == path_views(old(out)@) + nonempty_entries(text::views(ps@)),
{
    let ghost o0 = path_views(out@);
    let mut i: usize = 0;
    while i < ps.len()
        invariant
            i <= ps.len(),
            path_views(out@) == o0 + nonempty_entries(text::views(ps@).take(i as int)),
        decreases ps.len() - i,
    {
        assert(text::views(ps@).take(i + 1).drop_last() =~= text::views(ps@).take(i as int));
        let ghost before = path_views(out@);
        if ps[i].len() > 0 {
            let e = make_path_entry(&ps[i]);
            out.push(e);
            assert(path_views(out@) =~= before.push(e@));
        } else {
            assert(path_views(out@) =~= before + Seq::<PathEntryModel>::empty());
        }
        i = i + 1;
    }
    assert(text::views(ps@).take(ps.len() as int) =~= text::views(ps@));
}

fn push_literal_entries(out: &mut Vec<PathEntry>, ps: &Vec<Vec<char>>)
    ensures
        path_views(final(out)@) == path_views(old(out)@) + literal_entries(text::views(ps@)),
{
    let ghost o0 = path_views(out@);
    let mut i: usize = 0;
    while i < ps.len()
        invariant
            i <= ps.len(),
            path_views(out@) == o0 + literal_entries(text::views(ps@).take(i as int)),
        decreases ps.len() - i,
    {
        assert(text::views(ps@).take(i + 1).drop_last() =~= text::views(ps@).take(i as int));
        let ghost before = path_views(out@);
        let p = text::trim_chars(&ps[i]);
        if p.len() > 0 && p[0] != '$' {
            let e = make_path_entry(&p);
            out.push(e);
            assert(path_views(out@) =~= before.push(e@));
        } else {
            assert(path_views(out@) =~= before + Seq::<PathEntryModel>::empty());
        }
        i = i + 1;
    }
    assert(text::views(ps@).take(ps.len() as int) =~= text::views(ps@));
}

fn push_word_entries(out: &mut Vec<PathEntry>, ps: &Vec<Vec<char>>)
    ensures
        path_views(final(out)@) == path_views(old(out)@) + word_entries(text::views(ps@)),
{
    let ghost o0 = path_views(out@);
    let mut i: usize = 0;
    while i < ps.len()
        invariant
            i <= ps.len(),
            path_views(out@) == o0 + word_entries(text::views(ps@).take(i as int)),
        decreases ps.len() - i,
    {
        assert(text::views(ps@).take(i + 1).drop_last() =~= text::views(ps@).take(i as int));
        let ghost before = path_views(out@);
        let e = make_path_entry(&ps[i]);
        out.push(e);
        assert(path_views(out@) =~= before.push(e@));
        i = i + 1;
    }
    assert(text::views(ps@).take(ps.len() as int) =~= text::views(ps@));
}

fn push_env_var(out: &mut Vec<EnvVar>, name: &Vec<char>, value: &Vec<char>)
    ensures
        env_views(final(out)@) == env_views(old(out)@) + seq![
            EnvVarModel { name: name@, value: value@, enabled: true },
        ],
{
    let ghost before = env_views(out@);
    let e = EnvVar { name: text::from_chars(name), value: text::from_chars(value), enabled: true };
    out.push(e);
    assert(env_views(out@) =~= before + seq![e@]);
}

fn parse_fish_line_into(t: &Vec<char>, env: &mut Vec<EnvVar>, paths: &mut Vec<PathEntry>)
    ensures
        env_views(final(env)@) == env_views(old(env)@) + parse_fish_line(t@).0,
        path_views(final(paths)@) == path_views(old(paths)@) + parse_fish_line(t@).1,
{
    let ghost e0 = env_views(env@);
    let ghost p0 = path_views(paths@);
    if let Some(rest) = text::strip_prefix_str(t, "set -gx ") {
        if let Some(i) = text::find_char_chars(&rest, ' ') {
            proof {
                text::lemma_find_char(rest@, ' ');
            }
            let name = text::slice_chars(&rest, 0, i);
            let after = text::slice_chars(&rest, i + 1, rest.len());
            let value = text::trim_chars(&after);
            assert(name@ =~= rest@.take(i as int));
            assert(after@ =~= rest@.skip(i + 1));
            if text::eq_str(&name, "PATH") || text::eq_str(&name, "path") {
                let words = text::split_ws_chars(&value);
                push_word_entries(paths, &words);
                assert(env_views(env@) =~= e0 + Seq::<EnvVarModel>::empty());
            } else {
                push_env_var(env, &name, &value);
                assert(path_views(paths@) =~= p0 + Seq::<PathEntryModel>::empty());
            }
        } else {
            assert(env_views(env@) =~= e0 + Seq::<EnvVarModel>::empty());
            assert(path_views(paths@) =~= p0 + Seq::<PathEntryModel>::empty());
        }
    } else if let Some(rest) = text::strip_prefix_str(t, "fish_add_path ") {
        let p = text::trim_chars(&rest);
        let e = make_path_entry(&p);
        paths.push(e);
        assert(path_views(paths@) =~= p0 + seq![e@]);
        assert(env_views(env@) =~= e0 + Seq::<EnvVarModel>::empty());
    } else {
        assert(env_views(env@) =~= e0 + Seq::<EnvVarModel>::empty());
        assert(path_views(paths@) =~= p0 + Seq::<PathEntryModel>::empty());
    }
}

fn parse_posix_line_into(t: &Vec<char>, env: &mut Vec<EnvVar>, paths: &mut Vec<PathEntry>)
    ensures
        env_views(final(env)@) == env_views(old(env)@) + parse_posix_line(t@).0,
        path_views(final(paths)@) == path_views(old(paths)@) + parse_posix_line(t@).1,
{
    let ghost e0 = env_views(env@);
    let ghost p0 = path_views(paths@);
    if let Some(rest) = text::strip_prefix_str(t, "export ") {
        if let Some(i) = text::find_char_chars(&rest, '=') {
            proof {
                text::lemma_find_char(rest@, '=');
            }
            let name = text::slice_chars(&rest, 0, i);
            let after = text::slice_chars(&rest, i + 1, rest.len());
            let raw = text::trim_chars(&after);
            let value = strip_quotes(&raw);
            assert(name@ =~= rest@.take(i as int));
            assert(after@ =~= rest@.skip(i + 1));
            if text::eq_str(&name, "PATH") {
                let pieces = text::split_char_chars(&value, ':');
                push_nonempty_entries(paths, &pieces);
                assert(env_views(env@) =~= e0 + Seq::<EnvVarModel>::empty());
            } else {
                push_env_var(env, &name, &value);
                assert(path_views(paths@) =~= p0 + Seq::<PathEntryModel>::empty());
            }
        } else {
            assert(env_views(env@) =~= e0 + Seq::<EnvVarModel>::empty());
            assert(path_views(paths@) =~= p0 + Seq::<PathEntryModel>::empty());
        }
    } else if text::starts_with_str(t, "PATH=") || text::starts_with_str(t, "export PATH=") {
        let raw = if let Some(r) = text::strip_prefix_str(t, "export PATH=") {
            r
        } else {
            match text::strip_prefix_str(t, "PATH=") {
                Some(r) => r,
                None => Vec::new(),
            }
        };
        let value = strip_quotes(&raw);
        let pieces = text::split_char_chars(&value, ':');
        push_literal_entries(paths, &pieces);
        assert(env_views(env@) =~= e0 + Seq::<EnvVarModel>::empty());
    } else {
        assert(env_views(env@) =~= e0 + Seq::<EnvVarModel>::empty());
        assert(path_views(paths@) =~= p0 + Seq::<PathEntryModel>::empty());
    }
}

fn parse_line_into(
    shell: ShellKind,
    line: &Vec<char>,
    env: &mut Vec<EnvVar>,
    paths: &mut Vec<PathEntry>,
)
    ensures
        env_views(final(env)@) == env_views(old(env)@) + parse_line(shell, line@).0,
        path_views(final(paths)@) == path_views(old(paths)@) + parse_line(shell, line@).1,
{
    let t = text::trim_chars(line);
    if text::contains_str(&t, "# === Podman TUI Managed ===") || text::contains_str(
        &t,
        "# === End Podman TUI Managed ===",
    ) || (t.len() > 0 && t[0] == '#') || t.len() == 0 {
        assert(env_views(env@) =~= env_views(env@) + Seq::<EnvVarModel>::empty());
        assert(path_views(paths@) =~= path_views(paths@) + Seq::<PathEntryModel>::empty());
        return ;
    }
    match shell {
        ShellKind::Fish => parse_fish_line_into(&t, env, paths),
        _ => parse_posix_line_into(&t, env, paths),
    }
}

/// The environment variables and PATH entries that a shell configuration sets.
///
/// A bash or zsh configuration sets a variable by `export NAME=VALUE` (the value
/// trimmed and unquoted) and PATH entries by `export PATH=a:b` (non-empty pieces)
/// or `PATH=...` (pieces that are not variable references); a fish configuration
/// sets them by `set -gx NAME VALUE` (PATH split at whitespace) and
/// `fish_add_path DIR`. Every variable and entry found is enabled.
pub fn parse_shell_config(shell: ShellKind, config_content: &str) -> (r: (
    Vec<EnvVar>,
    Vec<PathEntry>,
))
    ensures
        env_views(r.0@) == parse_config(shell, config_content@).0,
        path_views(r.1@) == parse_config(shell, config_content@).1,
{
    let content = text::to_chars(config_content);
    let ls = text::lines_chars(&content);
    let mut env: Vec<EnvVar> = Vec::new();
    let mut paths: Vec<PathEntry> = Vec::new();
    let mut i: usize = 0;
    assert(env_views(env@) =~= Seq::<EnvVarModel>::empty());
    assert(path_views(paths@) =~= Seq::<PathEntryModel>::empty());
    while i < ls.len()
        invariant
            i <= ls.len(),
            text::views(ls@) == text::lines(content@),
            env_views(env@) == parse_lines(shell, text::views(ls@).take(i as int)).0,
            path_views(paths@) == parse_lines(shell, text::views(ls@).take(i as int)).1,
        decreases ls.len() - i,
    {
        assert(text::views(ls@).take(i + 1).drop_last() =~= text::views(ls@).take(i as int));
        parse_line_into(shell, &ls[i], &mut env, &mut paths);
        i = i + 1;
    }
    assert(text::views(ls@).take(ls.len() as int) =~= text::views(ls@));
    (env, paths)
}

/// The PATH entries of a PATH value: its non-empty pieces between colons.
pub open spec fn path_var_entries(path_var: Seq<char>) -> Seq<PathEntryModel> {
    nonempty_entries(text::split_char(path_var, ':'))
}

/// The PATH entries of the value of `$PATH`, each enabled and labelled.
pub fn load_current_path_entries(path_var: &str) -> (r: Vec<PathEntry>)
    ensures
        path_views(r@) == path_var_entries(path_var@),
{
    let v = text::to_chars(path_var);
    let pieces = text::split_char_chars(&v, ':');
    let mut out: Vec<PathEntry> = Vec::new();
    assert(path_views(out@) =~= Seq::<PathEntryModel>::empty());
    push_nonempty_entries(&mut out, &pieces);
    assert(path_views(out@) =~= path_var_entries(path_var@));
    out
}

/// The PATH entries that loading a configuration shows: those of the file, or,
/// where the file sets none, those of `$PATH`.
pub open spec fn loaded_paths(
    shell: ShellKind,
    content: Option<Seq<char>>,
    path_var: Seq<char>,
) -> Seq<PathEntryModel> {
    let from_file = match content {
        Some(c) => parse_config(shell, c).1,
        None => Seq::empty(),
    };
    if from_file.len() == 0 {
        path_var_entries(path_var)
    } else {
        from_file
    }
}

/// The environment variables that loading a configuration shows.
pub open spec fn loaded_vars(shell: ShellKind, content: Option<Seq<char>>) -> Seq<EnvVarModel> {
    match content {
        Some(c) => parse_config(shell, c).0,
        None => Seq::empty(),
    }
}

/// The configuration of `shell`, given the contents of its file (`None` where it
/// could not be read) and the value of `$PATH`.
pub fn load_shell_config(shell: ShellKind, config_content: Option<&str>, path_var: &str) -> (r:
    ShellConfig)
    ensures
        r.shell == shell,
        r.config_path@ == config_filename_spec(shell),
        env_views(r.env_vars@) == loaded_vars(shell, text::opt_str_view(config_content)),
        path_views(r.path_entries@) == loaded_paths(shell, text::opt_str_view(config_content), path_var@),
{
    let config_path = String::from_str(shell_config_filename(shell));
    let (env_vars, path_entries) = match config_content {
        Some(content) => parse_shell_config(shell, content),
        None => {
            let e: Vec<EnvVar> = Vec::new();
            let p: Vec<PathEntry> = Vec::new();
            assert(env_views(e@) =~= Seq::<EnvVarModel>::empty());
            assert(path_views(p@) =~= Seq::<PathEntryModel>::empty());
            (e, p)
        },
    };
    let path_entries = if path_entries.len() == 0 {
        load_current_path_entries(path_var)
    } else {
        path_entries
    };
    ShellConfig { shell, config_path, env_vars, path_entries }
}

// ─── Writing a configuration ─────────────────────────────────────────────────

/// The text of a configuration after its lines, where `.1` tells whether the
/// last line read lies inside the managed section: the lines outside the
/// section, each after a newline unless nothing was kept before it, and without
/// the markers.
pub open spec fn strip_managed(ls: Seq<Seq<char>>) -> (Seq<char>, bool)
    decreases ls.len(),
{
    if ls.len() == 0 {
        (Seq::empty(), false)
    } else {
        let prev = strip_managed(ls.drop_last());
        let l = ls.last();
        if text::contains(text::trim(l), managed_begin()) {
            (prev.0, true)
        } else if text::contains(text::trim(l), managed_end()) {
            (prev.0, false)
        } else if !prev.1 {
            (
                (if prev.0.len() > 0 {
                    prev.0.push('\n')
                } else {
                    prev.0
                }) + l,
                false,
            )
        } else {
            prev
        }
    }
}

/// A configuration without the section this program manages.
pub open spec fn without_managed(content: Seq<char>) -> Seq<char> {
    strip_managed(text::lines(content)).0
}

/// A configuration without the section this program manages: the lines from
/// its opening marker to its closing marker are left out.
pub fn remove_managed_section(content: &str) -> (r: String)
    ensures
        r@ == without_managed(content@),
{
    let v = text::to_chars(content);
    let ls = text::lines_chars(&v);
    let mut acc: Vec<char> = Vec::new();
    let mut skip = false;
    let mut i: usize = 0;
    while i < ls.len()
        invariant
            i <= ls.len(),
            text::views(ls@) == text::lines(v@),
            (acc@, skip) == strip_managed(text::views(ls@).take(i as int)),
        decreases ls.len() - i,
    {
        assert(text::views(ls@).take(i + 1).drop_last() =~= text::views(ls@).take(i as int));
        let t = text::trim_chars(&ls[i]);
        if text::contains_str(&t, "# === Podman TUI Managed ===") {
            skip = true;
        } else if text::contains_str(&t, "# === End Podman TUI Managed ===") {
            skip = false;
        } else if !skip {
            if acc.len() > 0 {
                acc.push('\n');
            }
            text::extend_chars(&mut acc, &ls[i]);
        }
        i = i + 1;
    }
    assert(text::views(ls@).take(ls.len() as int) =~= text::views(ls@));
    text::from_chars(&acc)
}

/// The line that sets a variable in a shell; the value is quoted when it holds a
/// space (or, for bash and zsh, a `$`).
pub open spec fn env_line(shell: ShellKind, name: Seq<char>, value: Seq<char>) -> Seq<char> {
    if shell == ShellKind::Fish {
        if value.contains(' ') {
            "set -gx "@ + name + " \""@ + value + "\""@
        } else {
            "set -gx "@ + name + " "@ + value
        }
    } else if value.contains(' ') || value.contains('$') {
        "export "@ + name + "=\""@ + value + "\""@
    } else {
        "export "@ + name + "="@ + value
    }
}

fn env_line_chars(shell: ShellKind, name: &Vec<char>, value: &Vec<char>) -> (r: Vec<char>)
    ensures
        r@ == env_line(shell, name@, value@),
{
    let mut r: Vec<char> = Vec::new();
    match shell {
        ShellKind::Fish => {
            text::extend_str(&mut r, "set -gx ");
            text::extend_chars(&mut r, name);
            if text::contains_char(value, ' ') {
                text::extend_str(&mut r, " \"");
                text::extend_chars(&mut r, value);
                text::extend_str(&mut r, "\"");
            } else {
                text::extend_str(&mut r, " ");
                text::extend_chars(&mut r, value);
            }
        },
        _ => {
            text::extend_str(&mut r, "export ");
            text::extend_chars(&mut r, name);
            if text::contains_char(value, ' ') || text::contains_char(value, '$') {
                text::extend_str(&mut r, "=\"");
                text::extend_chars(&mut r, value);
                text::extend_str(&mut r, "\"");
            } else {
                text::extend_str(&mut r, "=");
                text::extend_chars(&mut r, value);
            }
        },
    }
    assert(r@ =~= env_line(shell, name@, value@));
    r
}

/// The line that sets variable `name` to `value` in `shell`.
fn format_env_var_for_shell(shell: ShellKind, name: &str, value: &str) -> (r: String)
    ensures
        r@ == env_line(shell, name@, value@),
{
    let n = text::to_chars(name);
    let v = text::to_chars(value);
    let l = env_line_chars(shell, &n, &v);
    text::from_chars(&l)
}

/// The line for a variable as shown in a preview: commented out when disabled.
pub open spec fn env_var_line(shell: ShellKind, var: EnvVarModel) -> Seq<char> {
    if !var.enabled {
        "# "@ + env_line(shell, var.name, var.value)
    } else {
        env_line(shell, var.name, var.value)
    }
}

/// The line that sets `var` in `shell`, commented out with `# ` when it is disabled.
pub fn format_env_var(shell: ShellKind, var: &EnvVar) -> (r: String)
    ensures
        r@ == env_var_line(shell, var@),
{
    let line = format_env_var_for_shell(shell, var.name.as_str(), var.value.as_str());
    if !var.enabled {
        let mut s = String::from_str("# ");
        s.append(line.as_str());
        s
    } else {
        line
    }
}

/// The line that adds one directory to the PATH in a shell.
pub open spec fn path_line(shell: ShellKind, path: Seq<char>) -> Seq<char> {
    if shell == ShellKind::Fish {
        "fish_add_path "@ + path
    } else {
        "export PATH=\""@ + path + ":$PATH\""@
    }
}

/// The line that adds `path` to the PATH in `shell`.
pub fn format_path_entry_single(shell: ShellKind, path: &str) -> (r: String)
    ensures
        r@ == path_line(shell, path@),
{
    match shell {
        ShellKind::Fish => {
            let mut s = String::from_str("fish_add_path ");
            s.append(path);
            s
        },
        _ => {
            let mut s = String::from_str("export PATH=\"");
            s.append(path);
            s.append(":$PATH\"");
            s
        },
    }
}

/// The lines setting the enabled variables, in order.
pub open spec fn var_lines(shell: ShellKind, vars: Seq<EnvVarModel>) -> Seq<Seq<char>>
    decreases vars.len(),
{
    if vars.len() == 0 {
        Seq::empty()
    } else {
        var_lines(shell, vars.drop_last()) + (if vars.last().enabled {
            seq![env_line(shell, vars.last().name, vars.last().value)]
        } else {
            Seq::empty()
        })
    }
}

/// The paths of the enabled entries, in order.
pub open spec fn enabled_paths(ps: Seq<PathEntryModel>) -> Seq<Seq<char>>
    decreases ps.len(),
{
    if ps.len() == 0 {
        Seq::empty()
    } else {
        enabled_paths(ps.drop_last()) + (if ps.last().enabled {
            seq![ps.last().path]
        } else {
            Seq::empty()
        })
    }
}

/// The `fish_add_path` lines of the enabled entries, in order.
pub open spec fn fish_path_lines(ps: Seq<Seq<char>>) -> Seq<Seq<char>>
    decreases ps.len(),
{
    if ps.len() == 0 {
        Seq::empty()
    } else {
        fish_path_lines(ps.drop_last()) + seq!["fish_add_path "@ + ps.last()]
    }
}

/// The lines that set the PATH: one `fish_add_path` line per enabled entry for
/// fish; one `export PATH="a:b"` line for bash and zsh, none if no entry is enabled.
pub open spec fn path_lines(shell: ShellKind, ps: Seq<PathEntryModel>) -> Seq<Seq<char>> {
    let en = enabled_paths(ps);
    if shell == ShellKind::Fish {
        fish_path_lines(en)
    } else if en.len() == 0 {
        Seq::empty()
    } else {
        seq!["export PATH=\""@ + text::join(en, ":"@) + "\""@]
    }
}

/// The lines of the managed section.
pub open spec fn managed_lines(
    shell: ShellKind,
    vars: Seq<EnvVarModel>,
    paths: Seq<PathEntryModel>,
) -> Seq<Seq<char>> {
    seq![
        managed_begin(),
        "# DO NOT EDIT MANUALLY - Changes will be overwritten"@,
        ""@,
    ] + (if paths.len() == 0 {
        Seq::empty()
    } else {
        seq!["# PATH entries (managed by Podman TUI)"@] + path_lines(shell, paths) + seq![
            ""@,
        ]
    }) + (if vars.len() == 0 {
        Seq::empty()
    } else {
        seq!["# Environment variables (managed by Podman TUI)"@] + var_lines(shell, vars) + seq![
            ""@,
        ]
    }) + seq![managed_end()]
}

/// The managed section: its lines joined by newlines.
pub open spec fn managed_section(
    shell: ShellKind,
    vars: Seq<EnvVarModel>,
    paths: Seq<PathEntryModel>,
) -> Seq<char> {
    text::join(managed_lines(shell, vars, paths), "\n"@)
}

fn push_line(ls: &mut Vec<Vec<char>>, lit: &str)
    ensures
        text::views(final(ls)@) == text::views(old(ls)@).push(lit@),
{
    let l = text::to_chars(lit);
    ls.push(l);
    assert(text::views(ls@) =~= text::views(old(ls)@).push(lit@));
}

fn enabled_path_chars(path_entries: &[PathEntry]) -> (r: Vec<Vec<char>>)
    ensures
        text::views(r@) == enabled_paths(path_views(path_entries@)),
{
    let mut r: Vec<Vec<char>> = Vec::new();
    let mut i: usize = 0;
    while i < path_entries.len()
        invariant
            i <= path_entries.len(),
            text::views(r@) == enabled_paths(path_views(path_entries@).take(i as int)),
        decreases path_entries.len() - i,
    {
        assert(path_views(path_entries@).take(i + 1).drop_last() =~= path_views(
            path_entries@,
        ).take(i as int));
        let ghost before = text::views(r@);
        if path_entries[i].enabled {
            let p = text::string_chars(&path_entries[i].path);
            r.push(p);
            assert(text::views(r@) =~= before + seq![p@]);
        } else {
            assert(text::views(r@) =~= before + Seq::<Seq<char>>::empty());
        }
        i = i + 1;
    }
    assert(path_views(path_entries@).take(path_entries.len() as int) =~= path_views(
        path_entries@,
    ));
    r
}

pub(crate) fn push_path_lines(ls: &mut Vec<Vec<char>>, shell: ShellKind, path_entries: &[PathEntry])
    ensures
        text::views(final(ls)@) == text::views(old(ls)@) + path_lines(
            shell,
            path_views(path_entries@),
        ),
{
    let en = enabled_path_chars(path_entries);
    let ghost l0 = text::views(ls@);
    match shell {
        ShellKind::Fish => {
            let mut i: usize = 0;
            while i < en.len()
                invariant
                    i <= en.len(),
                    text::views(ls@) == l0 + fish_path_lines(text::views(en@).take(i as int)),
                decreases en.len() - i,
            {
                assert(text::views(en@).take(i + 1).drop_last() =~= text::views(en@).take(
                    i as int,
                ));
                let ghost before = text::views(ls@);
                let mut l: Vec<char> = Vec::new();
                text::extend_str(&mut l, "fish_add_path ");
                text::extend_chars(&mut l, &en[i]);
                ls.push(l);
                assert(text::views(ls@) =~= before + seq![l@]);
                i = i + 1;
            }
            assert(text::views(en@).take(en.len() as int) =~= text::views(en@));
        },
        _ => {
            if en.len() > 0 {
                let joined = text::join_chars(&en, ":");
                let mut l: Vec<char> = Vec::new();
                text::extend_str(&mut l, "export PATH=\"");
                let jc = text::string_chars(&joined);
                text::extend_chars(&mut l, &jc);
                text::extend_str(&mut l, "\"");
                ls.push(l);
                assert(text::views(ls@) =~= l0 + seq![l@]);
            } else {
                assert(text::views(ls@) =~= l0 + Seq::<Seq<char>>::empty());
            }
        },
    }
}

pub(crate) fn push_var_lines(ls: &mut Vec<Vec<char>>, shell: ShellKind, env_vars: &[EnvVar])
    ensures
        text::views(final(ls)@) == text::views(old(ls)@) + var_lines(shell, env_views(env_vars@)),
{
    let ghost l0 = text::views(ls@);
    let mut i: usize = 0;
    while i < env_vars.len()
        invariant
            i <= env_vars.len(),
            text::views(ls@) == l0 + var_lines(shell, env_views(env_vars@).take(i as int)),
        decreases env_vars.len() - i,
    {
        assert(env_views(env_vars@).take(i + 1).drop_last() =~= env_views(env_vars@).take(
            i as int,
        ));
        let ghost before = text::views(ls@);
        if env_vars[i].enabled {
            let n = text::string_chars(&env_vars[i].name);
            let v = text::string_chars(&env_vars[i].value);
            let l = env_line_chars(shell, &n, &v);
            ls.push(l);
            assert(text::views(ls@) =~= before + seq![l@]);
        } else {
            assert(text::views(ls@) =~= before + Seq::<Seq<char>>::empty());
        }
        i = i + 1;
    }
    assert(env_views(env_vars@).take(env_vars.len() as int) =~= env_views(env_vars@));
}

/// The managed section for the given variables and PATH entries: the opening
/// marker and a warning, then (when there are entries) the PATH lines of the
/// enabled entries, then (when there are variables) the lines setting the enabled
/// variables, then the closing marker; lines joined by newlines.
fn build_managed_section(shell: ShellKind, env_vars: &[EnvVar], path_entries: &[PathEntry]) -> (r:
    String)
    ensures
        r@ == managed_section(shell, env_views(env_vars@), path_views(path_entries@)),
{
    let mut ls: Vec<Vec<char>> = Vec::new();
    push_line(&mut ls, "# === Podman TUI Managed ===");
    push_line(&mut ls, "# DO NOT EDIT MANUALLY - Changes will be overwritten");
    push_line(&mut ls, "");
    let ghost head = text::views(ls@);
    assert(head =~= seq![
        managed_begin(),
        "# DO NOT EDIT MANUALLY - Changes will be overwritten"@,
        ""@,
    ]);
    let ghost pv = path_views(path_entries@);
    let ghost ev = env_views(env_vars@);
    if path_entries.len() > 0 {
        push_line(&mut ls, "# PATH entries (managed by Podman TUI)");
        push_path_lines(&mut ls, shell, path_entries);
        push_line(&mut ls, "");
        assert(text::views(ls@) =~= head + (seq!["# PATH entries (managed by Podman TUI)"@]
            + path_lines(shell, pv) + seq![""@]));
    } else {
        assert(text::views(ls@) =~= head + Seq::<Seq<char>>::empty());
    }
    let ghost mid = text::views(ls@);
    if env_vars.len() > 0 {
        push_line(&mut ls, "# Environment variables (managed by Podman TUI)");
        push_var_lines(&mut ls, shell, env_vars);
        push_line(&mut ls, "");
        assert(text::views(ls@) =~= mid + (seq!["# Environment variables (managed by Podman TUI)"@]
            + var_lines(shell, ev) + seq![""@]));
    } else {
        assert(text::views(ls@) =~= mid + Seq::<Seq<char>>::empty());
    }
    let ghost tail = text::views(ls@);
    push_line(&mut ls, "# === End Podman TUI Managed ===");
    assert(text::views(ls@) =~= managed_lines(
        shell,
        env_views(env_vars@),
        path_views(path_entries@),
    ));
    text::join_chars(&ls, "\n")
}

/// The new text of a configuration: the old text without its managed section,
/// its trailing whitespace removed, a blank line, then the new managed section;
/// only the managed section when nothing else is left.
pub open spec fn saved_config(
    existing: Seq<char>,
    shell: ShellKind,
    vars: Seq<EnvVarModel>,
    paths: Seq<PathEntryModel>,
) -> Seq<char> {
    let kept = without_managed(existing);
    let section = managed_section(shell, vars, paths);
    if kept.len() == 0 {
        section
    } else {
        text::trim_end(kept) + "\n\n"@ + section
    }
}

/// The text that saving writes to a configuration file that held `existing`.
pub fn config_with_managed_section(
    existing: &str,
    shell: ShellKind,
    env_vars: &[EnvVar],
    path_entries: &[PathEntry],
) -> (r: String)
    ensures
        r@ == saved_config(existing@, shell, env_views(env_vars@), path_views(path_entries@)),
{
    let kept = remove_managed_section(existing);
    let section = build_managed_section(shell, env_vars, path_entries);
    if kept.as_str().is_empty() {
        section
    } else {
        let kc = text::string_chars(&kept);
        let trimmed = text::trim_end_chars(&kc);
        let mut s = text::from_chars(&trimmed);
        s.append("\n\n");
        s.append(section.as_str());
        s
    }
}

// ─── Laws of the shell names ─────────────────────────────────────────────────

/// Splitting a sequence without the separator yields it whole.
pub proof fn lemma_split_without_separator(s: Seq<char>, c: char, cur: Seq<char>)
    requires
        !s.contains(c),
    ensures
        text::split_from(s, c, cur) == seq![cur + s],
    decreases s.len(),
{
    if s.len() == 0 {
        assert(cur + s =~= cur);
    } else {
        assert(s[0] != c);
        assert(!s.drop_first().contains(c)) by {
            if s.drop_first().contains(c) {
                let k = choose|k: int| 0 <= k < s.drop_first().len() && s.drop_first()[k] == c;
                assert(s[k + 1] == c);
            }
        }
        lemma_split_without_separator(s.drop_first(), c, cur.push(s[0]));
        assert(cur.push(s[0]) + s.drop_first() =~= cur + s);
    }
}

/// Law: a shell's name is read back as that shell.
pub proof fn lemma_shell_name_round_trip(shell: ShellKind)
    ensures
        shell_kind_of(shell_name_spec(shell)) == shell,
{
    reveal_strlit("bash");
    reveal_strlit("zsh");
    reveal_strlit("fish");
    let n = shell_name_spec(shell);
    assert(!n.contains('/'));
    lemma_split_without_separator(n, '/', Seq::empty());
    assert(Seq::<char>::empty() + n =~= n);
    assert(text::split_char(n, '/').last() == n);
}

} // verus!
