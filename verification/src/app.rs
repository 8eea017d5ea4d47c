//! The application's state and how each key changes it.
//!
//! Work that reaches outside the program (running podman, reading or writing a
//! shell configuration, opening a terminal) is not done here: a key hands back an
//! `Effect` that names it, and the caller performs it and reports the outcome
//! through one of the `finish_*` methods or `refresh_stats`, `load_shell_config`
//! and `switch_shell`.
use vstd::prelude::*;
use crate::text;
use crate::order;
use crate::order::SortBy;
use crate::podman::{ContainerInfo, ContainerModel, ContainerStats, StatsModel, SystemInfo};
use crate::shell;
use crate::shell::{EnvVar, EnvVarModel, PathEntry, PathEntryModel, ShellConfig, ShellKind};

verus! {

/// Which screen is shown.
#[derive(Debug, Clone, Copy, PartialEq, Eq, Structural)]
pub enum AppMode {
    Dashboard,
    ShellManager,
}

/// Which list the shell manager shows.
#[derive(Debug, Clone, Copy, PartialEq, Eq, Structural)]
pub enum ShellManagerTab {
    Variables,
    Paths,
}

/// What the text being typed is for.
#[derive(Debug, Clone, PartialEq)]
pub enum EditingTarget {
    Inactive,
    AddVarName,
    AddVarValue { name: String },
    AddPath,
    EditVarValue { idx: usize },
    EditVarName { idx: usize },
    EditPath { idx: usize },
}

impl EditingTarget {
    /// Whether text is being typed.
    pub fn is_active(&self) -> (r: bool)
        ensures
            r == !(self is Inactive),
    {
        !matches!(self, EditingTarget::Inactive)
    }
}

/// The state of the shell manager.
#[derive(Debug)]
pub struct ShellManagerState {
    pub env_vars: Vec<EnvVar>,
    pub path_entries: Vec<PathEntry>,
    pub config_path: String,
    pub selected: usize,
    pub selected_shell: ShellKind,
    pub available_shells: Vec<ShellKind>,
    pub active_tab: ShellManagerTab,
    pub editing: EditingTarget,
    pub input_buffer: String,
    pub show_help: bool,
    pub message: Option<String>,
    pub error: Option<String>,
}

/// A container command waiting for confirmation.
#[derive(Debug, Clone, PartialEq)]
pub enum PendingAction {
    Stop(String),
    Delete(String),
}

/// The state of the application. Network speeds are kept as the byte counts
/// received and sent between the last two readings.
#[derive(Debug)]
pub struct App {
    pub mode: AppMode,
    pub containers: Vec<ContainerInfo>,
    pub stats: Vec<ContainerStats>,
    pub system_info: SystemInfo,
    pub selected: usize,
    pub sort_by: SortBy,
    pub error_message: Option<String>,
    pub status_message: Option<String>,
    pub pending_action: Option<PendingAction>,
    pub shell_manager: ShellManagerState,
    pub prev_net_rx: u64,
    pub prev_net_tx: u64,
    pub net_rx_delta: u64,
    pub net_tx_delta: u64,
}

/// A key press.
#[derive(Debug, Clone, Copy, PartialEq, Eq, Structural)]
pub enum Key {
    Char(char),
    Up,
    Down,
    Esc,
    Enter,
    Tab,
    Backspace,
    Other,
}

/// A podman command on one container.
#[derive(Debug, Clone, Copy, PartialEq, Eq, Structural)]
pub enum ContainerOp {
    Start,
    Stop,
    Delete,
}

/// Work outside the program that a key asks for.
#[derive(Debug, Clone, PartialEq)]
pub enum Effect {
    /// Nothing to do.
    Nothing,
    /// Leave the program.
    Quit,
    /// Run the podman command on the container, refresh, then report through
    /// `finish_container_command` with `success` as the message on success.
    ContainerCommand { op: ContainerOp, name: String, success: String },
    /// Refresh the container list and host readings.
    Refresh,
    /// Open a terminal running a shell in the container, then `finish_exec`.
    Exec { name: String, state: String, as_root: bool },
    /// Open a terminal in the program's directory, then `finish_open_terminal`.
    OpenTerminal,
    /// Detect the shells and load the configuration, then `load_shell_config`.
    LoadShellConfig,
    /// Save the shell manager's variables and entries, then `finish_save`.
    SaveShellConfig,
    /// Load the configuration of the shell, then `switch_shell`.
    SwitchShell(ShellKind),
}

// ─── Models ──────────────────────────────────────────────────────────────────

/// What the text being typed is for.
pub enum EditingModel {
    Inactive,
    AddVarName,
    AddVarValue { name: Seq<char> },
    AddPath,
    EditVarValue { idx: usize },
    EditVarName { idx: usize },
    EditPath { idx: usize },
}

/// A container command waiting for confirmation.
pub enum PendingModel {
    Stop(Seq<char>),
    Delete(Seq<char>),
}

/// Work outside the program that a key asks for.
pub enum EffectModel {
    Nothing,
    Quit,
    ContainerCommand { op: ContainerOp, name: Seq<char>, success: Seq<char> },
    Refresh,
    Exec { name: Seq<char>, state: Seq<char>, as_root: bool },
    OpenTerminal,
    LoadShellConfig,
    SaveShellConfig,
    SwitchShell(ShellKind),
}

/// The contents of the shell manager's state.
#[verifier::ext_equal]
pub struct ShellManagerModel {
    pub env_vars: Seq<EnvVarModel>,
    pub path_entries: Seq<PathEntryModel>,
    pub config_path: Seq<char>,
    pub selected: usize,
    pub selected_shell: ShellKind,
    pub available_shells: Seq<ShellKind>,
    pub active_tab: ShellManagerTab,
    pub editing: EditingModel,
    pub input_buffer: Seq<char>,
    pub show_help: bool,
    pub message: Option<Seq<char>>,
    pub error: Option<Seq<char>>,
}

/// The contents of the application's state.
#[verifier::ext_equal]
pub struct AppModel {
    pub mode: AppMode,
    pub containers: Seq<ContainerModel>,
    pub stats: Seq<StatsModel>,
    pub system_info: SystemInfo,
    pub selected: usize,
    pub sort_by: SortBy,
    pub error_message: Option<Seq<char>>,
    pub status_message: Option<Seq<char>>,
    pub pending_action: Option<PendingModel>,
    pub shell_manager: ShellManagerModel,
    pub prev_net_rx: u64,
    pub prev_net_tx: u64,
    pub net_rx_delta: u64,
    pub net_tx_delta: u64,
}

impl View for EditingTarget {
    type V = EditingModel;

    open spec fn view(&self) -> EditingModel {
        match self {
            EditingTarget::Inactive => EditingModel::Inactive,
            EditingTarget::AddVarName => EditingModel::AddVarName,
            EditingTarget::AddVarValue { name } => EditingModel::AddVarValue { name: name@ },
            EditingTarget::AddPath => EditingModel::AddPath,
            EditingTarget::EditVarValue { idx } => EditingModel::EditVarValue { idx: *idx },
            EditingTarget::EditVarName { idx } => EditingModel::EditVarName { idx: *idx },
            EditingTarget::EditPath { idx } => EditingModel::EditPath { idx: *idx },
        }
    }
}

impl View for PendingAction {
    type V = PendingModel;

    open spec fn view(&self) -> PendingModel {
        match self {
            PendingAction::Stop(n) => PendingModel::Stop(n@),
            PendingAction::Delete(n) => PendingModel::Delete(n@),
        }
    }
}

impl View for Effect {
    type V = EffectModel;

    open spec fn view(&self) -> EffectModel {
        match self {
            Effect::Nothing => EffectModel::Nothing,
            Effect::Quit => EffectModel::Quit,
            Effect::ContainerCommand { op, name, success } => EffectModel::ContainerCommand {
                op: *op,
                name: name@,
                success: success@,
            },
            Effect::Refresh => EffectModel::Refresh,
            Effect::Exec { name, state, as_root } => EffectModel::Exec {
                name: name@,
                state: state@,
                as_root: *as_root,
            },
            Effect::OpenTerminal => EffectModel::OpenTerminal,
            Effect::LoadShellConfig => EffectModel::LoadShellConfig,
            Effect::SaveShellConfig => EffectModel::SaveShellConfig,
            Effect::SwitchShell(s) => EffectModel::SwitchShell(*s),
        }
    }
}

/// The contents of an optional pending command.
pub open spec fn pending_view(p: Option<PendingAction>) -> Option<PendingModel> {
    match p {
        Some(a) => Some(a@),
        None => None,
    }
}

impl View for ShellManagerState {
    type V = ShellManagerModel;

    open spec fn view(&self) -> ShellManagerModel {
        ShellManagerModel {
            env_vars: shell::env_views(self.env_vars@),
            path_entries: shell::path_views(self.path_entries@),
            config_path: self.config_path@,
            selected: self.selected,
            selected_shell: self.selected_shell,
            available_shells: self.available_shells@,
            active_tab: self.active_tab,
            editing: self.editing@,
            input_buffer: self.input_buffer@,
            show_help: self.show_help,
            message: shell::opt_view(self.message),
            error: shell::opt_view(self.error),
        }
    }
}

impl View for App {
    type V = AppModel;

    open spec fn view(&self) -> AppModel {
        AppModel {
            mode: self.mode,
            containers: order::container_views(self.containers@),
            stats: order::stats_views(self.stats@),
            system_info: self.system_info,
            selected: self.selected,
            sort_by: self.sort_by,
            error_message: shell::opt_view(self.error_message),
            status_message: shell::opt_view(self.status_message),
            pending_action: pending_view(self.pending_action),
            shell_manager: self.shell_manager@,
            prev_net_rx: self.prev_net_rx,
            prev_net_tx: self.prev_net_tx,
            net_rx_delta: self.net_rx_delta,
            net_tx_delta: self.net_tx_delta,
        }
    }
}

/// The state that the application keeps: selections inside their lists (or
/// zero), and an edited variable or entry that exists.
pub open spec fn model_wf(m: AppModel) -> bool {
    let sm = m.shell_manager;
    &&& (m.selected == 0 || m.selected < m.containers.len())
    &&& (sm.selected == 0 || sm.selected < sm.env_vars.len() || sm.selected
        < sm.path_entries.len())
    &&& editing_in_range(sm)
}

/// The variable or PATH entry being edited, if any, exists.
pub open spec fn editing_in_range(sm: ShellManagerModel) -> bool {
    match sm.editing {
        EditingModel::EditVarValue { idx } => idx < sm.env_vars.len(),
        EditingModel::EditVarName { idx } => idx < sm.env_vars.len(),
        EditingModel::EditPath { idx } => idx < sm.path_entries.len(),
        _ => true,
    }
}

impl App {
    /// The state that the application keeps.
    pub open spec fn wf(&self) -> bool {
        model_wf(self@)
    }
}

// ─── Small builders ──────────────────────────────────────────────────────────

fn msg(prefix: &str, s: &String) -> (r: String)
    ensures
        r@ == prefix@ + s@,
{
    let mut r = String::from_str(prefix);
    r.append(s.as_str());
    r
}

fn quoted(prefix: &str, s: &String, suffix: &str) -> (r: String)
    ensures
        r@ == prefix@ + s@ + suffix@,
{
    let mut r = String::from_str(prefix);
    r.append(s.as_str());
    r.append(suffix);
    r
}

fn empty_string() -> (r: String)
    ensures
        r@ == Seq::<char>::empty(),
{
    let r = String::new();
    r
}

/// `x + 1` capped at `n - 1`, for a non-empty list of `n`; the addition wraps
/// around at the top of `usize`, as in the release build.
pub open spec fn step_down(x: usize, n: nat) -> usize {
    let y = vstd::wrapping::usize_specs::wrapping_add(x, 1);
    if y <= n - 1 {
        y
    } else {
        (n - 1) as usize
    }
}

/// `x - 1`, or zero.
pub open spec fn step_up(x: usize) -> usize {
    if x > 0 {
        (x - 1) as usize
    } else {
        0
    }
}

/// `x` capped at the last index of a list of `n`, or zero for an empty list.
pub open spec fn clamp(x: usize, n: nat) -> usize {
    if n == 0 {
        0
    } else if x <= n - 1 {
        x
    } else {
        (n - 1) as usize
    }
}

// ─── Dashboard keys ──────────────────────────────────────────────────────────

/// What a key does on the dashboard.
pub open spec fn dashboard_key(m: AppModel, key: Key) -> (AppModel, EffectModel) {
    let sm = m.shell_manager;
    let n = m.containers.len();
    let has = m.selected < n;
    let name = m.containers[m.selected as int].name;
    let unchanged = (m, EffectModel::Nothing);
    match key {
        Key::Char('v') | Key::Char('m') | Key::Tab => (
            AppModel {
                mode: AppMode::ShellManager,
                shell_manager: ShellManagerModel { show_help: false, ..sm },
                ..m
            },
            EffectModel::LoadShellConfig,
        ),
        Key::Char('?') | Key::Char('h') => (
            AppModel { shell_manager: ShellManagerModel { show_help: !sm.show_help, ..sm }, ..m },
            EffectModel::Nothing,
        ),
        Key::Char('q') | Key::Char('Q') => (m, EffectModel::Quit),
        Key::Char('j') | Key::Down => if !sm.show_help && n > 0 {
            (AppModel { selected: step_down(m.selected, n), ..m }, EffectModel::Nothing)
        } else {
            unchanged
        },
        Key::Char('k') | Key::Up => if !sm.show_help {
            (AppModel { selected: step_up(m.selected), ..m }, EffectModel::Nothing)
        } else {
            unchanged
        },
        Key::Char('x') => if has {
            (AppModel { pending_action: Some(PendingModel::Stop(name)), ..m }, EffectModel::Nothing)
        } else {
            unchanged
        },
        Key::Char('d') => if has {
            (AppModel { pending_action: Some(PendingModel::Delete(name)), ..m }, EffectModel::Nothing)
        } else {
            unchanged
        },
        Key::Char('y') => match m.pending_action {
            Some(PendingModel::Stop(n)) => (
                AppModel { pending_action: None, ..m },
                EffectModel::ContainerCommand {
                    op: ContainerOp::Stop,
                    name: n,
                    success: "Container stopped: "@ + n,
                },
            ),
            Some(PendingModel::Delete(n)) => (
                AppModel { pending_action: None, ..m },
                EffectModel::ContainerCommand {
                    op: ContainerOp::Delete,
                    name: n,
                    success: "Container deleted: "@ + n,
                },
            ),
            None => unchanged,
        },
        Key::Esc => (
            AppModel {
                pending_action: None,
                shell_manager: ShellManagerModel { show_help: false, ..sm },
                ..m
            },
            EffectModel::Nothing,
        ),
        Key::Char('r') => (
            AppModel { status_message: Some("Stats refreshed"@), ..m },
            EffectModel::Refresh,
        ),
        Key::Char('s') | Key::Char('t') => (
            AppModel {
                sort_by: order::next_sort_spec(m.sort_by),
                containers: order::sorted_containers(
                    m.containers,
                    m.stats,
                    order::next_sort_spec(m.sort_by),
                ),
                ..m
            },
            EffectModel::Nothing,
        ),
        Key::Char('e') | Key::Char('E') => if has {
            (
                m,
                EffectModel::Exec {
                    name,
                    state: m.containers[m.selected as int].state,
                    as_root: key == Key::Char('E'),
                },
            )
        } else {
            unchanged
        },
        Key::Char('b') => (m, EffectModel::OpenTerminal),
        _ => unchanged,
    }
}

// ─── Shell manager keys ──────────────────────────────────────────────────────

/// The length of the list shown on the active tab.
pub open spec fn tab_len(sm: ShellManagerModel) -> nat {
    if sm.active_tab == ShellManagerTab::Variables {
        sm.env_vars.len()
    } else {
        sm.path_entries.len()
    }
}

/// The index of the first copy of `s` in `v`.
pub open spec fn position_of(v: Seq<ShellKind>, s: ShellKind) -> Option<nat>
    decreases v.len(),
{
    if v.len() == 0 {
        None
    } else if v[0] == s {
        Some(0)
    } else {
        match position_of(v.drop_first(), s) {
            Some(i) => Some(i + 1),
            None => None,
        }
    }
}

/// The index of the first copy of `s` in `v`, or zero when there is none.
pub open spec fn position_or_zero(v: Seq<ShellKind>, s: ShellKind) -> nat {
    match position_of(v, s) {
        Some(i) => i,
        None => 0,
    }
}

/// The shell before the selected one among those available, going round.
pub open spec fn previous_shell(sm: ShellManagerModel) -> ShellKind {
    let n = sm.available_shells.len();
    let cur = position_or_zero(sm.available_shells, sm.selected_shell);
    sm.available_shells[(if cur == 0 {
        n - 1
    } else {
        cur - 1
    }) as int]
}

/// The shell after the selected one among those available, going round.
pub open spec fn next_shell(sm: ShellManagerModel) -> ShellKind {
    let n = sm.available_shells.len();
    let cur = position_or_zero(sm.available_shells, sm.selected_shell);
    sm.available_shells[((cur + 1) % n) as int]
}

/// The environment variable with `enabled` flipped.
pub open spec fn toggled_var(v: EnvVarModel) -> EnvVarModel {
    EnvVarModel { enabled: !v.enabled, ..v }
}

/// The PATH entry with `enabled` flipped.
pub open spec fn toggled_path(p: PathEntryModel) -> PathEntryModel {
    PathEntryModel { enabled: !p.enabled, ..p }
}

/// What a key does in the shell manager when no text is being typed and no help
/// is shown.
pub open spec fn shell_list_key(m: AppModel, key: Key) -> (AppModel, EffectModel) {
    let sm = m.shell_manager;
    let sel = sm.selected;
    let vars = sm.env_vars;
    let paths = sm.path_entries;
    let on_vars = sm.active_tab == ShellManagerTab::Variables;
    let unchanged = (m, EffectModel::Nothing);
    let set = |s: ShellManagerModel| (AppModel { shell_manager: s, ..m }, EffectModel::Nothing);
    match key {
        Key::Tab => set(
            ShellManagerModel {
                active_tab: if on_vars {
                    ShellManagerTab::Paths
                } else {
                    ShellManagerTab::Variables
                },
                selected: 0,
                ..sm
            },
        ),
        Key::Char('1') => set(
            ShellManagerModel { active_tab: ShellManagerTab::Variables, selected: 0, ..sm },
        ),
        Key::Char('2') => set(
            ShellManagerModel { active_tab: ShellManagerTab::Paths, selected: 0, ..sm },
        ),
        Key::Char('q') | Key::Char('Q') | Key::Esc | Key::Char('v') | Key::Char('m') => (
            AppModel { mode: AppMode::Dashboard, ..m },
            EffectModel::Nothing,
        ),
        Key::Char('j') | Key::Down => if tab_len(sm) > 0 {
            set(ShellManagerModel { selected: step_down(sel, tab_len(sm)), ..sm })
        } else {
            unchanged
        },
        Key::Char('k') | Key::Up => set(ShellManagerModel { selected: step_up(sel), ..sm }),
        Key::Char('a') => set(
            ShellManagerModel {
                editing: if on_vars {
                    EditingModel::AddVarName
                } else {
                    EditingModel::AddPath
                },
                ..sm
            },
        ),
        Key::Char('d') => if on_vars && sel < vars.len() {
            set(
                ShellManagerModel {
                    env_vars: vars.remove(sel as int),
                    selected: clamp(sel, (vars.len() - 1) as nat),
                    message: Some("Removed '"@ + vars[sel as int].name + "'"@),
                    ..sm
                },
            )
        } else if !on_vars && sel < paths.len() {
            set(
                ShellManagerModel {
                    path_entries: paths.remove(sel as int),
                    selected: clamp(sel, (paths.len() - 1) as nat),
                    message: Some("Removed '"@ + paths[sel as int].path + "'"@),
                    ..sm
                },
            )
        } else {
            unchanged
        },
        Key::Char('e') => if on_vars && sel < vars.len() {
            set(
                ShellManagerModel {
                    input_buffer: vars[sel as int].value,
                    editing: EditingModel::EditVarValue { idx: sel },
                    ..sm
                },
            )
        } else if !on_vars && sel < paths.len() {
            set(
                ShellManagerModel {
                    input_buffer: paths[sel as int].path,
                    editing: EditingModel::EditPath { idx: sel },
                    ..sm
                },
            )
        } else {
            unchanged
        },
        Key::Char('r') => if on_vars && sel < vars.len() {
            set(
                ShellManagerModel {
                    input_buffer: vars[sel as int].name,
                    editing: EditingModel::EditVarName { idx: sel },
                    ..sm
                },
            )
        } else {
            unchanged
        },
        Key::Char('t') | Key::Char('T') => if on_vars && sel < vars.len() {
            set(
                ShellManagerModel {
                    env_vars: vars.update(sel as int, toggled_var(vars[sel as int])),
                    ..sm
                },
            )
        } else if !on_vars && sel < paths.len() {
            set(
                ShellManagerModel {
                    path_entries: paths.update(sel as int, toggled_path(paths[sel as int])),
                    ..sm
                },
            )
        } else {
            unchanged
        },
        Key::Char('s') => (m, EffectModel::SaveShellConfig),
        Key::Char('<') | Key::Char(',') => if sm.available_shells.len() > 0 {
            (m, EffectModel::SwitchShell(previous_shell(sm)))
        } else {
            unchanged
        },
        Key::Char('>') | Key::Char('.') => if sm.available_shells.len() > 0 {
            (m, EffectModel::SwitchShell(next_shell(sm)))
        } else {
            unchanged
        },
        _ => unchanged,
    }
}

// ─── Typing ──────────────────────────────────────────────────────────────────

/// The shell manager after Enter confirms the text typed.
pub open spec fn enter_result(sm: ShellManagerModel) -> ShellManagerModel {
    let input = sm.input_buffer;
    let t = text::trim(input);
    let vars = sm.env_vars;
    let paths = sm.path_entries;
    let cleared = ShellManagerModel {
        editing: EditingModel::Inactive,
        input_buffer: Seq::empty(),
        error: None,
        ..sm
    };
    match sm.editing {
        EditingModel::AddVarName => if t.len() == 0 {
            ShellManagerModel { error: Some("Name cannot be empty"@), ..sm }
        } else {
            ShellManagerModel { editing: EditingModel::AddVarValue { name: t }, ..cleared }
        },
        EditingModel::AddVarValue { name } => ShellManagerModel {
            env_vars: vars.push(EnvVarModel { name, value: input, enabled: true }),
            selected: vars.len() as usize,
            message: Some("Variable added"@),
            ..cleared
        },
        EditingModel::AddPath => if t.len() == 0 {
            ShellManagerModel { error: Some("Path cannot be empty"@), ..sm }
        } else {
            ShellManagerModel {
                path_entries: paths.push(
                    PathEntryModel { path: t, enabled: true, label: shell::path_label(input) },
                ),
                selected: paths.len() as usize,
                message: Some("PATH entry added"@),
                ..cleared
            }
        },
        EditingModel::EditVarValue { idx } => if idx < vars.len() {
            ShellManagerModel {
                env_vars: vars.update(idx as int, EnvVarModel { value: input, ..vars[idx as int] }),
                message: Some("Updated '"@ + vars[idx as int].name + "'"@),
                ..cleared
            }
        } else {
            cleared
        },
        EditingModel::EditVarName { idx } => if t.len() == 0 {
            ShellManagerModel { error: Some("Name cannot be empty"@), ..sm }
        } else if idx < vars.len() {
            ShellManagerModel {
                env_vars: vars.update(idx as int, EnvVarModel { name: t, ..vars[idx as int] }),
                message: Some("Renamed '"@ + vars[idx as int].name + "' -> '"@ + t + "'"@),
                ..cleared
            }
        } else {
            cleared
        },
        EditingModel::EditPath { idx } => if t.len() == 0 {
            ShellManagerModel { error: Some("Path cannot be empty"@), ..sm }
        } else if idx < paths.len() {
            ShellManagerModel {
                path_entries: paths.update(
                    idx as int,
                    PathEntryModel { path: t, label: shell::path_label(t), ..paths[idx as int] },
                ),
                message: Some("PATH entry updated"@),
                ..cleared
            }
        } else {
            cleared
        },
        EditingModel::Inactive => cleared,
    }
}

/// What a key does while text is being typed: Esc cancels, Enter confirms,
/// Backspace deletes the last character and a character is appended.
pub open spec fn editing_key(m: AppModel, key: Key) -> (AppModel, EffectModel) {
    let sm = m.shell_manager;
    let input = sm.input_buffer;
    match key {
        Key::Esc => (
            AppModel {
                shell_manager: ShellManagerModel {
                    editing: EditingModel::Inactive,
                    input_buffer: Seq::empty(),
                    ..sm
                },
                ..m
            },
            EffectModel::Nothing,
        ),
        Key::Enter => (AppModel { shell_manager: enter_result(sm), ..m }, EffectModel::Nothing),
        Key::Backspace => (
            AppModel {
                shell_manager: ShellManagerModel {
                    input_buffer: if input.len() > 0 {
                        input.drop_last()
                    } else {
                        input
                    },
                    error: None,
                    ..sm
                },
                ..m
            },
            EffectModel::Nothing,
        ),
        Key::Char(c) => (
            AppModel {
                shell_manager: ShellManagerModel { input_buffer: input.push(c), error: None, ..sm },
                ..m
            },
            EffectModel::Nothing,
        ),
        _ => (m, EffectModel::Nothing),
    }
}

/// Whether a key toggles the shell manager's help: `?` always, and `h` unless
/// it is typed as text (text being typed and the help not shown).
pub open spec fn toggles_help(sm: ShellManagerModel, key: Key) -> bool {
    key == Key::Char('?') || (key == Key::Char('h') && (sm.show_help || sm.editing is Inactive))
}

/// What a key does in the shell manager: `?` and `h` toggle the help (`h` only
/// where it is not typed as text); while the help is shown only Esc, `q` and
/// `Q` do anything (they close it); while text is typed keys edit it; otherwise
/// keys act on the lists.
pub open spec fn shell_key(m: AppModel, key: Key) -> (AppModel, EffectModel) {
    let sm = m.shell_manager;
    if toggles_help(sm, key) {
        (
            AppModel { shell_manager: ShellManagerModel { show_help: !sm.show_help, ..sm }, ..m },
            EffectModel::Nothing,
        )
    } else if sm.show_help {
        if key == Key::Esc || key == Key::Char('q') || key == Key::Char('Q') {
            (
                AppModel { shell_manager: ShellManagerModel { show_help: false, ..sm }, ..m },
                EffectModel::Nothing,
            )
        } else {
            (m, EffectModel::Nothing)
        }
    } else if !(sm.editing is Inactive) {
        editing_key(m, key)
    } else {
        shell_list_key(m, key)
    }
}

/// What a key does: the new state and the work it asks for.
pub open spec fn key_step(m: AppModel, key: Key) -> (AppModel, EffectModel) {
    if m.mode == AppMode::ShellManager {
        shell_key(m, key)
    } else {
        dashboard_key(m, key)
    }
}

// ─── Completions ─────────────────────────────────────────────────────────────

/// The state after readings of the host and of podman: the network deltas
/// change only once a reading has been kept before; containers and reports are
/// replaced and sorted when both could be listed (the selection kept inside the
/// list, the error cleared), otherwise the first error is shown.
pub open spec fn refreshed(
    m: AppModel,
    sys: SystemInfo,
    containers: Result<Seq<ContainerModel>, Seq<char>>,
    stats: Result<Seq<StatsModel>, Seq<char>>,
) -> AppModel {
    let with_net = if m.prev_net_rx > 0 || m.prev_net_tx > 0 {
        AppModel {
            net_rx_delta: if sys.net_rx_bytes >= m.prev_net_rx {
                (sys.net_rx_bytes - m.prev_net_rx) as u64
            } else {
                0
            },
            net_tx_delta: if sys.net_tx_bytes >= m.prev_net_tx {
                (sys.net_tx_bytes - m.prev_net_tx) as u64
            } else {
                0
            },
            ..m
        }
    } else {
        m
    };
    let read = AppModel {
        prev_net_rx: sys.net_rx_bytes,
        prev_net_tx: sys.net_tx_bytes,
        system_info: sys,
        ..with_net
    };
    match (containers, stats) {
        (Ok(cs), Ok(ss)) => {
            let sorted = order::sorted_containers(cs, ss, read.sort_by);
            AppModel {
                containers: sorted,
                stats: ss,
                selected: clamp(read.selected, sorted.len()),
                error_message: None,
                ..read
            }
        },
        (Err(e), _) => AppModel { error_message: Some(e), ..read },
        (Ok(_), Err(e)) => AppModel { error_message: Some(e), ..read },
    }
}

/// The contents of a container listing result.
pub open spec fn containers_result_view(r: Result<Vec<ContainerInfo>, String>) -> Result<
    Seq<ContainerModel>,
    Seq<char>,
> {
    match r {
        Ok(v) => Ok(order::container_views(v@)),
        Err(e) => Err(e@),
    }
}

/// The contents of a resource report result.
pub open spec fn stats_result_view(r: Result<Vec<ContainerStats>, String>) -> Result<
    Seq<StatsModel>,
    Seq<char>,
> {
    match r {
        Ok(v) => Ok(order::stats_views(v@)),
        Err(e) => Err(e@),
    }
}

/// The shell manager as the program starts.
pub open spec fn initial_shell_manager() -> ShellManagerModel {
    ShellManagerModel {
        env_vars: Seq::empty(),
        path_entries: Seq::empty(),
        config_path: Seq::empty(),
        selected: 0,
        selected_shell: ShellKind::Bash,
        available_shells: Seq::empty(),
        active_tab: ShellManagerTab::Variables,
        editing: EditingModel::Inactive,
        input_buffer: Seq::empty(),
        show_help: false,
        message: None,
        error: None,
    }
}

/// The application as it starts, given the first readings.
pub open spec fn initial_app(
    containers: Result<Seq<ContainerModel>, Seq<char>>,
    stats: Result<Seq<StatsModel>, Seq<char>>,
    sys: SystemInfo,
) -> AppModel {
    let (cs, ss, err) = match (containers, stats) {
        (Ok(cs), Ok(ss)) => (cs, ss, None),
        (Err(e), _) => (Seq::empty(), Seq::empty(), Some(e)),
        (Ok(_), Err(e)) => (Seq::empty(), Seq::empty(), Some(e)),
    };
    AppModel {
        mode: AppMode::Dashboard,
        containers: order::sorted_containers(cs, ss, SortBy::Name),
        stats: ss,
        system_info: sys,
        selected: 0,
        sort_by: SortBy::Name,
        error_message: err,
        status_message: None,
        pending_action: None,
        shell_manager: initial_shell_manager(),
        prev_net_rx: 0,
        prev_net_tx: 0,
        net_rx_delta: 0,
        net_tx_delta: 0,
    }
}

/// The shell to manage when the shell manager opens: the host's shell if it is
/// available, else the first available one, else bash.
pub open spec fn initial_shell(available: Seq<ShellKind>, host: ShellKind) -> ShellKind {
    if available.contains(host) {
        host
    } else if available.len() > 0 {
        available[0]
    } else {
        ShellKind::Bash
    }
}

/// The shell manager showing a configuration that was just loaded, with the
/// selection, typing and typed text reset.
pub open spec fn with_config(
    sm: ShellManagerModel,
    shell: ShellKind,
    config_path: Seq<char>,
    vars: Seq<EnvVarModel>,
    paths: Seq<PathEntryModel>,
) -> ShellManagerModel {
    ShellManagerModel {
        selected_shell: shell,
        config_path,
        env_vars: vars,
        path_entries: paths,
        selected: 0,
        editing: EditingModel::Inactive,
        input_buffer: Seq::empty(),
        ..sm
    }
}

/// Reports the outcome of a finished step: a message on success, an error otherwise.
pub open spec fn reported(m: AppModel, result: Result<Seq<char>, Seq<char>>) -> AppModel {
    match result {
        Ok(message) => AppModel { status_message: Some(message), error_message: None, ..m },
        Err(e) => AppModel { error_message: Some(e), ..m },
    }
}

// ─── Executable state machine ────────────────────────────────────────────────

fn clone_opt_string(o: &Option<String>) -> (r: Option<String>)
    ensures
        shell::opt_view(r) == shell::opt_view(*o),
{
    match o {
        Some(s) => Some(s.clone()),
        None => None,
    }
}

fn set_var(v: &mut Vec<EnvVar>, i: usize, e: EnvVar)
    requires
        i < old(v).len(),
    ensures
        shell::env_views(final(v)@) == shell::env_views(old(v)@).update(i as int, e@),
{
    v.set(i, e);
    assert(shell::env_views(v@) =~= shell::env_views(old(v)@).update(i as int, e@));
}

fn set_path(v: &mut Vec<PathEntry>, i: usize, e: PathEntry)
    requires
        i < old(v).len(),
    ensures
        shell::path_views(final(v)@) == shell::path_views(old(v)@).update(i as int, e@),
{
    v.set(i, e);
    assert(shell::path_views(v@) =~= shell::path_views(old(v)@).update(i as int, e@));
}

impl App {
    /// The application as it starts, given the first container listing, the
    /// first resource reports and the host's readings: the containers sorted by
    /// name, or none and the first error where either listing failed.
    pub fn new(
        containers: Result<Vec<ContainerInfo>, String>,
        stats: Result<Vec<ContainerStats>, String>,
        system_info: SystemInfo,
    ) -> (r: App)
        ensures
            r@ == initial_app(
                containers_result_view(containers),
                stats_result_view(stats),
                system_info,
            ),
            r.wf(),
    {
        let ghost cv = containers_result_view(containers);
        let ghost sv = stats_result_view(stats);
        let shell_manager = ShellManagerState {
            env_vars: Vec::new(),
            path_entries: Vec::new(),
            config_path: empty_string(),
            selected: 0,
            selected_shell: ShellKind::Bash,
            available_shells: Vec::new(),
            active_tab: ShellManagerTab::Variables,
            editing: EditingTarget::Inactive,
            input_buffer: empty_string(),
            show_help: false,
            message: None,
            error: None,
        };
        assert(shell_manager@ =~= initial_shell_manager());
        let (cs, ss, err) = match (containers, stats) {
            (Ok(cs), Ok(ss)) => (cs, ss, None),
            (Err(e), _) => (Vec::new(), Vec::new(), Some(e)),
            (Ok(_), Err(e)) => (Vec::new(), Vec::new(), Some(e)),
        };
        let app = App {
            mode: AppMode::Dashboard,
            containers: cs,
            stats: ss,
            system_info,
            selected: 0,
            sort_by: SortBy::Name,
            error_message: err,
            status_message: None,
            pending_action: None,
            shell_manager,
            prev_net_rx: 0,
            prev_net_tx: 0,
            net_rx_delta: 0,
            net_tx_delta: 0,
        };
        let r = app.sort_initial();
        proof {
            let init = initial_app(cv, sv, system_info);
            assert(order::container_views(app.containers@) =~= match (cv, sv) {
                (Ok(c), Ok(_)) => c,
                _ => Seq::<ContainerModel>::empty(),
            });
            assert(order::container_views(r.containers@) == init.containers);
            assert(order::stats_views(r.stats@) =~= init.stats);
            assert(r@ =~= init);
        }
        r
    }

    /// The application with its containers sorted by its sort key.
    pub fn sort_initial(self) -> (r: Self)
        ensures
            r@ == (AppModel {
                containers: order::sorted_containers(self@.containers, self@.stats, self@.sort_by),
                ..self@
            }),
    {
        let mut app = self;
        app.sort_containers();
        app
    }

    /// Sorts the containers by the sort key (stably).
    pub fn sort_containers(&mut self)
        ensures
            final(self)@ == (AppModel {
                containers: order::sorted_containers(
                    old(self)@.containers,
                    old(self)@.stats,
                    old(self)@.sort_by,
                ),
                ..old(self)@
            }),
    {
        order::sort_containers_by(&mut self.containers, &self.stats, self.sort_by);
        assert(self@ =~= AppModel {
            containers: order::sorted_containers(
                old(self)@.containers,
                old(self)@.stats,
                old(self)@.sort_by,
            ),
            ..old(self)@
        });
    }

    /// Takes in new readings of the host and of podman (see `refreshed`).
    pub fn refresh_stats(
        &mut self,
        new_sys: SystemInfo,
        containers: Result<Vec<ContainerInfo>, String>,
        stats: Result<Vec<ContainerStats>, String>,
    )
        ensures
            final(self)@ == refreshed(
                old(self)@,
                new_sys,
                containers_result_view(containers),
                stats_result_view(stats),
            ),
            old(self).wf() ==> final(self).wf(),
    {
        let ghost cv = containers_result_view(containers);
        let ghost sv = stats_result_view(stats);
        if self.prev_net_rx > 0 || self.prev_net_tx > 0 {
            self.net_rx_delta = new_sys.net_rx_bytes.saturating_sub(self.prev_net_rx);
            self.net_tx_delta = new_sys.net_tx_bytes.saturating_sub(self.prev_net_tx);
        }
        self.prev_net_rx = new_sys.net_rx_bytes;
        self.prev_net_tx = new_sys.net_tx_bytes;
        self.system_info = new_sys;
        let ghost read = self@;
        match (containers, stats) {
            (Ok(cs), Ok(ss)) => {
                self.containers = cs;
                self.stats = ss;
                self.sort_containers();
                if self.containers.len() == 0 {
                    self.selected = 0;
                } else if self.selected > self.containers.len() - 1 {
                    self.selected = self.containers.len() - 1;
                }
                self.error_message = None;
            },
            (Err(e), _) => {
                self.error_message = Some(e);
            },
            (Ok(_), Err(e)) => {
                self.error_message = Some(e);
            },
        }
        assert(self@ =~= refreshed(old(self)@, new_sys, cv, sv));
    }

    /// The shell to manage when the shell manager opens (see `initial_shell`).
    pub fn select_shell(available: &Vec<ShellKind>, host: ShellKind) -> (r: ShellKind)
        ensures
            r == initial_shell(available@, host),
    {
        let mut i: usize = 0;
        while i < available.len()
            invariant
                i <= available.len(),
                forall|j: int| 0 <= j < i ==> available@[j] != host,
            decreases available.len() - i,
        {
            if available[i] == host {
                assert(available@[i as int] == host);
                return host;
            }
            i = i + 1;
        }
        if available.len() > 0 {
            available[0]
        } else {
            ShellKind::Bash
        }
    }

    /// Shows a loaded configuration and the shells found on the host.
    pub fn load_shell_config(&mut self, available: Vec<ShellKind>, config: ShellConfig)
        ensures
            final(self)@ == (AppModel {
                shell_manager: ShellManagerModel {
                    available_shells: available@,
                    ..with_config(
                        old(self)@.shell_manager,
                        config.shell,
                        config.config_path@,
                        shell::env_views(config.env_vars@),
                        shell::path_views(config.path_entries@),
                    )
                },
                ..old(self)@
            }),
            old(self).wf() ==> final(self).wf(),
    {
        self.shell_manager.available_shells = available;
        self.shell_manager.selected_shell = config.shell;
        self.shell_manager.config_path = config.config_path;
        self.shell_manager.env_vars = config.env_vars;
        self.shell_manager.path_entries = config.path_entries;
        self.shell_manager.selected = 0;
        self.shell_manager.editing = EditingTarget::Inactive;
        self.shell_manager.input_buffer = empty_string();
        assert(self.shell_manager@ =~= ShellManagerModel {
            available_shells: available@,
            ..with_config(
                old(self)@.shell_manager,
                config.shell,
                config.config_path@,
                shell::env_views(config.env_vars@),
                shell::path_views(config.path_entries@),
            )
        });
    }

    /// Shows the configuration of the shell switched to, with a message.
    pub fn switch_shell(&mut self, new_shell: ShellKind, config: ShellConfig)
        ensures
            final(self)@ == (AppModel {
                shell_manager: ShellManagerModel {
                    message: Some("Switched to "@ + shell::shell_name_spec(new_shell)),
                    ..with_config(
                        old(self)@.shell_manager,
                        config.shell,
                        config.config_path@,
                        shell::env_views(config.env_vars@),
                        shell::path_views(config.path_entries@),
                    )
                },
                ..old(self)@
            }),
            old(self).wf() ==> final(self).wf(),
    {
        self.shell_manager.selected_shell = config.shell;
        self.shell_manager.config_path = config.config_path;
        self.shell_manager.env_vars = config.env_vars;
        self.shell_manager.path_entries = config.path_entries;
        self.shell_manager.selected = 0;
        self.shell_manager.editing = EditingTarget::Inactive;
        self.shell_manager.input_buffer = empty_string();
        let mut m = String::from_str("Switched to ");
        m.append(shell::shell_name(new_shell));
        self.shell_manager.message = Some(m);
        assert(self.shell_manager@ =~= ShellManagerModel {
            message: Some("Switched to "@ + shell::shell_name_spec(new_shell)),
            ..with_config(
                old(self)@.shell_manager,
                config.shell,
                config.config_path@,
                shell::env_views(config.env_vars@),
                shell::path_views(config.path_entries@),
            )
        });
    }

    /// Reports the outcome of a container command: `success` as the status on
    /// success, the error otherwise.
    pub fn finish_container_command(&mut self, success: String, result: Result<(), String>)
        ensures
            final(self)@ == reported(
                old(self)@,
                match result {
                    Ok(_) => Ok(success@),
                    Err(e) => Err(e@),
                },
            ),
            final(self).wf() == old(self).wf(),
    {
        match result {
            Ok(()) => {
                self.status_message = Some(success);
                self.error_message = None;
            },
            Err(e) => {
                self.error_message = Some(e);
            },
        }
    }

    /// Reports the outcome of opening a shell in a container.
    pub fn finish_exec(&mut self, result: Result<String, String>)
        ensures
            final(self)@ == reported(
                old(self)@,
                match result {
                    Ok(m) => Ok(m@),
                    Err(e) => Err(e@),
                },
            ),
            final(self).wf() == old(self).wf(),
    {
        match result {
            Ok(m) => {
                self.status_message = Some(m);
                self.error_message = None;
            },
            Err(e) => {
                self.error_message = Some(e);
            },
        }
    }

    /// Reports the outcome of opening a terminal, given the name of the
    /// directory it was opened in on success.
    pub fn finish_open_terminal(&mut self, result: Result<String, String>)
        ensures
            final(self)@ == reported(
                old(self)@,
                match result {
                    Ok(dir) => Ok("Terminal opened in: "@ + dir@),
                    Err(e) => Err(e@),
                },
            ),
            final(self).wf() == old(self).wf(),
    {
        match result {
            Ok(dir) => {
                self.status_message = Some(msg("Terminal opened in: ", &dir));
                self.error_message = None;
            },
            Err(e) => {
                self.error_message = Some(e);
            },
        }
    }

    /// Reports the outcome of saving the configuration: the file it went to on
    /// success (the error cleared), the error otherwise (the message cleared).
    pub fn finish_save(&mut self, result: Result<String, String>)
        ensures
            final(self)@ == (AppModel {
                shell_manager: match result {
                    Ok(_) => ShellManagerModel {
                        message: Some(
                            "Saved to ~"@ + shell::config_filename_spec(
                                old(self)@.shell_manager.selected_shell,
                            ),
                        ),
                        error: None,
                        ..old(self)@.shell_manager
                    },
                    Err(e) => ShellManagerModel {
                        error: Some(e@),
                        message: None,
                        ..old(self)@.shell_manager
                    },
                },
                ..old(self)@
            }),
            final(self).wf() == old(self).wf(),
    {
        match result {
            Ok(_) => {
                let mut m = String::from_str("Saved to ~");
                m.append(shell::shell_config_filename(self.shell_manager.selected_shell));
                self.shell_manager.message = Some(m);
                self.shell_manager.error = None;
            },
            Err(e) => {
                self.shell_manager.error = Some(e);
                self.shell_manager.message = None;
            },
        }
        assert(self.shell_manager@ =~= (match result {
            Ok(_) => ShellManagerModel {
                message: Some(
                    "Saved to ~"@ + shell::config_filename_spec(
                        old(self)@.shell_manager.selected_shell,
                    ),
                ),
                error: None,
                ..old(self)@.shell_manager
            },
            Err(e) => ShellManagerModel {
                error: Some(e@),
                message: None,
                ..old(self)@.shell_manager
            },
        }));
    }

    /// Switches between the dashboard and the shell manager; opening the shell
    /// manager asks for its configuration to be loaded.
    pub fn switch_mode(&mut self) -> (r: Effect)
        ensures
            old(self).mode == AppMode::Dashboard ==> final(self)@ == (AppModel {
                mode: AppMode::ShellManager,
                ..old(self)@
            }) && r@ == EffectModel::LoadShellConfig,
            old(self).mode == AppMode::ShellManager ==> final(self)@ == (AppModel {
                mode: AppMode::Dashboard,
                ..old(self)@
            }) && r@ == EffectModel::Nothing,
            final(self).wf() == old(self).wf(),
    {
        match self.mode {
            AppMode::Dashboard => {
                self.mode = AppMode::ShellManager;
                Effect::LoadShellConfig
            },
            AppMode::ShellManager => {
                self.mode = AppMode::Dashboard;
                Effect::Nothing
            },
        }
    }
}

impl App {
    /// Handles a key: changes the state as `key_step` says and hands back the
    /// work outside the program that the key asks for.
    pub fn handle_key(&mut self, key: Key) -> (r: Effect)
        ensures
            final(self)@ == key_step(old(self)@, key).0,
            r@ == key_step(old(self)@, key).1,
            old(self).wf() ==> final(self).wf(),
    {
        let r = if self.mode == AppMode::ShellManager {
            self.handle_shell_manager_key(key)
        } else {
            self.handle_dashboard_key(key)
        };
        proof {
            if old(self).wf() {
                lemma_key_step_wf(old(self)@, key);
            }
        }
        r
    }

    fn handle_dashboard_key(&mut self, key: Key) -> (r: Effect)
        ensures
            final(self)@ == dashboard_key(old(self)@, key).0,
            r@ == dashboard_key(old(self)@, key).1,
    {
        let ghost m = self@;
        let n = self.containers.len();
        match key {
            Key::Char('v') | Key::Char('m') | Key::Tab => {
                self.shell_manager.show_help = false;
                self.mode = AppMode::ShellManager;
                assert(self@ =~= dashboard_key(m, key).0);
                Effect::LoadShellConfig
            },
            Key::Char('?') | Key::Char('h') => {
                self.shell_manager.show_help = !self.shell_manager.show_help;
                assert(self@ =~= dashboard_key(m, key).0);
                Effect::Nothing
            },
            Key::Char('q') | Key::Char('Q') => Effect::Quit,
            Key::Char('j') | Key::Down => {
                if !self.shell_manager.show_help && n > 0 {
                    let y = self.selected.wrapping_add(1);
                    if y <= n - 1 {
                        self.selected = y;
                    } else {
                        self.selected = n - 1;
                    }
                }
                assert(self@ =~= dashboard_key(m, key).0);
                Effect::Nothing
            },
            Key::Char('k') | Key::Up => {
                if !self.shell_manager.show_help {
                    if self.selected > 0 {
                        self.selected = self.selected - 1;
                    }
                }
                assert(self@ =~= dashboard_key(m, key).0);
                Effect::Nothing
            },
            Key::Char('x') => {
                if self.selected < n {
                    let name = self.containers[self.selected].name.clone();
                    self.pending_action = Some(PendingAction::Stop(name));
                }
                assert(self@ =~= dashboard_key(m, key).0);
                Effect::Nothing
            },
            Key::Char('d') => {
                if self.selected < n {
                    let name = self.containers[self.selected].name.clone();
                    self.pending_action = Some(PendingAction::Delete(name));
                }
                assert(self@ =~= dashboard_key(m, key).0);
                Effect::Nothing
            },
            Key::Char('y') => {
                let mut action: Option<PendingAction> = None;
                core::mem::swap(&mut action, &mut self.pending_action);
                let r = match action {
                    Some(PendingAction::Stop(name)) => {
                        let success = msg("Container stopped: ", &name);
                        Effect::ContainerCommand { op: ContainerOp::Stop, name, success }
                    },
                    Some(PendingAction::Delete(name)) => {
                        let success = msg("Container deleted: ", &name);
                        Effect::ContainerCommand { op: ContainerOp::Delete, name, success }
                    },
                    None => Effect::Nothing,
                };
                assert(self@ =~= dashboard_key(m, key).0);
                r
            },
            Key::Esc => {
                self.pending_action = None;
                self.shell_manager.show_help = false;
                assert(self@ =~= dashboard_key(m, key).0);
                Effect::Nothing
            },
            Key::Char('r') => {
                self.status_message = Some(String::from_str("Stats refreshed"));
                assert(self@ =~= dashboard_key(m, key).0);
                Effect::Refresh
            },
            Key::Char('s') | Key::Char('t') => {
                self.sort_by = order::next_sort(self.sort_by);
                self.sort_containers();
                assert(self@ =~= dashboard_key(m, key).0);
                Effect::Nothing
            },
            Key::Char('e') | Key::Char('E') => {
                if self.selected < n {
                    let name = self.containers[self.selected].name.clone();
                    let state = self.containers[self.selected].state.clone();
                    Effect::Exec { name, state, as_root: key == Key::Char('E') }
                } else {
                    Effect::Nothing
                }
            },
            Key::Char('b') => Effect::OpenTerminal,
            _ => Effect::Nothing,
        }
    }

    fn handle_shell_manager_key(&mut self, key: Key) -> (r: Effect)
        ensures
            final(self)@ == shell_key(old(self)@, key).0,
            r@ == shell_key(old(self)@, key).1,
    {
        let ghost m = self@;
        if key == Key::Char('?') || (key == Key::Char('h') && (self.shell_manager.show_help
            || !self.shell_manager.editing.is_active())) {
            self.shell_manager.show_help = !self.shell_manager.show_help;
            assert(self@ =~= shell_key(m, key).0);
            return Effect::Nothing;
        }
        if self.shell_manager.show_help {
            if key == Key::Esc || key == Key::Char('q') || key == Key::Char('Q') {
                self.shell_manager.show_help = false;
            }
            assert(self@ =~= shell_key(m, key).0);
            return Effect::Nothing;
        }
        if self.shell_manager.editing.is_active() {
            return self.handle_editing_key(key);
        }
        self.handle_list_key(key)
    }

    fn handle_list_key(&mut self, key: Key) -> (r: Effect)
        ensures
            final(self)@ == shell_list_key(old(self)@, key).0,
            r@ == shell_list_key(old(self)@, key).1,
    {
        let ghost m = self@;
        let on_vars = self.shell_manager.active_tab == ShellManagerTab::Variables;
        let sel = self.shell_manager.selected;
        let nv = self.shell_manager.env_vars.len();
        let np = self.shell_manager.path_entries.len();
        match key {
            Key::Tab => {
                self.shell_manager.active_tab = if on_vars {
                    ShellManagerTab::Paths
                } else {
                    ShellManagerTab::Variables
                };
                self.shell_manager.selected = 0;
                assert(self@ =~= shell_list_key(m, key).0);
                Effect::Nothing
            },
            Key::Char('1') => {
                self.shell_manager.active_tab = ShellManagerTab::Variables;
                self.shell_manager.selected = 0;
                assert(self@ =~= shell_list_key(m, key).0);
                Effect::Nothing
            },
            Key::Char('2') => {
                self.shell_manager.active_tab = ShellManagerTab::Paths;
                self.shell_manager.selected = 0;
                assert(self@ =~= shell_list_key(m, key).0);
                Effect::Nothing
            },
            Key::Char('q') | Key::Char('Q') | Key::Esc | Key::Char('v') | Key::Char('m') => {
                self.mode = AppMode::Dashboard;
                assert(self@ =~= shell_list_key(m, key).0);
                Effect::Nothing
            },
            Key::Char('j') | Key::Down => {
                let len = if on_vars {
                    nv
                } else {
                    np
                };
                if len > 0 {
                    let y = sel.wrapping_add(1);
                    if y <= len - 1 {
                        self.shell_manager.selected = y;
                    } else {
                        self.shell_manager.selected = len - 1;
                    }
                }
                assert(self@ =~= shell_list_key(m, key).0);
                Effect::Nothing
            },
            Key::Char('k') | Key::Up => {
                if sel > 0 {
                    self.shell_manager.selected = sel - 1;
                }
                assert(self@ =~= shell_list_key(m, key).0);
                Effect::Nothing
            },
            Key::Char('a') => {
                self.shell_manager.editing = if on_vars {
                    EditingTarget::AddVarName
                } else {
                    EditingTarget::AddPath
                };
                assert(self@ =~= shell_list_key(m, key).0);
                Effect::Nothing
            },
            Key::Char('d') => self.list_delete(key),
            Key::Char('e') => self.list_edit(key),
            Key::Char('r') => self.list_edit(key),
            Key::Char('t') | Key::Char('T') => self.list_toggle(key),
            Key::Char('s') => Effect::SaveShellConfig,
            Key::Char('<') | Key::Char(',') => self.list_switch_shell(key),
            Key::Char('>') | Key::Char('.') => self.list_switch_shell(key),
            _ => Effect::Nothing,
        }
    }

    fn list_delete(&mut self, key: Key) -> (r: Effect)
        requires
            key == Key::Char('d'),
        ensures
            final(self)@ == shell_list_key(old(self)@, key).0,
            r@ == shell_list_key(old(self)@, key).1,
    {
        let ghost m = self@;
        let on_vars = self.shell_manager.active_tab == ShellManagerTab::Variables;
        let sel = self.shell_manager.selected;
        let nv = self.shell_manager.env_vars.len();
        let np = self.shell_manager.path_entries.len();

                if on_vars && sel < nv {
                    let removed = self.shell_manager.env_vars.remove(sel);
                    let left = self.shell_manager.env_vars.len();
                    if left == 0 {
                        self.shell_manager.selected = 0;
                    } else if sel > left - 1 {
                        self.shell_manager.selected = left - 1;
                    }
                    self.shell_manager.message = Some(quoted("Removed '", &removed.name, "'"));
                    assert(shell::env_views(self.shell_manager.env_vars@) =~= m.shell_manager.env_vars.remove(sel as int));
                } else if !on_vars && sel < np {
                    let removed = self.shell_manager.path_entries.remove(sel);
                    let left = self.shell_manager.path_entries.len();
                    if left == 0 {
                        self.shell_manager.selected = 0;
                    } else if sel > left - 1 {
                        self.shell_manager.selected = left - 1;
                    }
                    self.shell_manager.message = Some(quoted("Removed '", &removed.path, "'"));
                    assert(shell::path_views(self.shell_manager.path_entries@) =~= m.shell_manager.path_entries.remove(sel as int));
                }
                assert(self@ =~= shell_list_key(m, key).0);
                Effect::Nothing
            
    }

    fn list_edit(&mut self, key: Key) -> (r: Effect)
        requires
            key == Key::Char('e') || key == Key::Char('r'),
        ensures
            final(self)@ == shell_list_key(old(self)@, key).0,
            r@ == shell_list_key(old(self)@, key).1,
    {
        let ghost m = self@;
        let on_vars = self.shell_manager.active_tab == ShellManagerTab::Variables;
        let sel = self.shell_manager.selected;
        let nv = self.shell_manager.env_vars.len();
        let np = self.shell_manager.path_entries.len();
        if key == Key::Char('e') {
                if on_vars && sel < nv {
                    self.shell_manager.input_buffer = self.shell_manager.env_vars[sel].value.clone();
                    self.shell_manager.editing = EditingTarget::EditVarValue { idx: sel };
                } else if !on_vars && sel < np {
                    self.shell_manager.input_buffer = self.shell_manager.path_entries[sel].path.clone();
                    self.shell_manager.editing = EditingTarget::EditPath { idx: sel };
                }
                assert(self@ =~= shell_list_key(m, key).0);
                Effect::Nothing
                    } else {
                if on_vars && sel < nv {
                    self.shell_manager.input_buffer = self.shell_manager.env_vars[sel].name.clone();
                    self.shell_manager.editing = EditingTarget::EditVarName { idx: sel };
                }
                assert(self@ =~= shell_list_key(m, key).0);
                Effect::Nothing
                    }
    }

    fn list_toggle(&mut self, key: Key) -> (r: Effect)
        requires
            key == Key::Char('t') || key == Key::Char('T'),
        ensures
            final(self)@ == shell_list_key(old(self)@, key).0,
            r@ == shell_list_key(old(self)@, key).1,
    {
        let ghost m = self@;
        let on_vars = self.shell_manager.active_tab == ShellManagerTab::Variables;
        let sel = self.shell_manager.selected;
        let nv = self.shell_manager.env_vars.len();
        let np = self.shell_manager.path_entries.len();

                if on_vars && sel < nv {
                    let cur = &self.shell_manager.env_vars[sel];
                    let e = EnvVar {
                        name: cur.name.clone(),
                        value: cur.value.clone(),
                        enabled: !cur.enabled,
                    };
                    set_var(&mut self.shell_manager.env_vars, sel, e);
                } else if !on_vars && sel < np {
                    let cur = &self.shell_manager.path_entries[sel];
                    let e = PathEntry {
                        path: cur.path.clone(),
                        enabled: !cur.enabled,
                        label: clone_opt_string(&cur.label),
                    };
                    set_path(&mut self.shell_manager.path_entries, sel, e);
                }
                assert(self@ =~= shell_list_key(m, key).0);
                Effect::Nothing
            
    }

    fn list_switch_shell(&mut self, key: Key) -> (r: Effect)
        requires
            key == Key::Char('<') || key == Key::Char(',') || key == Key::Char('>') || key == Key::Char('.'),
        ensures
            final(self)@ == shell_list_key(old(self)@, key).0,
            r@ == shell_list_key(old(self)@, key).1,
    {
        let ghost m = self@;
        let on_vars = self.shell_manager.active_tab == ShellManagerTab::Variables;
        let sel = self.shell_manager.selected;
        let nv = self.shell_manager.env_vars.len();
        let np = self.shell_manager.path_entries.len();
        if key == Key::Char('<') || key == Key::Char(',') {
                let n = self.shell_manager.available_shells.len();
                if n > 0 {
                    let cur = shell_position(
                        &self.shell_manager.available_shells,
                        self.shell_manager.selected_shell,
                    );
                    let new_idx = if cur == 0 {
                        n - 1
                    } else {
                        cur - 1
                    };
                    Effect::SwitchShell(self.shell_manager.available_shells[new_idx])
                } else {
                    Effect::Nothing
                }
                    } else {
                let n = self.shell_manager.available_shells.len();
                if n > 0 {
                    let cur = shell_position(
                        &self.shell_manager.available_shells,
                        self.shell_manager.selected_shell,
                    );
                    let new_idx = (cur + 1) % n;
                    Effect::SwitchShell(self.shell_manager.available_shells[new_idx])
                } else {
                    Effect::Nothing
                }
                    }
    }

    fn handle_editing_key(&mut self, key: Key) -> (r: Effect)
        ensures
            final(self)@ == editing_key(old(self)@, key).0,
            r@ == editing_key(old(self)@, key).1,
    {
        let ghost m = self@;
        match key {
            Key::Esc => {
                self.shell_manager.editing = EditingTarget::Inactive;
                self.shell_manager.input_buffer = empty_string();
                assert(self@ =~= editing_key(m, key).0);
            },
            Key::Enter => {
                self.confirm_input();
                assert(self@ =~= editing_key(m, key).0);
            },
            Key::Backspace => {
                let _ = text::pop_char(&mut self.shell_manager.input_buffer);
                self.shell_manager.error = None;
                assert(self@ =~= editing_key(m, key).0);
            },
            Key::Char(c) => {
                text::push_char(&mut self.shell_manager.input_buffer, c);
                self.shell_manager.error = None;
                assert(self@ =~= editing_key(m, key).0);
            },
            _ => {},
        }
        Effect::Nothing
    }

    fn confirm_input(&mut self)
        ensures
            final(self)@ == (AppModel { shell_manager: enter_result(old(self)@.shell_manager), ..old(self)@ }),
    {
        let ghost m = self@;
        let ghost sm = m.shell_manager;
        let mut editing = EditingTarget::Inactive;
        core::mem::swap(&mut editing, &mut self.shell_manager.editing);
        let mut input = empty_string();
        core::mem::swap(&mut input, &mut self.shell_manager.input_buffer);
        let ic = text::string_chars(&input);
        let t = text::trim_chars(&ic);
        match editing {
            EditingTarget::AddVarName => {
                if t.len() == 0 {
                    self.shell_manager.error = Some(String::from_str("Name cannot be empty"));
                    self.shell_manager.editing = EditingTarget::AddVarName;
                    self.shell_manager.input_buffer = input;
                    assert(self.shell_manager@ =~= enter_result(sm));
                    assert(self@ =~= (AppModel { shell_manager: enter_result(sm), ..m }));
                    return ;
                }
                self.shell_manager.editing = EditingTarget::AddVarValue { name: text::from_chars(&t) };
            },
            EditingTarget::AddVarValue { name } => {
                let idx = self.shell_manager.env_vars.len();
                let ghost before = shell::env_views(self.shell_manager.env_vars@);
                let e = EnvVar { name, value: input, enabled: true };
                self.shell_manager.env_vars.push(e);
                assert(shell::env_views(self.shell_manager.env_vars@) =~= before.push(e@));
                self.shell_manager.selected = idx;
                self.shell_manager.message = Some(String::from_str("Variable added"));
            },
            EditingTarget::AddPath => {
                if t.len() == 0 {
                    self.shell_manager.error = Some(String::from_str("Path cannot be empty"));
                    self.shell_manager.editing = EditingTarget::AddPath;
                    self.shell_manager.input_buffer = input;
                    assert(self.shell_manager@ =~= enter_result(sm));
                    assert(self@ =~= (AppModel { shell_manager: enter_result(sm), ..m }));
                    return ;
                }
                let ghost before = shell::path_views(self.shell_manager.path_entries@);
                let e = PathEntry {
                    path: text::from_chars(&t),
                    enabled: true,
                    label: shell::guess_path_label(input.as_str()),
                };
                self.shell_manager.path_entries.push(e);
                assert(shell::path_views(self.shell_manager.path_entries@) =~= before.push(e@));
                self.shell_manager.selected = self.shell_manager.path_entries.len() - 1;
                self.shell_manager.message = Some(String::from_str("PATH entry added"));
            },
            EditingTarget::EditVarValue { idx } => {
                if idx < self.shell_manager.env_vars.len() {
                    let name = self.shell_manager.env_vars[idx].name.clone();
                    let enabled = self.shell_manager.env_vars[idx].enabled;
                    let message = quoted("Updated '", &name, "'");
                    set_var(&mut self.shell_manager.env_vars, idx, EnvVar { name, value: input, enabled });
                    self.shell_manager.message = Some(message);
                }
            },
            EditingTarget::EditVarName { idx } => {
                if t.len() == 0 {
                    self.shell_manager.error = Some(String::from_str("Name cannot be empty"));
                    self.shell_manager.editing = EditingTarget::EditVarName { idx };
                    self.shell_manager.input_buffer = input;
                    assert(self.shell_manager@ =~= enter_result(sm));
                    assert(self@ =~= (AppModel { shell_manager: enter_result(sm), ..m }));
                    return ;
                }
                if idx < self.shell_manager.env_vars.len() {
                    let old_name = self.shell_manager.env_vars[idx].name.clone();
                    let value = self.shell_manager.env_vars[idx].value.clone();
                    let enabled = self.shell_manager.env_vars[idx].enabled;
                    let new_name = text::from_chars(&t);
                    let mut message = quoted("Renamed '", &old_name, "' -> '");
                    message.append(new_name.as_str());
                    message.append("'");
                    set_var(&mut self.shell_manager.env_vars, idx, EnvVar { name: new_name, value, enabled });
                    self.shell_manager.message = Some(message);
                }
            },
            EditingTarget::EditPath { idx } => {
                if t.len() == 0 {
                    self.shell_manager.error = Some(String::from_str("Path cannot be empty"));
                    self.shell_manager.editing = EditingTarget::EditPath { idx };
                    self.shell_manager.input_buffer = input;
                    assert(self.shell_manager@ =~= enter_result(sm));
                    assert(self@ =~= (AppModel { shell_manager: enter_result(sm), ..m }));
                    return ;
                }
                if idx < self.shell_manager.path_entries.len() {
                    let enabled = self.shell_manager.path_entries[idx].enabled;
                    let e = PathEntry {
                        path: text::from_chars(&t),
                        enabled,
                        label: shell::path_label_of(&t),
                    };
                    set_path(&mut self.shell_manager.path_entries, idx, e);
                    self.shell_manager.message = Some(String::from_str("PATH entry updated"));
                }
            },
            EditingTarget::Inactive => {},
        }
        self.shell_manager.error = None;
        assert(self.shell_manager@ =~= enter_result(sm));
        assert(self@ =~= (AppModel { shell_manager: enter_result(sm), ..m }));
    }
}

/// The index of the first copy of `s` in `v`, or zero when there is none.
fn shell_position(v: &Vec<ShellKind>, s: ShellKind) -> (r: usize)
    ensures
        r == position_or_zero(v@, s),
        v.len() > 0 ==> r < v.len(),
{
    let mut i: usize = 0;
    assert(v@.skip(0) =~= v@);
    while i < v.len()
        invariant
            i <= v.len(),
            position_of(v@, s) == match position_of(v@.skip(i as int), s) {
                Some(k) => Some((k + i) as nat),
                None => None,
            },
        decreases v.len() - i,
    {
        assert(v@.skip(i as int).drop_first() =~= v@.skip(i + 1));
        if v[i] == s {
            return i;
        }
        i = i + 1;
    }
    0
}

/// Sorting keeps the number of elements.
pub proof fn lemma_sort_stable_len<T>(s: Seq<T>, less: spec_fn(T, T) -> bool)
    ensures
        order::sort_stable(s, less).len() == s.len(),
    decreases s.len(),
{
    if s.len() > 0 {
        lemma_sort_stable_len(s.drop_last(), less);
        let prev = order::sort_stable(s.drop_last(), less);
        assert(order::insert_pos(prev, s.last(), less) <= prev.len()) by {
            lemma_insert_pos_bound(prev, s.last(), less);
        }
    }
}

proof fn lemma_insert_pos_bound<T>(s: Seq<T>, x: T, less: spec_fn(T, T) -> bool)
    ensures
        order::insert_pos(s, x, less) <= s.len(),
    decreases s.len(),
{
    if s.len() > 0 {
        lemma_insert_pos_bound(s.drop_first(), x, less);
    }
}

proof fn lemma_list_key_wf(m: AppModel, key: Key)
    requires
        model_wf(m),
        m.shell_manager.editing is Inactive,
    ensures
        model_wf(shell_list_key(m, key).0),
{
}

proof fn lemma_editing_key_wf(m: AppModel, key: Key)
    requires
        model_wf(m),
    ensures
        model_wf(editing_key(m, key).0),
{
}

proof fn lemma_dashboard_key_wf(m: AppModel, key: Key)
    requires
        model_wf(m),
    ensures
        model_wf(dashboard_key(m, key).0),
{
    lemma_sort_stable_len(m.containers, order::container_order(m.stats, order::next_sort_spec(m.sort_by)));
}

/// Every key keeps the application's state well formed: the selections stay
/// inside their lists (or at zero) and an edited entry exists.
pub proof fn lemma_key_step_wf(m: AppModel, key: Key)
    requires
        model_wf(m),
    ensures
        model_wf(key_step(m, key).0),
{
    if m.mode == AppMode::ShellManager {
        let sm = m.shell_manager;
        if toggles_help(sm, key) {
        } else if sm.show_help {
        } else if !(sm.editing is Inactive) {
            lemma_editing_key_wf(m, key);
        } else {
            lemma_list_key_wf(m, key);
        }
    } else {
        lemma_dashboard_key_wf(m, key);
    }
}

// ─── What is shown ───────────────────────────────────────────────────────────

/// The four texts of the input box: title, label, typed text and hint; none
/// when nothing is being typed.
pub open spec fn modal_spec(sm: ShellManagerModel) -> Option<(Seq<char>, Seq<char>, Seq<char>, Seq<char>)> {
    let input = sm.input_buffer;
    match sm.editing {
        EditingModel::Inactive => None,
        EditingModel::AddVarName => Some(
            ("Add Variable"@, "Name"@, input, "e.g. GOPATH, NPM_CONFIG_PREFIX"@),
        ),
        EditingModel::AddVarValue { name } => Some(
            ("Add Variable"@, name, input, "e.g. /home/dev/go"@),
        ),
        EditingModel::AddPath => Some(
            ("Add PATH Entry"@, "Path"@, input, "e.g. /usr/local/go/bin"@),
        ),
        EditingModel::EditVarValue { idx } => Some(
            ("Edit Variable"@, sm.env_vars[idx as int].name, input, "Enter new value"@),
        ),
        EditingModel::EditVarName { idx } => Some(
            ("Rename Variable"@, sm.env_vars[idx as int].name, input, "Enter new name"@),
        ),
        EditingModel::EditPath { idx } => Some(
            ("Edit PATH Entry"@, sm.path_entries[idx as int].path, input, "Enter new path"@),
        ),
    }
}

/// The contents of the input box's texts.
pub open spec fn modal_view(o: Option<(String, String, String, String)>) -> Option<
    (Seq<char>, Seq<char>, Seq<char>, Seq<char>),
> {
    match o {
        Some((a, b, c, d)) => Some((a@, b@, c@, d@)),
        None => None,
    }
}

/// The rows of the key help: a key (or a heading, or nothing) and what it does.
pub open spec fn help_table() -> Seq<(Seq<char>, Seq<char>)> {
    seq![
        ("Navigation"@, ""@),
        ("j / Down"@, "Move down"@),
        ("k / Up"@, "Move up"@),
        ("Tab"@, "Switch tab (Vars <-> Paths)"@),
        ("1 / 2"@, "Jump to Vars / Paths tab"@),
        (""@, ""@),
        ("Actions"@, ""@),
        ("a"@, "Add new entry"@),
        ("d"@, "Delete selected entry"@),
        ("e"@, "Edit value / path"@),
        ("r"@, "Rename variable (Vars tab)"@),
        ("t"@, "Toggle enabled/disabled"@),
        (""@, ""@),
        ("Shell Management"@, ""@),
        ("s"@, "Save config to file"@),
        ("< / >"@, "Switch shell (bash/zsh/fish)"@),
        ("? / h"@, "Toggle this help"@),
        (""@, ""@),
        ("During Input"@, ""@),
        ("Enter"@, "Confirm / Next field"@),
        ("Esc"@, "Cancel"@),
        ("Backspace"@, "Delete char"@),
        (""@, ""@),
        ("Global"@, ""@),
        ("v / m"@, "Switch Dashboard <-> Shell Mgr"@),
        ("q / Esc"@, "Quit / Go back"@),
    ]
}

/// The contents of the help rows.
pub open spec fn help_view(v: Seq<(&'static str, &'static str)>) -> Seq<(Seq<char>, Seq<char>)> {
    v.map_values(|p: (&'static str, &'static str)| (p.0@, p.1@))
}

fn push_help(v: &mut Vec<(&'static str, &'static str)>, k: &'static str, d: &'static str)
    ensures
        help_view(final(v)@) == help_view(old(v)@).push((k@, d@)),
{
    v.push((k, d));
    assert(help_view(v@) =~= help_view(old(v)@).push((k@, d@)));
}

impl App {
    /// The texts of the input box while something is typed (see `modal_spec`).
    pub fn modal_display(&self) -> (r: Option<(String, String, String, String)>)
        requires
            editing_in_range(self@.shell_manager),
        ensures
            modal_view(r) == modal_spec(self@.shell_manager),
    {
        let sm = &self.shell_manager;
        if !sm.editing.is_active() {
            return None;
        }
        let input = sm.input_buffer.clone();
        match &sm.editing {
            EditingTarget::AddVarName => Some(
                (
                    String::from_str("Add Variable"),
                    String::from_str("Name"),
                    input,
                    String::from_str("e.g. GOPATH, NPM_CONFIG_PREFIX"),
                ),
            ),
            EditingTarget::AddVarValue { name } => Some(
                (
                    String::from_str("Add Variable"),
                    name.clone(),
                    input,
                    String::from_str("e.g. /home/dev/go"),
                ),
            ),
            EditingTarget::AddPath => Some(
                (
                    String::from_str("Add PATH Entry"),
                    String::from_str("Path"),
                    input,
                    String::from_str("e.g. /usr/local/go/bin"),
                ),
            ),
            EditingTarget::EditVarValue { idx } => Some(
                (
                    String::from_str("Edit Variable"),
                    sm.env_vars[*idx].name.clone(),
                    input,
                    String::from_str("Enter new value"),
                ),
            ),
            EditingTarget::EditVarName { idx } => Some(
                (
                    String::from_str("Rename Variable"),
                    sm.env_vars[*idx].name.clone(),
                    input,
                    String::from_str("Enter new name"),
                ),
            ),
            EditingTarget::EditPath { idx } => Some(
                (
                    String::from_str("Edit PATH Entry"),
                    sm.path_entries[*idx].path.clone(),
                    input,
                    String::from_str("Enter new path"),
                ),
            ),
            EditingTarget::Inactive => None,
        }
    }

    /// The rows of the key help (see `help_table`).
    pub fn keybindings_help() -> (r: Vec<(&'static str, &'static str)>)
        ensures
            help_view(r@) == help_table(),
    {
        let mut v: Vec<(&'static str, &'static str)> = Vec::new();
        push_help(&mut v, "Navigation", "");
        push_help(&mut v, "j / Down", "Move down");
        push_help(&mut v, "k / Up", "Move up");
        push_help(&mut v, "Tab", "Switch tab (Vars <-> Paths)");
        push_help(&mut v, "1 / 2", "Jump to Vars / Paths tab");
        push_help(&mut v, "", "");
        push_help(&mut v, "Actions", "");
        push_help(&mut v, "a", "Add new entry");
        push_help(&mut v, "d", "Delete selected entry");
        push_help(&mut v, "e", "Edit value / path");
        push_help(&mut v, "r", "Rename variable (Vars tab)");
        push_help(&mut v, "t", "Toggle enabled/disabled");
        push_help(&mut v, "", "");
        push_help(&mut v, "Shell Management", "");
        push_help(&mut v, "s", "Save config to file");
        push_help(&mut v, "< / >", "Switch shell (bash/zsh/fish)");
        push_help(&mut v, "? / h", "Toggle this help");
        push_help(&mut v, "", "");
        push_help(&mut v, "During Input", "");
        push_help(&mut v, "Enter", "Confirm / Next field");
        push_help(&mut v, "Esc", "Cancel");
        push_help(&mut v, "Backspace", "Delete char");
        push_help(&mut v, "", "");
        push_help(&mut v, "Global", "");
        push_help(&mut v, "v / m", "Switch Dashboard <-> Shell Mgr");
        push_help(&mut v, "q / Esc", "Quit / Go back");
        assert(help_view(v@) =~= help_table());
        v
    }
}

// ─── Laws of the key handling ────────────────────────────────────────────────

/// In the shell manager, with no help shown and nothing being typed.
pub open spec fn at_shell_lists(m: AppModel) -> bool {
    &&& m.mode == AppMode::ShellManager
    &&& !m.shell_manager.show_help
    &&& m.shell_manager.editing is Inactive
}

/// Law: toggling the selected entry twice leaves the state as it was.
pub proof fn lemma_toggle_twice(m: AppModel)
    requires
        at_shell_lists(m),
    ensures
        key_step(key_step(m, Key::Char('t')).0, Key::Char('t')).0 == m,
{
    let sm = m.shell_manager;
    let sel = sm.selected as int;
    let m1 = key_step(m, Key::Char('t')).0;
    if sm.active_tab == ShellManagerTab::Variables && sel < sm.env_vars.len() {
        assert(m1.shell_manager.env_vars.update(sel, toggled_var(m1.shell_manager.env_vars[sel]))
            =~= sm.env_vars);
    } else if sm.active_tab == ShellManagerTab::Paths && sel < sm.path_entries.len() {
        assert(m1.shell_manager.path_entries.update(
            sel,
            toggled_path(m1.shell_manager.path_entries[sel]),
        ) =~= sm.path_entries);
    }
    assert(key_step(m1, Key::Char('t')).0 =~= m);
}

/// Law: Tab twice comes back to the same tab, with the first row selected and
/// nothing else changed.
pub proof fn lemma_tab_twice(m: AppModel)
    requires
        at_shell_lists(m),
    ensures
        key_step(key_step(m, Key::Tab).0, Key::Tab).0 == (AppModel {
            shell_manager: ShellManagerModel { selected: 0, ..m.shell_manager },
            ..m
        }),
{
    let m1 = key_step(m, Key::Tab).0;
    assert(key_step(m1, Key::Tab).0 =~= AppModel {
        shell_manager: ShellManagerModel { selected: 0, ..m.shell_manager },
        ..m
    });
}

/// Law: Esc while typing drops what was typed and changes nothing else: the
/// variables and PATH entries are as they were.
pub proof fn lemma_escape_cancels(m: AppModel)
    requires
        m.mode == AppMode::ShellManager,
        !m.shell_manager.show_help,
        !(m.shell_manager.editing is Inactive),
    ensures
        key_step(m, Key::Esc).0 == (AppModel {
            shell_manager: ShellManagerModel {
                editing: EditingModel::Inactive,
                input_buffer: Seq::empty(),
                ..m.shell_manager
            },
            ..m
        }),
        key_step(m, Key::Esc).1 == EffectModel::Nothing,
{
}

/// Law: while the shell manager's help is shown, no key other than `?`, `h`,
/// Esc, `q` and `Q` changes anything or asks for any work.
pub proof fn lemma_help_blocks_keys(m: AppModel, key: Key)
    requires
        m.mode == AppMode::ShellManager,
        m.shell_manager.show_help,
        key != Key::Char('?'),
        key != Key::Char('h'),
        key != Key::Esc,
        key != Key::Char('q'),
        key != Key::Char('Q'),
    ensures
        key_step(m, key) == (m, EffectModel::Nothing),
{
}

/// Law: on the dashboard, stopping a container takes two keys: `x` marks the
/// selected container, and `y` then asks for it to be stopped and clears the
/// mark; Esc instead clears the mark and asks for nothing.
pub proof fn lemma_stop_needs_confirmation(m: AppModel)
    requires
        m.mode == AppMode::Dashboard,
        m.selected < m.containers.len(),
    ensures
        ({
            let name = m.containers[m.selected as int].name;
            let marked = key_step(m, Key::Char('x'));
            &&& marked.1 == EffectModel::Nothing
            &&& marked.0.pending_action == Some(PendingModel::Stop(name))
            &&& key_step(marked.0, Key::Char('y')).1 == (EffectModel::ContainerCommand {
                op: ContainerOp::Stop,
                name,
                success: "Container stopped: "@ + name,
            })
            &&& key_step(marked.0, Key::Char('y')).0.pending_action is None
            &&& key_step(marked.0, Key::Esc).1 == EffectModel::Nothing
            &&& key_step(marked.0, Key::Esc).0.pending_action is None
        }),
{
}

/// Law: on the dashboard, `q` asks to quit and changes nothing.
pub proof fn lemma_quit(m: AppModel)
    requires
        m.mode == AppMode::Dashboard,
    ensures
        key_step(m, Key::Char('q')) == (m, EffectModel::Quit),
{
}

/// Law: on the dashboard, Tab opens the shell manager as `v` and `m` do.
pub proof fn lemma_tab_opens_shell_manager(m: AppModel)
    requires
        m.mode == AppMode::Dashboard,
    ensures
        key_step(m, Key::Tab) == key_step(m, Key::Char('v')),
        key_step(m, Key::Tab).0.mode == AppMode::ShellManager,
        key_step(m, Key::Tab).1 == EffectModel::LoadShellConfig,
{
}

/// Law: on the dashboard, `s` moves to the next sort key and sorts by it, as
/// `t` does.
pub proof fn lemma_s_cycles_sort(m: AppModel)
    requires
        m.mode == AppMode::Dashboard,
    ensures
        key_step(m, Key::Char('s')) == key_step(m, Key::Char('t')),
        key_step(m, Key::Char('s')).0.sort_by == order::next_sort_spec(m.sort_by),
        key_step(m, Key::Char('s')).1 == EffectModel::Nothing,
{
}

/// Law: in the shell manager, with nothing being typed or the help shown, `h`
/// toggles the help and changes nothing else.
pub proof fn lemma_h_toggles_help(m: AppModel)
    requires
        m.mode == AppMode::ShellManager,
        m.shell_manager.show_help || m.shell_manager.editing is Inactive,
    ensures
        key_step(m, Key::Char('h')) == (
            AppModel {
                shell_manager: ShellManagerModel {
                    show_help: !m.shell_manager.show_help,
                    ..m.shell_manager
                },
                ..m
            },
            EffectModel::Nothing,
        ),
{
}

/// Law: while text is typed, a typed character followed by Backspace leaves the
/// text as it was; both clear the error and change nothing else. (`?` is not
/// typed: it toggles the help.)
pub proof fn lemma_type_then_backspace(m: AppModel, c: char)
    requires
        m.mode == AppMode::ShellManager,
        !m.shell_manager.show_help,
        !(m.shell_manager.editing is Inactive),
        c != '?',
    ensures
        key_step(m, Key::Char(c)).1 == EffectModel::Nothing,
        key_step(key_step(m, Key::Char(c)).0, Key::Backspace) == (
            AppModel { shell_manager: ShellManagerModel { error: None, ..m.shell_manager }, ..m },
            EffectModel::Nothing,
        ),
{
    let m1 = key_step(m, Key::Char(c)).0;
    assert(m1.shell_manager.input_buffer.drop_last() =~= m.shell_manager.input_buffer);
    assert(key_step(m1, Key::Backspace).0 =~= AppModel {
        shell_manager: ShellManagerModel { error: None, ..m.shell_manager },
        ..m
    });
}

/// Law: cycling the sort key four times comes back to the key it started from.
pub proof fn lemma_sort_key_cycle(s: SortBy)
    ensures
        order::next_sort_spec(
            order::next_sort_spec(order::next_sort_spec(order::next_sort_spec(s))),
        ) == s,
{
}

/// Law: a name typed for a new variable and confirmed (not blank), then a value
/// typed and confirmed, adds exactly that variable, enabled, at the end of the
/// list, with the name trimmed.
pub proof fn lemma_add_variable(m: AppModel, value: Seq<char>)
    requires
        m.mode == AppMode::ShellManager,
        !m.shell_manager.show_help,
        m.shell_manager.editing == EditingModel::AddVarName,
        text::trim(m.shell_manager.input_buffer).len() > 0,
    ensures
        ({
            let named = key_step(m, Key::Enter).0;
            let typed = AppModel {
                shell_manager: ShellManagerModel { input_buffer: value, ..named.shell_manager },
                ..named
            };
            let done = key_step(typed, Key::Enter).0;
            &&& named.shell_manager.editing == (EditingModel::AddVarValue {
                name: text::trim(m.shell_manager.input_buffer),
            })
            &&& done.shell_manager.env_vars == m.shell_manager.env_vars.push(
                EnvVarModel {
                    name: text::trim(m.shell_manager.input_buffer),
                    value,
                    enabled: true,
                },
            )
            &&& done.shell_manager.editing is Inactive
        }),
{
}

/// Law: on the dashboard, deleting a container takes two keys: `d` marks the
/// selected container (not any other), and `y` then asks for exactly that
/// container to be deleted and clears the mark; Esc instead clears the mark and
/// asks for nothing.
pub proof fn lemma_delete_needs_confirmation(m: AppModel)
    requires
        m.mode == AppMode::Dashboard,
        m.selected < m.containers.len(),
    ensures
        ({
            let name = m.containers[m.selected as int].name;
            let marked = key_step(m, Key::Char('d'));
            &&& marked.1 == EffectModel::Nothing
            &&& marked.0.pending_action == Some(PendingModel::Delete(name))
            &&& marked.0.containers == m.containers
            &&& marked.0.selected == m.selected
            &&& key_step(marked.0, Key::Char('y')).1 == (EffectModel::ContainerCommand {
                op: ContainerOp::Delete,
                name,
                success: "Container deleted: "@ + name,
            })
            &&& key_step(marked.0, Key::Char('y')).0.pending_action is None
            &&& key_step(marked.0, Key::Esc).1 == EffectModel::Nothing
            &&& key_step(marked.0, Key::Esc).0.pending_action is None
        }),
{
}

/// Law: in the shell manager, on the Variables tab, `d` removes exactly the
/// selected variable: the ones before it stay where they were, the ones after
/// it move up by one, the PATH entries are untouched, and the message names the
/// variable removed.
pub proof fn lemma_delete_selected_variable(m: AppModel)
    requires
        at_shell_lists(m),
        m.shell_manager.active_tab == ShellManagerTab::Variables,
        m.shell_manager.selected < m.shell_manager.env_vars.len(),
    ensures
        ({
            let old_vars = m.shell_manager.env_vars;
            let sel = m.shell_manager.selected as int;
            let r = key_step(m, Key::Char('d'));
            let new_vars = r.0.shell_manager.env_vars;
            &&& r.1 == EffectModel::Nothing
            &&& new_vars.len() == old_vars.len() - 1
            &&& forall|i: int| 0 <= i < sel ==> new_vars[i] == old_vars[i]
            &&& forall|i: int| sel <= i < new_vars.len() ==> new_vars[i] == old_vars[i + 1]
            &&& r.0.shell_manager.path_entries == m.shell_manager.path_entries
            &&& r.0.shell_manager.message == Some("Removed '"@ + old_vars[sel].name + "'"@)
            &&& r.0.shell_manager.selected < old_vars.len()
        }),
{
}

/// Law: in the shell manager, on the PATH tab, `d` removes exactly the selected
/// entry: the ones before it stay where they were, the ones after it move up by
/// one, the variables are untouched, and the message names the entry removed.
pub proof fn lemma_delete_selected_path(m: AppModel)
    requires
        at_shell_lists(m),
        m.shell_manager.active_tab == ShellManagerTab::Paths,
        m.shell_manager.selected < m.shell_manager.path_entries.len(),
    ensures
        ({
            let old_paths = m.shell_manager.path_entries;
            let sel = m.shell_manager.selected as int;
            let r = key_step(m, Key::Char('d'));
            let new_paths = r.0.shell_manager.path_entries;
            &&& r.1 == EffectModel::Nothing
            &&& new_paths.len() == old_paths.len() - 1
            &&& forall|i: int| 0 <= i < sel ==> new_paths[i] == old_paths[i]
            &&& forall|i: int| sel <= i < new_paths.len() ==> new_paths[i] == old_paths[i + 1]
            &&& r.0.shell_manager.env_vars == m.shell_manager.env_vars
            &&& r.0.shell_manager.message == Some("Removed '"@ + old_paths[sel].path + "'"@)
            &&& r.0.shell_manager.selected < old_paths.len()
        }),
{
}

/// Law: a refresh in which both listings succeed keeps the sort key the user
/// chose: the new containers are listed sorted by that key (stably: ties keep
/// the order in which podman listed them), each exactly as often as podman
/// listed it, and the new reports are kept.
pub proof fn lemma_refresh_keeps_sort(
    m: AppModel,
    sys: SystemInfo,
    cs: Seq<ContainerModel>,
    ss: Seq<StatsModel>,
)
    ensures
        ({
            let r = refreshed(m, sys, Ok(cs), Ok(ss));
            let less = order::container_order(ss, m.sort_by);
            &&& r.sort_by == m.sort_by
            &&& r.stats == ss
            &&& r.containers == order::sorted_containers(cs, ss, m.sort_by)
            &&& order::is_sorted(r.containers, less)
            &&& r.containers.to_multiset() == cs.to_multiset()
            &&& forall|e: ContainerModel| #[trigger]
                order::class_of(r.containers, less, e) == order::class_of(cs, less, e)
            &&& r.error_message is None
        }),
{
    let r = refreshed(m, sys, Ok(cs), Ok(ss));
    let less = order::container_order(ss, m.sort_by);
    order::lemma_sorted_containers(cs, ss, m.sort_by);
    assert forall|e: ContainerModel| #[trigger]
        order::class_of(r.containers, less, e) == order::class_of(cs, less, e) by {
        order::lemma_sorted_containers_stable(cs, ss, m.sort_by, e);
    }
}

/// Law: on the dashboard, `e` asks to open a shell in the selected container as
/// the ordinary user, and `E` as root; neither changes the state.
pub proof fn lemma_exec_selected(m: AppModel)
    requires
        m.mode == AppMode::Dashboard,
        m.selected < m.containers.len(),
    ensures
        ({
            let c = m.containers[m.selected as int];
            &&& key_step(m, Key::Char('e')) == (m, EffectModel::Exec {
                name: c.name,
                state: c.state,
                as_root: false,
            })
            &&& key_step(m, Key::Char('E')) == (m, EffectModel::Exec {
                name: c.name,
                state: c.state,
                as_root: true,
            })
        }),
{
}

/// Law: on the dashboard, with the help hidden and a container selected, `j`
/// selects the next container (staying on the last one), `k` the previous one
/// (staying on the first one), and nothing else changes. (A list held in memory
/// has at most `usize::MAX` entries.)
pub proof fn lemma_selection_moves(m: AppModel)
    requires
        m.mode == AppMode::Dashboard,
        !m.shell_manager.show_help,
        m.selected < m.containers.len(),
        m.containers.len() <= usize::MAX,
    ensures
        key_step(m, Key::Char('j')) == (
            AppModel {
                selected: if m.selected + 1 < m.containers.len() {
                    (m.selected + 1) as usize
                } else {
                    m.selected
                },
                ..m
            },
            EffectModel::Nothing,
        ),
        key_step(m, Key::Char('k')) == (
            AppModel {
                selected: if m.selected > 0 {
                    (m.selected - 1) as usize
                } else {
                    0
                },
                ..m
            },
            EffectModel::Nothing,
        ),
{
}

/// Law: on the dashboard, `s` moves the sort key from name to state, to CPU, to
/// memory and back to name, and lists the same containers, each as often as
/// before, sorted (stably) by the new key.
pub proof fn lemma_sort_key_sorts(m: AppModel)
    requires
        m.mode == AppMode::Dashboard,
    ensures
        ({
            let r = key_step(m, Key::Char('s')).0;
            let less = order::container_order(m.stats, r.sort_by);
            &&& (m.sort_by == SortBy::Name ==> r.sort_by == SortBy::Status)
            &&& (m.sort_by == SortBy::Status ==> r.sort_by == SortBy::Cpu)
            &&& (m.sort_by == SortBy::Cpu ==> r.sort_by == SortBy::Memory)
            &&& (m.sort_by == SortBy::Memory ==> r.sort_by == SortBy::Name)
            &&& order::is_sorted(r.containers, less)
            &&& r.containers.to_multiset() == m.containers.to_multiset()
            &&& forall|e: ContainerModel| #[trigger]
                order::class_of(r.containers, less, e) == order::class_of(m.containers, less, e)
            &&& r.stats == m.stats
        }),
{
    let r = key_step(m, Key::Char('s')).0;
    let less = order::container_order(m.stats, r.sort_by);
    order::lemma_sorted_containers(m.containers, m.stats, r.sort_by);
    assert forall|e: ContainerModel| #[trigger]
        order::class_of(r.containers, less, e) == order::class_of(m.containers, less, e) by {
        order::lemma_sorted_containers_stable(m.containers, m.stats, r.sort_by, e);
    }
}

/// Law: in the shell manager, `t` on the Variables tab flips whether the
/// selected variable is enabled, keeping its name and value, and leaves every
/// other variable and all PATH entries as they were.
pub proof fn lemma_toggle_selected_variable(m: AppModel)
    requires
        at_shell_lists(m),
        m.shell_manager.active_tab == ShellManagerTab::Variables,
        m.shell_manager.selected < m.shell_manager.env_vars.len(),
    ensures
        ({
            let old_vars = m.shell_manager.env_vars;
            let sel = m.shell_manager.selected as int;
            let r = key_step(m, Key::Char('t'));
            let new_vars = r.0.shell_manager.env_vars;
            &&& r.1 == EffectModel::Nothing
            &&& new_vars.len() == old_vars.len()
            &&& new_vars[sel].enabled == !old_vars[sel].enabled
            &&& new_vars[sel].name == old_vars[sel].name
            &&& new_vars[sel].value == old_vars[sel].value
            &&& forall|i: int| 0 <= i < old_vars.len() && i != sel ==> new_vars[i] == old_vars[i]
            &&& r.0.shell_manager.path_entries == m.shell_manager.path_entries
        }),
{
}

/// Law: in the shell manager, `e` starts editing the selected entry with its
/// current text: a variable's value on the Variables tab, the directory on the
/// PATH tab; nothing is changed until the text is confirmed.
pub proof fn lemma_edit_selected(m: AppModel)
    requires
        at_shell_lists(m),
        m.shell_manager.selected < tab_len(m.shell_manager),
    ensures
        ({
            let sm = m.shell_manager;
            let sel = sm.selected;
            let r = key_step(m, Key::Char('e'));
            &&& r.1 == EffectModel::Nothing
            &&& r.0.shell_manager.env_vars == sm.env_vars
            &&& r.0.shell_manager.path_entries == sm.path_entries
            &&& (sm.active_tab == ShellManagerTab::Variables ==> r.0.shell_manager.input_buffer
                == sm.env_vars[sel as int].value && r.0.shell_manager.editing
                == EditingModel::EditVarValue { idx: sel })
            &&& (sm.active_tab == ShellManagerTab::Paths ==> r.0.shell_manager.input_buffer
                == sm.path_entries[sel as int].path && r.0.shell_manager.editing
                == EditingModel::EditPath { idx: sel })
        }),
{
}

/// Law: every refresh keeps the new network totals for the next one, and, once
/// totals were kept before, shows how far each grew since (zero where a counter
/// went back); a failed listing leaves the containers and reports as they were
/// and shows the first error; after a successful one the selection stays where
/// it was while it is inside the new list, and otherwise moves to its last row.
pub proof fn lemma_refresh_readings(
    m: AppModel,
    sys: SystemInfo,
    containers: Result<Seq<ContainerModel>, Seq<char>>,
    stats: Result<Seq<StatsModel>, Seq<char>>,
)
    ensures
        ({
            let r = refreshed(m, sys, containers, stats);
            &&& r.prev_net_rx == sys.net_rx_bytes
            &&& r.prev_net_tx == sys.net_tx_bytes
            &&& r.system_info == sys
            &&& r.sort_by == m.sort_by
            &&& ((m.prev_net_rx > 0 || m.prev_net_tx > 0) ==> r.net_rx_delta == (if sys.net_rx_bytes
                >= m.prev_net_rx {
                sys.net_rx_bytes - m.prev_net_rx
            } else {
                0
            }) && r.net_tx_delta == (if sys.net_tx_bytes >= m.prev_net_tx {
                sys.net_tx_bytes - m.prev_net_tx
            } else {
                0
            }))
            &&& ((m.prev_net_rx == 0 && m.prev_net_tx == 0) ==> r.net_rx_delta == m.net_rx_delta
                && r.net_tx_delta == m.net_tx_delta)
            &&& (containers matches Err(e) ==> r.error_message == Some(e) && r.containers
                == m.containers && r.stats == m.stats && r.selected == m.selected)
            &&& (containers is Ok ==> (stats matches Err(e) ==> r.error_message == Some(e)
                && r.containers == m.containers && r.stats == m.stats && r.selected == m.selected))
            &&& ((containers is Ok && stats is Ok && m.selected < r.containers.len()) ==> r.selected
                == m.selected)
            &&& ((containers is Ok && stats is Ok && r.containers.len() > 0 && m.selected
                >= r.containers.len()) ==> r.selected == r.containers.len() - 1)
            &&& ((containers is Ok && stats is Ok && r.containers.len() == 0) ==> r.selected == 0)
        }),
{
}

} // verus!
