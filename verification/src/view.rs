//! What the screens show, computed from the application's state and the size
//! of the terminal: how the screen is split, which rows and lines are shown,
//! with which text, and how wide the table columns are. Drawing them, and the
//! figures that are floating point (percentages, byte sizes, speeds), is left
//! to the caller.
use vstd::prelude::*;
use crate::text;
use crate::order::SortBy;
use crate::podman::{ContainerInfo, ContainerModel, ContainerStats, StatsModel};
use crate::app::{App, AppMode, AppModel};
use crate::shell;
use crate::shell::{PathEntryModel, ShellKind};
use crate::app::{ShellManagerTab, EditingModel, PendingAction, PendingModel};

verus! {

// ─── Lengths and widths ──────────────────────────────────────────────────────

/// The length in bytes of a text (`str::len`): that of its UTF-8 encoding.
pub open spec fn byte_len(s: Seq<char>) -> usize {
    vstd::utf8::encode_utf8(s).len() as usize
}

/// The length in bytes of a string.
pub fn str_len(s: &String) -> (r: usize)
    ensures
        r == byte_len(s@),
{
    s.as_str().len()
}

/// The largest of `floor` and the widths.
pub open spec fn widest(ws: Seq<usize>, floor: usize) -> usize
    decreases ws.len(),
{
    if ws.len() == 0 {
        floor
    } else {
        let rest = widest(ws.drop_last(), floor);
        if ws.last() > rest {
            ws.last()
        } else {
            rest
        }
    }
}

/// The widest of the widths and `floor`, for a list of widths.
fn widest_of(ws: &Vec<usize>, floor: usize) -> (r: usize)
    ensures
        r == widest(ws@, floor),
{
    let mut r = floor;
    let mut i: usize = 0;
    while i < ws.len()
        invariant
            i <= ws.len(),
            r == widest(ws@.take(i as int), floor),
        decreases ws.len() - i,
    {
        assert(ws@.take(i + 1).drop_last() =~= ws@.take(i as int));
        if ws[i] > r {
            r = ws[i];
        }
        i = i + 1;
    }
    assert(ws@.take(ws.len() as int) =~= ws@);
    r
}

// ─── The dashboard ───────────────────────────────────────────────────────────

/// The height of the bar at the bottom: 18 rows while the shell manager shows
/// its help, else 3.
pub fn bottom_height(app: &App) -> (r: u16)
    ensures
        r == (if app@.mode == AppMode::ShellManager && app@.shell_manager.show_help {
            18u16
        } else {
            3u16
        }),
{
    if app.mode == AppMode::ShellManager && app.shell_manager.show_help {
        18
    } else {
        3
    }
}

/// How the dashboard's body is split on a screen `width` columns wide: whether
/// the container list and the panels stand side by side (from 80 columns) or
/// one above the other, and the list's share in percent (50 from 80 to 119
/// columns, else 55).
pub fn body_split(width: u16) -> (r: (bool, u16))
    ensures
        r == (width >= 80, if width >= 80 && width < 120 {
            50u16
        } else {
            55u16
        }),
{
    (width >= 80, if width >= 80 && width < 120 {
        50
    } else {
        55
    })
}

/// The height of the resource summary above the details, where both have
/// `height` rows: 10 from 14 rows, 8 from 10, else 6.
pub fn summary_height(height: u16) -> (r: u16)
    ensures
        r == (if height >= 14 {
            10u16
        } else if height >= 10 {
            8u16
        } else {
            6u16
        }),
{
    if height >= 14 {
        10
    } else if height >= 10 {
        8
    } else {
        6
    }
}

/// The name of a sort key as the title shows it.
pub open spec fn sort_name_spec(s: SortBy) -> Seq<char> {
    match s {
        SortBy::Name => "Name"@,
        SortBy::Status => "Status"@,
        SortBy::Cpu => "Cpu"@,
        SortBy::Memory => "Memory"@,
    }
}

/// The name of a sort key as the title shows it.
pub fn sort_name(s: SortBy) -> (r: &'static str)
    ensures
        r@ == sort_name_spec(s),
{
    match s {
        SortBy::Name => "Name",
        SortBy::Status => "Status",
        SortBy::Cpu => "Cpu",
        SortBy::Memory => "Memory",
    }
}

/// The dashboard's title: a heading, a run of spaces, and the sort key in brackets.
pub struct TitleView {
    pub heading: String,
    pub gap: usize,
    pub sort_label: Option<String>,
}

/// The title for a bar `width` columns wide: the long heading and
/// `[sorted by: key]` pushed to the right from 50 columns, the short heading and
/// `[key]` from 30, the short heading alone below that.
pub open spec fn title_spec(s: SortBy, width: u16) -> (Seq<char>, usize, Option<Seq<char>>) {
    if width >= 50 {
        (
            "Podman TUI Dashboard"@,
            width.saturating_sub(65) as usize,
            Some("[sorted by: "@ + sort_name_spec(s) + "]"@),
        )
    } else if width >= 30 {
        ("Podman TUI"@, 2, Some("["@ + sort_name_spec(s) + "]"@))
    } else {
        ("Podman TUI"@, 0, None)
    }
}

/// The dashboard's title for the sort key and a bar `width` columns wide.
pub fn title_view(s: SortBy, width: u16) -> (r: TitleView)
    ensures
        (r.heading@, r.gap, crate::shell::opt_view(r.sort_label)) == title_spec(s, width),
{
    let name = sort_name(s);
    if width >= 50 {
        let mut label = String::from_str("[sorted by: ");
        label.append(name);
        label.append("]");
        TitleView {
            heading: String::from_str("Podman TUI Dashboard"),
            gap: width.saturating_sub(65) as usize,
            sort_label: Some(label),
        }
    } else if width >= 30 {
        let mut label = String::from_str("[");
        label.append(name);
        label.append("]");
        TitleView { heading: String::from_str("Podman TUI"), gap: 2, sort_label: Some(label) }
    } else {
        TitleView { heading: String::from_str("Podman TUI"), gap: 0, sort_label: None }
    }
}

/// How a container's state is marked: running, paused or stopped, or otherwise.
#[derive(Debug, Clone, Copy, PartialEq, Eq, Structural)]
pub enum StateMark {
    Running,
    Halted,
    Other,
}

/// The mark of a state already in lower case.
pub open spec fn mark_of_lowercase_spec(l: Seq<char>) -> StateMark {
    if l == "running"@ {
        StateMark::Running
    } else if l == "paused"@ || l == "stopped"@ {
        StateMark::Halted
    } else {
        StateMark::Other
    }
}

/// The mark of a state, compared without case.
pub open spec fn state_mark_spec(state: Seq<char>) -> StateMark {
    mark_of_lowercase_spec(text::lowercase(state))
}

/// The mark of a state already in lower case.
pub fn mark_of_lowercase(l: &str) -> (r: StateMark)
    ensures
        r == mark_of_lowercase_spec(l@),
{
    let c = text::to_chars(l);
    if text::eq_str(&c, "running") {
        StateMark::Running
    } else if text::eq_str(&c, "paused") || text::eq_str(&c, "stopped") {
        StateMark::Halted
    } else {
        StateMark::Other
    }
}

/// The mark of a container's state.
pub fn state_mark(state: &str) -> (r: StateMark)
    ensures
        r == state_mark_spec(state@),
{
    let l = text::to_lowercase(state);
    mark_of_lowercase(l.as_str())
}

/// `r` is the index of the first report for the container named `name`, or
/// none when there is no such report.
pub open spec fn is_first_stats(stats: Seq<StatsModel>, name: Seq<char>, r: Option<usize>) -> bool {
    match r {
        Some(j) => j < stats.len() && stats[j as int].name == name && forall|k: int|
            0 <= k < j ==> (#[trigger] stats[k]).name != name,
        None => forall|k: int| 0 <= k < stats.len() ==> (#[trigger] stats[k]).name != name,
    }
}

/// The index of the first report for the container named `name`.
pub fn find_stats(stats: &Vec<ContainerStats>, name: &String) -> (r: Option<usize>)
    ensures
        is_first_stats(crate::order::stats_views(stats@), name@, r),
{
    let ghost sv = crate::order::stats_views(stats@);
    let mut j: usize = 0;
    while j < stats.len()
        invariant
            j <= stats.len(),
            sv == crate::order::stats_views(stats@),
            forall|k: int| 0 <= k < j ==> (#[trigger] sv[k]).name != name@,
        decreases stats.len() - j,
    {
        assert(sv[j as int] == stats@[j as int]@);
        if stats[j].name == *name {
            return Some(j);
        }
        j = j + 1;
    }
    None
}

/// A row of the container list.
pub struct ContainerRow {
    pub name: String,
    pub status: String,
    pub mark: StateMark,
    pub stats_at: Option<usize>,
    pub selected: bool,
}

/// The widths of the container list's columns, and whether the memory column
/// is shown. Without it the CPU column takes what is left.
#[derive(Debug, Clone, Copy, PartialEq, Eq, Structural)]
pub struct ContainerColumns {
    pub wide: bool,
    pub name: u16,
    pub status: u16,
    pub cpu: u16,
    pub mem: u16,
}

/// The widest name, two columns more than its length in bytes (wrapping
/// around), and at least 6.
pub open spec fn name_column_need(cs: Seq<ContainerModel>) -> usize {
    widest(Seq::new(cs.len(), |i: int| vstd::wrapping::usize_specs::wrapping_add(byte_len(cs[i].name), 2)), 6)
}

/// The widest status, in bytes, and at least 6.
pub open spec fn status_column_need(cs: Seq<ContainerModel>) -> usize {
    widest(Seq::new(cs.len(), |i: int| byte_len(cs[i].status)), 6)
}

/// The columns of a list `inner` columns wide inside its border, where the name
/// needs `mn` columns and the status `ms`: with the memory column when the
/// four fit (their sum wrapping around), the CPU column 8 wide and the memory
/// column at least 20; each width is what the others leave, and at least what
/// its column needs.
pub open spec fn container_columns_spec(mn: u16, ms: u16, inner: u16) -> ContainerColumns {
    let needed = vstd::wrapping::u16_specs::wrapping_add(
        vstd::wrapping::u16_specs::wrapping_add(vstd::wrapping::u16_specs::wrapping_add(mn, ms), 8),
        20,
    );
    if inner >= needed {
        let mem = vstd::math::max(inner.saturating_sub(mn).saturating_sub(ms).saturating_sub(8) as int, 20) as u16;
        let name = vstd::math::max(inner.saturating_sub(ms).saturating_sub(8).saturating_sub(mem) as int, mn as int) as u16;
        let status = vstd::math::max(inner.saturating_sub(name).saturating_sub(8).saturating_sub(mem) as int, ms as int) as u16;
        ContainerColumns { wide: true, name, status, cpu: 8, mem }
    } else {
        let avail = inner.saturating_sub(mn).saturating_sub(8);
        let name = vstd::math::max(
            inner.saturating_sub(vstd::math::max(avail as int, ms as int) as u16).saturating_sub(8) as int,
            mn as int,
        ) as u16;
        let status = vstd::math::max(avail.saturating_sub(8) as int, ms as int) as u16;
        ContainerColumns { wide: false, name, status, cpu: 8, mem: 0 }
    }
}

/// The columns for the needs of the name and status and the inner width.
pub fn container_columns(mn: u16, ms: u16, inner: u16) -> (r: ContainerColumns)
    ensures
        r == container_columns_spec(mn, ms, inner),
{
    let needed = mn.wrapping_add(ms).wrapping_add(8).wrapping_add(20);
    if inner >= needed {
        let mem = inner.saturating_sub(mn).saturating_sub(ms).saturating_sub(8).max(20);
        let name = inner.saturating_sub(ms).saturating_sub(8).saturating_sub(mem).max(mn);
        let status = inner.saturating_sub(name).saturating_sub(8).saturating_sub(mem).max(ms);
        ContainerColumns { wide: true, name, status, cpu: 8, mem }
    } else {
        let avail = inner.saturating_sub(mn).saturating_sub(8);
        let name = inner.saturating_sub(avail.max(ms)).saturating_sub(8).max(mn);
        let status = avail.saturating_sub(8).max(ms);
        ContainerColumns { wide: false, name, status, cpu: 8, mem: 0 }
    }
}

/// The container list as shown: its columns and one row per container, in
/// order, with the container's name, status, state mark, the index of its
/// first resource report and whether it is the selected one.
pub struct ContainerTable {
    pub columns: ContainerColumns,
    pub rows: Vec<ContainerRow>,
}

/// The container list for a list `width` columns wide with its border; none
/// when there are no containers ("No containers found").
pub fn container_table(app: &App, width: u16) -> (r: Option<ContainerTable>)
    ensures
        r is None <==> app@.containers.len() == 0,
        r matches Some(t) ==> {
            &&& t.columns == container_columns_spec(
                name_column_need(app@.containers) as u16,
                status_column_need(app@.containers) as u16,
                width.saturating_sub(2),
            )
            &&& t.rows.len() == app@.containers.len()
            &&& forall|i: int|
                0 <= i < t.rows.len() ==> {
                    let row = #[trigger] t.rows@[i];
                    let c = app@.containers[i];
                    &&& row.name@ == c.name
                    &&& row.status@ == c.status
                    &&& row.mark == state_mark_spec(c.state)
                    &&& is_first_stats(app@.stats, c.name, row.stats_at)
                    &&& row.selected == (i == app@.selected)
                }
        },
{
    let n = app.containers.len();
    if n == 0 {
        return None;
    }
    let ghost cs = app@.containers;
    let mut names: Vec<usize> = Vec::new();
    let mut statuses: Vec<usize> = Vec::new();
    let mut rows: Vec<ContainerRow> = Vec::new();
    let mut i: usize = 0;
    while i < n
        invariant
            n == app.containers.len(),
            cs == app@.containers,
            cs.len() == n,
            i <= n,
            names@ =~= Seq::new(
                i as nat,
                |k: int| vstd::wrapping::usize_specs::wrapping_add(byte_len(cs[k].name), 2),
            ),
            statuses@ =~= Seq::new(i as nat, |k: int| byte_len(cs[k].status)),
            rows.len() == i,
            forall|k: int|
                0 <= k < i ==> {
                    let row = #[trigger] rows@[k];
                    let c = cs[k];
                    &&& row.name@ == c.name
                    &&& row.status@ == c.status
                    &&& row.mark == state_mark_spec(c.state)
                    &&& is_first_stats(app@.stats, c.name, row.stats_at)
                    &&& row.selected == (k == app@.selected)
                },
        decreases n - i,
    {
        let c = &app.containers[i];
        assert(cs[i as int] == c@);
        names.push(str_len(&c.name).wrapping_add(2));
        statuses.push(str_len(&c.status));
        let row = ContainerRow {
            name: c.name.clone(),
            status: c.status.clone(),
            mark: state_mark(c.state.as_str()),
            stats_at: find_stats(&app.stats, &c.name),
            selected: i == app.selected,
        };
        rows.push(row);
        i = i + 1;
    }
    let mn = widest_of(&names, 6);
    let ms = widest_of(&statuses, 6);
    assert(names@ =~= Seq::new(
        cs.len(),
        |k: int| vstd::wrapping::usize_specs::wrapping_add(byte_len(cs[k].name), 2),
    ));
    assert(statuses@ =~= Seq::new(cs.len(), |k: int| byte_len(cs[k].status)));
    let columns = container_columns(
        #[verifier::truncate]
        (mn as u16),
        #[verifier::truncate]
        (ms as u16),
        width.saturating_sub(2),
    );
    Some(ContainerTable { columns, rows })
}

// ─── The resource summary ────────────────────────────────────────────────────

/// The number of containers whose state, compared without case, is `running`.
pub open spec fn running_count(cs: Seq<ContainerModel>) -> nat
    decreases cs.len(),
{
    if cs.len() == 0 {
        0
    } else {
        running_count(cs.drop_last()) + (if crate::launch::running_spec(cs.last().state) {
            1nat
        } else {
            0nat
        })
    }
}

/// The containers in all, running, and not running.
pub fn container_counts(app: &App) -> (r: (usize, usize, usize))
    ensures
        r.0 == app@.containers.len(),
        r.1 == running_count(app@.containers),
        r.2 == app@.containers.len() - running_count(app@.containers),
{
    let ghost cs = app@.containers;
    let n = app.containers.len();
    let mut running: usize = 0;
    let mut i: usize = 0;
    while i < n
        invariant
            n == app.containers.len(),
            cs == app@.containers,
            i <= n,
            running == running_count(cs.take(i as int)),
            running <= i,
        decreases n - i,
    {
        assert(cs.take(i + 1).drop_last() =~= cs.take(i as int));
        assert(cs.take(i + 1).last() == app.containers@[i as int]@);
        if crate::launch::is_running(app.containers[i].state.as_str()) {
            running = running + 1;
        }
        i = i + 1;
    }
    assert(cs.take(n as int) =~= cs);
    (n, running, n - running)
}

/// A line of the resource summary.
#[derive(Debug, Clone, Copy, PartialEq, Eq, Structural)]
pub enum SummaryLine {
    /// The containers' CPU and memory use.
    ContainerUsage,
    /// The containers in all, running and stopped.
    Counts,
    /// The containers' network and block I/O.
    Io,
    /// A rule as wide as the panel inside its border.
    Divider(u16),
    /// The host's CPU and memory use.
    HostUsage,
    /// The host's swap use.
    Swap,
    /// The host's network speed.
    Network,
}

/// The lines of a summary panel `height` rows high and `width` columns wide,
/// with its border, as many as fit in order; the swap line only when the host
/// has swap space.
pub open spec fn summary_lines_spec(height: u16, width: u16, has_swap: bool) -> Seq<SummaryLine> {
    let h = height.saturating_sub(2);
    (if h >= 1 { seq![SummaryLine::ContainerUsage] } else { Seq::empty() })
        + (if h >= 2 { seq![SummaryLine::Counts] } else { Seq::empty() })
        + (if h >= 3 { seq![SummaryLine::Io] } else { Seq::empty() })
        + (if h >= 4 { seq![SummaryLine::Divider(width.saturating_sub(2))] } else { Seq::empty() })
        + (if h >= 5 { seq![SummaryLine::HostUsage] } else { Seq::empty() })
        + (if h >= 6 && has_swap { seq![SummaryLine::Swap] } else { Seq::empty() })
        + (if h >= (if has_swap { 7u16 } else { 6u16 }) {
        seq![SummaryLine::Network]
    } else {
        Seq::empty()
    })
}

/// The lines of the resource summary for a panel of the given size.
pub fn summary_lines(app: &App, height: u16, width: u16) -> (r: Vec<SummaryLine>)
    ensures
        r@ == summary_lines_spec(height, width, app@.system_info.swap.total_bytes > 0),
{
    let has_swap = app.system_info.swap.total_bytes > 0;
    let h = height.saturating_sub(2);
    let mut r: Vec<SummaryLine> = Vec::new();
    let ghost e = Seq::<SummaryLine>::empty();
    if h >= 1 {
        r.push(SummaryLine::ContainerUsage);
    }
    let ghost p1 = r@;
    if h >= 2 {
        r.push(SummaryLine::Counts);
    }
    let ghost p2 = r@;
    if h >= 3 {
        r.push(SummaryLine::Io);
    }
    let ghost p3 = r@;
    if h >= 4 {
        r.push(SummaryLine::Divider(width.saturating_sub(2)));
    }
    let ghost p4 = r@;
    if h >= 5 {
        r.push(SummaryLine::HostUsage);
    }
    let ghost p5 = r@;
    if h >= 6 && has_swap {
        r.push(SummaryLine::Swap);
    }
    let ghost p6 = r@;
    let net_from: u16 = if has_swap {
        7
    } else {
        6
    };
    if h >= net_from {
        r.push(SummaryLine::Network);
    }
    assert(r@ =~= summary_lines_spec(height, width, has_swap));
    r
}

// ─── Container details ───────────────────────────────────────────────────────

/// The first `n` bytes of a text, read back as characters.
pub open spec fn byte_prefix(s: Seq<char>, n: int) -> Seq<char> {
    vstd::utf8::decode_utf8(vstd::utf8::encode_utf8(s).subrange(0, n))
}

/// A text cut to the byte: those of its first `n` bytes.
fn cut_bytes(s: &String, n: usize) -> (r: String)
    requires
        vstd::utf8::is_char_boundary(vstd::utf8::encode_utf8(s@), n as int),
    ensures
        r@ == byte_prefix(s@, n as int),
{
    let (a, _b) = s.as_str().split_at(n);
    proof {
        vstd::utf8::encode_utf8_decode_utf8(a@);
    }
    a.to_owned()
}

/// A text shown in at most `max` bytes: cut to `max - 1` bytes (none when
/// `max` is 0) and marked with `…` when it is longer.
pub open spec fn fitted(s: Seq<char>, max: usize) -> Seq<char> {
    if byte_len(s) > max {
        byte_prefix(s, max.saturating_sub(1) as int) + "…"@
    } else {
        s
    }
}

/// Where a text longer than `max` bytes is cut, a character starts.
pub open spec fn fits_at_boundary(s: Seq<char>, max: usize) -> bool {
    byte_len(s) > max ==> vstd::utf8::is_char_boundary(
        vstd::utf8::encode_utf8(s),
        max.saturating_sub(1) as int,
    )
}

/// A text fitted into `max` bytes.
fn fit(s: &String, max: usize) -> (r: String)
    requires
        fits_at_boundary(s@, max),
    ensures
        r@ == fitted(s@, max),
{
    if str_len(s) > max {
        let mut r = cut_bytes(s, max.saturating_sub(1));
        r.append("…");
        r
    } else {
        s.clone()
    }
}

/// An id shown short: its first 12 bytes.
pub open spec fn short_id_spec(id: Seq<char>) -> Seq<char> {
    if byte_len(id) > 12 {
        byte_prefix(id, 12)
    } else {
        id
    }
}

/// What the details panel shows of the selected container: its name and image
/// fitted to the panel, its short id and status, and the index of its first
/// resource report.
pub struct DetailsView {
    pub name: String,
    pub id: String,
    pub image: String,
    pub status: String,
    pub stats_at: Option<usize>,
}

/// The texts of a container fit where they are cut, for a panel `width` wide.
pub open spec fn details_cuttable(c: ContainerModel, width: u16) -> bool {
    let max = width.saturating_sub(8) as usize;
    &&& (byte_len(c.id) > 12 ==> vstd::utf8::is_char_boundary(vstd::utf8::encode_utf8(c.id), 12))
    &&& fits_at_boundary(c.name, max)
    &&& fits_at_boundary(c.image, max)
}

/// The details of the selected container for a panel `width` columns wide
/// ("No container selected" when there is none); names and images longer than
/// the panel less 8 columns, in bytes, are cut.
pub fn details_view(app: &App, width: u16) -> (r: Option<DetailsView>)
    requires
        app@.selected < app@.containers.len() ==> details_cuttable(
            app@.containers[app@.selected as int],
            width,
        ),
    ensures
        r is None <==> app@.selected >= app@.containers.len(),
        r matches Some(d) ==> {
            let c = app@.containers[app@.selected as int];
            let max = width.saturating_sub(8) as usize;
            &&& d.name@ == fitted(c.name, max)
            &&& d.id@ == short_id_spec(c.id)
            &&& d.image@ == fitted(c.image, max)
            &&& d.status@ == c.status
            &&& is_first_stats(app@.stats, c.name, d.stats_at)
        },
{
    if app.selected >= app.containers.len() {
        return None;
    }
    let c = &app.containers[app.selected];
    assert(app@.containers[app@.selected as int] == c@);
    let max = width.saturating_sub(8) as usize;
    let id = if str_len(&c.id) > 12 {
        cut_bytes(&c.id, 12)
    } else {
        c.id.clone()
    };
    Some(
        DetailsView {
            name: fit(&c.name, max),
            id,
            image: fit(&c.image, max),
            status: c.status.clone(),
            stats_at: find_stats(&app.stats, &c.name),
        },
    )
}

/// Whether the details of the selected container can be shown in a panel
/// `width` columns wide: where its id, name or image are cut, a character starts.
pub fn can_show_details(app: &App, width: u16) -> (r: bool)
    ensures
        r == (app@.selected < app@.containers.len() ==> details_cuttable(
            app@.containers[app@.selected as int],
            width,
        )),
{
    if app.selected >= app.containers.len() {
        return true;
    }
    let c = &app.containers[app.selected];
    assert(app@.containers[app@.selected as int] == c@);
    let max = width.saturating_sub(8) as usize;
    let id_ok = str_len(&c.id) <= 12 || c.id.as_str().is_char_boundary(12);
    let name_ok = str_len(&c.name) <= max || c.name.as_str().is_char_boundary(max.saturating_sub(1));
    let image_ok = str_len(&c.image) <= max || c.image.as_str().is_char_boundary(max.saturating_sub(1));
    id_ok && name_ok && image_ok
}

// ─── The shell manager's lists ───────────────────────────────────────────────

/// The widths of a two-column list `inner` columns wide inside its border, with
/// a third column 9 wide: the first column takes what the second needs leaves,
/// at least what it needs, but leaves 20; the second takes the rest, at least
/// what it needs.
pub open spec fn two_columns_spec(first_need: u16, second_need: u16, inner: u16) -> (u16, u16) {
    let first = vstd::math::min(
        vstd::math::max(inner.saturating_sub(second_need).saturating_sub(9) as int, first_need as int),
        inner.saturating_sub(20) as int,
    ) as u16;
    let second = vstd::math::max(inner.saturating_sub(first).saturating_sub(9) as int, second_need as int) as u16;
    (first, second)
}

/// The widths of a two-column list.
pub fn two_columns(first_need: u16, second_need: u16, inner: u16) -> (r: (u16, u16))
    ensures
        r == two_columns_spec(first_need, second_need, inner),
{
    let first = inner.saturating_sub(second_need).saturating_sub(9).max(first_need).min(
        inner.saturating_sub(20),
    );
    let second = inner.saturating_sub(first).saturating_sub(9).max(second_need);
    (first, second)
}

/// A row of a shell manager list: its two texts, whether it is enabled, and
/// whether it is the selected one.
pub struct ListRow {
    pub first: String,
    pub second: String,
    pub enabled: bool,
    pub selected: bool,
}

/// A shell manager list as shown: the widths of its first two columns and its rows.
pub struct ListView {
    pub first_width: u16,
    pub second_width: u16,
    pub rows: Vec<ListRow>,
}

/// Two columns more than the length in bytes, wrapping around.
pub open spec fn padded_len(s: Seq<char>) -> usize {
    vstd::wrapping::usize_specs::wrapping_add(byte_len(s), 2)
}

/// The variables list for a panel `width` columns wide with its border: name,
/// value and whether enabled; none when there are no variables ("No variables
/// configured - press 'a' to add").
pub fn variables_view(app: &App, width: u16) -> (r: Option<ListView>)
    ensures
        r is None <==> app@.shell_manager.env_vars.len() == 0,
        r matches Some(v) ==> {
            let vs = app@.shell_manager.env_vars;
            let mn = widest(Seq::new(vs.len(), |i: int| padded_len(vs[i].name)), 8);
            let mv = widest(Seq::new(vs.len(), |i: int| padded_len(vs[i].value)), 10);
            &&& (v.first_width, v.second_width) == two_columns_spec(
                mn as u16,
                mv as u16,
                width.saturating_sub(2),
            )
            &&& v.rows.len() == vs.len()
            &&& forall|i: int|
                0 <= i < v.rows.len() ==> {
                    let row = #[trigger] v.rows@[i];
                    &&& row.first@ == vs[i].name
                    &&& row.second@ == vs[i].value
                    &&& row.enabled == vs[i].enabled
                    &&& row.selected == (i == app@.shell_manager.selected)
                }
        },
{
    let vars = &app.shell_manager.env_vars;
    let n = vars.len();
    if n == 0 {
        return None;
    }
    let ghost vs = app@.shell_manager.env_vars;
    let mut names: Vec<usize> = Vec::new();
    let mut values: Vec<usize> = Vec::new();
    let mut rows: Vec<ListRow> = Vec::new();
    let mut i: usize = 0;
    while i < n
        invariant
            n == vars.len(),
            vars == &app.shell_manager.env_vars,
            vs == app@.shell_manager.env_vars,
            vs.len() == n,
            i <= n,
            names@ =~= Seq::new(i as nat, |k: int| padded_len(vs[k].name)),
            values@ =~= Seq::new(i as nat, |k: int| padded_len(vs[k].value)),
            rows.len() == i,
            forall|k: int|
                0 <= k < i ==> {
                    let row = #[trigger] rows@[k];
                    &&& row.first@ == vs[k].name
                    &&& row.second@ == vs[k].value
                    &&& row.enabled == vs[k].enabled
                    &&& row.selected == (k == app@.shell_manager.selected)
                },
        decreases n - i,
    {
        let v = &vars[i];
        assert(vs[i as int] == v@);
        names.push(str_len(&v.name).wrapping_add(2));
        values.push(str_len(&v.value).wrapping_add(2));
        rows.push(
            ListRow {
                first: v.name.clone(),
                second: v.value.clone(),
                enabled: v.enabled,
                selected: i == app.shell_manager.selected,
            },
        );
        i = i + 1;
    }
    let mn = widest_of(&names, 8);
    let mv = widest_of(&values, 10);
    assert(names@ =~= Seq::new(vs.len(), |k: int| padded_len(vs[k].name)));
    assert(values@ =~= Seq::new(vs.len(), |k: int| padded_len(vs[k].value)));
    let (first_width, second_width) = two_columns(
        #[verifier::truncate]
        (mn as u16),
        #[verifier::truncate]
        (mv as u16),
        width.saturating_sub(2),
    );
    Some(ListView { first_width, second_width, rows })
}

/// The widths of the labels that entries have, in order.
pub open spec fn label_widths(ps: Seq<PathEntryModel>) -> Seq<usize>
    decreases ps.len(),
{
    if ps.len() == 0 {
        Seq::empty()
    } else {
        label_widths(ps.drop_last()) + match ps.last().label {
            Some(l) => seq![padded_len(l)],
            None => Seq::empty(),
        }
    }
}

/// The label shown for an entry: its own, or `-`.
pub open spec fn label_shown(l: Option<Seq<char>>) -> Seq<char> {
    match l {
        Some(t) => t,
        None => "-"@,
    }
}

/// The PATH list for a panel `width` columns wide with its border: path, label
/// (`-` for none) and whether enabled; none when there are no entries ("No
/// PATH entries loaded").
pub fn paths_view(app: &App, width: u16) -> (r: Option<ListView>)
    ensures
        r is None <==> app@.shell_manager.path_entries.len() == 0,
        r matches Some(v) ==> {
            let ps = app@.shell_manager.path_entries;
            let mp = widest(Seq::new(ps.len(), |i: int| padded_len(ps[i].path)), 20);
            let ml = widest(label_widths(ps), 8);
            &&& (v.first_width, v.second_width) == two_columns_spec(
                mp as u16,
                ml as u16,
                width.saturating_sub(2),
            )
            &&& v.rows.len() == ps.len()
            &&& forall|i: int|
                0 <= i < v.rows.len() ==> {
                    let row = #[trigger] v.rows@[i];
                    &&& row.first@ == ps[i].path
                    &&& row.second@ == label_shown(ps[i].label)
                    &&& row.enabled == ps[i].enabled
                    &&& row.selected == (i == app@.shell_manager.selected)
                }
        },
{
    let entries = &app.shell_manager.path_entries;
    let n = entries.len();
    if n == 0 {
        return None;
    }
    let ghost ps = app@.shell_manager.path_entries;
    let mut paths: Vec<usize> = Vec::new();
    let mut labels: Vec<usize> = Vec::new();
    let mut rows: Vec<ListRow> = Vec::new();
    let mut i: usize = 0;
    while i < n
        invariant
            n == entries.len(),
            entries == &app.shell_manager.path_entries,
            ps == app@.shell_manager.path_entries,
            ps.len() == n,
            i <= n,
            paths@ =~= Seq::new(i as nat, |k: int| padded_len(ps[k].path)),
            labels@ == label_widths(ps.take(i as int)),
            rows.len() == i,
            forall|k: int|
                0 <= k < i ==> {
                    let row = #[trigger] rows@[k];
                    &&& row.first@ == ps[k].path
                    &&& row.second@ == label_shown(ps[k].label)
                    &&& row.enabled == ps[k].enabled
                    &&& row.selected == (k == app@.shell_manager.selected)
                },
        decreases n - i,
    {
        let e = &entries[i];
        assert(ps[i as int] == e@);
        assert(ps.take(i + 1).drop_last() =~= ps.take(i as int));
        assert(ps.take(i + 1).last() == e@);
        paths.push(str_len(&e.path).wrapping_add(2));
        let second = match &e.label {
            Some(l) => {
                labels.push(str_len(l).wrapping_add(2));
                l.clone()
            },
            None => String::from_str("-"),
        };
        proof {
            reveal_strlit("-");
        }
        rows.push(
            ListRow {
                first: e.path.clone(),
                second,
                enabled: e.enabled,
                selected: i == app.shell_manager.selected,
            },
        );
        i = i + 1;
    }
    let mp = widest_of(&paths, 20);
    let ml = widest_of(&labels, 8);
    assert(paths@ =~= Seq::new(ps.len(), |k: int| padded_len(ps[k].path)));
    assert(ps.take(n as int) =~= ps);
    let (first_width, second_width) = two_columns(
        #[verifier::truncate]
        (mp as u16),
        #[verifier::truncate]
        (ml as u16),
        width.saturating_sub(2),
    );
    Some(ListView { first_width, second_width, rows })
}

// ─── The configuration preview ───────────────────────────────────────────────

/// Strings from character lists.
fn strings_of(ls: &Vec<Vec<char>>) -> (r: Vec<String>)
    ensures
        crate::launch::string_views(r@) == text::views(ls@),
{
    let mut r: Vec<String> = Vec::new();
    let mut i: usize = 0;
    while i < ls.len()
        invariant
            i <= ls.len(),
            crate::launch::string_views(r@) =~= text::views(ls@).take(i as int),
        decreases ls.len() - i,
    {
        let ghost before = r@;
        let t = text::from_chars(&ls[i]);
        r.push(t);
        assert(crate::launch::string_views(r@) =~= crate::launch::string_views(before).push(t@));
        assert(text::views(ls@).take(i + 1) =~= text::views(ls@).take(i as int).push(ls@[i as int]@));
        i = i + 1;
    }
    assert(text::views(ls@).take(ls.len() as int) =~= text::views(ls@));
    r
}

/// What the preview of the configuration shows: the file (`~` and its path),
/// the syntax that starts an assignment, the lines that set the enabled
/// variables, and the PATH lines of the enabled entries, as saving writes them.
pub struct PreviewView {
    pub file: String,
    pub syntax: &'static str,
    pub var_lines: Vec<String>,
    pub path_lines: Vec<String>,
}

/// The preview of the configuration of the selected shell ("# No enabled
/// variables" or "# No enabled paths" stand where a list of lines is empty).
pub fn preview_view(app: &App) -> (r: PreviewView)
    ensures
        r.file@ == "~"@ + app@.shell_manager.config_path,
        r.syntax@ == (if app@.shell_manager.selected_shell == ShellKind::Fish {
            "set -gx "@
        } else {
            "export "@
        }),
        crate::launch::string_views(r.var_lines@) == shell::var_lines(
            app@.shell_manager.selected_shell,
            app@.shell_manager.env_vars,
        ),
        crate::launch::string_views(r.path_lines@) == shell::path_lines(
            app@.shell_manager.selected_shell,
            app@.shell_manager.path_entries,
        ),
{
    let sm = &app.shell_manager;
    let shell = sm.selected_shell;
    let mut file = String::from_str("~");
    file.append(sm.config_path.as_str());
    let (syntax, _) = shell::shell_export_syntax(shell);
    let mut vl: Vec<Vec<char>> = Vec::new();
    shell::push_var_lines(&mut vl, shell, sm.env_vars.as_slice());
    assert(text::views(vl@) =~= Seq::<Seq<char>>::empty() + shell::var_lines(
        shell,
        shell::env_views(sm.env_vars@),
    ));
    let mut pl: Vec<Vec<char>> = Vec::new();
    shell::push_path_lines(&mut pl, shell, sm.path_entries.as_slice());
    assert(text::views(pl@) =~= Seq::<Seq<char>>::empty() + shell::path_lines(
        shell,
        shell::path_views(sm.path_entries@),
    ));
    PreviewView { file, syntax, var_lines: strings_of(&vl), path_lines: strings_of(&pl) }
}

// ─── The shell selector and the tabs ─────────────────────────────────────────

/// A shell's name in capitals.
pub open spec fn upper_name_spec(shell: ShellKind) -> Seq<char> {
    match shell {
        ShellKind::Bash => "BASH"@,
        ShellKind::Zsh => "ZSH"@,
        ShellKind::Fish => "FISH"@,
    }
}

/// How a shell is listed in the selector: the selected one in capitals and brackets.
pub open spec fn shell_shown(shell: ShellKind, selected: ShellKind) -> Seq<char> {
    if shell == selected {
        "["@ + upper_name_spec(shell) + "]"@
    } else {
        shell::shell_name_spec(shell)
    }
}

/// How a shell is listed in the selector.
fn shell_label(shell: ShellKind, selected: ShellKind) -> (r: Vec<char>)
    ensures
        r@ == shell_shown(shell, selected),
{
    if shell == selected {
        let mut r: Vec<char> = Vec::new();
        text::extend_str(&mut r, "[");
        text::extend_str(
            &mut r,
            match shell {
                ShellKind::Bash => "BASH",
                ShellKind::Zsh => "ZSH",
                ShellKind::Fish => "FISH",
            },
        );
        text::extend_str(&mut r, "]");
        r
    } else {
        text::to_chars(shell::shell_name(shell))
    }
}

/// What the shell selector shows: the available shells, two spaces apart, the
/// selected one in capitals and brackets; whether the selected shell is the one
/// the host runs; and the configuration file (`~` and its path).
pub struct SelectorView {
    pub shells: String,
    pub detected: bool,
    pub file: String,
}

/// The shell selector, where `host_shell` is the shell the host runs.
pub fn selector_view(app: &App, host_shell: ShellKind) -> (r: SelectorView)
    ensures
        r.shells@ == text::join(
            Seq::new(
                app@.shell_manager.available_shells.len(),
                |i: int|
                    shell_shown(
                        app@.shell_manager.available_shells[i],
                        app@.shell_manager.selected_shell,
                    ),
            ),
            "  "@,
        ),
        r.detected == (app@.shell_manager.selected_shell == host_shell),
        r.file@ == "~"@ + app@.shell_manager.config_path,
{
    let sm = &app.shell_manager;
    let ghost av = sm.available_shells@;
    let mut parts: Vec<Vec<char>> = Vec::new();
    let mut i: usize = 0;
    while i < sm.available_shells.len()
        invariant
            i <= sm.available_shells.len(),
            av == sm.available_shells@,
            text::views(parts@) =~= Seq::new(
                i as nat,
                |k: int| shell_shown(av[k], sm.selected_shell),
            ),
        decreases sm.available_shells.len() - i,
    {
        let ghost before = parts@;
        let l = shell_label(sm.available_shells[i], sm.selected_shell);
        parts.push(l);
        assert(text::views(parts@) =~= text::views(before).push(l@));
        i = i + 1;
    }
    let shells = text::join_chars(&parts, "  ");
    let mut file = String::from_str("~");
    file.append(sm.config_path.as_str());
    SelectorView { shells, detected: sm.selected_shell == host_shell, file }
}

/// How much of the tab bar's labels fits.
#[derive(Debug, Clone, Copy, PartialEq, Eq, Structural)]
pub enum TabSize {
    /// "Dashboard | Shell [1:Vars | 2:Paths]", from 36 columns.
    Long,
    /// "Dash | Shell [V/P]", from 26 columns.
    Short,
    /// "Shell [V/P]" below that.
    Tiny,
}

/// What the tab bar shows: its labels, and which of the screens and lists is
/// the current one.
pub struct TabsView {
    pub size: TabSize,
    pub dashboard: bool,
    pub shell: bool,
    pub variables: bool,
    pub paths: bool,
}

/// The tab bar for a bar `width` columns wide.
pub fn tabs_view(app: &App, width: u16) -> (r: TabsView)
    ensures
        r.size == (if width >= 36 {
            TabSize::Long
        } else if width >= 26 {
            TabSize::Short
        } else {
            TabSize::Tiny
        }),
        r.dashboard == (app@.mode == AppMode::Dashboard),
        r.shell == (app@.mode == AppMode::ShellManager),
        r.variables == (app@.mode == AppMode::ShellManager && app@.shell_manager.active_tab
            == ShellManagerTab::Variables),
        r.paths == (app@.mode == AppMode::ShellManager && app@.shell_manager.active_tab
            == ShellManagerTab::Paths),
{
    let shell = app.mode == AppMode::ShellManager;
    TabsView {
        size: if width >= 36 {
            TabSize::Long
        } else if width >= 26 {
            TabSize::Short
        } else {
            TabSize::Tiny
        },
        dashboard: app.mode == AppMode::Dashboard,
        shell,
        variables: shell && app.shell_manager.active_tab == ShellManagerTab::Variables,
        paths: shell && app.shell_manager.active_tab == ShellManagerTab::Paths,
    }
}

/// The width of the tab bar beside the shell selector on a screen `width`
/// columns wide: 50 from 110 columns, 38 from 70; below that the tab bar takes
/// the whole line and the selector is not shown.
pub fn tab_bar_width(width: u16) -> (r: Option<u16>)
    ensures
        r == (if width >= 110 {
            Some(50u16)
        } else if width >= 70 {
            Some(38u16)
        } else {
            None
        }),
{
    if width >= 110 {
        Some(50)
    } else if width >= 70 {
        Some(38)
    } else {
        None
    }
}

// ─── The bars at the bottom ──────────────────────────────────────────────────

/// What follows the key bindings in a bottom bar.
pub enum BarNote {
    /// Text is being typed: how to confirm or cancel it.
    Typing,
    /// A command waits for confirmation; the text names it and the container.
    Confirm(String),
    /// A message that something was done.
    Message(String),
    /// An error.
    Error(String),
}

/// The contents of a bar note.
pub enum BarNoteModel {
    Typing,
    Confirm(Seq<char>),
    Message(Seq<char>),
    Error(Seq<char>),
}

impl View for BarNote {
    type V = BarNoteModel;

    open spec fn view(&self) -> BarNoteModel {
        match self {
            BarNote::Typing => BarNoteModel::Typing,
            BarNote::Confirm(t) => BarNoteModel::Confirm(t@),
            BarNote::Message(t) => BarNoteModel::Message(t@),
            BarNote::Error(t) => BarNoteModel::Error(t@),
        }
    }
}

/// The contents of an optional bar note.
pub open spec fn note_view(n: Option<BarNote>) -> Option<BarNoteModel> {
    match n {
        Some(b) => Some(b@),
        None => None,
    }
}

/// What the dashboard's bottom bar shows: the key bindings that fit in it, and
/// a note.
pub struct ActionBar {
    pub bindings: &'static str,
    pub note: Option<BarNote>,
}

/// The dashboard's key bindings for a bar `width` columns wide.
pub open spec fn dashboard_bindings_spec(width: u16) -> Seq<char> {
    if width >= 100 {
        " [j/k]Nav [s]Start [x]Stop [d]Delete [e]Exec [E]Root [r]Refresh [t]Sort [b]Terminal [v/m]ShellMgr [?]Help [q]Quit "@
    } else if width >= 70 {
        " [j/k]Nav [s]Start [x]Stop [d]Del [e]Exec [E]Root [b]Term [v]ShellMgr [q]Quit "@
    } else if width >= 50 {
        " [j/k]Nav [s]Start [x]Stop [e]Exec [b]Term [q]Quit "@
    } else {
        " j/k Nav | s Start | x Stop | e Exec | q Quit "@
    }
}

/// The note of the dashboard's bar: the command waiting for confirmation
/// (`[y] Confirm Stop 'name'`), else the error, else the status message.
pub open spec fn dashboard_note_spec(m: AppModel) -> Option<BarNoteModel> {
    match m.pending_action {
        Some(PendingModel::Stop(n)) => Some(BarNoteModel::Confirm("[y] Confirm Stop '"@ + n + "'"@)),
        Some(PendingModel::Delete(n)) => Some(
            BarNoteModel::Confirm("[y] Confirm Delete '"@ + n + "'"@),
        ),
        None => match m.error_message {
            Some(e) => Some(BarNoteModel::Error(e)),
            None => match m.status_message {
                Some(s) => Some(BarNoteModel::Message(s)),
                None => None,
            },
        },
    }
}

/// The dashboard's bottom bar for a bar `width` columns wide.
pub fn dashboard_bar(app: &App, width: u16) -> (r: ActionBar)
    ensures
        r.bindings@ == dashboard_bindings_spec(width),
        note_view(r.note) == dashboard_note_spec(app@),
{
    let bindings = if width >= 100 {
        " [j/k]Nav [s]Start [x]Stop [d]Delete [e]Exec [E]Root [r]Refresh [t]Sort [b]Terminal [v/m]ShellMgr [?]Help [q]Quit "
    } else if width >= 70 {
        " [j/k]Nav [s]Start [x]Stop [d]Del [e]Exec [E]Root [b]Term [v]ShellMgr [q]Quit "
    } else if width >= 50 {
        " [j/k]Nav [s]Start [x]Stop [e]Exec [b]Term [q]Quit "
    } else {
        " j/k Nav | s Start | x Stop | e Exec | q Quit "
    };
    let note = match &app.pending_action {
        Some(action) => {
            let (mut t, name) = match action {
                PendingAction::Stop(n) => (String::from_str("[y] Confirm Stop '"), n),
                PendingAction::Delete(n) => (String::from_str("[y] Confirm Delete '"), n),
            };
            t.append(name.as_str());
            t.append("'");
            Some(BarNote::Confirm(t))
        },
        None => match &app.error_message {
            Some(e) => Some(BarNote::Error(e.clone())),
            None => match &app.status_message {
                Some(m) => Some(BarNote::Message(m.clone())),
                None => None,
            },
        },
    };
    ActionBar { bindings, note }
}

/// What the shell manager's bottom bar shows: the key bindings that fit in it,
/// a note, and the list being shown.
pub struct ShellBar {
    pub bindings: String,
    pub note: Option<BarNote>,
    pub active: &'static str,
}

/// The shell manager's key bindings for a bar `width` columns wide; the widest
/// names the available shells, `/` apart, in brackets.
pub open spec fn shell_bindings_spec(width: u16, shells: Seq<ShellKind>) -> Seq<char> {
    let hint = if shells.len() == 0 {
        ""@
    } else {
        " ["@ + text::join(Seq::new(shells.len(), |i: int| shell::shell_name_spec(shells[i])), "/"@)
            + "]"@
    };
    if width >= 100 {
        "[j/k]Nav [a]Add [d]Del [e]Edit [r]Rename [t]Toggle [s]Save [Tab]Tab [1/2]Jump [<,>]Shell"@
            + hint + " [?]Help [v]Back [q]Quit"@
    } else if width >= 70 {
        "[j/k]Nav [a]Add [d]Del [e]Edit [t]Toggle [s]Save [?]Help [q]Quit"@
    } else {
        "j/k Nav | a Add | d Del | e Edit | s Save | q Quit"@
    }
}

/// The note of the shell manager's bar: how to finish typing while text is
/// typed, else the message, else the error.
pub open spec fn shell_note_spec(m: AppModel) -> Option<BarNoteModel> {
    if !(m.shell_manager.editing is Inactive) {
        Some(BarNoteModel::Typing)
    } else {
        match m.shell_manager.message {
            Some(s) => Some(BarNoteModel::Message(s)),
            None => match m.shell_manager.error {
                Some(e) => Some(BarNoteModel::Error(e)),
                None => None,
            },
        }
    }
}

/// The names of the available shells.
fn shell_names(shells: &Vec<ShellKind>) -> (r: Vec<Vec<char>>)
    ensures
        text::views(r@) =~= Seq::new(shells@.len(), |i: int| shell::shell_name_spec(shells@[i])),
{
    let mut r: Vec<Vec<char>> = Vec::new();
    let mut i: usize = 0;
    while i < shells.len()
        invariant
            i <= shells.len(),
            text::views(r@) =~= Seq::new(i as nat, |k: int| shell::shell_name_spec(shells@[k])),
        decreases shells.len() - i,
    {
        let ghost before = r@;
        let n = text::to_chars(shell::shell_name(shells[i]));
        r.push(n);
        assert(text::views(r@) =~= text::views(before).push(n@));
        i = i + 1;
    }
    r
}

/// The shell manager's bottom bar for a bar `width` columns wide.
pub fn shell_bar(app: &App, width: u16) -> (r: ShellBar)
    ensures
        r.bindings@ == shell_bindings_spec(width, app@.shell_manager.available_shells),
        note_view(r.note) == shell_note_spec(app@),
        r.active@ == (if app@.shell_manager.active_tab == ShellManagerTab::Variables {
            "Active:Vars"@
        } else {
            "Active:Paths"@
        }),
{
    let sm = &app.shell_manager;
    let bindings = if width >= 100 {
        let mut b = String::from_str(
            "[j/k]Nav [a]Add [d]Del [e]Edit [r]Rename [t]Toggle [s]Save [Tab]Tab [1/2]Jump [<,>]Shell",
        );
        if sm.available_shells.len() > 0 {
            let names = shell_names(&sm.available_shells);
            let joined = text::join_chars(&names, "/");
            b.append(" [");
            b.append(joined.as_str());
            b.append("]");
        } else {
            proof {
                reveal_strlit("");
            }
            assert(b@ =~= b@ + ""@);
        }
        b.append(" [?]Help [v]Back [q]Quit");
        b
    } else if width >= 70 {
        String::from_str("[j/k]Nav [a]Add [d]Del [e]Edit [t]Toggle [s]Save [?]Help [q]Quit")
    } else {
        String::from_str("j/k Nav | a Add | d Del | e Edit | s Save | q Quit")
    };
    let note = if sm.editing.is_active() {
        Some(BarNote::Typing)
    } else {
        match &sm.message {
            Some(m) => Some(BarNote::Message(m.clone())),
            None => match &sm.error {
                Some(e) => Some(BarNote::Error(e.clone())),
                None => None,
            },
        }
    };
    let active = match sm.active_tab {
        ShellManagerTab::Variables => "Active:Vars",
        ShellManagerTab::Paths => "Active:Paths",
    };
    ShellBar { bindings, note, active }
}

// ─── The help and the input box ──────────────────────────────────────────────

/// A line of the key help.
pub enum HelpLine {
    Blank,
    /// A heading, indented by two.
    Section(String),
    /// A key, indented by four and padded to 14 characters, and what it does.
    Binding(String, String),
}

/// The contents of a help line.
pub enum HelpLineModel {
    Blank,
    Section(Seq<char>),
    Binding(Seq<char>, Seq<char>),
}

impl View for HelpLine {
    type V = HelpLineModel;

    open spec fn view(&self) -> HelpLineModel {
        match self {
            HelpLine::Blank => HelpLineModel::Blank,
            HelpLine::Section(t) => HelpLineModel::Section(t@),
            HelpLine::Binding(k, d) => HelpLineModel::Binding(k@, d@),
        }
    }
}

/// `n` spaces.
pub open spec fn spaces(n: nat) -> Seq<char> {
    Seq::new(n, |i: int| ' ')
}

/// A row of the key help as a line: blank when both are empty, a heading when
/// there is no description, else the padded key and its description.
pub open spec fn help_line_spec(row: (Seq<char>, Seq<char>)) -> HelpLineModel {
    if row.0.len() == 0 && row.1.len() == 0 {
        HelpLineModel::Blank
    } else if row.1.len() == 0 {
        HelpLineModel::Section("  "@ + row.0)
    } else {
        HelpLineModel::Binding(
            "    "@ + row.0 + spaces(if row.0.len() < 14 {
                (14 - row.0.len()) as nat
            } else {
                0
            }),
            row.1,
        )
    }
}

/// The lines of the key help, one per row of `help_table`.
pub fn help_lines() -> (r: Vec<HelpLine>)
    ensures
        r.len() == crate::app::help_table().len(),
        forall|i: int| 0 <= i < r.len() ==> (#[trigger] r@[i])@ == help_line_spec(crate::app::help_table()[i]),
{
    let rows = App::keybindings_help();
    let ghost t = crate::app::help_table();
    assert(t.len() == rows.len()) by {
        assert(crate::app::help_view(rows@).len() == rows@.len());
    }
    let mut r: Vec<HelpLine> = Vec::new();
    let mut i: usize = 0;
    while i < rows.len()
        invariant
            i <= rows.len(),
            t == crate::app::help_view(rows@),
            t.len() == rows.len(),
            r.len() == i,
            forall|k: int| 0 <= k < i ==> (#[trigger] r@[k])@ == help_line_spec(t[k]),
        decreases rows.len() - i,
    {
        let (key, desc) = rows[i];
        assert(t[i as int] == (key@, desc@));
        let line = if key.is_empty() && desc.is_empty() {
            HelpLine::Blank
        } else if desc.is_empty() {
            let mut h = String::from_str("  ");
            h.append(key);
            HelpLine::Section(h)
        } else {
            let mut k: Vec<char> = Vec::new();
            text::extend_str(&mut k, "    ");
            text::extend_str(&mut k, key);
            let kc = text::to_chars(key);
            let mut n: usize = kc.len();
            let ghost base = k@;
            while n < 14
                invariant
                    kc@ == key@,
                    kc.len() <= n <= 14 || (n == kc.len() && n >= 14),
                    k@ == base + spaces((n - kc.len()) as nat),
                decreases 14 - n,
            {
                let ghost before = k@;
                k.push(' ');
                assert(k@ =~= base + spaces((n + 1 - kc.len()) as nat));
                n = n + 1;
            }
            assert(k@ =~= "    "@ + key@ + spaces(if key@.len() < 14 {
                (14 - key@.len()) as nat
            } else {
                0
            }));
            HelpLine::Binding(text::from_chars(&k), String::from_str(desc))
        };
        r.push(line);
        i = i + 1;
    }
    r
}

/// Where the input box stands on a screen `width` by `height`: at most 70
/// columns wide (4 fewer than the screen), 7 rows high, in the middle.
pub struct PopupArea {
    pub x: u16,
    pub y: u16,
    pub width: u16,
    pub height: u16,
}

/// The place of the input box on a screen `width` by `height`.
pub fn popup_area(width: u16, height: u16) -> (r: PopupArea)
    ensures
        r.width == vstd::math::min(70, width.saturating_sub(4) as int),
        r.height == 7,
        r.x == width.saturating_sub(r.width) / 2,
        r.y == height.saturating_sub(7) / 2,
{
    let w = if width.saturating_sub(4) < 70 {
        width.saturating_sub(4)
    } else {
        70
    };
    PopupArea { x: width.saturating_sub(w) / 2, y: height.saturating_sub(7) / 2, width: w, height: 7 }
}

/// The typed text followed by the cursor mark `▌`.
pub fn with_cursor(buffer: &str) -> (r: String)
    ensures
        r@ == buffer@ + "▌"@,
{
    let mut r = String::from_str(buffer);
    r.append("▌");
    r
}

} // verus!
