//! Containers and the host: what `podman ps` and `podman stats` report about each
//! container, and what the kernel's `/proc` files report about the host.
use vstd::prelude::*;
use crate::text;

verus! {

// ─── Host resources ──────────────────────────────────────────────────────────

/// Swap space of the host.
#[derive(Debug, Clone, Copy, Default, PartialEq, Eq)]
pub struct SwapInfo {
    pub total_bytes: u64,
    pub used_bytes: u64,
}

/// Resources of the host.
#[derive(Debug, Clone, Copy, PartialEq, Eq)]
pub struct SystemInfo {
    pub cpu_cores: usize,
    pub total_mem_bytes: u64,
    pub used_mem_bytes: u64,
    pub swap: SwapInfo,
    pub net_rx_bytes: u64,
    pub net_tx_bytes: u64,
}

/// The host with nothing known of it: every count zero.
pub open spec fn empty_system_info() -> SystemInfo {
    SystemInfo {
        cpu_cores: 0,
        total_mem_bytes: 0,
        used_mem_bytes: 0,
        swap: SwapInfo { total_bytes: 0, used_bytes: 0 },
        net_rx_bytes: 0,
        net_tx_bytes: 0,
    }
}

impl Default for SystemInfo {
    fn default() -> (r: Self)
        ensures
            r == empty_system_info(),
    {
        SystemInfo {
            cpu_cores: 0,
            total_mem_bytes: 0,
            used_mem_bytes: 0,
            swap: SwapInfo { total_bytes: 0, used_bytes: 0 },
            net_rx_bytes: 0,
            net_tx_bytes: 0,
        }
    }
}

// ─── Containers ──────────────────────────────────────────────────────────────

/// A container as `podman ps` lists it.
#[derive(Debug, Clone, PartialEq)]
pub struct ContainerInfo {
    pub id: String,
    pub name: String,
    pub image: String,
    pub status: String,
    pub state: String,
}

/// The contents of a container's listing.
pub struct ContainerModel {
    pub id: Seq<char>,
    pub name: Seq<char>,
    pub image: Seq<char>,
    pub status: Seq<char>,
    pub state: Seq<char>,
}

impl View for ContainerInfo {
    type V = ContainerModel;

    open spec fn view(&self) -> ContainerModel {
        ContainerModel {
            id: self.id@,
            name: self.name@,
            image: self.image@,
            status: self.status@,
            state: self.state@,
        }
    }
}

/// Resource use of a container as `podman stats` reports it. The two
/// percentages are kept as the bit patterns of the `f64` values that were read
/// (`f64::to_bits`), which is what orders containers by them.
#[derive(Debug, Clone, PartialEq)]
pub struct ContainerStats {
    pub name: String,
    pub cpu_percent_bits: u64,
    pub mem_usage: String,
    pub mem_percent_bits: u64,
    pub net_io: String,
    pub block_io: String,
}

/// The contents of a container's resource report.
pub struct StatsModel {
    pub name: Seq<char>,
    pub cpu_percent_bits: u64,
    pub mem_usage: Seq<char>,
    pub mem_percent_bits: u64,
    pub net_io: Seq<char>,
    pub block_io: Seq<char>,
}

impl View for ContainerStats {
    type V = StatsModel;

    open spec fn view(&self) -> StatsModel {
        StatsModel {
            name: self.name@,
            cpu_percent_bits: self.cpu_percent_bits,
            mem_usage: self.mem_usage@,
            mem_percent_bits: self.mem_percent_bits,
            net_io: self.net_io@,
            block_io: self.block_io@,
        }
    }
}

/// The names field of `podman ps` JSON: one name, or a list of them.
#[derive(Debug, Clone, PartialEq)]
pub enum NamesField {
    One(String),
    Many(Vec<String>),
}

/// The name shown for a container: the only name, the first of several, or
/// empty when there is none.
pub open spec fn name_of(names: Option<NamesField>) -> Seq<char> {
    match names {
        Some(NamesField::One(n)) => n@,
        Some(NamesField::Many(v)) => if v@.len() > 0 {
            v@[0]@
        } else {
            Seq::empty()
        },
        None => Seq::empty(),
    }
}

/// The name shown for a container: the only name, the first of several, or
/// empty when there is none.
pub fn extract_name(names: Option<NamesField>) -> (r: String)
    ensures
        r@ == name_of(names),
{
    match names {
        Some(NamesField::One(name)) => name,
        Some(NamesField::Many(names)) => {
            if names.len() > 0 {
                names[0].clone()
            } else {
                let s = String::new();
                assert(s@ =~= Seq::<char>::empty());
                s
            }
        },
        None => {
            let s = String::new();
            assert(s@ =~= Seq::<char>::empty());
            s
        },
    }
}

/// The characters of an optional string, empty where there is none.
pub open spec fn or_empty(o: Option<String>) -> Seq<char> {
    match o {
        Some(s) => s@,
        None => Seq::empty(),
    }
}

fn unwrap_or_empty(o: Option<String>) -> (r: String)
    ensures
        r@ == or_empty(o),
{
    match o {
        Some(s) => s,
        None => {
            let s = String::new();
            assert(s@ =~= Seq::<char>::empty());
            s
        },
    }
}

impl ContainerInfo {
    /// A container from the fields of one `podman ps` JSON record; each missing
    /// field is taken as empty.
    pub fn from_raw(
        id: Option<String>,
        names: Option<NamesField>,
        image: Option<String>,
        status: Option<String>,
        state: Option<String>,
    ) -> (r: ContainerInfo)
        ensures
            r.id@ == or_empty(id),
            r.name@ == name_of(names),
            r.image@ == or_empty(image),
            r.status@ == or_empty(status),
            r.state@ == or_empty(state),
    {
        ContainerInfo {
            id: unwrap_or_empty(id),
            name: extract_name(names),
            image: unwrap_or_empty(image),
            status: unwrap_or_empty(status),
            state: unwrap_or_empty(state),
        }
    }
}

// ─── Reading numbers ─────────────────────────────────────────────────────────

/// An ASCII decimal digit.
pub open spec fn is_digit(c: char) -> bool {
    '0' <= c && c <= '9'
}

/// Every character is a decimal digit.
pub open spec fn all_digits(d: Seq<char>) -> bool {
    forall|i: int| 0 <= i < d.len() ==> is_digit(#[trigger] d[i])
}

/// The characters after an optional leading `+`.
pub open spec fn digits_part(s: Seq<char>) -> Seq<char> {
    if s.len() > 0 && s[0] == '+' {
        s.drop_first()
    } else {
        s
    }
}

/// The value of a string of decimal digits.
pub open spec fn digits_value(s: Seq<char>) -> int
    decreases s.len(),
{
    if s.len() == 0 {
        0
    } else {
        digits_value(s.drop_last()) * 10 + (s.last() as int - '0' as int)
    }
}

/// The value that `u64::from_str` reads from `s`: an optional `+` followed by one
/// or more decimal digits, with a value that fits in `u64`.
pub open spec fn parse_u64_spec(s: Seq<char>) -> Option<u64> {
    let d = digits_part(s);
    if d.len() > 0 && all_digits(d) && digits_value(d) <= u64::MAX {
        Some(digits_value(d) as u64)
    } else {
        None
    }
}

proof fn lemma_digits_nonneg(s: Seq<char>)
    requires
        forall|i: int| 0 <= i < s.len() ==> is_digit(#[trigger] s[i]),
    ensures
        digits_value(s) >= 0,
    decreases s.len(),
{
    if s.len() > 0 {
        lemma_digits_nonneg(s.drop_last());
    }
}

proof fn lemma_digits_prefix(s: Seq<char>, k: int)
    requires
        0 <= k <= s.len(),
        forall|i: int| 0 <= i < s.len() ==> is_digit(#[trigger] s[i]),
    ensures
        digits_value(s.take(k)) <= digits_value(s),
    decreases s.len(),
{
    if k < s.len() {
        lemma_digits_prefix(s.drop_last(), k);
        assert(s.drop_last().take(k) =~= s.take(k));
        lemma_digits_nonneg(s.drop_last());
    } else {
        assert(s.take(k) =~= s);
    }
}

/// `u64::from_str` on a character vector.
pub fn parse_u64(s: &Vec<char>) -> (r: Option<u64>)
    ensures
        r == parse_u64_spec(s@),
{
    let start: usize = if s.len() > 0 && s[0] == '+' {
        1
    } else {
        0
    };
    let ghost d = digits_part(s@);
    assert(d =~= s@.skip(start as int));
    if start >= s.len() {
        return None;
    }
    let mut v: u128 = 0;
    let mut i: usize = start;
    while i < s.len()
        invariant
            start <= i <= s.len(),
            d =~= s@.skip(start as int),
            d == digits_part(s@),
            forall|j: int| 0 <= j < i - start ==> is_digit(#[trigger] d[j]),
            v == digits_value(d.take(i - start)),
            v <= u64::MAX,
        decreases s.len() - i,
    {
        let c = s[i];
        assert(d[i - start] == c);
        if !('0' <= c && c <= '9') {
            assert(!is_digit(d[i - start]));
            assert(!all_digits(d));
            assert(parse_u64_spec(s@) is None);
            return None;
        }
        assert(d.take(i + 1 - start).drop_last() =~= d.take(i - start));
        let digit = (c as u32 - '0' as u32) as u128;
        v = v * 10 + digit;
        if v > 18446744073709551615u128 {
            proof {
                if all_digits(d) {
                    lemma_digits_prefix(d, i + 1 - start);
                    assert(digits_value(d) > u64::MAX);
                }
                assert(parse_u64_spec(s@) is None);
            }
            return None;
        }
        i = i + 1;
    }
    assert(d.take(i - start) =~= d);
    Some(v as u64)
}

/// The value read from `s`, or zero where none can be read.
pub open spec fn parse_or_zero(s: Seq<char>) -> u64 {
    match parse_u64_spec(s) {
        Some(n) => n,
        None => 0,
    }
}

fn parse_u64_or_zero(s: &Vec<char>) -> (r: u64)
    ensures
        r == parse_or_zero(s@),
{
    match parse_u64(s) {
        Some(n) => n,
        None => 0,
    }
}

/// `x * y` as a `u64`, wrapping around on overflow.
pub open spec fn wrap_mul(x: u64, y: u64) -> u64 {
    ((x as nat * y as nat) % 0x1_0000_0000_0000_0000nat) as u64
}

/// `x + y` as a `u64`, wrapping around on overflow.
pub open spec fn wrap_add(x: u64, y: u64) -> u64 {
    if x + y > u64::MAX {
        (x + y - 0x1_0000_0000_0000_0000) as u64
    } else {
        (x + y) as u64
    }
}

// ─── /proc/cpuinfo ───────────────────────────────────────────────────────────

/// The number of lines that start with `processor`.
pub open spec fn processor_lines(ls: Seq<Seq<char>>) -> nat
    decreases ls.len(),
{
    if ls.len() == 0 {
        0
    } else {
        processor_lines(ls.drop_last()) + (if text::starts_with(ls.last(), "processor"@) {
            1nat
        } else {
            0nat
        })
    }
}

/// The number of CPU cores: the `processor` lines of `/proc/cpuinfo`, or one
/// where the file could not be read.
pub open spec fn cpu_cores_of(cpuinfo: Option<Seq<char>>) -> nat {
    match cpuinfo {
        Some(c) => processor_lines(text::lines(c)),
        None => 1,
    }
}

/// The number of CPU cores, from the contents of `/proc/cpuinfo` (`None` where
/// it could not be read).
pub fn count_cpu_cores(cpuinfo: Option<&str>) -> (r: usize)
    ensures
        r == cpu_cores_of(text::opt_str_view(cpuinfo)),
{
    match cpuinfo {
        None => 1,
        Some(c) => {
            let v = text::to_chars(c);
            let ls = text::lines_chars(&v);
            let mut n: usize = 0;
            let mut i: usize = 0;
            while i < ls.len()
                invariant
                    i <= ls.len(),
                    n <= i,
                    text::views(ls@) == text::lines(v@),
                    n == processor_lines(text::views(ls@).take(i as int)),
                decreases ls.len() - i,
            {
                assert(text::views(ls@).take(i + 1).drop_last() =~= text::views(ls@).take(
                    i as int,
                ));
                if text::starts_with_str(&ls[i], "processor") {
                    n = n + 1;
                }
                i = i + 1;
            }
            assert(text::views(ls@).take(ls.len() as int) =~= text::views(ls@));
            n
        },
    }
}

// ─── /proc/meminfo ───────────────────────────────────────────────────────────

/// What `/proc/meminfo` has given so far: total and available memory in bytes,
/// total and free swap in kB.
pub struct MemReadings {
    pub total_bytes: u64,
    pub avail_bytes: u64,
    pub swap_total_kb: u64,
    pub swap_free_kb: u64,
}

/// The first field after the label, when at least two fields follow it.
pub open spec fn meminfo_field(rest: Seq<char>) -> Option<Seq<char>> {
    let parts = text::split_ws(text::trim(rest));
    if parts.len() >= 2 {
        Some(parts[0])
    } else {
        None
    }
}

/// The readings after one more line of `/proc/meminfo`. A memory line counts
/// only where its value can be read; a swap line whose value cannot be read
/// counts as zero.
pub open spec fn meminfo_step(m: MemReadings, line: Seq<char>) -> MemReadings {
    if text::starts_with(line, "MemTotal:"@) {
        match meminfo_field(line.skip("MemTotal:"@.len() as int)) {
            Some(f) => match parse_u64_spec(f) {
                Some(kb) => MemReadings { total_bytes: wrap_mul(kb, 1024), ..m },
                None => m,
            },
            None => m,
        }
    } else if text::starts_with(line, "MemAvailable:"@) {
        match meminfo_field(line.skip("MemAvailable:"@.len() as int)) {
            Some(f) => match parse_u64_spec(f) {
                Some(kb) => MemReadings { avail_bytes: wrap_mul(kb, 1024), ..m },
                None => m,
            },
            None => m,
        }
    } else if text::starts_with(line, "SwapTotal:"@) {
        match meminfo_field(line.skip("SwapTotal:"@.len() as int)) {
            Some(f) => MemReadings { swap_total_kb: parse_or_zero(f), ..m },
            None => m,
        }
    } else if text::starts_with(line, "SwapFree:"@) {
        match meminfo_field(line.skip("SwapFree:"@.len() as int)) {
            Some(f) => MemReadings { swap_free_kb: parse_or_zero(f), ..m },
            None => m,
        }
    } else {
        m
    }
}

/// The readings after a sequence of lines, starting from zero.
pub open spec fn meminfo_lines(ls: Seq<Seq<char>>) -> MemReadings
    decreases ls.len(),
{
    if ls.len() == 0 {
        MemReadings { total_bytes: 0, avail_bytes: 0, swap_total_kb: 0, swap_free_kb: 0 }
    } else {
        meminfo_step(meminfo_lines(ls.drop_last()), ls.last())
    }
}

/// The readings of `/proc/meminfo`, all zero where it could not be read.
pub open spec fn meminfo_of(meminfo: Option<Seq<char>>) -> MemReadings {
    match meminfo {
        Some(c) => meminfo_lines(text::lines(c)),
        None => MemReadings { total_bytes: 0, avail_bytes: 0, swap_total_kb: 0, swap_free_kb: 0 },
    }
}

fn meminfo_field_exec(rest: &Vec<char>) -> (r: Option<Vec<char>>)
    ensures
        match r {
            Some(f) => meminfo_field(rest@) == Some(f@),
            None => meminfo_field(rest@) is None,
        },
{
    let t = text::trim_chars(rest);
    let parts = text::split_ws_chars(&t);
    if parts.len() >= 2 {
        let f = text::slice_chars(&parts[0], 0, parts[0].len());
        assert(f@ =~= parts@[0]@);
        Some(f)
    } else {
        None
    }
}

fn meminfo_step_exec(
    line: &Vec<char>,
    total: &mut u64,
    avail: &mut u64,
    swap_total: &mut u64,
    swap_free: &mut u64,
)
    ensures
        meminfo_step(
            MemReadings {
                total_bytes: *old(total),
                avail_bytes: *old(avail),
                swap_total_kb: *old(swap_total),
                swap_free_kb: *old(swap_free),
            },
            line@,
        ) == (MemReadings {
            total_bytes: *final(total),
            avail_bytes: *final(avail),
            swap_total_kb: *final(swap_total),
            swap_free_kb: *final(swap_free),
        }),
{
    if let Some(rest) = text::strip_prefix_str(line, "MemTotal:") {
        if let Some(f) = meminfo_field_exec(&rest) {
            if let Some(kb) = parse_u64(&f) {
                *total = kb.wrapping_mul(1024);
            }
        }
    } else if let Some(rest) = text::strip_prefix_str(line, "MemAvailable:") {
        if let Some(f) = meminfo_field_exec(&rest) {
            if let Some(kb) = parse_u64(&f) {
                *avail = kb.wrapping_mul(1024);
            }
        }
    } else if let Some(rest) = text::strip_prefix_str(line, "SwapTotal:") {
        if let Some(f) = meminfo_field_exec(&rest) {
            *swap_total = parse_u64_or_zero(&f);
        }
    } else if let Some(rest) = text::strip_prefix_str(line, "SwapFree:") {
        if let Some(f) = meminfo_field_exec(&rest) {
            *swap_free = parse_u64_or_zero(&f);
        }
    }
}

/// What `/proc/meminfo` says: total memory, used memory (total less available),
/// and swap. Sizes are given in kB and reported in bytes.
pub open spec fn memory_of(meminfo: Option<Seq<char>>) -> (u64, u64, SwapInfo) {
    let m = meminfo_of(meminfo);
    (
        m.total_bytes,
        (if m.total_bytes >= m.avail_bytes {
            (m.total_bytes - m.avail_bytes) as u64
        } else {
            0u64
        }),
        SwapInfo {
            total_bytes: wrap_mul(m.swap_total_kb, 1024),
            used_bytes: wrap_mul(
                (if m.swap_total_kb >= m.swap_free_kb {
                    (m.swap_total_kb - m.swap_free_kb) as u64
                } else {
                    0u64
                }),
                1024,
            ),
        },
    )
}

/// Total memory, used memory and swap, from the contents of `/proc/meminfo`
/// (`None` where it could not be read).
pub fn read_memory(meminfo: Option<&str>) -> (r: (u64, u64, SwapInfo))
    ensures
        r == memory_of(text::opt_str_view(meminfo)),
{
    let mut total: u64 = 0;
    let mut avail: u64 = 0;
    let mut swap_total: u64 = 0;
    let mut swap_free: u64 = 0;
    if let Some(c) = meminfo {
        let v = text::to_chars(c);
        let ls = text::lines_chars(&v);
        let mut i: usize = 0;
        while i < ls.len()
            invariant
                i <= ls.len(),
                text::views(ls@) == text::lines(v@),
                meminfo_lines(text::views(ls@).take(i as int)) == (MemReadings {
                    total_bytes: total,
                    avail_bytes: avail,
                    swap_total_kb: swap_total,
                    swap_free_kb: swap_free,
                }),
            decreases ls.len() - i,
        {
            assert(text::views(ls@).take(i + 1).drop_last() =~= text::views(ls@).take(i as int));
            meminfo_step_exec(&ls[i], &mut total, &mut avail, &mut swap_total, &mut swap_free);
            i = i + 1;
        }
        assert(text::views(ls@).take(ls.len() as int) =~= text::views(ls@));
    }
    let used = total.saturating_sub(avail);
    let swap = SwapInfo {
        total_bytes: swap_total.wrapping_mul(1024),
        used_bytes: swap_total.saturating_sub(swap_free).wrapping_mul(1024),
    };
    (total, used, swap)
}

// ─── /proc/net/dev ───────────────────────────────────────────────────────────

/// The received and sent byte counts of one interface line of `/proc/net/dev`,
/// or `None` for the loopback interface, blank lines, and lines that do not have
/// one colon and at least sixteen fields after it. A count that cannot be read
/// counts as zero.
pub open spec fn net_line(line: Seq<char>) -> Option<(u64, u64)> {
    let t = text::trim(line);
    if text::starts_with(t, "lo:"@) || t.len() == 0 {
        None
    } else {
        let parts = text::split_char(t, ':');
        if parts.len() != 2 {
            None
        } else {
            let stats = text::split_ws(parts[1]);
            if stats.len() >= 16 {
                Some((parse_or_zero(stats[0]), parse_or_zero(stats[8])))
            } else {
                None
            }
        }
    }
}

/// The received and sent totals over a sequence of interface lines.
pub open spec fn net_totals(ls: Seq<Seq<char>>) -> (u64, u64)
    decreases ls.len(),
{
    if ls.len() == 0 {
        (0, 0)
    } else {
        let prev = net_totals(ls.drop_last());
        match net_line(ls.last()) {
            Some((rx, tx)) => (wrap_add(prev.0, rx), wrap_add(prev.1, tx)),
            None => prev,
        }
    }
}

/// Bytes received and sent over all interfaces but loopback, from the contents
/// of `/proc/net/dev` (its two header lines skipped); zero where it could not be read.
pub open spec fn network_of(netdev: Option<Seq<char>>) -> (u64, u64) {
    match netdev {
        Some(c) => {
            let ls = text::lines(c);
            if ls.len() <= 2 {
                (0, 0)
            } else {
                net_totals(ls.skip(2))
            }
        },
        None => (0, 0),
    }
}

fn net_line_exec(line: &Vec<char>) -> (r: Option<(u64, u64)>)
    ensures
        r == net_line(line@),
{
    let t = text::trim_chars(line);
    if text::starts_with_str(&t, "lo:") || t.len() == 0 {
        return None;
    }
    let parts = text::split_char_chars(&t, ':');
    if parts.len() != 2 {
        return None;
    }
    let stats = text::split_ws_chars(&parts[1]);
    if stats.len() >= 16 {
        Some((parse_u64_or_zero(&stats[0]), parse_u64_or_zero(&stats[8])))
    } else {
        None
    }
}

/// Bytes received and sent over all interfaces but loopback, from the contents
/// of `/proc/net/dev` (`None` where it could not be read).
pub fn read_network(netdev: Option<&str>) -> (r: (u64, u64))
    ensures
        r == network_of(text::opt_str_view(netdev)),
{
    match netdev {
        None => (0, 0),
        Some(c) => {
            let v = text::to_chars(c);
            let ls = text::lines_chars(&v);
            if ls.len() <= 2 {
                return (0, 0);
            }
            let ghost body = text::views(ls@).skip(2);
            let mut rx: u64 = 0;
            let mut tx: u64 = 0;
            let mut i: usize = 2;
            while i < ls.len()
                invariant
                    2 <= i <= ls.len(),
                    text::views(ls@) == text::lines(v@),
                    body == text::views(ls@).skip(2),
                    net_totals(body.take(i - 2)) == (rx, tx),
                decreases ls.len() - i,
            {
                assert(body.take(i + 1 - 2).drop_last() =~= body.take(i - 2));
                assert(body.take(i + 1 - 2).last() == ls@[i as int]@);
                match net_line_exec(&ls[i]) {
                    Some((r, t)) => {
                        rx = rx.wrapping_add(r);
                        tx = tx.wrapping_add(t);
                    },
                    None => {},
                }
                i = i + 1;
            }
            assert(body.take(ls.len() - 2) =~= body);
            (rx, tx)
        },
    }
}

/// The host's resources from the contents of `/proc/cpuinfo`, `/proc/meminfo` and
/// `/proc/net/dev`, each `None` where the file could not be read.
pub open spec fn system_info_of(
    cpuinfo: Option<Seq<char>>,
    meminfo: Option<Seq<char>>,
    netdev: Option<Seq<char>>,
) -> SystemInfo {
    let mem = memory_of(meminfo);
    let net = network_of(netdev);
    SystemInfo {
        cpu_cores: cpu_cores_of(cpuinfo) as usize,
        total_mem_bytes: mem.0,
        used_mem_bytes: mem.1,
        swap: mem.2,
        net_rx_bytes: net.0,
        net_tx_bytes: net.1,
    }
}

/// The host's resources from the contents of `/proc/cpuinfo`, `/proc/meminfo` and
/// `/proc/net/dev`.
pub fn system_info_from(cpuinfo: Option<&str>, meminfo: Option<&str>, netdev: Option<&str>) -> (r:
    SystemInfo)
    ensures
        r == system_info_of(
            text::opt_str_view(cpuinfo),
            text::opt_str_view(meminfo),
            text::opt_str_view(netdev),
        ),
{
    let cpu_cores = count_cpu_cores(cpuinfo);
    let (total_mem_bytes, used_mem_bytes, swap) = read_memory(meminfo);
    let (net_rx, net_tx) = read_network(netdev);
    SystemInfo {
        cpu_cores,
        total_mem_bytes,
        used_mem_bytes,
        swap,
        net_rx_bytes: net_rx,
        net_tx_bytes: net_tx,
    }
}

/// Law: the memory reported as used never exceeds the total, and the swap
/// reported as used never exceeds the swap total when neither overflows.
pub proof fn lemma_used_within_total(meminfo: Option<Seq<char>>)
    ensures
        memory_of(meminfo).1 <= memory_of(meminfo).0,
        meminfo_of(meminfo).swap_total_kb * 1024 <= u64::MAX ==> memory_of(meminfo).2.used_bytes
            <= memory_of(meminfo).2.total_bytes,
{
    let m = meminfo_of(meminfo);
    let used_kb: u64 = if m.swap_total_kb >= m.swap_free_kb {
        (m.swap_total_kb - m.swap_free_kb) as u64
    } else {
        0u64
    };
    if m.swap_total_kb * 1024 <= u64::MAX {
        assert(used_kb * 1024 <= m.swap_total_kb * 1024) by (nonlinear_arith)
            requires
                used_kb <= m.swap_total_kb,
        ;
        assert((used_kb as nat * 1024nat) % 0x1_0000_0000_0000_0000nat == used_kb as nat * 1024nat);
        assert((m.swap_total_kb as nat * 1024nat) % 0x1_0000_0000_0000_0000nat == m.swap_total_kb
            as nat * 1024nat);
    }
}

} // verus!
