//! The orders in which containers are listed: by name, by state, or by CPU or
//! memory use, largest first. Sorting is stable, as `slice::sort_by` is.
use vstd::prelude::*;
use crate::podman::{ContainerInfo, ContainerModel, ContainerStats, StatsModel};

verus! {

/// The key by which containers are sorted.
#[derive(Debug, Clone, Copy, PartialEq, Eq, Structural)]
pub enum SortBy {
    Name,
    Status,
    Cpu,
    Memory,
}

/// The key that follows `s` when the sort key is cycled.
pub open spec fn next_sort_spec(s: SortBy) -> SortBy {
    match s {
        SortBy::Name => SortBy::Status,
        SortBy::Status => SortBy::Cpu,
        SortBy::Cpu => SortBy::Memory,
        SortBy::Memory => SortBy::Name,
    }
}

/// The key that follows `s`: Name, Status, Cpu, Memory, then Name again.
pub fn next_sort(s: SortBy) -> (r: SortBy)
    ensures
        r == next_sort_spec(s),
{
    match s {
        SortBy::Name => SortBy::Status,
        SortBy::Status => SortBy::Cpu,
        SortBy::Cpu => SortBy::Memory,
        SortBy::Memory => SortBy::Name,
    }
}

/// `a` comes before `b` in the lexicographic order of their characters by code
/// point, which is the order of `String`'s `Ord` (UTF-8 keeps code point order).
pub open spec fn lex_less(a: Seq<char>, b: Seq<char>) -> bool
    decreases a.len(),
{
    if b.len() == 0 {
        false
    } else if a.len() == 0 {
        true
    } else if a[0] != b[0] {
        (a[0] as u32) < (b[0] as u32)
    } else {
        lex_less(a.drop_first(), b.drop_first())
    }
}

/// Whether `a` comes strictly before `b` in the order of `String`'s `Ord`.
pub fn lex_less_strings(a: &String, b: &String) -> (r: bool)
    ensures
        r == lex_less(a@, b@),
{
    let x = crate::text::string_chars(a);
    let y = crate::text::string_chars(b);
    let mut i: usize = 0;
    assert(x@.skip(0) =~= x@);
    assert(y@.skip(0) =~= y@);
    while i < x.len() && i < y.len() && x[i] == y[i]
        invariant
            i <= x.len(),
            i <= y.len(),
            lex_less(x@, y@) == lex_less(x@.skip(i as int), y@.skip(i as int)),
        decreases x.len() - i,
    {
        assert(x@.skip(i as int).drop_first() =~= x@.skip(i + 1));
        assert(y@.skip(i as int).drop_first() =~= y@.skip(i + 1));
        i = i + 1;
    }
    if i == y.len() {
        false
    } else if i == x.len() {
        true
    } else {
        (x[i] as u32) < (y[i] as u32)
    }
}

/// Where an `f64`, given by its bit pattern, stands in the order of `f64`'s
/// `partial_cmp`: for numbers, the signed magnitude of the pattern, which orders
/// IEEE 754 doubles as their values are ordered, with `-0.0` and `0.0` equal.
/// A NaN, which `partial_cmp` does not order, stands with zero.
pub open spec fn f64_rank(bits: u64) -> int {
    let neg = bits >= 0x8000_0000_0000_0000u64;
    let mag: int = if neg {
        bits - 0x8000_0000_0000_0000int
    } else {
        bits as int
    };
    if mag > 0x7FF0_0000_0000_0000int {
        0
    } else if neg {
        -mag
    } else {
        mag
    }
}

/// Where an `f64`, given by its bit pattern, stands in the order of `f64`.
pub fn f64_rank_of(bits: u64) -> (r: i64)
    ensures
        r == f64_rank(bits),
{
    let neg = bits >= 0x8000_0000_0000_0000u64;
    let mag: u64 = if neg {
        bits - 0x8000_0000_0000_0000u64
    } else {
        bits
    };
    if mag > 0x7FF0_0000_0000_0000u64 {
        0
    } else if neg {
        -(mag as i64)
    } else {
        mag as i64
    }
}

/// The first resource report with the given container name.
pub open spec fn stats_for(stats: Seq<StatsModel>, name: Seq<char>) -> Option<StatsModel>
    decreases stats.len(),
{
    if stats.len() == 0 {
        None
    } else if stats[0].name == name {
        Some(stats[0])
    } else {
        stats_for(stats.drop_first(), name)
    }
}

/// The CPU use by which a container is ranked: that of its first report, or zero.
pub open spec fn cpu_rank(stats: Seq<StatsModel>, name: Seq<char>) -> int {
    match stats_for(stats, name) {
        Some(s) => f64_rank(s.cpu_percent_bits),
        None => 0,
    }
}

/// The memory use by which a container is ranked: that of its first report, or zero.
pub open spec fn mem_rank(stats: Seq<StatsModel>, name: Seq<char>) -> int {
    match stats_for(stats, name) {
        Some(s) => f64_rank(s.mem_percent_bits),
        None => 0,
    }
}

/// The contents of a sequence of resource reports.
pub open spec fn stats_views(v: Seq<ContainerStats>) -> Seq<StatsModel> {
    v.map_values(|s: ContainerStats| s@)
}

/// The contents of a sequence of container listings.
pub open spec fn container_views(v: Seq<ContainerInfo>) -> Seq<ContainerModel> {
    v.map_values(|c: ContainerInfo| c@)
}

/// The first report for `name`, as an index into `stats`.
fn stats_index(stats: &Vec<ContainerStats>, name: &String) -> (r: Option<usize>)
    ensures
        match r {
            Some(i) => i < stats.len() && stats_for(stats_views(stats@), name@) == Some(
                stats@[i as int]@,
            ),
            None => stats_for(stats_views(stats@), name@) is None,
        },
{
    let ghost sv = stats_views(stats@);
    let mut i: usize = 0;
    assert(sv.skip(0) =~= sv);
    while i < stats.len()
        invariant
            i <= stats.len(),
            sv == stats_views(stats@),
            stats_for(sv, name@) == stats_for(sv.skip(i as int), name@),
        decreases stats.len() - i,
    {
        assert(sv.skip(i as int)[0] == stats@[i as int]@);
        if stats[i].name == *name {
            return Some(i);
        }
        assert(sv.skip(i as int).drop_first() =~= sv.skip(i + 1));
        i = i + 1;
    }
    None
}

/// `a` is listed before `b` under the sort key: by name or state in ascending
/// order, by CPU or memory use in descending order.
pub open spec fn sort_less(stats: Seq<StatsModel>, by: SortBy, a: ContainerModel, b: ContainerModel) -> bool {
    match by {
        SortBy::Name => lex_less(a.name, b.name),
        SortBy::Status => lex_less(a.state, b.state),
        SortBy::Cpu => cpu_rank(stats, a.name) > cpu_rank(stats, b.name),
        SortBy::Memory => mem_rank(stats, a.name) > mem_rank(stats, b.name),
    }
}

fn rank_exec(stats: &Vec<ContainerStats>, name: &String, by_cpu: bool) -> (r: i64)
    ensures
        by_cpu ==> r == cpu_rank(stats_views(stats@), name@),
        !by_cpu ==> r == mem_rank(stats_views(stats@), name@),
{
    match stats_index(stats, name) {
        Some(i) => if by_cpu {
            f64_rank_of(stats[i].cpu_percent_bits)
        } else {
            f64_rank_of(stats[i].mem_percent_bits)
        },
        None => 0,
    }
}

/// Whether `a` is listed strictly before `b` under the sort key.
pub fn sort_less_exec(stats: &Vec<ContainerStats>, by: SortBy, a: &ContainerInfo, b: &ContainerInfo) -> (r: bool)
    ensures
        r == sort_less(stats_views(stats@), by, a@, b@),
{
    match by {
        SortBy::Name => lex_less_strings(&a.name, &b.name),
        SortBy::Status => lex_less_strings(&a.state, &b.state),
        SortBy::Cpu => rank_exec(stats, &a.name, true) > rank_exec(stats, &b.name, true),
        SortBy::Memory => rank_exec(stats, &a.name, false) > rank_exec(stats, &b.name, false),
    }
}

// ─── Stable insertion ────────────────────────────────────────────────────────

/// Where `x` goes in `s`: before the first element that it precedes strictly,
/// after all the others.
pub open spec fn insert_pos<T>(s: Seq<T>, x: T, less: spec_fn(T, T) -> bool) -> nat
    decreases s.len(),
{
    if s.len() == 0 {
        0
    } else if less(x, s[0]) {
        0
    } else {
        1 + insert_pos(s.drop_first(), x, less)
    }
}

/// `s` with `x` inserted at its place.
pub open spec fn insert_sorted<T>(s: Seq<T>, x: T, less: spec_fn(T, T) -> bool) -> Seq<T> {
    s.insert(insert_pos(s, x, less) as int, x)
}

/// `s` sorted by `less`, elements that neither precedes keeping their order:
/// each element in turn is inserted after those before it that it does not precede.
pub open spec fn sort_stable<T>(s: Seq<T>, less: spec_fn(T, T) -> bool) -> Seq<T>
    decreases s.len(),
{
    if s.len() == 0 {
        s
    } else {
        insert_sorted(sort_stable(s.drop_last(), less), s.last(), less)
    }
}

/// The place of `x` is the first index that `x` strictly precedes.
pub proof fn lemma_insert_pos<T>(s: Seq<T>, x: T, less: spec_fn(T, T) -> bool, j: int)
    requires
        0 <= j <= s.len(),
        forall|k: int| 0 <= k < j ==> !less(x, #[trigger] s[k]),
        j == s.len() || less(x, s[j]),
    ensures
        insert_pos(s, x, less) == j,
    decreases j,
{
    if j > 0 {
        assert(!less(x, s[0]));
        assert forall|k: int| 0 <= k < j - 1 implies !less(x, #[trigger] s.drop_first()[k]) by {
            assert(s.drop_first()[k] == s[k + 1]);
        }
        lemma_insert_pos(s.drop_first(), x, less, j - 1);
    }
}

/// The order of containers under a sort key.
pub open spec fn container_order(stats: Seq<StatsModel>, by: SortBy) -> spec_fn(
    ContainerModel,
    ContainerModel,
) -> bool {
    |a: ContainerModel, b: ContainerModel| sort_less(stats, by, a, b)
}

/// The containers sorted by the key, stably.
pub open spec fn sorted_containers(
    containers: Seq<ContainerModel>,
    stats: Seq<StatsModel>,
    by: SortBy,
) -> Seq<ContainerModel> {
    sort_stable(containers, container_order(stats, by))
}

/// The containers sorted by the key: a stable sort, as `slice::sort_by`.
pub fn sort_containers_by(containers: &mut Vec<ContainerInfo>, stats: &Vec<ContainerStats>, by: SortBy)
    ensures
        container_views(final(containers)@) == sorted_containers(
            container_views(old(containers)@),
            stats_views(stats@),
            by,
        ),
{
    let ghost less = container_order(stats_views(stats@), by);
    let mut src: Vec<ContainerInfo> = Vec::new();
    core::mem::swap(&mut src, containers);
    let ghost orig = container_views(src@);
    let total: usize = src.len();
    assert(orig.len() == total);
    let mut out: Vec<ContainerInfo> = Vec::new();
    let mut n: usize = 0;
    assert(container_views(out@) =~= sort_stable(orig.take(0), less));
    while src.len() > 0
        invariant
            n + src.len() == orig.len(),
            orig.len() <= usize::MAX,
            container_views(src@) == orig.skip(n as int),
            container_views(out@) == sort_stable(orig.take(n as int), less),
            less == container_order(stats_views(stats@), by),
        decreases src.len(),
    {
        let ghost sv = container_views(src@);
        let ghost s0 = src@;
        let x = src.remove(0);
        assert(src@ == s0.remove(0));
        assert(x == s0[0]);
        assert(sv[0] == s0[0]@);
        assert(orig.skip(n as int)[0] == orig[n as int]);
        assert(x@ == orig[n as int]);
        assert forall|k: int| 0 <= k < src@.len() implies container_views(src@)[k] == orig.skip(n + 1)[k] by {
            assert(src@[k] == s0[k + 1]);
            assert(sv[k + 1] == s0[k + 1]@);
            assert(orig.skip(n as int)[k + 1] == orig.skip(n + 1)[k]);
        }
        assert(container_views(src@) =~= orig.skip(n + 1));
        let ghost ov = container_views(out@);
        let mut j: usize = 0;
        while j < out.len() && !sort_less_exec(stats, by, &x, &out[j])
            invariant
                j <= out.len(),
                ov == container_views(out@),
                forall|k: int| 0 <= k < j ==> !less(x@, #[trigger] ov[k]),
                less == container_order(stats_views(stats@), by),
            decreases out.len() - j,
        {
            assert(ov[j as int] == out@[j as int]@);
            j = j + 1;
        }
        proof {
            if j < out.len() {
                assert(ov[j as int] == out@[j as int]@);
            }
            lemma_insert_pos(ov, x@, less, j as int);
            assert(orig.take(n + 1).drop_last() =~= orig.take(n as int));
        }
        out.insert(j, x);
        assert(container_views(out@) =~= ov.insert(j as int, x@));
        n = n + 1;
    }
    assert(orig.take(n as int) =~= orig);
    *containers = out;
}

// ─── Laws of the order ───────────────────────────────────────────────────────

/// `less` is a strict order: never `less(a, a)`, and `less(a, b)` with
/// `less(b, c)` gives `less(a, c)`.
pub open spec fn strict_order<T>(less: spec_fn(T, T) -> bool) -> bool {
    &&& forall|a: T| !#[trigger] less(a, a)
    &&& forall|a: T, b: T, c: T| #[trigger] less(a, b) && #[trigger] less(b, c) ==> less(a, c)
}

/// No element of `s` is preceded strictly by one that comes after it.
pub open spec fn is_sorted<T>(s: Seq<T>, less: spec_fn(T, T) -> bool) -> bool {
    forall|i: int, j: int| 0 <= i < j < s.len() ==> !less(#[trigger] s[j], #[trigger] s[i])
}

proof fn lemma_insert_sorted_sorted<T>(s: Seq<T>, x: T, less: spec_fn(T, T) -> bool)
    requires
        strict_order(less),
        is_sorted(s, less),
    ensures
        is_sorted(insert_sorted(s, x, less), less),
{
    let p = insert_pos(s, x, less) as int;
    lemma_insert_pos_facts(s, x, less);
    let r = insert_sorted(s, x, less);
    assert forall|i: int, j: int| 0 <= i < j < r.len() implies !less(#[trigger] r[j], #[trigger] r[i]) by {
        if i < p && j < p {
            assert(r[i] == s[i] && r[j] == s[j]);
        } else if i < p && j == p {
            assert(r[i] == s[i] && r[j] == x);
        } else if i < p && j > p {
            assert(r[i] == s[i] && r[j] == s[j - 1]);
        } else if i == p {
            assert(r[i] == x && r[j] == s[j - 1]);
            if less(s[j - 1], x) {
                assert(less(x, s[p]));
                if j - 1 > p {
                    assert(less(s[j - 1], s[p]));
                }
            }
        } else {
            assert(r[i] == s[i - 1] && r[j] == s[j - 1]);
        }
    }
}

proof fn lemma_insert_pos_facts<T>(s: Seq<T>, x: T, less: spec_fn(T, T) -> bool)
    ensures
        insert_pos(s, x, less) <= s.len(),
        forall|k: int| 0 <= k < insert_pos(s, x, less) ==> !less(x, #[trigger] s[k]),
        insert_pos(s, x, less) < s.len() ==> less(x, s[insert_pos(s, x, less) as int]),
    decreases s.len(),
{
    if s.len() > 0 && !less(x, s[0]) {
        lemma_insert_pos_facts(s.drop_first(), x, less);
        assert forall|k: int| 0 <= k < insert_pos(s, x, less) implies !less(x, #[trigger] s[k]) by {
            if k > 0 {
                assert(s[k] == s.drop_first()[k - 1]);
            }
        }
    }
}

/// Law: a stable sort by a strict order yields a sorted sequence holding the
/// same elements, each as many times.
pub proof fn lemma_sort_stable_sorted_permutation<T>(s: Seq<T>, less: spec_fn(T, T) -> bool)
    requires
        strict_order(less),
    ensures
        is_sorted(sort_stable(s, less), less),
        sort_stable(s, less).to_multiset() == s.to_multiset(),
    decreases s.len(),
{
    broadcast use vstd::seq_lib::to_multiset_insert, vstd::seq_lib::to_multiset_build;

    if s.len() == 0 {
    } else {
        let prev = sort_stable(s.drop_last(), less);
        lemma_sort_stable_sorted_permutation(s.drop_last(), less);
        lemma_insert_pos_facts(prev, s.last(), less);
        lemma_insert_sorted_sorted(prev, s.last(), less);
        assert(s.drop_last().push(s.last()) =~= s);
    }
}

proof fn lemma_lex_irreflexive(a: Seq<char>)
    ensures
        !lex_less(a, a),
    decreases a.len(),
{
    if a.len() > 0 {
        lemma_lex_irreflexive(a.drop_first());
    }
}

proof fn lemma_lex_transitive(a: Seq<char>, b: Seq<char>, c: Seq<char>)
    requires
        lex_less(a, b),
        lex_less(b, c),
    ensures
        lex_less(a, c),
    decreases a.len(),
{
    if a.len() > 0 && b.len() > 0 && c.len() > 0 && a[0] == b[0] && b[0] == c[0] {
        lemma_lex_transitive(a.drop_first(), b.drop_first(), c.drop_first());
    }
}

/// Law: every sort key orders containers strictly.
pub proof fn lemma_container_order_strict(stats: Seq<StatsModel>, by: SortBy)
    ensures
        strict_order(container_order(stats, by)),
{
    let less = container_order(stats, by);
    assert forall|a: ContainerModel| !#[trigger] less(a, a) by {
        lemma_lex_irreflexive(a.name);
        lemma_lex_irreflexive(a.state);
    }
    assert forall|a: ContainerModel, b: ContainerModel, c: ContainerModel|
        #[trigger] less(a, b) && #[trigger] less(b, c) implies less(a, c) by {
        match by {
            SortBy::Name => lemma_lex_transitive(a.name, b.name, c.name),
            SortBy::Status => lemma_lex_transitive(a.state, b.state, c.state),
            _ => {},
        }
    }
}

/// Law: sorting the containers by any key lists each container exactly as
/// often as before, and no container is listed after one it precedes strictly.
pub proof fn lemma_sorted_containers(
    containers: Seq<ContainerModel>,
    stats: Seq<StatsModel>,
    by: SortBy,
)
    ensures
        is_sorted(sorted_containers(containers, stats, by), container_order(stats, by)),
        sorted_containers(containers, stats, by).to_multiset() == containers.to_multiset(),
{
    lemma_container_order_strict(stats, by);
    lemma_sort_stable_sorted_permutation(containers, container_order(stats, by));
}

/// Neither `a` nor `b` precedes the other.
pub open spec fn equivalent<T>(less: spec_fn(T, T) -> bool, a: T, b: T) -> bool {
    !less(a, b) && !less(b, a)
}

/// `less` is a strict weak order: a strict order in which, whenever `a`
/// precedes `c`, any `b` comes after `a` or before `c`.
pub open spec fn strict_weak_order<T>(less: spec_fn(T, T) -> bool) -> bool {
    &&& strict_order(less)
    &&& forall|a: T, b: T, c: T| #[trigger] less(a, c) ==> less(a, b) || #[trigger] less(b, c)
}

/// The elements of `s` equivalent to `e`, in their order in `s`.
pub open spec fn class_of<T>(s: Seq<T>, less: spec_fn(T, T) -> bool, e: T) -> Seq<T>
    decreases s.len(),
{
    if s.len() == 0 {
        s
    } else {
        class_of(s.drop_last(), less, e) + (if equivalent(less, s.last(), e) {
            seq![s.last()]
        } else {
            Seq::empty()
        })
    }
}

proof fn lemma_class_of_add<T>(a: Seq<T>, b: Seq<T>, less: spec_fn(T, T) -> bool, e: T)
    ensures
        class_of(a + b, less, e) == class_of(a, less, e) + class_of(b, less, e),
    decreases b.len(),
{
    if b.len() == 0 {
        assert(a + b =~= a);
        assert(class_of(a, less, e) + class_of(b, less, e) =~= class_of(a, less, e));
    } else {
        lemma_class_of_add(a, b.drop_last(), less, e);
        assert((a + b).drop_last() =~= a + b.drop_last());
        assert((a + b).last() == b.last());
        assert(class_of(a + b, less, e) =~= class_of(a, less, e) + class_of(b, less, e));
    }
}

proof fn lemma_class_of_none<T>(s: Seq<T>, less: spec_fn(T, T) -> bool, e: T)
    requires
        forall|k: int| 0 <= k < s.len() ==> !equivalent(less, #[trigger] s[k], e),
    ensures
        class_of(s, less, e) == Seq::<T>::empty(),
    decreases s.len(),
{
    if s.len() > 0 {
        assert forall|k: int| 0 <= k < s.drop_last().len() implies !equivalent(
            less,
            #[trigger] s.drop_last()[k],
            e,
        ) by {
            assert(s.drop_last()[k] == s[k]);
        }
        lemma_class_of_none(s.drop_last(), less, e);
        assert(class_of(s, less, e) =~= Seq::<T>::empty());
    }
}

proof fn lemma_class_of_single<T>(x: T, less: spec_fn(T, T) -> bool, e: T)
    ensures
        class_of(seq![x], less, e) == (if equivalent(less, x, e) {
            seq![x]
        } else {
            Seq::<T>::empty()
        }),
{
    assert(seq![x].drop_last() =~= Seq::<T>::empty());
    assert(class_of(Seq::<T>::empty(), less, e) =~= Seq::<T>::empty());
    assert(seq![x].last() == x);
    assert(class_of(seq![x], less, e) =~= (if equivalent(less, x, e) {
        seq![x]
    } else {
        Seq::<T>::empty()
    }));
}

/// Law: a stable sort by a strict weak order keeps the order of the elements
/// that are equivalent to one another: for any `e`, the elements equivalent to
/// `e` come out in the order in which they went in.
pub proof fn lemma_sort_stable_keeps_ties<T>(s: Seq<T>, less: spec_fn(T, T) -> bool, e: T)
    requires
        strict_weak_order(less),
    ensures
        class_of(sort_stable(s, less), less, e) == class_of(s, less, e),
    decreases s.len(),
{
    if s.len() > 0 {
        let prev = sort_stable(s.drop_last(), less);
        let x = s.last();
        lemma_sort_stable_keeps_ties(s.drop_last(), less, e);
        lemma_sort_stable_sorted_permutation(s.drop_last(), less);
        lemma_insert_pos_facts(prev, x, less);
        let p = insert_pos(prev, x, less) as int;
        let a = prev.take(p);
        let b = prev.skip(p);
        assert(prev =~= a + b);
        assert(insert_sorted(prev, x, less) =~= a + seq![x] + b);
        lemma_class_of_add(a + seq![x], b, less, e);
        lemma_class_of_add(a, seq![x], less, e);
        lemma_class_of_add(a, b, less, e);
        lemma_class_of_single(x, less, e);
        if equivalent(less, x, e) {
            assert forall|k: int| 0 <= k < b.len() implies !equivalent(less, #[trigger] b[k], e) by {
                assert(b[k] == prev[p + k]);
                assert(less(x, prev[p]));
                if k > 0 {
                    assert(!less(prev[p + k], prev[p]));
                    assert(less(x, prev[p + k]) || less(prev[p + k], prev[p]));
                }
                assert(less(x, b[k]));
                assert(less(x, e) || less(e, b[k]));
            }
            lemma_class_of_none(b, less, e);
            assert(class_of(b, less, e) =~= Seq::<T>::empty());
            assert(class_of(prev, less, e) =~= class_of(a, less, e));
            assert(class_of(s, less, e) =~= class_of(s.drop_last(), less, e) + seq![x]);
            assert(class_of(a + seq![x] + b, less, e) =~= class_of(a, less, e) + seq![x]);
        } else {
            assert(class_of(s, less, e) =~= class_of(s.drop_last(), less, e));
            assert(class_of(a + seq![x] + b, less, e) =~= class_of(a, less, e) + class_of(b, less, e));
        }
    }
}

/// Law: every sort key orders containers as a strict weak order.
pub proof fn lemma_container_order_weak(stats: Seq<StatsModel>, by: SortBy)
    ensures
        strict_weak_order(container_order(stats, by)),
{
    lemma_container_order_strict(stats, by);
    let less = container_order(stats, by);
    assert forall|a: ContainerModel, b: ContainerModel, c: ContainerModel|
        #[trigger] less(a, c) implies less(a, b) || #[trigger] less(b, c) by {
        match by {
            SortBy::Name => lemma_lex_weak(a.name, b.name, c.name),
            SortBy::Status => lemma_lex_weak(a.state, b.state, c.state),
            _ => {},
        }
    }
}

proof fn lemma_lex_weak(a: Seq<char>, b: Seq<char>, c: Seq<char>)
    requires
        lex_less(a, c),
    ensures
        lex_less(a, b) || lex_less(b, c),
    decreases a.len(),
{
    if a.len() > 0 && b.len() > 0 && c.len() > 0 {
        let (x, y, z) = (a[0] as u32, b[0] as u32, c[0] as u32);
        vstd::utf8::char_u32_cast(a[0], x);
        vstd::utf8::char_u32_cast(b[0], y);
        vstd::utf8::char_u32_cast(c[0], z);
        if a[0] == b[0] && b[0] == c[0] {
            lemma_lex_weak(a.drop_first(), b.drop_first(), c.drop_first());
        } else if a[0] != b[0] {
            assert(a[0] != b[0] ==> x != y);
            if x < y {
                assert(lex_less(a, b));
            } else {
                assert(b[0] != c[0] ==> y != z);
                if a[0] == c[0] {
                    assert(y < z);
                } else {
                    assert(x < z);
                }
                assert(lex_less(b, c));
            }
        } else {
            assert(b[0] != c[0]);
            assert(lex_less(b, c));
        }
    }
}

/// Law: sorting the containers by any key keeps containers that tie on the key
/// in the order they had.
pub proof fn lemma_sorted_containers_stable(
    containers: Seq<ContainerModel>,
    stats: Seq<StatsModel>,
    by: SortBy,
    e: ContainerModel,
)
    ensures
        class_of(sorted_containers(containers, stats, by), container_order(stats, by), e)
            == class_of(containers, container_order(stats, by), e),
{
    lemma_container_order_weak(stats, by);
    lemma_sort_stable_keeps_ties(containers, container_order(stats, by), e);
}

/// Law: `lex_less` is the lexicographic order of `String`'s `Ord`: `a` comes
/// before `b` exactly when `a` is a proper prefix of `b`, or when at the first
/// position where they differ the character of `a` has the smaller code point.
pub proof fn lemma_lex_less_iff(a: Seq<char>, b: Seq<char>)
    ensures
        lex_less(a, b) <==> ((a.len() < b.len() && b.take(a.len() as int) == a) || exists|k: int|
            0 <= k < a.len() && k < b.len() && #[trigger] a.take(k) == b.take(k) && (a[k] as u32)
                < (b[k] as u32)),
    decreases a.len(),
{
    if b.len() == 0 {
    } else if a.len() == 0 {
        assert(b.take(0) =~= a);
    } else if a[0] != b[0] {
        if (a[0] as u32) < (b[0] as u32) {
            assert(a.take(0) =~= b.take(0));
        } else {
            assert forall|k: int|
                0 <= k < a.len() && k < b.len() && #[trigger] a.take(k) == b.take(k) implies !((a[k]
                    as u32) < (b[k] as u32)) by {
                if k > 0 {
                    assert(a.take(k)[0] == b.take(k)[0]);
                }
            }
            if a.len() < b.len() && b.take(a.len() as int) == a {
                assert(b.take(a.len() as int)[0] == b[0]);
            }
        }
    } else {
        let (x, y) = (a.drop_first(), b.drop_first());
        lemma_lex_less_iff(x, y);
        if x.len() < y.len() && y.take(x.len() as int) == x {
            assert forall|j: int| 0 <= j < a.len() implies #[trigger] b.take(a.len() as int)[j]
                == a[j] by {
                if j > 0 {
                    assert(y.take(x.len() as int)[j - 1] == x[j - 1]);
                }
            }
            assert(b.take(a.len() as int) =~= a);
        }
        if a.len() < b.len() && b.take(a.len() as int) == a {
            assert(y.take(x.len() as int) =~= x);
        }
        if exists|k: int|
            0 <= k < x.len() && k < y.len() && #[trigger] x.take(k) == y.take(k) && (x[k] as u32)
                < (y[k] as u32) {
            let k = choose|k: int|
                0 <= k < x.len() && k < y.len() && #[trigger] x.take(k) == y.take(k) && (x[k] as u32)
                    < (y[k] as u32);
            assert(a.take(k + 1) =~= b.take(k + 1)) by {
                assert forall|j: int| 0 <= j < k + 1 implies #[trigger] a.take(k + 1)[j] == b.take(k + 1)[j] by {
                    if j > 0 {
                        assert(x.take(k)[j - 1] == y.take(k)[j - 1]);
                    }
                }
            }
            assert(a[k + 1] == x[k] && b[k + 1] == y[k]);
        }
        if exists|k: int|
            0 <= k < a.len() && k < b.len() && #[trigger] a.take(k) == b.take(k) && (a[k] as u32)
                < (b[k] as u32) {
            let k = choose|k: int|
                0 <= k < a.len() && k < b.len() && #[trigger] a.take(k) == b.take(k) && (a[k] as u32)
                    < (b[k] as u32);
            assert(k > 0);
            assert(x.take(k - 1) =~= y.take(k - 1)) by {
                assert forall|j: int| 0 <= j < k - 1 implies #[trigger] x.take(k - 1)[j] == y.take(k - 1)[j] by {
                    assert(a.take(k)[j + 1] == b.take(k)[j + 1]);
                }
            }
            assert(x[k - 1] == a[k] && y[k - 1] == b[k]);
        }
    }
}

/// Law: a proper prefix comes before every longer string that starts with it,
/// never after it.
pub proof fn lemma_lex_prefix_first(a: Seq<char>, b: Seq<char>)
    requires
        b.len() > 0,
    ensures
        lex_less(a, a + b),
        !lex_less(a + b, a),
    decreases a.len(),
{
    if a.len() > 0 {
        lemma_lex_prefix_first(a.drop_first(), b);
        assert((a + b).drop_first() =~= a.drop_first() + b);
        assert((a + b)[0] == a[0]);
    }
}

} // verus!
