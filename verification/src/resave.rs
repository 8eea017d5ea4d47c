//! Saving a configuration twice writes what saving it once wrote: the second
//! save finds the section the first one wrote, removes it, and puts the same
//! one back. This file holds that law and the lemmas about lines, pieces and
//! trimming it rests on.
use vstd::prelude::*;
use crate::text;
use crate::shell;
use crate::shell::{EnvVarModel, PathEntryModel, ShellKind};

verus! {

// ─── Lines and pieces ────────────────────────────────────────────────────────

/// The lines without a carriage return at their ends.
pub open spec fn strip_crs(ls: Seq<Seq<char>>) -> Seq<Seq<char>> {
    ls.map_values(|l: Seq<char>| text::strip_cr(l))
}

/// The lines of text that has a newline after `a`: the pieces of `a` between
/// newlines, each without a carriage return at its end, then the lines of the rest.
pub proof fn lemma_lines_before_newline(a: Seq<char>, b: Seq<char>, cur: Seq<char>)
    ensures
        text::lines_from(a + seq!['\n'] + b, cur) == strip_crs(text::split_from(a, '\n', cur))
            + text::lines_from(b, Seq::empty()),
    decreases a.len(),
{
    let s = a + seq!['\n'] + b;
    if a.len() == 0 {
        assert(s =~= seq!['\n'] + b);
        assert(s.drop_first() =~= b);
        assert(strip_crs(seq![cur]) =~= seq![text::strip_cr(cur)]);
    } else {
        assert(s[0] == a[0]);
        assert(s.drop_first() =~= a.drop_first() + seq!['\n'] + b);
        if a[0] == '\n' {
            lemma_lines_before_newline(a.drop_first(), b, Seq::empty());
            let rest = text::split_from(a.drop_first(), '\n', Seq::empty());
            assert(strip_crs(seq![cur] + rest) =~= seq![text::strip_cr(cur)] + strip_crs(rest));
            assert(seq![text::strip_cr(cur)] + (strip_crs(rest) + text::lines_from(b, Seq::empty()))
                =~= seq![text::strip_cr(cur)] + strip_crs(rest) + text::lines_from(b, Seq::empty()));
        } else {
            lemma_lines_before_newline(a.drop_first(), b, cur.push(a[0]));
        }
    }
}

/// Splitting at a separator between two parts splits each part.
pub proof fn lemma_split_at_separator(a: Seq<char>, b: Seq<char>, c: char, cur: Seq<char>)
    ensures
        text::split_from(a + seq![c] + b, c, cur) == text::split_from(a, c, cur) + text::split_from(
            b,
            c,
            Seq::empty(),
        ),
    decreases a.len(),
{
    let s = a + seq![c] + b;
    if a.len() == 0 {
        assert(s =~= seq![c] + b);
        assert(s.drop_first() =~= b);
    } else {
        assert(s[0] == a[0]);
        assert(s.drop_first() =~= a.drop_first() + seq![c] + b);
        if a[0] == c {
            lemma_split_at_separator(a.drop_first(), b, c, Seq::empty());
            let x = text::split_from(a.drop_first(), c, Seq::empty());
            let y = text::split_from(b, c, Seq::empty());
            assert(seq![cur] + (x + y) =~= seq![cur] + x + y);
        } else {
            lemma_split_at_separator(a.drop_first(), b, c, cur.push(a[0]));
        }
    }
}

/// One more character that is not the separator goes to the last piece.
pub proof fn lemma_split_push(a: Seq<char>, x: char, c: char, cur: Seq<char>)
    requires
        x != c,
    ensures
        text::split_from(a.push(x), c, cur) == text::split_from(a, c, cur).update(
            text::split_from(a, c, cur).len() - 1,
            text::split_from(a, c, cur).last().push(x),
        ),
    decreases a.len(),
{
    text::lemma_split_from_nonempty(a, c, cur);
    let s = a.push(x);
    if a.len() == 0 {
        assert(s.drop_first() =~= Seq::<char>::empty());
        assert(s[0] == x);
        assert(text::split_from(Seq::<char>::empty(), c, cur.push(x)) == seq![cur.push(x)]);
        assert(text::split_from(s, c, cur) == seq![cur.push(x)]);
        assert(text::split_from(a, c, cur) == seq![cur]);
        assert(seq![cur.push(x)] =~= seq![cur].update(0, cur.push(x)));
    } else {
        assert(s[0] == a[0]);
        assert(s.drop_first() =~= a.drop_first().push(x));
        if a[0] == c {
            lemma_split_push(a.drop_first(), x, c, Seq::empty());
            text::lemma_split_from_nonempty(a.drop_first(), c, Seq::empty());
            let r = text::split_from(a.drop_first(), c, Seq::empty());
            assert(text::split_from(s, c, cur) == seq![cur] + text::split_from(s.drop_first(), c, Seq::empty()));
            assert(text::split_from(a, c, cur) == seq![cur] + r);
            assert(seq![cur] + r.update(r.len() - 1, r.last().push(x)) =~= (seq![cur] + r).update(
                r.len() as int,
                r.last().push(x),
            ));
        } else {
            lemma_split_push(a.drop_first(), x, c, cur.push(a[0]));
        }
    }
}

/// Joining the pieces of a split with the separator gives back the text.
pub proof fn lemma_join_of_split(a: Seq<char>, c: char, cur: Seq<char>)
    ensures
        text::join(text::split_from(a, c, cur), seq![c]) == cur + a,
    decreases a.len(),
{
    if a.len() == 0 {
        assert(cur + a =~= cur);
    } else if a[0] == c {
        lemma_join_of_split(a.drop_first(), c, Seq::empty());
        text::lemma_split_from_nonempty(a.drop_first(), c, Seq::empty());
        let rest = text::split_from(a.drop_first(), c, Seq::empty());
        crate::roundtrip::lemma_join_cons(cur, rest, seq![c]);
        assert(cur + seq![c] + (Seq::<char>::empty() + a.drop_first()) =~= cur + a);
    } else {
        lemma_join_of_split(a.drop_first(), c, cur.push(a[0]));
        assert(cur.push(a[0]) + a.drop_first() =~= cur + a);
    }
}

/// The first piece is not empty when the text read so far is not, or the
/// text does not start with the separator.
pub proof fn lemma_first_piece_nonempty(a: Seq<char>, c: char, cur: Seq<char>)
    requires
        cur.len() > 0 || (a.len() > 0 && a[0] != c),
    ensures
        text::split_from(a, c, cur).len() >= 1,
        text::split_from(a, c, cur)[0].len() > 0,
    decreases a.len(),
{
    text::lemma_split_from_nonempty(a, c, cur);
    if a.len() > 0 {
        if a[0] == c {
            text::lemma_split_from_nonempty(a.drop_first(), c, Seq::empty());
        } else {
            lemma_first_piece_nonempty(a.drop_first(), c, cur.push(a[0]));
        }
    }
}

/// Lines hold no newline.
pub proof fn lemma_lines_no_newline(s: Seq<char>, cur: Seq<char>)
    requires
        !cur.contains('\n'),
    ensures
        forall|i: int|
            0 <= i < text::lines_from(s, cur).len() ==> !(#[trigger] text::lines_from(s, cur)[i]).contains(
                '\n',
            ),
    decreases s.len(),
{
    if s.len() == 0 {
        assert forall|i: int| 0 <= i < text::lines_from(s, cur).len() implies !(
        #[trigger] text::lines_from(s, cur)[i]).contains('\n') by {
            assert(text::lines_from(s, cur)[i] == cur);
        }
    } else {
        if s[0] == '\n' {
            lemma_lines_no_newline(s.drop_first(), Seq::empty());
            let r = text::lines_from(s.drop_first(), Seq::empty());
            let l = text::strip_cr(cur);
            assert(text::lines_from(s, cur) == seq![l] + r);
            assert(!l.contains('\n')) by {
                if l.contains('\n') {
                    let k = choose|k: int| 0 <= k < l.len() && l[k] == '\n';
                    assert(cur[k] == '\n');
                }
            }
            assert forall|i: int| 0 <= i < (seq![l] + r).len() implies !(#[trigger] (seq![l]
                + r)[i]).contains('\n') by {
                if i > 0 {
                    assert((seq![l] + r)[i] == r[i - 1]);
                }
            }
        } else {
            assert(!cur.push(s[0]).contains('\n')) by {
                if cur.push(s[0]).contains('\n') {
                    let k = choose|k: int| 0 <= k < cur.push(s[0]).len() && cur.push(s[0])[k] == '\n';
                    if k < cur.len() {
                        assert(cur[k] == '\n');
                    }
                }
            }
            lemma_lines_no_newline(s.drop_first(), cur.push(s[0]));
            assert(text::lines_from(s, cur) == text::lines_from(s.drop_first(), cur.push(s[0])));
        }
    }
}

/// The text holds no carriage return followed by a newline.
pub open spec fn no_crlf(s: Seq<char>) -> bool {
    !text::contains(s, "\r\n"@)
}

/// A carriage return followed by a newline at `i`.
proof fn lemma_crlf_at(s: Seq<char>, i: int)
    requires
        0 <= i && i + 1 < s.len(),
        s[i] == '\r',
        s[i + 1] == '\n',
    ensures
        !no_crlf(s),
{
    reveal_strlit("\r\n");
    assert(s.subrange(i, i + 2) =~= "\r\n"@);
    assert(text::occurs_at(s, "\r\n"@, i));
}

/// Where the text has no CRLF and does not end with a carriage return, its
/// pieces between newlines end with none.
pub proof fn lemma_pieces_without_cr(a: Seq<char>, cur: Seq<char>)
    requires
        no_crlf(cur + a),
        !crate::roundtrip::ends_cr(cur + a),
    ensures
        strip_crs(text::split_from(a, '\n', cur)) == text::split_from(a, '\n', cur),
    decreases a.len(),
{
    reveal_strlit("\r\n");
    let s = cur + a;
    if a.len() == 0 {
        assert(s =~= cur);
        assert(strip_crs(seq![cur]) =~= seq![cur]);
    } else if a[0] == '\n' {
        if cur.len() > 0 && cur.last() == '\r' {
            assert(s[cur.len() - 1] == '\r');
            assert(s[cur.len() as int] == '\n');
            lemma_crlf_at(s, cur.len() - 1);
        }
        let a1 = a.drop_first();
        assert(Seq::<char>::empty() + a1 =~= a1);
        assert(no_crlf(a1)) by {
            if !no_crlf(a1) {
                let i = choose|i: int| #[trigger] text::occurs_at(a1, "\r\n"@, i);
                assert(a1.subrange(i, i + 2) == "\r\n"@);
                assert(a1[i] == '\r' && a1[i + 1] == '\n') by {
                    assert(a1.subrange(i, i + 2)[0] == a1[i]);
                    assert(a1.subrange(i, i + 2)[1] == a1[i + 1]);
                }
                assert(s[cur.len() + 1 + i] == a1[i]);
                assert(s[cur.len() + 1 + i + 1] == a1[i + 1]);
                lemma_crlf_at(s, cur.len() + 1 + i);
            }
        }
        if a1.len() > 0 {
            assert(a1.last() == s.last());
        }
        lemma_pieces_without_cr(a1, Seq::empty());
        let rest = text::split_from(a1, '\n', Seq::empty());
        assert(strip_crs(seq![cur] + rest) =~= seq![text::strip_cr(cur)] + strip_crs(rest));
    } else {
        assert(cur.push(a[0]) + a.drop_first() =~= s);
        lemma_pieces_without_cr(a.drop_first(), cur.push(a[0]));
    }
}

// ─── Trimming ────────────────────────────────────────────────────────────────

/// Leading whitespace of a text without its last, whitespace, character.
proof fn lemma_trim_start_drop_ws(s: Seq<char>)
    requires
        s.len() > 0,
        text::is_ws(s.last()),
    ensures
        text::trim_start(s.drop_last()) == (if text::trim_start(s).len() > 0 {
            text::trim_start(s).drop_last()
        } else {
            Seq::<char>::empty()
        }),
        text::trim_start(s).len() > 0 ==> text::trim_start(s).last() == s.last(),
    decreases s.len(),
{
    if text::is_ws(s[0]) {
        if s.len() == 1 {
            assert(s.drop_last() =~= Seq::<char>::empty());
            assert(s.drop_first() =~= Seq::<char>::empty());
            assert(text::trim_start(s) == text::trim_start(s.drop_first()));
            assert(text::trim_start(Seq::<char>::empty()) == Seq::<char>::empty());
        } else {
            assert(text::trim_start(s) == text::trim_start(s.drop_first()));
            assert(s.drop_last()[0] == s[0]);
            assert(s.drop_last().drop_first() =~= s.drop_first().drop_last());
            assert(s.drop_first().last() == s.last());
            lemma_trim_start_drop_ws(s.drop_first());
        }
    } else {
        assert(s.len() >= 2);
        assert(s.drop_last()[0] == s[0]);
    }
}

/// Trimming a text whose last character is whitespace trims it without that character.
pub proof fn lemma_trim_drop_ws(s: Seq<char>)
    requires
        s.len() > 0,
        text::is_ws(s.last()),
    ensures
        text::trim(s.drop_last()) == text::trim(s),
{
    lemma_trim_start_drop_ws(s);
}

/// What trimming the end leaves: nothing, or text ending with non-whitespace.
pub proof fn lemma_trim_end_last(s: Seq<char>)
    ensures
        text::trim_end(s).len() == 0 || !text::is_ws(text::trim_end(s).last()),
        text::trim_end(s).len() == 0 ==> text::trim_end(s.drop_last()).len() == 0 || s.len() == 0,
    decreases s.len(),
{
    if s.len() > 0 && text::is_ws(s.last()) {
        lemma_trim_end_last(s.drop_last());
    }
}

// ─── What removing the section keeps ─────────────────────────────────────────

/// A line that, trimmed, holds neither marker: removing the section keeps it.
pub open spec fn unmarked(l: Seq<char>) -> bool {
    !text::contains(text::trim(l), shell::managed_begin()) && !text::contains(
        text::trim(l),
        shell::managed_end(),
    )
}

/// Every piece of the text between newlines is unmarked.
pub open spec fn pieces_unmarked(s: Seq<char>) -> bool {
    forall|i: int|
        0 <= i < text::split_char(s, '\n').len() ==> unmarked(#[trigger] text::split_char(s, '\n')[i])
}

/// The text is empty or does not start with a newline.
pub open spec fn no_leading_newline(s: Seq<char>) -> bool {
    s.len() == 0 || s[0] != '\n'
}

/// The empty line is unmarked.
proof fn lemma_empty_unmarked()
    ensures
        unmarked(Seq::<char>::empty()),
{
    reveal_strlit("# === Podman TUI Managed ===");
    reveal_strlit("# === End Podman TUI Managed ===");
    let e = Seq::<char>::empty();
    assert(text::trim_start(e) == e);
    assert(text::trim_end(e) == e);
    assert(!text::contains(e, shell::managed_begin())) by {
        if text::contains(e, shell::managed_begin()) {
            let i = choose|i: int| #[trigger] text::occurs_at(e, shell::managed_begin(), i);
        }
    }
    assert(!text::contains(e, shell::managed_end())) by {
        if text::contains(e, shell::managed_end()) {
            let i = choose|i: int| #[trigger] text::occurs_at(e, shell::managed_end(), i);
        }
    }
}

/// What removing the section keeps is unmarked, piece by piece, and does not
/// start with a newline.
pub proof fn lemma_kept_unmarked(ls: Seq<Seq<char>>)
    requires
        forall|i: int| 0 <= i < ls.len() ==> !(#[trigger] ls[i]).contains('\n'),
    ensures
        pieces_unmarked(shell::strip_managed(ls).0),
        no_leading_newline(shell::strip_managed(ls).0),
    decreases ls.len(),
{
    let e = Seq::<char>::empty();
    if ls.len() == 0 {
        lemma_empty_unmarked();
        assert(text::split_char(e, '\n') == seq![e]);
    } else {
        let prev = shell::strip_managed(ls.drop_last());
        let l = ls.last();
        assert forall|i: int| 0 <= i < ls.drop_last().len() implies !(#[trigger] ls.drop_last()[i]).contains('\n') by {
            assert(ls.drop_last()[i] == ls[i]);
        }
        lemma_kept_unmarked(ls.drop_last());
        assert(ls[ls.len() - 1] == l);
        if !text::contains(text::trim(l), shell::managed_begin()) && !text::contains(
            text::trim(l),
            shell::managed_end(),
        ) && !prev.1 {
            shell::lemma_split_without_separator(l, '\n', e);
            assert(e + l =~= l);
            if prev.0.len() > 0 {
                let n = prev.0.push('\n') + l;
                assert(n =~= prev.0 + seq!['\n'] + l);
                lemma_split_at_separator(prev.0, l, '\n', e);
                let sp = text::split_char(prev.0, '\n');
                assert(text::split_char(n, '\n') == sp + seq![l]);
                assert forall|i: int| 0 <= i < text::split_char(n, '\n').len() implies unmarked(
                    #[trigger] text::split_char(n, '\n')[i],
                ) by {
                    if i < sp.len() {
                        assert(text::split_char(n, '\n')[i] == sp[i]);
                    }
                }
                assert(n[0] == prev.0[0]);
            } else {
                assert(prev.0 + l =~= l);
                if l.len() > 0 {
                    assert(l[0] != '\n') by {
                        if l[0] == '\n' {
                            assert(l.contains('\n'));
                        }
                    }
                }
            }
        }
    }
}

/// Trimming the end keeps the pieces unmarked and the start as it was.
pub proof fn lemma_trim_end_unmarked(s: Seq<char>)
    requires
        pieces_unmarked(s),
        no_leading_newline(s),
    ensures
        pieces_unmarked(text::trim_end(s)),
        no_leading_newline(text::trim_end(s)),
    decreases s.len(),
{
    if s.len() > 0 && text::is_ws(s.last()) {
        let d = s.drop_last();
        let e = Seq::<char>::empty();
        let sd = text::split_char(d, '\n');
        let ss = text::split_char(s, '\n');
        if s.last() == '\n' {
            assert(s =~= d + seq!['\n'] + e);
            lemma_split_at_separator(d, e, '\n', e);
            assert(ss == sd + seq![e]);
            assert forall|i: int| 0 <= i < sd.len() implies unmarked(#[trigger] sd[i]) by {
                assert(ss[i] == sd[i]);
            }
        } else {
            assert(s =~= d.push(s.last()));
            lemma_split_push(d, s.last(), '\n', e);
            text::lemma_split_from_nonempty(d, '\n', e);
            assert(ss == sd.update(sd.len() - 1, sd.last().push(s.last())));
            assert forall|i: int| 0 <= i < sd.len() implies unmarked(#[trigger] sd[i]) by {
                if i < sd.len() - 1 {
                    assert(ss[i] == sd[i]);
                } else {
                    let p = sd.last().push(s.last());
                    assert(ss[i] == p);
                    assert(p.drop_last() =~= sd.last());
                    lemma_trim_drop_ws(p);
                }
            }
        }
        if d.len() > 0 {
            assert(d[0] == s[0]);
        }
        lemma_trim_end_unmarked(d);
    }
}

/// A join is at least as long as its first piece.
proof fn lemma_join_len(ps: Seq<Seq<char>>, sep: Seq<char>)
    requires
        ps.len() >= 1,
    ensures
        text::join(ps, sep).len() >= ps[0].len(),
    decreases ps.len(),
{
    if ps.len() > 1 {
        lemma_join_len(ps.drop_last(), sep);
        assert(ps.drop_last()[0] == ps[0]);
    }
}

/// Removing the section from unmarked lines, the first not empty, keeps them all.
pub proof fn lemma_strip_unmarked(ps: Seq<Seq<char>>)
    requires
        ps.len() >= 1,
        ps[0].len() > 0,
        forall|i: int| 0 <= i < ps.len() ==> unmarked(#[trigger] ps[i]),
    ensures
        shell::strip_managed(ps) == (text::join(ps, "\n"@), false),
    decreases ps.len(),
{
    reveal_strlit("\n");
    let d = ps.drop_last();
    assert(ps[ps.len() - 1] == ps.last());
    if ps.len() == 1 {
        assert(d =~= Seq::<Seq<char>>::empty());
        assert(shell::strip_managed(d) == (Seq::<char>::empty(), false));
        assert(Seq::<char>::empty() + ps.last() =~= ps.last());
        assert(unmarked(ps[0]));
        assert(text::join(ps, "\n"@) == ps[0]);
    } else {
        assert(unmarked(ps[ps.len() - 1]));
        assert(text::join(ps, "\n"@) == text::join(d, "\n"@) + "\n"@ + ps.last());
        assert forall|i: int| 0 <= i < d.len() implies unmarked(#[trigger] d[i]) by {
            assert(d[i] == ps[i]);
        }
        assert(d[0] == ps[0]);
        lemma_strip_unmarked(d);
        lemma_join_len(d, "\n"@);
        assert(text::join(d, "\n"@).push('\n') + ps.last() =~= text::join(d, "\n"@) + "\n"@
            + ps.last());
    }
}

/// Removing the section drops the lines from its opening marker through the
/// first line after it that holds the closing marker, whatever came before.
pub proof fn lemma_strip_section(a: Seq<Seq<char>>, q: Seq<Seq<char>>)
    requires
        q.len() >= 2,
        text::contains(text::trim(q[0]), shell::managed_begin()),
        forall|i: int| 0 < i < q.len() - 1 ==> !text::contains(text::trim(#[trigger] q[i]), shell::managed_end()),
        text::contains(text::trim(q.last()), shell::managed_end()),
        !text::contains(text::trim(q.last()), shell::managed_begin()),
    ensures
        shell::strip_managed(a + q) == (shell::strip_managed(a).0, false),
{
    lemma_strip_inside(a, q, q.len() - 1);
    assert((a + q).drop_last() =~= a + q.take(q.len() - 1));
    assert((a + q).last() == q.last());
}

/// Inside the section every line is dropped.
proof fn lemma_strip_inside(a: Seq<Seq<char>>, q: Seq<Seq<char>>, k: int)
    requires
        1 <= k < q.len(),
        text::contains(text::trim(q[0]), shell::managed_begin()),
        forall|i: int| 0 < i < q.len() - 1 ==> !text::contains(text::trim(#[trigger] q[i]), shell::managed_end()),
    ensures
        shell::strip_managed(a + q.take(k)) == (shell::strip_managed(a).0, true),
    decreases k,
{
    let s = a + q.take(k);
    if k == 1 {
        assert(s.drop_last() =~= a);
        assert(s.last() == q[0]);
    } else {
        lemma_strip_inside(a, q, k - 1);
        assert(s.drop_last() =~= a + q.take(k - 1));
        assert(s.last() == q[k - 1]);
    }
}

// ─── The law ─────────────────────────────────────────────────────────────────

/// The lines of a managed section whose own lines hold no newline: each of its
/// lines but the last without a carriage return at its end, then the closing marker.
proof fn lemma_section_lines(shell: ShellKind, vars: Seq<EnvVarModel>, paths: Seq<PathEntryModel>)
    requires
        forall|i: int|
            0 <= i < shell::managed_lines(shell, vars, paths).len() ==> !(
            #[trigger] shell::managed_lines(shell, vars, paths)[i]).contains('\n'),
    ensures
        shell::managed_lines(shell, vars, paths).len() >= 4,
        shell::managed_lines(shell, vars, paths)[0] == shell::managed_begin(),
        shell::managed_lines(shell, vars, paths).last() == shell::managed_end(),
        text::lines(shell::managed_section(shell, vars, paths)) == strip_crs(
            shell::managed_lines(shell, vars, paths).drop_last(),
        ) + seq![shell::managed_end()],
{
    reveal_strlit("\n");
    let ml = shell::managed_lines(shell, vars, paths);
    let e = Seq::<char>::empty();
    let d = ml.drop_last();
    let end = shell::managed_end();
    assert(ml.last() == end);
    assert(ml.len() >= 4);
    let x = text::join(d, "\n"@);
    assert(shell::managed_section(shell, vars, paths) == x + "\n"@ + end);
    assert(x + "\n"@ + end =~= x + seq!['\n'] + end);
    lemma_lines_before_newline(x, end, e);
    assert("\n"@ =~= seq!['\n']);
    assert forall|i: int| 0 <= i < d.len() implies !(#[trigger] d[i]).contains('\n') by {
        assert(d[i] == ml[i]);
    }
    crate::roundtrip::lemma_split_of_join(d, '\n');
    assert(ml[ml.len() - 1] == end);
    crate::roundtrip::lemma_lines_from_last(end, e);
    reveal_strlit("# === End Podman TUI Managed ===");
    assert(e + end =~= end);
}

/// The opening marker does not hold the closing one, nor the closing the opening one.
proof fn lemma_markers_distinct()
    ensures
        !text::contains(shell::managed_end(), shell::managed_begin()),
        text::trim(shell::managed_begin()) == shell::managed_begin(),
        text::trim(shell::managed_end()) == shell::managed_end(),
        text::contains(shell::managed_begin(), shell::managed_begin()),
        text::contains(shell::managed_end(), shell::managed_end()),
{
    reveal_strlit("# === Podman TUI Managed ===");
    reveal_strlit("# === End Podman TUI Managed ===");
    let b = shell::managed_begin();
    let n = shell::managed_end();
    crate::roundtrip::lemma_trim_noop(b);
    crate::roundtrip::lemma_trim_noop(n);
    assert(b.subrange(0, b.len() as int) =~= b);
    assert(text::occurs_at(b, b, 0));
    assert(n.subrange(0, n.len() as int) =~= n);
    assert(text::occurs_at(n, n, 0));
    if text::contains(n, b) {
        let i = choose|i: int| #[trigger] text::occurs_at(n, b, i);
        assert(0 <= i <= 4);
        assert(n.subrange(i, i + b.len())[0] == n[i]);
        assert(n.subrange(i, i + b.len())[6] == n[i + 6]);
        assert(b[0] == '#' && b[6] == 'P');
        assert(n[0] == '#' && n[1] == ' ' && n[2] == '=' && n[3] == '=' && n[4] == '=');
        assert(n[6] == 'E' && n[7] == 'n' && n[8] == 'd' && n[9] == ' ' && n[10] == 'P');
    }
}

/// The lines of a text that open the managed section and close it once, at the end.
pub open spec fn one_section(q: Seq<Seq<char>>) -> bool {
    &&& q.len() >= 2
    &&& text::contains(text::trim(q[0]), shell::managed_begin())
    &&& forall|i: int| 0 < i < q.len() - 1 ==> !text::contains(text::trim(#[trigger] q[i]), shell::managed_end())
    &&& text::contains(text::trim(q.last()), shell::managed_end())
    &&& !text::contains(text::trim(q.last()), shell::managed_begin())
}

/// Lines from the opening marker to the closing one, none between holding the
/// closing one, open and close once when read back.
proof fn lemma_one_section_of(ml: Seq<Seq<char>>)
    requires
        ml.len() >= 2,
        ml[0] == shell::managed_begin(),
        ml.last() == shell::managed_end(),
        forall|i: int| 0 < i < ml.len() - 1 ==> !text::contains(text::trim(#[trigger] ml[i]), shell::managed_end()),
    ensures
        one_section(strip_crs(ml.drop_last()) + seq![shell::managed_end()]),
{
    let begin = shell::managed_begin();
    let end = shell::managed_end();
    lemma_markers_distinct();
    let q = strip_crs(ml.drop_last()) + seq![end];
    reveal_strlit("# === Podman TUI Managed ===");
    assert(q[0] == text::strip_cr(begin));
    assert(q[0] == begin);
    assert(q.last() == end);
    assert forall|i: int| 0 < i < q.len() - 1 implies !text::contains(text::trim(#[trigger] q[i]), end) by {
        let l = ml[i];
        assert(q[i] == text::strip_cr(l));
        if l.len() > 0 && l.last() == '\r' {
            lemma_trim_drop_ws(l);
        }
    }
}

/// The managed section, read as lines, opens and closes once.
proof fn lemma_section_is_one(shell: ShellKind, vars: Seq<EnvVarModel>, paths: Seq<PathEntryModel>)
    requires
        forall|i: int|
            0 <= i < shell::managed_lines(shell, vars, paths).len() ==> !(
            #[trigger] shell::managed_lines(shell, vars, paths)[i]).contains('\n'),
        forall|i: int|
            0 < i < shell::managed_lines(shell, vars, paths).len() - 1 ==> !text::contains(
                text::trim(#[trigger] shell::managed_lines(shell, vars, paths)[i]),
                shell::managed_end(),
            ),
    ensures
        one_section(text::lines(shell::managed_section(shell, vars, paths))),
{
    lemma_section_lines(shell, vars, paths);
    lemma_one_section_of(shell::managed_lines(shell, vars, paths));
}

/// Removing the section from text that is kept text, a blank line and one
/// section leaves the kept text and a newline.
proof fn lemma_remove_after_kept(existing: Seq<char>, sec: Seq<char>)
    requires
        one_section(text::lines(sec)),
        text::trim_end(shell::without_managed(existing)).len() > 0,
        no_crlf(text::trim_end(shell::without_managed(existing))),
    ensures
        shell::without_managed(text::trim_end(shell::without_managed(existing)) + "\n\n"@ + sec)
            == text::trim_end(shell::without_managed(existing)).push('\n'),
{
    reveal_strlit("\n");
    reveal_strlit("\n\n");
    let e = Seq::<char>::empty();
    let kept = shell::without_managed(existing);
    let t = text::trim_end(kept);
    let q = text::lines(sec);
    let s1 = t + "\n\n"@ + sec;
    let rest = seq!['\n'] + sec;
    assert(s1 =~= t + seq!['\n'] + rest);
    lemma_lines_before_newline(t, rest, e);
    assert(rest[0] == '\n');
    assert(rest.drop_first() =~= sec);
    assert(text::lines_from(rest, e) == seq![text::strip_cr(e)] + q);
    assert(text::strip_cr(e) == e);
    lemma_trim_end_last(kept);
    assert(e + t =~= t);
    lemma_pieces_without_cr(t, e);
    let ps = text::split_char(t, '\n');
    lemma_lines_no_newline(existing, e);
    lemma_kept_unmarked(text::lines(existing));
    lemma_trim_end_unmarked(kept);
    lemma_first_piece_nonempty(t, '\n', e);
    assert forall|i: int| 0 <= i < ps.len() implies unmarked(#[trigger] ps[i]) by {}
    lemma_strip_unmarked(ps);
    lemma_join_of_split(t, '\n', e);
    assert("\n"@ =~= seq!['\n']);
    assert(shell::strip_managed(ps) == (t, false));
    let a = ps + seq![e];
    assert(text::lines(s1) == a + q);
    lemma_strip_section(a, q);
    lemma_empty_unmarked();
    assert(a.drop_last() =~= ps);
    assert(a.last() == e);
    assert(shell::strip_managed(a) == (t.push('\n') + e, false));
    assert(t.push('\n') + e =~= t.push('\n'));
}

/// Law: saving a configuration a second time, with the same variables and PATH
/// entries, writes what the first save wrote: the section the first save wrote
/// is found, removed and written again, and the rest is kept as it is. It holds
/// when the section's lines are single lines, none but the last holds the
/// closing marker, and what the first save kept of the old text is empty, or
/// does not end in whitespace only and holds no CRLF line ending once its
/// trailing whitespace is removed.
pub proof fn lemma_save_twice(
    existing: Seq<char>,
    shell: ShellKind,
    vars: Seq<EnvVarModel>,
    paths: Seq<PathEntryModel>,
)
    requires
        forall|i: int|
            0 <= i < shell::managed_lines(shell, vars, paths).len() ==> !(
            #[trigger] shell::managed_lines(shell, vars, paths)[i]).contains('\n'),
        forall|i: int|
            0 < i < shell::managed_lines(shell, vars, paths).len() - 1 ==> !text::contains(
                text::trim(#[trigger] shell::managed_lines(shell, vars, paths)[i]),
                shell::managed_end(),
            ),
        shell::without_managed(existing).len() == 0 || text::trim_end(
            shell::without_managed(existing),
        ).len() > 0,
        no_crlf(text::trim_end(shell::without_managed(existing))),
    ensures
        shell::saved_config(shell::saved_config(existing, shell, vars, paths), shell, vars, paths)
            == shell::saved_config(existing, shell, vars, paths),
{
    let e = Seq::<char>::empty();
    let sec = shell::managed_section(shell, vars, paths);
    lemma_section_is_one(shell, vars, paths);
    let q = text::lines(sec);
    let kept = shell::without_managed(existing);
    let t = text::trim_end(kept);
    let s1 = shell::saved_config(existing, shell, vars, paths);
    if kept.len() == 0 {
        assert(s1 == sec);
        lemma_strip_section(Seq::<Seq<char>>::empty(), q);
        assert(Seq::<Seq<char>>::empty() + q =~= q);
        assert(shell::strip_managed(Seq::<Seq<char>>::empty()).0 == e);
        assert(shell::without_managed(s1) == e);
    } else {
        assert(s1 == t + "\n\n"@ + sec);
        lemma_remove_after_kept(existing, sec);
        let k2 = t.push('\n');
        assert(shell::without_managed(s1) == k2);
        lemma_trim_end_last(kept);
        assert(k2.drop_last() =~= t);
        assert(text::is_ws(k2.last()));
        assert(text::trim_end(k2) == text::trim_end(t));
        assert(text::trim_end(t) == t);
    }
}

/// Law: removing the managed section from the section as saving writes it
/// leaves nothing, when its lines are single lines and none but the last holds
/// the closing marker.
pub proof fn lemma_remove_written_section(shell: ShellKind, vars: Seq<EnvVarModel>, paths: Seq<PathEntryModel>)
    requires
        forall|i: int|
            0 <= i < shell::managed_lines(shell, vars, paths).len() ==> !(
            #[trigger] shell::managed_lines(shell, vars, paths)[i]).contains('\n'),
        forall|i: int|
            0 < i < shell::managed_lines(shell, vars, paths).len() - 1 ==> !text::contains(
                text::trim(#[trigger] shell::managed_lines(shell, vars, paths)[i]),
                shell::managed_end(),
            ),
    ensures
        shell::without_managed(shell::managed_section(shell, vars, paths)) == Seq::<char>::empty(),
{
    lemma_section_is_one(shell, vars, paths);
    let q = text::lines(shell::managed_section(shell, vars, paths));
    lemma_strip_section(Seq::<Seq<char>>::empty(), q);
    assert(Seq::<Seq<char>>::empty() + q =~= q);
    assert(shell::strip_managed(Seq::<Seq<char>>::empty()).0 == Seq::<char>::empty());
}

/// Law: saving twice writes what saving once wrote, when the enabled names,
/// values and paths hold no line break and no `#`, and what the first save kept
/// of the old text is empty, or does not end in whitespace only and holds no
/// CRLF line ending once its trailing whitespace is removed.
pub proof fn lemma_plain_save_twice(
    existing: Seq<char>,
    shell: ShellKind,
    vars: Seq<EnvVarModel>,
    paths: Seq<PathEntryModel>,
)
    requires
        crate::roundtrip::plain_entries(vars, paths),
        shell::without_managed(existing).len() == 0 || text::trim_end(
            shell::without_managed(existing),
        ).len() > 0,
        no_crlf(text::trim_end(shell::without_managed(existing))),
    ensures
        shell::saved_config(shell::saved_config(existing, shell, vars, paths), shell, vars, paths)
            == shell::saved_config(existing, shell, vars, paths),
{
    crate::roundtrip::lemma_plain_section_lines(shell, vars, paths);
    let ml = shell::managed_lines(shell, vars, paths);
    assert forall|i: int| 0 < i < ml.len() - 1 implies !text::contains(
        text::trim(#[trigger] ml[i]),
        shell::managed_end(),
    ) by {
        assert(crate::roundtrip::no_markers(text::trim(ml[i])));
    }
    assert forall|i: int| 0 <= i < ml.len() implies !(#[trigger] ml[i]).contains('\n') by {
        assert(crate::roundtrip::no_newline(ml[i]));
    }
    lemma_save_twice(existing, shell, vars, paths);
}

} // verus!
