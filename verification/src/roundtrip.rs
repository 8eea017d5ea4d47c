//! What a saved configuration reads back as: the laws that loading the managed
//! section written for a set of variables and PATH entries gives back the
//! enabled ones, and that loading a whole saved configuration gives what its
//! own lines set followed by them; and the lemmas about lines, splitting and
//! trimming they rest on.
use vstd::prelude::*;
use crate::text;
use crate::shell;
use crate::resave;
use crate::shell::{EnvVarModel, PathEntryModel, ShellKind};

verus! {

// ─── Lines and pieces of joined text ─────────────────────────────────────────

/// `s` holds no newline.
pub open spec fn no_newline(s: Seq<char>) -> bool {
    !s.contains('\n')
}

proof fn lemma_no_char_drop_first(s: Seq<char>, c: char)
    requires
        s.len() > 0,
        !s.contains(c),
    ensures
        !s.drop_first().contains(c),
        s[0] != c,
{
    if s.drop_first().contains(c) {
        let k = choose|k: int| 0 <= k < s.drop_first().len() && s.drop_first()[k] == c;
        assert(s[k + 1] == c);
    }
}

/// Reading a line's characters up to the next newline.
proof fn lemma_lines_from_newline(a: Seq<char>, b: Seq<char>, cur: Seq<char>)
    requires
        no_newline(a),
    ensures
        text::lines_from(a + seq!['\n'] + b, cur) == seq![text::strip_cr(cur + a)]
            + text::lines_from(b, Seq::empty()),
    decreases a.len(),
{
    if a.len() == 0 {
        assert(a + seq!['\n'] + b =~= seq!['\n'] + b);
        assert((seq!['\n'] + b).drop_first() =~= b);
        assert(cur + a =~= cur);
    } else {
        lemma_no_char_drop_first(a, '\n');
        let s = a + seq!['\n'] + b;
        assert(s[0] == a[0]);
        assert(s.drop_first() =~= a.drop_first() + seq!['\n'] + b);
        lemma_lines_from_newline(a.drop_first(), b, cur.push(a[0]));
        assert(cur.push(a[0]) + a.drop_first() =~= cur + a);
    }
}

/// Reading the last line, which has no newline after it.
pub proof fn lemma_lines_from_last(a: Seq<char>, cur: Seq<char>)
    requires
        no_newline(a),
    ensures
        text::lines_from(a, cur) == (if (cur + a).len() == 0 {
            Seq::<Seq<char>>::empty()
        } else {
            seq![cur + a]
        }),
    decreases a.len(),
{
    if a.len() == 0 {
        assert(cur + a =~= cur);
    } else {
        lemma_no_char_drop_first(a, '\n');
        lemma_lines_from_last(a.drop_first(), cur.push(a[0]));
        assert(cur.push(a[0]) + a.drop_first() =~= cur + a);
    }
}

/// Joining a first piece to the join of the rest.
pub proof fn lemma_join_cons(x: Seq<char>, rest: Seq<Seq<char>>, sep: Seq<char>)
    requires
        rest.len() > 0,
    ensures
        text::join(seq![x] + rest, sep) == x + sep + text::join(rest, sep),
    decreases rest.len(),
{
    let all = seq![x] + rest;
    if rest.len() == 1 {
        assert(all.drop_last() =~= seq![x]);
        assert(all.last() == rest[0]);
        assert(text::join(seq![x], sep) == x);
        assert(text::join(rest, sep) == rest[0]);
        assert(text::join(all, sep) == text::join(all.drop_last(), sep) + sep + all.last());
    } else {
        lemma_join_cons(x, rest.drop_last(), sep);
        assert(all.drop_last() =~= seq![x] + rest.drop_last());
        assert(all.last() == rest.last());
        assert(text::join(all, sep) == text::join(all.drop_last(), sep) + sep + all.last());
        assert(text::join(rest, sep) == text::join(rest.drop_last(), sep) + sep + rest.last());
        assert(x + sep + text::join(rest.drop_last(), sep) + sep + rest.last() =~= x + sep + (
        text::join(rest.drop_last(), sep) + sep + rest.last()));
    }
}

/// The line ends with a carriage return.
pub open spec fn ends_cr(l: Seq<char>) -> bool {
    l.len() > 0 && l.last() == '\r'
}

/// Law: lines without newlines, joined by newlines, read back as the same
/// lines, provided none but the last ends with a carriage return and the last
/// is not empty.
pub proof fn lemma_lines_of_join(ls: Seq<Seq<char>>)
    requires
        ls.len() > 0,
        forall|i: int| 0 <= i < ls.len() ==> no_newline(#[trigger] ls[i]),
        forall|i: int| 0 <= i < ls.len() - 1 ==> !ends_cr(#[trigger] ls[i]),
        ls.last().len() > 0,
    ensures
        text::lines(text::join(ls, "\n"@)) == ls,
    decreases ls.len(),
{
    reveal_strlit("\n");
    assert("\n"@ =~= seq!['\n']);
    if ls.len() == 1 {
        assert(text::join(ls, "\n"@) == ls[0]);
        assert(no_newline(ls[0]));
        lemma_lines_from_last(ls[0], Seq::empty());
        assert(Seq::<char>::empty() + ls[0] =~= ls[0]);
        assert(seq![ls[0]] =~= ls);
    } else {
        let rest = ls.drop_first();
        assert(ls =~= seq![ls[0]] + rest);
        lemma_join_cons(ls[0], rest, "\n"@);
        assert forall|i: int| 0 <= i < rest.len() implies no_newline(#[trigger] rest[i]) by {
            assert(rest[i] == ls[i + 1]);
        }
        assert forall|i: int| 0 <= i < rest.len() - 1 implies !ends_cr(#[trigger] rest[i]) by {
            assert(rest[i] == ls[i + 1]);
        }
        lemma_lines_of_join(rest);
        assert(no_newline(ls[0]));
        lemma_lines_from_newline(ls[0], text::join(rest, "\n"@), Seq::empty());
        assert(Seq::<char>::empty() + ls[0] =~= ls[0]);
        assert(!ends_cr(ls[0]));
        assert(text::strip_cr(ls[0]) == ls[0]);
        assert(ls[0] + "\n"@ + text::join(rest, "\n"@) =~= ls[0] + seq!['\n'] + text::join(
            rest,
            "\n"@,
        ));
    }
}

/// Reading a piece up to the next separator.
proof fn lemma_split_from_sep(a: Seq<char>, b: Seq<char>, c: char, cur: Seq<char>)
    requires
        !a.contains(c),
    ensures
        text::split_from(a + seq![c] + b, c, cur) == seq![cur + a] + text::split_from(
            b,
            c,
            Seq::empty(),
        ),
    decreases a.len(),
{
    if a.len() == 0 {
        assert(a + seq![c] + b =~= seq![c] + b);
        assert((seq![c] + b).drop_first() =~= b);
        assert(cur + a =~= cur);
    } else {
        lemma_no_char_drop_first(a, c);
        let s = a + seq![c] + b;
        assert(s[0] == a[0]);
        assert(s.drop_first() =~= a.drop_first() + seq![c] + b);
        lemma_split_from_sep(a.drop_first(), b, c, cur.push(a[0]));
        assert(cur.push(a[0]) + a.drop_first() =~= cur + a);
    }
}

/// Law: pieces without the separator, joined by it, split back into the same pieces.
pub proof fn lemma_split_of_join(ps: Seq<Seq<char>>, c: char)
    requires
        ps.len() > 0,
        forall|i: int| 0 <= i < ps.len() ==> !(#[trigger] ps[i]).contains(c),
    ensures
        text::split_char(text::join(ps, seq![c]), c) == ps,
    decreases ps.len(),
{
    if ps.len() == 1 {
        shell::lemma_split_without_separator(ps[0], c, Seq::empty());
        assert(Seq::<char>::empty() + ps[0] =~= ps[0]);
        assert(seq![ps[0]] =~= ps);
    } else {
        let rest = ps.drop_first();
        assert(ps =~= seq![ps[0]] + rest);
        lemma_join_cons(ps[0], rest, seq![c]);
        assert forall|i: int| 0 <= i < rest.len() implies !(#[trigger] rest[i]).contains(c) by {
            assert(rest[i] == ps[i + 1]);
        }
        lemma_split_of_join(rest, c);
        lemma_split_from_sep(ps[0], text::join(rest, seq![c]), c, Seq::empty());
        assert(Seq::<char>::empty() + ps[0] =~= ps[0]);
    }
}

// ─── Trimming, prefixes and searching ────────────────────────────────────────

/// Trimming leaves alone a sequence that starts and ends with non-whitespace.
pub proof fn lemma_trim_noop(s: Seq<char>)
    requires
        s.len() > 0,
        !text::is_ws(s[0]),
        !text::is_ws(s.last()),
    ensures
        text::trim(s) == s,
{
}

/// The first copy of `c` is at `k` when `s[k]` is `c` and none comes before.
pub proof fn lemma_find_char_at(s: Seq<char>, c: char, k: int)
    requires
        0 <= k < s.len(),
        s[k] == c,
        forall|j: int| 0 <= j < k ==> s[j] != c,
    ensures
        text::find_char(s, c) == Some(k),
{
    text::lemma_find_char(s, c);
    match text::find_char(s, c) {
        Some(i) => {
            if i < k {
                assert(s[i] != c);
            } else if i > k {
                assert(s[k] != c);
            }
        },
        None => {
            assert(s[k] != c);
        },
    }
}

/// A sequence starts with any prefix of it.
pub proof fn lemma_starts_with_concat(p: Seq<char>, q: Seq<char>)
    ensures
        text::starts_with(p + q, p),
        (p + q).skip(p.len() as int) == q,
{
    assert((p + q).take(p.len() as int) =~= p);
    assert((p + q).skip(p.len() as int) =~= q);
}

// ─── Reading back single lines ───────────────────────────────────────────────

/// The line holds neither marker of the managed section.
pub open spec fn no_markers(l: Seq<char>) -> bool {
    !text::contains(l, shell::managed_begin()) && !text::contains(l, shell::managed_end())
}

/// A value that bash and zsh read back unchanged without quotes: no whitespace
/// at either end and not enclosed in a matching pair of quotes.
pub open spec fn plain_value(v: Seq<char>) -> bool {
    v.len() == 0 || (!text::is_ws(v[0]) && !text::is_ws(v.last()) && !(v.len() >= 2 && ((v[0]
        == '"' && v.last() == '"') || (v[0] == '\'' && v.last() == '\''))))
}

/// What parsing the lines of `a` and then those of `b` finds.
pub proof fn lemma_parse_lines_add(shell: ShellKind, a: Seq<Seq<char>>, b: Seq<Seq<char>>)
    ensures
        shell::parse_lines(shell, a + b) == (
            shell::parse_lines(shell, a).0 + shell::parse_lines(shell, b).0,
            shell::parse_lines(shell, a).1 + shell::parse_lines(shell, b).1,
        ),
    decreases b.len(),
{
    if b.len() == 0 {
        assert(a + b =~= a);
        assert(shell::parse_lines(shell, a).0 + Seq::<EnvVarModel>::empty() =~= shell::parse_lines(shell, a).0);
        assert(shell::parse_lines(shell, a).1 + Seq::<PathEntryModel>::empty() =~= shell::parse_lines(shell, a).1);
    } else {
        lemma_parse_lines_add(shell, a, b.drop_last());
        assert((a + b).drop_last() =~= a + b.drop_last());
        assert((a + b).last() == b.last());
        let pa = shell::parse_lines(shell, a);
        let pb = shell::parse_lines(shell, b.drop_last());
        let pl = shell::parse_line(shell, b.last());
        assert(pa.0 + pb.0 + pl.0 =~= pa.0 + (pb.0 + pl.0));
        assert(pa.1 + pb.1 + pl.1 =~= pa.1 + (pb.1 + pl.1));
    }
}

/// What parsing a single line finds.
pub proof fn lemma_parse_lines_single(shell: ShellKind, l: Seq<char>)
    ensures
        shell::parse_lines(shell, seq![l]) == shell::parse_line(shell, l),
{
    assert(seq![l].drop_last() =~= Seq::<Seq<char>>::empty());
    assert(shell::parse_lines(shell, Seq::<Seq<char>>::empty()) == shell::nothing());
    assert(seq![l].last() == l);
    let p = shell::parse_line(shell, l);
    assert(Seq::<EnvVarModel>::empty() + p.0 =~= p.0);
    assert(Seq::<PathEntryModel>::empty() + p.1 =~= p.1);
}

/// A comment line sets nothing.
pub proof fn lemma_comment_line(shell: ShellKind, l: Seq<char>)
    requires
        l.len() > 0,
        l[0] == '#',
        !text::is_ws(l.last()),
    ensures
        shell::parse_line(shell, l) == shell::nothing(),
        !ends_cr(l),
{
    lemma_trim_noop(l);
}

/// A blank line sets nothing.
pub proof fn lemma_blank_line(shell: ShellKind)
    ensures
        shell::parse_line(shell, ""@) == shell::nothing(),
        !ends_cr(""@),
{
    reveal_strlit("");
}

/// A bash or zsh variable line reads back as the variable.
pub proof fn lemma_posix_var_line(shell: ShellKind, name: Seq<char>, value: Seq<char>)
    requires
        shell != ShellKind::Fish,
        !name.contains('='),
        name != "PATH"@,
        value.contains(' ') || value.contains('$') || plain_value(value),
        no_markers(shell::env_line(shell, name, value)),
    ensures
        shell::parse_line(shell, shell::env_line(shell, name, value)) == (
            seq![EnvVarModel { name, value, enabled: true }],
            Seq::<PathEntryModel>::empty(),
        ),
        !ends_cr(shell::env_line(shell, name, value)),
{
    reveal_strlit("export ");
    reveal_strlit("=");
    reveal_strlit("=\"");
    reveal_strlit("\"");
    reveal_strlit("#");
    let l = shell::env_line(shell, name, value);
    let quoted = value.contains(' ') || value.contains('$');
    let tail = if quoted {
        "=\""@ + value + "\""@
    } else {
        "="@ + value
    };
    let rest = name + tail;
    assert(l =~= "export "@ + rest);
    assert(l[0] == 'e');
    if quoted {
        assert(l.last() == '"');
    } else if value.len() > 0 {
        assert(l.last() == value.last());
    } else {
        assert(l.last() == '=');
    }
    lemma_trim_noop(l);
    lemma_starts_with_concat("export "@, rest);
    assert(rest[name.len() as int] == '=');
    assert forall|j: int| 0 <= j < name.len() implies rest[j] != '=' by {
        assert(rest[j] == name[j]);
    }
    lemma_find_char_at(rest, '=', name.len() as int);
    assert(rest.take(name.len() as int) =~= name);
    let after = rest.skip(name.len() as int + 1);
    if quoted {
        assert(after =~= "\""@ + value + "\""@);
        assert(after[0] == '"');
        assert(after.last() == '"');
        lemma_trim_noop(after);
        assert(after.subrange(1, after.len() - 1) =~= value);
        assert(shell::unquote(text::trim(after)) == value);
    } else {
        assert(after =~= value);
        if value.len() > 0 {
            lemma_trim_noop(value);
        }
        assert(shell::unquote(text::trim(after)) == value);
    }
}

/// A fish variable line reads back as the variable.
pub proof fn lemma_fish_var_line(name: Seq<char>, value: Seq<char>)
    requires
        !name.contains(' '),
        name != "PATH"@,
        name != "path"@,
        value.len() > 0,
        !value.contains(' '),
        !text::is_ws(value[0]),
        !text::is_ws(value.last()),
        no_markers(shell::env_line(ShellKind::Fish, name, value)),
    ensures
        shell::parse_line(ShellKind::Fish, shell::env_line(ShellKind::Fish, name, value)) == (
            seq![EnvVarModel { name, value, enabled: true }],
            Seq::<PathEntryModel>::empty(),
        ),
        !ends_cr(shell::env_line(ShellKind::Fish, name, value)),
{
    reveal_strlit("set -gx ");
    reveal_strlit(" ");
    let l = shell::env_line(ShellKind::Fish, name, value);
    let rest = name + " "@ + value;
    assert(l =~= "set -gx "@ + rest);
    assert(l[0] == 's');
    assert(l.last() == value.last());
    lemma_trim_noop(l);
    lemma_starts_with_concat("set -gx "@, rest);
    assert(rest[name.len() as int] == ' ');
    assert forall|j: int| 0 <= j < name.len() implies rest[j] != ' ' by {
        assert(rest[j] == name[j]);
    }
    lemma_find_char_at(rest, ' ', name.len() as int);
    assert(rest.take(name.len() as int) =~= name);
    assert(rest.skip(name.len() as int + 1) =~= value);
    lemma_trim_noop(value);
}

/// A `fish_add_path` line reads back as the entry.
pub proof fn lemma_fish_path_line(p: Seq<char>)
    requires
        p.len() > 0,
        !text::is_ws(p[0]),
        !text::is_ws(p.last()),
        no_markers("fish_add_path "@ + p),
    ensures
        shell::parse_line(ShellKind::Fish, "fish_add_path "@ + p) == (
            Seq::<EnvVarModel>::empty(),
            seq![shell::path_entry_of(p)],
        ),
        !ends_cr("fish_add_path "@ + p),
{
    reveal_strlit("fish_add_path ");
    reveal_strlit("set -gx ");
    let l = "fish_add_path "@ + p;
    assert(l[0] == 'f');
    assert(l.last() == p.last());
    lemma_trim_noop(l);
    assert(!text::starts_with(l, "set -gx "@)) by {
        if text::starts_with(l, "set -gx "@) {
            assert(l.take(8)[0] == 's');
        }
    }
    lemma_starts_with_concat("fish_add_path "@, p);
    lemma_trim_noop(p);
}

/// The entries of non-empty pieces are the entries of all of them.
proof fn lemma_nonempty_entries_all(ps: Seq<Seq<char>>)
    requires
        forall|i: int| 0 <= i < ps.len() ==> (#[trigger] ps[i]).len() > 0,
    ensures
        shell::nonempty_entries(ps) == shell::word_entries(ps),
    decreases ps.len(),
{
    if ps.len() > 0 {
        assert forall|i: int| 0 <= i < ps.drop_last().len() implies (#[trigger] ps.drop_last()[i]).len() > 0 by {
            assert(ps.drop_last()[i] == ps[i]);
        }
        lemma_nonempty_entries_all(ps.drop_last());
    }
}

/// The bash or zsh PATH line reads back as the entries of its paths.
pub proof fn lemma_posix_path_line(shell: ShellKind, en: Seq<Seq<char>>)
    requires
        shell != ShellKind::Fish,
        en.len() > 0,
        forall|i: int| 0 <= i < en.len() ==> (#[trigger] en[i]).len() > 0 && !en[i].contains(':'),
        no_markers("export PATH=\""@ + text::join(en, ":"@) + "\""@),
    ensures
        shell::parse_line(shell, "export PATH=\""@ + text::join(en, ":"@) + "\""@) == (
            Seq::<EnvVarModel>::empty(),
            shell::word_entries(en),
        ),
        !ends_cr("export PATH=\""@ + text::join(en, ":"@) + "\""@),
{
    reveal_strlit("export PATH=\"");
    reveal_strlit("export ");
    reveal_strlit("PATH");
    reveal_strlit("\"");
    reveal_strlit(":");
    let j = text::join(en, ":"@);
    let l = "export PATH=\""@ + j + "\""@;
    let rest = "PATH=\""@ + j + "\""@;
    assert("export PATH=\""@ =~= "export "@ + "PATH=\""@) by {
        reveal_strlit("PATH=\"");
    }
    reveal_strlit("PATH=\"");
    assert(l =~= "export "@ + rest);
    assert(l[0] == 'e');
    assert(l.last() == '"');
    lemma_trim_noop(l);
    lemma_starts_with_concat("export "@, rest);
    assert(rest[4] == '=');
    lemma_find_char_at(rest, '=', 4);
    assert(rest.take(4) =~= "PATH"@);
    let after = rest.skip(5);
    assert(after =~= "\""@ + j + "\""@);
    assert(after[0] == '"');
    assert(after.last() == '"');
    lemma_trim_noop(after);
    assert(after.subrange(1, after.len() - 1) =~= j);
    assert(":"@ =~= seq![':']);
    assert forall|i: int| 0 <= i < en.len() implies !(#[trigger] en[i]).contains(':') by {}
    lemma_split_of_join(en, ':');
    lemma_nonempty_entries_all(en);
}

// ─── Reading back the whole section ──────────────────────────────────────────

/// A line of the section that stays one line and holds no marker.
pub open spec fn line_ok(l: Seq<char>) -> bool {
    no_newline(l) && no_markers(l)
}

/// A variable whose line, as written for `shell`, parses back to it: for bash
/// and zsh a name without `=` other than `PATH`, and a value that is quoted or
/// plain; for fish a name without spaces other than `PATH` and `path`, and a
/// non-empty value without spaces or surrounding whitespace.
pub open spec fn var_parses_back(shell: ShellKind, v: EnvVarModel) -> bool {
    if shell == ShellKind::Fish {
        &&& !v.name.contains(' ')
        &&& v.name != "PATH"@
        &&& v.name != "path"@
        &&& v.value.len() > 0
        &&& !v.value.contains(' ')
        &&& !text::is_ws(v.value[0])
        &&& !text::is_ws(v.value.last())
    } else {
        &&& !v.name.contains('=')
        &&& v.name != "PATH"@
        &&& (v.value.contains(' ') || v.value.contains('$') || plain_value(v.value))
    }
}

/// A PATH directory that parses back from the section written for `shell`:
/// non-empty, and for bash and zsh without `:`, for fish without surrounding
/// whitespace.
pub open spec fn path_parses_back(shell: ShellKind, p: Seq<char>) -> bool {
    if shell == ShellKind::Fish {
        p.len() > 0 && !text::is_ws(p[0]) && !text::is_ws(p.last())
    } else {
        p.len() > 0 && !p.contains(':')
    }
}

/// The enabled variables, in order.
pub open spec fn enabled_vars(vars: Seq<EnvVarModel>) -> Seq<EnvVarModel>
    decreases vars.len(),
{
    if vars.len() == 0 {
        Seq::empty()
    } else {
        enabled_vars(vars.drop_last()) + (if vars.last().enabled {
            seq![vars.last()]
        } else {
            Seq::empty()
        })
    }
}

/// Parsing lines that each set nothing sets nothing.
proof fn lemma_parse_between(shell: ShellKind, a: Seq<char>, mid: Seq<Seq<char>>, c: Seq<char>)
    requires
        shell::parse_line(shell, a) == shell::nothing(),
        shell::parse_line(shell, c) == shell::nothing(),
    ensures
        shell::parse_lines(shell, seq![a] + mid + seq![c]) == shell::parse_lines(shell, mid),
{
    lemma_parse_lines_add(shell, seq![a] + mid, seq![c]);
    lemma_parse_lines_add(shell, seq![a], mid);
    lemma_parse_lines_single(shell, a);
    lemma_parse_lines_single(shell, c);
    let m = shell::parse_lines(shell, mid);
    assert(Seq::<EnvVarModel>::empty() + m.0 + Seq::<EnvVarModel>::empty() =~= m.0);
    assert(Seq::<PathEntryModel>::empty() + m.1 + Seq::<PathEntryModel>::empty() =~= m.1);
}

/// The variable lines read back as the enabled variables.
proof fn lemma_var_lines_read_back(shell: ShellKind, vars: Seq<EnvVarModel>)
    requires
        forall|j: int|
            0 <= j < shell::var_lines(shell, vars).len() ==> line_ok(
                #[trigger] shell::var_lines(shell, vars)[j],
            ),
        forall|i: int| 0 <= i < vars.len() && (#[trigger] vars[i]).enabled ==> var_parses_back(shell, vars[i]),
    ensures
        shell::parse_lines(shell, shell::var_lines(shell, vars)) == (
            enabled_vars(vars),
            Seq::<PathEntryModel>::empty(),
        ),
        forall|j: int|
            0 <= j < shell::var_lines(shell, vars).len() ==> !ends_cr(
                #[trigger] shell::var_lines(shell, vars)[j],
            ),
    decreases vars.len(),
{
    if vars.len() > 0 {
        let prev = vars.drop_last();
        let pl = shell::var_lines(shell, prev);
        let all = shell::var_lines(shell, vars);
        let v = vars.last();
        let tail = if v.enabled {
            seq![shell::env_line(shell, v.name, v.value)]
        } else {
            Seq::<Seq<char>>::empty()
        };
        assert(all == pl + tail);
        assert forall|j: int| 0 <= j < pl.len() implies line_ok(#[trigger] pl[j]) by {
            assert(all[j] == pl[j]);
        }
        assert forall|i: int| 0 <= i < prev.len() && (#[trigger] prev[i]).enabled implies var_parses_back(
            shell,
            prev[i],
        ) by {
            assert(prev[i] == vars[i]);
        }
        lemma_var_lines_read_back(shell, prev);
        lemma_parse_lines_add(shell, pl, tail);
        if v.enabled {
            assert(vars[vars.len() - 1] == v);
            assert(all[pl.len() as int] == shell::env_line(shell, v.name, v.value));
            let l = shell::env_line(shell, v.name, v.value);
            assert(line_ok(l));
            lemma_parse_lines_single(shell, l);
            if shell == ShellKind::Fish {
                lemma_fish_var_line(v.name, v.value);
            } else {
                lemma_posix_var_line(shell, v.name, v.value);
            }
            assert(EnvVarModel { name: v.name, value: v.value, enabled: true } == v);
            assert forall|j: int| 0 <= j < all.len() implies !ends_cr(#[trigger] all[j]) by {
                if j < pl.len() {
                    assert(all[j] == pl[j]);
                }
            }
            assert(Seq::<PathEntryModel>::empty() + Seq::<PathEntryModel>::empty() =~= Seq::<
                PathEntryModel,
            >::empty());
        } else {
            assert(all =~= pl);
            assert(enabled_vars(prev) + Seq::<EnvVarModel>::empty() =~= enabled_vars(prev));
            assert(Seq::<PathEntryModel>::empty() + Seq::<PathEntryModel>::empty() =~= Seq::<
                PathEntryModel,
            >::empty());
            assert(tail =~= Seq::<Seq<char>>::empty());
            assert(shell::parse_lines(shell, tail) == shell::nothing());
        }
    }
}

/// The enabled paths parse back when those of the enabled entries do.
proof fn lemma_enabled_paths_parse(shell: ShellKind, ps: Seq<PathEntryModel>)
    requires
        forall|i: int|
            0 <= i < ps.len() && (#[trigger] ps[i]).enabled ==> path_parses_back(shell, ps[i].path),
    ensures
        forall|i: int|
            0 <= i < shell::enabled_paths(ps).len() ==> path_parses_back(
                shell,
                #[trigger] shell::enabled_paths(ps)[i],
            ),
    decreases ps.len(),
{
    if ps.len() > 0 {
        let prev = ps.drop_last();
        assert forall|i: int| 0 <= i < prev.len() && (#[trigger] prev[i]).enabled implies path_parses_back(
            shell,
            prev[i].path,
        ) by {
            assert(prev[i] == ps[i]);
        }
        lemma_enabled_paths_parse(shell, prev);
        let en = shell::enabled_paths(ps);
        let pe = shell::enabled_paths(prev);
        assert(ps[ps.len() - 1] == ps.last());
        assert forall|i: int| 0 <= i < en.len() implies path_parses_back(shell, #[trigger] en[i]) by {
            if ps.last().enabled {
                assert(en == pe + seq![ps.last().path]);
            } else {
                assert(en == pe + Seq::<Seq<char>>::empty());
            }
            if i < pe.len() {
                assert(en[i] == pe[i]);
            }
        }
    }
}

/// The `fish_add_path` lines read back as the entries of their paths.
proof fn lemma_fish_path_lines_read_back(en: Seq<Seq<char>>)
    requires
        forall|j: int|
            0 <= j < shell::fish_path_lines(en).len() ==> line_ok(
                #[trigger] shell::fish_path_lines(en)[j],
            ),
        forall|i: int| 0 <= i < en.len() ==> path_parses_back(ShellKind::Fish, #[trigger] en[i]),
    ensures
        shell::parse_lines(ShellKind::Fish, shell::fish_path_lines(en)) == (
            Seq::<EnvVarModel>::empty(),
            shell::word_entries(en),
        ),
        forall|j: int|
            0 <= j < shell::fish_path_lines(en).len() ==> !ends_cr(
                #[trigger] shell::fish_path_lines(en)[j],
            ),
    decreases en.len(),
{
    if en.len() > 0 {
        let prev = en.drop_last();
        let pl = shell::fish_path_lines(prev);
        let all = shell::fish_path_lines(en);
        let l = "fish_add_path "@ + en.last();
        assert(all == pl + seq![l]);
        assert forall|j: int| 0 <= j < pl.len() implies line_ok(#[trigger] pl[j]) by {
            assert(all[j] == pl[j]);
        }
        assert forall|i: int| 0 <= i < prev.len() implies path_parses_back(ShellKind::Fish, #[trigger] prev[i]) by {
            assert(prev[i] == en[i]);
        }
        lemma_fish_path_lines_read_back(prev);
        lemma_parse_lines_add(ShellKind::Fish, pl, seq![l]);
        lemma_parse_lines_single(ShellKind::Fish, l);
        assert(all[pl.len() as int] == l);
        assert(en[en.len() - 1] == en.last());
        lemma_fish_path_line(en.last());
        assert forall|j: int| 0 <= j < all.len() implies !ends_cr(#[trigger] all[j]) by {
            if j < pl.len() {
                assert(all[j] == pl[j]);
            }
        }
        assert(Seq::<EnvVarModel>::empty() + Seq::<EnvVarModel>::empty() =~= Seq::<EnvVarModel>::empty());
    }
}

/// The PATH lines read back as the entries of the enabled paths.
proof fn lemma_path_lines_read_back(shell: ShellKind, paths: Seq<PathEntryModel>)
    requires
        forall|j: int|
            0 <= j < shell::path_lines(shell, paths).len() ==> line_ok(
                #[trigger] shell::path_lines(shell, paths)[j],
            ),
        forall|i: int|
            0 <= i < paths.len() && (#[trigger] paths[i]).enabled ==> path_parses_back(
                shell,
                paths[i].path,
            ),
    ensures
        shell::parse_lines(shell, shell::path_lines(shell, paths)) == (
            Seq::<EnvVarModel>::empty(),
            shell::word_entries(shell::enabled_paths(paths)),
        ),
        forall|j: int|
            0 <= j < shell::path_lines(shell, paths).len() ==> !ends_cr(
                #[trigger] shell::path_lines(shell, paths)[j],
            ),
{
    let en = shell::enabled_paths(paths);
    lemma_enabled_paths_parse(shell, paths);
    if shell == ShellKind::Fish {
        lemma_fish_path_lines_read_back(en);
    } else if en.len() == 0 {
        assert(shell::word_entries(en) =~= Seq::<PathEntryModel>::empty());
    } else {
        let l = "export PATH=\""@ + text::join(en, ":"@) + "\""@;
        assert(shell::path_lines(shell, paths) == seq![l]);
        assert(shell::path_lines(shell, paths)[0] == l);
        assert forall|i: int| 0 <= i < en.len() implies (#[trigger] en[i]).len() > 0 && !en[i].contains(':') by {}
        lemma_posix_path_line(shell, en);
        lemma_parse_lines_single(shell, l);
    }
}

/// Law: loading the managed section that saving writes gives back the enabled
/// variables and the entries of the enabled PATH directories, in order, with the
/// labels guessed from the paths. It holds when every line of the section is a
/// single line, no line but the first and the last holds a marker, and each
/// enabled variable and directory is one that the shell's syntax reads back.
pub proof fn lemma_managed_section_reads_back(
    shell: ShellKind,
    vars: Seq<EnvVarModel>,
    paths: Seq<PathEntryModel>,
)
    requires
        forall|i: int|
            0 <= i < shell::managed_lines(shell, vars, paths).len() ==> no_newline(
                #[trigger] shell::managed_lines(shell, vars, paths)[i],
            ),
        forall|i: int|
            0 < i < shell::managed_lines(shell, vars, paths).len() - 1 ==> no_markers(
                #[trigger] shell::managed_lines(shell, vars, paths)[i],
            ),
        forall|i: int| 0 <= i < vars.len() && (#[trigger] vars[i]).enabled ==> var_parses_back(shell, vars[i]),
        forall|i: int|
            0 <= i < paths.len() && (#[trigger] paths[i]).enabled ==> path_parses_back(
                shell,
                paths[i].path,
            ),
    ensures
        shell::parse_config(shell, shell::managed_section(shell, vars, paths)) == (
            enabled_vars(vars),
            shell::word_entries(shell::enabled_paths(paths)),
        ),
{
    let ml = shell::managed_lines(shell, vars, paths);
    let begin = shell::managed_begin();
    let end = shell::managed_end();
    let warn = "# DO NOT EDIT MANUALLY - Changes will be overwritten"@;
    let pc = "# PATH entries (managed by Podman TUI)"@;
    let vc = "# Environment variables (managed by Podman TUI)"@;
    reveal_strlit("# === Podman TUI Managed ===");
    reveal_strlit("# === End Podman TUI Managed ===");
    reveal_strlit("# DO NOT EDIT MANUALLY - Changes will be overwritten");
    reveal_strlit("# PATH entries (managed by Podman TUI)");
    reveal_strlit("# Environment variables (managed by Podman TUI)");
    let pl = shell::path_lines(shell, paths);
    let vl = shell::var_lines(shell, vars);
    let h = seq![begin, warn, ""@];
    let pp = if paths.len() == 0 {
        Seq::<Seq<char>>::empty()
    } else {
        seq![pc] + pl + seq![""@]
    };
    let vp = if vars.len() == 0 {
        Seq::<Seq<char>>::empty()
    } else {
        seq![vc] + vl + seq![""@]
    };
    let e = seq![end];
    assert(ml == h + pp + vp + e);
    let hp = h + pp;
    let hpv = h + pp + vp;
    assert forall|j: int| 0 <= j < pp.len() implies line_ok(#[trigger] pp[j]) by {
        assert(ml[3 + j] == pp[j]);
    }
    assert forall|j: int| 0 <= j < vp.len() implies line_ok(#[trigger] vp[j]) by {
        assert(ml[3 + pp.len() + j] == vp[j]);
    }
    assert forall|j: int| 0 <= j < pl.len() implies line_ok(#[trigger] pl[j]) by {
        assert(pp[1 + j] == pl[j]);
    }
    assert forall|j: int| 0 <= j < vl.len() implies line_ok(#[trigger] vl[j]) by {
        assert(vp[1 + j] == vl[j]);
    }
    lemma_path_lines_read_back(shell, paths);
    lemma_var_lines_read_back(shell, vars);
    lemma_comment_line(shell, begin);
    lemma_comment_line(shell, end);
    lemma_comment_line(shell, warn);
    lemma_comment_line(shell, pc);
    lemma_comment_line(shell, vc);
    lemma_blank_line(shell);
    // Which lines end with a carriage return: none.
    assert forall|i: int| 0 <= i < ml.len() - 1 implies !ends_cr(#[trigger] ml[i]) by {
        if i < 3 {
            assert(ml[i] == h[i]);
        } else if i < 3 + pp.len() {
            assert(ml[i] == pp[i - 3]);
            if i > 3 && i < 3 + pp.len() - 1 {
                assert(pp[i - 3] == pl[i - 4]);
            }
        } else {
            assert(ml[i] == vp[i - 3 - pp.len()]);
            if i > 3 + pp.len() && i < 3 + pp.len() + vp.len() - 1 {
                assert(vp[i - 3 - pp.len()] == vl[i - 4 - pp.len()]);
            }
        }
    }
    lemma_lines_of_join(ml);
    // What the lines set, part by part.
    lemma_parse_lines_add(shell, hpv, e);
    lemma_parse_lines_add(shell, hp, vp);
    lemma_parse_lines_add(shell, h, pp);
    lemma_parse_lines_single(shell, end);
    lemma_parse_lines_single(shell, warn);
    assert(h == seq![begin] + seq![warn] + seq![""@]);
    lemma_parse_between(shell, begin, seq![warn], ""@);
    let ph = shell::parse_lines(shell, h);
    assert(ph == shell::nothing());
    let ppp = shell::parse_lines(shell, pp);
    let pvp = shell::parse_lines(shell, vp);
    if paths.len() == 0 {
        assert(shell::enabled_paths(paths) =~= Seq::<Seq<char>>::empty());
        assert(ppp == shell::nothing());
    } else {
        lemma_parse_between(shell, pc, pl, ""@);
    }
    if vars.len() == 0 {
        assert(enabled_vars(vars) =~= Seq::<EnvVarModel>::empty());
        assert(pvp == shell::nothing());
    } else {
        lemma_parse_between(shell, vc, vl, ""@);
    }
    assert(ppp.0 =~= Seq::<EnvVarModel>::empty());
    assert(pvp.1 =~= Seq::<PathEntryModel>::empty());
    assert(ph.0 + ppp.0 + pvp.0 + Seq::<EnvVarModel>::empty() =~= pvp.0);
    assert(ph.1 + ppp.1 + pvp.1 + Seq::<PathEntryModel>::empty() =~= ppp.1);
}

/// The lines of text that does not end with a newline or a carriage return
/// are its pieces between newlines, each without a carriage return at its end.
proof fn lemma_lines_as_pieces(a: Seq<char>, cur: Seq<char>)
    requires
        (cur + a).len() > 0,
        (cur + a).last() != '\n',
        (cur + a).last() != '\r',
    ensures
        text::lines_from(a, cur) == resave::strip_crs(text::split_from(a, '\n', cur)),
    decreases a.len(),
{
    let e = Seq::<char>::empty();
    if a.len() == 0 {
        assert(cur + a =~= cur);
        assert(resave::strip_crs(seq![cur]) =~= seq![text::strip_cr(cur)]);
    } else if a[0] == '\n' {
        let a1 = a.drop_first();
        assert(a1.len() > 0) by {
            if a1.len() == 0 {
                assert((cur + a).last() == a[0]);
            }
        }
        assert((e + a1).last() == (cur + a).last());
        assert(e + a1 =~= a1);
        lemma_lines_as_pieces(a1, e);
        let rest = text::split_from(a1, '\n', e);
        assert(resave::strip_crs(seq![cur] + rest) =~= seq![text::strip_cr(cur)] + resave::strip_crs(rest));
    } else {
        assert(cur.push(a[0]) + a.drop_first() =~= cur + a);
        lemma_lines_as_pieces(a.drop_first(), cur.push(a[0]));
    }
}

/// Law: loading a configuration after saving it gives what the text kept outside
/// the managed section sets, followed by the enabled variables and the entries
/// of the enabled PATH directories that were saved, in order. It holds under the
/// conditions of the law on the managed section alone.
pub proof fn lemma_saved_config_reads_back(
    existing: Seq<char>,
    shell: ShellKind,
    vars: Seq<EnvVarModel>,
    paths: Seq<PathEntryModel>,
)
    requires
        forall|i: int|
            0 <= i < shell::managed_lines(shell, vars, paths).len() ==> no_newline(
                #[trigger] shell::managed_lines(shell, vars, paths)[i],
            ),
        forall|i: int|
            0 < i < shell::managed_lines(shell, vars, paths).len() - 1 ==> no_markers(
                #[trigger] shell::managed_lines(shell, vars, paths)[i],
            ),
        forall|i: int| 0 <= i < vars.len() && (#[trigger] vars[i]).enabled ==> var_parses_back(shell, vars[i]),
        forall|i: int|
            0 <= i < paths.len() && (#[trigger] paths[i]).enabled ==> path_parses_back(
                shell,
                paths[i].path,
            ),
    ensures
        shell::parse_config(shell, shell::saved_config(existing, shell, vars, paths)) == (
            shell::parse_config(shell, text::trim_end(shell::without_managed(existing))).0
                + enabled_vars(vars),
            shell::parse_config(shell, text::trim_end(shell::without_managed(existing))).1
                + shell::word_entries(shell::enabled_paths(paths)),
        ),
{
    reveal_strlit("\n\n");
    let e = Seq::<char>::empty();
    let sec = shell::managed_section(shell, vars, paths);
    lemma_managed_section_reads_back(shell, vars, paths);
    let ps = shell::parse_config(shell, sec);
    let kept = shell::without_managed(existing);
    let t = text::trim_end(kept);
    let pt = shell::parse_config(shell, t);
    if kept.len() == 0 {
        assert(t == kept);
        assert(text::lines(e) == Seq::<Seq<char>>::empty());
        assert(pt == shell::nothing());
        assert(Seq::<EnvVarModel>::empty() + ps.0 =~= ps.0);
        assert(Seq::<PathEntryModel>::empty() + ps.1 =~= ps.1);
    } else {
        let s1 = t + "\n\n"@ + sec;
        let rest = seq!['\n'] + sec;
        assert(s1 =~= t + seq!['\n'] + rest);
        resave::lemma_lines_before_newline(t, rest, e);
        assert(rest[0] == '\n');
        assert(rest.drop_first() =~= sec);
        assert(text::lines_from(rest, e) == seq![text::strip_cr(e)] + text::lines(sec));
        assert(text::strip_cr(e) == e);
        let lt = resave::strip_crs(text::split_char(t, '\n'));
        assert(text::lines(s1) == lt + seq![e] + text::lines(sec));
        // What the kept text sets.
        resave::lemma_trim_end_last(kept);
        if t.len() == 0 {
            assert(text::split_char(t, '\n') == seq![e]);
            assert(lt =~= seq![e]);
            lemma_parse_lines_single(shell, e);
            lemma_blank_line(shell);
            assert(text::lines(t) == Seq::<Seq<char>>::empty());
        } else {
            assert(e + t =~= t);
            lemma_lines_as_pieces(t, e);
        }
        assert(shell::parse_lines(shell, lt) == pt);
        lemma_parse_lines_add(shell, lt + seq![e], text::lines(sec));
        lemma_parse_lines_add(shell, lt, seq![e]);
        lemma_parse_lines_single(shell, e);
        lemma_blank_line(shell);
        assert(pt.0 + Seq::<EnvVarModel>::empty() + ps.0 =~= pt.0 + ps.0);
        assert(pt.1 + Seq::<PathEntryModel>::empty() + ps.1 =~= pt.1 + ps.1);
    }
}

// ─── Laws of parsing ─────────────────────────────────────────────────────────

/// Parsing a line first, then more lines.
proof fn lemma_parse_lines_cons(shell: ShellKind, x: Seq<char>, r: Seq<Seq<char>>)
    ensures
        shell::parse_lines(shell, seq![x] + r) == (
            shell::parse_line(shell, x).0 + shell::parse_lines(shell, r).0,
            shell::parse_line(shell, x).1 + shell::parse_lines(shell, r).1,
        ),
{
    lemma_parse_lines_add(shell, seq![x], r);
    lemma_parse_lines_single(shell, x);
}

/// A carriage return at the end of a line changes nothing it sets.
proof fn lemma_parse_line_strip_cr(shell: ShellKind, l: Seq<char>)
    ensures
        shell::parse_line(shell, text::strip_cr(l)) == shell::parse_line(shell, l),
{
    if l.len() > 0 && l.last() == '\r' {
        resave::lemma_trim_drop_ws(l);
    }
}

/// The pieces of a text between newlines, carriage returns at their ends left
/// out, set what the text's lines set.
proof fn lemma_parse_pieces(shell: ShellKind, a: Seq<char>, cur: Seq<char>)
    ensures
        shell::parse_lines(shell, resave::strip_crs(text::split_from(a, '\n', cur)))
            == shell::parse_lines(shell, text::lines_from(a, cur)),
    decreases a.len(),
{
    let e = Seq::<char>::empty();
    if a.len() == 0 {
        assert(resave::strip_crs(seq![cur]) =~= seq![text::strip_cr(cur)]);
        lemma_parse_lines_single(shell, text::strip_cr(cur));
        lemma_parse_line_strip_cr(shell, cur);
        if cur.len() == 0 {
            assert(cur =~= ""@) by {
                reveal_strlit("");
            }
            lemma_blank_line(shell);
            assert(shell::parse_lines(shell, Seq::<Seq<char>>::empty()) == shell::nothing());
        } else {
            lemma_parse_lines_single(shell, cur);
        }
    } else if a[0] == '\n' {
        lemma_parse_pieces(shell, a.drop_first(), e);
        let rest = text::split_from(a.drop_first(), '\n', e);
        assert(resave::strip_crs(seq![cur] + rest) =~= seq![text::strip_cr(cur)] + resave::strip_crs(
            rest,
        ));
        lemma_parse_lines_cons(shell, text::strip_cr(cur), resave::strip_crs(rest));
        lemma_parse_lines_cons(shell, text::strip_cr(cur), text::lines_from(a.drop_first(), e));
    } else {
        lemma_parse_pieces(shell, a.drop_first(), cur.push(a[0]));
    }
}

/// Law: parsing two texts joined by a newline sets what the first sets, then
/// what the second sets.
pub proof fn lemma_parse_joined(shell: ShellKind, a: Seq<char>, b: Seq<char>)
    ensures
        shell::parse_config(shell, a + "\n"@ + b) == (
            shell::parse_config(shell, a).0 + shell::parse_config(shell, b).0,
            shell::parse_config(shell, a).1 + shell::parse_config(shell, b).1,
        ),
{
    reveal_strlit("\n");
    let e = Seq::<char>::empty();
    assert(a + "\n"@ + b =~= a + seq!['\n'] + b);
    resave::lemma_lines_before_newline(a, b, e);
    lemma_parse_pieces(shell, a, e);
    lemma_parse_lines_add(shell, resave::strip_crs(text::split_from(a, '\n', e)), text::lines(b));
}

/// Law: bash and zsh configurations are parsed alike.
pub proof fn lemma_bash_zsh_alike(content: Seq<char>)
    ensures
        shell::parse_config(ShellKind::Zsh, content) == shell::parse_config(ShellKind::Bash, content),
{
    lemma_bash_zsh_lines_alike(text::lines(content));
}

proof fn lemma_bash_zsh_lines_alike(ls: Seq<Seq<char>>)
    ensures
        shell::parse_lines(ShellKind::Zsh, ls) == shell::parse_lines(ShellKind::Bash, ls),
    decreases ls.len(),
{
    if ls.len() > 0 {
        lemma_bash_zsh_lines_alike(ls.drop_last());
    }
}

/// Trimming the end keeps a first character that is not whitespace.
proof fn lemma_trim_end_first(s: Seq<char>)
    requires
        s.len() > 0,
        !text::is_ws(s[0]),
    ensures
        text::trim_end(s).len() > 0,
        text::trim_end(s)[0] == s[0],
    decreases s.len(),
{
    if text::is_ws(s.last()) {
        assert(s.len() > 1);
        assert(s.drop_last()[0] == s[0]);
        lemma_trim_end_first(s.drop_last());
    }
}

/// Law: the line shown for a disabled variable sets nothing when read back,
/// provided it is a single line.
pub proof fn lemma_disabled_var_sets_nothing(shell: ShellKind, v: EnvVarModel)
    requires
        !v.enabled,
        no_newline(shell::env_var_line(shell, v)),
    ensures
        shell::parse_config(shell, shell::env_var_line(shell, v)) == shell::nothing(),
{
    reveal_strlit("# ");
    let l = shell::env_var_line(shell, v);
    let e = Seq::<char>::empty();
    assert(l[0] == '#');
    assert(text::trim_start(l) == l);
    lemma_trim_end_first(l);
    lemma_lines_from_last(l, e);
    assert(e + l =~= l);
    lemma_parse_lines_single(shell, l);
}

/// Every variable is enabled.
pub open spec fn vars_enabled(vs: Seq<EnvVarModel>) -> bool {
    forall|i: int| 0 <= i < vs.len() ==> (#[trigger] vs[i]).enabled
}

/// Every entry is enabled, has a path, and the label guessed from it.
pub open spec fn entries_as_read(ps: Seq<PathEntryModel>) -> bool {
    forall|i: int|
        0 <= i < ps.len() ==> {
            &&& (#[trigger] ps[i]).enabled
            &&& ps[i].path.len() > 0
            &&& ps[i].label == shell::path_label(ps[i].path)
        }
}

proof fn lemma_read_add(a: (Seq<EnvVarModel>, Seq<PathEntryModel>), b: (Seq<EnvVarModel>, Seq<PathEntryModel>))
    requires
        vars_enabled(a.0),
        vars_enabled(b.0),
        entries_as_read(a.1),
        entries_as_read(b.1),
    ensures
        vars_enabled(a.0 + b.0),
        entries_as_read(a.1 + b.1),
{
    assert forall|i: int| 0 <= i < (a.0 + b.0).len() implies (#[trigger] (a.0 + b.0)[i]).enabled by {
        if i >= a.0.len() {
            assert((a.0 + b.0)[i] == b.0[i - a.0.len()]);
        }
    }
    assert forall|i: int| 0 <= i < (a.1 + b.1).len() implies {
        &&& (#[trigger] (a.1 + b.1)[i]).enabled
        &&& (a.1 + b.1)[i].path.len() > 0
        &&& (a.1 + b.1)[i].label == shell::path_label((a.1 + b.1)[i].path)
    } by {
        if i >= a.1.len() {
            assert((a.1 + b.1)[i] == b.1[i - a.1.len()]);
        }
    }
}

/// Words are not empty.
proof fn lemma_words_nonempty(s: Seq<char>, cur: Seq<char>)
    ensures
        forall|i: int| 0 <= i < text::words_from(s, cur).len() ==> (#[trigger] text::words_from(s, cur)[i]).len() > 0,
    decreases s.len(),
{
    if s.len() > 0 {
        if text::is_ws(s[0]) {
            lemma_words_nonempty(s.drop_first(), Seq::empty());
            let w = (if cur.len() == 0 {
                Seq::<Seq<char>>::empty()
            } else {
                seq![cur]
            });
            let r = text::words_from(s.drop_first(), Seq::empty());
            assert(text::words_from(s, cur) == w + r);
            assert forall|i: int| 0 <= i < (w + r).len() implies (#[trigger] (w + r)[i]).len() > 0 by {
                if i >= w.len() {
                    assert((w + r)[i] == r[i - w.len()]);
                }
            }
        } else {
            lemma_words_nonempty(s.drop_first(), cur.push(s[0]));
            assert(text::words_from(s, cur) == text::words_from(s.drop_first(), cur.push(s[0])));
        }
    }
}

proof fn lemma_word_entries_read(ps: Seq<Seq<char>>)
    requires
        forall|i: int| 0 <= i < ps.len() ==> (#[trigger] ps[i]).len() > 0,
    ensures
        entries_as_read(shell::word_entries(ps)),
    decreases ps.len(),
{
    if ps.len() > 0 {
        assert forall|i: int| 0 <= i < ps.drop_last().len() implies (#[trigger] ps.drop_last()[i]).len() > 0 by {
            assert(ps.drop_last()[i] == ps[i]);
        }
        lemma_word_entries_read(ps.drop_last());
        assert(ps[ps.len() - 1] == ps.last());
        let one = seq![shell::path_entry_of(ps.last())];
        lemma_read_add((Seq::empty(), shell::word_entries(ps.drop_last())), (Seq::empty(), one));
    }
}

proof fn lemma_nonempty_entries_read(ps: Seq<Seq<char>>)
    ensures
        entries_as_read(shell::nonempty_entries(ps)),
    decreases ps.len(),
{
    if ps.len() > 0 {
        lemma_nonempty_entries_read(ps.drop_last());
        let one = if ps.last().len() > 0 {
            seq![shell::path_entry_of(ps.last())]
        } else {
            Seq::empty()
        };
        lemma_read_add((Seq::empty(), shell::nonempty_entries(ps.drop_last())), (Seq::empty(), one));
    }
}

proof fn lemma_literal_entries_read(ps: Seq<Seq<char>>)
    ensures
        entries_as_read(shell::literal_entries(ps)),
    decreases ps.len(),
{
    if ps.len() > 0 {
        lemma_literal_entries_read(ps.drop_last());
        let p = text::trim(ps.last());
        let one = if p.len() > 0 && p[0] != '$' {
            seq![shell::path_entry_of(p)]
        } else {
            Seq::empty()
        };
        lemma_read_add((Seq::empty(), shell::literal_entries(ps.drop_last())), (Seq::empty(), one));
    }
}

/// Leading whitespace taken off leaves the last character when it is not whitespace.
proof fn lemma_trim_start_keeps_last(x: Seq<char>)
    requires
        x.len() > 0,
        !text::is_ws(x.last()),
    ensures
        text::trim_start(x).len() > 0,
        text::trim_start(x).last() == x.last(),
    decreases x.len(),
{
    if text::is_ws(x[0]) {
        assert(x.len() > 1);
        assert(x.drop_first().last() == x.last());
        lemma_trim_start_keeps_last(x.drop_first());
    }
}

/// What one line sets is enabled, with paths and guessed labels.
proof fn lemma_parse_line_read(shell: ShellKind, line: Seq<char>)
    ensures
        vars_enabled(shell::parse_line(shell, line).0),
        entries_as_read(shell::parse_line(shell, line).1),
{
    let t = text::trim(line);
    reveal_strlit("fish_add_path ");
    reveal_strlit("set -gx ");
    resave::lemma_trim_end_last(text::trim_start(line));
    if shell == ShellKind::Fish && text::starts_with(t, "set -gx "@) {
        let rest = t.skip("set -gx "@.len() as int);
        match text::find_char(rest, ' ') {
            Some(i) => {
                lemma_words_nonempty(text::trim(rest.skip(i + 1)), Seq::empty());
                lemma_word_entries_read(text::split_ws(text::trim(rest.skip(i + 1))));
            },
            None => {},
        }
    } else if shell == ShellKind::Fish && text::starts_with(t, "fish_add_path "@) {
        if !(text::contains(t, shell::managed_begin()) || text::contains(t, shell::managed_end())
            || (t.len() > 0 && t[0] == '#') || t.len() == 0) {
            assert(t[13] == ' ') by {
                assert(t.take(14)[13] == ' ');
            }
            assert(t.len() > 14);
            let x = t.skip(14);
            assert(x.last() == t.last());
            lemma_trim_start_keeps_last(x);
            resave::lemma_trim_end_last(text::trim_start(x));
            assert(text::trim(x).len() > 0);
        }
    } else if shell != ShellKind::Fish {
        let rest = t.skip("export "@.len() as int);
        match text::find_char(rest, '=') {
            Some(i) => {
                lemma_nonempty_entries_read(text::split_char(shell::unquote(text::trim(rest.skip(i + 1))), ':'));
            },
            None => {},
        }
        let raw = if text::starts_with(t, "export PATH="@) {
            t.skip("export PATH="@.len() as int)
        } else {
            t.skip("PATH="@.len() as int)
        };
        lemma_literal_entries_read(text::split_char(shell::unquote(raw), ':'));
    }
}

/// Law: every variable a configuration is read as setting is enabled, and every
/// PATH entry is enabled, has a path, and carries the label guessed from it.
pub proof fn lemma_parsed_entries_enabled(shell: ShellKind, content: Seq<char>)
    ensures
        vars_enabled(shell::parse_config(shell, content).0),
        entries_as_read(shell::parse_config(shell, content).1),
{
    lemma_parse_lines_read(shell, text::lines(content));
}

proof fn lemma_parse_lines_read(shell: ShellKind, ls: Seq<Seq<char>>)
    ensures
        vars_enabled(shell::parse_lines(shell, ls).0),
        entries_as_read(shell::parse_lines(shell, ls).1),
    decreases ls.len(),
{
    if ls.len() > 0 {
        lemma_parse_lines_read(shell, ls.drop_last());
        lemma_parse_line_read(shell, ls.last());
        lemma_read_add(shell::parse_lines(shell, ls.drop_last()), shell::parse_line(shell, ls.last()));
    }
}

// ─── The read-back law on plain names, values and paths ──────────────────────

/// A text without line breaks and without `#`.
pub open spec fn plain_text(s: Seq<char>) -> bool {
    !s.contains('\n') && !s.contains('#')
}

/// The enabled variables' names and values, and the enabled entries' paths,
/// are plain texts.
pub open spec fn plain_entries(vars: Seq<EnvVarModel>, paths: Seq<PathEntryModel>) -> bool {
    &&& forall|i: int|
        0 <= i < vars.len() && (#[trigger] vars[i]).enabled ==> plain_text(vars[i].name)
            && plain_text(vars[i].value)
    &&& forall|i: int|
        0 <= i < paths.len() && (#[trigger] paths[i]).enabled ==> plain_text(paths[i].path)
}

/// Two texts without a character joined hold none either.
proof fn lemma_concat_no_char(a: Seq<char>, b: Seq<char>, c: char)
    requires
        !a.contains(c),
        !b.contains(c),
    ensures
        !(a + b).contains(c),
{
    if (a + b).contains(c) {
        let k = choose|k: int| 0 <= k < (a + b).len() && (a + b)[k] == c;
        if k < a.len() {
            assert(a[k] == c);
        } else {
            assert(b[k - a.len()] == c);
        }
    }
}

proof fn lemma_concat_plain(a: Seq<char>, b: Seq<char>)
    requires
        plain_text(a),
        plain_text(b),
    ensures
        plain_text(a + b),
{
    lemma_concat_no_char(a, b, '\n');
    lemma_concat_no_char(a, b, '#');
}

/// A text without `#` holds no marker.
proof fn lemma_no_hash_no_marker(l: Seq<char>)
    requires
        !l.contains('#'),
    ensures
        no_markers(l),
{
    reveal_strlit("# === Podman TUI Managed ===");
    reveal_strlit("# === End Podman TUI Managed ===");
    if text::contains(l, shell::managed_begin()) {
        let i = choose|i: int| #[trigger] text::occurs_at(l, shell::managed_begin(), i);
        assert(l.subrange(i, i + shell::managed_begin().len())[0] == l[i]);
    }
    if text::contains(l, shell::managed_end()) {
        let i = choose|i: int| #[trigger] text::occurs_at(l, shell::managed_end(), i);
        assert(l.subrange(i, i + shell::managed_end().len())[0] == l[i]);
    }
}

/// Trimming leaves out no character it did not hold.
proof fn lemma_trim_no_char(l: Seq<char>, c: char)
    requires
        !l.contains(c),
    ensures
        !text::trim(l).contains(c),
{
    lemma_trim_start_no_char(l, c);
    lemma_trim_end_no_char(text::trim_start(l), c);
}

proof fn lemma_trim_start_no_char(l: Seq<char>, c: char)
    requires
        !l.contains(c),
    ensures
        !text::trim_start(l).contains(c),
    decreases l.len(),
{
    if l.len() > 0 && text::is_ws(l[0]) {
        assert(!l.drop_first().contains(c)) by {
            if l.drop_first().contains(c) {
                let k = choose|k: int| 0 <= k < l.drop_first().len() && l.drop_first()[k] == c;
                assert(l[k + 1] == c);
            }
        }
        lemma_trim_start_no_char(l.drop_first(), c);
    }
}

proof fn lemma_trim_end_no_char(l: Seq<char>, c: char)
    requires
        !l.contains(c),
    ensures
        !text::trim_end(l).contains(c),
    decreases l.len(),
{
    if l.len() > 0 && text::is_ws(l.last()) {
        assert(!l.drop_last().contains(c)) by {
            if l.drop_last().contains(c) {
                let k = choose|k: int| 0 <= k < l.drop_last().len() && l.drop_last()[k] == c;
                assert(l[k] == c);
            }
        }
        lemma_trim_end_no_char(l.drop_last(), c);
    }
}

/// A plain line, trimmed or not, holds no marker.
proof fn lemma_plain_line_unmarked(l: Seq<char>)
    requires
        plain_text(l),
    ensures
        no_markers(l),
        no_markers(text::trim(l)),
{
    lemma_no_hash_no_marker(l);
    lemma_trim_no_char(l, '#');
    lemma_no_hash_no_marker(text::trim(l));
}

/// The line that sets a variable with a plain name and value is plain.
proof fn lemma_env_line_plain(shell: ShellKind, name: Seq<char>, value: Seq<char>)
    requires
        plain_text(name),
        plain_text(value),
    ensures
        plain_text(shell::env_line(shell, name, value)),
{
    reveal_strlit("set -gx ");
    reveal_strlit(" \"");
    reveal_strlit("\"");
    reveal_strlit(" ");
    reveal_strlit("export ");
    reveal_strlit("=\"");
    reveal_strlit("=");
    let (p, q) = if shell == ShellKind::Fish {
        if value.contains(' ') {
            ("set -gx "@, " \""@)
        } else {
            ("set -gx "@, " "@)
        }
    } else if value.contains(' ') || value.contains('$') {
        ("export "@, "=\""@)
    } else {
        ("export "@, "="@)
    };
    let r = if (shell == ShellKind::Fish && value.contains(' ')) || (shell != ShellKind::Fish && (
    value.contains(' ') || value.contains('$'))) {
        "\""@
    } else {
        Seq::<char>::empty()
    };
    assert(plain_text(p));
    assert(plain_text(q));
    assert(plain_text(r));
    lemma_concat_plain(p, name);
    lemma_concat_plain(p + name, q);
    lemma_concat_plain(p + name + q, value);
    lemma_concat_plain(p + name + q + value, r);
    assert(shell::env_line(shell, name, value) =~= p + name + q + value + r);
}

/// The lines setting the enabled variables are plain.
proof fn lemma_var_lines_plain(shell: ShellKind, vars: Seq<EnvVarModel>)
    requires
        forall|i: int|
            0 <= i < vars.len() && (#[trigger] vars[i]).enabled ==> plain_text(vars[i].name)
                && plain_text(vars[i].value),
    ensures
        forall|j: int|
            0 <= j < shell::var_lines(shell, vars).len() ==> plain_text(
                #[trigger] shell::var_lines(shell, vars)[j],
            ),
    decreases vars.len(),
{
    if vars.len() > 0 {
        let prev = vars.drop_last();
        assert forall|i: int| 0 <= i < prev.len() && (#[trigger] prev[i]).enabled implies plain_text(
            prev[i].name,
        ) && plain_text(prev[i].value) by {
            assert(prev[i] == vars[i]);
        }
        lemma_var_lines_plain(shell, prev);
        let v = vars.last();
        assert(vars[vars.len() - 1] == v);
        let pl = shell::var_lines(shell, prev);
        let all = shell::var_lines(shell, vars);
        if v.enabled {
            lemma_env_line_plain(shell, v.name, v.value);
            assert(all == pl + seq![shell::env_line(shell, v.name, v.value)]);
        } else {
            assert(all =~= pl);
        }
        assert forall|j: int| 0 <= j < all.len() implies plain_text(#[trigger] all[j]) by {
            if j < pl.len() {
                assert(all[j] == pl[j]);
            }
        }
    }
}

/// The enabled paths are plain when those of the enabled entries are.
proof fn lemma_enabled_paths_plain(ps: Seq<PathEntryModel>)
    requires
        forall|i: int| 0 <= i < ps.len() && (#[trigger] ps[i]).enabled ==> plain_text(ps[i].path),
    ensures
        forall|i: int|
            0 <= i < shell::enabled_paths(ps).len() ==> plain_text(#[trigger] shell::enabled_paths(ps)[i]),
    decreases ps.len(),
{
    if ps.len() > 0 {
        let prev = ps.drop_last();
        assert forall|i: int| 0 <= i < prev.len() && (#[trigger] prev[i]).enabled implies plain_text(
            prev[i].path,
        ) by {
            assert(prev[i] == ps[i]);
        }
        lemma_enabled_paths_plain(prev);
        let en = shell::enabled_paths(ps);
        let pe = shell::enabled_paths(prev);
        assert(ps[ps.len() - 1] == ps.last());
        assert forall|i: int| 0 <= i < en.len() implies plain_text(#[trigger] en[i]) by {
            if ps.last().enabled {
                assert(en == pe + seq![ps.last().path]);
            } else {
                assert(en == pe + Seq::<Seq<char>>::empty());
            }
            if i < pe.len() {
                assert(en[i] == pe[i]);
            }
        }
    }
}

/// Plain pieces joined with a plain separator make a plain text.
proof fn lemma_join_plain(ps: Seq<Seq<char>>, sep: Seq<char>)
    requires
        plain_text(sep),
        forall|i: int| 0 <= i < ps.len() ==> plain_text(#[trigger] ps[i]),
    ensures
        plain_text(text::join(ps, sep)),
    decreases ps.len(),
{
    if ps.len() > 1 {
        assert forall|i: int| 0 <= i < ps.drop_last().len() implies plain_text(#[trigger] ps.drop_last()[i]) by {
            assert(ps.drop_last()[i] == ps[i]);
        }
        lemma_join_plain(ps.drop_last(), sep);
        assert(plain_text(ps[ps.len() - 1]));
        lemma_concat_plain(text::join(ps.drop_last(), sep), sep);
        lemma_concat_plain(text::join(ps.drop_last(), sep) + sep, ps.last());
    } else if ps.len() == 1 {
        assert(plain_text(ps[0]));
    } else {
        assert(text::join(ps, sep) =~= Seq::<char>::empty());
    }
}

/// The `fish_add_path` lines of plain paths are plain.
proof fn lemma_fish_path_lines_plain(en: Seq<Seq<char>>)
    requires
        forall|i: int| 0 <= i < en.len() ==> plain_text(#[trigger] en[i]),
    ensures
        forall|j: int|
            0 <= j < shell::fish_path_lines(en).len() ==> plain_text(
                #[trigger] shell::fish_path_lines(en)[j],
            ),
    decreases en.len(),
{
    reveal_strlit("fish_add_path ");
    if en.len() > 0 {
        assert forall|i: int| 0 <= i < en.drop_last().len() implies plain_text(#[trigger] en.drop_last()[i]) by {
            assert(en.drop_last()[i] == en[i]);
        }
        lemma_fish_path_lines_plain(en.drop_last());
        assert(plain_text(en[en.len() - 1]));
        assert(plain_text("fish_add_path "@));
        lemma_concat_plain("fish_add_path "@, en.last());
        let pl = shell::fish_path_lines(en.drop_last());
        let all = shell::fish_path_lines(en);
        assert(all == pl + seq!["fish_add_path "@ + en.last()]);
        assert forall|j: int| 0 <= j < all.len() implies plain_text(#[trigger] all[j]) by {
            if j < pl.len() {
                assert(all[j] == pl[j]);
            }
        }
    }
}

/// The PATH lines of entries with plain paths are plain.
proof fn lemma_path_lines_plain(shell: ShellKind, paths: Seq<PathEntryModel>)
    requires
        forall|i: int|
            0 <= i < paths.len() && (#[trigger] paths[i]).enabled ==> plain_text(paths[i].path),
    ensures
        forall|j: int|
            0 <= j < shell::path_lines(shell, paths).len() ==> plain_text(
                #[trigger] shell::path_lines(shell, paths)[j],
            ),
{
    let en = shell::enabled_paths(paths);
    lemma_enabled_paths_plain(paths);
    if shell == ShellKind::Fish {
        lemma_fish_path_lines_plain(en);
    } else if en.len() > 0 {
        reveal_strlit("export PATH=\"");
        reveal_strlit("\"");
        reveal_strlit(":");
        assert(plain_text(":"@));
        lemma_join_plain(en, ":"@);
        assert(plain_text("export PATH=\""@));
        assert(plain_text("\""@));
        lemma_concat_plain("export PATH=\""@, text::join(en, ":"@));
        lemma_concat_plain("export PATH=\""@ + text::join(en, ":"@), "\""@);
        assert(shell::path_lines(shell, paths)[0] == "export PATH=\""@ + text::join(en, ":"@) + "\""@);
    }
}

/// A fixed line of the section holds no marker, trimmed or not, and no newline.
proof fn lemma_fixed_line(l: Seq<char>)
    requires
        l.len() > 2,
        l[0] == '#',
        l[1] == ' ',
        l[2] != '=',
        !text::is_ws(l.last()),
        !l.contains('\n'),
        !l.skip(1).contains('#'),
    ensures
        no_newline(l),
        no_markers(l),
        no_markers(text::trim(l)),
{
    reveal_strlit("# === Podman TUI Managed ===");
    reveal_strlit("# === End Podman TUI Managed ===");
    lemma_trim_noop(l);
    let b = shell::managed_begin();
    let n = shell::managed_end();
    if text::contains(l, b) {
        let i = choose|i: int| #[trigger] text::occurs_at(l, b, i);
        assert(l.subrange(i, i + b.len())[0] == l[i]);
        if i > 0 {
            assert(l.skip(1)[i - 1] == l[i]);
        }
        assert(l.subrange(i, i + b.len())[2] == l[i + 2]);
    }
    if text::contains(l, n) {
        let i = choose|i: int| #[trigger] text::occurs_at(l, n, i);
        assert(l.subrange(i, i + n.len())[0] == l[i]);
        if i > 0 {
            assert(l.skip(1)[i - 1] == l[i]);
        }
        assert(l.subrange(i, i + n.len())[2] == l[i + 2]);
    }
}

/// The lines of the managed section written for plain names, values and paths:
/// each a single line, and none but the first and last holding a marker, trimmed
/// or not.
pub proof fn lemma_plain_section_lines(shell: ShellKind, vars: Seq<EnvVarModel>, paths: Seq<PathEntryModel>)
    requires
        plain_entries(vars, paths),
    ensures
        forall|i: int|
            0 <= i < shell::managed_lines(shell, vars, paths).len() ==> no_newline(
                #[trigger] shell::managed_lines(shell, vars, paths)[i],
            ),
        forall|i: int|
            0 < i < shell::managed_lines(shell, vars, paths).len() - 1 ==> no_markers(
                #[trigger] shell::managed_lines(shell, vars, paths)[i],
            ) && no_markers(text::trim(shell::managed_lines(shell, vars, paths)[i])),
{
    let ml = shell::managed_lines(shell, vars, paths);
    let begin = shell::managed_begin();
    let end = shell::managed_end();
    let warn = "# DO NOT EDIT MANUALLY - Changes will be overwritten"@;
    let pc = "# PATH entries (managed by Podman TUI)"@;
    let vc = "# Environment variables (managed by Podman TUI)"@;
    let blank = ""@;
    reveal_strlit("# === Podman TUI Managed ===");
    reveal_strlit("# === End Podman TUI Managed ===");
    reveal_strlit("# DO NOT EDIT MANUALLY - Changes will be overwritten");
    reveal_strlit("# PATH entries (managed by Podman TUI)");
    reveal_strlit("# Environment variables (managed by Podman TUI)");
    reveal_strlit("");
    assert(!warn.skip(1).contains('#'));
    assert(!pc.skip(1).contains('#'));
    assert(!vc.skip(1).contains('#'));
    lemma_fixed_line(warn);
    lemma_fixed_line(pc);
    lemma_fixed_line(vc);
    assert(plain_text(blank));
    lemma_plain_line_unmarked(blank);
    assert(no_newline(begin));
    assert(no_newline(end));
    let pl = shell::path_lines(shell, paths);
    let vl = shell::var_lines(shell, vars);
    lemma_path_lines_plain(shell, paths);
    lemma_var_lines_plain(shell, vars);
    assert forall|j: int| 0 <= j < pl.len() implies no_newline(#[trigger] pl[j]) && no_markers(pl[j])
        && no_markers(text::trim(pl[j])) by {
        lemma_plain_line_unmarked(pl[j]);
    }
    assert forall|j: int| 0 <= j < vl.len() implies no_newline(#[trigger] vl[j]) && no_markers(vl[j])
        && no_markers(text::trim(vl[j])) by {
        lemma_plain_line_unmarked(vl[j]);
    }
    let h = seq![begin, warn, blank];
    let pp = if paths.len() == 0 {
        Seq::<Seq<char>>::empty()
    } else {
        seq![pc] + pl + seq![blank]
    };
    let vp = if vars.len() == 0 {
        Seq::<Seq<char>>::empty()
    } else {
        seq![vc] + vl + seq![blank]
    };
    assert(ml == h + pp + vp + seq![end]);
    assert forall|i: int| 0 <= i < ml.len() implies no_newline(#[trigger] ml[i]) && (0 < i < ml.len()
        - 1 ==> no_markers(ml[i]) && no_markers(text::trim(ml[i]))) by {
        if i < 3 {
            assert(ml[i] == h[i]);
        } else if i < 3 + pp.len() {
            assert(ml[i] == pp[i - 3]);
            if i > 3 && i < 3 + pp.len() - 1 {
                assert(pp[i - 3] == pl[i - 4]);
            }
        } else if i < 3 + pp.len() + vp.len() {
            assert(ml[i] == vp[i - 3 - pp.len()]);
            if i > 3 + pp.len() && i < 3 + pp.len() + vp.len() - 1 {
                assert(vp[i - 3 - pp.len()] == vl[i - 4 - pp.len()]);
            }
        } else {
            assert(ml[i] == end);
        }
    }
}

/// Law: loading a configuration after saving it gives what the text kept
/// outside the managed section sets, followed by the enabled variables and the
/// entries of the enabled PATH directories, when the enabled names, values and
/// paths hold no line break and no `#` and each is one the shell's syntax reads
/// back (`var_parses_back`, `path_parses_back`); the managed section alone reads
/// back as those variables and entries.
pub proof fn lemma_plain_config_reads_back(
    existing: Seq<char>,
    shell: ShellKind,
    vars: Seq<EnvVarModel>,
    paths: Seq<PathEntryModel>,
)
    requires
        plain_entries(vars, paths),
        forall|i: int| 0 <= i < vars.len() && (#[trigger] vars[i]).enabled ==> var_parses_back(shell, vars[i]),
        forall|i: int|
            0 <= i < paths.len() && (#[trigger] paths[i]).enabled ==> path_parses_back(
                shell,
                paths[i].path,
            ),
    ensures
        shell::parse_config(shell, shell::managed_section(shell, vars, paths)) == (
            enabled_vars(vars),
            shell::word_entries(shell::enabled_paths(paths)),
        ),
        shell::parse_config(shell, shell::saved_config(existing, shell, vars, paths)) == (
            shell::parse_config(shell, text::trim_end(shell::without_managed(existing))).0
                + enabled_vars(vars),
            shell::parse_config(shell, text::trim_end(shell::without_managed(existing))).1
                + shell::word_entries(shell::enabled_paths(paths)),
        ),
{
    lemma_plain_section_lines(shell, vars, paths);
    lemma_managed_section_reads_back(shell, vars, paths);
    lemma_saved_config_reads_back(existing, shell, vars, paths);
}

} // verus!
