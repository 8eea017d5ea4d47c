//! Finding out about the host, one question at a time: which shell it runs and
//! which terminal emulator to open. Each search is a state and the question it
//! asks next; the caller asks the host, hands the answer back, and gets the next
//! state and question, until the search is done.
use vstd::prelude::*;
use crate::text;
use crate::shell;
use crate::shell::ShellKind;
use crate::launch;
use crate::launch::ProgramTerminal;

verus! {

// ─── The host's shell ────────────────────────────────────────────────────────

/// Where the search for the host's shell stands.
#[derive(Debug, Clone, Copy, PartialEq, Eq, Structural)]
pub enum ShellSearch {
    /// `$SHELL` was asked for.
    AskedShellVar,
    /// `$SHELL` names this shell; whether it is installed was asked.
    CheckingShellVar(ShellKind),
    /// The name of the process (`/proc/<pid>/comm`) was asked for.
    AskedComm,
    /// What a subshell prints for `$0` was asked for.
    AskedLoginName,
    /// Whether this shell, tried last, is installed was asked.
    CheckingFallback(ShellKind),
    /// The shell is known.
    Found(ShellKind),
}

/// What to ask the host next in the search for its shell.
#[derive(Debug, Clone, Copy, PartialEq, Eq, Structural)]
pub enum ShellQuestion {
    /// The value of `$SHELL`, if set.
    ShellVar,
    /// Whether the shell is installed (found by `which`).
    Installed(ShellKind),
    /// The contents of `/proc/<pid>/comm`, if readable.
    Comm,
    /// What `sh -c 'echo $0'` prints, if it succeeds.
    LoginName,
    /// Nothing: the shell is known.
    Done(ShellKind),
}

/// The host's answer to a question.
#[derive(Debug, Clone, PartialEq)]
pub enum HostAnswer {
    /// A text, or none when it could not be had.
    Text(Option<String>),
    /// Yes or no.
    Yes(bool),
}

/// The contents of a host answer.
pub enum HostAnswerModel {
    Text(Option<Seq<char>>),
    Yes(bool),
}

impl View for HostAnswer {
    type V = HostAnswerModel;

    open spec fn view(&self) -> HostAnswerModel {
        match self {
            HostAnswer::Text(t) => HostAnswerModel::Text(shell::opt_view(*t)),
            HostAnswer::Yes(b) => HostAnswerModel::Yes(*b),
        }
    }
}

/// The question a state of the shell search asks.
pub open spec fn shell_question_of(s: ShellSearch) -> ShellQuestion {
    match s {
        ShellSearch::AskedShellVar => ShellQuestion::ShellVar,
        ShellSearch::CheckingShellVar(k) => ShellQuestion::Installed(k),
        ShellSearch::AskedComm => ShellQuestion::Comm,
        ShellSearch::AskedLoginName => ShellQuestion::LoginName,
        ShellSearch::CheckingFallback(k) => ShellQuestion::Installed(k),
        ShellSearch::Found(k) => ShellQuestion::Done(k),
    }
}

/// The next state of the shell search after an answer: `$SHELL` first, if the
/// shell it names is installed; then the name of the process; then what a
/// subshell prints for `$0` (a login shell's leading `-` left out); then fish
/// and zsh, the first installed; then bash.
pub open spec fn shell_search_next(s: ShellSearch, a: HostAnswerModel) -> ShellSearch {
    match s {
        ShellSearch::AskedShellVar => match a {
            HostAnswerModel::Text(Some(p)) => ShellSearch::CheckingShellVar(shell::shell_kind_of(p)),
            _ => ShellSearch::AskedComm,
        },
        ShellSearch::CheckingShellVar(k) => match a {
            HostAnswerModel::Yes(true) => ShellSearch::Found(k),
            _ => ShellSearch::AskedComm,
        },
        ShellSearch::AskedComm => match a {
            HostAnswerModel::Text(Some(c)) => match shell::shell_of_comm(c) {
                Some(k) => ShellSearch::Found(k),
                None => ShellSearch::AskedLoginName,
            },
            _ => ShellSearch::AskedLoginName,
        },
        ShellSearch::AskedLoginName => match a {
            HostAnswerModel::Text(Some(n)) => match shell::shell_of_login_name(n) {
                Some(k) => ShellSearch::Found(k),
                None => ShellSearch::CheckingFallback(ShellKind::Fish),
            },
            _ => ShellSearch::CheckingFallback(ShellKind::Fish),
        },
        ShellSearch::CheckingFallback(k) => match a {
            HostAnswerModel::Yes(true) => ShellSearch::Found(k),
            _ => if k == ShellKind::Fish {
                ShellSearch::CheckingFallback(ShellKind::Zsh)
            } else {
                ShellSearch::Found(ShellKind::Bash)
            },
        },
        ShellSearch::Found(k) => ShellSearch::Found(k),
    }
}

/// The first state of the shell search and its question.
pub fn start_shell_search() -> (r: (ShellSearch, ShellQuestion))
    ensures
        r.0 == ShellSearch::AskedShellVar,
        r.1 == shell_question_of(r.0),
{
    (ShellSearch::AskedShellVar, ShellQuestion::ShellVar)
}

/// The next state of the shell search after the host's answer, and its question.
pub fn shell_search_step(s: ShellSearch, a: HostAnswer) -> (r: (ShellSearch, ShellQuestion))
    ensures
        r.0 == shell_search_next(s, a@),
        r.1 == shell_question_of(r.0),
{
    let next = match s {
        ShellSearch::AskedShellVar => match &a {
            HostAnswer::Text(Some(p)) => ShellSearch::CheckingShellVar(
                shell::detect_shell_kind(p.as_str()),
            ),
            _ => ShellSearch::AskedComm,
        },
        ShellSearch::CheckingShellVar(k) => match a {
            HostAnswer::Yes(true) => ShellSearch::Found(k),
            _ => ShellSearch::AskedComm,
        },
        ShellSearch::AskedComm => match &a {
            HostAnswer::Text(Some(c)) => match shell::shell_from_comm(c.as_str()) {
                Some(k) => ShellSearch::Found(k),
                None => ShellSearch::AskedLoginName,
            },
            _ => ShellSearch::AskedLoginName,
        },
        ShellSearch::AskedLoginName => match &a {
            HostAnswer::Text(Some(n)) => match shell::shell_from_login_name(n.as_str()) {
                Some(k) => ShellSearch::Found(k),
                None => ShellSearch::CheckingFallback(ShellKind::Fish),
            },
            _ => ShellSearch::CheckingFallback(ShellKind::Fish),
        },
        ShellSearch::CheckingFallback(k) => match a {
            HostAnswer::Yes(true) => ShellSearch::Found(k),
            _ => if k == ShellKind::Fish {
                ShellSearch::CheckingFallback(ShellKind::Zsh)
            } else {
                ShellSearch::Found(ShellKind::Bash)
            },
        },
        ShellSearch::Found(k) => ShellSearch::Found(k),
    };
    let q = match next {
        ShellSearch::AskedShellVar => ShellQuestion::ShellVar,
        ShellSearch::CheckingShellVar(k) => ShellQuestion::Installed(k),
        ShellSearch::AskedComm => ShellQuestion::Comm,
        ShellSearch::AskedLoginName => ShellQuestion::LoginName,
        ShellSearch::CheckingFallback(k) => ShellQuestion::Installed(k),
        ShellSearch::Found(k) => ShellQuestion::Done(k),
    };
    (next, q)
}

/// How many answers the shell search may still need.
pub open spec fn shell_search_left(s: ShellSearch) -> nat {
    match s {
        ShellSearch::AskedShellVar => 6,
        ShellSearch::CheckingShellVar(_) => 5,
        ShellSearch::AskedComm => 4,
        ShellSearch::AskedLoginName => 3,
        ShellSearch::CheckingFallback(k) => if k == ShellKind::Fish {
            2
        } else {
            1
        },
        ShellSearch::Found(_) => 0,
    }
}

/// Law: the search for the host's shell ends. Every answer in a search that
/// has not found the shell brings it closer to the end, so at most six answers
/// are needed from the start; once found, the shell stays found.
pub proof fn lemma_shell_search_ends(s: ShellSearch, a: HostAnswerModel)
    ensures
        s is Found ==> shell_search_next(s, a) == s,
        !(s is Found) ==> shell_search_left(shell_search_next(s, a)) < shell_search_left(s),
        shell_search_left(shell_search_next(s, a)) == 0 <==> shell_search_next(s, a) is Found,
        shell_search_left(ShellSearch::AskedShellVar) == 6,
{
}

// ─── The host's terminal emulator ────────────────────────────────────────────

/// A terminal to open and the arguments that precede the command.
pub type Terminal = (String, Vec<String>);

/// Where the search for the host's terminal emulator stands.
pub enum TerminalSearch {
    /// `$TERM_PROGRAM` was asked for.
    AskedProgram,
    /// `$TERM_PROGRAM` names this program; whether it can be run was asked.
    ProbingProgram(String),
    /// `$TERM` was asked for.
    AskedTerm,
    /// Whether the known terminal emulator at this place of
    /// `host_terminal_candidates` can be run was asked.
    ProbingCandidate(usize),
    /// The search is over: the terminal, or none to be had.
    Found(Option<Terminal>),
}

/// What to ask the host next in the search for its terminal emulator.
#[derive(Debug, Clone, PartialEq)]
pub enum TerminalQuestion {
    /// The value of `$TERM_PROGRAM`, if set.
    TermProgram,
    /// Whether the program can be run (with `--version`).
    ProgramRuns(String),
    /// The value of `$TERM`, if set.
    Term,
    /// Whether the known terminal emulator at this place can be run (with
    /// `--version`, or else `-h`).
    CandidateRuns(usize),
    /// Nothing: the search is over.
    Done,
}

/// A terminal as texts.
pub type TerminalModel = (Seq<char>, Seq<Seq<char>>);

/// The contents of a search state.
pub enum TerminalSearchModel {
    AskedProgram,
    ProbingProgram(Seq<char>),
    AskedTerm,
    ProbingCandidate(usize),
    Found(Option<TerminalModel>),
}

/// The contents of a question.
pub enum TerminalQuestionModel {
    TermProgram,
    ProgramRuns(Seq<char>),
    Term,
    CandidateRuns(usize),
    Done,
}

/// The texts of an optional terminal.
pub open spec fn terminal_view(t: Option<Terminal>) -> Option<TerminalModel> {
    match t {
        Some((name, args)) => Some((name@, launch::string_views(args@))),
        None => None,
    }
}

impl View for TerminalSearch {
    type V = TerminalSearchModel;

    open spec fn view(&self) -> TerminalSearchModel {
        match self {
            TerminalSearch::AskedProgram => TerminalSearchModel::AskedProgram,
            TerminalSearch::ProbingProgram(p) => TerminalSearchModel::ProbingProgram(p@),
            TerminalSearch::AskedTerm => TerminalSearchModel::AskedTerm,
            TerminalSearch::ProbingCandidate(i) => TerminalSearchModel::ProbingCandidate(*i),
            TerminalSearch::Found(t) => TerminalSearchModel::Found(terminal_view(*t)),
        }
    }
}

impl View for TerminalQuestion {
    type V = TerminalQuestionModel;

    open spec fn view(&self) -> TerminalQuestionModel {
        match self {
            TerminalQuestion::TermProgram => TerminalQuestionModel::TermProgram,
            TerminalQuestion::ProgramRuns(p) => TerminalQuestionModel::ProgramRuns(p@),
            TerminalQuestion::Term => TerminalQuestionModel::Term,
            TerminalQuestion::CandidateRuns(i) => TerminalQuestionModel::CandidateRuns(*i),
            TerminalQuestion::Done => TerminalQuestionModel::Done,
        }
    }
}

/// The question a state of the terminal search asks.
pub open spec fn terminal_question_of(s: TerminalSearchModel) -> TerminalQuestionModel {
    match s {
        TerminalSearchModel::AskedProgram => TerminalQuestionModel::TermProgram,
        TerminalSearchModel::ProbingProgram(p) => TerminalQuestionModel::ProgramRuns(p),
        TerminalSearchModel::AskedTerm => TerminalQuestionModel::Term,
        TerminalSearchModel::ProbingCandidate(i) => TerminalQuestionModel::CandidateRuns(i),
        TerminalSearchModel::Found(_) => TerminalQuestionModel::Done,
    }
}

/// The known terminal emulators tried from `i` on: the one at `i` if the
/// answer says it runs, else the next one, and none after the last.
pub open spec fn after_candidate(i: usize, runs: bool) -> TerminalSearchModel {
    let known = launch::host_terminals_spec();
    if runs && i < known.len() {
        TerminalSearchModel::Found(Some(known[i as int]))
    } else if i + 1 < known.len() {
        TerminalSearchModel::ProbingCandidate((i + 1) as usize)
    } else {
        TerminalSearchModel::Found(None)
    }
}

/// The next state of the terminal search after an answer: what
/// `$TERM_PROGRAM` names (see `program_terminal_spec`), the program itself with
/// `-e` when it is probed and runs, none when it does not; else tmux when
/// `$TERM` mentions it; else the first known terminal emulator that runs.
pub open spec fn terminal_search_next(s: TerminalSearchModel, a: HostAnswerModel) -> TerminalSearchModel {
    match s {
        TerminalSearchModel::AskedProgram => match a {
            HostAnswerModel::Text(Some(p)) => {
                let (t, probe) = launch::program_terminal_spec(p);
                if probe {
                    TerminalSearchModel::ProbingProgram(p)
                } else {
                    TerminalSearchModel::Found(t)
                }
            },
            _ => TerminalSearchModel::AskedTerm,
        },
        TerminalSearchModel::ProbingProgram(p) => match a {
            HostAnswerModel::Yes(true) => TerminalSearchModel::Found(Some((p, seq!["-e"@]))),
            _ => TerminalSearchModel::Found(None),
        },
        TerminalSearchModel::AskedTerm => match a {
            HostAnswerModel::Text(Some(t)) => match launch::tmux_terminal_spec(t) {
                Some(x) => TerminalSearchModel::Found(Some(x)),
                None => TerminalSearchModel::ProbingCandidate(0),
            },
            _ => TerminalSearchModel::ProbingCandidate(0),
        },
        TerminalSearchModel::ProbingCandidate(i) => after_candidate(i, a == HostAnswerModel::Yes(true)),
        TerminalSearchModel::Found(t) => TerminalSearchModel::Found(t),
    }
}

/// The first state of the terminal search and its question.
pub fn start_terminal_search() -> (r: (TerminalSearch, TerminalQuestion))
    ensures
        r.0@ == TerminalSearchModel::AskedProgram,
        r.1@ == terminal_question_of(r.0@),
{
    (TerminalSearch::AskedProgram, TerminalQuestion::TermProgram)
}

/// A terminal emulator of a table, as strings.
fn candidate_terminal(c: &launch::TerminalCandidate) -> (r: Terminal)
    ensures
        terminal_view(Some(r)) == Some(launch::candidate_view(*c)),
{
    let mut args: Vec<String> = Vec::new();
    let mut j: usize = 0;
    while j < c.args.len()
        invariant
            j <= c.args.len(),
            launch::string_views(args@) =~= c.args@.map_values(|s: &'static str| s@).take(j as int),
        decreases c.args.len() - j,
    {
        let ghost before = args@;
        let a = String::from_str(c.args[j]);
        args.push(a);
        assert(launch::string_views(args@) =~= launch::string_views(before).push(a@));
        j = j + 1;
    }
    assert(c.args@.map_values(|s: &'static str| s@).take(c.args.len() as int) =~= c.args@.map_values(
        |s: &'static str| s@,
    ));
    (String::from_str(c.name), args)
}

/// The known terminal emulator at `i`, as strings.
fn known_terminal(i: usize) -> (r: Terminal)
    requires
        i < launch::host_terminals_spec().len(),
    ensures
        terminal_view(Some(r)) == Some(launch::host_terminals_spec()[i as int]),
{
    let known = launch::host_terminal_candidates();
    assert(known@.map_values(|c: launch::TerminalCandidate| launch::candidate_view(c))[i as int]
        == launch::candidate_view(known@[i as int]));
    candidate_terminal(&known[i])
}

/// The question a state asks.
fn terminal_question(s: &TerminalSearch) -> (r: TerminalQuestion)
    ensures
        r@ == terminal_question_of(s@),
{
    match s {
        TerminalSearch::AskedProgram => TerminalQuestion::TermProgram,
        TerminalSearch::ProbingProgram(p) => TerminalQuestion::ProgramRuns(p.clone()),
        TerminalSearch::AskedTerm => TerminalQuestion::Term,
        TerminalSearch::ProbingCandidate(i) => TerminalQuestion::CandidateRuns(*i),
        TerminalSearch::Found(_) => TerminalQuestion::Done,
    }
}

/// The next state of the terminal search after the host's answer, and its question.
pub fn terminal_search_step(s: TerminalSearch, a: HostAnswer) -> (r: (TerminalSearch, TerminalQuestion))
    ensures
        r.0@ == terminal_search_next(s@, a@),
        r.1@ == terminal_question_of(r.0@),
{
    let next = match s {
        TerminalSearch::AskedProgram => match a {
            HostAnswer::Text(Some(p)) => match launch::terminal_for_program(p.as_str()) {
                ProgramTerminal::Use(t, args) => TerminalSearch::Found(Some((t, args))),
                ProgramTerminal::Unsupported => TerminalSearch::Found(None),
                ProgramTerminal::Probe => TerminalSearch::ProbingProgram(p),
            },
            _ => TerminalSearch::AskedTerm,
        },
        TerminalSearch::ProbingProgram(p) => match a {
            HostAnswer::Yes(true) => {
                let mut args: Vec<String> = Vec::new();
                let e = String::from_str("-e");
                args.push(e);
                assert(launch::string_views(args@) =~= seq!["-e"@]);
                TerminalSearch::Found(Some((p, args)))
            },
            _ => TerminalSearch::Found(None),
        },
        TerminalSearch::AskedTerm => match a {
            HostAnswer::Text(Some(t)) => match launch::terminal_for_term(t.as_str()) {
                Some(x) => TerminalSearch::Found(Some(x)),
                None => TerminalSearch::ProbingCandidate(0),
            },
            _ => TerminalSearch::ProbingCandidate(0),
        },
        TerminalSearch::ProbingCandidate(i) => {
            let runs = match a {
                HostAnswer::Yes(true) => true,
                _ => false,
            };
            if runs && i < 7 {
                TerminalSearch::Found(Some(known_terminal(i)))
            } else if i < 6 {
                TerminalSearch::ProbingCandidate(i + 1)
            } else {
                TerminalSearch::Found(None)
            }
        },
        TerminalSearch::Found(t) => TerminalSearch::Found(t),
    };
    let q = terminal_question(&next);
    (next, q)
}

/// How many answers the terminal search may still need.
pub open spec fn terminal_search_left(s: TerminalSearchModel) -> nat {
    match s {
        TerminalSearchModel::AskedProgram => 9,
        TerminalSearchModel::ProbingProgram(_) => 1,
        TerminalSearchModel::AskedTerm => 8,
        TerminalSearchModel::ProbingCandidate(i) => if i < 7 {
            (7 - i) as nat
        } else {
            1
        },
        TerminalSearchModel::Found(_) => 0,
    }
}

/// Law: the search for the host's terminal ends. Every answer in a search that
/// is not over brings it closer to the end, so at most nine answers are needed
/// from the start; once over, it stays over with the same result.
pub proof fn lemma_terminal_search_ends(s: TerminalSearchModel, a: HostAnswerModel)
    ensures
        s is Found ==> terminal_search_next(s, a) == s,
        !(s is Found) ==> terminal_search_left(terminal_search_next(s, a)) < terminal_search_left(s),
        terminal_search_left(terminal_search_next(s, a)) == 0 <==> terminal_search_next(s, a) is Found,
{
    reveal_strlit("ghostty");
    assert(launch::host_terminals_spec().len() == 7);
}

// ─── A terminal to fall back on ──────────────────────────────────────────────

/// The step in trying the fallback terminal emulators (`fallback_terminal_candidates`)
/// in order: use one, check whether the one at a place can be run, or give up.
pub enum FallbackStep {
    Use(Terminal),
    Check(usize),
    NoneLeft,
}

/// The contents of a fallback step.
pub enum FallbackStepModel {
    Use(TerminalModel),
    Check(usize),
    NoneLeft,
}

impl View for FallbackStep {
    type V = FallbackStepModel;

    open spec fn view(&self) -> FallbackStepModel {
        match self {
            FallbackStep::Use((name, args)) => FallbackStepModel::Use(
                (name@, launch::string_views(args@)),
            ),
            FallbackStep::Check(i) => FallbackStepModel::Check(*i),
            FallbackStep::NoneLeft => FallbackStepModel::NoneLeft,
        }
    }
}

/// The first step: check the first fallback terminal.
pub fn first_fallback() -> (r: FallbackStep)
    ensures
        r@ == FallbackStepModel::Check(0),
{
    FallbackStep::Check(0)
}

/// The step after checking the fallback terminal at `i`: use it when it can be
/// run, else check the next one; after the last there is none to be had.
pub open spec fn next_fallback_spec(i: usize, runs: bool) -> FallbackStepModel {
    let table = launch::fallback_terminals_spec();
    if runs && i < table.len() {
        FallbackStepModel::Use(table[i as int])
    } else if i + 1 < table.len() {
        FallbackStepModel::Check((i + 1) as usize)
    } else {
        FallbackStepModel::NoneLeft
    }
}

/// The step after checking whether the fallback terminal at `i` can be run.
pub fn next_fallback(i: usize, runs: bool) -> (r: FallbackStep)
    ensures
        r@ == next_fallback_spec(i, runs),
{
    let table = launch::fallback_terminal_candidates();
    proof {
        reveal_strlit("ghostty");
    }
    assert(launch::fallback_terminals_spec().len() == 5);
    if runs && i < table.len() {
        assert(table@.map_values(|c: launch::TerminalCandidate| launch::candidate_view(c))[i as int]
            == launch::candidate_view(table@[i as int]));
        let (name, args) = candidate_terminal(&table[i]);
        FallbackStep::Use((name, args))
    } else if i < 4 {
        FallbackStep::Check(i + 1)
    } else {
        FallbackStep::NoneLeft
    }
}

/// Law: trying the fallback terminals ends: each check moves to a later one or
/// settles, so at most five checks are made.
pub proof fn lemma_fallback_ends(i: usize, runs: bool)
    ensures
        next_fallback_spec(i, runs) matches FallbackStepModel::Check(j) ==> i < j < 5,
{
    reveal_strlit("ghostty");
}

} // verus!
