//! The embedded terminal: a command line under the panels, expandable to show
//! accumulated output.
//!
//! Everything about it that is a decision lives here: the input text, history
//! recall, the scrollback and its eviction, the run-status machine behind the
//! indicator dot, built-in commands, shell quoting, and the three pane sizes.
//! Spawning the child process and pumping its bytes back in through
//! [`Terminal::append`] is the caller's business.
//!
//! `cd` and `clear` never reach a shell: `cd` becomes a panel navigation,
//! `clear` empties the scrollback the app owns.
use vstd::prelude::*;

pub mod history;
pub mod recall;
pub mod scrollback;

use crate::ops::{resolve_dest, resolved_dest};
use crate::text::{
    chars_of, decimal_i64, decimal_int, has_char, spec_utf8_lossy, is_ws, is_ws_exec, owned, push_char, push_str,
    str_eq, string_from_chars, string_views, trimmed, trim_chars,
};
use crate::types::{
    HistoryDir, Stream, TerminalBuffer, TerminalChunk, TerminalPrefs, TerminalSize, TerminalState,
    TerminalStatus,
};
use history::{opt_text, next_of, prev_of, recorded, History, HistoryView};
use scrollback::{
    added_lines, after_append, append_chunk, apply_chunks, chunk_view, clear_chunk, cleared, feed, finished,
    lemma_append_delta, lemma_apply_chunks_push, lemma_clear_delta, line_text,
    trim_count, ChunkView, ScrollView, Scrollback,
};

verus! {

/// What [`Terminal::prepare`] decided a submitted command line means.
#[derive(Debug, Clone, PartialEq, Eq)]
pub enum RunPlan {
    /// Blank input: Enter on an empty prompt does nothing.
    Nothing,
    /// Navigate the active panel to this normalized, absolute path.
    ChangeDir(String),
    /// The scrollback was cleared; there is nothing else to do.
    Cleared,
    /// Run `command` through the shell, with `cwd` as its working directory.
    Spawn { command: String, cwd: String },
}

/// The content of a [`RunPlan`].
pub enum PlanView {
    Nothing,
    ChangeDir(Seq<char>),
    Cleared,
    Spawn { command: Seq<char>, cwd: Seq<char> },
}

/// The content of a plan value.
pub open spec fn plan_view(p: RunPlan) -> PlanView {
    match p {
        RunPlan::Nothing => PlanView::Nothing,
        RunPlan::ChangeDir(d) => PlanView::ChangeDir(d@),
        RunPlan::Cleared => PlanView::Cleared,
        RunPlan::Spawn { command, cwd } => PlanView::Spawn { command: command@, cwd: cwd@ },
    }
}

// ---------------------------------------------------------------------------
// Built-ins, tilde expansion and quoting
// ---------------------------------------------------------------------------

/// A built-in command, as text.
pub enum BuiltinView {
    /// `cd [path]`; a bare `cd` means home.
    Cd(Seq<char>),
    Clear,
}

/// Index of the first whitespace character of `s`, or its length.
pub open spec fn first_ws(s: Seq<char>) -> int
    decreases s.len(),
{
    if s.len() == 0 || is_ws(s[0]) { 0 } else { 1 + first_ws(s.drop_first()) }
}

/// Whether `s` holds `&&`.
pub open spec fn has_double_amp(s: Seq<char>) -> bool {
    exists|i: int| 0 <= i && i + 1 < s.len() && #[trigger] s[i] == '&' && s[i + 1] == '&'
}

/// The first word of a command line and the trimmed rest.
pub open spec fn head_rest(cmd: Seq<char>) -> (Seq<char>, Seq<char>) {
    let i = first_ws(cmd);
    if i < cmd.len() { (cmd.take(i), trimmed(cmd.skip(i + 1))) } else { (cmd, Seq::empty()) }
}

/// Which built-in a command line is, if any. Only a bare `cd` is one: with
/// `&&`, `;` or `|` in it the line belongs to the shell.
pub open spec fn builtin_of(cmd: Seq<char>) -> Option<BuiltinView> {
    let (head, rest) = head_rest(cmd);
    if head == "cd"@ && !has_double_amp(rest) && !rest.contains(';') && !rest.contains('|') {
        Some(BuiltinView::Cd(if rest.len() == 0 { "~"@ } else { rest }))
    } else if (head == "clear"@ || head == "cls"@) && rest.len() == 0 {
        Some(BuiltinView::Clear)
    } else {
        None
    }
}

/// `path` with a leading `~` (alone or before `/`) replaced by `home`.
pub open spec fn expanded(path: Seq<char>, home: Seq<char>) -> Seq<char> {
    if path == seq!['~'] {
        home
    } else if path.len() >= 2 && path[0] == '~' && path[1] == '/' {
        home + seq!['/'] + path.skip(2)
    } else {
        path
    }
}

/// Characters a shell takes literally outside quotes.
pub open spec fn is_safe_char(c: char) -> bool {
    ('a' <= c && c <= 'z') || ('A' <= c && c <= 'Z') || ('0' <= c && c <= '9') || c == '.' || c == '_'
        || c == '-' || c == '+' || c == '=' || c == '/' || c == '@' || c == ':' || c == ','
}

/// `s` with each single quote spliced in as `'\''`.
pub open spec fn escaped(s: Seq<char>) -> Seq<char>
    decreases s.len(),
{
    if s.len() == 0 {
        Seq::empty()
    } else {
        (if s[0] == '\'' { seq!['\'', '\\', '\'', '\''] } else { seq![s[0]] }) + escaped(s.drop_first())
    }
}

/// `name` as a single shell argument: bare when made only of safe
/// characters, single-quoted otherwise.
pub open spec fn quoted(name: Seq<char>) -> Seq<char> {
    if name.len() > 0 && forall|i: int| 0 <= i < name.len() ==> is_safe_char(#[trigger] name[i]) {
        name
    } else {
        seq!['\''] + escaped(name) + seq!['\'']
    }
}

/// The built-in commands that never reach a shell.
enum Builtin {
    Cd(String),
    Clear,
}

fn has_double_amp_exec(s: &Vec<char>) -> (r: bool)
    ensures
        r == has_double_amp(s@),
{
    let mut i: usize = 0;
    while i < s.len() && i + 1 < s.len()
        invariant
            i <= s@.len(),
            forall|k: int| 0 <= k < i && k + 1 < s@.len() ==> !(#[trigger] s@[k] == '&' && s@[k + 1] == '&'),
        decreases s.len() - i,
    {
        if s[i] == '&' && s[i + 1] == '&' {
            assert(s@[i as int] == '&' && s@[i as int + 1] == '&');
            return true;
        }
        i = i + 1;
    }
    assert forall|k: int| 0 <= k && k + 1 < s@.len() && #[trigger] s@[k] == '&' implies s@[k + 1] != '&' by {
        assert(k < i);
    }
    false
}

proof fn lemma_first_ws(s: Seq<char>)
    ensures
        0 <= first_ws(s) <= s.len(),
        forall|k: int| 0 <= k < first_ws(s) ==> !is_ws(#[trigger] s[k]),
        first_ws(s) < s.len() ==> is_ws(s[first_ws(s)]),
    decreases s.len(),
{
    if s.len() > 0 && !is_ws(s[0]) {
        lemma_first_ws(s.drop_first());
        assert forall|k: int| 0 <= k < first_ws(s) implies !is_ws(#[trigger] s[k]) by {
            if k > 0 {
                assert(s[k] == s.drop_first()[k - 1]);
            }
        }
    }
}

fn builtin(command: &str) -> (r: Option<Builtin>)
    ensures
        match r {
            Some(Builtin::Cd(arg)) => builtin_of(command@) == Some(BuiltinView::Cd(arg@)),
            Some(Builtin::Clear) => builtin_of(command@) == Some(BuiltinView::Clear),
            None => builtin_of(command@) is None,
        },
{
    let cs = chars_of(command);
    let mut i: usize = 0;
    while i < cs.len() && !is_ws_exec(cs[i])
        invariant
            i <= cs@.len(),
            cs@ == command@,
            forall|k: int| 0 <= k < i ==> !is_ws(#[trigger] cs@[k]),
        decreases cs.len() - i,
    {
        i = i + 1;
    }
    proof {
        lemma_first_ws(cs@);
        if first_ws(cs@) < i {
            assert(!is_ws(cs@[first_ws(cs@)]));
        }
        if i < first_ws(cs@) {
            assert(is_ws(cs@[i as int]));
        }
    }
    assert(first_ws(cs@) == i);
    let mut head: Vec<char> = Vec::new();
    let mut k: usize = 0;
    while k < i
        invariant
            k <= i,
            i <= cs@.len(),
            head@ == cs@.take(k as int),
        decreases i - k,
    {
        head.push(cs[k]);
        assert(cs@.take(k as int).push(cs@[k as int]) =~= cs@.take(k + 1));
        k = k + 1;
    }
    let mut after: Vec<char> = Vec::new();
    if i < cs.len() {
        let mut j: usize = i + 1;
        while j < cs.len()
            invariant
                i + 1 <= j <= cs@.len(),
                after@ == cs@.subrange(i + 1, j as int),
            decreases cs.len() - j,
        {
            after.push(cs[j]);
            assert(cs@.subrange(i + 1, j as int).push(cs@[j as int]) =~= cs@.subrange(i + 1, j + 1));
            j = j + 1;
        }
        assert(after@ =~= cs@.skip(i + 1));
    } else {
        assert(head@ =~= cs@);
    }
    let rest = trim_chars(&after);
    proof {
        if i >= cs@.len() {
            assert(after@ =~= Seq::<char>::empty());
            assert(trimmed(Seq::<char>::empty()) =~= Seq::<char>::empty());
        }
    }
    assert(head_rest(command@) == (head@, rest@));
    let head_s = string_from_chars(&head);
    if str_eq(head_s.as_str(), "cd") {
        if !has_double_amp_exec(&rest) && !has_char(&rest, ';') && !has_char(&rest, '|') {
            if rest.len() == 0 {
                return Some(Builtin::Cd(owned("~")));
            }
            return Some(Builtin::Cd(string_from_chars(&rest)));
        }
        proof {
            reveal_strlit("cd");
            reveal_strlit("clear");
            reveal_strlit("cls");
        }
        return None;
    }
    if (str_eq(head_s.as_str(), "clear") || str_eq(head_s.as_str(), "cls")) && rest.len() == 0 {
        return Some(Builtin::Clear);
    }
    None
}

/// Expand a leading `~` to `home`. Only the leading form, and only for the
/// current user: `~other` is a shell feature not reimplemented here.
pub fn expand_tilde(path: &str, home: &str) -> (r: String)
    ensures
        r@ == expanded(path@, home@),
{
    let cs = chars_of(path);
    if cs.len() == 1 && cs[0] == '~' {
        assert(path@ =~= seq!['~']);
        return owned(home);
    }
    if cs.len() >= 2 && cs[0] == '~' && cs[1] == '/' {
        let mut out = owned(home);
        push_char(&mut out, '/');
        let mut j: usize = 2;
        while j < cs.len()
            invariant
                2 <= j <= cs@.len(),
                cs@ == path@,
                out@ == home@ + seq!['/'] + cs@.subrange(2, j as int),
            decreases cs.len() - j,
        {
            push_char(&mut out, cs[j]);
            assert(cs@.subrange(2, j as int).push(cs@[j as int]) =~= cs@.subrange(2, j + 1));
            assert(home@ + seq!['/'] + cs@.subrange(2, j + 1) =~= (home@ + seq!['/'] + cs@.subrange(2, j as int)).push(cs@[j as int]));
            j = j + 1;
        }
        assert(cs@.subrange(2, j as int) =~= path@.skip(2));
        return out;
    }
    proof {
        if path@ == seq!['~'] {
            assert(cs@.len() == 1);
        }
    }
    owned(path)
}

fn is_safe_exec(c: char) -> (r: bool)
    ensures
        r == is_safe_char(c),
{
    ('a' <= c && c <= 'z') || ('A' <= c && c <= 'Z') || ('0' <= c && c <= '9') || c == '.' || c == '_'
        || c == '-' || c == '+' || c == '=' || c == '/' || c == '@' || c == ':' || c == ','
}

proof fn lemma_escaped_push(s: Seq<char>, c: char)
    ensures
        escaped(s.push(c)) == escaped(s) + (if c == '\'' { seq!['\'', '\\', '\'', '\''] } else { seq![c] }),
    decreases s.len(),
{
    if s.len() == 0 {
        assert(s.push(c).drop_first() =~= Seq::<char>::empty());
        assert(escaped(Seq::<char>::empty()) =~= Seq::<char>::empty());
        let e = if c == '\'' { seq!['\'', '\\', '\'', '\''] } else { seq![c] };
        assert(escaped(s.push(c)) =~= e + Seq::<char>::empty());
        assert(escaped(s) + e =~= e);
        assert(e + Seq::<char>::empty() =~= e);
    } else {
        assert(s.push(c).drop_first() =~= s.drop_first().push(c));
        lemma_escaped_push(s.drop_first(), c);
        let h = if s[0] == '\'' { seq!['\'', '\\', '\'', '\''] } else { seq![s[0]] };
        let e = if c == '\'' { seq!['\'', '\\', '\'', '\''] } else { seq![c] };
        assert(escaped(s.push(c)) == h + escaped(s.drop_first().push(c)));
        assert(h + (escaped(s.drop_first()) + e) =~= (h + escaped(s.drop_first())) + e);
    }
}

/// Quote a filename so a shell receives it as a single argument. Names made
/// only of safe characters are left bare.
pub fn quote(name: &str) -> (r: String)
    ensures
        r@ == quoted(name@),
{
    let cs = chars_of(name);
    let mut all_safe = cs.len() > 0;
    let mut i: usize = 0;
    while i < cs.len()
        invariant
            i <= cs@.len(),
            cs@ == name@,
            all_safe == (cs@.len() > 0 && forall|k: int| 0 <= k < i ==> is_safe_char(#[trigger] cs@[k])),
        decreases cs.len() - i,
    {
        if !is_safe_exec(cs[i]) {
            all_safe = false;
        }
        i = i + 1;
    }
    if all_safe {
        return owned(name);
    }
    let mut out = String::new();
    push_char(&mut out, '\'');
    let mut j: usize = 0;
    while j < cs.len()
        invariant
            j <= cs@.len(),
            cs@ == name@,
            out@ == seq!['\''] + escaped(cs@.take(j as int)),
        decreases cs.len() - j,
    {
        let c = cs[j];
        proof {
            assert(cs@.take(j + 1) =~= cs@.take(j as int).push(c));
            lemma_escaped_push(cs@.take(j as int), c);
        }
        if c == '\'' {
            push_char(&mut out, '\'');
            push_char(&mut out, '\\');
            push_char(&mut out, '\'');
            push_char(&mut out, '\'');
            assert(out@ =~= seq!['\''] + escaped(cs@.take(j + 1)));
        } else {
            push_char(&mut out, c);
            assert(out@ =~= seq!['\''] + escaped(cs@.take(j + 1)));
        }
        j = j + 1;
    }
    push_char(&mut out, '\'');
    assert(cs@.take(j as int) =~= name@);
    out
}

// ---------------------------------------------------------------------------
// The terminal state machine
// ---------------------------------------------------------------------------

/// The abstract state of a terminal.
pub struct TermView {
    pub input: Seq<char>,
    pub input_rev: int,
    pub history: HistoryView,
    pub buffer: ScrollView,
    pub status: TerminalStatus,
    pub size: TerminalSize,
    /// The size the curtain returns to.
    pub restore_size: TerminalSize,
    pub focused: bool,
    /// The command running, and whether it has written to stderr.
    pub running: Option<(Seq<char>, bool)>,
    /// Buffer deltas not yet drained.
    pub chunks: Seq<ChunkView>,
    /// The buffer's lines as they stood at the last drain: what a mirror
    /// that applied every delta drained so far holds.
    pub drained: Seq<Seq<char>>,
}

/// The deltas of a list of chunk values.
pub open spec fn chunk_views(v: Seq<TerminalChunk>) -> Seq<ChunkView> {
    Seq::new(v.len(), |i: int| chunk_view(v[i]))
}

/// The revision after a core-side rewrite of the prompt (wrapping).
pub open spec fn bumped(rev: int) -> int {
    if rev >= u32::MAX { 0 } else { rev + 1 }
}

/// The size a saved preference opens as: the curtain is never restored.
pub open spec fn launch_size(s: TerminalSize) -> TerminalSize {
    if s == TerminalSize::Full { TerminalSize::Half } else { s }
}

/// The prompt line echoed into the scrollback for a run.
pub open spec fn echo_line(cwd: Seq<char>, command: Seq<char>) -> Seq<char> {
    cwd + seq!['>', ' '] + command
}

/// The footer written after a non-zero exit.
pub open spec fn exit_footer(code: int) -> Seq<char> {
    seq!['[', 'e', 'x', 'i', 't', ' '] + decimal_int(code) + seq![']']
}

/// `v` with the prompt replaced from the core side.
pub open spec fn rewritten(v: TermView, text: Seq<char>) -> TermView {
    TermView { input: text, input_rev: bumped(v.input_rev), ..v }
}

/// `v` with one complete line appended to the scrollback and its delta queued.
pub open spec fn with_line(v: TermView, line: Seq<char>) -> TermView {
    let text = line_text(v.buffer.pending, line);
    TermView {
        buffer: after_append(v.buffer, text),
        chunks: v.chunks.push(append_chunk(v.buffer, text)),
        ..v
    }
}

/// `v` with its history cursor reset.
pub open spec fn history_reset(h: HistoryView) -> HistoryView {
    HistoryView { entries: h.entries, offset: 0, draft: Seq::empty() }
}

/// A fresh terminal for `prefs`.
pub open spec fn initial(scrollback_bytes: int, size: TerminalSize) -> TermView {
    TermView {
        input: Seq::empty(),
        input_rev: 0,
        history: HistoryView { entries: Seq::empty(), offset: 0, draft: Seq::empty() },
        buffer: ScrollView { lines: Seq::empty(), pending: Seq::empty(), limit: scrollback_bytes },
        status: TerminalStatus::Idle,
        size: launch_size(size),
        restore_size: TerminalSize::Collapsed,
        focused: false,
        running: None,
        chunks: Seq::empty(),
        drained: Seq::empty(),
    }
}

/// Ctrl+Enter: `input` with a quoted name appended, space-separated.
pub open spec fn with_name(input: Seq<char>, name: Seq<char>) -> Seq<char> {
    let base = if input.len() > 0 && input.last() != ' ' { input.push(' ') } else { input };
    base + quoted(name) + seq![' ']
}

/// Enter: what the submitted line means and the state after it.
pub open spec fn prepared(v: TermView, cwd: Seq<char>, home: Seq<char>) -> (TermView, PlanView) {
    let command = trimmed(v.input);
    if command.len() == 0 {
        (v, PlanView::Nothing)
    } else {
        let echoed = with_line(v, echo_line(cwd, command));
        let base = TermView {
            input: Seq::empty(),
            input_rev: bumped(v.input_rev),
            history: HistoryView { entries: recorded(v.history.entries, command), offset: 0, draft: Seq::empty() },
            ..echoed
        };
        match builtin_of(command) {
            Some(BuiltinView::Cd(arg)) => (base, PlanView::ChangeDir(resolved_dest(cwd, expanded(arg, home)))),
            Some(BuiltinView::Clear) => (
                TermView { buffer: cleared(base.buffer), chunks: base.chunks.push(clear_chunk(base.buffer)), ..base },
                PlanView::Cleared,
            ),
            None => (
                TermView { status: TerminalStatus::Running, running: Some((command, false)), ..base },
                PlanView::Spawn { command, cwd },
            ),
        }
    }
}

/// The status after a run exits with `code`: green only for a zero exit with
/// nothing on stderr.
pub open spec fn exit_status(code: int, had_stderr: bool) -> TerminalStatus {
    if code == 0 && !had_stderr { TerminalStatus::Okay } else { TerminalStatus::Error }
}

/// The grey-decay rule: once the user touches any control, a green or red
/// verdict fades to grey; a run in progress is left alone.
pub open spec fn touched(v: TermView) -> TermView {
    TermView {
        status: if v.status == TerminalStatus::Okay || v.status == TerminalStatus::Error {
            TerminalStatus::Idle
        } else {
            v.status
        },
        ..v
    }
}

/// Cmd+Shift+T: flip between the bare command line and half the window;
/// from the curtain, collapse.
pub open spec fn half_toggled(v: TermView) -> TermView {
    TermView {
        size: if v.size == TerminalSize::Collapsed { TerminalSize::Half } else { TerminalSize::Collapsed },
        restore_size: TerminalSize::Collapsed,
        ..v
    }
}

/// Esc: reveal the full terminal (taking the keyboard), or go back to the
/// size showing before.
pub open spec fn curtain_toggled(v: TermView) -> TermView {
    if v.size == TerminalSize::Full {
        TermView { size: v.restore_size, ..v }
    } else {
        TermView { restore_size: v.size, size: TerminalSize::Full, focused: true, ..v }
    }
}

/// Whether `r` is what the frontend is shown of a command line in state `v`
/// whose folder is `cwd`: the prompt text and its revision, the folder, the
/// size and focus, the status, the command running, and the scrollback cap.
pub open spec fn state_shows(v: TermView, cwd: Seq<char>, r: TerminalState) -> bool {
    &&& r.input@ == v.input
    &&& r.input_rev as int == v.input_rev
    &&& r.cwd@ == cwd
    &&& r.size == v.size
    &&& r.focused == v.focused
    &&& r.status == v.status
    &&& opt_text(r.running) == match v.running {
        Some((c, _)) => Some(c),
        None => None,
    }
    &&& r.scrollback_bytes as int == v.buffer.limit
}

/// Whether a mirror kept from the drained deltas is in step with the buffer:
/// the lines at the last drain, with the deltas queued since applied, give
/// the buffer's lines.
pub open spec fn in_step(v: TermView) -> bool {
    tracks(v.drained, v)
}

/// Whether applying the queued deltas to `base` gives the buffer.
pub open spec fn tracks(base: Seq<Seq<char>>, v: TermView) -> bool {
    apply_chunks(base, v.chunks) == v.buffer.lines
}

/// The command currently executing.
#[derive(Debug, Clone)]
struct RunningCommand {
    command: String,
    /// Whether anything has arrived on stderr.
    had_stderr: bool,
}

/// The command line's state machine.
pub struct Terminal {
    input: String,
    input_rev: u32,
    history: History,
    scrollback: Scrollback,
    status: TerminalStatus,
    size: TerminalSize,
    restore_size: TerminalSize,
    focused: bool,
    running: Option<RunningCommand>,
    pending_chunks: Vec<TerminalChunk>,
    /// The buffer's lines at the last drain.
    drained: Ghost<Seq<Seq<char>>>,
}

impl Terminal {
    /// The abstract state.
    pub closed spec fn view(&self) -> TermView {
        TermView {
            input: self.input@,
            input_rev: self.input_rev as int,
            history: self.history.view(),
            buffer: self.scrollback.view(),
            status: self.status,
            size: self.size,
            restore_size: self.restore_size,
            focused: self.focused,
            running: match self.running {
                Some(r) => Some((r.command@, r.had_stderr)),
                None => None,
            },
            chunks: chunk_views(self.pending_chunks@),
            drained: self.drained@,
        }
    }

    /// The history and the scrollback are well formed.
    pub closed spec fn wf(&self) -> bool {
        self.history.wf() && self.scrollback.wf()
    }

    /// A terminal for the saved preferences: an empty prompt, history and
    /// buffer; the curtain is never restored on launch.
    pub fn new(prefs: &TerminalPrefs) -> (t: Self)
        ensures
            t.wf(),
            t.view() == initial(prefs.scrollback_bytes as int, prefs.size),
    {
        let size = if prefs.size == TerminalSize::Full { TerminalSize::Half } else { prefs.size };
        let t = Terminal {
            input: String::new(),
            input_rev: 0,
            history: History::empty(),
            scrollback: Scrollback::new(prefs.scrollback_bytes),
            status: TerminalStatus::Idle,
            size,
            restore_size: TerminalSize::Collapsed,
            focused: false,
            running: None,
            pending_chunks: Vec::new(),
            drained: Ghost(Seq::empty()),
        };
        assert(t.view().chunks =~= Seq::<ChunkView>::empty());
        assert(t.view().history.entries =~= Seq::<Seq<char>>::empty());
        assert(t.view().history.draft =~= Seq::<char>::empty());
        assert(t.view().buffer.lines =~= Seq::<Seq<char>>::empty());
        assert(t.view().buffer.pending =~= Seq::<char>::empty());
        assert(t.view().input =~= Seq::<char>::empty());
        t
    }

    /// Take the buffer deltas produced since the last call.
    pub fn drain_chunks(&mut self) -> (r: Vec<TerminalChunk>)
        requires
            old(self).wf(),
        ensures
            final(self).wf(),
            chunk_views(r@) == old(self).view().chunks,
            final(self).view() == (TermView {
                chunks: Seq::empty(),
                drained: old(self).view().buffer.lines,
                ..old(self).view()
            }),
    {
        let mut out: Vec<TerminalChunk> = Vec::new();
        std::mem::swap(&mut out, &mut self.pending_chunks);
        self.drained = Ghost(self.scrollback.view().lines);
        assert(chunk_views(self.pending_chunks@) =~= Seq::<ChunkView>::empty());
        out
    }

    /// Adopt persisted preferences after they are loaded at boot.
    pub fn apply_prefs(&mut self, prefs: &TerminalPrefs)
        requires
            old(self).wf(),
        ensures
            final(self).wf(),
            final(self).view() == (TermView {
                buffer: ScrollView {
                    lines: old(self).view().buffer.lines.skip(
                        trim_count(old(self).view().buffer.lines, prefs.scrollback_bytes as int),
                    ),
                    pending: old(self).view().buffer.pending,
                    limit: prefs.scrollback_bytes as int,
                },
                size: launch_size(prefs.size),
                ..old(self).view()
            }),
    {
        self.scrollback.set_limit(prefs.scrollback_bytes);
        self.size = if prefs.size == TerminalSize::Full { TerminalSize::Half } else { prefs.size };
    }

    /// Fold live terminal state back into the preferences for persistence.
    pub fn capture_prefs(&self, prefs: &mut TerminalPrefs)
        ensures
            final(prefs).scrollback_bytes as int == self.view().buffer.limit,
            final(prefs).size == launch_size(self.view().size),
            final(prefs).shell == old(prefs).shell,
    {
        prefs.scrollback_bytes = self.scrollback.limit();
        prefs.size = if self.size == TerminalSize::Full { TerminalSize::Half } else { self.size };
    }

    /// Install the history loaded at boot.
    pub fn set_history(&mut self, history: History)
        requires
            old(self).wf(),
            history.wf(),
        ensures
            final(self).wf(),
            final(self).view() == (TermView { history: history.view(), ..old(self).view() }),
    {
        self.history = history;
    }

    /// The command history.
    pub fn history(&self) -> (r: &History)
        ensures
            r.view() == self.view().history,
    {
        &self.history
    }

    /// Mirror the text the user is typing. Does not bump the revision: this
    /// echoes what the frontend already shows.
    pub fn set_input(&mut self, text: String)
        requires
            old(self).wf(),
        ensures
            final(self).wf(),
            final(self).view() == (TermView {
                input: text@,
                history: if old(self).view().input != text@ {
                    history_reset(old(self).view().history)
                } else {
                    old(self).view().history
                },
                ..old(self).view()
            }),
    {
        if !str_eq(self.input.as_str(), text.as_str()) {
            self.history.reset();
        }
        self.input = text;
    }

    /// Replace the prompt text from the core side, bumping the revision.
    fn rewrite_input(&mut self, text: String)
        ensures
            final(self).view() == rewritten(old(self).view(), text@),
            final(self).history == old(self).history,
            final(self).scrollback == old(self).scrollback,
    {
        self.input = text;
        self.input_rev = if self.input_rev == u32::MAX { 0 } else { self.input_rev + 1 };
    }

    /// Ctrl+C with nothing running: empty the prompt.
    pub fn clear_input(&mut self)
        requires
            old(self).wf(),
        ensures
            final(self).wf(),
            final(self).view() == rewritten(
                TermView { history: history_reset(old(self).view().history), ..old(self).view() },
                Seq::empty(),
            ),
    {
        self.history.reset();
        self.rewrite_input(String::new());
    }

    /// Recall a previous command (Up / Down). A no-op at either end.
    pub fn recall(&mut self, dir: HistoryDir)
        requires
            old(self).wf(),
        ensures
            final(self).wf(),
            ({
                let v = old(self).view();
                let (h, line) = match dir {
                    HistoryDir::Prev => prev_of(v.history, v.input),
                    HistoryDir::Next => next_of(v.history),
                };
                let moved = TermView { history: h, ..v };
                final(self).view() == match line {
                    Some(t) => rewritten(moved, t),
                    None => moved,
                }
            }),
    {
        let recalled = match dir {
            HistoryDir::Prev => self.history.prev(self.input.as_str()),
            HistoryDir::Next => self.history.next(),
        };
        match recalled {
            Some(text) => self.rewrite_input(text),
            None => {},
        }
    }

    /// Ctrl+Enter: append the shell-quoted name to the command line,
    /// space-separated.
    pub fn insert_name(&mut self, name: &str)
        requires
            old(self).wf(),
        ensures
            final(self).wf(),
            final(self).view() == rewritten(old(self).view(), with_name(old(self).view().input, name@)),
    {
        let ghost v = self.view();
        let mut text = String::new();
        std::mem::swap(&mut text, &mut self.input);
        let cs = chars_of(text.as_str());
        if cs.len() > 0 && cs[cs.len() - 1] != ' ' {
            assert(cs@.last() == v.input.last());
            push_char(&mut text, ' ');
        } else {
            proof {
                if cs@.len() > 0 {
                    assert(cs@.last() == v.input.last());
                }
            }
        }
        let q = quote(name);
        push_str(&mut text, q.as_str());
        push_char(&mut text, ' ');
        assert(text@ =~= with_name(v.input, name@));
        self.rewrite_input(text);
    }

    /// Append one line to the scrollback and queue its delta.
    fn echo(&mut self, line: &str)
        requires
            old(self).wf(),
        ensures
            final(self).wf(),
            final(self).view() == with_line(old(self).view(), line@),
    {
        let chunk = self.scrollback.append_line(line);
        let ghost before = self.pending_chunks@;
        self.pending_chunks.push(chunk);
        assert(chunk_views(self.pending_chunks@) =~= chunk_views(before).push(chunk_view(chunk)));
    }

    /// Decide what the submitted command line means, and record the
    /// submission: echo the prompt line, push history, clear the input, and
    /// for a real spawn go `Running`. `cwd` is the active panel's directory;
    /// `home` is where `~` and a bare `cd` lead.
    pub fn prepare(&mut self, cwd: &str, home: &str) -> (plan: RunPlan)
        requires
            old(self).wf(),
        ensures
            final(self).wf(),
            final(self).view() == prepared(old(self).view(), cwd@, home@).0,
            plan_view(plan) == prepared(old(self).view(), cwd@, home@).1,
    {
        let trimmed_cs = trim_chars(&chars_of(self.input.as_str()));
        let command = string_from_chars(&trimmed_cs);
        if trimmed_cs.len() == 0 {
            return RunPlan::Nothing;
        }
        let mut line = owned(cwd);
        push_char(&mut line, '>');
        push_char(&mut line, ' ');
        push_str(&mut line, command.as_str());
        assert(line@ =~= echo_line(cwd@, command@));
        self.echo(line.as_str());
        self.history.push(owned(command.as_str()));
        self.rewrite_input(String::new());
        match builtin(command.as_str()) {
            Some(Builtin::Cd(arg)) => {
                let target = resolve_dest(cwd, expand_tilde(arg.as_str(), home).as_str());
                RunPlan::ChangeDir(target)
            },
            Some(Builtin::Clear) => {
                let chunk = self.scrollback.clear();
                let ghost before = self.pending_chunks@;
                self.pending_chunks.push(chunk);
                assert(chunk_views(self.pending_chunks@) =~= chunk_views(before).push(chunk_view(chunk)));
                RunPlan::Cleared
            },
            None => {
                self.status = TerminalStatus::Running;
                self.running = Some(RunningCommand { command: owned(command.as_str()), had_stderr: false });
                RunPlan::Spawn { command, cwd: owned(cwd) }
            },
        }
    }

    /// Start a run launched from a panel rather than typed; echoed like a
    /// typed command.
    pub fn begin_external(&mut self, command: String, cwd: &str)
        requires
            old(self).wf(),
        ensures
            final(self).wf(),
            final(self).view() == (TermView {
                status: TerminalStatus::Running,
                running: Some((command@, false)),
                ..with_line(old(self).view(), echo_line(cwd@, command@))
            }),
    {
        let mut line = owned(cwd);
        push_char(&mut line, '>');
        push_char(&mut line, ' ');
        push_str(&mut line, command.as_str());
        assert(line@ =~= echo_line(cwd@, command@));
        self.echo(line.as_str());
        self.status = TerminalStatus::Running;
        self.running = Some(RunningCommand { command, had_stderr: false });
    }

    /// Feed output from the running child into the scrollback. Any stderr
    /// output marks the run.
    pub fn append(&mut self, bytes: &[u8], stream: Stream)
        requires
            old(self).wf(),
        ensures
            final(self).wf(),
            ({
                let v = old(self).view();
                let text = spec_utf8_lossy(bytes@);
                final(self).view() == TermView {
                    running: match v.running {
                        Some((c, e)) => Some((c, e || (stream == Stream::Stderr && bytes@.len() > 0))),
                        None => None,
                    },
                    buffer: after_append(v.buffer, text),
                    chunks: v.chunks.push(append_chunk(v.buffer, text)),
                    ..v
                }
            }),
    {
        if stream == Stream::Stderr && bytes.len() > 0 {
            match &self.running {
                Some(r) => {
                    let c = owned(r.command.as_str());
                    self.running = Some(RunningCommand { command: c, had_stderr: true });
                },
                None => {},
            }
        }
        let chunk = self.scrollback.append(bytes);
        let ghost before = self.pending_chunks@;
        self.pending_chunks.push(chunk);
        assert(chunk_views(self.pending_chunks@) =~= chunk_views(before).push(chunk_view(chunk)));
    }

    /// The child exited: green for a zero exit with nothing on stderr, red
    /// otherwise; a non-zero exit also leaves a footer line.
    pub fn finish(&mut self, code: i32)
        requires
            old(self).wf(),
        ensures
            final(self).wf(),
            ({
                let v = old(self).view();
                let had = match v.running {
                    Some((_, e)) => e,
                    None => false,
                };
                let done = TermView { running: None, status: exit_status(code as int, had), ..v };
                final(self).view() == if code != 0 { with_line(done, exit_footer(code as int)) } else { done }
            }),
    {
        let had_stderr = match &self.running {
            Some(r) => r.had_stderr,
            None => false,
        };
        self.running = None;
        self.status = if code == 0 && !had_stderr { TerminalStatus::Okay } else { TerminalStatus::Error };
        if code != 0 {
            let mut footer = String::new();
            push_str(&mut footer, "[exit ");
            let digits = decimal_i64(code as i64);
            push_str(&mut footer, digits.as_str());
            push_char(&mut footer, ']');
            proof {
                reveal_strlit("[exit ");
            }
            assert(footer@ =~= exit_footer(code as int));
            self.echo(footer.as_str());
        }
    }

    /// A run could not even start: red, with the reason in the buffer.
    pub fn fail(&mut self, reason: &str)
        requires
            old(self).wf(),
        ensures
            final(self).wf(),
            final(self).view() == with_line(
                TermView { running: None, status: TerminalStatus::Error, ..old(self).view() },
                reason@,
            ),
    {
        self.running = None;
        self.status = TerminalStatus::Error;
        self.echo(reason);
    }

    /// Once the user touches any control, a green or red verdict fades to
    /// grey; a run in progress is left alone.
    pub fn touch(&mut self)
        ensures
            final(self).view() == touched(old(self).view()),
            final(self).wf() == old(self).wf(),
    {
        if self.status == TerminalStatus::Okay || self.status == TerminalStatus::Error {
            self.status = TerminalStatus::Idle;
        }
    }

    /// Whether a command is running.
    pub fn is_running(&self) -> (r: bool)
        ensures
            r == self.view().running is Some,
    {
        self.running.is_some()
    }

    /// Flip between the bare command line and half the window; from the
    /// curtain, collapse.
    pub fn toggle_half(&mut self)
        ensures
            final(self).view() == half_toggled(old(self).view()),
            final(self).wf() == old(self).wf(),
    {
        self.size = match self.size {
            TerminalSize::Half | TerminalSize::Full => TerminalSize::Collapsed,
            TerminalSize::Collapsed => TerminalSize::Half,
        };
        self.restore_size = TerminalSize::Collapsed;
    }

    /// Esc: draw the panels aside to reveal the full terminal, taking the
    /// keyboard, and back again to whatever size was showing before.
    pub fn toggle_curtain(&mut self)
        ensures
            final(self).view() == curtain_toggled(old(self).view()),
            final(self).wf() == old(self).wf(),
    {
        if self.size == TerminalSize::Full {
            self.size = self.restore_size;
        } else {
            self.restore_size = self.size;
            self.size = TerminalSize::Full;
            self.focused = true;
        }
    }

    /// Move the keyboard to the prompt or back; with the panels hidden the
    /// prompt keeps it.
    pub fn toggle_focus(&mut self)
        ensures
            final(self).view() == if old(self).view().focused && old(self).view().size == TerminalSize::Full {
                old(self).view()
            } else {
                TermView { focused: !old(self).view().focused, ..old(self).view() }
            },
            final(self).wf() == old(self).wf(),
    {
        if self.focused && self.size == TerminalSize::Full {
            return;
        }
        self.focused = !self.focused;
    }

    /// Force the focus state; the prompt cannot lose it while the panels are
    /// hidden.
    pub fn set_focused(&mut self, focused: bool)
        ensures
            final(self).view() == if !focused && old(self).view().size == TerminalSize::Full {
                old(self).view()
            } else {
                TermView { focused, ..old(self).view() }
            },
            final(self).wf() == old(self).wf(),
    {
        if !focused && self.size == TerminalSize::Full {
            return;
        }
        self.focused = focused;
    }

    /// Whether the prompt has the keyboard.
    pub fn focused(&self) -> (r: bool)
        ensures
            r == self.view().focused,
    {
        self.focused
    }

    /// The pane size.
    pub fn size(&self) -> (r: TerminalSize)
        ensures
            r == self.view().size,
    {
        self.size
    }

    /// Re-cap the scrollback.
    pub fn set_scrollback_limit(&mut self, bytes: u64)
        requires
            old(self).wf(),
        ensures
            final(self).wf(),
            final(self).view() == (TermView {
                buffer: ScrollView {
                    lines: old(self).view().buffer.lines.skip(
                        trim_count(old(self).view().buffer.lines, bytes as int),
                    ),
                    pending: old(self).view().buffer.pending,
                    limit: bytes as int,
                },
                ..old(self).view()
            }),
    {
        self.scrollback.set_limit(bytes);
    }

    /// Empty the scrollback, queueing the delta that evicts every line.
    pub fn clear_buffer(&mut self)
        requires
            old(self).wf(),
        ensures
            final(self).wf(),
            final(self).view() == (TermView {
                buffer: cleared(old(self).view().buffer),
                chunks: old(self).view().chunks.push(clear_chunk(old(self).view().buffer)),
                ..old(self).view()
            }),
    {
        let chunk = self.scrollback.clear();
        let ghost before = self.pending_chunks@;
        self.pending_chunks.push(chunk);
        assert(chunk_views(self.pending_chunks@) =~= chunk_views(before).push(chunk_view(chunk)));
    }

    /// The whole scrollback.
    pub fn buffer(&self) -> (r: TerminalBuffer)
        ensures
            string_views(r.lines@) == self.view().buffer.lines,
            r.pending@ == self.view().buffer.pending,
    {
        self.scrollback.snapshot()
    }

    /// The renderable state; `cwd` is the active panel's directory.
    pub fn state(&self, cwd: &str) -> (r: TerminalState)
        ensures
            state_shows(self.view(), cwd@, r),
    {
        let running = match &self.running {
            Some(r) => Some(owned(r.command.as_str())),
            None => None,
        };
        TerminalState {
            input: owned(self.input.as_str()),
            input_rev: self.input_rev,
            cwd: owned(cwd),
            size: self.size,
            focused: self.focused,
            status: self.status,
            running,
            scrollback_bytes: self.scrollback.limit(),
        }
    }
}

impl Default for Terminal {
    fn default() -> (t: Self)
        ensures
            t.wf(),
            t.view() == initial(1048576, TerminalSize::Collapsed),
    {
        Terminal::new(&TerminalPrefs::default())
    }
}

// ---------------------------------------------------------------------------
// Laws
// ---------------------------------------------------------------------------

/// Feeding text completes at most one line per character.
pub proof fn lemma_feed_count(added: Seq<Seq<char>>, pend: Seq<char>, text: Seq<char>)
    ensures
        feed(added, pend, text).0.len() <= added.len() + text.len(),
    decreases text.len(),
{
    if text.len() > 0 {
        if text[0] == '\n' {
            lemma_feed_count(added.push(finished(pend)), Seq::empty(), text.drop_first());
        } else {
            lemma_feed_count(added, pend.push(text[0]), text.drop_first());
        }
    }
}

/// Writing a line (an echoed prompt, an exit footer, a failure) queues a
/// delta that keeps a mirror in step with the buffer.
pub proof fn lemma_line_keeps_mirror(base: Seq<Seq<char>>, v: TermView, line: Seq<char>)
    requires
        tracks(base, v),
        v.buffer.lines.len() + line.len() + 2 <= u32::MAX,
    ensures
        tracks(base, with_line(v, line)),
{
    let text = line_text(v.buffer.pending, line);
    lemma_feed_count(Seq::empty(), v.buffer.pending, text);
    lemma_append_delta(v.buffer, text);
    lemma_apply_chunks_push(base, v.chunks, append_chunk(v.buffer, text));
}

/// Program output queues a delta that keeps a mirror in step with the
/// buffer.
pub proof fn lemma_output_keeps_mirror(base: Seq<Seq<char>>, v: TermView, text: Seq<char>)
    requires
        tracks(base, v),
        v.buffer.lines.len() + text.len() <= u32::MAX,
    ensures
        apply_chunks(base, v.chunks.push(append_chunk(v.buffer, text))) == after_append(v.buffer, text).lines,
{
    lemma_feed_count(Seq::empty(), v.buffer.pending, text);
    lemma_append_delta(v.buffer, text);
    lemma_apply_chunks_push(base, v.chunks, append_chunk(v.buffer, text));
}

/// A clear queues a delta that empties a mirror of the buffer.
pub proof fn lemma_clear_keeps_mirror(base: Seq<Seq<char>>, v: TermView)
    requires
        tracks(base, v),
        v.buffer.lines.len() <= u32::MAX,
    ensures
        apply_chunks(base, v.chunks.push(clear_chunk(v.buffer))) == cleared(v.buffer).lines,
{
    lemma_clear_delta(v.buffer);
    lemma_apply_chunks_push(base, v.chunks, clear_chunk(v.buffer));
}

/// Submitting a command line keeps a mirror in step with the buffer, whatever
/// it turns out to mean.
pub proof fn lemma_prepare_keeps_mirror(base: Seq<Seq<char>>, v: TermView, cwd: Seq<char>, home: Seq<char>)
    requires
        tracks(base, v),
        v.buffer.lines.len() + cwd.len() + v.input.len() + 6 <= u32::MAX,
    ensures
        tracks(base, prepared(v, cwd, home).0),
{
    let command = trimmed(v.input);
    if command.len() > 0 {
        crate::text::lemma_trimmed_len(v.input);
        let line = echo_line(cwd, command);
        lemma_line_keeps_mirror(base, v, line);
        let echoed = with_line(v, line);
        let text = line_text(v.buffer.pending, line);
        lemma_feed_count(Seq::empty(), v.buffer.pending, text);
        Scrollback::lemma_trim_count(v.buffer.lines + added_lines(v.buffer, text), v.buffer.limit);
        match builtin_of(command) {
            Some(BuiltinView::Clear) => {
                lemma_clear_keeps_mirror(base, echoed);
            },
            _ => {},
        }
    }
}

/// Esc twice gives back the size that was showing.
pub proof fn lemma_curtain_round_trip(v: TermView)
    requires
        v.size != TerminalSize::Full,
    ensures
        curtain_toggled(curtain_toggled(v)).size == v.size,
        curtain_toggled(v).size == TerminalSize::Full,
        curtain_toggled(v).focused,
{
}

/// Cmd+Shift+T twice gives back the size that was showing, unless it was the
/// curtain.
pub proof fn lemma_half_round_trip(v: TermView)
    requires
        v.size != TerminalSize::Full,
    ensures
        half_toggled(half_toggled(v)).size == v.size,
        half_toggled(v).size != TerminalSize::Full,
{
}

/// A fresh terminal is in step: nothing drained, nothing queued, no lines.
pub proof fn lemma_fresh_in_step(scrollback_bytes: int, size: TerminalSize)
    ensures
        in_step(initial(scrollback_bytes, size)),
{
}

/// Draining hands out exactly the deltas that take a mirror from the lines
/// at the previous drain to the buffer, and leaves nothing queued: a drain
/// right after hands out nothing, and the mirror stays in step.
pub proof fn lemma_drain_keeps_mirror(v: TermView)
    requires
        in_step(v),
    ensures
        apply_chunks(v.drained, v.chunks) == v.buffer.lines,
        in_step(TermView { chunks: Seq::empty(), drained: v.buffer.lines, ..v }),
        (TermView { chunks: Seq::empty(), drained: v.buffer.lines, ..v }).chunks.len() == 0,
{
}

/// The newest queued delta always carries the buffer's partial line: after
/// a line, program output, a clear or a submitted command line, the last
/// delta's partial line is the buffer's.
pub proof fn lemma_last_delta_carries_pending(v: TermView, line: Seq<char>, text: Seq<char>, cwd: Seq<char>, home: Seq<char>)
    ensures
        with_line(v, line).chunks.last().pending == with_line(v, line).buffer.pending,
        v.chunks.push(append_chunk(v.buffer, text)).last().pending == after_append(v.buffer, text).pending,
        v.chunks.push(clear_chunk(v.buffer)).last().pending == cleared(v.buffer).pending,
        prepared(v, cwd, home).0.chunks.len() > 0 ==> prepared(v, cwd, home).0.chunks.last().pending == prepared(
            v,
            cwd,
            home,
        ).0.buffer.pending || prepared(v, cwd, home).0.chunks == v.chunks,
{
}

/// One call between two drains, as far as the buffer and the queue of
/// deltas see it.
pub enum TermEvent {
    /// A complete line written to the buffer: an echoed command
    /// (`begin_external`), an exit footer (`finish`), a failure (`fail`).
    Line(Seq<char>),
    /// Output from the running command, as text (`append`).
    Output(Seq<char>),
    /// The buffer emptied (`clear_buffer`).
    Clear,
    /// The command line submitted in a folder, with a home folder (`prepare`).
    Submit(Seq<char>, Seq<char>),
    /// A call that leaves the buffer, the queue and the drained lines alone
    /// (typing, recall, focus, size, a status change), and the state it
    /// leads to.
    Quiet(TermView),
}

/// The state after one call.
pub open spec fn term_step(v: TermView, e: TermEvent) -> TermView {
    match e {
        TermEvent::Line(line) => with_line(v, line),
        TermEvent::Output(text) => TermView {
            buffer: after_append(v.buffer, text),
            chunks: v.chunks.push(append_chunk(v.buffer, text)),
            ..v
        },
        TermEvent::Clear => TermView { buffer: cleared(v.buffer), chunks: v.chunks.push(clear_chunk(v.buffer)), ..v },
        TermEvent::Submit(cwd, home) => prepared(v, cwd, home).0,
        TermEvent::Quiet(w) => if w.buffer == v.buffer && w.chunks == v.chunks && w.drained == v.drained {
            w
        } else {
            v
        },
    }
}

/// The state after the calls `es`, in order.
pub open spec fn term_walk(v: TermView, es: Seq<TermEvent>) -> TermView
    decreases es.len(),
{
    if es.len() == 0 {
        v
    } else {
        term_walk(term_step(v, es[0]), es.drop_first())
    }
}

/// Whether a call's deltas report their dropped counts exactly: the lines
/// involved fit the `u32` the count is reported in.
pub open spec fn fits(v: TermView, e: TermEvent) -> bool {
    match e {
        TermEvent::Line(line) => v.buffer.lines.len() + line.len() + 2 <= u32::MAX,
        TermEvent::Output(text) => v.buffer.lines.len() + text.len() <= u32::MAX,
        TermEvent::Clear => v.buffer.lines.len() <= u32::MAX,
        TermEvent::Submit(cwd, _) => v.buffer.lines.len() + cwd.len() + v.input.len() + 6 <= u32::MAX,
        TermEvent::Quiet(_) => true,
    }
}

/// Whether every call of `es` fits, in the state it meets.
pub open spec fn fits_along(v: TermView, es: Seq<TermEvent>) -> bool {
    forall|k: int| 0 <= k < es.len() ==> fits(#[trigger] term_walk(v, es.take(k)), es[k])
}

/// Whether the newest queued delta carries the buffer's partial line.
pub open spec fn last_carries_pending(v: TermView) -> bool {
    v.chunks.len() > 0 ==> v.chunks.last().pending == v.buffer.pending
}

proof fn lemma_step_keeps_mirror(v: TermView, e: TermEvent)
    requires
        fits(v, e),
        in_step(v),
    ensures
        in_step(term_step(v, e)),
        term_step(v, e).drained == v.drained,
{
    match e {
        TermEvent::Line(line) => lemma_line_keeps_mirror(v.drained, v, line),
        TermEvent::Output(text) => lemma_output_keeps_mirror(v.drained, v, text),
        TermEvent::Clear => lemma_clear_keeps_mirror(v.drained, v),
        TermEvent::Submit(cwd, home) => lemma_prepare_keeps_mirror(v.drained, v, cwd, home),
        TermEvent::Quiet(_) => {},
    }
}

proof fn lemma_step_carries_pending(v: TermView, e: TermEvent)
    requires
        last_carries_pending(v),
    ensures
        last_carries_pending(term_step(v, e)),
{
    match e {
        TermEvent::Submit(cwd, home) => {
            lemma_last_delta_carries_pending(v, Seq::empty(), Seq::empty(), cwd, home);
        },
        _ => {},
    }
}

/// Draining folds: a mirror that starts from the lines at one drain and
/// applies, append then drop, every delta the next drain hands out holds the
/// buffer's lines, whatever calls came in between, so long as each reports
/// its dropped count exactly (no re-capping of the scrollback, which trims
/// without a delta). The newest delta carries the buffer's partial line, and
/// a drain right after hands out nothing.
pub proof fn lemma_drain_fold(v: TermView, es: Seq<TermEvent>)
    requires
        in_step(v),
        last_carries_pending(v),
        fits_along(v, es),
    ensures
        term_walk(v, es).drained == v.drained,
        apply_chunks(v.drained, term_walk(v, es).chunks) == term_walk(v, es).buffer.lines,
        last_carries_pending(term_walk(v, es)),
        in_step(TermView { chunks: Seq::empty(), drained: term_walk(v, es).buffer.lines, ..term_walk(v, es) }),
    decreases es.len(),
{
    if es.len() > 0 {
        let w = term_step(v, es[0]);
        assert(es.take(0) =~= Seq::<TermEvent>::empty());
        assert(fits(term_walk(v, es.take(0)), es[0]));
        lemma_step_keeps_mirror(v, es[0]);
        lemma_step_carries_pending(v, es[0]);
        let rest = es.drop_first();
        assert forall|k: int| 0 <= k < rest.len() implies fits(#[trigger] term_walk(w, rest.take(k)), rest[k]) by {
            assert(es.take(k + 1).drop_first() =~= rest.take(k));
            assert(es.take(k + 1)[0] == es[0]);
            assert(term_walk(v, es.take(k + 1)) == term_walk(w, rest.take(k)));
            assert(fits(term_walk(v, es.take(k + 1)), es[k + 1]));
        }
        lemma_drain_fold(w, rest);
    }
}

/// Characters a shell reads as syntax or as a word break.
pub open spec fn shell_specials() -> Seq<char> {
    seq![' ', '\t', '\n', '(', ')', '&', ';', '|', '$', '<', '>', '\'', '"', '`', '\\', '*', '?', '[', ']', '{', '}', '!', '#', '~']
}

/// A name holding any character a shell reads as syntax or a word break
/// (a space, `(`, `)`, `&`, `;`, `|`, `$`, a quote, a glob character...)
/// is inserted single-quoted, as is the empty name; a name made only of
/// ASCII letters, digits and `._-+=/@:,` is inserted as it is.
pub proof fn lemma_quote_protects_shell_syntax(name: Seq<char>)
    ensures
        (exists|i: int| 0 <= i < name.len() && shell_specials().contains(#[trigger] name[i])) ==> quoted(name)
            == seq!['\''] + escaped(name) + seq!['\''],
        name.len() == 0 ==> quoted(name) == seq!['\'', '\''],
        name.len() > 0 && (forall|i: int|
            0 <= i < name.len() ==> ('a' <= #[trigger] name[i] <= 'z') || ('A' <= name[i] <= 'Z') || ('0' <= name[i]
                <= '9') || seq!['.', '_', '-', '+', '=', '/', '@', ':', ','].contains(name[i])) ==> quoted(name) == name,
{
    if exists|i: int| 0 <= i < name.len() && shell_specials().contains(#[trigger] name[i]) {
        let i = choose|i: int| 0 <= i < name.len() && shell_specials().contains(#[trigger] name[i]);
        let k = choose|k: int| 0 <= k < shell_specials().len() && shell_specials()[k] == name[i];
        assert(!is_safe_char(name[i]));
    }
    if name.len() == 0 {
        assert(escaped(name) =~= Seq::<char>::empty());
        assert(seq!['\''] + escaped(name) + seq!['\''] =~= seq!['\'', '\'']);
    }
    if name.len() > 0 && (forall|i: int|
        0 <= i < name.len() ==> ('a' <= #[trigger] name[i] <= 'z') || ('A' <= name[i] <= 'Z') || ('0' <= name[i] <= '9')
            || seq!['.', '_', '-', '+', '=', '/', '@', ':', ','].contains(name[i])) {
        assert forall|i: int| 0 <= i < name.len() implies is_safe_char(#[trigger] name[i]) by {
            if seq!['.', '_', '-', '+', '=', '/', '@', ':', ','].contains(name[i]) {
                let k = choose|k: int| 0 <= k < 9 && seq!['.', '_', '-', '+', '=', '/', '@', ':', ','][k] == name[i];
            }
        }
    }
}

/// The word a POSIX shell reads from `s`: single quotes take everything up
/// to the next single quote literally, a backslash outside them takes the
/// next character literally, and any other character a shell reads as
/// syntax or a word break ends the reading in failure (`None`), as does an
/// unclosed quote. `quoting` says whether a single quote is open.
pub open spec fn shell_read(s: Seq<char>, quoting: bool) -> Option<Seq<char>>
    decreases s.len(),
{
    if s.len() == 0 {
        if quoting { None } else { Some(Seq::empty()) }
    } else if quoting {
        if s[0] == '\'' {
            shell_read(s.drop_first(), false)
        } else {
            match shell_read(s.drop_first(), true) {
                Some(w) => Some(seq![s[0]] + w),
                None => None,
            }
        }
    } else if s[0] == '\'' {
        shell_read(s.drop_first(), true)
    } else if s[0] == '\\' && s.len() >= 2 {
        match shell_read(s.skip(2), false) {
            Some(w) => Some(seq![s[1]] + w),
            None => None,
        }
    } else if shell_specials().contains(s[0]) {
        None
    } else {
        match shell_read(s.drop_first(), false) {
            Some(w) => Some(seq![s[0]] + w),
            None => None,
        }
    }
}

proof fn lemma_read_escaped(name: Seq<char>, rest: Seq<char>)
    ensures
        shell_read(escaped(name) + rest, true) == match shell_read(rest, true) {
            Some(w) => Some(name + w),
            None => None::<Seq<char>>,
        },
    decreases name.len(),
{
    if name.len() == 0 {
        assert(escaped(name) + rest =~= rest);
        assert(Seq::<char>::empty() + rest =~= rest);
        match shell_read(rest, true) {
            Some(w) => assert(name + w =~= w),
            None => {},
        }
    } else {
        let c = name[0];
        let tail = name.drop_first();
        lemma_read_escaped(tail, rest);
        let after = escaped(tail) + rest;
        if c == '\'' {
            let s = escaped(name) + rest;
            assert(s =~= seq!['\'', '\\', '\'', '\''] + after);
            assert(s[0] == '\'');
            let s1 = s.drop_first();
            assert(s1 =~= seq!['\\', '\'', '\''] + after);
            assert(s1[0] == '\\' && s1.len() >= 2 && s1[1] == '\'');
            let s2 = s1.skip(2);
            assert(s2 =~= seq!['\''] + after);
            assert(s2[0] == '\'');
            assert(s2.drop_first() =~= after);
            assert(shell_read(s2, false) == shell_read(after, true));
            assert(shell_read(s1, false) == match shell_read(s2, false) {
                Some(w) => Some(seq!['\''] + w),
                None => None::<Seq<char>>,
            });
            assert(shell_read(s, true) == shell_read(s1, false));
            match shell_read(rest, true) {
                Some(w) => assert(name + w =~= seq![c] + (tail + w)),
                None => {},
            }
        } else {
            let s = escaped(name) + rest;
            assert(s =~= seq![c] + after);
            assert(s.drop_first() =~= after);
            assert(s[0] == c);
            assert(shell_read(s, true) == match shell_read(after, true) {
                Some(w) => Some(seq![c] + w),
                None => None::<Seq<char>>,
            });
            match shell_read(rest, true) {
                Some(w) => assert(name + w =~= seq![c] + (tail + w)),
                None => {},
            }
        }
    }
}

proof fn lemma_read_bare(name: Seq<char>)
    requires
        forall|i: int| 0 <= i < name.len() ==> is_safe_char(#[trigger] name[i]),
    ensures
        shell_read(name, false) == Some(name),
    decreases name.len(),
{
    if name.len() > 0 {
        let c = name[0];
        assert(is_safe_char(c));
        assert(!shell_specials().contains(c)) by {
            if shell_specials().contains(c) {
                let k = choose|k: int| 0 <= k < shell_specials().len() && shell_specials()[k] == c;
            }
        }
        assert forall|i: int| 0 <= i < name.drop_first().len() implies is_safe_char(#[trigger] name.drop_first()[i]) by {
            assert(name.drop_first()[i] == name[i + 1]);
        }
        lemma_read_bare(name.drop_first());
        assert(seq![c] + name.drop_first() =~= name);
    }
}

/// Whatever the name, the shell reads the inserted text back as exactly
/// that name: quoting never changes a name and never leaves syntax exposed.
pub proof fn lemma_shell_reads_back_the_name(name: Seq<char>)
    ensures
        shell_read(quoted(name), false) == Some(name),
{
    if name.len() > 0 && forall|i: int| 0 <= i < name.len() ==> is_safe_char(#[trigger] name[i]) {
        lemma_read_bare(name);
    } else {
        let q = seq!['\''] + escaped(name) + seq!['\''];
        lemma_read_escaped(name, seq!['\'']);
        assert(seq!['\''].drop_first() =~= Seq::<char>::empty());
        assert(shell_read(Seq::<char>::empty(), false) == Some(Seq::<char>::empty()));
        assert(seq!['\''][0] == '\'');
        assert(shell_read(seq!['\''], true) == shell_read(seq!['\''].drop_first(), false));
        assert(shell_read(seq!['\''], true) == Some(Seq::<char>::empty()));
        assert(q[0] == '\'');
        assert(q.drop_first() =~= escaped(name) + seq!['\'']);
        assert(name + Seq::<char>::empty() =~= name);
    }
}

} // verus!
