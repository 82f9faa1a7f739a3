//! Command history for the terminal prompt.
//!
//! Up walks backwards through the list, Down walks forward, and stepping past
//! the newest entry restores the line the user was typing before recall
//! started: that draft is never lost to an accidental Up. The list is persisted
//! as a plain newline-delimited file; reading and writing it is the caller's
//! business, turning it into a history and back is done here.
use vstd::prelude::*;
use crate::text::{chars_of, is_ws_exec, string_views, owned, push_char, push_str, str_eq, string_from_chars, trim_end_at, trim_str, trimmed};

verus! {

/// How many commands to remember.
pub const MAX_ENTRIES: usize = 500;

/// Whether a command line is blank (only whitespace).
pub open spec fn is_blank(s: Seq<char>) -> bool {
    trimmed(s).len() == 0
}

/// The newest `MAX_ENTRIES` of a list.
pub open spec fn capped(s: Seq<Seq<char>>) -> Seq<Seq<char>> {
    if s.len() > MAX_ENTRIES { s.skip(s.len() - MAX_ENTRIES) } else { s }
}

/// The list after recording `cmd`: blanks and a repeat of the newest entry are
/// ignored, and the oldest entries fall off past the cap.
pub open spec fn recorded(entries: Seq<Seq<char>>, cmd: Seq<char>) -> Seq<Seq<char>> {
    if is_blank(cmd) || (entries.len() > 0 && entries.last() == cmd) {
        entries
    } else {
        capped(entries.push(cmd))
    }
}

/// The list after recording each of `cmds` in order.
pub open spec fn recorded_all(entries: Seq<Seq<char>>, cmds: Seq<Seq<char>>) -> Seq<Seq<char>>
    decreases cmds.len(),
{
    if cmds.len() == 0 { entries } else { recorded_all(recorded(entries, cmds[0]), cmds.drop_first()) }
}

/// What every recorded list looks like: within the cap, no blank entry, and
/// no entry equal to the one before it.
pub open spec fn clean(s: Seq<Seq<char>>) -> bool {
    &&& s.len() <= MAX_ENTRIES
    &&& forall|i: int| 0 <= i < s.len() ==> !is_blank(#[trigger] s[i])
    &&& forall|i: int| 0 < i < s.len() ==> #[trigger] s[i] != s[i - 1]
}

/// `cur` with trailing whitespace removed, added to `acc` unless that leaves
/// it empty.
pub open spec fn flush_line(acc: Seq<Seq<char>>, cur: Seq<char>) -> Seq<Seq<char>> {
    let t = cur.take(trim_end_at(cur));
    if t.len() == 0 { acc } else { acc.push(t) }
}

/// The non-blank lines of `text` after `acc`, each without trailing
/// whitespace, `cur` being the line read so far.
pub open spec fn file_lines(acc: Seq<Seq<char>>, cur: Seq<char>, text: Seq<char>) -> Seq<Seq<char>>
    decreases text.len(),
{
    if text.len() == 0 {
        flush_line(acc, cur)
    } else if text[0] == '\n' {
        file_lines(flush_line(acc, cur), Seq::empty(), text.drop_first())
    } else {
        file_lines(acc, cur.push(text[0]), text.drop_first())
    }
}

/// The history file's text: each entry followed by a newline.
pub open spec fn file_text(entries: Seq<Seq<char>>) -> Seq<char>
    decreases entries.len(),
{
    if entries.len() == 0 {
        Seq::empty()
    } else {
        entries[0] + seq!['\n'] + file_text(entries.drop_first())
    }
}

/// The abstract state of a history.
pub struct HistoryView {
    /// Oldest first.
    pub entries: Seq<Seq<char>>,
    /// Steps back from the newest; 0 means not recalling.
    pub offset: int,
    /// What was typed before recall started.
    pub draft: Seq<char>,
}

/// Up: the new state and the recalled line.
pub open spec fn prev_of(v: HistoryView, current: Seq<char>) -> (HistoryView, Option<Seq<char>>) {
    if v.entries.len() == 0 || v.offset >= v.entries.len() {
        (v, None)
    } else {
        let draft = if v.offset == 0 { current } else { v.draft };
        let off = v.offset + 1;
        (HistoryView { entries: v.entries, offset: off, draft }, Some(v.entries[v.entries.len() - off]))
    }
}

/// Down: the new state and the recalled line; past the newest entry it gives
/// back the draft once.
pub open spec fn next_of(v: HistoryView) -> (HistoryView, Option<Seq<char>>) {
    if v.offset == 0 {
        (v, None)
    } else if v.offset == 1 {
        (HistoryView { entries: v.entries, offset: 0, draft: Seq::empty() }, Some(v.draft))
    } else {
        let off = v.offset - 1;
        (HistoryView { entries: v.entries, offset: off, draft: v.draft }, Some(v.entries[v.entries.len() - off]))
    }
}

/// The text of an optional string.
pub open spec fn opt_text(o: Option<String>) -> Option<Seq<char>> {
    match o {
        Some(s) => Some(s@),
        None => None,
    }
}

/// Recallable command list plus the cursor Up/Down walks.
#[derive(Debug, Clone)]
pub struct History {
    entries: Vec<String>,
    offset: usize,
    draft: String,
}

impl History {
    /// The abstract state.
    pub closed spec fn view(&self) -> HistoryView {
        HistoryView { entries: string_views(self.entries@), offset: self.offset as int, draft: self.draft@ }
    }

    /// The cursor stays within the list, and the list is clean.
    pub closed spec fn wf(&self) -> bool {
        &&& self.offset <= self.entries@.len()
        &&& clean(string_views(self.entries@))
    }

    /// An empty history.
    pub fn empty() -> (h: Self)
        ensures
            h.wf(),
            h.view().entries.len() == 0,
            h.view().offset == 0,
            h.view().draft.len() == 0,
    {
        let h = History { entries: Vec::new(), offset: 0, draft: String::new() };
        assert(string_views(h.entries@) =~= Seq::<Seq<char>>::empty());
        h
    }

    /// A history holding `entries`, recorded one by one as `push` would.
    pub fn from_entries(entries: Vec<String>) -> (h: Self)
        ensures
            h.wf(),
            h.view().entries == recorded_all(Seq::empty(), string_views(entries@)),
            h.view().offset == 0,
            h.view().draft.len() == 0,
    {
        let mut h = History::empty();
        let mut i: usize = 0;
        let ghost all = string_views(entries@);
        assert(all.skip(0) =~= all);
        assert(h.view().entries =~= Seq::<Seq<char>>::empty());
        while i < entries.len()
            invariant
                i <= entries@.len(),
                all == string_views(entries@),
                h.wf(),
                h.view().offset == 0,
                h.view().draft.len() == 0,
                recorded_all(h.view().entries, all.skip(i as int)) == recorded_all(Seq::empty(), all),
            decreases entries@.len() - i,
        {
            assert(all.skip(i as int)[0] == entries@[i as int]@);
            assert(all.skip(i as int).drop_first() =~= all.skip(i + 1));
            let e = owned(entries[i].as_str());
            h.push(e);
            i = i + 1;
        }
        h
    }

    /// Record a command that was just run and reset the recall cursor.
    /// Consecutive duplicates are collapsed, blank input is ignored, and the
    /// list is capped at `MAX_ENTRIES`.
    pub fn push(&mut self, command: String)
        requires
            old(self).wf(),
        ensures
            final(self).wf(),
            final(self).view() == (HistoryView {
                entries: recorded(old(self).view().entries, command@),
                offset: 0,
                draft: Seq::empty(),
            }),
    {
        self.reset();
        let t = trim_str(command.as_str());
        if t.len() == 0 {
            return;
        }
        let n = self.entries.len();
        if n > 0 && str_eq(self.entries[n - 1].as_str(), command.as_str()) {
            assert(string_views(self.entries@).last() == command@);
            return;
        }
        let ghost before = string_views(self.entries@);
        self.entries.push(command);
        assert(string_views(self.entries@) =~= before.push(command@));
        if self.entries.len() > MAX_ENTRIES {
            let ghost grown = string_views(self.entries@);
            self.entries.remove(0);
            assert(string_views(self.entries@) =~= grown.skip(1));
        }
    }

    /// Up: step backwards. Returns the recalled line, or `None` at the oldest
    /// entry. On the first step `current` becomes the saved draft.
    pub fn prev(&mut self, current: &str) -> (r: Option<String>)
        requires
            old(self).wf(),
        ensures
            final(self).wf(),
            final(self).view() == prev_of(old(self).view(), current@).0,
            opt_text(r) == prev_of(old(self).view(), current@).1,
    {
        if self.entries.len() == 0 || self.offset >= self.entries.len() {
            return None;
        }
        if self.offset == 0 {
            self.draft = owned(current);
        }
        self.offset = self.offset + 1;
        let k = self.entries.len() - self.offset;
        Some(self.entries[k].clone())
    }

    /// Down: step forwards. Past the newest entry this returns the saved draft
    /// once, then `None`.
    pub fn next(&mut self) -> (r: Option<String>)
        requires
            old(self).wf(),
        ensures
            final(self).wf(),
            final(self).view() == next_of(old(self).view()).0,
            opt_text(r) == next_of(old(self).view()).1,
    {
        if self.offset == 0 {
            None
        } else if self.offset == 1 {
            self.offset = 0;
            let mut d = String::new();
            std::mem::swap(&mut d, &mut self.draft);
            Some(d)
        } else {
            self.offset = self.offset - 1;
            let k = self.entries.len() - self.offset;
            Some(self.entries[k].clone())
        }
    }

    /// Abandon recall without changing the list.
    pub fn reset(&mut self)
        requires
            old(self).wf(),
        ensures
            final(self).wf(),
            final(self).view() == (HistoryView { entries: old(self).view().entries, offset: 0, draft: Seq::empty() }),
    {
        self.offset = 0;
        self.draft = String::new();
        assert(self.draft@ =~= Seq::<char>::empty());
    }

    /// The history stored in a history file's `text`: its non-blank lines,
    /// trailing whitespace removed, recorded in order.
    pub fn from_text(text: &str) -> (h: Self)
        ensures
            h.wf(),
            h.view().entries == recorded_all(Seq::empty(), file_lines(Seq::empty(), Seq::empty(), text@)),
            h.view().offset == 0,
            h.view().draft.len() == 0,
    {
        let chars = chars_of(text);
        let mut lines: Vec<String> = Vec::new();
        let mut cur: Vec<char> = Vec::new();
        let mut i: usize = 0;
        assert(chars@.skip(0) =~= text@);
        assert(string_views(lines@) =~= Seq::<Seq<char>>::empty());
        while i < chars.len()
            invariant
                i <= chars@.len(),
                chars@ == text@,
                file_lines(string_views(lines@), cur@, chars@.skip(i as int)) == file_lines(Seq::empty(), Seq::empty(), text@),
            decreases chars@.len() - i,
        {
            let c = chars[i];
            assert(chars@.skip(i as int)[0] == c);
            assert(chars@.skip(i as int).drop_first() =~= chars@.skip(i + 1));
            if c == '\n' {
                Self::flush_into(&mut lines, &cur);
                cur = Vec::new();
            } else {
                cur.push(c);
            }
            i = i + 1;
        }
        assert(chars@.skip(i as int) =~= Seq::<char>::empty());
        Self::flush_into(&mut lines, &cur);
        History::from_entries(lines)
    }

    /// Add `cur`, trailing whitespace removed, to `lines` unless that leaves it
    /// empty.
    fn flush_into(lines: &mut Vec<String>, cur: &Vec<char>)
        ensures
            string_views(final(lines)@) == flush_line(string_views(old(lines)@), cur@),
    {
        let mut e: usize = cur.len();
        assert(cur@.take(cur.len() as int) =~= cur@);
        while e > 0 && is_ws_exec(cur[e - 1])
            invariant
                e <= cur.len(),
                trim_end_at(cur@) == trim_end_at(cur@.take(e as int)),
            decreases e,
        {
            assert(cur@.take(e as int).drop_last() =~= cur@.take(e - 1));
            e = e - 1;
        }
        assert(trim_end_at(cur@.take(e as int)) == e);
        if e > 0 {
            let mut t: Vec<char> = Vec::new();
            let mut k: usize = 0;
            while k < e
                invariant
                    k <= e,
                    e <= cur.len(),
                    t@ == cur@.take(k as int),
                decreases e - k,
            {
                t.push(cur[k]);
                assert(cur@.take(k as int).push(cur@[k as int]) =~= cur@.take(k + 1));
                k = k + 1;
            }
            let line = string_from_chars(&t);
            let ghost before = string_views(lines@);
            lines.push(line);
            assert(string_views(lines@) =~= before.push(cur@.take(e as int)));
        }
    }

    /// The text of the history file: each entry followed by a newline.
    pub fn to_text(&self) -> (r: String)
        ensures
            r@ == file_text(self.view().entries),
    {
        let mut i: usize = self.entries.len();
        let ghost es = string_views(self.entries@);
        assert(es.skip(es.len() as int) =~= Seq::<Seq<char>>::empty());
        let mut acc = String::new();
        while i > 0
            invariant
                i <= self.entries@.len(),
                es == string_views(self.entries@),
                acc@ == file_text(es.skip(i as int)),
            decreases i,
        {
            let mut piece = owned(self.entries[i - 1].as_str());
            push_char(&mut piece, '\n');
            push_str(&mut piece, acc.as_str());
            assert(es.skip(i - 1).drop_first() =~= es.skip(i as int));
            assert(es.skip(i - 1)[0] == es[i - 1]);
            acc = piece;
            i = i - 1;
        }
        assert(es.skip(0) =~= es);
        acc
    }

    /// The recorded commands, oldest first.
    pub fn entries(&self) -> (r: &[String])
        ensures
            string_views(r@) == self.view().entries,
    {
        self.entries.as_slice()
    }
}

impl Default for History {
    fn default() -> (h: Self)
        ensures
            h.wf(),
            h.view().entries.len() == 0,
            h.view().offset == 0,
            h.view().draft.len() == 0,
    {
        History::empty()
    }
}

// ---------------------------------------------------------------------------
// Laws
// ---------------------------------------------------------------------------

/// Down undoes Up: after a successful Up, Down returns to the same position,
/// giving back the line the user was typing when recall started there.
pub proof fn lemma_down_undoes_up(v: HistoryView, current: Seq<char>)
    requires
        0 <= v.offset < v.entries.len(),
    ensures
        next_of(prev_of(v, current).0).0.entries == v.entries,
        next_of(prev_of(v, current).0).0.offset == v.offset,
        v.offset > 0 ==> next_of(prev_of(v, current).0).0 == v,
        v.offset == 0 ==> next_of(prev_of(v, current).0).1 == Some(current),
        v.offset > 0 ==> next_of(prev_of(v, current).0).1 == Some(v.entries[v.entries.len() - v.offset]),
{
}

/// Recording keeps a list clean, and a non-blank command becomes the newest
/// entry.
pub proof fn lemma_recorded_clean(entries: Seq<Seq<char>>, cmd: Seq<char>)
    requires
        clean(entries),
    ensures
        clean(recorded(entries, cmd)),
        !is_blank(cmd) ==> recorded(entries, cmd).last() == cmd,
        recorded(entries, cmd).len() <= MAX_ENTRIES,
{
    if !(is_blank(cmd) || (entries.len() > 0 && entries.last() == cmd)) {
        let g = entries.push(cmd);
        assert(g.last() == cmd);
        if g.len() > MAX_ENTRIES {
            assert(g.skip(1).last() == cmd);
        }
    }
}

/// Scanning a piece of text without newlines only extends the current line.
proof fn lemma_scan_piece(acc: Seq<Seq<char>>, cur: Seq<char>, w: Seq<char>, rest: Seq<char>)
    requires
        forall|k: int| 0 <= k < w.len() ==> w[k] != '\n',
    ensures
        file_lines(acc, cur, w + rest) == file_lines(acc, cur + w, rest),
    decreases w.len(),
{
    if w.len() > 0 {
        assert((w + rest)[0] == w[0]);
        assert((w + rest).drop_first() =~= w.drop_first() + rest);
        lemma_scan_piece(acc, cur.push(w[0]), w.drop_first(), rest);
        assert(cur.push(w[0]) + w.drop_first() =~= cur + w);
    } else {
        assert(w + rest =~= rest);
        assert(cur + w =~= cur);
    }
}

/// A line without trailing whitespace is kept whole.
proof fn lemma_trim_end_noop(e: Seq<char>)
    requires
        e.len() > 0,
        !crate::text::is_ws(e.last()),
    ensures
        e.take(trim_end_at(e)) == e,
{
    assert(e.take(e.len() as int) =~= e);
}

/// The lines of a history file, read back, are the entries written.
proof fn lemma_read_back(acc: Seq<Seq<char>>, entries: Seq<Seq<char>>)
    requires
        forall|i: int| 0 <= i < entries.len() ==> (#[trigger] entries[i]).len() > 0 && !crate::text::is_ws(entries[i].last()),
        forall|i: int, k: int| 0 <= i < entries.len() && 0 <= k < entries[i].len() ==> (#[trigger] entries[i][k]) != '\n',
    ensures
        file_lines(acc, Seq::empty(), file_text(entries)) == acc + entries,
    decreases entries.len(),
{
    if entries.len() == 0 {
        assert(acc + entries =~= acc);
    } else {
        let e = entries[0];
        let rest = file_text(entries.drop_first());
        assert(file_text(entries) == e + seq!['\n'] + rest);
        assert(e + seq!['\n'] + rest =~= e + (seq!['\n'] + rest));
        assert forall|k: int| 0 <= k < e.len() implies e[k] != '\n' by {
            assert(entries[0][k] != '\n');
        }
        lemma_scan_piece(acc, Seq::empty(), e, seq!['\n'] + rest);
        assert(Seq::<char>::empty() + e =~= e);
        assert((seq!['\n'] + rest)[0] == '\n');
        assert((seq!['\n'] + rest).drop_first() =~= rest);
        lemma_trim_end_noop(e);
        assert(flush_line(acc, e) == acc.push(e));
        assert forall|i: int| 0 <= i < entries.drop_first().len() implies (#[trigger] entries.drop_first()[i]).len() > 0
            && !crate::text::is_ws(entries.drop_first()[i].last()) by {
            assert(entries.drop_first()[i] == entries[i + 1]);
        }
        assert forall|i: int, k: int| 0 <= i < entries.drop_first().len() && 0 <= k < entries.drop_first()[i].len()
            implies (#[trigger] entries.drop_first()[i][k]) != '\n' by {
            assert(entries.drop_first()[i] == entries[i + 1]);
        }
        lemma_read_back(acc.push(e), entries.drop_first());
        assert(acc.push(e) + entries.drop_first() =~= acc + entries);
    }
}

/// Recording a clean list one by one rebuilds it.
proof fn lemma_record_clean_list(s: Seq<Seq<char>>, k: int)
    requires
        clean(s),
        0 <= k <= s.len(),
    ensures
        recorded_all(s.take(k), s.skip(k)) == s,
    decreases s.len() - k,
{
    if k == s.len() {
        assert(s.take(k) =~= s);
    } else {
        assert(s.skip(k)[0] == s[k]);
        assert(s.skip(k).drop_first() =~= s.skip(k + 1));
        assert(!is_blank(s[k]));
        if k > 0 {
            assert(s.take(k).last() == s[k - 1]);
        }
        assert(s.take(k).push(s[k]) =~= s.take(k + 1));
        assert(recorded(s.take(k), s[k]) == s.take(k + 1));
        lemma_record_clean_list(s, k + 1);
    }
}

/// Saving a history and loading the file back gives the same commands, for
/// commands that hold no newline and end in no whitespace.
pub proof fn lemma_file_round_trip(entries: Seq<Seq<char>>)
    requires
        clean(entries),
        forall|i: int| 0 <= i < entries.len() ==> (#[trigger] entries[i]).len() > 0 && !crate::text::is_ws(entries[i].last()),
        forall|i: int, k: int| 0 <= i < entries.len() && 0 <= k < entries[i].len() ==> (#[trigger] entries[i][k]) != '\n',
    ensures
        recorded_all(Seq::empty(), file_lines(Seq::empty(), Seq::empty(), file_text(entries))) == entries,
{
    lemma_read_back(Seq::empty(), entries);
    assert(Seq::<Seq<char>>::empty() + entries =~= entries);
    lemma_record_clean_list(entries, 0);
    assert(entries.take(0) =~= Seq::<Seq<char>>::empty());
    assert(entries.skip(0) =~= entries);
}

} // verus!
