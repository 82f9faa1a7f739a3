//! The terminal's scrollback buffer: a byte-capped list of whole lines.
//!
//! The cap is a byte budget, but eviction happens in whole lines, oldest
//! first, and never below [`MIN_LINES`]. Each change is reported as a line
//! delta ([`TerminalChunk`]) that the frontend applies mechanically,
//! **append then drop**: `mirror.concat(chunk.lines).slice(chunk.dropped)`.
//! A large append may evict lines it just added, so `dropped` may exceed what
//! the mirror held before.
use vstd::prelude::*;
use std::collections::VecDeque;
use vstd::utf8::encode_utf8;
use crate::text::{
    chars_of, owned, push_char, spec_utf8_lossy, split_on, split_scan, string_from_chars, string_views, utf8_lossy,
};
use crate::types::{TerminalBuffer, TerminalChunk};

verus! {

/// Bytes charged per stored line on top of its own length: its newline.
pub const LINE_OVERHEAD: usize = 1;

/// Never evict below this many lines.
pub const MIN_LINES: usize = 2;

/// UTF-8 length of a line, as `str::len` reports it.
pub open spec fn byte_len(s: Seq<char>) -> int {
    (encode_utf8(s).len() as usize) as int
}

/// Bytes charged for a list of lines.
pub open spec fn total_bytes(ls: Seq<Seq<char>>) -> int
    decreases ls.len(),
{
    if ls.len() == 0 { 0 } else { byte_len(ls[0]) + 1 + total_bytes(ls.drop_first()) }
}

/// The abstract state of a scrollback.
pub struct ScrollView {
    pub lines: Seq<Seq<char>>,
    pub pending: Seq<char>,
    pub limit: int,
}

/// A line as stored once its newline arrives: a carriage return just before
/// the newline is dropped, so CRLF output leaves no stray glyph. Carriage
/// returns anywhere else stay.
pub open spec fn finished(line: Seq<char>) -> Seq<char> {
    if line.len() > 0 && line.last() == '\r' { line.drop_last() } else { line }
}

/// Split fed text into completed lines and the new partial tail.
pub open spec fn feed(added: Seq<Seq<char>>, pend: Seq<char>, text: Seq<char>) -> (Seq<Seq<char>>, Seq<char>)
    decreases text.len(),
{
    if text.len() == 0 {
        (added, pend)
    } else if text[0] == '\n' {
        feed(added.push(finished(pend)), Seq::empty(), text.drop_first())
    } else {
        feed(added, pend.push(text[0]), text.drop_first())
    }
}

/// How many leading lines to evict so the rest fits `limit`, never going
/// below the line floor.
pub open spec fn trim_count(ls: Seq<Seq<char>>, limit: int) -> int
    decreases ls.len(),
{
    if total_bytes(ls) > limit && ls.len() > MIN_LINES {
        1 + trim_count(ls.drop_first(), limit)
    } else {
        0
    }
}

/// The lines completed by appending `text`.
pub open spec fn added_lines(v: ScrollView, text: Seq<char>) -> Seq<Seq<char>> {
    feed(Seq::empty(), v.pending, text).0
}

/// The buffer after appending `text`: lines completed, then trimmed.
pub open spec fn after_append(v: ScrollView, text: Seq<char>) -> ScrollView {
    let f = feed(Seq::empty(), v.pending, text);
    let grown = v.lines + f.0;
    ScrollView { lines: grown.skip(trim_count(grown, v.limit)), pending: f.1, limit: v.limit }
}

/// How many lines appending `text` evicts, counted after the append.
pub open spec fn dropped_by(v: ScrollView, text: Seq<char>) -> int {
    trim_count(v.lines + added_lines(v, text), v.limit)
}

/// A count as reported in a `u32`: saturating at its maximum.
pub open spec fn sat_u32(n: int) -> int {
    if n <= u32::MAX { n } else { u32::MAX as int }
}

/// The content of a delta.
pub struct ChunkView {
    pub lines: Seq<Seq<char>>,
    pub pending: Seq<char>,
    pub dropped: int,
}

/// The content of a delta value.
pub open spec fn chunk_view(c: TerminalChunk) -> ChunkView {
    ChunkView { lines: string_views(c.lines@), pending: c.pending@, dropped: c.dropped as int }
}

/// The delta reported for appending `text`: the completed lines, the new
/// partial line, and how many leading lines to drop afterwards.
pub open spec fn append_chunk(v: ScrollView, text: Seq<char>) -> ChunkView {
    ChunkView {
        lines: added_lines(v, text),
        pending: after_append(v, text).pending,
        dropped: sat_u32(dropped_by(v, text)),
    }
}

/// The delta reported for a clear: every line dropped, the count as a `u32`
/// cast gives it.
pub open spec fn clear_chunk(v: ScrollView) -> ChunkView {
    ChunkView { lines: Seq::empty(), pending: Seq::empty(), dropped: (v.lines.len() as u32) as int }
}

/// The buffer after a clear.
pub open spec fn cleared(v: ScrollView) -> ScrollView {
    ScrollView { lines: Seq::empty(), pending: Seq::empty(), limit: v.limit }
}

/// The text `append_line` feeds: the partial line flushed first, then `line`
/// and its newline.
pub open spec fn line_text(pending: Seq<char>, line: Seq<char>) -> Seq<char> {
    (if pending.len() > 0 { seq!['\n'] } else { Seq::empty() }) + line + seq!['\n']
}

/// `line` as stored once its newline arrives: see [`finished`].
fn finish_line(line: String) -> (r: String)
    ensures
        r@ == finished(line@),
{
    let cs = chars_of(line.as_str());
    let n = cs.len();
    if n > 0 && cs[n - 1] == '\r' {
        let mut kept: Vec<char> = Vec::new();
        let mut i: usize = 0;
        while i + 1 < n
            invariant
                i + 1 <= n,
                n == cs@.len(),
                kept@ == cs@.take(i as int),
            decreases n - i,
        {
            kept.push(cs[i]);
            assert(cs@.take(i + 1) =~= cs@.take(i as int).push(cs@[i as int]));
            i = i + 1;
        }
        assert(kept@ =~= line@.drop_last());
        string_from_chars(&kept)
    } else {
        line
    }
}

/// A capped, line-oriented output buffer.
#[derive(Debug)]
pub struct Scrollback {
    lines: VecDeque<String>,
    /// The trailing line not yet terminated by `\n`.
    pending: String,
    /// Sum of line lengths plus overhead, maintained incrementally.
    bytes: u128,
    limit: u64,
}

impl Scrollback {
    /// The abstract state.
    pub closed spec fn view(&self) -> ScrollView {
        ScrollView { lines: string_views(self.lines@), pending: self.pending@, limit: self.limit as int }
    }

    /// The byte count matches the lines held, and each line's length fits
    /// a `usize`.
    pub closed spec fn wf(&self) -> bool {
        &&& self.bytes as int == total_bytes(string_views(self.lines@))
        &&& forall|k: int| 0 <= k < self.lines@.len() ==> byte_len((#[trigger] self.lines@[k])@) <= usize::MAX
    }

    /// An empty buffer capped at `limit` bytes.
    pub fn new(limit: u64) -> (r: Self)
        ensures
            r.wf(),
            r.view().lines.len() == 0,
            r.view().pending.len() == 0,
            r.view().limit == limit,
    {
        let r = Scrollback { lines: VecDeque::new(), pending: String::new(), bytes: 0, limit };
        assert(string_views(r.lines@) =~= Seq::<Seq<char>>::empty());
        r
    }

    /// Append raw output bytes, returning the delta the frontend applies.
    /// Invalid UTF-8 is replaced rather than rejected, and a carriage return
    /// just before a newline is dropped from the finished line
    /// ([`finished`]); carriage returns mid-line are kept.
    pub fn append(&mut self, bytes: &[u8]) -> (chunk: TerminalChunk)
        requires
            old(self).wf(),
        ensures
            final(self).wf(),
            final(self).view() == after_append(old(self).view(), spec_utf8_lossy(bytes@)),
            chunk_view(chunk) == append_chunk(old(self).view(), spec_utf8_lossy(bytes@)),
    {
        let text = utf8_lossy(bytes);
        self.append_str(text.as_str())
    }

    /// Append text that is already valid UTF-8, returning the delta.
    pub fn append_str(&mut self, text: &str) -> (chunk: TerminalChunk)
        requires
            old(self).wf(),
        ensures
            final(self).wf(),
            final(self).view() == after_append(old(self).view(), text@),
            chunk_view(chunk) == append_chunk(old(self).view(), text@),
    {
        let ghost v0 = self.view();
        let chars = chars_of(text);
        let mut added: Vec<String> = Vec::new();
        let mut i: usize = 0;
        assert(chars@.skip(0) =~= text@);
        assert(string_views(added@) =~= Seq::<Seq<char>>::empty());
        while i < chars.len()
            invariant
                i <= chars.len(),
                chars@ == text@,
                self.wf(),
                self.limit == old(self).limit,
                string_views(self.lines@) == v0.lines + string_views(added@),
                feed(string_views(added@), self.pending@, chars@.skip(i as int)) == feed(Seq::empty(), v0.pending, text@),
            decreases chars.len() - i,
        {
            let ch = chars[i];
            assert(chars@.skip(i as int)[0] == ch);
            assert(chars@.skip(i as int).drop_first() =~= chars@.skip(i + 1));
            if ch == '\n' {
                let mut taken = String::new();
                std::mem::swap(&mut taken, &mut self.pending);
                let line = finish_line(taken);
                let ghost before = added@;
                added.push(line.clone());
                assert(string_views(added@) =~= string_views(before).push(line@));
                self.push_line(line);
                assert(string_views(self.lines@) =~= v0.lines + string_views(added@));
            } else {
                push_char(&mut self.pending, ch);
            }
            i = i + 1;
        }
        let ghost grown = string_views(self.lines@);
        let dropped = self.trim();
        TerminalChunk { lines: added, pending: owned(self.pending.as_str()), dropped }
    }

    /// Append one complete line, flushing any partial line in flight first so
    /// its last line is not swallowed into this one.
    pub fn append_line(&mut self, line: &str) -> (chunk: TerminalChunk)
        requires
            old(self).wf(),
        ensures
            final(self).wf(),
            final(self).view() == after_append(old(self).view(), line_text(old(self).view().pending, line@)),
            chunk_view(chunk) == append_chunk(old(self).view(), line_text(old(self).view().pending, line@)),
    {
        let mut text = String::new();
        let p = chars_of(self.pending.as_str());
        if p.len() > 0 {
            push_char(&mut text, '\n');
        }
        crate::text::push_str(&mut text, line);
        push_char(&mut text, '\n');
        assert(text@ =~= line_text(old(self).view().pending, line@));
        self.append_str(text.as_str())
    }

    proof fn lemma_total_push(ls: Seq<Seq<char>>, x: Seq<char>)
        ensures
            total_bytes(ls.push(x)) == total_bytes(ls) + byte_len(x) + 1,
        decreases ls.len(),
    {
        if ls.len() > 0 {
            assert(ls.push(x).drop_first() =~= ls.drop_first().push(x));
            assert(ls.push(x)[0] == ls[0]);
            Self::lemma_total_push(ls.drop_first(), x);
            assert(total_bytes(ls.push(x)) == byte_len(ls[0]) + 1 + total_bytes(ls.drop_first().push(x)));
        } else {
            let e = ls.push(x).drop_first();
            assert(e =~= Seq::<Seq<char>>::empty());
            assert(total_bytes(e) == 0);
            assert(ls.push(x)[0] == x);
            assert(total_bytes(ls) == 0);
        }
    }

    proof fn lemma_total_nonneg(ls: Seq<Seq<char>>)
        ensures
            total_bytes(ls) >= 0,
        decreases ls.len(),
    {
        if ls.len() > 0 {
            Self::lemma_total_nonneg(ls.drop_first());
        }
    }

    proof fn lemma_total_bound(ls: Seq<Seq<char>>)
        requires
            forall|k: int| 0 <= k < ls.len() ==> byte_len(#[trigger] ls[k]) <= usize::MAX,
        ensures
            0 <= total_bytes(ls) <= ls.len() * (usize::MAX + 1),
        decreases ls.len(),
    {
        if ls.len() > 0 {
            assert forall|k: int| 0 <= k < ls.drop_first().len() implies byte_len(#[trigger] ls.drop_first()[k]) <= usize::MAX by {
                assert(ls.drop_first()[k] == ls[k + 1]);
            }
            Self::lemma_total_bound(ls.drop_first());
            assert(byte_len(ls[0]) <= usize::MAX);
            let n = ls.len() as int;
            let m = usize::MAX as int;
            assert((n - 1) * (m + 1) + (m + 1) == n * (m + 1)) by (nonlinear_arith);
        }
    }

    /// Append a finished line to the store, charging its bytes.
    fn push_line(&mut self, line: String)
        requires
            old(self).wf(),
        ensures
            final(self).wf(),
            string_views(final(self).lines@) == string_views(old(self).lines@).push(line@),
            final(self).pending == old(self).pending,
            final(self).limit == old(self).limit,
    {
        let n = line.as_str().len();
        let ghost ls = string_views(self.lines@);
        let ghost l = line@;
        assert(n as int == byte_len(l));
        self.lines.push_back(line);
        let count = self.lines.len();
        assert(string_views(self.lines@) =~= ls.push(l));
        proof {
            Self::lemma_total_push(ls, l);
            let nl = string_views(self.lines@);
            assert forall|k: int| 0 <= k < nl.len() implies byte_len(#[trigger] nl[k]) <= usize::MAX by {
                if k < ls.len() {
                    assert(nl[k] == self.lines@[k]@);
                    assert(self.lines@[k] == old(self).lines@[k]);
                    assert(byte_len(old(self).lines@[k]@) <= usize::MAX);
                } else {
                    assert(nl[k] == l);
                }
            }
            Self::lemma_total_bound(nl);
            let c = count as int;
            let m = usize::MAX as int;
            assert(c * (m + 1) <= m * (m + 1)) by (nonlinear_arith)
                requires
                    0 <= c <= m,
            ;
            assert(m * (m + 1) < u128::MAX) by (nonlinear_arith)
                requires
                    m <= 0xffff_ffff_ffff_ffff,
                    m >= 0,
            ;
        }
        self.bytes = self.bytes + (n as u128) + 1;
    }

    /// Eviction stops within the list, and leaves it within the cap or at the
    /// line floor.
    pub proof fn lemma_trim_count(ls: Seq<Seq<char>>, limit: int)
        ensures
            0 <= trim_count(ls, limit) <= ls.len(),
            total_bytes(ls.skip(trim_count(ls, limit))) <= limit || ls.len() - trim_count(ls, limit) <= MIN_LINES,
        decreases ls.len(),
    {
        if total_bytes(ls) > limit && ls.len() > MIN_LINES {
            Self::lemma_trim_count(ls.drop_first(), limit);
            assert(ls.skip(trim_count(ls, limit)) =~= ls.drop_first().skip(trim_count(ls.drop_first(), limit)));
        } else {
            assert(ls.skip(0) =~= ls);
        }
    }

    /// Evict whole lines from the front until the buffer fits its cap,
    /// keeping at least the line floor. Returns how many were dropped.
    fn trim(&mut self) -> (d: u32)
        requires
            old(self).wf(),
        ensures
            final(self).wf(),
            string_views(final(self).lines@) == string_views(old(self).lines@).skip(
                trim_count(string_views(old(self).lines@), old(self).limit as int),
            ),
            d as int == sat_u32(trim_count(string_views(old(self).lines@), old(self).limit as int)),
            final(self).pending == old(self).pending,
            final(self).limit == old(self).limit,
    {
        let ghost l0 = string_views(self.lines@);
        let ghost mut k: int = 0;
        let mut dropped: u32 = 0;
        assert(l0.skip(0) =~= l0);
        while self.bytes > self.limit as u128 && self.lines.len() > MIN_LINES
            invariant
                self.wf(),
                self.limit == old(self).limit,
                self.pending == old(self).pending,
                0 <= k <= l0.len(),
                string_views(self.lines@) == l0.skip(k),
                trim_count(l0, self.limit as int) == k + trim_count(l0.skip(k), self.limit as int),
                dropped as int == if k <= u32::MAX { k } else { u32::MAX as int },
            decreases self.lines@.len(),
        {
            let ghost cur = string_views(self.lines@);
            let ghost raw = self.lines@;
            match self.lines.pop_front() {
                Some(line) => {
                    let n = line.as_str().len();
                    assert(cur[0] == line@);
                    assert(n as int == byte_len(line@));
                    proof { Self::lemma_total_nonneg(cur.drop_first()); }
                    assert(string_views(self.lines@) =~= cur.drop_first());
                    assert(l0.skip(k + 1) =~= cur.drop_first());
                    proof {
                        assert forall|j: int| 0 <= j < self.lines@.len() implies byte_len((#[trigger] self.lines@[j])@) <= usize::MAX by {
                            assert(self.lines@[j] == raw[j + 1]);
                        }
                    }
                    self.bytes = self.bytes - (n as u128) - 1;
                    dropped = dropped.saturating_add(1);
                    proof { k = k + 1; }
                },
                None => {},
            }
        }
        dropped
    }

    /// Re-cap the buffer and trim to the new cap at once. The frontend
    /// re-pulls the whole buffer afterwards, so no delta is returned.
    pub fn set_limit(&mut self, limit: u64)
        requires
            old(self).wf(),
        ensures
            final(self).wf(),
            final(self).view().lines == old(self).view().lines.skip(trim_count(old(self).view().lines, limit as int)),
            final(self).view().pending == old(self).view().pending,
            final(self).view().limit == limit,
    {
        self.limit = limit;
        self.trim();
    }

    /// The byte cap.
    pub fn limit(&self) -> (r: u64)
        ensures
            r as int == self.view().limit,
    {
        self.limit
    }

    /// Drop everything (`clear` / Ctrl+L), reported as an ordinary delta that
    /// evicts every line.
    pub fn clear(&mut self) -> (chunk: TerminalChunk)
        requires
            old(self).wf(),
        ensures
            final(self).wf(),
            final(self).view() == cleared(old(self).view()),
            chunk_view(chunk) == clear_chunk(old(self).view()),
    {
        let n = self.lines.len();
        let dropped: u32 = #[verifier::truncate] (n as u32);
        self.lines.clear();
        self.pending = String::new();
        self.bytes = 0;
        assert(string_views(self.lines@) =~= Seq::<Seq<char>>::empty());
        let chunk = TerminalChunk { lines: Vec::new(), pending: String::new(), dropped };
        assert(string_views(chunk.lines@) =~= Seq::<Seq<char>>::empty());
        assert(self.view().lines =~= Seq::<Seq<char>>::empty());
        chunk
    }

    /// The whole buffer, for the frontend's initial sync and re-sync.
    pub fn snapshot(&self) -> (r: TerminalBuffer)
        ensures
            string_views(r.lines@) == self.view().lines,
            r.pending@ == self.view().pending,
    {
        let mut out: Vec<String> = Vec::new();
        let mut i: usize = 0;
        while i < self.lines.len()
            invariant
                i <= self.lines@.len(),
                out@.len() == i,
                forall|k: int| 0 <= k < i ==> (#[trigger] out@[k])@ == self.lines@[k]@,
            decreases self.lines@.len() - i,
        {
            out.push(self.lines[i].clone());
            i = i + 1;
        }
        assert(string_views(out@) =~= string_views(self.lines@));
        TerminalBuffer { lines: out, pending: self.pending.clone() }
    }
}

impl Default for Scrollback {
    fn default() -> (r: Self)
        ensures
            r.wf(),
            r.view().lines.len() == 0,
            r.view().pending.len() == 0,
            r.view().limit == 1048576,
    {
        Scrollback::new(1048576)
    }
}

// ---------------------------------------------------------------------------
// Laws
// ---------------------------------------------------------------------------

/// The frontend's mirror stays exact: appending the chunk's lines to a
/// mirror equal to the old buffer and then dropping `dropped` leading lines
/// gives the new buffer, even when the eviction reaches into the lines just
/// added.
pub proof fn lemma_mirror_follows(v: ScrollView, text: Seq<char>)
    ensures
        (v.lines + added_lines(v, text)).skip(dropped_by(v, text)) == after_append(v, text).lines,
        after_append(v, text).pending == feed(Seq::empty(), v.pending, text).1,
{
}

/// After any append the buffer fits its cap, or is down to the line floor.
pub proof fn lemma_append_respects_cap(v: ScrollView, text: Seq<char>)
    ensures
        total_bytes(after_append(v, text).lines) <= v.limit || after_append(v, text).lines.len() <= MIN_LINES,
{
    let f = feed(Seq::empty(), v.pending, text);
    Scrollback::lemma_trim_count(v.lines + f.0, v.limit);
}

/// A mirror's lines after applying one delta: append, then drop (no more
/// than there are).
pub open spec fn apply_chunk(lines: Seq<Seq<char>>, c: ChunkView) -> Seq<Seq<char>> {
    let grown = lines + c.lines;
    grown.skip(if c.dropped <= grown.len() { c.dropped } else { grown.len() as int })
}

/// A mirror's lines after applying deltas in order.
pub open spec fn apply_chunks(lines: Seq<Seq<char>>, cs: Seq<ChunkView>) -> Seq<Seq<char>>
    decreases cs.len(),
{
    if cs.len() == 0 { lines } else { apply_chunks(apply_chunk(lines, cs[0]), cs.drop_first()) }
}

/// Applying one more delta after a run of them.
pub proof fn lemma_apply_chunks_push(lines: Seq<Seq<char>>, cs: Seq<ChunkView>, c: ChunkView)
    ensures
        apply_chunks(lines, cs.push(c)) == apply_chunk(apply_chunks(lines, cs), c),
    decreases cs.len(),
{
    if cs.len() == 0 {
        let e = cs.push(c).drop_first();
        assert(e =~= Seq::<ChunkView>::empty());
        assert(cs.push(c)[0] == c);
        assert(apply_chunks(apply_chunk(lines, c), e) == apply_chunk(lines, c));
    } else {
        assert(cs.push(c).drop_first() =~= cs.drop_first().push(c));
        assert(cs.push(c)[0] == cs[0]);
        lemma_apply_chunks_push(apply_chunk(lines, cs[0]), cs.drop_first(), c);
    }
}

/// The delta of an append takes a mirror of the buffer to the new buffer,
/// as long as the eviction count fits the delta's counter.
pub proof fn lemma_append_delta(v: ScrollView, text: Seq<char>)
    requires
        v.lines.len() + added_lines(v, text).len() <= u32::MAX,
    ensures
        apply_chunk(v.lines, append_chunk(v, text)) == after_append(v, text).lines,
        append_chunk(v, text).pending == after_append(v, text).pending,
{
    Scrollback::lemma_trim_count(v.lines + added_lines(v, text), v.limit);
}

/// The delta of a clear empties a mirror of the buffer.
pub proof fn lemma_clear_delta(v: ScrollView)
    requires
        v.lines.len() <= u32::MAX,
    ensures
        apply_chunk(v.lines, clear_chunk(v)) == cleared(v).lines,
{
    let g = v.lines + Seq::<Seq<char>>::empty();
    assert(g.skip(g.len() as int) =~= Seq::<Seq<char>>::empty());
}

/// Every piece but the last as a finished line; the last as it is.
pub open spec fn finish_init(parts: Seq<Seq<char>>) -> Seq<Seq<char>> {
    Seq::new(parts.len(), |i: int| if i < parts.len() - 1 { finished(parts[i]) } else { parts[i] })
}

/// Each piece as a finished line.
pub open spec fn finish_all(parts: Seq<Seq<char>>) -> Seq<Seq<char>> {
    Seq::new(parts.len(), |i: int| finished(parts[i]))
}

proof fn lemma_feed_scan(done: Seq<Seq<char>>, cur: Seq<char>, text: Seq<char>)
    ensures
        feed(finish_all(done), cur, text).0.push(feed(finish_all(done), cur, text).1) == finish_init(
            split_scan(done, cur, text, '\n'),
        ),
    decreases text.len(),
{
    if text.len() == 0 {
        assert(finish_all(done).push(cur) =~= finish_init(done.push(cur)));
    } else if text[0] == '\n' {
        assert(finish_all(done.push(cur)) =~= finish_all(done).push(finished(cur)));
        lemma_feed_scan(done.push(cur), Seq::empty(), text.drop_first());
    } else {
        lemma_feed_scan(done, cur.push(text[0]), text.drop_first());
    }
}

proof fn lemma_scan_carries(done: Seq<Seq<char>>, cur: Seq<char>, p: Seq<char>, text: Seq<char>)
    requires
        !p.contains('\n'),
    ensures
        split_scan(done, cur, p + text, '\n') == split_scan(done, cur + p, text, '\n'),
    decreases p.len(),
{
    if p.len() == 0 {
        assert(p + text =~= text);
        assert(cur + p =~= cur);
    } else {
        assert(p[0] != '\n') by {
            assert(p.contains(p[0]));
        }
        assert((p + text)[0] == p[0]);
        assert((p + text).drop_first() =~= p.drop_first() + text);
        assert(!p.drop_first().contains('\n')) by {
            if p.drop_first().contains('\n') {
                let k = choose|k: int| 0 <= k < p.drop_first().len() && p.drop_first()[k] == '\n';
                assert(p[k + 1] == '\n');
            }
        }
        lemma_scan_carries(done, cur.push(p[0]), p.drop_first(), text);
        assert(cur.push(p[0]) + p.drop_first() =~= cur + p);
    }
}

/// Appending splits the partial line, continued by the new text, at every
/// newline, as `str::split` does: every piece but the last is a completed
/// line (a carriage return before its newline dropped) and the last is the
/// new partial line.
pub proof fn lemma_append_splits_lines(v: ScrollView, text: Seq<char>)
    requires
        !v.pending.contains('\n'),
    ensures
        added_lines(v, text).push(after_append(v, text).pending) == finish_init(split_on(v.pending + text, '\n')),
{
    assert(finish_all(Seq::<Seq<char>>::empty()) =~= Seq::<Seq<char>>::empty());
    lemma_feed_scan(Seq::empty(), v.pending, text);
    lemma_scan_carries(Seq::empty(), Seq::empty(), v.pending, text);
    assert(Seq::<char>::empty() + v.pending =~= v.pending);
}

/// A clear reports every line dropped and starts the byte count over: an
/// append after it that completes no more than the line floor evicts
/// nothing, whatever the buffer held before.
pub proof fn lemma_clear_restarts(v: ScrollView, text: Seq<char>)
    requires
        added_lines(cleared(v), text).len() <= MIN_LINES,
    ensures
        clear_chunk(v).dropped == (v.lines.len() as u32) as int,
        v.lines.len() <= u32::MAX ==> clear_chunk(v).dropped == v.lines.len(),
        clear_chunk(v).lines.len() == 0,
        append_chunk(cleared(v), text).dropped == 0,
{
    let added = added_lines(cleared(v), text);
    assert(cleared(v).lines + added =~= added);
}

} // verus!
