//! The decisions of a viewer session over a file too large to hold: which
//! window to read next when searching, where a motion moves the top of the
//! page, how far a render reads, and when the line index chases a jump. The
//! caller owns the file, reads the windows these name, and reports back what
//! it found.
use vstd::prelude::*;
use crate::types::ViewMotion;

verus! {

/// The size of a window read for rendering, searching and indexing.
pub const READ_CHUNK: usize = 65536;

/// The largest read one render grows to for a single long line.
pub const MAX_RENDER_READ: usize = 4194304;

/// How far ahead of what is indexed a downward jump still has the line index
/// catch up.
pub const INDEX_CHASE_LIMIT: u64 = 4194304;

/// The horizontal scroll step, in characters.
pub const COL_STEP: u64 = 8;

/// What a search does after looking in one window.
#[derive(Debug, Clone, Copy, PartialEq, Eq, Structural)]
pub enum FindStep {
    /// The match starts at this file offset.
    Found(u64),
    /// Read the next window: from this offset going forward, or ending here
    /// going backward.
    Next(u64),
    /// The file holds no further match.
    Done,
}

/// Where a forward search reads first: one character past the top of the
/// page, so the match showing there is not found again.
pub fn find_forward_from(top: u64, unit: u64) -> (r: u64)
    requires
        top + unit <= u64::MAX,
    ensures
        r == top + unit,
{
    top + unit
}

/// A forward search after the window of `read_len` bytes at `at`, in which
/// the pattern was first found at `hit`: a hit is the answer; an empty read
/// or a window reaching the end of the file ends the search; otherwise the
/// next window starts `overlap` bytes (the pattern's length less one) before
/// this one ends, so a match across the boundary is still seen.
pub fn find_forward_step(at: u64, read_len: usize, size: u64, overlap: usize, hit: Option<usize>) -> (r: FindStep)
    requires
        at + read_len <= u64::MAX,
        hit matches Some(p) ==> p < read_len,
        read_len > 0 && at + read_len < size ==> read_len > overlap,
    ensures
        r == match hit {
            Some(p) => FindStep::Found((at + p) as u64),
            None => if read_len == 0 || at + read_len >= size {
                FindStep::Done
            } else {
                FindStep::Next((at + read_len - overlap) as u64)
            },
        },
{
    match hit {
        Some(p) => FindStep::Found(at + p as u64),
        None => {
            if read_len == 0 || at + read_len as u64 >= size {
                FindStep::Done
            } else {
                FindStep::Next(at + (read_len - overlap) as u64)
            }
        },
    }
}

/// The window a backward search reads before `end`: up to a chunk, reaching
/// `overlap` bytes past `end` so a match across the boundary is still seen,
/// and never before the start of the file. Its start and length.
pub fn find_backward_window(end: u64, overlap: usize) -> (r: (u64, usize))
    requires
        end + overlap <= u64::MAX,
    ensures
        r.1 as int == if end + overlap < READ_CHUNK { end + overlap } else { READ_CHUNK as int },
        r.0 + r.1 == end + overlap,
{
    let reach = end + overlap as u64;
    let win: u64 = if reach < READ_CHUNK as u64 { reach } else { READ_CHUNK as u64 };
    (reach - win, win as usize)
}

/// A backward search after the window starting at `start`, in which the
/// pattern was last found at `hit`: a hit before the top of the page `top`
/// is the answer; otherwise the search ends at the start of the file, or
/// reads the window ending at `start`.
pub fn find_backward_step(start: u64, top: u64, hit: Option<usize>) -> (r: FindStep)
    requires
        hit matches Some(p) ==> start + p <= u64::MAX,
    ensures
        r == match hit {
            Some(p) if start + p < top => FindStep::Found((start + p) as u64),
            _ => if start == 0 { FindStep::Done } else { FindStep::Next(start) },
        },
{
    match hit {
        Some(p) if start + (p as u64) < top => FindStep::Found(start + p as u64),
        _ => if start == 0 { FindStep::Done } else { FindStep::Next(start) },
    }
}

/// Where a text-mode motion takes the top of the page, before any reading.
#[derive(Debug, Clone, Copy, PartialEq, Eq, Structural)]
pub enum TextMove {
    /// To the start of the next line, if it is inside the file.
    NextLine,
    /// To the start of the line before.
    PrevLine,
    /// To this offset.
    To(u64),
    /// Back from this offset by a page of display rows.
    BackUpFrom(u64),
    /// Nowhere.
    Stay,
}

/// What a motion does to the top of a text page at `top`, whose next page
/// starts at `next_page`, in a file of `size` bytes. Column motions leave the
/// top alone.
pub fn text_move(motion: ViewMotion, top: u64, next_page: u64, size: u64) -> (r: TextMove)
    ensures
        r == match motion {
            ViewMotion::LineDown => TextMove::NextLine,
            ViewMotion::LineUp => TextMove::PrevLine,
            ViewMotion::PageDown => if next_page < size { TextMove::To(next_page) } else { TextMove::Stay },
            ViewMotion::PageUp => TextMove::BackUpFrom(top),
            ViewMotion::Home => TextMove::To(0),
            ViewMotion::End => TextMove::BackUpFrom(size),
            ViewMotion::ColLeft | ViewMotion::ColRight => TextMove::Stay,
        },
{
    match motion {
        ViewMotion::LineDown => TextMove::NextLine,
        ViewMotion::LineUp => TextMove::PrevLine,
        ViewMotion::PageDown => if next_page < size { TextMove::To(next_page) } else { TextMove::Stay },
        ViewMotion::PageUp => TextMove::BackUpFrom(top),
        ViewMotion::Home => TextMove::To(0),
        ViewMotion::End => TextMove::BackUpFrom(size),
        ViewMotion::ColLeft | ViewMotion::ColRight => TextMove::Stay,
    }
}

/// Line down lands on the next line's start `next` only when that is inside
/// the file; at the last line the page stays.
pub fn line_down_target(top: u64, next: u64, size: u64) -> (r: u64)
    ensures
        r == if next < size { next } else { top },
{
    if next < size { next } else { top }
}

/// The horizontal scroll after a text-mode motion: Home returns to the first
/// column, left steps back (not past the first column), right steps on only
/// when lines do not wrap.
pub fn col_after(motion: ViewMotion, col: u64, wrap: bool) -> (r: u64)
    requires
        motion == ViewMotion::ColRight && !wrap ==> col + COL_STEP <= u64::MAX,
    ensures
        r == match motion {
            ViewMotion::Home => 0,
            ViewMotion::ColLeft => if col >= COL_STEP { (col - COL_STEP) as u64 } else { 0 },
            ViewMotion::ColRight => if wrap { col } else { (col + COL_STEP) as u64 },
            _ => col,
        },
{
    match motion {
        ViewMotion::Home => 0,
        ViewMotion::ColLeft => if col >= COL_STEP { col - COL_STEP } else { 0 },
        ViewMotion::ColRight => if wrap { col } else { col + COL_STEP },
        _ => col,
    }
}

/// Whether backing up a page goes one line further: fewer than `want`
/// display rows counted so far, and not yet at the start of the file.
pub fn backs_up_further(counted: usize, want: usize, offset: u64) -> (r: bool)
    ensures
        r == (counted < want && offset > 0),
{
    counted < want && offset > 0
}

/// How much of the line from `start` to `end` is read to count its display
/// rows: all of it, up to the render cap.
pub fn row_count_read(start: u64, end: u64) -> (r: usize)
    requires
        start <= end,
    ensures
        r as int == if end - start < MAX_RENDER_READ { end - start } else { MAX_RENDER_READ as int },
{
    let d = end - start;
    if d < MAX_RENDER_READ as u64 { d as usize } else { MAX_RENDER_READ }
}

/// How much a render reads first: a chunk, or enough for every row at four
/// bytes per character if that is more.
pub fn render_read(rows: usize, cols: usize, col_offset: u64) -> (r: usize)
    requires
        cols + col_offset + 1 <= usize::MAX,
        rows * (cols + col_offset + 1) * 4 <= usize::MAX,
    ensures
        r as int == if rows * (cols + col_offset + 1) * 4 > READ_CHUNK {
            rows * (cols + col_offset + 1) * 4
        } else {
            READ_CHUNK as int
        },
{
    let per_row = cols + col_offset as usize + 1;
    assert(rows * per_row <= usize::MAX) by (nonlinear_arith)
        requires
            rows * per_row * 4 <= usize::MAX,
            rows >= 0,
            per_row >= 0,
    ;
    let want = rows * per_row * 4;
    if want > READ_CHUNK { want } else { READ_CHUNK }
}

/// A render that found no complete line in its read grows the read eightfold,
/// up to the cap; at the cap it shows what it has as one line.
pub fn grown_read(need: usize) -> (r: Option<usize>)
    ensures
        r == if need < MAX_RENDER_READ {
            Some(if need * 8 < MAX_RENDER_READ { (need * 8) as usize } else { MAX_RENDER_READ })
        } else {
            None::<usize>
        },
{
    if need < MAX_RENDER_READ {
        if need * 8 < MAX_RENDER_READ { Some(need * 8) } else { Some(MAX_RENDER_READ) }
    } else {
        None
    }
}

/// Where the next page starts once a render consumed the file up to
/// `consumed`: there, unless nothing past the top was consumed, when it is
/// the start of the next line `next_line`.
pub fn next_page_from(consumed: u64, top: u64, next_line: u64) -> (r: u64)
    ensures
        r == if consumed > top { consumed } else { next_line },
{
    if consumed > top { consumed } else { next_line }
}

/// Whether a jump of the top to `offset` has the line index catch up: when it
/// lands past what is indexed, but not too far past.
pub fn chases_index(offset: u64, indexed_to: u64) -> (r: bool)
    ensures
        r == (offset > indexed_to && offset - indexed_to <= INDEX_CHASE_LIMIT),
{
    offset > indexed_to && offset - indexed_to <= INDEX_CHASE_LIMIT
}

} // verus!
