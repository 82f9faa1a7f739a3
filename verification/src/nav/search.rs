//! Quick search — jump the cursor to a file by typing its name prefix.
//!
//! The core owns the query: a character that matches nothing is rejected
//! rather than appended, and `miss_rev` is bumped so the frontend can beep.
//! Matching is a case-insensitive prefix, and `..` is never a candidate.
//! Every hit lands through [`super::set_cursor`], so a match below the fold
//! scrolls into view like any other cursor move.
use vstd::prelude::*;
use super::{clamped_top, is_selectable, min_of, selectable, set_cursor, window_ok};
use crate::fs::lowercase_chars;
use crate::text::{chars_of, is_prefix, spec_lowercase, starts_with_chars, string_from_chars};
use crate::types::{Entry, PanelState, QuickSearch};

verus! {

/// First selectable entry whose lower-cased name starts with `key`, or `-1`.
pub open spec fn first_prefixed(entries: Seq<Entry>, key: Seq<char>) -> int
    decreases entries.len(),
{
    if entries.len() == 0 {
        -1
    } else if selectable(entries[0]) && is_prefix(key, spec_lowercase(entries[0].name@)) {
        0
    } else {
        let r = first_prefixed(entries.drop_first(), key);
        if r < 0 { -1 } else { r + 1 }
    }
}

/// The entry a query lands on: none for an empty query, else the first
/// selectable name that starts with it, compared lower-cased.
pub open spec fn match_of(entries: Seq<Entry>, query: Seq<char>) -> int {
    if query.len() == 0 { -1 } else { first_prefixed(entries, spec_lowercase(query)) }
}

proof fn lemma_first_prefixed(entries: Seq<Entry>, key: Seq<char>)
    ensures
        -1 <= first_prefixed(entries, key) < entries.len(),
    decreases entries.len(),
{
    if entries.len() > 0 {
        lemma_first_prefixed(entries.drop_first(), key);
    }
}

/// Open a fresh search box. The cursor does not move; re-opening starts over.
pub fn open(state: &mut PanelState)
    ensures
        final(state).search matches Some(q) && q.query@ == Seq::<char>::empty() && q.miss_rev == 0,
        *final(state) == (PanelState { search: final(state).search, ..*old(state) }),
{
    state.search = Some(QuickSearch::default());
}

/// Close the box, leaving the cursor wherever the search put it.
pub fn close(state: &mut PanelState)
    ensures
        *final(state) == (PanelState { search: None, ..*old(state) }),
{
    state.search = None;
}

/// First selectable entry whose lower-cased name starts with the lower-cased
/// `needle`; `None` for an empty needle.
fn find_match(entries: &Vec<Entry>, needle: &Vec<char>) -> (r: Option<usize>)
    ensures
        match r {
            Some(i) => i as int == match_of(entries@, needle@),
            None => match_of(entries@, needle@) == -1,
        },
{
    if needle.len() == 0 {
        return None;
    }
    let key = lowercase_chars(needle);
    let ghost es = entries@;
    proof { lemma_first_prefixed(es, key@); }
    let mut i: usize = 0;
    let mut found: Option<usize> = None;
    assert(es.skip(0) =~= es);
    while i < entries.len() && found.is_none()
        invariant
            i <= entries.len(),
            es == entries@,
            found is None ==> first_prefixed(es, key@) == if first_prefixed(es.skip(i as int), key@) < 0 {
                -1
            } else {
                first_prefixed(es.skip(i as int), key@) + i
            },
            found matches Some(t) ==> t as int == first_prefixed(es, key@),
        decreases entries.len() - i,
    {
        assert(es.skip(i as int)[0] == es[i as int]);
        assert(es.skip(i as int).drop_first() =~= es.skip(i + 1));
        if is_selectable(&entries[i]) {
            let low = lowercase_chars(&chars_of(entries[i].name.as_str()));
            if starts_with_chars(&low, &key) {
                found = Some(i);
            }
        }
        i = i + 1;
    }
    found
}

/// Append typed text to the query and move the cursor to the first match. On
/// a miss nothing is appended and the cursor stays; only `miss_rev` moves
/// (saturating). A no-op when no box is open.
pub fn push(state: &mut PanelState, text: &str)
    ensures
        old(state).search is None ==> *final(state) == *old(state),
        old(state).search matches Some(q) ==> ({
            let cand = q.query@ + text@;
            let m = match_of(old(state).entries@, cand);
            if m >= 0 {
                &&& final(state).search matches Some(q2) && q2.query@ == cand && q2.miss_rev == q.miss_rev
                &&& final(state).cursor_index as int == m
                &&& *final(state) == (PanelState {
                    search: final(state).search,
                    cursor_index: final(state).cursor_index,
                    top_index: clamped_top(PanelState { cursor_index: m as usize, ..*old(state) }) as usize,
                    ..*old(state)
                })
                &&& window_ok(*final(state))
            } else {
                &&& final(state).search matches Some(q2) && q2.query@ == q.query@
                    && q2.miss_rev as int == if q.miss_rev == u32::MAX { u32::MAX as int } else { q.miss_rev + 1 }
                &&& *final(state) == (PanelState { search: final(state).search, ..*old(state) })
            }
        }),
{
    let (query, miss) = match &state.search {
        Some(s) => (chars_of(s.query.as_str()), s.miss_rev),
        None => return,
    };
    let mut cand = query;
    let extra = chars_of(text);
    let mut k: usize = 0;
    let ghost base = cand@;
    while k < extra.len()
        invariant
            k <= extra.len(),
            cand@ == base + extra@.take(k as int),
        decreases extra.len() - k,
    {
        cand.push(extra[k]);
        assert(base + extra@.take(k + 1) =~= (base + extra@.take(k as int)).push(extra@[k as int]));
        k = k + 1;
    }
    assert(extra@.take(extra.len() as int) =~= extra@);
    match find_match(&state.entries, &cand) {
        Some(index) => {
            proof { lemma_first_prefixed(state.entries@, spec_lowercase(cand@)); }
            state.search = Some(QuickSearch { query: string_from_chars(&cand), miss_rev: miss });
            set_cursor(state, index);
        },
        None => {
            let q = match state.search.take() {
                Some(s) => s.query,
                None => String::new(),
            };
            state.search = Some(QuickSearch { query: q, miss_rev: miss.saturating_add(1) });
        },
    }
}

/// Drop the last character of the query and let the cursor follow it back to
/// the shorter prefix's first match. Emptying the query keeps the box open
/// and the cursor where it is. A no-op when no box is open or it is empty.
pub fn backspace(state: &mut PanelState)
    ensures
        old(state).search is None ==> *final(state) == *old(state),
        old(state).search matches Some(q) ==> (q.query@.len() == 0 ==> *final(state) == *old(state)),
        old(state).search matches Some(q) ==> (q.query@.len() > 0 ==> {
            let shorter = q.query@.drop_last();
            let m = match_of(old(state).entries@, shorter);
            &&& final(state).search matches Some(q2) && q2.query@ == shorter && q2.miss_rev == q.miss_rev
            &&& m >= 0 ==> *final(state) == (PanelState {
                search: final(state).search,
                cursor_index: m as usize,
                top_index: clamped_top(PanelState { cursor_index: m as usize, ..*old(state) }) as usize,
                ..*old(state)
            })
            &&& m < 0 ==> *final(state) == (PanelState { search: final(state).search, ..*old(state) })
        }),
{
    let (query, miss) = match &state.search {
        Some(s) => (chars_of(s.query.as_str()), s.miss_rev),
        None => return,
    };
    if query.len() == 0 {
        return;
    }
    let mut shorter = query;
    shorter.pop();
    let target = find_match(&state.entries, &shorter);
    state.search = Some(QuickSearch { query: string_from_chars(&shorter), miss_rev: miss });
    if let Some(index) = target {
        proof { lemma_first_prefixed(state.entries@, spec_lowercase(shorter@)); }
        set_cursor(state, index);
    }
}

} // verus!
