//! Walking the command history with Up and Down, key press by key press,
//! and what holds of every such walk.
use vstd::prelude::*;
use crate::terminal::history::{next_of, prev_of, HistoryView};

verus! {

/// One recall key press: Up with the line showing at the prompt, or Down.
pub enum Recall {
    Up(Seq<char>),
    Down,
}

/// One key press: the new state and the recalled line.
pub open spec fn recall_step(v: HistoryView, key: Recall) -> (HistoryView, Option<Seq<char>>) {
    match key {
        Recall::Up(current) => prev_of(v, current),
        Recall::Down => next_of(v),
    }
}

/// The state after the key presses `keys`, in order.
pub open spec fn recall_walk(v: HistoryView, keys: Seq<Recall>) -> HistoryView
    decreases keys.len(),
{
    if keys.len() == 0 {
        v
    } else {
        recall_walk(recall_step(v, keys[0]).0, keys.drop_first())
    }
}

/// Whether recall stays under way through every prefix of `keys`: no Down
/// steps past the newest entry.
pub open spec fn stays_recalling(v: HistoryView, keys: Seq<Recall>) -> bool {
    forall|k: int| 1 <= k <= keys.len() ==> (#[trigger] recall_walk(v, keys.take(k))).offset >= 1
}

/// However the keys fall, the list never changes and the position stays
/// between the newest entry and the oldest.
pub proof fn lemma_recall_stays_in_range(v: HistoryView, keys: Seq<Recall>)
    requires
        0 <= v.offset <= v.entries.len(),
    ensures
        recall_walk(v, keys).entries == v.entries,
        0 <= recall_walk(v, keys).offset <= v.entries.len(),
    decreases keys.len(),
{
    if keys.len() > 0 {
        lemma_recall_stays_in_range(recall_step(v, keys[0]).0, keys.drop_first());
    }
}

proof fn lemma_draft_kept(v: HistoryView, keys: Seq<Recall>)
    requires
        v.offset >= 1,
        stays_recalling(v, keys),
    ensures
        recall_walk(v, keys).draft == v.draft,
    decreases keys.len(),
{
    if keys.len() > 0 {
        let w = recall_step(v, keys[0]).0;
        assert(keys.take(1).drop_first() =~= Seq::<Recall>::empty());
        assert(keys.take(1)[0] == keys[0]);
        reveal_with_fuel(recall_walk, 2);
        assert(recall_walk(v, keys.take(1)) == w);
        assert(w.offset >= 1);
        assert(w.draft == v.draft);
        let rest = keys.drop_first();
        assert forall|k: int| 1 <= k <= rest.len() implies (#[trigger] recall_walk(w, rest.take(k))).offset >= 1 by {
            assert(keys.take(k + 1).drop_first() =~= rest.take(k));
            assert(keys.take(k + 1)[0] == keys[0]);
            assert(recall_walk(v, keys.take(k + 1)).offset >= 1);
        }
        lemma_draft_kept(w, rest);
    }
}

/// The line being typed is never lost to recall: the first Up saves it, and
/// however the user then walks the list, the Down that steps past the newest
/// entry gives it back and ends recall, with the list unchanged.
pub proof fn lemma_recall_gives_back_the_draft(v: HistoryView, current: Seq<char>, keys: Seq<Recall>)
    requires
        v.offset == 0,
        v.entries.len() > 0,
        stays_recalling(prev_of(v, current).0, keys),
        recall_walk(prev_of(v, current).0, keys).offset == 1,
    ensures
        next_of(recall_walk(prev_of(v, current).0, keys)) == (
        HistoryView { entries: v.entries, offset: 0, draft: Seq::empty() },
        Some(current),
        ),
{
    let w = prev_of(v, current).0;
    lemma_draft_kept(w, keys);
    lemma_recall_stays_in_range(w, keys);
}

/// The successful Ups minus the successful Downs among the key presses
/// `keys`: those that returned a line.
pub open spec fn recall_net(v: HistoryView, keys: Seq<Recall>) -> int
    decreases keys.len(),
{
    if keys.len() == 0 {
        0
    } else {
        let (w, got) = recall_step(v, keys[0]);
        let d = if got is Some {
            match keys[0] {
                Recall::Up(_) => 1int,
                Recall::Down => -1int,
            }
        } else {
            0int
        };
        d + recall_net(w, keys.drop_first())
    }
}

proof fn lemma_recall_offset(v: HistoryView, keys: Seq<Recall>)
    requires
        0 <= v.offset <= v.entries.len(),
    ensures
        recall_walk(v, keys).offset == v.offset + recall_net(v, keys),
    decreases keys.len(),
{
    if keys.len() > 0 {
        lemma_recall_offset(recall_step(v, keys[0]).0, keys.drop_first());
    }
}

/// Up counts back from the newest entry: once recall starts afresh (after
/// a push, a reset or construction), with `k` the successful Ups minus the
/// successful Downs since, `0 <= k <= n` for `n` entries; the next Up gives
/// the entry `k` steps back from the newest, or, once all `n` are recalled,
/// nothing and no change; and the entries never change.
pub proof fn lemma_counted_recall(v: HistoryView, keys: Seq<Recall>, current: Seq<char>)
    requires
        v.offset == 0,
    ensures
        ({
            let n = v.entries.len() as int;
            let k = recall_net(v, keys);
            let w = recall_walk(v, keys);
            &&& 0 <= k <= n
            &&& w.entries == v.entries
            &&& w.offset == k
            &&& k < n ==> prev_of(w, current).1 == Some(v.entries[n - 1 - k])
            &&& k == n ==> prev_of(w, current) == (w, None::<Seq<char>>)
        }),
{
    lemma_recall_offset(v, keys);
    lemma_recall_stays_in_range(v, keys);
}

} // verus!
