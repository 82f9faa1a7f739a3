//! The table of running copy and move operations: each gets an id, and the
//! commands that answer its prompts or cancel it find it by that id. The
//! table is plain data; whoever shares it between threads puts it behind a
//! lock.
use vstd::prelude::*;
use std::sync::atomic::AtomicBool;
use std::sync::mpsc::Sender;
use std::sync::Arc;
use crate::ops::{op_id, UserInput};
use crate::text::{owned, str_eq};
use crate::text::decimal_nat;

verus! {

/// The sending half of a channel, as std's `mpsc` provides it.
#[verifier::external_type_specification]
#[verifier::external_body]
#[verifier::reject_recursive_types(T)]
pub struct ExSender<T>(std::sync::mpsc::Sender<T>);

/// Hand `input` to the operation's thread through `tx` (std's
/// `Sender::send`). Whether it arrives depends on whether that thread still
/// listens, so nothing is promised of the result: `true` when the send
/// succeeded.
#[verifier::external_body]
fn deliver(tx: &Sender<UserInput>, input: UserInput) -> (r: bool) {
    tx.send(input).is_ok()
}

/// The handles of one running operation: where its prompt answers go, and
/// the flag its walk polls for cancellation.
pub struct OpControl {
    pub tx: Sender<UserInput>,
    pub cancel: Arc<AtomicBool>,
}

/// The running operations by id, and the number the next one gets.
pub struct OpRegistry {
    pub ops: Vec<(String, OpControl)>,
    pub next: u64,
}

/// The ids of a table's entries, in order.
pub open spec fn ids_of(ops: Seq<(String, OpControl)>) -> Seq<Seq<char>> {
    Seq::new(ops.len(), |i: int| ops[i].0@)
}

impl OpRegistry {
    /// The ids of the registered operations.
    pub open spec fn ids(&self) -> Seq<Seq<char>> {
        ids_of(self.ops@)
    }

    /// An empty table; the first operation gets number 0.
    pub fn new() -> (r: Self)
        ensures
            r.ids().len() == 0,
            r.next == 0,
    {
        OpRegistry { ops: Vec::new(), next: 0 }
    }

    /// The table without the entry for `id`.
    fn without(&mut self, id: &str)
        ensures
            final(self).ids() == old(self).ids().filter(|k: Seq<char>| k != id@),
            final(self).next == old(self).next,
    {
        let ghost pred = |k: Seq<char>| k != id@;
        let ghost before = self.ids();
        let mut kept: Vec<(String, OpControl)> = Vec::new();
        let mut rest: Vec<(String, OpControl)> = Vec::new();
        std::mem::swap(&mut rest, &mut self.ops);
        let ghost all = rest@;
        let total = rest.len();
        let mut k: usize = 0;
        proof {
            assert(ids_of(all) == before);
            reveal_with_fuel(Seq::filter, 1);
            assert(ids_of(kept@) =~= before.take(0).filter(pred));
        }
        while rest.len() > 0
            invariant
                before == ids_of(all),
                pred == (|k: Seq<char>| k != id@),
                k + rest@.len() == all.len(),
                total == all.len(),
                rest@ == all.skip(k as int),
                ids_of(kept@) == before.take(k as int).filter(pred),
            decreases rest@.len(),
        {
            let entry = rest.remove(0);
            assert(all.skip(k as int)[0] == entry);
            assert(all.skip(k as int).drop_first() =~= all.skip(k + 1));
            proof {
                assert(before.take(k + 1).drop_last() =~= before.take(k as int));
                assert(before.take(k + 1).last() == entry.0@);
                reveal_with_fuel(Seq::filter, 1);
            }
            if !str_eq(entry.0.as_str(), id) {
                let ghost old_kept = kept@;
                kept.push(entry);
                assert(ids_of(kept@) =~= ids_of(old_kept).push(entry.0@));
            }
            k = k + 1;
        }
        assert(before.take(k as int) =~= before);
        self.ops = kept;
    }

    /// Give a new operation the next id, `op-` and its number, and record its
    /// handles under it.
    pub fn register(&mut self, tx: Sender<UserInput>, cancel: Arc<AtomicBool>) -> (r: String)
        requires
            old(self).next < u64::MAX,
        ensures
            r@ == "op-"@ + decimal_nat(old(self).next as nat),
            final(self).next == old(self).next + 1,
            final(self).ids() == old(self).ids().filter(|k: Seq<char>| k != r@).push(r@),
    {
        let id = op_id(self.next);
        self.without(id.as_str());
        let ghost mid = self.ids();
        self.ops.push((id.clone(), OpControl { tx, cancel }));
        assert(self.ids() =~= mid.push(id@));
        self.next = self.next + 1;
        id
    }

    /// The first position of `id` in the table, if it is there.
    fn position(&self, id: &str) -> (r: Option<usize>)
        ensures
            match r {
                Some(i) => i < self.ops@.len() && self.ids()[i as int] == id@ && forall|j: int|
                    0 <= j < i ==> self.ids()[j] != id@,
                None => !self.ids().contains(id@),
            },
    {
        let mut i: usize = 0;
        while i < self.ops.len()
            invariant
                i <= self.ops@.len(),
                forall|j: int| 0 <= j < i ==> self.ids()[j] != id@,
            decreases self.ops@.len() - i,
        {
            if str_eq(self.ops[i].0.as_str(), id) {
                return Some(i);
            }
            i = i + 1;
        }
        None
    }

    /// The handles registered under `id`: those of its (first) entry in the
    /// table; `None` for an id the table does not hold.
    pub fn lookup(&self, id: &str) -> (r: Option<&OpControl>)
        ensures
            r is None <==> !self.ids().contains(id@),
            r matches Some(c) ==> exists|i: int|
                0 <= i < self.ops@.len() && self.ids()[i] == id@ && (forall|j: int| 0 <= j < i ==> self.ids()[j] != id@)
                    && *c == self.ops@[i].1,
    {
        match self.position(id) {
            Some(i) => {
                assert(self.ids().contains(id@)) by {
                    assert(self.ids()[i as int] == id@);
                }
                Some(&self.ops[i].1)
            },
            None => None,
        }
    }

    /// Deliver a prompt answer to a waiting operation, on the channel
    /// [`lookup`](Self::lookup) finds under `id`: refused for an id that is
    /// not in the table, and when the operation has stopped listening.
    pub fn send(&self, id: &str, input: UserInput) -> (r: Result<(), String>)
        ensures
            !self.ids().contains(id@) ==> (r matches Err(m) && m@ == "unknown operation id"@),
            self.ids().contains(id@) ==> (r is Ok || (r matches Err(m) && m@
                == "operation is no longer running"@)),
    {
        match self.lookup(id) {
            Some(control) => {
                if deliver(&control.tx, input) {
                    Ok(())
                } else {
                    Err(owned("operation is no longer running"))
                }
            },
            None => Err(owned("unknown operation id")),
        }
    }

    /// Ask a running operation to stop by raising the cancel flag
    /// [`lookup`](Self::lookup) finds under `id`; an unknown id is ignored.
    pub fn cancel(&self, id: &str) {
        match self.lookup(id) {
            Some(control) => {
                control.cancel.store(true, std::sync::atomic::Ordering::SeqCst);
            },
            None => {},
        }
    }

    /// Drop a finished operation's handles.
    pub fn remove(&mut self, id: &str)
        ensures
            final(self).ids() == old(self).ids().filter(|k: Seq<char>| k != id@),
            final(self).next == old(self).next,
    {
        self.without(id);
    }
}

} // verus!
