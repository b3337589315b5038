//! The history of cards shown in a demo run, for going back.
use vstd::prelude::*;
use crate::demo::card::CardView;
use crate::textmap::TextMap;

verus! {

/// What the demo showed at one step: the flow's output, its card, and the inputs entered.
#[derive(Debug)]
pub struct Snapshot {
    pub output: serde_json::Value,
    pub card: Option<CardView>,
    pub pending_inputs: TextMap<String>,
}

impl Snapshot {
    /// A snapshot of these parts.
    pub fn new(output: serde_json::Value, card: Option<CardView>, pending_inputs: TextMap<String>) -> (r: Self)
        ensures
            r.output == output,
            r.card == card,
            r.pending_inputs == pending_inputs,
    {
        Snapshot { output, card, pending_inputs }
    }
}

/// The snapshots shown so far, oldest first.
pub struct DemoHistory {
    stack: Vec<Snapshot>,
}

impl View for DemoHistory {
    type V = Seq<Snapshot>;

    closed spec fn view(&self) -> Seq<Snapshot> {
        self.stack@
    }
}

impl DemoHistory {
    /// An empty history.
    pub fn new() -> (r: Self)
        ensures
            r@ == Seq::<Snapshot>::empty(),
    {
        DemoHistory { stack: Vec::new() }
    }

    /// Records a snapshot as the latest.
    pub fn push(&mut self, snapshot: Snapshot)
        ensures
            final(self)@ == old(self)@.push(snapshot),
    {
        self.stack.push(snapshot);
    }

    /// The latest snapshot.
    pub fn latest(&self) -> (r: Option<&Snapshot>)
        ensures
            self@.len() == 0 ==> r is None,
            self@.len() > 0 ==> (r matches Some(s) && *s == self@.last()),
    {
        if self.stack.len() == 0 {
            None
        } else {
            Some(&self.stack[self.stack.len() - 1])
        }
    }

    /// Drops the latest snapshot and gives the one before it. With one snapshot or none there
    /// is nothing to go back to: the history is kept and the result is none.
    pub fn go_back(&mut self) -> (r: Option<&Snapshot>)
        ensures
            old(self)@.len() <= 1 ==> r is None && final(self)@ == old(self)@,
            old(self)@.len() > 1 ==> final(self)@ == old(self)@.drop_last() && (r matches Some(s)
                && *s == old(self)@[old(self)@.len() - 2]),
    {
        if self.stack.len() <= 1 {
            return None;
        }
        self.stack.pop();
        let n = self.stack.len();
        Some(&self.stack[n - 1])
    }
}

/// Going back after a push returns the snapshot that was latest before it, and leaves the
/// history as it was before the push.
pub proof fn law_go_back_undoes_push(before: Seq<Snapshot>, pushed: Snapshot)
    requires
        before.len() >= 1,
    ensures
        before.push(pushed).len() > 1,
        before.push(pushed).drop_last() == before,
        before.push(pushed)[before.push(pushed).len() - 2] == before.last(),
{
    assert(before.push(pushed).drop_last() =~= before);
}

} // verus!
