//! The relay queue: the ordered channel that decouples the source loop from
//! the sink loop.  It never duplicates, drops or reorders a directive.

use vstd::prelude::*;

use crate::event::{DirectiveView, DisplayDirective};

verus! {

/// An unbounded first-in/first-out queue of display directives.  The
/// supervisor creates it once; it outlives every restart of either loop, so
/// directives produced while the sink is down stay queued.
pub struct RelayQueue {
    items: Vec<DisplayDirective>,
}

impl View for RelayQueue {
    type V = Seq<DirectiveView>;

    closed spec fn view(&self) -> Seq<DirectiveView> {
        self.items@.map_values(|d: DisplayDirective| d@)
    }
}

impl RelayQueue {
    /// The empty queue.
    pub fn new() -> (q: Self)
        ensures
            q@ == Seq::<DirectiveView>::empty(),
    {
        let q = RelayQueue { items: Vec::new() };
        proof {
            assert(q@ =~= Seq::<DirectiveView>::empty());
        }
        q
    }

    /// How many directives are queued.
    pub fn len(&self) -> (n: usize)
        ensures
            n == self@.len(),
    {
        self.items.len()
    }

    /// Append one directive at the back.
    pub fn push(&mut self, d: DisplayDirective)
        ensures
            final(self)@ == old(self)@.push(d@),
    {
        self.items.push(d);
        proof {
            assert(self@ =~= old(self)@.push(d@));
        }
    }

    /// Take the oldest directive, if any: the queue hands directives out in
    /// exactly the order they were pushed.
    pub fn pop(&mut self) -> (r: Option<DisplayDirective>)
        ensures
            match r {
                Some(d) => old(self)@.len() > 0 && d@ == old(self)@[0] && final(self)@ == old(
                    self,
                )@.drop_first(),
                None => old(self)@.len() == 0 && final(self)@ == old(self)@,
            },
    {
        if self.items.len() == 0 {
            return None;
        }
        let d = self.items.remove(0);
        proof {
            assert(self@ =~= old(self)@.drop_first());
        }
        Some(d)
    }
}

} // verus!
