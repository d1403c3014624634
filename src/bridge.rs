use vstd::prelude::*;

use crate::messages::BusEvent;

verus! {

/// Orders what the network side hands to the game loop: live events that
/// arrive while the topic's backlog is still being fetched wait here, and go
/// out after the whole backlog, in the order they arrived.
pub struct Inbox {
    pub backlog_done: bool,
    pub pending: Vec<BusEvent>,
}

impl Inbox {
    pub open spec fn wf(&self) -> bool {
        self.backlog_done ==> self.pending@.len() == 0
    }

    /// An inbox waiting for the backlog.
    pub fn new() -> (r: Self)
        ensures
            !r.backlog_done,
            r.pending@ == Seq::<BusEvent>::empty(),
            r.wf(),
    {
        Inbox { backlog_done: false, pending: Vec::new() }
    }

    /// A live event arrives: it goes on at once once the backlog is done, and
    /// waits otherwise.
    pub fn on_live(&mut self, event: BusEvent) -> (r: Option<BusEvent>)
        requires
            old(self).wf(),
        ensures
            final(self).wf(),
            final(self).backlog_done == old(self).backlog_done,
            old(self).backlog_done ==> r == Some(event) && final(self).pending@ == old(self).pending@,
            !old(self).backlog_done ==> r is None && final(self).pending@ == old(self).pending@.push(
                event,
            ),
    {
        if self.backlog_done {
            Some(event)
        } else {
            self.pending.push(event);
            None
        }
    }

    /// The backlog has been handed on: returns the live events that waited,
    /// in arrival order; later ones go on at once.
    pub fn finish_backlog(&mut self) -> (r: Vec<BusEvent>)
        requires
            old(self).wf(),
        ensures
            final(self).wf(),
            final(self).backlog_done,
            r@ == old(self).pending@,
    {
        let mut out: Vec<BusEvent> = Vec::new();
        std::mem::swap(&mut out, &mut self.pending);
        self.backlog_done = true;
        out
    }
}

} // verus!
