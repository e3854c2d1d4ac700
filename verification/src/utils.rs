//! The command-execution fan-out: motion substitution into action strings
//! and the bounded queue of rendered commands with its two back-pressure
//! policies. The threads that drain the queue and spawn the shells live
//! outside the crate; they operate this queue through its verified
//! operations.

use crate::subst::subst_spec;
use crate::subst::substitute;
use crate::subst::Motion;
use vstd::prelude::*;

verus! {

/// A bounded FIFO of rendered command strings.
pub struct CommandQueue {
    items: Vec<Vec<u8>>,
    cap: usize,
}

impl View for CommandQueue {
    type V = Seq<Seq<u8>>;

    closed spec fn view(&self) -> Seq<Seq<u8>> {
        self.items@.map_values(|v: Vec<u8>| v@)
    }
}

impl CommandQueue {
    /// The queue's capacity.
    pub closed spec fn cap_spec(&self) -> int {
        self.cap as int
    }

    /// An empty queue of capacity `cap`.
    pub fn new(cap: usize) -> (q: CommandQueue)
        requires
            cap >= 1,
        ensures
            q@ == Seq::<Seq<u8>>::empty(),
            q.cap_spec() == cap,
    {
        let q = CommandQueue { items: Vec::new(), cap };
        proof {
            assert(q@ =~= Seq::<Seq<u8>>::empty());
        }
        q
    }

    /// How many commands are queued.
    pub fn len(&self) -> (n: usize)
        ensures
            n == self@.len(),
    {
        self.items.len()
    }

    /// Append `item` if there is room; full queues refuse.
    pub fn try_push(&mut self, item: Vec<u8>) -> (ok: bool)
        ensures
            ok == (old(self)@.len() < old(self).cap_spec()),
            final(self).cap_spec() == old(self).cap_spec(),
            final(self)@ == if ok {
                old(self)@.push(item@)
            } else {
                old(self)@
            },
    {
        if self.items.len() < self.cap {
            self.items.push(item);
            proof {
                assert(self@ =~= old(self)@.push(item@));
            }
            true
        } else {
            false
        }
    }

    /// Remove and return the oldest command, if any.
    pub fn pop_front(&mut self) -> (r: Option<Vec<u8>>)
        ensures
            final(self).cap_spec() == old(self).cap_spec(),
            (match r {
                Option::Some(v) => old(self)@.len() > 0 && v@ == old(self)@[0] && final(self)@
                    == old(self)@.drop_first(),
                Option::None => old(self)@.len() == 0 && final(self)@ == old(self)@,
            }),
    {
        if self.items.len() == 0 {
            return Option::None;
        }
        let v = self.items.remove(0);
        proof {
            assert(self@ =~= old(self)@.drop_first());
        }
        Option::Some(v)
    }
}

/// What became of one action-string dispatch.
#[derive(Clone, Copy, Debug, PartialEq, Eq, Structural)]
pub enum ExecOutcome {
    /// The action string was empty: nothing to run.
    Empty,
    /// The rendered command was queued.
    Queued,
    /// Update-phase command dropped because the queue was full.
    Dropped,
    /// Begin/end-phase command refused for want of room: the caller must
    /// wait for the queue to drain and offer the command again.
    WouldBlock,
}

/// Substitute the motion sample into the action string and offer the
/// rendered command to the queue. Update-phase dispatch (`lossy`) drops
/// the command when the queue is full; begin/end-phase dispatch reports
/// `WouldBlock` instead, so that the caller blocks rather than lose the
/// event. An empty action string is a no-op.
pub fn exec_command_from_string(q: &mut CommandQueue, args: &Vec<u8>, m: &Motion, lossy: bool) -> (r:
    ExecOutcome)
    ensures
        final(q).cap_spec() == old(q).cap_spec(),
        args@.len() == 0 ==> r == ExecOutcome::Empty && final(q)@ == old(q)@,
        args@.len() > 0 && old(q)@.len() < old(q).cap_spec() ==> r == ExecOutcome::Queued
            && final(q)@ == old(q)@.push(subst_spec(args@, *m)),
        args@.len() > 0 && old(q)@.len() >= old(q).cap_spec() ==> final(q)@ == old(q)@ && r == (
        if lossy {
            ExecOutcome::Dropped
        } else {
            ExecOutcome::WouldBlock
        }),
{
    if args.len() == 0 {
        return ExecOutcome::Empty;
    }
    let rendered = substitute(args, m);
    if q.try_push(rendered) {
        ExecOutcome::Queued
    } else {
        if lossy {
            ExecOutcome::Dropped
        } else {
            ExecOutcome::WouldBlock
        }
    }
}

} // verus!
