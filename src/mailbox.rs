//! The single-slot, coalescing hand-off between connections (producers) and
//! the render loop (the one consumer). A push replaces whatever is pending;
//! a drain takes the pending command and leaves the slot empty. Sharing it
//! between threads is done by putting it behind one mutual-exclusion lock,
//! so that the pushes and drains of all threads form one sequence of the
//! operations below.
use vstd::prelude::*;

use crate::messages::Command;

verus! {

/// The slot after a push of `c`: the new command supersedes any pending one.
pub open spec fn after_push(slot: Option<Command>, c: Command) -> Option<Command> {
    Some(c)
}

/// The slot after a drain.
pub open spec fn after_drain(slot: Option<Command>) -> Option<Command> {
    None
}

pub struct Mailbox {
    slot: Option<Command>,
}

impl View for Mailbox {
    type V = Option<Command>;

    /// The pending command, if any.
    closed spec fn view(&self) -> Option<Command> {
        self.slot
    }
}

impl Mailbox {
    /// An empty mailbox.
    pub fn new() -> (r: Mailbox)
        ensures
            r@ is None,
    {
        Mailbox { slot: None }
    }

    /// Makes `c` the pending command, discarding any command not yet drained.
    pub fn push(&mut self, c: Command)
        ensures
            final(self)@ == after_push(old(self)@, c),
    {
        self.slot = Some(c);
    }

    /// Takes the pending command, if there is one, and empties the slot.
    pub fn drain(&mut self) -> (r: Option<Command>)
        ensures
            r == old(self)@,
            final(self)@ == after_drain(old(self)@),
    {
        self.slot.take()
    }

    pub fn is_pending(&self) -> (r: bool)
        ensures
            r == (self@ is Some),
    {
        self.slot.is_some()
    }
}

/// One operation on a mailbox, by any producer or by the consumer.
pub enum Op {
    Push(Command),
    Drain,
}

/// The slot after `ops`, applied in order to a mailbox holding `slot`.
pub open spec fn run(slot: Option<Command>, ops: Seq<Op>) -> Option<Command>
    decreases ops.len(),
{
    if ops.len() == 0 {
        slot
    } else {
        let before = run(slot, ops.drop_last());
        match ops.last() {
            Op::Push(c) => after_push(before, c),
            Op::Drain => after_drain(before),
        }
    }
}

/// What a drain at position `i` of `ops` returns: the slot as the earlier
/// operations left it.
pub open spec fn drained(slot: Option<Command>, ops: Seq<Op>, i: int) -> Option<Command> {
    run(slot, ops.take(i))
}

/// Pushes of `cs`, in order.
pub open spec fn pushes(cs: Seq<Command>) -> Seq<Op> {
    cs.map_values(|c: Command| Op::Push(c))
}

/// `m` drains.
pub open spec fn drains(m: nat) -> Seq<Op> {
    Seq::new(m, |i: int| Op::Drain)
}

/// A drain returns exactly the command of the push just before it, whole,
/// or nothing when the operation before it was a drain; the first drain of
/// a sequence returns what was pending at its start.
pub proof fn lemma_drain_sees_latest_push(slot: Option<Command>, ops: Seq<Op>, i: int)
    requires
        0 <= i < ops.len(),
    ensures
        drained(slot, ops, i) == if i == 0 {
            slot
        } else {
            match ops[i - 1] {
                Op::Push(c) => Some(c),
                Op::Drain => None,
            }
        },
{
    if i > 0 {
        assert(ops.take(i).drop_last() =~= ops.take(i - 1));
    }
}

/// Pushing several commands before any drain and then draining repeatedly
/// gives the last command once, then nothing until the next push.
pub proof fn lemma_coalescing(slot: Option<Command>, cs: Seq<Command>, m: nat)
    requires
        cs.len() > 0,
    ensures
        forall|i: int|
            cs.len() <= i < cs.len() + m ==> #[trigger] drained(slot, pushes(cs) + drains(m), i)
                == if i == cs.len() {
                Some(cs.last())
            } else {
                None::<Command>
            },
{
    let ops = pushes(cs) + drains(m);
    assert forall|i: int| cs.len() <= i < cs.len() + m implies #[trigger] drained(slot, ops, i)
        == if i == cs.len() {
        Some(cs.last())
    } else {
        None::<Command>
    } by {
        lemma_drain_sees_latest_push(slot, ops, i);
        assert(ops[i - 1] == if i == cs.len() {
            Op::Push(cs.last())
        } else {
            Op::Drain
        });
    }
}

} // verus!
