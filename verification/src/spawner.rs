//! Tasks that run until the program ends.

use vstd::prelude::*;

verus! {

/// The tasks that nobody waits for yet.
#[derive(Debug)]
pub struct Spawner<H> {
    pub handles: Vec<H>,
}

impl<H> Spawner<H> {
    pub fn new() -> (spawner: Spawner<H>)
        ensures
            spawner.handles@ == Seq::<H>::empty(),
    {
        Spawner { handles: Vec::new() }
    }

    /// Takes note of a task.
    pub fn spawn(&mut self, handle: H)
        ensures
            final(self).handles@ == old(self).handles@.push(handle),
    {
        self.handles.push(handle);
    }

    /// The tasks to wait for next; none where there are none left. Tasks may
    /// have started others meanwhile, so that this is asked until none is left.
    pub fn next_round(&mut self) -> (round: Option<Vec<H>>)
        ensures
            old(self).handles@.len() == 0 ==> round is None,
            old(self).handles@.len() > 0 ==> (round matches Some(r) && r@ == old(self).handles@),
            final(self).handles@ == Seq::<H>::empty(),
    {
        let mut handles: Vec<H> = Vec::new();
        std::mem::swap(&mut handles, &mut self.handles);
        if handles.len() == 0 {
            None
        } else {
            Some(handles)
        }
    }
}

/// Every task that was started is waited for, in order, and in one round only; with
/// none left the rounds end.
pub proof fn tasks_are_waited_for_once<H>(
    before: Spawner<H>,
    handle: H,
    spawned: Spawner<H>,
    round: Option<Vec<H>>,
    after: Spawner<H>,
    next: Option<Vec<H>>,
)
    requires
        exists|this: &mut Spawner<H>, r: ()| #[trigger]
            call_ensures(Spawner::<H>::spawn, (this, handle), r) && *this == before && *final(this)
                == spawned,
        exists|this: &mut Spawner<H>| #[trigger]
            call_ensures(Spawner::<H>::next_round, (this,), round) && *this == spawned
                && *final(this) == after,
        exists|this: &mut Spawner<H>| #[trigger]
            call_ensures(Spawner::<H>::next_round, (this,), next) && *this == after,
    ensures
        round is Some,
        round->0@ == before.handles@.push(handle),
        next is None,
{
}

} // verus!
