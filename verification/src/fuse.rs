//! A stream that is let go once it has ended.

use vstd::prelude::*;

verus! {

/// A stream, until it has ended.
#[derive(Debug)]
pub struct Fuse<S> {
    pub inner: Option<S>,
    /// Whether a task waits for the stream.
    pub task: bool,
}

impl<S> Fuse<S> {
    pub fn new(inner: S) -> (fuse: Fuse<S>)
        ensures
            fuse == (Fuse { inner: Some(inner), task: false }),
    {
        Fuse { inner: Some(inner), task: false }
    }

    pub fn inner(&self) -> (inner: Option<&S>)
        ensures
            self.inner == match inner {
                Some(inner) => Some(*inner),
                None => None,
            },
    {
        self.inner.as_ref()
    }

    pub fn inner_mut(&mut self) -> (inner: Option<&mut S>)
        ensures
            final(self).task == old(self).task,
            match inner {
                Some(inner) => old(self).inner == Some(*inner) && final(self).inner == Some(
                    *final(inner),
                ),
                None => old(self).inner is None && final(self).inner is None,
            },
    {
        match &mut self.inner {
            Some(inner) => Some(inner),
            None => None,
        }
    }

    pub fn into_inner(self) -> (inner: Option<S>)
        ensures
            inner == self.inner,
    {
        self.inner
    }

    /// Lets the stream go, and says whether a task is to be notified.
    pub fn fuse_inner(&mut self) -> (notify: bool)
        ensures
            final(self).inner is None,
            final(self).task == old(self).task,
            notify == old(self).task,
    {
        self.inner = None;
        self.task
    }

    /// Starts to poll the stream: takes note that a task waits for it, and
    /// hands it out, where it has not ended.
    pub fn poll(&mut self) -> (inner: Option<S>)
        ensures
            inner == old(self).inner,
            *final(self) == (Fuse { inner: None::<S>, task: true }),
    {
        self.task = true;
        self.inner.take()
    }

    /// Takes the stream back after it was polled, unless it has ended.
    pub fn polled(&mut self, inner: S, ended: bool)
        ensures
            final(self).inner == if ended {
                old(self).inner
            } else {
                Some(inner)
            },
            final(self).task == old(self).task,
    {
        if !ended {
            self.inner = Some(inner);
        }
    }
}

/// A stream is handed out to be polled as long as it has not ended, and is there
/// again afterwards; once it has ended there is none any more. Whoever polls it waits
/// for it, and is told when it is let go.
pub proof fn ended_streams_are_let_go<S>(
    before: Fuse<S>,
    handed: Option<S>,
    polling: Fuse<S>,
    inner: S,
    ended: bool,
    after: Fuse<S>,
    notify: bool,
    fused: Fuse<S>,
)
    requires
        exists|this: &mut Fuse<S>| #[trigger]
            call_ensures(Fuse::<S>::poll, (this,), handed) && *this == before && *final(this)
                == polling,
        exists|this: &mut Fuse<S>, r: ()| #[trigger]
            call_ensures(Fuse::<S>::polled, (this, inner, ended), r) && *this == polling
                && *final(this) == after,
        exists|this: &mut Fuse<S>| #[trigger]
            call_ensures(Fuse::<S>::fuse_inner, (this,), notify) && *this == after && *final(this)
                == fused,
    ensures
        handed == before.inner,
        ended ==> after.inner is None,
        !ended ==> after.inner == Some(inner),
        after.task && notify,
        fused.inner is None,
{
}

/// A new stream is there and nobody waits for it.
pub proof fn new_streams_are_there<S>(inner: S, fuse: Fuse<S>, taken: Option<S>)
    requires
        call_ensures(Fuse::<S>::new, (inner,), fuse),
        call_ensures(Fuse::<S>::into_inner, (fuse,), taken),
    ensures
        taken == Some(inner),
        !fuse.task,
{
}

} // verus!
