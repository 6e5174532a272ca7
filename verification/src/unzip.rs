//! A stream of pairs that is read as two streams.

use vstd::prelude::*;

verus! {

/// One of two things.
#[derive(Debug)]
pub enum Either<A, B> {
    A(A),
    B(B),
}

/// What a stream gives when it is polled.
#[derive(Debug)]
pub enum Polled<T, E> {
    Item(T),
    End,
    NotReady,
    Failed(E),
}

/// What polling one of the two streams leads to.
#[derive(Debug)]
pub enum Step<T, E> {
    /// The pairs have to be polled first.
    PollPairs,
    /// This is what there is; where asked for, the other stream's task is
    /// notified.
    Done { polled: Polled<T, E>, notify: bool },
}

/// The stream of the first halves.
#[derive(Debug)]
pub struct Unzip;

/// The stream of the second halves.
#[derive(Debug)]
pub struct UnzipStream;

/// The state that the two streams share.
#[derive(Debug)]
pub struct UnzipInner<A, B, E> {
    /// The half of a pair whose other half was given.
    pub next: Option<Either<A, B>>,
    /// An error that the first stream has still to give.
    pub error: Option<E>,
    /// Whether the pairs have ended.
    pub fused: bool,
    /// Whether the first stream and the second one have ended.
    pub closed: (bool, bool),
    /// Whether a task waits for the first stream and one for the second one.
    pub task: (bool, bool),
}

/// What the first stream gives without polling the pairs; none where they have
/// to be polled.
pub open spec fn ready_a<A, B, E>(u: UnzipInner<A, B, E>) -> Option<
    (UnzipInner<A, B, E>, Polled<A, E>, bool),
> {
    match u.next {
        Some(Either::A(a)) => Some((UnzipInner { next: None, ..u }, Polled::Item(a), u.task.1)),
        Some(Either::B(b)) => Some(
            (UnzipInner { task: (true, u.task.1), ..u }, Polled::NotReady, false),
        ),
        None => match u.error {
            Some(error) => Some(
                (
                    UnzipInner { error: None, closed: (true, u.closed.1), ..u },
                    Polled::Failed(error),
                    false,
                ),
            ),
            None => if u.fused {
                if u.closed.0 {
                    Some((u, Polled::NotReady, false))
                } else {
                    Some((UnzipInner { closed: (true, u.closed.1), ..u }, Polled::End, false))
                }
            } else {
                None
            },
        },
    }
}

/// What the first stream gives once the pairs were polled.
pub open spec fn after_a<A, B, E>(u: UnzipInner<A, B, E>, polled: Polled<(A, B), E>) -> (
    UnzipInner<A, B, E>,
    Polled<A, E>,
    bool,
) {
    match polled {
        Polled::Item((a, b)) => (
            UnzipInner { next: Some(Either::B(b)), ..u },
            Polled::Item(a),
            u.task.1,
        ),
        Polled::End => (
            UnzipInner { fused: true, closed: (true, u.closed.1), ..u },
            Polled::End,
            u.task.1,
        ),
        Polled::NotReady => (UnzipInner { task: (true, u.task.1), ..u }, Polled::NotReady, false),
        Polled::Failed(error) => (
            UnzipInner { fused: true, closed: (u.closed.0, true), ..u },
            Polled::Failed(error),
            u.task.1,
        ),
    }
}

/// What the second stream gives without polling the pairs; none where they
/// have to be polled.
pub open spec fn ready_b<A, B, E>(u: UnzipInner<A, B, E>) -> Option<
    (UnzipInner<A, B, E>, Polled<B, ()>, bool),
> {
    match u.next {
        Some(Either::B(b)) => Some((UnzipInner { next: None, ..u }, Polled::Item(b), u.task.0)),
        Some(Either::A(a)) => Some(
            (UnzipInner { task: (u.task.0, true), ..u }, Polled::NotReady, false),
        ),
        None => if u.fused {
            if u.closed.1 {
                Some((u, Polled::NotReady, false))
            } else {
                Some((UnzipInner { closed: (u.closed.0, true), ..u }, Polled::End, false))
            }
        } else {
            None
        },
    }
}

/// What the second stream gives once the pairs were polled. An error is left
/// for the first stream to give.
pub open spec fn after_b<A, B, E>(u: UnzipInner<A, B, E>, polled: Polled<(A, B), E>) -> (
    UnzipInner<A, B, E>,
    Polled<B, ()>,
    bool,
) {
    match polled {
        Polled::Item((a, b)) => (
            UnzipInner { next: Some(Either::A(a)), ..u },
            Polled::Item(b),
            u.task.0,
        ),
        Polled::End => (
            UnzipInner { fused: true, closed: (u.closed.0, true), ..u },
            Polled::End,
            u.task.0,
        ),
        Polled::NotReady => (UnzipInner { task: (u.task.0, true), ..u }, Polled::NotReady, false),
        Polled::Failed(error) => (
            UnzipInner {
                fused: true,
                error: Some(error),
                closed: (u.closed.0, true),
                ..u
            },
            Polled::End,
            u.task.0,
        ),
    }
}

impl<A, B, E> UnzipInner<A, B, E> {
    /// Nothing has been polled.
    pub open spec fn fresh() -> UnzipInner<A, B, E> {
        UnzipInner {
            next: None,
            error: None,
            fused: false,
            closed: (false, false),
            task: (false, false),
        }
    }
}

impl Unzip {
    /// The two streams, and the state that they share.
    pub fn new<A, B, E>() -> (r: (Unzip, UnzipStream, UnzipInner<A, B, E>))
        ensures
            r.2 == UnzipInner::<A, B, E>::fresh(),
    {
        let inner = UnzipInner {
            next: None,
            error: None,
            fused: false,
            closed: (false, false),
            task: (false, false),
        };
        (Unzip, UnzipStream, inner)
    }

    /// Polls the first stream.
    pub fn poll<A, B, E>(&self, inner: &mut UnzipInner<A, B, E>) -> (step: Step<A, E>)
        ensures
            match ready_a(*old(inner)) {
                Some((u, polled, notify)) => *final(inner) == u && step == (Step::Done {
                    polled,
                    notify,
                }),
                None => *final(inner) == *old(inner) && step is PollPairs,
            },
    {
        match inner.next.take() {
            Some(Either::A(a)) => Step::Done { polled: Polled::Item(a), notify: inner.task.1 },
            Some(next) => {
                inner.next = Some(next);
                inner.task.0 = true;
                Step::Done { polled: Polled::NotReady, notify: false }
            },
            None => {
                match inner.error.take() {
                    Some(error) => {
                        inner.closed.0 = true;
                        Step::Done { polled: Polled::Failed(error), notify: false }
                    },
                    None => {
                        if inner.fused {
                            if inner.closed.0 {
                                Step::Done { polled: Polled::NotReady, notify: false }
                            } else {
                                inner.closed.0 = true;
                                Step::Done { polled: Polled::End, notify: false }
                            }
                        } else {
                            Step::PollPairs
                        }
                    },
                }
            },
        }
    }

    /// Takes what the pairs gave when they were polled for the first stream.
    pub fn polled<A, B, E>(
        &self,
        inner: &mut UnzipInner<A, B, E>,
        polled: Polled<(A, B), E>,
    ) -> (r: (Polled<A, E>, bool))
        ensures
            (*final(inner), r.0, r.1) == after_a(*old(inner), polled),
    {
        match polled {
            Polled::Item((a, b)) => {
                inner.next = Some(Either::B(b));
                (Polled::Item(a), inner.task.1)
            },
            Polled::End => {
                inner.fused = true;
                inner.closed.0 = true;
                (Polled::End, inner.task.1)
            },
            Polled::NotReady => {
                inner.task.0 = true;
                (Polled::NotReady, false)
            },
            Polled::Failed(error) => {
                inner.fused = true;
                inner.closed.1 = true;
                (Polled::Failed(error), inner.task.1)
            },
        }
    }
}

impl UnzipStream {
    /// Polls the second stream.
    pub fn poll<A, B, E>(&self, inner: &mut UnzipInner<A, B, E>) -> (step: Step<B, ()>)
        ensures
            match ready_b(*old(inner)) {
                Some((u, polled, notify)) => *final(inner) == u && step == (Step::Done {
                    polled,
                    notify,
                }),
                None => *final(inner) == *old(inner) && step is PollPairs,
            },
    {
        match inner.next.take() {
            Some(Either::B(b)) => Step::Done { polled: Polled::Item(b), notify: inner.task.0 },
            Some(next) => {
                inner.next = Some(next);
                inner.task.1 = true;
                Step::Done { polled: Polled::NotReady, notify: false }
            },
            None => {
                if inner.fused {
                    if inner.closed.1 {
                        Step::Done { polled: Polled::NotReady, notify: false }
                    } else {
                        inner.closed.1 = true;
                        Step::Done { polled: Polled::End, notify: false }
                    }
                } else {
                    Step::PollPairs
                }
            },
        }
    }

    /// Takes what the pairs gave when they were polled for the second stream.
    pub fn polled<A, B, E>(
        &self,
        inner: &mut UnzipInner<A, B, E>,
        polled: Polled<(A, B), E>,
    ) -> (r: (Polled<B, ()>, bool))
        ensures
            (*final(inner), r.0, r.1) == after_b(*old(inner), polled),
    {
        match polled {
            Polled::Item((a, b)) => {
                inner.next = Some(Either::A(a));
                (Polled::Item(b), inner.task.0)
            },
            Polled::End => {
                inner.fused = true;
                inner.closed.1 = true;
                (Polled::End, inner.task.0)
            },
            Polled::NotReady => {
                inner.task.1 = true;
                (Polled::NotReady, false)
            },
            Polled::Failed(error) => {
                inner.fused = true;
                inner.error = Some(error);
                inner.closed.1 = true;
                (Polled::End, inner.task.0)
            },
        }
    }
}

/// Whether two streams have given the halves of some pairs, in order and each
/// one once, but for the half that is still held.
pub open spec fn is_split<A, B, E>(
    u: UnzipInner<A, B, E>,
    pairs: Seq<(A, B)>,
    given_a: Seq<A>,
    given_b: Seq<B>,
) -> bool {
    let firsts = pairs.map_values(|p: (A, B)| p.0);
    let seconds = pairs.map_values(|p: (A, B)| p.1);
    match u.next {
        None => given_a == firsts && given_b == seconds,
        Some(Either::A(a)) => given_a.push(a) == firsts && given_b == seconds,
        Some(Either::B(b)) => given_a == firsts && given_b.push(b) == seconds,
    }
}

/// What was given, with what polling gave.
pub open spec fn with_item<T, E>(given: Seq<T>, polled: Polled<T, E>) -> Seq<T> {
    match polled {
        Polled::Item(item) => given.push(item),
        _ => given,
    }
}

/// The pairs that were polled, with what polling gave.
pub open spec fn with_pair<A, B, E>(pairs: Seq<(A, B)>, polled: Polled<(A, B), E>) -> Seq<(A, B)> {
    match polled {
        Polled::Item(pair) => pairs.push(pair),
        _ => pairs,
    }
}

/// Polling the first stream loses no half of a pair, gives none twice, and
/// keeps the order.
pub proof fn first_stream_keeps_the_split<A, B, E>(
    u: UnzipInner<A, B, E>,
    pairs: Seq<(A, B)>,
    given_a: Seq<A>,
    given_b: Seq<B>,
    polled: Polled<(A, B), E>,
)
    requires
        is_split(u, pairs, given_a, given_b),
    ensures
        ready_a(u) matches Some((after, item, _)) ==> is_split(
            after,
            pairs,
            with_item(given_a, item),
            given_b,
        ),
        ready_a(u) is None ==> is_split(
            after_a(u, polled).0,
            with_pair(pairs, polled),
            with_item(given_a, after_a(u, polled).1),
            given_b,
        ),
{
    if let Polled::Item(pair) = polled {
        let more = pairs.push(pair);
        assert(more.map_values(|p: (A, B)| p.0) =~= pairs.map_values(|p: (A, B)| p.0).push(pair.0));
        assert(more.map_values(|p: (A, B)| p.1) =~= pairs.map_values(|p: (A, B)| p.1).push(pair.1));
    }
}

/// Polling the second stream loses no half of a pair, gives none twice, and
/// keeps the order.
pub proof fn second_stream_keeps_the_split<A, B, E>(
    u: UnzipInner<A, B, E>,
    pairs: Seq<(A, B)>,
    given_a: Seq<A>,
    given_b: Seq<B>,
    polled: Polled<(A, B), E>,
)
    requires
        is_split(u, pairs, given_a, given_b),
    ensures
        ready_b(u) matches Some((after, item, _)) ==> is_split(
            after,
            pairs,
            given_a,
            with_item(given_b, item),
        ),
        ready_b(u) is None ==> is_split(
            after_b(u, polled).0,
            with_pair(pairs, polled),
            given_a,
            with_item(given_b, after_b(u, polled).1),
        ),
{
    if let Polled::Item(pair) = polled {
        let more = pairs.push(pair);
        assert(more.map_values(|p: (A, B)| p.0) =~= pairs.map_values(|p: (A, B)| p.0).push(pair.0));
        assert(more.map_values(|p: (A, B)| p.1) =~= pairs.map_values(|p: (A, B)| p.1).push(pair.1));
    }
}

/// Neither stream runs ahead of the other by more than one item.
pub proof fn streams_stay_together<A, B, E>(
    u: UnzipInner<A, B, E>,
    pairs: Seq<(A, B)>,
    given_a: Seq<A>,
    given_b: Seq<B>,
)
    requires
        is_split(u, pairs, given_a, given_b),
    ensures
        given_a.len() <= given_b.len() + 1,
        given_b.len() <= given_a.len() + 1,
        u.next is None ==> given_a.len() == given_b.len(),
{
    let firsts = pairs.map_values(|p: (A, B)| p.0);
    let seconds = pairs.map_values(|p: (A, B)| p.1);
    assert(firsts.len() == seconds.len());
    if let Some(Either::A(a)) = u.next {
        assert(given_a.push(a).len() == given_a.len() + 1);
    }
    if let Some(Either::B(b)) = u.next {
        assert(given_b.push(b).len() == given_b.len() + 1);
    }
}

/// What has come of some polls of the two streams: the pairs that were polled,
/// and what each stream has given.
pub ghost struct Given<A, B, E> {
    pub state: UnzipInner<A, B, E>,
    pub pairs: Seq<(A, B)>,
    pub firsts: Seq<A>,
    pub seconds: Seq<B>,
}

/// A poll: whether it is one of the second stream, and what the pairs give where
/// they are polled for it.
pub ghost struct Poll<A, B, E> {
    pub second: bool,
    pub pairs: Polled<(A, B), E>,
}

impl<A, B, E> Given<A, B, E> {
    /// Nothing has been polled.
    pub open spec fn nothing() -> Given<A, B, E> {
        Given {
            state: UnzipInner::fresh(),
            pairs: Seq::empty(),
            firsts: Seq::empty(),
            seconds: Seq::empty(),
        }
    }

    /// After another poll.
    pub open spec fn after(self, poll: Poll<A, B, E>) -> Given<A, B, E> {
        if poll.second {
            match ready_b(self.state) {
                Some((state, polled, _)) => Given {
                    state,
                    seconds: with_item(self.seconds, polled),
                    ..self
                },
                None => Given {
                    state: after_b(self.state, poll.pairs).0,
                    pairs: with_pair(self.pairs, poll.pairs),
                    seconds: with_item(self.seconds, after_b(self.state, poll.pairs).1),
                    ..self
                },
            }
        } else {
            match ready_a(self.state) {
                Some((state, polled, _)) => Given {
                    state,
                    firsts: with_item(self.firsts, polled),
                    ..self
                },
                None => Given {
                    state: after_a(self.state, poll.pairs).0,
                    pairs: with_pair(self.pairs, poll.pairs),
                    firsts: with_item(self.firsts, after_a(self.state, poll.pairs).1),
                    ..self
                },
            }
        }
    }
}

/// What has come of some polls, one after another.
pub open spec fn after_polls<A, B, E>(polls: Seq<Poll<A, B, E>>) -> Given<A, B, E>
    decreases polls.len(),
{
    if polls.len() == 0 {
        Given::nothing()
    } else {
        after_polls(polls.drop_last()).after(polls.last())
    }
}

proof fn lemma_polls_keep_the_split<A, B, E>(polls: Seq<Poll<A, B, E>>)
    ensures
        ({
            let given = after_polls(polls);
            is_split(given.state, given.pairs, given.firsts, given.seconds)
        }),
    decreases polls.len(),
{
    if polls.len() == 0 {
        let given = after_polls(polls);
        assert(given.firsts =~= given.pairs.map_values(|p: (A, B)| p.0));
        assert(given.seconds =~= given.pairs.map_values(|p: (A, B)| p.1));
    } else {
        let before = after_polls(polls.drop_last());
        lemma_polls_keep_the_split(polls.drop_last());
        if polls.last().second {
            second_stream_keeps_the_split(
                before.state,
                before.pairs,
                before.firsts,
                before.seconds,
                polls.last().pairs,
            );
        } else {
            first_stream_keeps_the_split(
                before.state,
                before.pairs,
                before.firsts,
                before.seconds,
                polls.last().pairs,
            );
        }
    }
}

/// In whichever order the two streams are polled, each gives its halves of the
/// pairs in order, none left out and none twice, and neither runs ahead of the
/// other by more than one.
pub proof fn streams_give_the_halves<A, B, E>(polls: Seq<Poll<A, B, E>>)
    ensures
        ({
            let given = after_polls(polls);
            &&& forall|i: int|
                0 <= i < given.firsts.len() ==> i < given.pairs.len() && #[trigger] given.firsts[i]
                    == given.pairs[i].0
            &&& forall|i: int|
                0 <= i < given.seconds.len() ==> i < given.pairs.len()
                    && #[trigger] given.seconds[i] == given.pairs[i].1
            &&& given.firsts.len() <= given.seconds.len() + 1
            &&& given.seconds.len() <= given.firsts.len() + 1
            &&& given.pairs.len() == given.firsts.len() || given.pairs.len()
                == given.seconds.len()
        }),
{
    let given = after_polls(polls);
    lemma_polls_keep_the_split(polls);
    streams_stay_together(given.state, given.pairs, given.firsts, given.seconds);
    let firsts = given.pairs.map_values(|p: (A, B)| p.0);
    let seconds = given.pairs.map_values(|p: (A, B)| p.1);
    assert(firsts.len() == given.pairs.len() && seconds.len() == given.pairs.len());
    match given.state.next {
        None => {
            assert(given.firsts == firsts && given.seconds == seconds);
        },
        Some(Either::A(a)) => {
            assert(given.firsts.push(a) == firsts && given.seconds == seconds);
            assert(given.firsts.push(a).len() == given.firsts.len() + 1);
        },
        Some(Either::B(b)) => {
            assert(given.firsts == firsts && given.seconds.push(b) == seconds);
            assert(given.seconds.push(b).len() == given.seconds.len() + 1);
        },
    }
    assert forall|i: int| 0 <= i < given.firsts.len() implies i < given.pairs.len()
        && #[trigger] given.firsts[i] == given.pairs[i].0 by {
        if let Some(Either::A(a)) = given.state.next {
            assert(given.firsts.push(a)[i] == given.firsts[i]);
        }
        assert(firsts[i] == given.pairs[i].0);
    }
    assert forall|i: int| 0 <= i < given.seconds.len() implies i < given.pairs.len()
        && #[trigger] given.seconds[i] == given.pairs[i].1 by {
        if let Some(Either::B(b)) = given.state.next {
            assert(given.seconds.push(b)[i] == given.seconds[i]);
        }
        assert(seconds[i] == given.pairs[i].1);
    }
}

/// While one stream has given half of a pair that the other one has not, it waits:
/// the pairs are not polled, and the other half is what the other one gives
/// next.
pub proof fn streams_wait_for_each_other<A, B, E>(polls: Seq<Poll<A, B, E>>)
    ensures
        ({
            let given = after_polls(polls);
            &&& given.firsts.len() > given.seconds.len() ==> {
                &&& ready_a(given.state) matches Some((after, polled, _))
                &&& polled is NotReady
                &&& after.next == given.state.next
                &&& ready_b(after) matches Some((_, item, _))
                &&& item == Polled::<B, ()>::Item(given.pairs.last().1)
                &&& given.firsts.last() == given.pairs.last().0
            }
            &&& given.seconds.len() > given.firsts.len() ==> {
                &&& ready_b(given.state) matches Some((after, polled, _))
                &&& polled is NotReady
                &&& after.next == given.state.next
                &&& ready_a(after) matches Some((_, item, _))
                &&& item == Polled::<A, E>::Item(given.pairs.last().0)
                &&& given.seconds.last() == given.pairs.last().1
            }
        }),
{
    let given = after_polls(polls);
    lemma_polls_keep_the_split(polls);
    streams_stay_together(given.state, given.pairs, given.firsts, given.seconds);
    let firsts = given.pairs.map_values(|p: (A, B)| p.0);
    let seconds = given.pairs.map_values(|p: (A, B)| p.1);
    assert(firsts.len() == given.pairs.len() && seconds.len() == given.pairs.len());
    if given.firsts.len() > given.seconds.len() {
        assert(firsts.last() == given.pairs.last().0 && seconds.last() == given.pairs.last().1);
        if let Some(Either::A(a)) = given.state.next {
            assert(given.firsts.push(a).len() == given.firsts.len() + 1);
        }
        if let Some(Either::B(b)) = given.state.next {
            assert(given.seconds.push(b).last() == b);
        }
    }
    if given.seconds.len() > given.firsts.len() {
        assert(firsts.last() == given.pairs.last().0 && seconds.last() == given.pairs.last().1);
        if let Some(Either::B(b)) = given.state.next {
            assert(given.seconds.push(b).len() == given.seconds.len() + 1);
        }
        if let Some(Either::A(a)) = given.state.next {
            assert(given.firsts.push(a).last() == a);
        }
    }
}

/// An error that the pairs give in a poll of the second stream ends that stream,
/// and the first stream gives it in its next poll, however often the second one
/// is polled before that.
pub proof fn errors_reach_the_first_stream<A, B, E>(
    polls: Seq<Poll<A, B, E>>,
    error: E,
    further: Seq<Polled<(A, B), E>>,
)
    requires
        ready_b(after_polls(polls).state) is None,
    ensures
        after_b(after_polls(polls).state, Polled::Failed(error)).1 is End,
        ({
            let failed = polls.push(Poll { second: true, pairs: Polled::Failed(error) });
            let later = after_polls(
                failed + further.map_values(
                    |p: Polled<(A, B), E>| Poll { second: true, pairs: p },
                ),
            );
            &&& ready_a(later.state) matches Some((_, polled, _))
            &&& polled == Polled::<A, E>::Failed(error)
            &&& later.pairs == after_polls(polls).pairs
            &&& later.firsts == after_polls(polls).firsts
            &&& later.seconds == after_polls(polls).seconds
        }),
{
    lemma_error_is_kept(polls, error, further);
}

proof fn lemma_error_is_kept<A, B, E>(
    polls: Seq<Poll<A, B, E>>,
    error: E,
    further: Seq<Polled<(A, B), E>>,
)
    requires
        ready_b(after_polls(polls).state) is None,
    ensures
        ({
            let failed = polls.push(Poll { second: true, pairs: Polled::Failed(error) });
            after_polls(
                failed + further.map_values(
                    |p: Polled<(A, B), E>| Poll { second: true, pairs: p },
                ),
            ) == (Given {
                state: after_b(after_polls(polls).state, Polled::Failed(error)).0,
                ..after_polls(polls)
            })
        }),
    decreases further.len(),
{
    let failed = polls.push(Poll { second: true, pairs: Polled::Failed(error) });
    let again = |p: Polled<(A, B), E>| Poll { second: true, pairs: p };
    let all = failed + further.map_values(again);
    if further.len() == 0 {
        assert(all =~= failed);
        assert(failed.drop_last() =~= polls);
    } else {
        lemma_error_is_kept(polls, error, further.drop_last());
        assert(all.drop_last() =~= failed + further.drop_last().map_values(again));
        assert(all.last() == again(further.last()));
    }
}

/// A stream that is polled gives the half that is held for it, waits for the other
/// stream while that one has still to take its half, and has the pairs polled where no
/// half is held and nothing has ended. A stream ends once, and then gives nothing; an
/// error that is kept is given by the first stream, once.
pub proof fn polls_give_what_is_held<A, B, E>(
    first: Unzip,
    second: UnzipStream,
    before: UnzipInner<A, B, E>,
    of_first: Step<A, E>,
    after_first: UnzipInner<A, B, E>,
    of_second: Step<B, ()>,
    after_second: UnzipInner<A, B, E>,
)
    requires
        exists|inner: &mut UnzipInner<A, B, E>| #[trigger]
            call_ensures(Unzip::poll::<A, B, E>, (&first, inner), of_first) && *inner == before
                && *final(inner) == after_first,
        exists|inner: &mut UnzipInner<A, B, E>| #[trigger]
            call_ensures(UnzipStream::poll::<A, B, E>, (&second, inner), of_second) && *inner
                == before && *final(inner) == after_second,
    ensures
        before.next matches Some(Either::A(a)) ==> {
            &&& of_first == (Step::Done { polled: Polled::<A, E>::Item(a), notify: before.task.1 })
            &&& after_first.next is None
            &&& of_second == (Step::Done { polled: Polled::<B, ()>::NotReady, notify: false })
            &&& after_second.next == before.next && after_second.task.1
        },
        before.next matches Some(Either::B(b)) ==> {
            &&& of_second == (Step::Done { polled: Polled::<B, ()>::Item(b), notify: before.task.0 })
            &&& after_second.next is None
            &&& of_first == (Step::Done { polled: Polled::<A, E>::NotReady, notify: false })
            &&& after_first.next == before.next && after_first.task.0
        },
        before.next is None && before.error is Some ==> {
            &&& of_first == (Step::Done {
                polled: Polled::<A, E>::Failed(before.error->0),
                notify: false,
            })
            &&& after_first.error is None && after_first.closed.0
        },
        of_first is PollPairs <==> before.next is None && before.error is None && !before.fused,
        of_second is PollPairs <==> before.next is None && !before.fused,
        before.next is None && before.error is None && before.fused ==> {
            &&& of_first == (Step::Done {
                polled: if before.closed.0 {
                    Polled::<A, E>::NotReady
                } else {
                    Polled::<A, E>::End
                },
                notify: false,
            })
            &&& after_first.closed.0
        },
        before.next is None && before.fused ==> {
            &&& of_second == (Step::Done {
                polled: if before.closed.1 {
                    Polled::<B, ()>::NotReady
                } else {
                    Polled::<B, ()>::End
                },
                notify: false,
            })
            &&& after_second.closed.1 && after_second.error == before.error
        },
{
}

/// A pair that is polled for one stream is halved: that stream gives its half, and the
/// other one is held for the other stream, whose task is notified where it waits. The
/// end of the pairs ends the stream, an error ends the pairs and is given by the first
/// stream or kept for it, and pairs that are not ready are waited for.
pub proof fn pairs_are_halved<A, B, E>(
    first: Unzip,
    second: UnzipStream,
    before: UnzipInner<A, B, E>,
    pairs: Polled<(A, B), E>,
    of_first: (Polled<A, E>, bool),
    after_first: UnzipInner<A, B, E>,
    of_second: (Polled<B, ()>, bool),
    after_second: UnzipInner<A, B, E>,
)
    requires
        exists|inner: &mut UnzipInner<A, B, E>| #[trigger]
            call_ensures(Unzip::polled::<A, B, E>, (&first, inner, pairs), of_first) && *inner
                == before && *final(inner) == after_first,
        exists|inner: &mut UnzipInner<A, B, E>| #[trigger]
            call_ensures(UnzipStream::polled::<A, B, E>, (&second, inner, pairs), of_second)
                && *inner == before && *final(inner) == after_second,
    ensures
        pairs matches Polled::Item(pair) ==> {
            &&& of_first.0 == Polled::<A, E>::Item(pair.0) && of_first.1 == before.task.1
            &&& after_first.next == Some(Either::<A, B>::B(pair.1))
            &&& of_second.0 == Polled::<B, ()>::Item(pair.1) && of_second.1 == before.task.0
            &&& after_second.next == Some(Either::<A, B>::A(pair.0))
            &&& after_first.fused == before.fused && after_second.fused == before.fused
        },
        pairs is End ==> {
            &&& of_first.0 is End && after_first.fused && after_first.closed.0
            &&& of_second.0 is End && after_second.fused && after_second.closed.1
            &&& of_first.1 == before.task.1 && of_second.1 == before.task.0
        },
        pairs is NotReady ==> {
            &&& of_first.0 is NotReady && !of_first.1 && after_first.task.0
            &&& of_second.0 is NotReady && !of_second.1 && after_second.task.1
            &&& after_first.fused == before.fused && after_second.fused == before.fused
        },
        pairs matches Polled::Failed(error) ==> {
            &&& of_first.0 == Polled::<A, E>::Failed(error) && after_first.fused
            &&& of_second.0 is End && after_second.fused && after_second.error == Some(error)
            &&& after_first.error == before.error
            &&& of_first.1 == before.task.1 && of_second.1 == before.task.0
        },
{
}

} // verus!
