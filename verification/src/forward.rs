//! The course of forwarding: every event of a session goes to the sinks, until
//! the session closes the queue, and then the sinks are finished.
//!
//! A [`Forwarder`] performs no I/O of its own. It says what to do next, and is
//! told what came of it.

use vstd::prelude::*;

use crate::session::{recorded, Event, Recorded};
use crate::sink::{
    each_sink_is_kept_or_logged, faithful, faithful_sinks_are_fed, first_essential_sink_counts,
    first_failure, first_of, healthy, known_failure, minor_failures, positions, results_of,
    still_fed, Answers, Fanout, Sink,
};

verus! {

/// What forwarding is waiting for.
#[derive(Clone, Copy, Debug, PartialEq, Eq, Structural)]
pub enum ForwardStage {
    Receiving,
    Feeding,
    Finishing,
    Done,
}

/// What to do next about forwarding.
#[derive(Debug)]
pub enum ForwardStep<V, E> {
    /// Wait for an event, or for the queue to be closed.
    Receive,
    /// Feed every sink with this event.
    Feed(V),
    /// Finish the first of the sinks.
    FinishFirst,
    /// Return this: the first failure of an essential sink, if any.
    Return(Option<E>),
}

impl<E> View for ForwardStep<Event, E> {
    type V = ForwardStep<Recorded, E>;

    open spec fn view(&self) -> ForwardStep<Recorded, E> {
        match *self {
            ForwardStep::Receive => ForwardStep::Receive,
            ForwardStep::Feed(event) => ForwardStep::Feed(event@),
            ForwardStep::FinishFirst => ForwardStep::FinishFirst,
            ForwardStep::Return(failure) => ForwardStep::Return(failure),
        }
    }
}

/// What came of the last step about forwarding.
#[derive(Debug)]
pub enum ForwardReply<V, R, E> {
    /// An event came, or the queue was closed.
    Received(Option<V>),
    /// The sinks were fed, with these results, in the order of the sinks.
    Fed(R),
    /// The first of the sinks was finished.
    Finished(Result<(), E>),
}

/// The model of a reply.
pub type ReplyModel<E> = ForwardReply<Recorded, Seq<Result<(), E>>, E>;

impl<E> View for ForwardReply<Event, Vec<Result<(), E>>, E> {
    type V = ReplyModel<E>;

    open spec fn view(&self) -> ReplyModel<E> {
        match *self {
            ForwardReply::Received(event) => ForwardReply::Received(recorded(event)),
            ForwardReply::Fed(results) => ForwardReply::Fed(results@),
            ForwardReply::Finished(result) => ForwardReply::Finished(result),
        }
    }
}

/// The model of a [`Forwarder`].
#[verifier::ext_equal]
pub struct ForwardState<O, E> {
    /// The sinks still fed, or, once the queue is closed, still to be finished.
    pub sinks: Seq<Sink<O>>,
    /// The first failure of an essential sink, until it is returned.
    pub failure: Option<E>,
    pub stage: ForwardStage,
}

impl<O, E> ForwardState<O, E> {
    /// Forwarding about to begin.
    pub open spec fn initial(sinks: Seq<Sink<O>>) -> ForwardState<O, E> {
        ForwardState { sinks, failure: None, stage: ForwardStage::Receiving }
    }

    /// Whether this may have come of the last step.
    pub open spec fn expects(self, reply: ReplyModel<E>) -> bool {
        match reply {
            ForwardReply::Received(_) => self.stage is Receiving,
            ForwardReply::Fed(results) => self.stage is Feeding && results.len()
                == self.sinks.len(),
            ForwardReply::Finished(_) => self.stage is Finishing && self.sinks.len() > 0,
        }
    }

    /// Finishes the next sink. With none left, forwarding is over.
    pub open spec fn finish(self) -> (ForwardState<O, E>, ForwardStep<Recorded, E>) {
        if self.sinks.len() > 0 {
            (ForwardState { stage: ForwardStage::Finishing, ..self }, ForwardStep::FinishFirst)
        } else {
            (
                ForwardState { failure: None, stage: ForwardStage::Done, ..self },
                ForwardStep::Return(self.failure),
            )
        }
    }

    /// Goes on with what came of the last step.
    pub open spec fn go_on(self, reply: ReplyModel<E>) -> (
        ForwardState<O, E>,
        ForwardStep<Recorded, E>,
    ) {
        match reply {
            ForwardReply::Received(Some(event)) => (
                ForwardState { stage: ForwardStage::Feeding, ..self },
                ForwardStep::Feed(event),
            ),
            ForwardReply::Received(None) => self.finish(),
            ForwardReply::Fed(results) => (
                ForwardState {
                    sinks: healthy(self.sinks, results),
                    failure: first_of(self.failure, first_failure(self.sinks, results)),
                    stage: ForwardStage::Receiving,
                },
                ForwardStep::Receive,
            ),
            ForwardReply::Finished(result) => ForwardState {
                sinks: self.sinks.drop_first(),
                failure: first_of(
                    self.failure,
                    first_failure(self.sinks.take(1), seq![result]),
                ),
                stage: self.stage,
            }.finish(),
        }
    }

    /// The failures which are only to be logged, of what came of the last step.
    pub open spec fn logged(self, reply: ReplyModel<E>) -> Seq<E> {
        match reply {
            ForwardReply::Received(_) => Seq::empty(),
            ForwardReply::Fed(results) => minor_failures(self.sinks, results),
            ForwardReply::Finished(result) => minor_failures(self.sinks.take(1), seq![result]),
        }
    }
}

/// Forwards the events of a session to its sinks.
#[derive(Debug)]
pub struct Forwarder<O, E> {
    fanout: Fanout<O, E>,
    stage: ForwardStage,
}

impl<O, E> View for Forwarder<O, E> {
    type V = ForwardState<O, E>;

    closed spec fn view(&self) -> ForwardState<O, E> {
        ForwardState {
            sinks: self.fanout.sinks@,
            failure: self.fanout.failure,
            stage: self.stage,
        }
    }
}

impl<O, E> Forwarder<O, E> {
    /// Forwarding about to begin. Its first step is [`ForwardStep::Receive`].
    pub fn new(sinks: Vec<Sink<O>>) -> (forwarder: Self)
        ensures
            forwarder@ == ForwardState::<O, E>::initial(sinks@),
            forwarder@.sinks == sinks@,
            forwarder@.failure is None,
            forwarder@.stage is Receiving,
    {
        Forwarder { fanout: Fanout::new(sinks), stage: ForwardStage::Receiving }
    }

    /// The sinks to feed, or to finish.
    pub fn sinks_mut(&mut self) -> (sinks: &mut Vec<Sink<O>>)
        ensures
            sinks@ == old(self)@.sinks,
            final(self)@ == (ForwardState::<O, E> { sinks: final(sinks)@, ..old(self)@ }),
    {
        &mut self.fanout.sinks
    }

    /// Tells whether this may have come of the last step.
    pub fn expects(&self, reply: &ForwardReply<Event, Vec<Result<(), E>>, E>) -> (expected: bool)
        ensures
            expected == self@.expects(reply@),
    {
        match reply {
            ForwardReply::Received(_) => self.stage == ForwardStage::Receiving,
            ForwardReply::Fed(results) => self.stage == ForwardStage::Feeding && results.len()
                == self.fanout.sinks.len(),
            ForwardReply::Finished(_) => self.stage == ForwardStage::Finishing
                && self.fanout.sinks.len() > 0,
        }
    }

    fn finish(&mut self) -> (step: ForwardStep<Event, E>)
        ensures
            (final(self)@, step@) == old(self)@.finish(),
    {
        if self.fanout.sinks.len() > 0 {
            self.stage = ForwardStage::Finishing;
            ForwardStep::FinishFirst
        } else {
            self.stage = ForwardStage::Done;
            ForwardStep::Return(self.fanout.failure.take())
        }
    }

    /// Takes in what came of the last step, and says what to do next. Comes
    /// with failures which are only to be logged.
    pub fn go_on(&mut self, reply: ForwardReply<Event, Vec<Result<(), E>>, E>) -> (next: (
        ForwardStep<Event, E>,
        Vec<E>,
    ))
        requires
            old(self)@.expects(reply@),
        ensures
            (final(self)@, next.0@) == old(self)@.go_on(reply@),
            next.1@ == old(self)@.logged(reply@),
            reply matches ForwardReply::Received(Some(event)) ==> next.0 == ForwardStep::<
                Event,
                E,
            >::Feed(event) && next.1@.len() == 0,
            reply is Fed ==> next.0 is Receive,
    {
        match reply {
            ForwardReply::Received(Some(event)) => {
                self.stage = ForwardStage::Feeding;
                (ForwardStep::Feed(event), Vec::new())
            },
            ForwardReply::Received(None) => (self.finish(), Vec::new()),
            ForwardReply::Fed(results) => {
                let logged = self.fanout.delivered(results);
                self.stage = ForwardStage::Receiving;
                (ForwardStep::Receive, logged)
            },
            ForwardReply::Finished(result) => {
                proof {
                    lemma_single(self@.sinks, result);
                }
                let mut logged: Vec<E> = Vec::new();
                if let Some(error) = self.fanout.finished_first(result) {
                    logged.push(error);
                }
                (self.finish(), logged)
            },
        }
    }
}

/// What finishing a single sink says about the failure, and what is logged.
proof fn lemma_single<O, E>(sinks: Seq<Sink<O>>, result: Result<(), E>)
    requires
        sinks.len() > 0,
    ensures
        first_failure(sinks.take(1), seq![result]) == (match result {
            Err(error) if sinks[0].essential => Some(error),
            _ => None,
        }),
        minor_failures(sinks.take(1), seq![result]) == (match result {
            Err(error) if !sinks[0].essential => seq![error],
            _ => Seq::empty(),
        }),
{
    reveal_with_fuel(first_failure, 2);
    reveal_with_fuel(minor_failures, 2);
    assert(sinks.take(1).last() == sinks[0]);
    assert(seq![result].last() == result);
}

/// Forwarding, after some replies.
pub open spec fn forward_reached<O, E>(
    start: ForwardState<O, E>,
    replies: Seq<ReplyModel<E>>,
) -> ForwardState<O, E>
    decreases replies.len(),
{
    if replies.len() == 0 {
        start
    } else {
        forward_reached(start, replies.drop_last()).go_on(replies.last()).0
    }
}

/// Whether forwarding was waiting for each reply when it came.
pub open spec fn forward_possible<O, E>(
    start: ForwardState<O, E>,
    replies: Seq<ReplyModel<E>>,
) -> bool
    decreases replies.len(),
{
    replies.len() > 0 ==> {
        &&& forward_possible(start, replies.drop_last())
        &&& forward_reached(start, replies.drop_last()).expects(replies.last())
    }
}

/// Everything forwarding said to do, the last of it in answer to the last
/// reply.
pub open spec fn forward_steps<O, E>(
    start: ForwardState<O, E>,
    replies: Seq<ReplyModel<E>>,
) -> Seq<ForwardStep<Recorded, E>>
    decreases replies.len(),
{
    if replies.len() == 0 {
        seq![ForwardStep::Receive]
    } else {
        forward_steps(start, replies.drop_last()).push(
            forward_reached(start, replies.drop_last()).go_on(replies.last()).1,
        )
    }
}

/// Everything to be logged.
pub open spec fn forward_log<O, E>(
    start: ForwardState<O, E>,
    replies: Seq<ReplyModel<E>>,
) -> Seq<E>
    decreases replies.len(),
{
    if replies.len() == 0 {
        Seq::empty()
    } else {
        forward_log(start, replies.drop_last()) + forward_reached(
            start,
            replies.drop_last(),
        ).logged(replies.last())
    }
}

/// The events which came out of the queue.
pub open spec fn events_taken<E>(replies: Seq<ReplyModel<E>>) -> Seq<Recorded>
    decreases replies.len(),
{
    if replies.len() == 0 {
        Seq::empty()
    } else {
        let so_far = events_taken(replies.drop_last());
        match replies.last() {
            ForwardReply::Received(Some(event)) => so_far.push(event),
            _ => so_far,
        }
    }
}

/// The events which the sinks are fed with.
pub open spec fn events_fed<E>(steps: Seq<ForwardStep<Recorded, E>>) -> Seq<Recorded>
    decreases steps.len(),
{
    if steps.len() == 0 {
        Seq::empty()
    } else {
        let so_far = events_fed(steps.drop_last());
        match steps.last() {
            ForwardStep::Feed(event) => so_far.push(event),
            _ => so_far,
        }
    }
}

/// The sinks are fed with all events which come out of the queue, once each, in
/// the order they come.
pub proof fn every_event_is_fed<O, E>(start: ForwardState<O, E>, replies: Seq<ReplyModel<E>>)
    ensures
        forward_steps(start, replies).len() == replies.len() + 1,
        events_fed(forward_steps(start, replies)) == events_taken(replies),
    decreases replies.len(),
{
    let steps = forward_steps(start, replies);
    if replies.len() == 0 {
        assert(steps.drop_last() =~= Seq::empty());
        assert(steps.last() is Receive);
        assert(events_fed(steps.drop_last()) =~= Seq::empty());
    } else {
        every_event_is_fed(start, replies.drop_last());
        assert(steps.drop_last() =~= forward_steps(start, replies.drop_last()));
    }
}

/// Forwarding is always waiting for what it asked for.
pub proof fn forwarding_expects_what_it_asked_for<O, E>(
    state: ForwardState<O, E>,
    reply: ReplyModel<E>,
)
    requires
        state.expects(reply),
    ensures
        ({
            let (next, step) = state.go_on(reply);
            match step {
                ForwardStep::Receive => forall|event: Option<Recorded>| #[trigger]
                    next.expects(ForwardReply::Received(event)),
                ForwardStep::Feed(_) => forall|results: Seq<Result<(), E>>|
                    #![trigger next.expects(ForwardReply::Fed(results))]
                    results.len() == next.sinks.len() ==> next.expects(ForwardReply::Fed(results)),
                ForwardStep::FinishFirst => forall|result: Result<(), E>| #[trigger]
                    next.expects(ForwardReply::Finished(result)),
                ForwardStep::Return(_) => forall|any: ReplyModel<E>| !#[trigger] next.expects(any),
            }
        }),
{
}

/// Whether the queue was found closed at a point, with nothing but feeding
/// before, and nothing but finishing after.
pub open spec fn closed_at<O, E>(
    start: ForwardState<O, E>,
    replies: Seq<ReplyModel<E>>,
    at: int,
) -> bool {
    &&& 0 <= at < replies.len()
    &&& replies[at] == ReplyModel::<E>::Received(None)
    &&& forward_reached(start, replies.take(at)).stage is Receiving
    &&& forall|i: int|
        0 <= i < at ==> !((#[trigger] replies[i]) is Finished) && replies[i] != ReplyModel::<
            E,
        >::Received(None)
    &&& forall|i: int| at < i < replies.len() ==> (#[trigger] replies[i]) is Finished
}

/// Sinks are finished only once the queue was closed, after which they aren't
/// fed anymore. When forwarding returns, each sink which was still fed when the
/// queue was closed has been finished, once, and none before.
pub proof fn finishing_follows_closing<O, E>(
    start: ForwardState<O, E>,
    replies: Seq<ReplyModel<E>>,
)
    requires
        start.stage is Receiving,
        forward_possible(start, replies),
    ensures
        ({
            let state = forward_reached(start, replies);
            if state.stage is Finishing || state.stage is Done {
                exists|at: int|
                    {
                        let closing = forward_reached(start, replies.take(at));
                        let finished = replies.len() - at - 1;
                        &&& #[trigger] closed_at(start, replies, at)
                        &&& finished <= closing.sinks.len()
                        &&& state.sinks == closing.sinks.skip(finished)
                        &&& (state.stage is Done <==> finished == closing.sinks.len())
                    }
            } else {
                forall|i: int|
                    0 <= i < replies.len() ==> !((#[trigger] replies[i]) is Finished) && replies[i]
                        != ReplyModel::<E>::Received(None)
            }
        }),
    decreases replies.len(),
{
    if replies.len() > 0 {
        let earlier = replies.drop_last();
        let last = replies.len() - 1;
        let before = forward_reached(start, earlier);
        let state = forward_reached(start, replies);
        finishing_follows_closing(start, earlier);
        assert(replies[last] == replies.last());
        assert forall|i: int| 0 <= i < last implies earlier[i] == #[trigger] replies[i] by {}
        if before.stage is Finishing {
            let at = choose|at: int|
                {
                    let closing = forward_reached(start, earlier.take(at));
                    let finished = earlier.len() - at - 1;
                    &&& #[trigger] closed_at(start, earlier, at)
                    &&& finished <= closing.sinks.len()
                    &&& before.sinks == closing.sinks.skip(finished)
                    &&& (before.stage is Done <==> finished == closing.sinks.len())
                };
            let closing = forward_reached(start, earlier.take(at));
            let finished = earlier.len() - at - 1;
            assert(replies.take(at) =~= earlier.take(at));
            assert forall|i: int| at < i < replies.len() implies (#[trigger] replies[i])
                is Finished by {
                if i < last {
                    assert(earlier[i] is Finished);
                }
            }
            assert forall|i: int| 0 <= i < at implies !((#[trigger] replies[i]) is Finished)
                && replies[i] != ReplyModel::<E>::Received(None) by {
                assert(!(earlier[i] is Finished));
            }
            assert(replies[at] == earlier[at]);
            assert(closed_at(start, replies, at));
            assert(before.sinks.drop_first() =~= closing.sinks.skip(finished + 1));
        } else if replies.last() == ReplyModel::<E>::Received(None) {
            assert(replies.take(last) =~= earlier);
            assert forall|i: int| 0 <= i < last implies !((#[trigger] replies[i]) is Finished)
                && replies[i] != ReplyModel::<E>::Received(None) by {
                assert(!(earlier[i] is Finished));
            }
            assert(closed_at(start, replies, last));
            assert(before.sinks.skip(0) =~= before.sinks);
        } else {
            assert forall|i: int| 0 <= i < replies.len() implies !((#[trigger] replies[i])
                is Finished) && replies[i] != ReplyModel::<E>::Received(None) by {
                if i < last {
                    assert(!(earlier[i] is Finished));
                }
            }
        }
    }
}

/// What finishing gives back, as replies.
pub open spec fn finished_with<E>(results: Seq<Result<(), E>>) -> Seq<ReplyModel<E>> {
    results.map_values(|result: Result<(), E>| ReplyModel::<E>::Finished(result))
}

proof fn lemma_finishing<O, E>(
    start: ForwardState<O, E>,
    before: Seq<ReplyModel<E>>,
    results: Seq<Result<(), E>>,
    count: int,
)
    requires
        forward_possible(start, before),
        forward_reached(start, before).stage is Receiving,
        results.len() == forward_reached(start, before).sinks.len(),
        0 <= count <= results.len(),
    ensures
        ({
            let open = forward_reached(start, before);
            let replies = before.push(ForwardReply::Received(None)) + finished_with(
                results.take(count),
            );
            let failure = first_of(
                open.failure,
                first_failure(open.sinks.take(count), results.take(count)),
            );
            &&& forward_possible(start, replies)
            &&& forward_log(start, replies) == forward_log(start, before) + minor_failures(
                open.sinks.take(count),
                results.take(count),
            )
            &&& forward_reached(start, replies) == (if count < results.len() {
                ForwardState::<O, E> {
                    sinks: open.sinks.skip(count),
                    failure,
                    stage: ForwardStage::Finishing,
                }
            } else {
                ForwardState::<O, E> {
                    sinks: Seq::empty(),
                    failure: None,
                    stage: ForwardStage::Done,
                }
            })
            &&& forward_steps(start, replies).last() == (if count < results.len() {
                ForwardStep::<Recorded, E>::FinishFirst
            } else {
                ForwardStep::<Recorded, E>::Return(failure)
            })
        }),
    decreases count,
{
    let open = forward_reached(start, before);
    let closing = ReplyModel::<E>::Received(None);
    let replies = before.push(closing) + finished_with(results.take(count));
    if count == 0 {
        assert(replies =~= before.push(closing));
        assert(replies.drop_last() =~= before);
        assert(open.sinks.skip(0) =~= open.sinks);
        if results.len() == 0 {
            assert(open.sinks =~= Seq::empty());
        }
        assert(forward_log(start, replies) =~= forward_log(start, before) + minor_failures(
            open.sinks.take(0),
            results.take(0),
        ));
    } else {
        let i = count - 1;
        let result = results[i];
        let earlier = before.push(closing) + finished_with(results.take(i));
        let state = forward_reached(start, earlier);
        lemma_finishing(start, before, results, i);
        assert(replies.drop_last() =~= earlier);
        assert(replies.last() == ReplyModel::<E>::Finished(result));
        assert(open.sinks.take(count).drop_last() =~= open.sinks.take(i));
        assert(results.take(count).drop_last() =~= results.take(i));
        assert(state.sinks[0] == open.sinks[i]);
        lemma_single(state.sinks, result);
        assert(state.sinks.drop_first() =~= open.sinks.skip(count));
        if count == results.len() {
            assert(open.sinks.skip(count) =~= Seq::empty());
        }
        assert(forward_log(start, replies) =~= forward_log(start, before) + minor_failures(
            open.sinks.take(count),
            results.take(count),
        ));
    }
}

/// Once the queue is closed, the sinks still fed are finished one by one, in
/// order, whatever comes of it. Then the first failure of an essential sink is
/// returned, of those known before and those of finishing, and failures of
/// ordinary sinks are logged.
pub proof fn all_sinks_are_finished<O, E>(
    start: ForwardState<O, E>,
    before: Seq<ReplyModel<E>>,
    results: Seq<Result<(), E>>,
)
    requires
        forward_possible(start, before),
        forward_reached(start, before).stage is Receiving,
        results.len() == forward_reached(start, before).sinks.len(),
    ensures
        ({
            let open = forward_reached(start, before);
            let replies = before.push(ForwardReply::Received(None)) + finished_with(results);
            &&& forward_possible(start, replies)
            &&& forward_reached(start, replies).stage is Done
            &&& forward_steps(start, replies).last() == ForwardStep::<Recorded, E>::Return(
                first_of(open.failure, first_failure(open.sinks, results)),
            )
            &&& forward_log(start, replies) == forward_log(start, before) + minor_failures(
                open.sinks,
                results,
            )
        }),
{
    let open = forward_reached(start, before);
    lemma_finishing(start, before, results, results.len() as int);
    assert(results.take(results.len() as int) =~= results);
    assert(open.sinks.take(results.len() as int) =~= open.sinks);
}

/// What forwarding some events gives back, as replies, when the sinks answer
/// this way.
pub open spec fn answered<E>(
    count: nat,
    answers: Answers<E>,
    events: Seq<Recorded>,
) -> Seq<ReplyModel<E>>
    decreases events.len(),
{
    if events.len() == 0 {
        Seq::empty()
    } else {
        let k = events.len() - 1;
        answered(count, answers, events.drop_last()).push(
            ForwardReply::Received(Some(events.last())),
        ).push(ForwardReply::Fed(results_of(faithful(count, answers, k), answers, k)))
    }
}

proof fn lemma_answered<O, E>(sinks: Seq<Sink<O>>, answers: Answers<E>, events: Seq<Recorded>)
    ensures
        ({
            let start = ForwardState::<O, E>::initial(sinks);
            let replies = answered(sinks.len(), answers, events);
            &&& forward_possible(start, replies)
            &&& events_taken(replies) == events
            &&& forward_reached(start, replies) == (ForwardState::<O, E> {
                sinks: still_fed(sinks, answers, events.len()),
                failure: known_failure(sinks, answers, events.len()),
                stage: ForwardStage::Receiving,
            })
        }),
    decreases events.len(),
{
    let start = ForwardState::<O, E>::initial(sinks);
    let replies = answered(sinks.len(), answers, events);
    if events.len() > 0 {
        let k = events.len() - 1;
        let earlier = answered(sinks.len(), answers, events.drop_last());
        let received = earlier.push(ForwardReply::Received(Some(events.last())));
        lemma_answered(sinks, answers, events.drop_last());
        faithful_sinks_are_fed(sinks, answers, k as nat);
        assert(replies.drop_last() =~= received);
        assert(received.drop_last() =~= earlier);
        let results = results_of(faithful(sinks.len(), answers, k), answers, k);
        let open = forward_reached(start, earlier);
        assert(open.expects(received.last()));
        assert(forward_possible(start, received));
        assert(forward_reached(start, received) == open.go_on(received.last()).0);
        assert(replies.last() == ReplyModel::<E>::Fed(results));
        assert(results.len() == open.sinks.len());
        assert(forward_possible(start, replies));
        assert(events_taken(received) == events_taken(earlier).push(events.last()));
        assert(events_taken(replies) == events_taken(received));
        assert(still_fed(sinks, answers, events.len()) == healthy(open.sinks, results));
        assert(events.drop_last().push(events.last()) =~= events);
    } else {
        assert(events =~= Seq::empty());
    }
}

/// Forwarding in one piece, for sinks which answer one way or another: the
/// sinks are fed with all events, then those which took in all of them are
/// finished, and the first failure of an essential sink is returned, if there
/// is one among feeding and finishing.
pub proof fn forwarding_returns_first_essential_failure<O, E>(
    sinks: Seq<Sink<O>>,
    answers: Answers<E>,
    events: Seq<Recorded>,
)
    ensures
        ({
            let start = ForwardState::<O, E>::initial(sinks);
            let count = events.len() as int;
            let fed = answered(sinks.len(), answers, events);
            let replies = fed.push(ForwardReply::Received(None)) + finished_with(
                results_of(faithful(sinks.len(), answers, count), answers, count),
            );
            &&& forward_possible(start, replies)
            &&& events_fed(forward_steps(start, fed)) == events
            &&& forward_reached(start, fed).sinks == faithful(
                sinks.len(),
                answers,
                count,
            ).map_values(|sink: int| sinks[sink])
            &&& forward_steps(start, replies).last() == ForwardStep::<Recorded, E>::Return(
                known_failure(sinks, answers, events.len() + 1),
            )
        }),
{
    let start = ForwardState::<O, E>::initial(sinks);
    let count = events.len() as int;
    let fed = answered(sinks.len(), answers, events);
    lemma_answered(sinks, answers, events);
    faithful_sinks_are_fed(sinks, answers, events.len());
    every_event_is_fed(start, fed);
    all_sinks_are_finished(
        start,
        fed,
        results_of(faithful(sinks.len(), answers, count), answers, count),
    );
}

/// Forwarding goes on after each event, however many sinks are left. It feeds
/// the sinks for each event which came, and finishes them only once the queue
/// is closed, one for as long as there is one.
pub proof fn forwarding_does_what_is_due<O, E>(state: ForwardState<O, E>, reply: ReplyModel<E>)
    requires
        state.expects(reply),
    ensures
        ({
            let (next, step) = state.go_on(reply);
            let closed = reply is Finished || reply == ReplyModel::<E>::Received(None);
            &&& step is Receive <==> reply is Fed
            &&& step is Feed <==> (reply matches ForwardReply::Received(Some(_)))
            &&& reply matches ForwardReply::Received(Some(event)) ==> step
                == ForwardStep::<Recorded, E>::Feed(event)
            &&& step is FinishFirst <==> closed && next.sinks.len() > 0
            &&& step is Return <==> closed && next.sinks.len() == 0
        }),
{
}

/// What is known of failures changes only with what the sinks report. It is
/// kept until it is returned, at the very end, and nothing is made up.
pub proof fn failures_come_from_sinks<O, E>(state: ForwardState<O, E>, reply: ReplyModel<E>)
    requires
        state.expects(reply),
    ensures
        ({
            let (next, step) = state.go_on(reply);
            let known = if let ForwardStep::Return(failure) = step {
                failure
            } else {
                next.failure
            };
            &&& state.failure is Some ==> known == state.failure
            &&& state.failure is None ==> match reply {
                ForwardReply::Received(_) => known is None,
                ForwardReply::Fed(results) => match known {
                    None => forall|i: int|
                        0 <= i < results.len() ==> !((#[trigger] results[i]) is Err
                            && state.sinks[i].essential),
                    Some(error) => exists|i: int|
                        {
                            &&& 0 <= i < results.len()
                            &&& (#[trigger] results[i]) == Err::<(), E>(error)
                            &&& state.sinks[i].essential
                        },
                },
                ForwardReply::Finished(Err(error)) => if state.sinks[0].essential {
                    known == Some(error)
                } else {
                    known is None
                },
                ForwardReply::Finished(Ok(())) => known is None,
            }
        }),
{
    if let ForwardReply::Fed(results) = reply {
        first_essential_sink_counts(state.sinks, results);
    }
    if let ForwardReply::Finished(result) = reply {
        lemma_single(state.sinks, result);
    }
}

/// Each failure of an ordinary sink is logged when it is reported, once, in
/// the order of the sinks. Nothing else is logged.
pub proof fn ordinary_failures_are_logged<O, E>(state: ForwardState<O, E>, reply: ReplyModel<E>)
    requires
        state.expects(reply),
    ensures
        match reply {
            ForwardReply::Received(_) => state.logged(reply).len() == 0,
            ForwardReply::Fed(results) => state.logged(reply) == positions(
                state.sinks.len(),
            ).filter(|i: int| results[i] is Err && !state.sinks[i].essential).map_values(
                |i: int| results[i]->Err_0,
            ),
            ForwardReply::Finished(Err(error)) => state.logged(reply) == (
            if state.sinks[0].essential {
                Seq::empty()
            } else {
                seq![error]
            }),
            ForwardReply::Finished(Ok(())) => state.logged(reply).len() == 0,
        },
{
    if let ForwardReply::Fed(results) = reply {
        each_sink_is_kept_or_logged(state.sinks, results);
    }
    if let ForwardReply::Finished(result) = reply {
        lemma_single(state.sinks, result);
    }
}

/// The sinks are left alone except for those which failed, when fed, and for
/// the first one, once finished.
pub proof fn sinks_are_dropped_when_done<O, E>(state: ForwardState<O, E>, reply: ReplyModel<E>)
    requires
        state.expects(reply),
    ensures
        match reply {
            ForwardReply::Received(_) => state.go_on(reply).0.sinks == state.sinks,
            ForwardReply::Fed(results) => state.go_on(reply).0.sinks == positions(
                state.sinks.len(),
            ).filter(|i: int| results[i] is Ok).map_values(|i: int| state.sinks[i]),
            ForwardReply::Finished(_) => seq![state.sinks[0]] + state.go_on(reply).0.sinks
                == state.sinks,
        },
{
    if let ForwardReply::Fed(results) = reply {
        each_sink_is_kept_or_logged(state.sinks, results);
    }
    if let ForwardReply::Finished(_) = reply {
        assert(seq![state.sinks[0]] + state.go_on(reply).0.sinks =~= state.sinks);
    }
}

/// Forwarding starts by waiting for an event, with all sinks and no failure.
/// It then waits for nothing but what it asked for.
pub proof fn forwarding_starts_receiving<O, E>(
    sinks: Seq<Sink<O>>,
    event: Option<Recorded>,
    state: ForwardState<O, E>,
    reply: ReplyModel<E>,
)
    ensures
        ForwardState::<O, E>::initial(sinks).sinks == sinks,
        ForwardState::<O, E>::initial(sinks).failure is None,
        ForwardState::<O, E>::initial(sinks).expects(ForwardReply::Received(event)),
        state.expects(reply) ==> match reply {
            ForwardReply::Received(_) => state.stage is Receiving,
            ForwardReply::Fed(results) => state.stage is Feeding && results.len()
                == state.sinks.len(),
            ForwardReply::Finished(_) => state.stage is Finishing && state.sinks.len() > 0,
        },
{
}

/// Nothing is lost between a step or a reply and its model.
pub proof fn forwarding_is_modelled<E>(
    event: Event,
    failure: Option<E>,
    results: Vec<Result<(), E>>,
    result: Result<(), E>,
)
    ensures
        ForwardStep::<Event, E>::Receive@ is Receive,
        ForwardStep::<Event, E>::Feed(event)@ == ForwardStep::<Recorded, E>::Feed(event@),
        ForwardStep::<Event, E>::FinishFirst@ is FinishFirst,
        ForwardStep::<Event, E>::Return(failure)@ == ForwardStep::<Recorded, E>::Return(failure),
        ForwardReply::<Event, Vec<Result<(), E>>, E>::Received(Some(event))@ == ReplyModel::<
            E,
        >::Received(Some(event@)),
        ForwardReply::<Event, Vec<Result<(), E>>, E>::Received(None)@ == ReplyModel::<E>::Received(
            None,
        ),
        ForwardReply::<Event, Vec<Result<(), E>>, E>::Fed(results)@ == ReplyModel::<E>::Fed(
            results@,
        ),
        ForwardReply::<Event, Vec<Result<(), E>>, E>::Finished(result)@ == ReplyModel::<
            E,
        >::Finished(result),
{
}

} // verus!
