//! Where the events of a session go.

use vstd::prelude::*;

verus! {

/// An output for events, plus how the session treats it.
///
/// Sinks are fed concurrently, in the order the events happen. A sink which
/// fails is dropped from the fan-out, and only an essential one fails the
/// session along with it.
#[derive(Debug)]
pub struct Sink<O> {
    pub output: O,
    pub essential: bool,
}

/// The first failure known, given what was known before.
pub open spec fn first_of<E>(known: Option<E>, new: Option<E>) -> Option<E> {
    match known {
        Some(error) => Some(error),
        None => new,
    }
}

impl<O> Sink<O> {
    pub fn new(output: O) -> (sink: Self)
        ensures
            sink.output == output,
            !sink.essential,
    {
        Sink { output, essential: false }
    }

    /// Makes a failure of the output fail the session. Failures of ordinary
    /// sinks are only logged.
    pub fn essential(self) -> (sink: Self)
        ensures
            sink.output == self.output,
            sink.essential,
    {
        Sink { output: self.output, essential: true }
    }

    /// Reports a failure, keeping the first one which fails the session.
    /// Returns a failure which is only to be logged.
    pub fn failed<E>(&self, error: E, failure: &mut Option<E>) -> (logged: Option<E>)
        ensures
            self.essential ==> *final(failure) == first_of(*old(failure), Some(error)),
            self.essential ==> logged is None,
            (*old(failure)) is Some ==> *final(failure) == *old(failure),
            self.essential && (*old(failure)) is None ==> *final(failure) == Some(error),
            !self.essential ==> *final(failure) == *old(failure),
            !self.essential ==> logged == Some(error),
    {
        if self.essential {
            if failure.is_none() {
                *failure = Some(error);
            }
            None
        } else {
            Some(error)
        }
    }
}

/// The sinks which took an event in.
pub open spec fn healthy<O, E>(
    sinks: Seq<Sink<O>>,
    results: Seq<Result<(), E>>,
) -> Seq<Sink<O>>
    decreases sinks.len(),
{
    if sinks.len() == 0 {
        Seq::empty()
    } else {
        let earlier = healthy(sinks.drop_last(), results.drop_last());
        if results.last() is Ok {
            earlier.push(sinks.last())
        } else {
            earlier
        }
    }
}

/// The failure of the first essential sink which failed.
pub open spec fn first_failure<O, E>(
    sinks: Seq<Sink<O>>,
    results: Seq<Result<(), E>>,
) -> Option<E>
    decreases sinks.len(),
{
    if sinks.len() == 0 {
        None
    } else {
        let earlier = first_failure(sinks.drop_last(), results.drop_last());
        match results.last() {
            Err(error) if sinks.last().essential => first_of(earlier, Some(error)),
            _ => earlier,
        }
    }
}

/// The failures of ordinary sinks.
pub open spec fn minor_failures<O, E>(
    sinks: Seq<Sink<O>>,
    results: Seq<Result<(), E>>,
) -> Seq<E>
    decreases sinks.len(),
{
    if sinks.len() == 0 {
        Seq::empty()
    } else {
        let earlier = minor_failures(sinks.drop_last(), results.drop_last());
        match results.last() {
            Err(error) if !sinks.last().essential => earlier.push(error),
            _ => earlier,
        }
    }
}

/// The sinks still fed with events, and the failure of an essential one, if
/// any.
#[derive(Debug)]
pub struct Fanout<O, E> {
    pub sinks: Vec<Sink<O>>,
    pub failure: Option<E>,
}

impl<O, E> Fanout<O, E> {
    pub fn new(sinks: Vec<Sink<O>>) -> (fanout: Self)
        ensures
            fanout.sinks == sinks,
            fanout.failure is None,
    {
        Fanout { sinks, failure: None }
    }

    /// Takes in what came of feeding each sink with an event, and drops the
    /// sinks which failed. Returns failures which are only to be logged.
    pub fn delivered(&mut self, results: Vec<Result<(), E>>) -> (logged: Vec<E>)
        requires
            results@.len() == old(self).sinks@.len(),
        ensures
            final(self).sinks@ == healthy(old(self).sinks@, results@),
            final(self).failure == first_of(
                old(self).failure,
                first_failure(old(self).sinks@, results@),
            ),
            logged@ == minor_failures(old(self).sinks@, results@),
    {
        let ghost sinks = self.sinks@;
        let ghost outcome = results@;
        let ghost known = self.failure;
        let mut logged: Vec<E> = Vec::new();
        let mut next: usize = 0;
        assert(healthy(sinks.take(0), outcome.take(0)) + sinks.skip(0) =~= sinks);
        for result in each: results
            invariant
                each.seq() == outcome,
                outcome.len() == sinks.len(),
                next == healthy(sinks.take(each.index()), outcome.take(each.index())).len(),
                self.sinks@ == healthy(sinks.take(each.index()), outcome.take(each.index()))
                    + sinks.skip(each.index()),
                self.failure == first_of(
                    known,
                    first_failure(sinks.take(each.index()), outcome.take(each.index())),
                ),
                logged@ == minor_failures(sinks.take(each.index()), outcome.take(each.index())),
        {
            let ghost i = each.index();
            let ghost kept = healthy(sinks.take(i), outcome.take(i));
            proof {
                assert(sinks.take(i + 1).drop_last() =~= sinks.take(i));
                assert(outcome.take(i + 1).drop_last() =~= outcome.take(i));
                assert(self.sinks@[next as int] == sinks[i]);
                assert(next < self.sinks.len());
            }
            match result {
                Ok(()) => {
                    next += 1;
                    assert(self.sinks@ =~= kept.push(sinks[i]) + sinks.skip(i + 1));
                },
                Err(error) => {
                    let sink = self.sinks.remove(next);
                    if let Some(error) = sink.failed(error, &mut self.failure) {
                        logged.push(error);
                    }
                    assert(self.sinks@ =~= kept + sinks.skip(i + 1));
                },
            }
        }
        proof {
            assert(sinks.take(sinks.len() as int) =~= sinks);
            assert(outcome.take(outcome.len() as int) =~= outcome);
            assert(self.sinks@ =~= healthy(sinks, outcome));
        }
        logged
    }

    /// Takes in what came of finishing the first sink, and drops it. Returns a
    /// failure which is only to be logged.
    pub fn finished_first(&mut self, result: Result<(), E>) -> (logged: Option<E>)
        requires
            old(self).sinks@.len() > 0,
        ensures
            final(self).sinks@ == old(self).sinks@.drop_first(),
            match result {
                Ok(()) => final(self).failure == old(self).failure && logged is None,
                Err(error) => if old(self).sinks@[0].essential {
                    final(self).failure == first_of(old(self).failure, Some(error))
                        && logged is None
                } else {
                    final(self).failure == old(self).failure && logged == Some(error)
                },
            },
    {
        let sink = self.sinks.remove(0);
        assert(self.sinks@ =~= old(self).sinks@.drop_first());
        match result {
            Ok(()) => None,
            Err(error) => sink.failed(error, &mut self.failure),
        }
    }
}

/// What each sink answers to each event, and last to being finished: `Ok`
/// when it takes it in. Sinks are counted in the order they were given.
pub type Answers<E> = spec_fn(int, int) -> Result<(), E>;

/// Whether a sink took in everything up to an event.
pub open spec fn took_all<E>(answers: Answers<E>, sink: int, events: int) -> bool {
    forall|k: int| 0 <= k < events ==> #[trigger] answers(sink, k) is Ok
}

/// Whether a sink is the one to fail at an event, having taken in all before.
pub open spec fn fails_at<E>(answers: Answers<E>, sink: int, event: int) -> bool {
    took_all(answers, sink, event) && answers(sink, event) is Err
}

/// The sinks which took in everything up to an event, in the order they were
/// given.
pub open spec fn faithful<E>(count: nat, answers: Answers<E>, events: int) -> Seq<int> {
    Seq::new(count, |sink: int| sink).filter(|sink: int| took_all(answers, sink, events))
}

/// What came of feeding some of the sinks with an event.
pub open spec fn results_of<E>(
    fed: Seq<int>,
    answers: Answers<E>,
    event: int,
) -> Seq<Result<(), E>> {
    fed.map_values(|sink: int| answers(sink, event))
}

/// The sinks still fed after a number of events.
pub open spec fn still_fed<O, E>(
    sinks: Seq<Sink<O>>,
    answers: Answers<E>,
    events: nat,
) -> Seq<Sink<O>>
    decreases events,
{
    if events == 0 {
        sinks
    } else {
        let before = (events - 1) as nat;
        healthy(
            still_fed(sinks, answers, before),
            results_of(faithful(sinks.len(), answers, before as int), answers, before as int),
        )
    }
}

/// The failure known after a number of events.
pub open spec fn known_failure<O, E>(
    sinks: Seq<Sink<O>>,
    answers: Answers<E>,
    events: nat,
) -> Option<E>
    decreases events,
{
    if events == 0 {
        None
    } else {
        let before = (events - 1) as nat;
        first_of(
            known_failure(sinks, answers, before),
            first_failure(
                still_fed(sinks, answers, before),
                results_of(faithful(sinks.len(), answers, before as int), answers, before as int),
            ),
        )
    }
}

proof fn lemma_healthy_is_filter<O, E>(
    sinks: Seq<Sink<O>>,
    fed: Seq<int>,
    answers: Answers<E>,
    event: int,
)
    ensures
        healthy(fed.map_values(|sink: int| sinks[sink]), results_of(fed, answers, event))
            == fed.filter(|sink: int| answers(sink, event) is Ok).map_values(
            |sink: int| sinks[sink],
        ),
    decreases fed.len(),
{
    let get = |sink: int| sinks[sink];
    let good = |sink: int| answers(sink, event) is Ok;
    reveal(Seq::filter);
    if fed.len() == 0 {
        assert(fed.filter(good).map_values(get) =~= healthy(
            fed.map_values(get),
            results_of(fed, answers, event),
        ));
    } else {
        let shorter = fed.drop_last();
        lemma_healthy_is_filter(sinks, shorter, answers, event);
        assert(fed.map_values(get).drop_last() =~= shorter.map_values(get));
        assert(results_of(fed, answers, event).drop_last() =~= results_of(shorter, answers, event));
        assert(fed.filter(good).map_values(get) =~= if good(fed.last()) {
            shorter.filter(good).map_values(get).push(get(fed.last()))
        } else {
            shorter.filter(good).map_values(get)
        });
    }
}

proof fn lemma_filter_twice(
    all: Seq<int>,
    first: spec_fn(int) -> bool,
    second: spec_fn(int) -> bool,
    both: spec_fn(int) -> bool,
)
    requires
        forall|x: int| #[trigger] both(x) == (first(x) && second(x)),
    ensures
        all.filter(first).filter(second) == all.filter(both),
    decreases all.len(),
{
    reveal(Seq::filter);
    if all.len() > 0 {
        lemma_filter_twice(all.drop_last(), first, second, both);
        let x = all.last();
        assert(both(x) == (first(x) && second(x)));
        if first(x) {
            let kept = all.drop_last().filter(first);
            assert(kept.push(x).drop_last() =~= kept);
        }
    }
}

/// After any number of events, the sinks still fed are those which took
/// in every event so far, in the order they were given. So a sink which never
/// fails gets everything, whatever becomes of the others, and one which failed
/// gets nothing more.
pub proof fn faithful_sinks_are_fed<O, E>(
    sinks: Seq<Sink<O>>,
    answers: Answers<E>,
    events: nat,
)
    ensures
        still_fed(sinks, answers, events) == faithful(
            sinks.len(),
            answers,
            events as int,
        ).map_values(|sink: int| sinks[sink]),
    decreases events,
{
    let all = Seq::new(sinks.len(), |sink: int| sink);
    let get = |sink: int| sinks[sink];
    let now = |sink: int| took_all(answers, sink, events as int);
    if events == 0 {
        lemma_filter_all(all, now);
        assert(all.map_values(get) =~= sinks);
    } else {
        let before = events - 1;
        let earlier = |sink: int| took_all(answers, sink, before);
        let good = |sink: int| answers(sink, before) is Ok;
        faithful_sinks_are_fed(sinks, answers, before as nat);
        lemma_healthy_is_filter(sinks, all.filter(earlier), answers, before);
        assert forall|x: int| #[trigger] now(x) == (earlier(x) && good(x)) by {
            if earlier(x) && good(x) {
                assert forall|k: int| 0 <= k < events implies #[trigger] answers(x, k) is Ok by {
                    if k < before {
                        assert(answers(x, k) is Ok);
                    }
                }
            }
            if now(x) {
                assert(answers(x, before) is Ok);
            }
        }
        lemma_filter_twice(all, earlier, good, now);
    }
}

proof fn lemma_filter_all(all: Seq<int>, pred: spec_fn(int) -> bool)
    requires
        forall|x: int| #[trigger] pred(x),
    ensures
        all.filter(pred) == all,
    decreases all.len(),
{
    reveal(Seq::filter);
    if all.len() > 0 {
        lemma_filter_all(all.drop_last(), pred);
        assert(pred(all.last()));
        assert(all.drop_last().push(all.last()) =~= all);
    }
}

/// Whether the failure of a sink at an event fails the session.
pub open spec fn is_fatal<O, E>(
    sinks: Seq<Sink<O>>,
    answers: Answers<E>,
    sink: int,
    event: int,
) -> bool {
    &&& 0 <= sink < sinks.len()
    &&& 0 <= event
    &&& sinks[sink].essential
    &&& fails_at(answers, sink, event)
}

proof fn lemma_filter_keeps_order(all: Seq<int>, pred: spec_fn(int) -> bool)
    requires
        forall|i: int, j: int| 0 <= i < j < all.len() ==> all[i] < all[j],
    ensures
        forall|i: int, j: int|
            0 <= i < j < all.filter(pred).len() ==> all.filter(pred)[i] < all.filter(pred)[j],
        forall|j: int|
            0 <= j < all.filter(pred).len() ==> all.contains(#[trigger] all.filter(pred)[j])
                && pred(all.filter(pred)[j]),
        forall|x: int| #[trigger]
            all.contains(x) && pred(x) ==> all.filter(pred).contains(x),
    decreases all.len(),
{
    reveal(Seq::filter);
    if all.len() > 0 {
        let shorter = all.drop_last();
        let kept = shorter.filter(pred);
        let last = all.last();
        lemma_filter_keeps_order(shorter, pred);
        assert forall|j: int| 0 <= j < kept.len() implies all.contains(#[trigger] kept[j])
            && pred(kept[j]) && kept[j] < last by {
            let i = choose|i: int| 0 <= i < shorter.len() && shorter[i] == kept[j];
            assert(all[i] == kept[j]);
        }
        assert(all.contains(last)) by {
            assert(all[all.len() - 1] == last);
        }
        assert forall|x: int| #[trigger] all.contains(x) && pred(x) implies all.filter(
            pred,
        ).contains(x) by {
            let i = choose|i: int| 0 <= i < all.len() && all[i] == x;
            if i < shorter.len() {
                assert(shorter[i] == x);
                assert(shorter.contains(x));
                let j = choose|j: int| 0 <= j < kept.len() && kept[j] == x;
                assert(all.filter(pred)[j] == x);
            } else {
                assert(all.filter(pred)[kept.len() as int] == x);
            }
        }
    }
}

proof fn lemma_first_failure<O, E>(
    sinks: Seq<Sink<O>>,
    fed: Seq<int>,
    answers: Answers<E>,
    event: int,
)
    ensures
        match first_failure(
            fed.map_values(|sink: int| sinks[sink]),
            results_of(fed, answers, event),
        ) {
            None => forall|j: int|
                0 <= j < fed.len() ==> !(sinks[#[trigger] fed[j]].essential && answers(
                    fed[j],
                    event,
                ) is Err),
            Some(error) => exists|j: int|
                {
                    &&& 0 <= j < fed.len()
                    &&& sinks[#[trigger] fed[j]].essential
                    &&& answers(fed[j], event) == Err::<(), E>(error)
                    &&& forall|m: int|
                        0 <= m < j ==> !(sinks[#[trigger] fed[m]].essential && answers(
                            fed[m],
                            event,
                        ) is Err)
                },
        },
    decreases fed.len(),
{
    let get = |sink: int| sinks[sink];
    let failure = first_failure(fed.map_values(get), results_of(fed, answers, event));
    if fed.len() > 0 {
        let shorter = fed.drop_last();
        lemma_first_failure(sinks, shorter, answers, event);
        assert(fed.map_values(get).drop_last() =~= shorter.map_values(get));
        assert(results_of(fed, answers, event).drop_last() =~= results_of(shorter, answers, event));
        let earlier = first_failure(shorter.map_values(get), results_of(shorter, answers, event));
        let last = fed.len() - 1;
        match earlier {
            None => {
                assert forall|m: int| 0 <= m < last implies !(sinks[#[trigger] fed[m]].essential
                    && answers(fed[m], event) is Err) by {
                    assert(fed[m] == shorter[m]);
                }
                assert(fed[last] == fed.last());
            },
            Some(error) => {
                let j = choose|j: int|
                    {
                        &&& 0 <= j < shorter.len()
                        &&& sinks[#[trigger] shorter[j]].essential
                        &&& answers(shorter[j], event) == Err::<(), E>(error)
                        &&& forall|m: int|
                            0 <= m < j ==> !(sinks[#[trigger] shorter[m]].essential && answers(
                                shorter[m],
                                event,
                            ) is Err)
                    };
                assert(fed[j] == shorter[j]);
                assert forall|m: int| 0 <= m < j implies !(sinks[#[trigger] fed[m]].essential
                    && answers(fed[m], event) is Err) by {
                    assert(fed[m] == shorter[m]);
                }
            },
        }
    }
}

/// A session fails on account of its sinks when an essential one failed,
/// and only then. The failure is the first one: at the earliest event, and
/// there of the sink given first.
pub proof fn first_essential_failure_counts<O, E>(
    sinks: Seq<Sink<O>>,
    answers: Answers<E>,
    events: nat,
)
    ensures
        match known_failure(sinks, answers, events) {
            None => forall|i: int, k: int| k < events ==> !#[trigger] is_fatal(sinks, answers, i, k),
            Some(error) => exists|i: int, k: int|
                {
                    &&& k < events
                    &&& #[trigger] is_fatal(sinks, answers, i, k)
                    &&& answers(i, k) == Err::<(), E>(error)
                    &&& forall|j: int, m: int| #[trigger]
                        is_fatal(sinks, answers, j, m) ==> k < m || (k == m && i <= j)
                },
        },
    decreases events,
{
    if events > 0 {
        let before = events - 1;
        let all = Seq::new(sinks.len(), |sink: int| sink);
        let earlier = |sink: int| took_all(answers, sink, before);
        let fed = faithful(sinks.len(), answers, before);
        first_essential_failure_counts(sinks, answers, before as nat);
        if known_failure(sinks, answers, before as nat) is None {
            faithful_sinks_are_fed(sinks, answers, before as nat);
            lemma_first_failure(sinks, fed, answers, before);
            lemma_filter_keeps_order(all, earlier);
            assert forall|i: int| #[trigger] is_fatal(sinks, answers, i, before) implies fed.contains(
                i,
            ) by {
                assert(all[i] == i);
                assert(all.contains(i));
                assert(earlier(i));
            }
            assert forall|j: int| 0 <= j < fed.len() implies 0 <= #[trigger] fed[j] < sinks.len()
                && took_all(answers, fed[j], before) by {
                assert(all.contains(fed[j]) && earlier(fed[j]));
            }
            match first_failure(
                fed.map_values(|sink: int| sinks[sink]),
                results_of(fed, answers, before),
            ) {
                None => {
                    assert forall|i: int, k: int| k < events implies !#[trigger] is_fatal(
                        sinks,
                        answers,
                        i,
                        k,
                    ) by {
                        if k == before && is_fatal(sinks, answers, i, k) {
                            assert(fed.contains(i));
                            let j = choose|j: int| 0 <= j < fed.len() && fed[j] == i;
                            assert(sinks[fed[j]].essential);
                        }
                    }
                },
                Some(error) => {
                    let j = choose|j: int|
                        {
                            &&& 0 <= j < fed.len()
                            &&& sinks[#[trigger] fed[j]].essential
                            &&& answers(fed[j], before) == Err::<(), E>(error)
                            &&& forall|m: int|
                                0 <= m < j ==> !(sinks[#[trigger] fed[m]].essential && answers(
                                    fed[m],
                                    before,
                                ) is Err)
                        };
                    let i = fed[j];
                    assert(is_fatal(sinks, answers, i, before));
                    assert forall|other: int, m: int| #[trigger]
                        is_fatal(sinks, answers, other, m) implies before < m || (before == m && i
                        <= other) by {
                        if m == before {
                            assert(fed.contains(other));
                            let at = choose|at: int| 0 <= at < fed.len() && fed[at] == other;
                            if at < j {
                                assert(sinks[fed[at]].essential);
                            }
                        }
                    }
                },
            }
        }
    }
}

/// The positions up to a given one, in order.
pub open spec fn positions(count: nat) -> Seq<int> {
    Seq::new(count, |i: int| i)
}

proof fn lemma_outcome_by_position<O, E>(
    sinks: Seq<Sink<O>>,
    results: Seq<Result<(), E>>,
    n: nat,
)
    requires
        n <= sinks.len(),
        sinks.len() == results.len(),
    ensures
        healthy(sinks.take(n as int), results.take(n as int)) == positions(n).filter(
            |i: int| results[i] is Ok,
        ).map_values(|i: int| sinks[i]),
        minor_failures(sinks.take(n as int), results.take(n as int)) == positions(n).filter(
            |i: int| results[i] is Err && !sinks[i].essential,
        ).map_values(|i: int| results[i]->Err_0),
        match first_failure(sinks.take(n as int), results.take(n as int)) {
            None => forall|i: int|
                0 <= i < n ==> !((#[trigger] results[i]) is Err && sinks[i].essential),
            Some(error) => exists|i: int|
                {
                    &&& 0 <= i < n
                    &&& (#[trigger] results[i]) == Err::<(), E>(error)
                    &&& sinks[i].essential
                    &&& forall|j: int|
                        0 <= j < i ==> !((#[trigger] results[j]) is Err && sinks[j].essential)
                },
        },
    decreases n,
{
    let good = |i: int| results[i] is Ok;
    let minor = |i: int| results[i] is Err && !sinks[i].essential;
    let get = |i: int| sinks[i];
    let error = |i: int| results[i]->Err_0;
    reveal(Seq::filter);
    if n == 0 {
        assert(positions(n).filter(good).map_values(get) =~= Seq::empty());
        assert(positions(n).filter(minor).map_values(error) =~= Seq::empty());
    } else {
        let last = n - 1;
        lemma_outcome_by_position(sinks, results, last as nat);
        assert(sinks.take(n as int).drop_last() =~= sinks.take(last));
        assert(results.take(n as int).drop_last() =~= results.take(last));
        assert(positions(n).drop_last() =~= positions(last as nat));
        let earlier = positions(last as nat);
        assert(positions(n).filter(good).map_values(get) =~= if good(last) {
            earlier.filter(good).map_values(get).push(get(last))
        } else {
            earlier.filter(good).map_values(get)
        });
        assert(positions(n).filter(minor).map_values(error) =~= if minor(last) {
            earlier.filter(minor).map_values(error).push(error(last))
        } else {
            earlier.filter(minor).map_values(error)
        });
        assert(results.take(n as int).last() == results[last]);
        if let Some(e) = first_failure(sinks.take(last), results.take(last)) {
            let i = choose|i: int|
                {
                    &&& 0 <= i < last
                    &&& (#[trigger] results[i]) == Err::<(), E>(e)
                    &&& sinks[i].essential
                    &&& forall|j: int|
                        0 <= j < i ==> !((#[trigger] results[j]) is Err && sinks[j].essential)
                };
            assert(first_failure(sinks.take(n as int), results.take(n as int)) == Some(e));
            assert(results[i] == Err::<(), E>(e));
        }
    }
}

/// After an event, those sinks are kept which took it in, in their order. The
/// failures of ordinary ones are logged, each once, in the same order.
pub proof fn each_sink_is_kept_or_logged<O, E>(
    sinks: Seq<Sink<O>>,
    results: Seq<Result<(), E>>,
)
    requires
        sinks.len() == results.len(),
    ensures
        healthy(sinks, results) == positions(sinks.len()).filter(
            |i: int| results[i] is Ok,
        ).map_values(|i: int| sinks[i]),
        minor_failures(sinks, results) == positions(sinks.len()).filter(
            |i: int| results[i] is Err && !sinks[i].essential,
        ).map_values(|i: int| results[i]->Err_0),
{
    lemma_outcome_by_position(sinks, results, sinks.len());
    assert(sinks.take(sinks.len() as int) =~= sinks);
    assert(results.take(results.len() as int) =~= results);
}

/// Of the essential sinks which failed at an event, the failure of the first
/// one counts. Failures of ordinary sinks don't.
pub proof fn first_essential_sink_counts<O, E>(sinks: Seq<Sink<O>>, results: Seq<Result<(), E>>)
    requires
        sinks.len() == results.len(),
    ensures
        match first_failure(sinks, results) {
            None => forall|i: int|
                0 <= i < sinks.len() ==> !((#[trigger] results[i]) is Err && sinks[i].essential),
            Some(error) => exists|i: int|
                {
                    &&& 0 <= i < sinks.len()
                    &&& (#[trigger] results[i]) == Err::<(), E>(error)
                    &&& sinks[i].essential
                    &&& forall|j: int|
                        0 <= j < i ==> !((#[trigger] results[j]) is Err && sinks[j].essential)
                },
        },
{
    lemma_outcome_by_position(sinks, results, sinks.len());
    assert(sinks.take(sinks.len() as int) =~= sinks);
    assert(results.take(results.len() as int) =~= results);
}

/// A failure once known is never replaced, and the first one to come is taken.
pub proof fn first_failure_is_kept<E>(known: Option<E>, new: Option<E>)
    ensures
        known is Some ==> first_of(known, new) == known,
        known is None ==> first_of(known, new) == new,
{
}

} // verus!
