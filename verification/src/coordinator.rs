//! The coordinator: it starts a worker on a fresh link, sends it requests,
//! ends them with the sentinel and collects the responses in order.
//!
//! Coordinator and worker take turns. The worker runs when the coordinator
//! would have to wait for it, or when the coordinator yields to it; each
//! time it runs until it has terminated or has to wait itself.

use crate::channel::{ChannelView, Progress};
use crate::error::ChannelError;
use crate::increment::successor;
use crate::link::{DuplexLink, LinkView, Side};
use crate::worker::{lemma_served_len_bounds, responses_to, Worker, SENTINEL};
use vstd::prelude::*;

verus! {

/// The mathematical content of a [`Coordinator`].
pub struct CoordinatorView {
    /// The link: requests wait on the leg to the worker, responses on the
    /// leg to the coordinator.
    pub link: LinkView,
    /// The worker at the other end of the link.
    pub worker: Worker,
    /// How many responses are still owed to the caller: one for each
    /// request sent, the sentinel included, less those collected.
    pub expected: nat,
    /// Whether the sentinel has been sent.
    pub finished: bool,
}

impl CoordinatorView {
    /// The requests that the worker has not taken yet, oldest first.
    pub open spec fn queued(self) -> Seq<i64> {
        self.link.to_worker.pending
    }

    /// The responses that wait to be collected, oldest first.
    pub open spec fn ready(self) -> Seq<i64> {
        self.link.to_coordinator.pending
    }

    /// Whether the link is closed: because the worker has terminated, or
    /// because the link was severed.
    pub open spec fn closed(self) -> bool {
        self.link.to_worker.closed
    }

    /// What every coordinator satisfies.
    pub open spec fn wf(self) -> bool {
        &&& self.link.to_worker.capacity is None
        &&& self.link.to_coordinator.capacity is None
        &&& self.link.to_coordinator.closed == self.link.to_worker.closed
        &&& self.worker is Terminated ==> self.closed()
        &&& self.worker matches Worker::Terminated { outcome: Ok(_) } ==> self.finished
            && self.expected == self.ready().len()
        &&& self.worker matches Worker::Running { in_flight } ==> in_flight is None
        &&& forall|i: int| 0 <= i < self.queued().len() - 1 ==> self.queued()[i] != SENTINEL
        &&& !self.finished && self.queued().len() > 0 ==> self.queued().last() != SENTINEL
        &&& self.finished && !self.closed() ==> self.queued().len() > 0 && self.queued().last()
            == SENTINEL
        &&& !self.closed() ==> self.expected == self.queued().len() + self.ready().len()
        &&& self.closed() ==> self.expected >= self.ready().len()
    }

    /// A coordinator that has just started: an open link with nothing on
    /// it, a worker that has not run, nothing sent.
    pub open spec fn started() -> CoordinatorView {
        let empty = ChannelView { pending: Seq::empty(), capacity: None, closed: false };
        CoordinatorView {
            link: LinkView { to_worker: empty, to_coordinator: empty },
            worker: Worker::Spawned,
            expected: 0,
            finished: false,
        }
    }

    /// What `request` answers: after the sentinel nothing more is accepted;
    /// before it, a closed link refuses.
    pub open spec fn request_outcome(self) -> Result<(), ChannelError> {
        if self.finished {
            Err(ChannelError::SendAfterClose)
        } else if self.closed() {
            Err(ChannelError::ChannelClosed)
        } else {
            Ok(())
        }
    }

    /// The coordinator after `request(value)`. An accepted request joins the
    /// back of the queue to the worker and one more response is owed; the
    /// sentinel ends the sequence of requests. A rejected one changes
    /// nothing.
    pub open spec fn after_request(self, value: i64) -> CoordinatorView {
        if self.request_outcome() is Ok {
            CoordinatorView {
                link: LinkView { to_worker: self.link.to_worker.after_send(value), ..self.link },
                expected: self.expected + 1,
                finished: value == SENTINEL,
                ..self
            }
        } else {
            self
        }
    }

    /// The coordinator after one `request` for each of `values`, in order.
    pub open spec fn after_requests(self, values: Seq<i64>) -> CoordinatorView
        decreases values.len(),
    {
        if values.len() == 0 {
            self
        } else {
            self.after_requests(values.drop_last()).after_request(values.last())
        }
    }

    /// The coordinator with `values` behind the requests that are queued,
    /// and a response owed for each of them.
    pub open spec fn enqueued(self, values: Seq<i64>) -> CoordinatorView {
        CoordinatorView {
            link: LinkView {
                to_worker: ChannelView {
                    pending: self.queued() + values,
                    ..self.link.to_worker
                },
                ..self.link
            },
            expected: self.expected + values.len(),
            ..self
        }
    }

    /// The coordinator after the link was severed: both legs closed,
    /// nothing else touched.
    pub open spec fn after_sever(self) -> CoordinatorView {
        CoordinatorView { link: self.link.after_close(), ..self }
    }

    /// The coordinator after the worker has run until it terminated or had
    /// to wait.
    pub open spec fn after_yield(self) -> CoordinatorView {
        let rest = self.link.seen_by(self.worker).settle();
        CoordinatorView { link: LinkView::of(rest), worker: rest.worker, ..self }
    }

    /// The coordinator with `count` responses taken from those that are
    /// ready, and as many fewer owed.
    pub open spec fn taken(self, count: nat) -> CoordinatorView {
        CoordinatorView {
            link: LinkView {
                to_coordinator: ChannelView {
                    pending: self.ready().skip(count as int),
                    ..self.link.to_coordinator
                },
                ..self.link
            },
            expected: (self.expected - count) as nat,
            ..self
        }
    }

    /// The coordinator at the moment at which `next_response` looks for a
    /// response: where none is ready and the link is open, the worker has
    /// run first.
    pub open spec fn primed(self) -> CoordinatorView {
        if self.ready().len() == 0 && !self.closed() {
            self.after_yield()
        } else {
            self
        }
    }

    /// What `next_response` answers: the oldest response that is ready,
    /// after the worker has had its turn if none was. With none to come,
    /// `ChannelClosed` on a closed link and `WouldBlock` on an open one.
    pub open spec fn next_outcome(self) -> Result<Progress<i64>, ChannelError> {
        self.primed().link.to_coordinator.receive_outcome()
    }

    /// The coordinator after `next_response`.
    pub open spec fn after_next(self) -> CoordinatorView {
        if self.primed().ready().len() > 0 {
            self.primed().taken(1)
        } else {
            self.primed()
        }
    }

    /// The responses that can still reach the coordinator, in the order in
    /// which they will: those that are ready and, while the link is open,
    /// those to the requests that are queued.
    pub open spec fn arriving(self) -> Seq<i64> {
        if self.closed() {
            self.ready()
        } else {
            self.ready() + responses_to(self.queued())
        }
    }

    /// What `collect` answers: every response owed, in the order of the
    /// requests, if all of them can still arrive; else `ChannelClosed`.
    pub open spec fn collect_outcome(self) -> Result<Seq<i64>, ChannelError> {
        if self.expected == self.arriving().len() {
            Ok(self.arriving())
        } else {
            Err(ChannelError::ChannelClosed)
        }
    }

    /// The coordinator after `collect`: nothing is ready any more, and the
    /// worker has run if requests were queued on an open link. What could
    /// not arrive is still owed.
    pub open spec fn after_collect(self) -> CoordinatorView {
        let base = if !self.closed() && self.queued().len() > 0 {
            self.after_yield()
        } else {
            self
        };
        base.taken(self.arriving().len())
    }

    /// The coordinator in the course of `collect`, with `count` responses
    /// collected.
    spec fn collecting(self, count: nat) -> CoordinatorView {
        let base = if !self.closed() && count > self.ready().len() {
            self.after_yield()
        } else {
            self
        };
        base.taken(count)
    }
}

/// Drives one worker over one link.
pub struct Coordinator {
    link: DuplexLink,
    worker: Worker,
    expected: u128,
    finished: bool,
}

impl View for Coordinator {
    type V = CoordinatorView;

    closed spec fn view(&self) -> CoordinatorView {
        CoordinatorView {
            link: self.link@,
            worker: self.worker,
            expected: self.expected as nat,
            finished: self.finished,
        }
    }
}

impl Coordinator {
    /// Creates a link without a limit on pending messages and spawns a
    /// worker on it.
    pub fn start() -> (coordinator: Coordinator)
        ensures
            coordinator@ == CoordinatorView::started(),
            coordinator@.wf(),
    {
        Coordinator {
            link: DuplexLink::new(),
            worker: Worker::spawn(),
            expected: 0,
            finished: false,
        }
    }

    /// Sends `value` to the worker. Fails with `SendAfterClose` once the
    /// sentinel has been sent, and with `ChannelClosed` if the link is
    /// closed.
    pub fn request(&mut self, value: i64) -> (outcome: Result<(), ChannelError>)
        requires
            old(self)@.wf(),
        ensures
            outcome == old(self)@.request_outcome(),
            final(self)@ == old(self)@.after_request(value),
            final(self)@.wf(),
    {
        if self.finished {
            return Err(ChannelError::SendAfterClose);
        }
        proof {
            self.link.lemma_pending_fits();
        }
        match self.link.send(Side::Coordinator, value) {
            Ok(Progress::Done(())) => {
                self.expected = self.expected + 1;
                self.finished = value == SENTINEL;
                Ok(())
            },
            Ok(Progress::WouldBlock) => vstd::pervasive::unreached(),
            Err(error) => Err(error),
        }
    }

    /// Sends the sentinel: the last request.
    pub fn finish(&mut self) -> (outcome: Result<(), ChannelError>)
        requires
            old(self)@.wf(),
        ensures
            outcome == old(self)@.request_outcome(),
            final(self)@ == old(self)@.after_request(SENTINEL),
            final(self)@.wf(),
    {
        self.request(SENTINEL)
    }

    /// Closes the link from outside, as a supervisor would to force the
    /// worker to terminate. The worker notices when it next runs.
    pub fn sever(&mut self)
        requires
            old(self)@.wf(),
        ensures
            final(self)@ == old(self)@.after_sever(),
            final(self)@.wf(),
    {
        self.link.close();
    }

    /// Lets the worker run until it has terminated or has to wait.
    pub fn yield_to_worker(&mut self)
        requires
            old(self)@.wf(),
        ensures
            final(self)@ == old(self)@.after_yield(),
            final(self)@.wf(),
    {
        proof {
            lemma_yield(self@);
        }
        self.link.serve(&mut self.worker);
    }

    /// Receives the next response. Where none is ready the worker runs
    /// first. With none to come the call fails with `ChannelClosed` on a
    /// closed link; on an open link, where it would wait for a request that
    /// has not been made, it answers `WouldBlock`.
    pub fn next_response(&mut self) -> (outcome: Result<Progress<i64>, ChannelError>)
        requires
            old(self)@.wf(),
        ensures
            outcome == old(self)@.next_outcome(),
            final(self)@ == old(self)@.after_next(),
            final(self)@.wf(),
    {
        proof {
            lemma_yield(self@);
        }
        if self.link.pending(Side::Coordinator) == 0 && !self.link.is_closed() {
            self.link.serve(&mut self.worker);
        }
        let outcome = self.link.receive(Side::Coordinator);
        match outcome {
            Ok(Progress::Done(_)) => {
                self.expected = self.expected - 1;
            },
            _ => {},
        }
        outcome
    }

    /// Receives every response that is owed: as many as requests were sent,
    /// the sentinel included, in the order of the requests. Fails with
    /// `ChannelClosed` if the link was closed before all of them were
    /// produced; what was ready is then dropped.
    pub fn collect(&mut self) -> (outcome: Result<Vec<i64>, ChannelError>)
        requires
            old(self)@.wf(),
        ensures
            match outcome {
                Ok(responses) => old(self)@.collect_outcome() == Ok::<Seq<i64>, ChannelError>(
                    responses@,
                ),
                Err(error) => old(self)@.collect_outcome() == Err::<Seq<i64>, ChannelError>(error),
            },
            final(self)@ == old(self)@.after_collect(),
            final(self)@.wf(),
    {
        let ghost start = self@;
        let mut responses: Vec<i64> = Vec::new();
        proof {
            lemma_same(start.collecting(0), start);
        }
        while self.expected > 0
            invariant
                start == old(self)@,
                start.wf(),
                self@.wf(),
                responses@.len() <= start.arriving().len(),
                responses@ == start.arriving().take(responses@.len() as int),
                self@ == start.collecting(responses@.len()),
            decreases self@.expected,
        {
            proof {
                lemma_collect_next(start, responses@.len());
            }
            match self.next_response() {
                Ok(Progress::Done(response)) => {
                    responses.push(response);
                },
                Ok(Progress::WouldBlock) => vstd::pervasive::unreached(),
                Err(error) => {
                    return Err(error);
                },
            }
        }
        proof {
            lemma_collect_done(start, responses@.len());
            assert(responses@ =~= start.arriving());
        }
        Ok(responses)
    }

    /// How many responses are still owed to the caller.
    pub fn expected(&self) -> (count: u128)
        ensures
            count == self@.expected,
    {
        self.expected
    }

    /// Whether the sentinel has been sent.
    pub fn is_finished(&self) -> (finished: bool)
        ensures
            finished == self@.finished,
    {
        self.finished
    }

    /// The worker, as it stood when it last ran.
    pub fn worker(&self) -> (worker: Worker)
        ensures
            worker == self@.worker,
    {
        self.worker
    }
}

/// Runs one whole exchange: starts a worker, sends it each of `requests` in
/// order and then the sentinel, and collects the responses. A sentinel
/// among `requests` ends the sequence early, so what follows it is rejected
/// with `SendAfterClose`.
pub fn exchange(requests: &[i64]) -> (outcome: Result<Vec<i64>, ChannelError>)
    ensures
        match outcome {
            Ok(responses) => {
                &&& !requests@.contains(SENTINEL)
                &&& responses@ == responses_to(requests@).push(1)
            },
            Err(error) => requests@.contains(SENTINEL) && error == ChannelError::SendAfterClose,
        },
{
    let mut coordinator = Coordinator::start();
    let mut sent: usize = 0;
    while sent < requests.len()
        invariant
            sent <= requests.len(),
            coordinator@.wf(),
            coordinator@.finished == requests@.take(sent as int).contains(SENTINEL),
            !coordinator@.finished ==> coordinator@ == CoordinatorView::started().after_requests(
                requests@.take(sent as int),
            ),
        decreases requests.len() - sent,
    {
        proof {
            lemma_sentinel_in_prefix(requests@, sent as int);
            if !coordinator@.finished {
                lemma_requests_queue_up(CoordinatorView::started(), requests@.take(sent as int));
            }
            assert(requests@.take(sent + 1).drop_last() =~= requests@.take(sent as int));
        }
        match coordinator.request(requests[sent]) {
            Ok(()) => {},
            Err(error) => {
                return Err(error);
            },
        }
        sent = sent + 1;
    }
    proof {
        assert(requests@.take(sent as int) =~= requests@);
        if !coordinator@.finished {
            lemma_requests_queue_up(CoordinatorView::started(), requests@);
            law_collect_answers_in_order(requests@);
        }
    }
    match coordinator.finish() {
        Ok(()) => {},
        Err(error) => {
            return Err(error);
        },
    }
    match coordinator.collect() {
        Ok(responses) => Ok(responses),
        Err(_) => vstd::pervasive::unreached(),
    }
}

/// Every operation keeps a coordinator well formed.
pub proof fn law_operations_keep_wf(before: CoordinatorView, value: i64)
    requires
        before.wf(),
    ensures
        CoordinatorView::started().wf(),
        before.after_request(value).wf(),
        before.after_sever().wf(),
        before.after_yield().wf(),
        before.after_next().wf(),
        before.after_collect().wf(),
{
    lemma_yield(before);
    if before.request_outcome() is Ok {
        law_requests_are_answered_in_order(before, value);
    }
}

/// Collecting in order. After the requests `requests`, none of them the
/// sentinel, and then the sentinel, on a coordinator that has just started,
/// `collect` succeeds with the successor of each request, in the order of the
/// requests, and then 1 for the sentinel. A request below the largest
/// integer is answered by the request plus one.
pub proof fn law_collect_answers_in_order(requests: Seq<i64>)
    requires
        !requests.contains(SENTINEL),
    ensures
        ({
            let sent = CoordinatorView::started().after_requests(requests).after_request(SENTINEL);
            &&& sent.wf()
            &&& sent.collect_outcome() == Ok::<Seq<i64>, ChannelError>(
                responses_to(requests).push(1),
            )
            &&& responses_to(requests).len() == requests.len()
            &&& forall|i: int|
                0 <= i < requests.len() && requests[i] < i64::MAX ==> #[trigger] responses_to(
                    requests,
                )[i] == requests[i] + 1
        }),
{
    let fresh = CoordinatorView::started();
    lemma_requests_queue_up(fresh, requests);
    law_requests_are_answered_in_order(fresh.after_requests(requests), SENTINEL);
}

/// First in, first out. On an open link that has not seen the sentinel, the
/// response to a new request arrives behind every response that was
/// already on its way, and `collect` returns them in that order. So of two
/// requests `a` and `b` sent one after the other, the response to `a` is
/// received before the response to `b`.
pub proof fn law_requests_are_answered_in_order(before: CoordinatorView, request: i64)
    requires
        before.wf(),
        !before.finished,
        !before.closed(),
    ensures
        before.after_request(request).wf(),
        before.after_request(request).arriving() == before.arriving().push(successor(request)),
        before.after_request(request).collect_outcome() == Ok::<Seq<i64>, ChannelError>(
            before.arriving().push(successor(request)),
        ),
{
    let after = before.after_request(request);
    assert(after.arriving() =~= before.arriving().push(successor(request)));
    assert forall|i: int| 0 <= i < after.queued().len() - 1 implies after.queued()[i]
        != SENTINEL by {
        if i == before.queued().len() - 1 {
        }
    }
}

/// Two requests, two responses, same order. If `first` and then `second` are
/// requested before either response is read, the response to `first`
/// arrives before the response to `second`; with nothing else owed, they are
/// the next two responses received, in that order.
pub proof fn law_first_in_first_out(before: CoordinatorView, first: i64, second: i64)
    requires
        before.wf(),
        !before.finished,
        !before.closed(),
        first != SENTINEL,
    ensures
        ({
            let sent = before.after_request(first).after_request(second);
            &&& sent.wf()
            &&& sent.arriving() == before.arriving() + seq![successor(first), successor(second)]
            &&& before.expected == 0 ==> {
                &&& sent.next_outcome() == Ok::<Progress<i64>, ChannelError>(
                    Progress::Done(successor(first)),
                )
                &&& sent.after_next().wf()
                &&& sent.after_next().next_outcome() == Ok::<Progress<i64>, ChannelError>(
                    Progress::Done(successor(second)),
                )
            }
            &&& first < i64::MAX ==> successor(first) == first + 1
            &&& second < i64::MAX ==> successor(second) == second + 1
        }),
{
    law_requests_are_answered_in_order(before, first);
    let middle = before.after_request(first);
    law_requests_are_answered_in_order(middle, second);
    let sent = middle.after_request(second);
    if before.expected == 0 {
        lemma_yield(sent);
        lemma_yield(sent.after_next());
    }
}

/// When the worker runs makes no difference to what is collected: a turn
/// of the worker changes neither the responses that arrive nor their order.
pub proof fn law_schedule_is_invisible(before: CoordinatorView)
    requires
        before.wf(),
    ensures
        before.after_yield().wf(),
        before.after_yield().arriving() == before.arriving(),
        before.after_yield().collect_outcome() == before.collect_outcome(),
{
    lemma_yield(before);
    if !before.closed() {
    }
}

/// The sentinel is answered with 1 and ends the worker. When everything
/// owed is collected after the sentinel was accepted, its response is the
/// last one, it is 1, and the worker has terminated normally.
pub proof fn law_sentinel_is_answered_with_one(before: CoordinatorView)
    requires
        before.wf(),
        before.request_outcome() is Ok,
    ensures
        ({
            let sent = before.after_request(SENTINEL);
            &&& sent.finished
            &&& sent.collect_outcome() == Ok::<Seq<i64>, ChannelError>(before.arriving().push(1))
            &&& sent.after_collect().worker == Worker::Terminated { outcome: Ok(()) }
        }),
{
    law_requests_are_answered_in_order(before, SENTINEL);
    lemma_yield(before.after_request(SENTINEL));
}

/// Nothing is accepted after the sentinel. Once the sentinel has been sent,
/// every request is rejected with `SendAfterClose` and changes nothing, and
/// no operation makes the coordinator accept requests again.
pub proof fn law_finished_is_final(before: CoordinatorView, value: i64)
    requires
        before.finished,
    ensures
        before.request_outcome() == Err::<(), ChannelError>(ChannelError::SendAfterClose),
        before.after_request(value) == before,
        before.after_sever().finished,
        before.after_yield().finished,
        before.after_next().finished,
        before.after_collect().finished,
{
}

/// Nothing comes after the worker. Once the worker has terminated and the
/// responses that were ready have been received, the next attempt to
/// receive fails with `ChannelClosed`.
pub proof fn law_receive_after_termination(before: CoordinatorView)
    requires
        before.wf(),
        before.worker is Terminated,
        before.ready().len() == 0,
    ensures
        before.next_outcome() == Err::<Progress<i64>, ChannelError>(ChannelError::ChannelClosed),
        before.after_next() == before,
{
}

/// Severing twice is severing once.
pub proof fn law_sever_is_idempotent(before: CoordinatorView)
    ensures
        before.after_sever().after_sever() == before.after_sever(),
{
}

/// A request whose response was not produced before the link was severed is
/// never answered: `collect` fails with `ChannelClosed`.
pub proof fn law_severed_request_is_lost(before: CoordinatorView, request: i64)
    requires
        before.wf(),
        before.request_outcome() is Ok,
    ensures
        before.after_request(request).after_sever().wf(),
        before.after_request(request).after_sever().collect_outcome() == Err::<
            Seq<i64>,
            ChannelError,
        >(ChannelError::ChannelClosed),
{
    law_requests_are_answered_in_order(before, request);
}

/// On the link of a coordinator a worker that runs answers every request
/// that is queued, or, if the link is closed, loses the oldest one.
pub proof fn lemma_yield(before: CoordinatorView)
    requires
        before.wf(),
    ensures
        before.after_yield().wf(),
        before.worker is Terminated ==> before.after_yield() == before,
        !before.closed() ==> {
            &&& before.after_yield().queued() == Seq::<i64>::empty()
            &&& before.after_yield().ready() == before.ready() + responses_to(before.queued())
            &&& before.after_yield().worker == if before.finished {
                Worker::Terminated { outcome: Ok(()) }
            } else {
                Worker::Running { in_flight: None }
            }
            &&& before.after_yield().closed() == before.finished
        },
        before.closed() && !(before.worker is Terminated) ==> {
            &&& before.after_yield().queued() == if before.queued().len() > 0 {
                before.queued().skip(1)
            } else {
                before.queued()
            }
            &&& before.after_yield().ready() == before.ready()
            &&& before.after_yield().worker == Worker::Terminated {
                outcome: Err(ChannelError::PrematureClosure),
            }
            &&& before.after_yield().closed()
        },
{
    lemma_served_len_bounds(before.queued());
}

/// Requests without a sentinel are all accepted on an open link: they join
/// the queue in order, and their responses join those arriving in order.
pub proof fn lemma_requests_queue_up(before: CoordinatorView, values: Seq<i64>)
    requires
        before.wf(),
        !before.finished,
        !before.closed(),
        !values.contains(SENTINEL),
    ensures
        before.after_requests(values) == before.enqueued(values),
        before.enqueued(values).wf(),
        before.enqueued(values).arriving() == before.arriving() + responses_to(values),
    decreases values.len(),
{
    let after = before.after_requests(values);
    if values.len() == 0 {
        assert(before.queued() + values =~= before.queued());
        assert(before.enqueued(values).link.to_worker == before.link.to_worker);
        assert(before.arriving() + responses_to(values) =~= before.arriving());
    } else {
        let front = values.drop_last();
        assert(!front.contains(SENTINEL)) by {
            if front.contains(SENTINEL) {
                let i = choose|i: int| 0 <= i < front.len() && front[i] == SENTINEL;
                assert(values[i] == SENTINEL);
            }
        }
        assert(values.last() != SENTINEL) by {
            assert(values[values.len() - 1] == values.last());
        }
        lemma_requests_queue_up(before, front);
        let middle = before.enqueued(front);
        assert(middle.queued().push(values.last()) =~= before.queued() + values);
        assert(after.link.to_worker == before.enqueued(values).link.to_worker);
        assert(responses_to(before.queued() + values) =~= responses_to(before.queued())
            + responses_to(values));
        assert(after.arriving() =~= before.arriving() + responses_to(values));
        assert forall|i: int| 0 <= i < after.queued().len() - 1 implies after.queued()[i]
            != SENTINEL by {
            if i >= before.queued().len() {
                assert(after.queued()[i] == values[i - before.queued().len()]);
            } else if i == before.queued().len() - 1 {
                assert(before.queued().last() == before.queued()[i]);
            }
        }
    }
}

/// Two coordinators with the same content are the same.
proof fn lemma_same(a: CoordinatorView, b: CoordinatorView)
    requires
        a.wf(),
        b.wf(),
        a.queued() =~= b.queued(),
        a.ready() =~= b.ready(),
        a.closed() == b.closed(),
        a.worker == b.worker,
        a.expected == b.expected,
        a.finished == b.finished,
    ensures
        a == b,
{
    assert(a.link.to_worker == b.link.to_worker);
    assert(a.link.to_coordinator == b.link.to_coordinator);
}

/// One more response is collected: the next of those arriving.
proof fn lemma_collect_next(start: CoordinatorView, count: nat)
    requires
        start.wf(),
        count <= start.arriving().len(),
        count < start.expected,
    ensures
        start.collecting(count).wf(),
        match start.collecting(count).next_outcome() {
            Ok(Progress::Done(response)) => {
                &&& count < start.arriving().len()
                &&& response == start.arriving()[count as int]
                &&& start.collecting(count).after_next() == start.collecting(count + 1)
            },
            Ok(Progress::WouldBlock) => false,
            Err(error) => {
                &&& error == ChannelError::ChannelClosed
                &&& count == start.arriving().len()
                &&& start.collecting(count).after_next() == start.after_collect()
            },
        },
{
    lemma_yield(start);
    let now = start.collecting(count);
    lemma_yield(now);
    if start.closed() {
        if count < start.ready().len() {
            assert(start.ready().skip(count as int).skip(1) =~= start.ready().skip(
                count as int + 1,
            ));
        } else {
            lemma_same(now.after_next(), start.after_collect());
        }
    } else if count > start.ready().len() {
        assert(start.after_yield().ready().skip(count as int).skip(1)
            =~= start.after_yield().ready().skip(count as int + 1));
    } else if count < start.ready().len() {
        assert(start.ready().skip(count as int).skip(1) =~= start.ready().skip(count as int + 1));
    } else {
        assert(now.ready() =~= Seq::<i64>::empty());
        lemma_same(now.after_yield(), start.after_yield().taken(count));
        assert(start.after_yield().ready().skip(count as int).skip(1)
            =~= start.after_yield().ready().skip(count as int + 1));
    }
}

/// With nothing more owed, `collect` is done.
proof fn lemma_collect_done(start: CoordinatorView, count: nat)
    requires
        start.wf(),
        count <= start.arriving().len(),
        count == start.expected,
    ensures
        count == start.arriving().len(),
        start.collecting(count) == start.after_collect(),
        start.after_collect().wf(),
{
    lemma_yield(start);
    lemma_same(start.collecting(count), start.after_collect());
}

/// A prefix that is one longer holds the sentinel if the shorter one does
/// or the added request is the sentinel; and what a prefix holds, the whole
/// holds.
proof fn lemma_sentinel_in_prefix(requests: Seq<i64>, sent: int)
    requires
        0 <= sent < requests.len(),
    ensures
        requests.take(sent + 1).contains(SENTINEL) == (requests.take(sent).contains(SENTINEL)
            || requests[sent] == SENTINEL),
        requests.take(sent).contains(SENTINEL) ==> requests.contains(SENTINEL),
{
    let short = requests.take(sent);
    let long = requests.take(sent + 1);
    if short.contains(SENTINEL) {
        let i = choose|i: int| 0 <= i < short.len() && short[i] == SENTINEL;
        assert(long[i] == SENTINEL);
        assert(requests[i] == SENTINEL);
    }
    if requests[sent] == SENTINEL {
        assert(long[sent] == SENTINEL);
    }
    if long.contains(SENTINEL) {
        let i = choose|i: int| 0 <= i < long.len() && long[i] == SENTINEL;
        if i < sent {
            assert(short[i] == SENTINEL);
        }
    }
}

} // verus!
