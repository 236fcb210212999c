//! The connection driver's decisions, one event at a time, and the race that
//! gives a connection its single terminal event.
use vstd::prelude::*;

use crate::message::{FatalError, Response};

verus! {

broadcast use vstd::seq_lib::group_seq_properties;

/// What the driver's loop hands to the driver.
pub enum DriverEvent {
    /// A message came off the queue.
    Received,
    /// Every sender has been dropped.
    QueueClosed,
    /// The execution unit of this ticket finished.
    Completed(u64, Result<Response, FatalError>),
}

/// What the driver's loop must do next.
pub enum DriverAction {
    /// Start the message just received as its own unit under this ticket.
    Launch(u64),
    /// Hand the response to the caller of this ticket; a caller that has gone
    /// away is no fault, and the response is dropped.
    Deliver(u64, Response),
    /// Nothing to do: the ticket is not in flight.
    Ignore,
    /// End the loop with this result. The callers of the listed tickets get
    /// no response: they observe the connection as closed.
    Stop(Result<(), FatalError>, Vec<u64>),
}

/// The driver's bookkeeping as mathematics: tickets in flight, tickets
/// launched in order, tickets whose outcome is settled (delivered or
/// abandoned), the next ticket to hand out, and whether the loop ended.
pub struct DriverView {
    pub in_flight: Seq<u64>,
    pub launched: Seq<u64>,
    pub finished: Seq<u64>,
    pub next_ticket: u64,
    pub stopped: bool,
}

impl DriverView {
    /// Each launched ticket is in flight or finished, never both and never
    /// twice; tickets are launched in increasing order; a stopped driver has
    /// nothing in flight.
    pub open spec fn wf(&self) -> bool {
        &&& self.in_flight.no_duplicates()
        &&& self.finished.no_duplicates()
        &&& forall|x: u64| #[trigger] self.in_flight.contains(x) ==> !self.finished.contains(x)
        &&& forall|x: u64| #[trigger]
            self.launched.contains(x) <==> (self.in_flight.contains(x) || self.finished.contains(
                x,
            ))
        &&& forall|i: int, j: int|
            0 <= i < j < self.launched.len() ==> self.launched[i] < self.launched[j]
        &&& forall|i: int| 0 <= i < self.launched.len() ==> self.launched[i] < self.next_ticket
        &&& self.stopped ==> self.in_flight.len() == 0
    }
}

/// Ending the loop in `s` gives `t`: every ticket in flight is settled as
/// abandoned, and they are the ones listed.
pub open spec fn abandon_post(s: DriverView, t: DriverView, listed: Seq<u64>) -> bool {
    &&& listed == s.in_flight
    &&& t == DriverView { in_flight: Seq::empty(), finished: s.finished + s.in_flight, stopped: true, ..s }
}

/// Receiving a message in `s` gives `t`: it is launched at once under the
/// next ticket, after every ticket launched before it.
pub open spec fn launch_post(s: DriverView, t: DriverView, ticket: u64) -> bool {
    &&& ticket == s.next_ticket
    &&& t == DriverView {
        in_flight: s.in_flight.push(ticket),
        launched: s.launched.push(ticket),
        next_ticket: (s.next_ticket + 1) as u64,
        ..s
    }
}

/// A unit finishing without fatal error in `s` gives `t`: its ticket is
/// settled, and nothing else changes.
pub open spec fn deliver_post(s: DriverView, t: DriverView, ticket: u64) -> bool {
    &&& s.in_flight.contains(ticket)
    &&& t.finished == s.finished.push(ticket)
    &&& t.launched == s.launched
    &&& t.next_ticket == s.next_ticket
    &&& !t.stopped
    &&& forall|x: u64| #[trigger] t.in_flight.contains(x) <==> s.in_flight.contains(x) && x != ticket
}

proof fn lemma_push_no_duplicates(s: Seq<u64>, x: u64)
    requires
        s.no_duplicates(),
        !s.contains(x),
    ensures
        s.push(x).no_duplicates(),
{
    let t = s.push(x);
    assert forall|i: int, j: int| 0 <= i < t.len() && 0 <= j < t.len() && i != j implies t[i]
        != t[j] by {
        if i == s.len() {
            assert(s.contains(t[j]));
        } else if j == s.len() {
            assert(s.contains(t[i]));
        }
    }
}

/// The driver of one connection's capability, as the bookkeeping that its
/// decisions rest on: the capability itself stays with the loop that runs
/// the driver in its single-threaded context. It launches each request as
/// its own unit, in the order received, and settles each ticket once.
pub struct IndradbCapnpClient {
    in_flight: Vec<u64>,
    next_ticket: u64,
    stopped: bool,
    launched: Ghost<Seq<u64>>,
    finished: Ghost<Seq<u64>>,
}

impl View for IndradbCapnpClient {
    type V = DriverView;

    closed spec fn view(&self) -> DriverView {
        DriverView {
            in_flight: self.in_flight@,
            launched: self.launched@,
            finished: self.finished@,
            next_ticket: self.next_ticket,
            stopped: self.stopped,
        }
    }
}

impl IndradbCapnpClient {
    pub fn new() -> (r: Self)
        ensures
            r@.wf(),
            r@.in_flight.len() == 0,
            r@.launched.len() == 0,
            r@.finished.len() == 0,
            r@.next_ticket == 0,
            !r@.stopped,
    {
        IndradbCapnpClient {
            in_flight: Vec::new(),
            next_ticket: 0,
            stopped: false,
            launched: Ghost(Seq::empty()),
            finished: Ghost(Seq::empty()),
        }
    }

    pub fn is_stopped(&self) -> (r: bool)
        ensures
            r == self@.stopped,
    {
        self.stopped
    }

    /// Ends the loop: every ticket in flight is abandoned and listed.
    pub fn abandon(&mut self) -> (r: Vec<u64>)
        requires
            old(self)@.wf(),
        ensures
            final(self)@.wf(),
            abandon_post(old(self)@, final(self)@, r@),
    {
        let ghost s = self@;
        let mut listed: Vec<u64> = Vec::new();
        std::mem::swap(&mut listed, &mut self.in_flight);
        assert(self.launched@ == s.launched);
        assert(listed@ == s.in_flight);
        self.finished = Ghost(self.finished@ + listed@);
        self.stopped = true;
        proof {
            assert forall|i: int, j: int|
                0 <= i < s.finished.len() && 0 <= j < s.in_flight.len() implies s.finished[i]
                != s.in_flight[j] by {
                assert(s.in_flight.contains(s.in_flight[j]));
            }
            vstd::seq_lib::lemma_no_dup_in_concat(s.finished, s.in_flight);
            assert(self@.in_flight =~= Seq::<u64>::empty());
        }
        listed
    }

    /// A message came off the queue: launch it under the next ticket. When
    /// the tickets are used up the loop ends with a fatal error.
    pub fn on_received(&mut self) -> (r: DriverAction)
        requires
            old(self)@.wf(),
            !old(self)@.stopped,
        ensures
            final(self)@.wf(),
            old(self)@.next_ticket < u64::MAX ==> (r matches DriverAction::Launch(t) && launch_post(
                old(self)@,
                final(self)@,
                t,
            )),
            old(self)@.next_ticket == u64::MAX ==> (r matches DriverAction::Stop(Err(_), v)
                && abandon_post(old(self)@, final(self)@, v@)),
    {
        if self.next_ticket == u64::MAX {
            let listed = self.abandon();
            return DriverAction::Stop(
                Err(FatalError { message: String::from_str("request tickets exhausted") }),
                listed,
            );
        }
        let ghost s = self@;
        let ticket = self.next_ticket;
        self.in_flight.push(ticket);
        self.launched = Ghost(self.launched@.push(ticket));
        self.next_ticket = self.next_ticket + 1;
        proof {
            assert(!s.in_flight.contains(ticket)) by {
                if s.in_flight.contains(ticket) {
                    assert(s.launched.contains(ticket));
                }
            }
            assert(!s.finished.contains(ticket)) by {
                if s.finished.contains(ticket) {
                    assert(s.launched.contains(ticket));
                }
            }
            lemma_push_no_duplicates(s.in_flight, ticket);
            let t = self@;
            assert forall|i: int, j: int| 0 <= i < j < t.launched.len() implies t.launched[i]
                < t.launched[j] by {
                if j == s.launched.len() {
                    assert(s.launched[i] < s.next_ticket);
                }
            }
            assert forall|i: int| 0 <= i < t.launched.len() implies t.launched[i] < t.next_ticket by {
                if i < s.launched.len() {
                    assert(s.launched[i] < s.next_ticket);
                }
            }
            assert forall|x: u64| #[trigger] t.in_flight.contains(x) implies !t.finished.contains(
                x,
            ) by {
                if x != ticket {
                    assert(s.in_flight.contains(x));
                }
            }
            assert forall|x: u64| #[trigger]
                t.launched.contains(x) <==> (t.in_flight.contains(x) || t.finished.contains(x)) by {
                if x != ticket {
                    assert(t.launched.contains(x) == s.launched.contains(x));
                    assert(t.in_flight.contains(x) == s.in_flight.contains(x));
                }
            }
        }
        DriverAction::Launch(ticket)
    }

    /// Every sender is gone: the loop ends without error.
    pub fn on_queue_closed(&mut self) -> (r: DriverAction)
        requires
            old(self)@.wf(),
        ensures
            final(self)@.wf(),
            r matches DriverAction::Stop(Ok(()), v) && abandon_post(old(self)@, final(self)@, v@),
    {
        let listed = self.abandon();
        DriverAction::Stop(Ok(()), listed)
    }

    fn position(&self, ticket: u64) -> (r: Option<usize>)
        ensures
            r is None ==> !self@.in_flight.contains(ticket),
            r matches Some(i) ==> i < self@.in_flight.len() && self@.in_flight[i as int] == ticket,
    {
        let mut i: usize = 0;
        while i < self.in_flight.len()
            invariant
                0 <= i <= self.in_flight@.len(),
                forall|a: int| 0 <= a < i ==> self.in_flight@[a] != ticket,
            decreases self.in_flight@.len() - i,
        {
            if self.in_flight[i] == ticket {
                return Some(i);
            }
            i += 1;
        }
        None
    }

    /// The unit of `ticket` finished. A response is delivered and settles the
    /// ticket alone; a fatal error ends the loop with that error and abandons
    /// every ticket in flight. A ticket not in flight is ignored.
    pub fn on_completed(&mut self, ticket: u64, result: Result<Response, FatalError>) -> (r:
        DriverAction)
        requires
            old(self)@.wf(),
            !old(self)@.stopped,
        ensures
            final(self)@.wf(),
            !old(self)@.in_flight.contains(ticket) ==> r is Ignore && final(self)@ == old(self)@,
            old(self)@.in_flight.contains(ticket) && result is Ok ==> (r matches DriverAction::Deliver(
                t,
                resp,
            ) && t == ticket && Ok::<Response, FatalError>(resp) == result && deliver_post(
                old(self)@,
                final(self)@,
                ticket,
            )),
            old(self)@.in_flight.contains(ticket) && result is Err ==> (r matches DriverAction::Stop(
                res,
                v,
            ) && res == Err::<(), FatalError>(result->Err_0) && abandon_post(
                old(self)@,
                final(self)@,
                v@,
            )),
    {
        let idx = match self.position(ticket) {
            Some(i) => i,
            None => {
                return DriverAction::Ignore;
            },
        };
        match result {
            Ok(resp) => {
                let ghost s = self@;
                proof {
                    assert(s.in_flight.contains(ticket));
                    assert(!s.finished.contains(ticket));
                    lemma_push_no_duplicates(s.finished, ticket);
                }
                self.in_flight.remove(idx);
                self.finished = Ghost(self.finished@.push(ticket));
                proof {
                    s.in_flight.remove_ensures(idx as int);
                    let rem = self@.in_flight;
                    assert forall|x: u64| #[trigger]
                        rem.contains(x) <==> s.in_flight.contains(x) && x != ticket by {
                        if rem.contains(x) {
                            let k = choose|k: int| 0 <= k < rem.len() && rem[k] == x;
                            if k < idx {
                                assert(s.in_flight[k] == x);
                            } else {
                                assert(s.in_flight[k + 1] == x);
                            }
                        }
                        if s.in_flight.contains(x) && x != ticket {
                            let k = choose|k: int| 0 <= k < s.in_flight.len() && s.in_flight[k] == x;
                            if k < idx {
                                assert(rem[k] == x);
                            } else {
                                assert(rem[k - 1] == x);
                            }
                        }
                    }
                    assert(rem.no_duplicates()) by {
                        assert forall|i: int, j: int|
                            0 <= i < rem.len() && 0 <= j < rem.len() && i != j implies rem[i]
                            != rem[j] by {
                            let i2 = if i < idx { i } else { i + 1 };
                            let j2 = if j < idx { j } else { j + 1 };
                            assert(rem[i] == s.in_flight[i2]);
                            assert(rem[j] == s.in_flight[j2]);
                        }
                    }
                    let t = self@;
                    assert(t.launched == s.launched && t.next_ticket == s.next_ticket);
                    assert forall|x: u64| #[trigger] t.in_flight.contains(x) implies !t.finished.contains(
                        x,
                    ) by {
                        assert(s.in_flight.contains(x));
                    }
                    assert forall|x: u64| #[trigger]
                        t.launched.contains(x) <==> (t.in_flight.contains(x) || t.finished.contains(
                            x,
                        )) by {
                        assert(t.launched == s.launched);
                        assert(s.launched.contains(x) == (s.in_flight.contains(x)
                            || s.finished.contains(x)));
                        if x != ticket {
                            assert(t.finished.contains(x) == s.finished.contains(x));
                            assert(t.in_flight.contains(x) == s.in_flight.contains(x));
                        } else {
                            assert(t.finished[s.finished.len() as int] == ticket);
                        }
                    }
                }
                DriverAction::Deliver(ticket, resp)
            },
            Err(e) => {
                let listed = self.abandon();
                DriverAction::Stop(Err(e), listed)
            },
        }
    }
}

/// The state of one side of the race when it was polled.
pub enum PollState<T> {
    Ready(T),
    Pending,
}

/// The race's answer: a finished transport wins whatever the driver did;
/// otherwise the driver's state is the answer.
pub open spec fn race_spec(
    transport: PollState<Result<(), FatalError>>,
    driver: PollState<Result<(), FatalError>>,
) -> PollState<Result<(), FatalError>> {
    match transport {
        PollState::Ready(x) => PollState::Ready(x),
        PollState::Pending => driver,
    }
}

/// Races a connection's transport pump against its driver loop, giving the
/// connection exactly one terminal event.
pub struct IndradbConnLoop {
    done: bool,
}

impl View for IndradbConnLoop {
    type V = bool;

    /// Whether the terminal event has been given.
    closed spec fn view(&self) -> bool {
        self.done
    }
}

impl IndradbConnLoop {
    pub fn new() -> (r: Self)
        ensures
            !r@,
    {
        IndradbConnLoop { done: false }
    }

    pub fn is_done(&self) -> (r: bool)
        ensures
            r == self@,
    {
        self.done
    }

    /// One poll cycle. The transport is looked at first; the driver's state
    /// only counts while the transport is pending (it need not have been
    /// polled otherwise, and `Pending` may stand for it).
    pub fn poll(
        &mut self,
        transport: PollState<Result<(), FatalError>>,
        driver: PollState<Result<(), FatalError>>,
    ) -> (r: PollState<Result<(), FatalError>>)
        requires
            !old(self)@,
        ensures
            r == race_spec(transport, driver),
            final(self)@ == r is Ready,
    {
        let r = match transport {
            PollState::Ready(x) => PollState::Ready(x),
            PollState::Pending => driver,
        };
        self.done = match r {
            PollState::Ready(_) => true,
            PollState::Pending => false,
        };
        r
    }
}

/// Once the driver has stopped, each ticket it launched has had exactly one
/// outcome: it stands exactly once among the settled tickets.
pub proof fn lemma_one_outcome_per_ticket(s: DriverView, x: u64)
    requires
        s.wf(),
        s.stopped,
        s.launched.contains(x),
    ensures
        exists|i: int|
            0 <= i < s.finished.len() && s.finished[i] == x && forall|j: int|
                0 <= j < s.finished.len() && s.finished[j] == x ==> j == i,
{
    assert(!s.in_flight.contains(x));
    let i = choose|i: int| 0 <= i < s.finished.len() && s.finished[i] == x;
    assert(forall|j: int| 0 <= j < s.finished.len() && s.finished[j] == x ==> j == i);
}

/// A delivery settles a ticket that had not been settled before: no caller
/// gets two outcomes.
pub proof fn lemma_delivered_once(s: DriverView, t: DriverView, x: u64)
    requires
        s.wf(),
        deliver_post(s, t, x),
    ensures
        !s.finished.contains(x),
        t.finished.contains(x),
{
    assert(t.finished[s.finished.len() as int] == x);
}

/// The launch log of `t` continues that of `s`.
pub open spec fn log_extends(s: DriverView, t: DriverView) -> bool {
    s.launched.len() <= t.launched.len() && t.launched.subrange(0, s.launched.len() as int)
        == s.launched
}

/// A message received before another is launched before it, and under a
/// smaller ticket, whatever happened in between.
pub proof fn lemma_launch_order(
    s0: DriverView,
    s1: DriverView,
    s2: DriverView,
    s3: DriverView,
    a: u64,
    b: u64,
)
    requires
        launch_post(s0, s1, a),
        log_extends(s1, s2),
        launch_post(s2, s3, b),
        s3.wf(),
    ensures
        s3.launched[s0.launched.len() as int] == a,
        s3.launched[s2.launched.len() as int] == b,
        s0.launched.len() < s2.launched.len(),
        a < b,
{
    let n = s0.launched.len() as int;
    assert(s1.launched[n] == a);
    assert(s2.launched.subrange(0, s1.launched.len() as int)[n] == s2.launched[n]);
    assert(s3.launched[n] == s2.launched[n]);
}

/// Every step of the driver keeps its launch log and only ever adds to it.
pub proof fn lemma_steps_extend_log(s: DriverView, t: DriverView, x: u64, v: Seq<u64>)
    requires
        launch_post(s, t, x) || deliver_post(s, t, x) || abandon_post(s, t, v),
    ensures
        log_extends(s, t),
{
    assert(t.launched.subrange(0, s.launched.len() as int) =~= s.launched);
}

/// When the transport has finished, the race ends with the transport's
/// result whatever the driver had to report in the same cycle.
pub proof fn lemma_transport_priority(
    x: Result<(), FatalError>,
    driver: PollState<Result<(), FatalError>>,
)
    ensures
        race_spec(PollState::Ready(x), driver) == PollState::<Result<(), FatalError>>::Ready(x),
{
}

/// When the transport ends while a request is in flight, the connection
/// ends with the transport's result whatever the driver reported in the same
/// cycle, even a response carrying a domain failure. The driver is then
/// abandoned: the request's ticket is listed and settled as abandoned, and a
/// stopped driver takes no more completions (`on_completed` requires a
/// running one), so the caller observes the connection as closed and never
/// the response.
pub proof fn lemma_disconnect_closes_in_flight(
    s: DriverView,
    t: DriverView,
    v: Seq<u64>,
    x: u64,
    transport: Result<(), FatalError>,
    driver: PollState<Result<(), FatalError>>,
)
    requires
        s.wf(),
        s.in_flight.contains(x),
        abandon_post(s, t, v),
    ensures
        race_spec(PollState::Ready(transport), driver) == PollState::<Result<(), FatalError>>::Ready(
            transport,
        ),
        v.contains(x),
        t.stopped,
        !t.in_flight.contains(x),
        t.finished.contains(x),
{
}

/// Settling one ticket leaves every other ticket in flight and the driver
/// running, so a caller that has gone away affects no other request.
pub proof fn lemma_completion_isolated(s: DriverView, t: DriverView, x: u64, u: u64)
    requires
        deliver_post(s, t, x),
        s.in_flight.contains(u),
        u != x,
    ensures
        t.in_flight.contains(u),
        !t.stopped,
{
}

} // verus!
