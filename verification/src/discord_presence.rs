//! Keeping Discord up to date without making anyone wait for it.
//!
//! Requests go through a channel to a worker, which alone talks to Discord. If
//! Discord was slow, the worker skips to the latest request.
use vstd::prelude::*;
use vstd::string::*;

use crate::discord::DiscordActivity;

verus! {

/// What the worker is asked to do.
pub enum Request {
    /// Show an activity.
    Update(DiscordActivity),
    /// Show nothing.
    Clear,
    /// Stop working.
    Shutdown,
}

// ---------------------------------------------------------------------------
// The channel
// ---------------------------------------------------------------------------
/// The sending side of a channel.
#[verifier::external_type_specification]
#[verifier::external_body]
#[verifier::reject_recursive_types(T)]
pub struct ExSender<T>(std::sync::mpsc::Sender<T>);

/// The receiving side of a channel.
#[verifier::external_type_specification]
#[verifier::external_body]
#[verifier::reject_recursive_types(T)]
pub struct ExReceiver<T>(std::sync::mpsc::Receiver<T>);

/// `std::sync::mpsc::channel`: the two sides of a new channel.
#[verifier::external_body]
fn request_channel() -> (r: (
    std::sync::mpsc::Sender<Request>,
    std::sync::mpsc::Receiver<Request>,
)) {
    std::sync::mpsc::channel()
}

/// `Sender::send`: a request that cannot be received any more comes back. Whether it
/// can be depends on the other side. Sending neither waits nor panics.
#[verifier::external_body]
fn send_request(sender: &std::sync::mpsc::Sender<Request>, request: Request) -> (r: Result<
    (),
    Request,
>)
    ensures
        r matches Err(back) ==> back == request,
    opens_invariants none
    no_unwind
{
    sender.send(request).map_err(|back| back.0)
}

/// `Receiver::recv`: the next request, once there is one, or nothing if there will
/// never be one.
#[verifier::external_body]
fn await_request(receiver: &std::sync::mpsc::Receiver<Request>) -> (r: Option<Request>) {
    receiver.recv().ok()
}

/// `Receiver::try_recv`: the next request, if there is one now.
#[verifier::external_body]
fn poll_request(receiver: &std::sync::mpsc::Receiver<Request>) -> (r: Option<Request>) {
    receiver.try_recv().ok()
}

// ---------------------------------------------------------------------------
// The side that asks
// ---------------------------------------------------------------------------
/// The side that asks. It never waits for Discord.
pub struct DiscordPresence {
    sender: std::sync::mpsc::Sender<Request>,
}

/// What the asking side gets to know of a request that was sent.
pub fn send_result(sent: Result<(), Request>) -> (r: Result<(), String>)
    ensures
        r is Ok == sent is Ok,
        r matches Err(error) ==> error@ == "Discord worker is unavailable."@,
{
    match sent {
        Ok(_) => Ok(()),
        Err(_) => Err("Discord worker is unavailable.".to_owned()),
    }
}

impl DiscordPresence {
    /// `outcome` is what came of handing `request` to the channel of this side: nothing
    /// if it was taken, and the request itself if it was not.
    pub closed spec fn handed_over(&self, request: Request, outcome: Result<(), Request>) -> bool {
        call_ensures(send_request, (&self.sender, request), outcome)
    }

    /// The side that asks, and the worker that answers: the two sides of one new channel.
    pub fn new() -> (r: (DiscordPresence, PresenceWorker))
        ensures
            r.1.answers(&r.0),
            r.1.phase() == WorkerPhase::Waiting,
    {
        DiscordPresence::start()
    }

    /// Makes a new channel, with the side that asks at one end and a worker that waits
    /// for its first request at the other. The worker's run from here is the subject of
    /// [`law_latest_request_wins`] and [`law_handled_requests_are_received_ones`].
    pub fn start() -> (r: (DiscordPresence, PresenceWorker))
        ensures
            r.1.answers(&r.0),
            r.1.phase() == WorkerPhase::Waiting,
    {
        let (sender, receiver) = request_channel();
        (DiscordPresence { sender }, PresenceWorker { receiver, phase: WorkerPhase::Waiting })
    }

    /// Asks to show an activity: hands the request to the channel, and tells whether it
    /// was taken.
    pub fn set(&self, activity: DiscordActivity) -> (r: Result<(), String>)
        ensures
            exists|outcome: Result<(), Request>| #[trigger]
                self.handed_over(Request::Update(activity), outcome) && r is Ok == outcome is Ok,
            r matches Err(error) ==> error@ == "Discord worker is unavailable."@,
    {
        self.send(Request::Update(activity))
    }

    /// Asks to show nothing: hands the request to the channel, and tells whether it was
    /// taken.
    pub fn clear(&self) -> (r: Result<(), String>)
        ensures
            exists|outcome: Result<(), Request>| #[trigger]
                self.handed_over(Request::Clear, outcome) && r is Ok == outcome is Ok,
            r matches Err(error) ==> error@ == "Discord worker is unavailable."@,
    {
        self.send(Request::Clear)
    }

    /// Asks the worker to stop: hands the request to the channel, whether or not it is
    /// taken.
    pub fn shutdown(&self)
        ensures
            exists|outcome: Result<(), Request>| #[trigger]
                self.handed_over(Request::Shutdown, outcome),
        opens_invariants none
        no_unwind
    {
        let outcome: Result<(), Request> = send_request(&self.sender, Request::Shutdown);
        assert(self.handed_over(Request::Shutdown, outcome));
    }

    /// Hands a request to the channel, and tells whether it was taken.
    fn send(&self, request: Request) -> (r: Result<(), String>)
        ensures
            exists|outcome: Result<(), Request>| #[trigger]
                self.handed_over(request, outcome) && r is Ok == outcome is Ok,
            r matches Err(error) ==> error@ == "Discord worker is unavailable."@,
    {
        let outcome: Result<(), Request> = send_request(&self.sender, request);
        assert(self.handed_over(request, outcome));
        send_result(outcome)
    }
}

impl Drop for DiscordPresence {
    /// Asks the worker to stop.
    fn drop(&mut self)
        ensures
            exists|outcome: Result<(), Request>| #[trigger]
                old(self).handed_over(Request::Shutdown, outcome),
        opens_invariants none
        no_unwind
    {
        self.shutdown();
    }
}

// ---------------------------------------------------------------------------
// The worker
// ---------------------------------------------------------------------------
/// What the worker is doing.
pub enum WorkerPhase {
    /// Waiting for a request.
    Waiting,
    /// Looking whether there is a later request than this one.
    Skipping(Request),
    /// Nothing more.
    Stopped,
}

/// What came out of the channel.
pub enum WorkerEvent {
    Received(Request),
    /// Nothing: for now, or for ever while the worker waits.
    Nothing,
}

/// What the worker learns from looking into the channel.
pub open spec fn event_of(received: Option<Request>) -> WorkerEvent {
    match received {
        Some(request) => WorkerEvent::Received(request),
        None => WorkerEvent::Nothing,
    }
}

/// What to do next.
pub enum WorkerAction {
    /// Look again into the channel.
    Continue,
    /// Do what was asked for, then look again into the channel.
    Handle(Request),
    /// The worker has stopped.
    Stop,
}

/// The next phase and the next action of the worker.
pub open spec fn worker_transition(phase: WorkerPhase, event: WorkerEvent) -> (
    WorkerPhase,
    WorkerAction,
) {
    match (phase, event) {
        (WorkerPhase::Stopped, _) => (WorkerPhase::Stopped, WorkerAction::Stop),
        (_, WorkerEvent::Received(Request::Shutdown)) => (WorkerPhase::Stopped, WorkerAction::Stop),
        (_, WorkerEvent::Received(request)) => (
            WorkerPhase::Skipping(request),
            WorkerAction::Continue,
        ),
        (WorkerPhase::Waiting, WorkerEvent::Nothing) => (WorkerPhase::Stopped, WorkerAction::Stop),
        (WorkerPhase::Skipping(request), WorkerEvent::Nothing) => (
            WorkerPhase::Waiting,
            WorkerAction::Handle(request),
        ),
    }
}

/// The worker.
pub struct PresenceWorker {
    receiver: std::sync::mpsc::Receiver<Request>,
    phase: WorkerPhase,
}

impl PresenceWorker {
    /// What the worker is doing.
    pub closed spec fn phase(&self) -> WorkerPhase {
        self.phase
    }

    /// The worker and the side that asks are the two sides of one channel.
    pub closed spec fn answers(&self, presence: &DiscordPresence) -> bool {
        call_ensures(request_channel, (), (presence.sender, self.receiver))
    }

    /// `received` is what came of looking into the channel of this worker: it waits for
    /// a request if it has nothing to do, takes one that is there if it is skipping, and
    /// does not look if it has stopped.
    pub closed spec fn looked(&self, received: Option<Request>) -> bool {
        match self.phase {
            WorkerPhase::Waiting => call_ensures(await_request, (&self.receiver,), received),
            WorkerPhase::Skipping(_) => call_ensures(poll_request, (&self.receiver,), received),
            WorkerPhase::Stopped => received is None,
        }
    }

    /// Takes what came out of the channel and tells what to do next.
    pub fn step(&mut self, event: WorkerEvent) -> (r: WorkerAction)
        ensures
            forall|presence: &DiscordPresence| #[trigger]
                final(self).answers(presence) == old(self).answers(presence),
            (final(self).phase(), r) == worker_transition(old(self).phase(), event),
    {
        let mut phase: WorkerPhase = WorkerPhase::Stopped;
        std::mem::swap(&mut phase, &mut self.phase);
        match (phase, event) {
            (WorkerPhase::Stopped, _) => WorkerAction::Stop,
            (_, WorkerEvent::Received(Request::Shutdown)) => WorkerAction::Stop,
            (_, WorkerEvent::Received(request)) => {
                self.phase = WorkerPhase::Skipping(request);
                WorkerAction::Continue
            },
            (WorkerPhase::Waiting, WorkerEvent::Nothing) => WorkerAction::Stop,
            (WorkerPhase::Skipping(request), WorkerEvent::Nothing) => {
                self.phase = WorkerPhase::Waiting;
                WorkerAction::Handle(request)
            },
        }
    }

    /// Looks into the channel, waiting for a request if there is nothing to do, and
    /// tells what to do next.
    pub fn advance(&mut self) -> (r: WorkerAction)
        ensures
            forall|presence: &DiscordPresence| #[trigger]
                final(self).answers(presence) == old(self).answers(presence),
            exists|received: Option<Request>| #[trigger]
                old(self).looked(received) && (final(self).phase(), r) == worker_transition(
                    old(self).phase(),
                    event_of(received),
                ),
    {
        let received: Option<Request> = match self.phase {
            WorkerPhase::Waiting => await_request(&self.receiver),
            WorkerPhase::Skipping(_) => poll_request(&self.receiver),
            WorkerPhase::Stopped => None,
        };
        assert(self.looked(received));
        let event: WorkerEvent = match received {
            Some(request) => WorkerEvent::Received(request),
            None => WorkerEvent::Nothing,
        };
        self.step(event)
    }
}

/// The phase of the worker after a sequence of events.
pub open spec fn phase_after(phase: WorkerPhase, events: Seq<WorkerEvent>) -> WorkerPhase
    decreases events.len(),
{
    if events.len() == 0 {
        phase
    } else {
        worker_transition(phase_after(phase, events.drop_last()), events.last()).0
    }
}

/// What the channel gives for a sequence of requests that wait in it.
pub open spec fn received(requests: Seq<Request>) -> Seq<WorkerEvent> {
    Seq::new(requests.len(), |i: int| WorkerEvent::Received(requests[i]))
}

/// No request asks the worker to stop.
pub open spec fn no_shutdown(requests: Seq<Request>) -> bool {
    forall|i: int| 0 <= i < requests.len() ==> !(#[trigger] requests[i] is Shutdown)
}

/// The requests that the worker handles in the course of a sequence of events.
pub open spec fn handled_in(events: Seq<WorkerEvent>) -> Seq<Request>
    decreases events.len(),
{
    if events.len() == 0 {
        Seq::empty()
    } else {
        let before = handled_in(events.drop_last());
        match worker_transition(
            phase_after(WorkerPhase::Waiting, events.drop_last()),
            events.last(),
        ).1 {
            WorkerAction::Handle(request) => before.push(request),
            _ => before,
        }
    }
}

/// The requests that came out of the channel in the course of a sequence of events.
pub open spec fn received_in(events: Seq<WorkerEvent>) -> Seq<Request>
    decreases events.len(),
{
    if events.len() == 0 {
        Seq::empty()
    } else {
        match events.last() {
            WorkerEvent::Received(request) => received_in(events.drop_last()).push(request),
            WorkerEvent::Nothing => received_in(events.drop_last()),
        }
    }
}

/// The places `at` of `whole` hold `part`, in order and each place at most once.
pub open spec fn picks(part: Seq<Request>, whole: Seq<Request>, at: Seq<int>) -> bool {
    &&& at.len() == part.len()
    &&& forall|i: int|
        0 <= i < at.len() ==> 0 <= #[trigger] at[i] < whole.len() && part[i] == whole[at[i]]
    &&& forall|i: int, j: int| 0 <= i < j < at.len() ==> #[trigger] at[i] < #[trigger] at[j]
}

/// Law: the requests that the worker handles are some of those that came out of the
/// channel, in the same order and each at most once; none of them is a request to stop,
/// and none of them came after one.
pub proof fn law_handled_requests_are_received_ones(events: Seq<WorkerEvent>)
    ensures
        exists|at: Seq<int>| #[trigger]
            picks(handled_in(events), received_in(events), at) && forall|i: int|
                0 <= i < at.len() ==> no_shutdown(received_in(events).take(#[trigger] at[i] + 1)),
{
    let at = lemma_handled(events);
    assert(picks(handled_in(events), received_in(events), at));
}

/// What holds of the requests handled so far, besides the law: they came before the one
/// that the worker is about to handle, and while it works nobody has asked it to stop.
proof fn lemma_handled(events: Seq<WorkerEvent>) -> (at: Seq<int>)
    ensures
        picks(handled_in(events), received_in(events), at),
        forall|i: int|
            0 <= i < at.len() ==> no_shutdown(received_in(events).take(#[trigger] at[i] + 1)),
        !(phase_after(WorkerPhase::Waiting, events) is Stopped) ==> no_shutdown(received_in(events)),
        phase_after(WorkerPhase::Waiting, events) matches WorkerPhase::Skipping(request) ==> {
            &&& received_in(events).len() > 0
            &&& request == received_in(events).last()
            &&& forall|i: int| 0 <= i < at.len() ==> #[trigger] at[i] < received_in(events).len() - 1
        },
    decreases events.len(),
{
    if events.len() == 0 {
        Seq::empty()
    } else {
        let earlier = events.drop_last();
        let before = lemma_handled(earlier);
        let phase = phase_after(WorkerPhase::Waiting, earlier);
        let old_received = received_in(earlier);
        let new_received = received_in(events);
        assert forall|i: int| 0 <= i < before.len() implies no_shutdown(
            new_received.take(#[trigger] before[i] + 1),
        ) by {
            assert(new_received.take(before[i] + 1) =~= old_received.take(before[i] + 1));
        }
        assert(forall|k: int| 0 <= k < old_received.len() ==> old_received[k] == new_received[k]);
        if no_shutdown(old_received) && (events.last() matches WorkerEvent::Received(request) ==> !(
        request is Shutdown)) {
            assert forall|k: int| 0 <= k < new_received.len() implies !(
            #[trigger] new_received[k] is Shutdown) by {
                if k < old_received.len() {
                    assert(new_received[k] == old_received[k]);
                }
            }
        }
        match (phase, events.last()) {
            (WorkerPhase::Skipping(request), WorkerEvent::Nothing) => {
                let at = before.push(new_received.len() - 1);
                assert(handled_in(events) == handled_in(earlier).push(request));
                assert(new_received.take(new_received.len() as int) =~= new_received);
                assert forall|i: int| 0 <= i < at.len() implies no_shutdown(
                    new_received.take(#[trigger] at[i] + 1),
                ) by {
                    if i < before.len() {
                        assert(at[i] == before[i]);
                    }
                }
                at
            },
            _ => {
                assert(handled_in(events) == handled_in(earlier));
                before
            },
        }
    }
}

proof fn lemma_skipping_handles_nothing(requests: Seq<Request>)
    requires
        no_shutdown(requests),
    ensures
        handled_in(received(requests)) == Seq::<Request>::empty(),
    decreases requests.len(),
{
    if requests.len() > 0 {
        let before = requests.drop_last();
        assert(received(requests).drop_last() =~= received(before));
        assert forall|k: int| 0 <= k < before.len() implies !(#[trigger] before[k] is Shutdown) by {
            assert(before[k] == requests[k]);
        }
        lemma_skipping_handles_nothing(before);
        assert(!(requests[requests.len() - 1] is Shutdown));
        assert(received(requests).last() == WorkerEvent::Received(requests.last()));
    }
}

/// Law: of the requests that wait in the channel, the worker does what the last one
/// asks for and skips the others.
pub proof fn law_latest_request_wins(requests: Seq<Request>)
    requires
        requests.len() > 0,
        no_shutdown(requests),
    ensures
        phase_after(WorkerPhase::Waiting, received(requests)) == WorkerPhase::Skipping(
            requests.last(),
        ),
        worker_transition(
            phase_after(WorkerPhase::Waiting, received(requests)),
            WorkerEvent::Nothing,
        ) == (WorkerPhase::Waiting, WorkerAction::Handle(requests.last())),
        forall|i: int|
            0 <= i < requests.len() ==> (#[trigger] worker_transition(
                phase_after(WorkerPhase::Waiting, received(requests.take(i))),
                WorkerEvent::Received(requests[i]),
            )).1 == WorkerAction::Continue,
        handled_in(received(requests).push(WorkerEvent::Nothing)) == seq![requests.last()],
{
    lemma_skipping(requests);
    lemma_skipping_handles_nothing(requests);
    assert(received(requests).push(WorkerEvent::Nothing).drop_last() =~= received(requests));
    assert(Seq::<Request>::empty().push(requests.last()) =~= seq![requests.last()]);
    assert forall|i: int| 0 <= i < requests.len() implies (#[trigger] worker_transition(
        phase_after(WorkerPhase::Waiting, received(requests.take(i))),
        WorkerEvent::Received(requests[i]),
    )).1 == WorkerAction::Continue by {
        let before = requests.take(i);
        assert(no_shutdown(before)) by {
            assert forall|k: int| 0 <= k < before.len() implies !(#[trigger] before[k] is Shutdown) by {
                assert(before[k] == requests[k]);
            }
        }
        if i > 0 {
            lemma_skipping(before);
        } else {
            assert(received(before) =~= Seq::<WorkerEvent>::empty());
        }
    }
}

proof fn lemma_skipping(requests: Seq<Request>)
    requires
        requests.len() > 0,
        no_shutdown(requests),
    ensures
        phase_after(WorkerPhase::Waiting, received(requests)) == WorkerPhase::Skipping(
            requests.last(),
        ),
    decreases requests.len(),
{
    let before = requests.drop_last();
    assert(received(requests).drop_last() =~= received(before));
    assert(received(requests).last() == WorkerEvent::Received(requests.last()));
    assert(!(requests[requests.len() - 1] is Shutdown));
    if before.len() > 0 {
        assert forall|k: int| 0 <= k < before.len() implies !(#[trigger] before[k] is Shutdown) by {
            assert(before[k] == requests[k]);
        }
        lemma_skipping(before);
    } else {
        assert(received(before) =~= Seq::<WorkerEvent>::empty());
        assert(phase_after(WorkerPhase::Waiting, received(before)) == WorkerPhase::Waiting);
    }
    let phase = phase_after(WorkerPhase::Waiting, received(before));
    assert(!(phase is Stopped));
    assert(phase_after(WorkerPhase::Waiting, received(requests)) == worker_transition(
        phase,
        WorkerEvent::Received(requests.last()),
    ).0);
}

/// Law: once the worker is asked to stop, it stops at once, whatever request it was
/// about to handle, and does nothing more.
pub proof fn law_shutdown_stops_the_worker(phase: WorkerPhase, after: Seq<WorkerEvent>)
    ensures
        worker_transition(phase, WorkerEvent::Received(Request::Shutdown)) == (
            WorkerPhase::Stopped,
            WorkerAction::Stop,
        ),
        phase_after(WorkerPhase::Stopped, after) == WorkerPhase::Stopped,
        forall|event: WorkerEvent| #[trigger]
            worker_transition(phase_after(WorkerPhase::Stopped, after), event).1
                == WorkerAction::Stop,
    decreases after.len(),
{
    if after.len() > 0 {
        law_shutdown_stops_the_worker(phase, after.drop_last());
    }
}

/// Law: the worker never handles a request to stop.
pub proof fn law_shutdown_is_never_handled(events: Seq<WorkerEvent>, event: WorkerEvent)
    ensures
        worker_transition(
            phase_after(WorkerPhase::Waiting, events),
            event,
        ).1 matches WorkerAction::Handle(request) ==> !(request is Shutdown),
{
    lemma_never_skips_to_shutdown(events);
}

proof fn lemma_never_skips_to_shutdown(events: Seq<WorkerEvent>)
    ensures
        phase_after(WorkerPhase::Waiting, events) matches WorkerPhase::Skipping(request) ==> !(
        request is Shutdown),
    decreases events.len(),
{
    if events.len() > 0 {
        lemma_never_skips_to_shutdown(events.drop_last());
    }
}

// ---------------------------------------------------------------------------
// Updating Discord
// ---------------------------------------------------------------------------
/// How often an activity is handed to Discord before it is given up.
pub const MAX_ATTEMPTS: u8 = 2;

/// What an update is waiting for.
#[derive(Clone, Copy, Debug, PartialEq, Eq, Structural)]
pub enum UpdatePhase {
    /// A new connection to Discord.
    Connecting,
    /// Discord to take the activity.
    Setting,
    /// Nothing more.
    Done,
}

/// What happened.
#[derive(Clone, Copy, Debug, PartialEq, Eq, Structural)]
pub enum UpdateEvent {
    Connected,
    ConnectFailed,
    /// Discord has taken the activity.
    Taken,
    /// Discord has not.
    SetFailed,
}

/// What to do next.
#[derive(Clone, Copy, Debug, PartialEq, Eq, Structural)]
pub enum UpdateAction {
    /// Make a new connection, in place of the one there is.
    Connect,
    /// Hand the activity to Discord.
    SetActivity,
    /// The update is over. The connection is kept for the next one, or dropped.
    Finish { keep_connection: bool },
    /// The event answers nothing that was asked for.
    Ignore,
}

/// The state of an update: what it waits for, and how often Discord did not take the
/// activity.
#[derive(Clone, Copy, Debug, PartialEq, Eq, Structural)]
pub struct PresenceUpdate {
    pub phase: UpdatePhase,
    pub failures: u8,
}

/// The first state and the first action of an update: with a connection the activity
/// is handed to Discord, without one a connection is made.
pub open spec fn update_begun(connected: bool) -> (PresenceUpdate, UpdateAction) {
    if connected {
        (PresenceUpdate { phase: UpdatePhase::Setting, failures: 0 }, UpdateAction::SetActivity)
    } else {
        (PresenceUpdate { phase: UpdatePhase::Connecting, failures: 0 }, UpdateAction::Connect)
    }
}

/// The end of an update.
pub open spec fn update_over(failures: u8, keep_connection: bool) -> (PresenceUpdate, UpdateAction) {
    (
        PresenceUpdate { phase: UpdatePhase::Done, failures },
        UpdateAction::Finish { keep_connection },
    )
}

/// The next state and the next action of an update. If Discord does not take the
/// activity, it is handed over once more on a new connection.
pub open spec fn update_transition(u: PresenceUpdate, event: UpdateEvent) -> (
    PresenceUpdate,
    UpdateAction,
) {
    match (u.phase, event) {
        (UpdatePhase::Connecting, UpdateEvent::Connected) => (
            PresenceUpdate { phase: UpdatePhase::Setting, ..u },
            UpdateAction::SetActivity,
        ),
        (UpdatePhase::Connecting, UpdateEvent::ConnectFailed) => update_over(u.failures, false),
        (UpdatePhase::Setting, UpdateEvent::Taken) => update_over(u.failures, true),
        (UpdatePhase::Setting, UpdateEvent::SetFailed) => if u.failures + 1 < MAX_ATTEMPTS {
            (
                PresenceUpdate { phase: UpdatePhase::Connecting, failures: (u.failures + 1) as u8 },
                UpdateAction::Connect,
            )
        } else {
            update_over(u.failures, false)
        },
        _ => (u, UpdateAction::Ignore),
    }
}

impl PresenceUpdate {
    /// Begins an update, with or without a connection to Discord.
    pub fn begin(connected: bool) -> (r: (PresenceUpdate, UpdateAction))
        ensures
            r == update_begun(connected),
    {
        if connected {
            (PresenceUpdate { phase: UpdatePhase::Setting, failures: 0 }, UpdateAction::SetActivity)
        } else {
            (PresenceUpdate { phase: UpdatePhase::Connecting, failures: 0 }, UpdateAction::Connect)
        }
    }

    fn finish(&mut self, keep_connection: bool) -> (r: UpdateAction)
        ensures
            (*final(self), r) == update_over(old(self).failures, keep_connection),
    {
        self.phase = UpdatePhase::Done;
        UpdateAction::Finish { keep_connection }
    }

    /// Takes what happened and tells what to do next.
    pub fn step(&mut self, event: UpdateEvent) -> (r: UpdateAction)
        ensures
            (*final(self), r) == update_transition(*old(self), event),
    {
        match (self.phase, event) {
            (UpdatePhase::Connecting, UpdateEvent::Connected) => {
                self.phase = UpdatePhase::Setting;
                UpdateAction::SetActivity
            },
            (UpdatePhase::Connecting, UpdateEvent::ConnectFailed) => self.finish(false),
            (UpdatePhase::Setting, UpdateEvent::Taken) => self.finish(true),
            (UpdatePhase::Setting, UpdateEvent::SetFailed) => {
                if self.failures < MAX_ATTEMPTS - 1 {
                    self.failures = self.failures + 1;
                    self.phase = UpdatePhase::Connecting;
                    UpdateAction::Connect
                } else {
                    self.finish(false)
                }
            },
            _ => UpdateAction::Ignore,
        }
    }
}

/// How a request to show nothing is handled.
#[derive(Clone, Copy, Debug, PartialEq, Eq, Structural)]
pub enum ClearAction {
    /// Clear the activity on the connection that is there, once, and drop the connection
    /// however that went.
    ClearAndDrop,
    /// There is no connection, and none is made.
    LeaveAlone,
}

/// How a request to show nothing is handled: with a connection to Discord, or without.
pub fn clear_action(connected: bool) -> (r: ClearAction)
    ensures
        r == (if connected {
            ClearAction::ClearAndDrop
        } else {
            ClearAction::LeaveAlone
        }),
{
    if connected {
        ClearAction::ClearAndDrop
    } else {
        ClearAction::LeaveAlone
    }
}

/// The state of an update after a sequence of events.
pub open spec fn update_after(connected: bool, events: Seq<UpdateEvent>) -> PresenceUpdate
    decreases events.len(),
{
    if events.len() == 0 {
        update_begun(connected).0
    } else {
        update_transition(update_after(connected, events.drop_last()), events.last()).0
    }
}

/// The actions of an update, one for its beginning and one for each event.
pub open spec fn update_actions(connected: bool, events: Seq<UpdateEvent>) -> Seq<UpdateAction>
    decreases events.len(),
{
    if events.len() == 0 {
        seq![update_begun(connected).1]
    } else {
        update_actions(connected, events.drop_last()).push(
            update_transition(update_after(connected, events.drop_last()), events.last()).1,
        )
    }
}

/// How often an action occurs.
pub open spec fn count_of(actions: Seq<UpdateAction>, action: UpdateAction) -> nat
    decreases actions.len(),
{
    if actions.len() == 0 {
        0
    } else {
        count_of(actions.drop_last(), action) + if actions.last() == action {
            1nat
        } else {
            0nat
        }
    }
}

/// Law: one update hands the activity to Discord at most twice and makes at most two
/// connections, whatever Discord does.
pub proof fn law_updates_are_bounded(connected: bool, events: Seq<UpdateEvent>)
    ensures
        count_of(update_actions(connected, events), UpdateAction::SetActivity) <= MAX_ATTEMPTS,
        count_of(update_actions(connected, events), UpdateAction::Connect) <= MAX_ATTEMPTS,
{
    lemma_update_counts(connected, events);
}

proof fn lemma_update_counts(connected: bool, events: Seq<UpdateEvent>)
    ensures
        ({
            let u = update_after(connected, events);
            let sets = count_of(update_actions(connected, events), UpdateAction::SetActivity);
            let connects = count_of(update_actions(connected, events), UpdateAction::Connect);
            &&& u.failures < MAX_ATTEMPTS
            &&& u.phase == UpdatePhase::Connecting ==> sets == u.failures && connects
                <= u.failures + 1
            &&& u.phase == UpdatePhase::Setting ==> sets == u.failures + 1 && connects
                <= u.failures + 1
            &&& u.phase == UpdatePhase::Done ==> sets <= MAX_ATTEMPTS && connects <= MAX_ATTEMPTS
        }),
    decreases events.len(),
{
    let actions = update_actions(connected, events);
    if events.len() == 0 {
        assert(actions.drop_last() =~= Seq::<UpdateAction>::empty());
        assert(count_of(actions.drop_last(), UpdateAction::SetActivity) == 0);
        assert(count_of(actions.drop_last(), UpdateAction::Connect) == 0);
    } else {
        lemma_update_counts(connected, events.drop_last());
        assert(actions.drop_last() =~= update_actions(connected, events.drop_last()));
    }
}

/// Law: when an update ends, a connection is kept exactly if Discord has taken the
/// activity on it.
pub proof fn law_connection_is_kept_iff_taken(u: PresenceUpdate, event: UpdateEvent)
    ensures
        update_transition(u, event).1 matches UpdateAction::Finish { keep_connection } ==> (
        keep_connection <==> event == UpdateEvent::Taken),
        u.phase == UpdatePhase::Setting && event == UpdateEvent::Taken ==> update_transition(
            u,
            event,
        ).1 is Finish,
{
}

/// Law: an update without a connection makes one and then hands the activity over; with
/// one it hands the activity over at once. What Discord has not taken the first time is
/// handed over once more, on a new connection; after the second time the update ends, and
/// so it does where no connection can be made.
pub proof fn law_updates_are_tried_twice(u: PresenceUpdate)
    ensures
        update_begun(true).1 is SetActivity,
        update_begun(true).0.phase == UpdatePhase::Setting,
        update_begun(false).1 is Connect,
        update_begun(false).0.phase == UpdatePhase::Connecting,
        update_begun(true).0.failures == 0,
        update_begun(false).0.failures == 0,
        u.phase == UpdatePhase::Connecting ==> {
            &&& update_transition(u, UpdateEvent::Connected).1 is SetActivity
            &&& update_transition(u, UpdateEvent::Connected).0.phase == UpdatePhase::Setting
            &&& update_transition(u, UpdateEvent::Connected).0.failures == u.failures
            &&& update_transition(u, UpdateEvent::ConnectFailed).1 == (UpdateAction::Finish {
                keep_connection: false,
            })
            &&& update_transition(u, UpdateEvent::ConnectFailed).0.phase == UpdatePhase::Done
        },
        u.phase == UpdatePhase::Setting ==> {
            &&& update_transition(u, UpdateEvent::Taken).1 == (UpdateAction::Finish {
                keep_connection: true,
            })
            &&& u.failures == 0 ==> update_transition(u, UpdateEvent::SetFailed).1 is Connect
            &&& u.failures == 0 ==> update_transition(u, UpdateEvent::SetFailed).0.phase
                == UpdatePhase::Connecting
            &&& u.failures == 0 ==> update_transition(u, UpdateEvent::SetFailed).0.failures == 1
            &&& u.failures >= 1 ==> update_transition(u, UpdateEvent::SetFailed).1 == (
            UpdateAction::Finish { keep_connection: false })
        },
        u.phase == UpdatePhase::Done ==> forall|event: UpdateEvent| #[trigger]
            update_transition(u, event) == (u, UpdateAction::Ignore),
{
}

/// Law: what the worker does with what it finds in the channel. A request is kept until
/// nothing more is there, in place of an earlier one, and is then handled as it is; a
/// request to stop, and a channel without another side, stop it.
pub proof fn law_worker_keeps_and_handles_requests(phase: WorkerPhase, request: Request)
    requires
        !(phase is Stopped),
    ensures
        !(request is Shutdown) ==> worker_transition(phase, WorkerEvent::Received(request)) == (
            WorkerPhase::Skipping(request),
            WorkerAction::Continue,
        ),
        worker_transition(phase, WorkerEvent::Received(Request::Shutdown)).1 is Stop,
        worker_transition(phase, WorkerEvent::Received(Request::Shutdown)).0 is Stopped,
        worker_transition(WorkerPhase::Skipping(request), WorkerEvent::Nothing) == (
            WorkerPhase::Waiting,
            WorkerAction::Handle(request),
        ),
        worker_transition(WorkerPhase::Waiting, WorkerEvent::Nothing).1 is Stop,
{
}

/// Law: a request to show nothing makes no connection, and drops the one that is there.
pub proof fn law_clearing_makes_no_connection(connected: bool, r: ClearAction)
    requires
        call_ensures(clear_action, (connected,), r),
    ensures
        r == ClearAction::ClearAndDrop <==> connected,
        r == ClearAction::LeaveAlone <==> !connected,
{
}

} // verus!
