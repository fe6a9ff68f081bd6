//! Polling of completion queues.
//!
//! Two polling strategies are provided:
//!
//! - [`Poller`]: **busy-polls** a completion queue in a tight loop.
//! - [`AsyncPoller`]: **event-driven** polling via `epoll` on a completion event
//!   channel, with an optional busy-poll fallback.
//!
//! Both dispatch completed work requests to the operations that wait for them.
//! Each operation registers its `wr_id` in a [`PendingMap`]; when a completion is
//! harvested, the matching entry is removed and the result is delivered.
//!
//! The pollers are state machines: they say what to do next, and whoever runs
//! them performs it and says what came of it.

use std::collections::HashSet;

use vstd::prelude::*;
use vstd::string::*;

use crate::error::{ErrorView, RdmaError};
use crate::rdma::cq;
use crate::rdma::cq::{WcStatus, WorkCompletion};
use crate::text;

verus! {

// ---------------------------------------------------------------------------
// Dispatch
// ---------------------------------------------------------------------------
/// How many completions are harvested at once.
pub const HARVEST_MAX: u32 = 16;

/// What an operation gets for its completion.
pub open spec fn completion_result(wc: WorkCompletion) -> Result<WorkCompletion, ErrorView> {
    if wc.status == WcStatus::Success {
        Ok(wc)
    } else {
        Err(
            ErrorView::HardwareError(
                "WC error: status="@ + cq::status_name(wc.status) + ", vendor_err="@
                    + text::decimal(wc.vendor_err as nat),
            ),
        )
    }
}

/// A delivery as a value: the operation, and what it gets.
pub type DeliveryView = (u64, Result<WorkCompletion, ErrorView>);

/// The dispatch of completions, one after the other: the operations that still
/// wait, and what is delivered. A completion that nobody waits for is dropped.
pub open spec fn dispatch_of(waiting: Set<u64>, wcs: Seq<WorkCompletion>) -> (
    Set<u64>,
    Seq<DeliveryView>,
)
    decreases wcs.len(),
{
    if wcs.len() == 0 {
        (waiting, Seq::empty())
    } else {
        let (left, sent) = dispatch_of(waiting, wcs.drop_last());
        let wc = wcs.last();
        if left.contains(wc.wr_id) {
            (left.remove(wc.wr_id), sent.push((wc.wr_id, completion_result(wc))))
        } else {
            (left, sent)
        }
    }
}

/// What an operation gets.
#[derive(Debug)]
pub struct Delivery {
    pub wr_id: u64,
    pub result: Result<WorkCompletion, RdmaError>,
}

impl View for Delivery {
    type V = DeliveryView;

    open spec fn view(&self) -> DeliveryView {
        (
            self.wr_id,
            match self.result {
                Ok(wc) => Ok(wc),
                Err(e) => Err(e@),
            },
        )
    }
}

/// Deliveries as values.
pub open spec fn deliveries(d: Seq<Delivery>) -> Seq<DeliveryView> {
    Seq::new(d.len(), |i: int| d[i]@)
}

/// What an operation gets for its completion.
fn result_of(wc: &WorkCompletion) -> (r: Result<WorkCompletion, RdmaError>)
    ensures
        (match r {
            Ok(w) => Ok::<WorkCompletion, ErrorView>(w),
            Err(e) => Err(e@),
        }) == completion_result(*wc),
{
    if wc.is_success() {
        Ok(*wc)
    } else {
        let mut msg: String = "WC error: status=".to_owned();
        msg.append(wc.status.name());
        msg.append(", vendor_err=");
        text::append_decimal(&mut msg, wc.vendor_err as u64);
        Err(RdmaError::HardwareError(msg))
    }
}

/// The operations that wait for a completion, by `wr_id`.
///
/// The poller removes entries as completions arrive; operations insert entries
/// before posting work requests.
#[derive(Debug)]
pub struct PendingMap {
    waiting: HashSet<u64>,
}

impl View for PendingMap {
    type V = Set<u64>;

    closed spec fn view(&self) -> Set<u64> {
        self.waiting@
    }
}

impl PendingMap {
    /// Nobody waits.
    pub fn new() -> (r: Self)
        ensures
            r@ == Set::<u64>::empty(),
    {
        PendingMap { waiting: HashSet::new() }
    }

    /// Registers an operation.
    pub fn insert(&mut self, wr_id: u64)
        ensures
            final(self)@ == old(self)@.insert(wr_id),
    {
        broadcast use vstd::std_specs::hash::group_hash_axioms;

        self.waiting.insert(wr_id);
    }

    /// Takes an operation out; whether it was there.
    pub fn remove(&mut self, wr_id: u64) -> (b: bool)
        ensures
            b == old(self)@.contains(wr_id),
            final(self)@ == old(self)@.remove(wr_id),
    {
        broadcast use vstd::std_specs::hash::group_hash_axioms;

        let b: bool = self.waiting.remove(&wr_id);
        assert(self@ =~= old(self)@.remove(wr_id));
        b
    }

    /// Whether the operation waits.
    pub fn contains_key(&self, wr_id: u64) -> (b: bool)
        ensures
            b == self@.contains(wr_id),
    {
        broadcast use vstd::std_specs::hash::group_hash_axioms;

        self.waiting.contains(&wr_id)
    }

    /// Forgets all operations.
    pub fn clear(&mut self)
        ensures
            final(self)@ == Set::<u64>::empty(),
    {
        self.waiting = HashSet::new();
    }

    /// Whether nobody waits.
    pub fn is_empty(&self) -> (b: bool)
        ensures
            b == (self@ == Set::<u64>::empty()),
    {
        broadcast use vstd::std_specs::hash::group_hash_axioms;

        self.waiting.is_empty()
    }

    /// Dispatches completions to the operations that wait for them.
    pub fn dispatch(&mut self, wcs: &[WorkCompletion]) -> (r: Vec<Delivery>)
        ensures
            (final(self)@, deliveries(r@)) == dispatch_of(old(self)@, wcs@),
    {
        let mut r: Vec<Delivery> = Vec::new();
        let mut i: usize = 0;
        assert(deliveries(r@) =~= Seq::<DeliveryView>::empty());
        while i < wcs.len()
            invariant
                i <= wcs@.len(),
                (self@, deliveries(r@)) == dispatch_of(old(self)@, wcs@.take(i as int)),
            decreases wcs@.len() - i,
        {
            proof {
                assert(wcs@.take(i + 1).drop_last() =~= wcs@.take(i as int));
                assert(wcs@.take(i + 1).last() == wcs@[i as int]);
            }
            let ghost before = deliveries(r@);
            if self.remove(wcs[i].wr_id) {
                let d = Delivery { wr_id: wcs[i].wr_id, result: result_of(&wcs[i]) };
                let ghost shown = d@;
                r.push(d);
                assert(deliveries(r@) =~= before.push(shown));
            }
            i = i + 1;
        }
        assert(wcs@.take(i as int) =~= wcs@);
        r
    }
}

/// Dispatch answers every operation whose completion is among those harvested,
/// once, with the result of its first completion, and leaves the others waiting.
pub proof fn law_dispatch(waiting: Set<u64>, wcs: Seq<WorkCompletion>)
    ensures
        ({
            let (left, sent) = dispatch_of(waiting, wcs);
            &&& forall|id: u64| #[trigger]
                left.contains(id) <==> waiting.contains(id) && !completes(wcs, id)
            &&& forall|j: int|
                0 <= j < sent.len() ==> waiting.contains((#[trigger] sent[j]).0) && !left.contains(
                    sent[j].0,
                ) && completes(wcs, sent[j].0)
            &&& forall|j: int, k: int|
                0 <= j < k < sent.len() ==> (#[trigger] sent[j]).0 != (#[trigger] sent[k]).0
            &&& forall|id: u64|
                waiting.contains(id) && #[trigger] completes(wcs, id) ==> exists|j: int|
                    0 <= j < sent.len() && (#[trigger] sent[j]) == (
                        id,
                        completion_result(first_completion(wcs, id)),
                    )
        }),
    decreases wcs.len(),
{
    if wcs.len() > 0 {
        let front = wcs.drop_last();
        law_dispatch(waiting, front);
        let (left0, sent0) = dispatch_of(waiting, front);
        let (left, sent) = dispatch_of(waiting, wcs);
        let wc = wcs.last();
        assert forall|id: u64| #[trigger] completes(wcs, id) <==> completes(front, id) || wc.wr_id
            == id by {
            lemma_completes(wcs, id);
        }
        assert forall|id: u64|
            waiting.contains(id) && #[trigger] completes(wcs, id) implies exists|j: int|
            0 <= j < sent.len() && (#[trigger] sent[j]) == (
                id,
                completion_result(first_completion(wcs, id)),
            ) by {
            lemma_completes(wcs, id);
            if completes(front, id) {
                let j = choose|j: int|
                    0 <= j < sent0.len() && (#[trigger] sent0[j]) == (
                        id,
                        completion_result(first_completion(front, id)),
                    );
                assert(sent[j] == sent0[j]);
            } else {
                assert(left0.contains(id));
                assert(sent[sent.len() - 1] == (id, completion_result(wc)));
            }
        }
    }
}

/// A completion of the operation is among those harvested.
pub open spec fn completes(wcs: Seq<WorkCompletion>, id: u64) -> bool
    decreases wcs.len(),
{
    wcs.len() > 0 && (completes(wcs.drop_last(), id) || wcs.last().wr_id == id)
}

/// The first completion of the operation among those harvested.
pub open spec fn first_completion(wcs: Seq<WorkCompletion>, id: u64) -> WorkCompletion
    decreases wcs.len(),
{
    if wcs.len() > 0 && completes(wcs.drop_last(), id) {
        first_completion(wcs.drop_last(), id)
    } else {
        wcs.last()
    }
}

proof fn lemma_completes(wcs: Seq<WorkCompletion>, id: u64)
    requires
        wcs.len() > 0,
    ensures
        completes(wcs, id) <==> completes(wcs.drop_last(), id) || wcs.last().wr_id == id,
        first_completion(wcs, id) == (if completes(wcs.drop_last(), id) {
            first_completion(wcs.drop_last(), id)
        } else {
            wcs.last()
        }),
{
}

/// Dispatches the completions of a poll. Returns what is delivered, and `true` if
/// any completions were harvested; a failed poll harvests none.
pub fn harvest_completions(
    pending: &mut PendingMap,
    polled: &Result<Vec<WorkCompletion>, RdmaError>,
) -> (r: (Vec<Delivery>, bool))
    ensures
        match *polled {
            Ok(wcs) => (final(pending)@, deliveries(r.0@)) == dispatch_of(old(pending)@, wcs@)
                && r.1 == (wcs@.len() > 0),
            Err(_) => final(pending)@ == old(pending)@ && r.0@.len() == 0 && !r.1,
        },
{
    match polled {
        Ok(wcs) => {
            let sent: Vec<Delivery> = pending.dispatch(wcs);
            (sent, wcs.len() > 0)
        },
        Err(_) => (Vec::new(), false),
    }
}

// ---------------------------------------------------------------------------
// Poller
// ---------------------------------------------------------------------------
/// Where a busy poller stands.
#[derive(Debug, Clone, Copy, PartialEq, Eq, Structural)]
pub enum BusyAction {
    /// Look at the shutdown flag.
    CheckShutdown,
    /// Poll the completion queue for so many completions.
    Poll { max: u32 },
    /// Yield briefly.
    Spin,
    /// Sleep for so many microseconds.
    Sleep { micros: u64 },
    /// Leave the loop.
    Exit,
}

/// What came of an action of a busy poller.
#[derive(Debug, Clone, Copy, PartialEq, Eq, Structural)]
pub enum BusyEvent {
    /// The shutdown flag.
    Shutdown(bool),
    /// Completions were harvested and dispatched.
    Harvested,
    /// There were no completions.
    Empty,
    /// The poll failed.
    PollFailed,
    /// A pause is over.
    Resumed,
}

/// The event is one that the action can end with.
pub open spec fn busy_fits(action: BusyAction, event: BusyEvent) -> bool {
    match action {
        BusyAction::CheckShutdown => event is Shutdown,
        BusyAction::Poll { .. } => event is Harvested || event is Empty || event is PollFailed,
        BusyAction::Spin => event is Resumed,
        BusyAction::Sleep { .. } => event is Resumed,
        BusyAction::Exit => false,
    }
}

/// What a busy poller does after an event.
pub open spec fn busy_next(event: BusyEvent) -> BusyAction {
    match event {
        BusyEvent::Shutdown(true) => BusyAction::Exit,
        BusyEvent::Shutdown(false) => BusyAction::Poll { max: HARVEST_MAX },
        BusyEvent::Harvested => BusyAction::CheckShutdown,
        BusyEvent::Empty => BusyAction::Spin,
        BusyEvent::PollFailed => BusyAction::Sleep { micros: 100 },
        BusyEvent::Resumed => BusyAction::CheckShutdown,
    }
}

/// Busy-polls a completion queue and dispatches completed work requests, until it
/// is told to shut down.
#[derive(Debug)]
pub struct Poller {
    action: BusyAction,
}

impl Poller {
    pub closed spec fn current(&self) -> BusyAction {
        self.action
    }

    /// Starts the loop: the first action is a look at the shutdown flag.
    pub fn spawn() -> (r: Self)
        ensures
            r.current() == BusyAction::CheckShutdown,
    {
        Poller { action: BusyAction::CheckShutdown }
    }

    /// The action under way.
    pub fn action(&self) -> (a: BusyAction)
        ensures
            a == self.current(),
    {
        self.action
    }

    /// Goes on after an event.
    pub fn step(&mut self, event: BusyEvent) -> (a: BusyAction)
        requires
            busy_fits(old(self).current(), event),
        ensures
            a == busy_next(event),
            final(self).current() == a,
    {
        self.action = match event {
            BusyEvent::Shutdown(true) => BusyAction::Exit,
            BusyEvent::Shutdown(false) => BusyAction::Poll { max: HARVEST_MAX },
            BusyEvent::Harvested => BusyAction::CheckShutdown,
            // Yield briefly to avoid burning CPU in a completely tight spin.
            BusyEvent::Empty => BusyAction::Spin,
            // Brief backoff on error.
            BusyEvent::PollFailed => BusyAction::Sleep { micros: 100 },
            BusyEvent::Resumed => BusyAction::CheckShutdown,
        };
        self.action
    }
}

/// A busy poller exits only when the shutdown flag is set.
pub proof fn law_busy_exit(action: BusyAction, event: BusyEvent)
    requires
        busy_fits(action, event),
    ensures
        busy_next(event) is Exit <==> action is CheckShutdown && event == BusyEvent::Shutdown(true),
{
}

// ---------------------------------------------------------------------------
// AsyncPoller
// ---------------------------------------------------------------------------
/// Configuration for [`AsyncPoller`] behaviour.
#[derive(Debug, Clone, Copy, PartialEq, Eq, Structural)]
pub struct AsyncPollerConfig {
    /// If `true` and no CQ event arrives within the epoll timeout,
    /// fall back to busy-polling the CQ directly for a short window.
    pub busy_poll_fallback: bool,
    /// Timeout (in milliseconds) for `epoll_wait` before the fallback
    /// busy-poll check kicks in.
    pub epoll_timeout_ms: i32,
    /// When in busy-poll fallback, how many iterations to spin before
    /// returning to epoll.
    pub busy_poll_iterations: u32,
}

impl Default for AsyncPollerConfig {
    fn default() -> (r: Self)
        ensures
            !r.busy_poll_fallback,
            r.epoll_timeout_ms == 1,
            r.busy_poll_iterations == 100,
    {
        AsyncPollerConfig {
            busy_poll_fallback: false,
            epoll_timeout_ms: 1,
            busy_poll_iterations: 100,
        }
    }
}

/// Where an event-driven poller stands, and what it does there.
#[derive(Debug, Clone, Copy, PartialEq, Eq, Structural)]
pub enum PollStage {
    /// Create the epoll instance.
    CreateEpoll,
    /// Register the event channel with it.
    AddChannel,
    /// Read the status flags of the event channel.
    ReadFlags,
    /// Set the event channel to non-blocking, on top of these flags.
    SetNonblocking { flags: i32 },
    /// Request the first notification.
    ArmFirst,
    /// Look at the shutdown flag.
    CheckShutdown,
    /// Wait for an event on the channel.
    Wait,
    /// Sleep for so many microseconds after an error.
    Sleep { micros: u64 },
    /// Retrieve the event.
    GetEvent,
    /// Acknowledge one event.
    AckEvent,
    /// Harvest completions after an event.
    Harvest,
    /// Request the next notification.
    Rearm,
    /// Begin the busy-poll window: its deadline is one timeout from now.
    OpenWindow,
    /// Whether the window is over, with so many iterations left.
    CheckDeadline { left: u32 },
    /// Harvest completions in the window.
    HarvestInWindow { left: u32 },
    /// Yield briefly in the window.
    SpinInWindow { left: u32 },
    /// Close the epoll instance.
    CloseEpoll,
    /// The poller is done.
    Done,
}

/// What came of a stage.
#[derive(Debug, Clone, Copy, PartialEq, Eq, Structural)]
pub enum PollEvent {
    /// A system call returned this code.
    Code(i32),
    /// A request succeeded, or failed.
    Outcome(bool),
    /// A flag or a condition.
    Flag(bool),
    /// The wait was interrupted by a signal.
    Interrupted,
    /// The wait failed.
    WaitFailed,
    /// The action is over.
    Finished,
}

/// The event is one that the stage can end with.
pub open spec fn poll_fits(stage: PollStage, event: PollEvent) -> bool {
    match stage {
        PollStage::CreateEpoll => event is Code,
        PollStage::AddChannel => event is Code,
        PollStage::ReadFlags => event is Code,
        PollStage::SetNonblocking { .. } => event is Finished,
        PollStage::ArmFirst => event is Outcome,
        PollStage::CheckShutdown => event is Flag,
        PollStage::Wait => event is Interrupted || event is WaitFailed || (
        event matches PollEvent::Code(n) && n >= 0),
        PollStage::Sleep { .. } => event is Finished,
        PollStage::GetEvent => event is Outcome,
        PollStage::AckEvent => event is Finished,
        PollStage::Harvest => event is Flag,
        PollStage::Rearm => event is Outcome,
        PollStage::OpenWindow => event is Finished,
        PollStage::CheckDeadline { .. } => event is Flag,
        PollStage::HarvestInWindow { .. } => event is Flag,
        PollStage::SpinInWindow { .. } => event is Finished,
        PollStage::CloseEpoll => event is Finished,
        PollStage::Done => false,
    }
}

/// The next iteration of the busy-poll window, or the end of the window.
pub open spec fn window(left: u32) -> PollStage {
    if left == 0 {
        PollStage::CheckShutdown
    } else {
        PollStage::CheckDeadline { left }
    }
}

/// The stage that follows an event.
pub open spec fn poll_next(config: AsyncPollerConfig, stage: PollStage, event: PollEvent) -> PollStage {
    match stage {
        PollStage::CreateEpoll => if event->Code_0 < 0 {
            PollStage::Done
        } else {
            PollStage::AddChannel
        },
        PollStage::AddChannel => if event->Code_0 != 0 {
            PollStage::CloseEpoll
        } else {
            PollStage::ReadFlags
        },
        PollStage::ReadFlags => if event->Code_0 >= 0 {
            PollStage::SetNonblocking { flags: event->Code_0 }
        } else {
            PollStage::ArmFirst
        },
        PollStage::SetNonblocking { .. } => PollStage::ArmFirst,
        PollStage::ArmFirst => if event->Outcome_0 {
            PollStage::CheckShutdown
        } else {
            PollStage::CloseEpoll
        },
        PollStage::CheckShutdown => if event->Flag_0 {
            PollStage::CloseEpoll
        } else {
            PollStage::Wait
        },
        PollStage::Wait => match event {
            PollEvent::Interrupted => PollStage::CheckShutdown,
            PollEvent::WaitFailed => PollStage::Sleep { micros: 10_000 },
            _ => if event->Code_0 > 0 {
                PollStage::GetEvent
            } else if config.busy_poll_fallback {
                PollStage::OpenWindow
            } else {
                PollStage::CheckShutdown
            },
        },
        PollStage::Sleep { .. } => PollStage::CheckShutdown,
        PollStage::GetEvent => if event->Outcome_0 {
            PollStage::AckEvent
        } else {
            PollStage::Sleep { micros: 100 }
        },
        PollStage::AckEvent => PollStage::Harvest,
        PollStage::Harvest => PollStage::Rearm,
        PollStage::Rearm => PollStage::CheckShutdown,
        PollStage::OpenWindow => window(config.busy_poll_iterations),
        PollStage::CheckDeadline { left } => if event->Flag_0 {
            PollStage::CheckShutdown
        } else {
            PollStage::HarvestInWindow { left }
        },
        PollStage::HarvestInWindow { left } => if event->Flag_0 {
            window((left - 1) as u32)
        } else {
            PollStage::SpinInWindow { left }
        },
        PollStage::SpinInWindow { left } => window((left - 1) as u32),
        PollStage::CloseEpoll => PollStage::Done,
        PollStage::Done => PollStage::Done,
    }
}

/// The iterations that are left in the busy-poll window.
pub open spec fn left_in(stage: PollStage) -> Option<u32> {
    match stage {
        PollStage::CheckDeadline { left } => Some(left),
        PollStage::HarvestInWindow { left } => Some(left),
        PollStage::SpinInWindow { left } => Some(left),
        _ => None,
    }
}

/// An event-driven completion poller.
///
/// Unlike [`Poller`] which busy-spins, `AsyncPoller` waits on the completion
/// channel's file descriptor. When the fd becomes readable, it retrieves the
/// event, acknowledges it, and then polls the CQ for actual completions.
///
/// An optional [`busy_poll_fallback`](AsyncPollerConfig::busy_poll_fallback)
/// mode can be enabled to fall back to busy-polling when no events arrive
/// within the timeout: useful during high-throughput bursts.
#[derive(Debug)]
pub struct AsyncPoller {
    config: AsyncPollerConfig,
    stage: PollStage,
}

impl AsyncPoller {
    pub closed spec fn current(&self) -> PollStage {
        self.stage
    }

    pub closed spec fn settings(&self) -> AsyncPollerConfig {
        self.config
    }

    /// In a busy-poll window there is at least one iteration left.
    pub open spec fn wf(&self) -> bool {
        left_in(self.current()) matches Some(n) ==> n > 0
    }

    /// Starts an event-driven poller with the default configuration.
    pub fn spawn() -> (r: Self)
        ensures
            r.wf(),
            r.current() == PollStage::CreateEpoll,
            !r.settings().busy_poll_fallback,
            r.settings().epoll_timeout_ms == 1,
            r.settings().busy_poll_iterations == 100,
    {
        Self::spawn_with_config(AsyncPollerConfig::default())
    }

    /// Starts an event-driven poller with custom configuration.
    pub fn spawn_with_config(config: AsyncPollerConfig) -> (r: Self)
        ensures
            r.wf(),
            r.current() == PollStage::CreateEpoll,
            r.settings() == config,
    {
        AsyncPoller { config, stage: PollStage::CreateEpoll }
    }

    /// The stage that the poller is in.
    pub fn stage(&self) -> (s: PollStage)
        ensures
            s == self.current(),
    {
        self.stage
    }

    /// The poller's configuration.
    pub fn config(&self) -> (c: AsyncPollerConfig)
        ensures
            c == self.settings(),
    {
        self.config
    }

    /// The next iteration of the busy-poll window, or the end of the window.
    fn window_stage(left: u32) -> (s: PollStage)
        ensures
            s == window(left),
    {
        if left == 0 {
            PollStage::CheckShutdown
        } else {
            PollStage::CheckDeadline { left }
        }
    }

    /// Goes on after an event.
    pub fn step(&mut self, event: PollEvent) -> (s: PollStage)
        requires
            old(self).wf(),
            poll_fits(old(self).current(), event),
        ensures
            s == poll_next(old(self).settings(), old(self).current(), event),
            final(self).current() == s,
            final(self).settings() == old(self).settings(),
            final(self).wf(),
    {
        let code: i32 = match event {
            PollEvent::Code(n) => n,
            _ => 0,
        };
        let yes: bool = match event {
            PollEvent::Outcome(b) => b,
            PollEvent::Flag(b) => b,
            _ => false,
        };
        self.stage = match self.stage {
            PollStage::CreateEpoll => if code < 0 {
                PollStage::Done
            } else {
                PollStage::AddChannel
            },
            PollStage::AddChannel => if code != 0 {
                PollStage::CloseEpoll
            } else {
                PollStage::ReadFlags
            },
            PollStage::ReadFlags => if code >= 0 {
                PollStage::SetNonblocking { flags: code }
            } else {
                PollStage::ArmFirst
            },
            PollStage::SetNonblocking { .. } => PollStage::ArmFirst,
            PollStage::ArmFirst => if yes {
                PollStage::CheckShutdown
            } else {
                PollStage::CloseEpoll
            },
            PollStage::CheckShutdown => if yes {
                PollStage::CloseEpoll
            } else {
                PollStage::Wait
            },
            PollStage::Wait => match event {
                PollEvent::Interrupted => PollStage::CheckShutdown,
                PollEvent::WaitFailed => PollStage::Sleep { micros: 10_000 },
                _ => if code > 0 {
                    PollStage::GetEvent
                } else if self.config.busy_poll_fallback {
                    PollStage::OpenWindow
                } else {
                    PollStage::CheckShutdown
                },
            },
            PollStage::Sleep { .. } => PollStage::CheckShutdown,
            PollStage::GetEvent => if yes {
                PollStage::AckEvent
            } else {
                PollStage::Sleep { micros: 100 }
            },
            PollStage::AckEvent => PollStage::Harvest,
            PollStage::Harvest => PollStage::Rearm,
            PollStage::Rearm => PollStage::CheckShutdown,
            PollStage::OpenWindow => Self::window_stage(self.config.busy_poll_iterations),
            PollStage::CheckDeadline { left } => if yes {
                PollStage::CheckShutdown
            } else {
                PollStage::HarvestInWindow { left }
            },
            PollStage::HarvestInWindow { left } => if yes {
                Self::window_stage(left - 1)
            } else {
                PollStage::SpinInWindow { left }
            },
            PollStage::SpinInWindow { left } => Self::window_stage(left - 1),
            PollStage::CloseEpoll => PollStage::Done,
            PollStage::Done => PollStage::Done,
        };
        self.stage
    }
}

/// A poller whose epoll instance is open closes it before it is done, and is done
/// without one only when it could not be created.
pub proof fn law_epoll_is_closed(config: AsyncPollerConfig, stage: PollStage, event: PollEvent)
    requires
        poll_fits(stage, event),
    ensures
        poll_next(config, stage, event) is Done ==> stage is CloseEpoll || stage is CreateEpoll,
        stage is CreateEpoll && poll_next(config, stage, event) is Done ==> event->Code_0 < 0,
{
}

/// Once the poller has waited for the first time, it stops only when the shutdown
/// flag is set.
pub proof fn law_async_exit(config: AsyncPollerConfig, stage: PollStage, event: PollEvent)
    requires
        poll_fits(stage, event),
        poll_next(config, stage, event) is CloseEpoll,
    ensures
        stage is AddChannel || stage is ArmFirst || (stage is CheckShutdown && event
            == PollEvent::Flag(true)),
{
}

/// Every event that is retrieved is acknowledged, its completions are harvested
/// and the next notification is requested before the poller waits again.
pub proof fn law_event_is_handled(
    config: AsyncPollerConfig,
    harvested: bool,
    rearmed: bool,
)
    ensures
        ({
            let s1 = poll_next(config, PollStage::GetEvent, PollEvent::Outcome(true));
            let s2 = poll_next(config, s1, PollEvent::Finished);
            let s3 = poll_next(config, s2, PollEvent::Flag(harvested));
            let s4 = poll_next(config, s3, PollEvent::Outcome(rearmed));
            s1 is AckEvent && s2 is Harvest && s3 is Rearm && s4 is CheckShutdown
        }),
{
}

/// The busy-poll window ends: from one look at the deadline to the next, an
/// iteration is used up.
pub proof fn law_window_shrinks(config: AsyncPollerConfig, left: u32, harvested: bool)
    requires
        left > 0,
    ensures
        ({
            let s1 = poll_next(config, PollStage::CheckDeadline { left }, PollEvent::Flag(false));
            let s2 = poll_next(config, s1, PollEvent::Flag(harvested));
            let s3 = if harvested {
                s2
            } else {
                poll_next(config, s2, PollEvent::Finished)
            };
            s3 == window((left - 1) as u32)
        }),
{
}

/// Completions that are dispatched in two parts are delivered as when they are
/// dispatched at once, in the order in which they were harvested.
pub proof fn law_dispatch_in_parts(
    waiting: Set<u64>,
    first: Seq<WorkCompletion>,
    second: Seq<WorkCompletion>,
)
    ensures
        dispatch_of(waiting, first + second) == (
            dispatch_of(dispatch_of(waiting, first).0, second).0,
            dispatch_of(waiting, first).1 + dispatch_of(
                dispatch_of(waiting, first).0,
                second,
            ).1,
        ),
    decreases second.len(),
{
    let (left, sent) = dispatch_of(waiting, first);
    if second.len() == 0 {
        assert(first + second =~= first);
        assert(sent + Seq::<DeliveryView>::empty() =~= sent);
    } else {
        law_dispatch_in_parts(waiting, first, second.drop_last());
        assert((first + second).drop_last() =~= first + second.drop_last());
        assert((first + second).last() == second.last());
        let more = dispatch_of(left, second.drop_last()).1;
        let wc = second.last();
        assert((sent + more).push((wc.wr_id, completion_result(wc))) =~= sent + more.push(
            (wc.wr_id, completion_result(wc)),
        ));
    }
}

/// A single completion is delivered to the operation that waits for it, which then
/// waits no more; without one it changes nothing.
pub proof fn law_dispatch_of_one(waiting: Set<u64>, wc: WorkCompletion)
    ensures
        waiting.contains(wc.wr_id) ==> dispatch_of(waiting, seq![wc]) == (
            waiting.remove(wc.wr_id),
            seq![(wc.wr_id, completion_result(wc))],
        ),
        !waiting.contains(wc.wr_id) ==> dispatch_of(waiting, seq![wc]) == (
            waiting,
            Seq::<DeliveryView>::empty(),
        ),
{
    reveal_with_fuel(dispatch_of, 2);
    assert(seq![wc].drop_last() =~= Seq::<WorkCompletion>::empty());
    assert(Seq::<DeliveryView>::empty().push((wc.wr_id, completion_result(wc))) =~= seq![
        (wc.wr_id, completion_result(wc)),
    ]);
}

/// An operation gets its completion when that is a success, and otherwise an error
/// that names the status and the vendor's code.
pub proof fn law_completion_result(wc: WorkCompletion)
    ensures
        wc.status == WcStatus::Success ==> completion_result(wc) == Ok::<
            WorkCompletion,
            ErrorView,
        >(wc),
        wc.status != WcStatus::Success ==> completion_result(wc) == Err::<
            WorkCompletion,
            ErrorView,
        >(
            ErrorView::HardwareError(
                "WC error: status="@ + cq::status_name(wc.status) + ", vendor_err="@
                    + text::decimal(wc.vendor_err as nat),
            ),
        ),
{
}

/// A busy poller polls for sixteen completions as long as it is not told to shut
/// down. After a poll it looks at the shutdown flag again: at once when completions
/// came, after a spin when none did, and after a hundred microseconds when the poll
/// failed.
pub proof fn law_busy_round(outcome: BusyEvent)
    requires
        busy_fits(BusyAction::Poll { max: 16 }, outcome),
    ensures
        busy_next(BusyEvent::Shutdown(false)) == (BusyAction::Poll { max: 16 }),
        ({
            let pause = busy_next(outcome);
            &&& outcome is Harvested ==> pause is CheckShutdown
            &&& outcome is Empty ==> pause is Spin && busy_fits(pause, BusyEvent::Resumed)
            &&& outcome is PollFailed ==> pause == (BusyAction::Sleep { micros: 100 }) && busy_fits(
                pause,
                BusyEvent::Resumed,
            )
            &&& busy_next(BusyEvent::Resumed) is CheckShutdown
        }),
{
}

/// The poller starts when each of its system calls succeeds, whether or not the flags
/// of the channel can be read, and then waits for as long as it is not told to shut
/// down. What fails after the epoll instance was created closes it.
pub proof fn law_poller_starts(config: AsyncPollerConfig, epoll: i32, added: i32, flags: i32)
    ensures
        epoll >= 0 ==> poll_next(config, PollStage::CreateEpoll, PollEvent::Code(epoll))
            is AddChannel,
        epoll < 0 ==> poll_next(config, PollStage::CreateEpoll, PollEvent::Code(epoll)) is Done,
        added == 0 ==> poll_next(config, PollStage::AddChannel, PollEvent::Code(added))
            is ReadFlags,
        added != 0 ==> poll_next(config, PollStage::AddChannel, PollEvent::Code(added))
            is CloseEpoll,
        ({
            let read = poll_next(config, PollStage::ReadFlags, PollEvent::Code(flags));
            if flags >= 0 {
                read == (PollStage::SetNonblocking { flags }) && poll_next(
                    config,
                    read,
                    PollEvent::Finished,
                ) is ArmFirst
            } else {
                read is ArmFirst
            }
        }),
        poll_next(config, PollStage::ArmFirst, PollEvent::Outcome(true)) is CheckShutdown,
        poll_next(config, PollStage::ArmFirst, PollEvent::Outcome(false)) is CloseEpoll,
        poll_next(config, PollStage::CheckShutdown, PollEvent::Flag(false)) is Wait,
        poll_next(config, PollStage::CheckShutdown, PollEvent::Flag(true)) is CloseEpoll,
        poll_next(config, PollStage::CloseEpoll, PollEvent::Finished) is Done,
{
}

/// After a wait the poller retrieves the event that came. When none came it opens a
/// busy-poll window, if it is configured to, or looks at the shutdown flag; it does
/// the latter after a signal too, and ten milliseconds after a failure.
pub proof fn law_wait_is_followed_up(config: AsyncPollerConfig, ready: i32)
    requires
        ready >= 0,
    ensures
        ({
            let next = poll_next(config, PollStage::Wait, PollEvent::Code(ready));
            &&& ready > 0 ==> next is GetEvent
            &&& ready == 0 && config.busy_poll_fallback ==> next is OpenWindow
            &&& ready == 0 && !config.busy_poll_fallback ==> next is CheckShutdown
        }),
        poll_next(config, PollStage::Wait, PollEvent::Interrupted) is CheckShutdown,
        ({
            let pause = poll_next(config, PollStage::Wait, PollEvent::WaitFailed);
            &&& pause == (PollStage::Sleep { micros: 10_000 })
            &&& poll_next(config, pause, PollEvent::Finished) is CheckShutdown
        }),
        ({
            let pause = poll_next(config, PollStage::GetEvent, PollEvent::Outcome(false));
            &&& pause == (PollStage::Sleep { micros: 100 })
            &&& poll_next(config, pause, PollEvent::Finished) is CheckShutdown
        }),
{
}

/// A busy-poll window has as many iterations as the poller is configured to have. It
/// ends with a look at the shutdown flag, when they are used up or the deadline has
/// passed; an iteration that harvests nothing spins.
pub proof fn law_busy_poll_window(config: AsyncPollerConfig, left: u32)
    ensures
        ({
            let open = poll_next(config, PollStage::OpenWindow, PollEvent::Finished);
            if config.busy_poll_iterations == 0 {
                open is CheckShutdown
            } else {
                open == (PollStage::CheckDeadline { left: config.busy_poll_iterations })
            }
        }),
        poll_next(config, PollStage::CheckDeadline { left }, PollEvent::Flag(true))
            is CheckShutdown,
        poll_next(config, PollStage::CheckDeadline { left }, PollEvent::Flag(false)) == (
        PollStage::HarvestInWindow { left }),
        poll_next(config, PollStage::HarvestInWindow { left }, PollEvent::Flag(false)) == (
        PollStage::SpinInWindow { left }),
        left == 1 ==> poll_next(config, PollStage::SpinInWindow { left }, PollEvent::Finished)
            is CheckShutdown,
        left > 1 ==> poll_next(config, PollStage::SpinInWindow { left }, PollEvent::Finished) == (
        PollStage::CheckDeadline { left: (left - 1) as u32 }),
        left == 1 ==> poll_next(config, PollStage::HarvestInWindow { left }, PollEvent::Flag(true))
            is CheckShutdown,
        left > 1 ==> poll_next(config, PollStage::HarvestInWindow { left }, PollEvent::Flag(true))
            == (PollStage::CheckDeadline { left: (left - 1) as u32 }),
{
}

} // verus!
