//! The per-item fetch-and-write state machine.
//!
//! One item is driven from connection establishment through status
//! dispatch, chunked streaming with stall detection, and atomic
//! materialization.  The machine here is the decision core: every
//! suspension point of the real task (a connect attempt, a chunk read)
//! surfaces as a [`TransportEvent`], and [`step`] answers with the next
//! state, at most one lifecycle [`Event`] to emit, and the file operation
//! to perform.  The surrounding program performs the waiting; the
//! decisions are all proved against [`spec_step`].
//!
//! Transitions, in outline: a connect timeout schedules a retry with the
//! current backoff delay and doubles it (saturating), up to a configured
//! attempt cap; `200` opens the partial file and starts streaming; `302`
//! re-enters the connect phase on the location header, carrying the
//! current delay forward, up to a configured hop cap; any other status is
//! an immediate failure.  While streaming, each chunk is appended to the
//! partial file; each chunk timeout ticks a wrap-safe stall counter that
//! warns every `stall_warn_every`-th tick and abandons the item at every
//! `stall_abandon_every`-th; end of body promotes the partial file to the
//! destination path and completes the item.

use crate::config::Config;
use crate::events::Event;
use crate::events::EventModel;
use crate::request::spec_partial_path;
use crate::request::copy_bytes;
use crate::request::partial_path;
use vstd::prelude::*;

verus! {

/// What the transport reported at one suspension point.
pub enum TransportEvent {
    /// A response arrived: its status code, and the value of the
    /// `Location` header if the response carried one.
    Connected { status: u16, location: Option<Vec<u8>> },
    /// The connect attempt exceeded the per-attempt timeout.
    ConnectTimedOut,
    /// One chunk of the body arrived.
    Chunk { data: Vec<u8> },
    /// No chunk arrived within the per-chunk timeout.
    ChunkTimedOut,
    /// The body ended cleanly.
    BodyEnd,
}

/// The mathematical shape of a [`TransportEvent`].
pub enum TransportEventModel {
    Connected { status: u16, location: Option<Seq<u8>> },
    ConnectTimedOut,
    Chunk { data: Seq<u8> },
    ChunkTimedOut,
    BodyEnd,
}

impl View for TransportEvent {
    type V = TransportEventModel;

    open spec fn view(&self) -> TransportEventModel {
        match self {
            TransportEvent::Connected { status, location } => (TransportEventModel::Connected {
                status: *status,
                location: match location {
                    Option::Some(l) => Option::Some(l@),
                    Option::None => Option::None,
                },
            }),
            TransportEvent::ConnectTimedOut => TransportEventModel::ConnectTimedOut,
            TransportEvent::Chunk { data } => (TransportEventModel::Chunk { data: data@ }),
            TransportEvent::ChunkTimedOut => TransportEventModel::ChunkTimedOut,
            TransportEvent::BodyEnd => TransportEventModel::BodyEnd,
        }
    }
}

impl DeepView for TransportEvent {
    type V = TransportEventModel;

    open spec fn deep_view(&self) -> TransportEventModel {
        self.view()
    }
}

/// How an item's processing ended.
#[derive(Clone, Copy, PartialEq, Eq, Structural, Debug)]
pub enum Outcome {
    /// Clean end of body; the file was materialized.
    Delivered,
    /// Abandoned after the stall counter hit the abandon threshold.
    StalledOut,
    /// A redirect arrived without a `Location` header.
    NoLocation,
    /// A status other than success or redirect.
    HttpRejected { status: u16 },
    /// The redirect hop cap was exceeded.
    RedirectLimit,
    /// The connect attempt cap was exceeded.
    ConnectGivenUp,
}

/// The state of one item between suspension points.
pub enum FetchState {
    /// Waiting for the outcome of a connect attempt on `locator`.
    Connecting {
        locator: Vec<u8>,
        dest: Vec<u8>,
        delay_ms: u64,
        attempts: u64,
        hops: u64,
    },
    /// A `200` arrived; waiting for the next chunk of the body.
    Streaming { dest: Vec<u8>, stalls: u8 },
    /// A terminal outcome was reached; no further processing occurs.
    Finished { outcome: Outcome },
}

/// The mathematical shape of a [`FetchState`].
#[verifier::ext_equal]
pub enum StateModel {
    Connecting { locator: Seq<u8>, dest: Seq<u8>, delay_ms: u64, attempts: u64, hops: u64 },
    Streaming { dest: Seq<u8>, stalls: u8 },
    Finished { outcome: Outcome },
}

impl View for FetchState {
    type V = StateModel;

    open spec fn view(&self) -> StateModel {
        match self {
            FetchState::Connecting { locator, dest, delay_ms, attempts, hops } => {
                StateModel::Connecting {
                    locator: locator@,
                    dest: dest@,
                    delay_ms: *delay_ms,
                    attempts: *attempts,
                    hops: *hops,
                }
            },
            FetchState::Streaming { dest, stalls } => (StateModel::Streaming {
                dest: dest@,
                stalls: *stalls,
            }),
            FetchState::Finished { outcome } => (StateModel::Finished { outcome: *outcome }),
        }
    }
}

impl FetchState {
    /// Whether a terminal outcome was reached.
    pub fn is_finished(&self) -> (r: bool)
        ensures
            r == (self@ is Finished),
    {
        match self {
            FetchState::Finished { .. } => true,
            _ => false,
        }
    }
}

/// The file operation one step asks for.
pub enum FsOp {
    /// Nothing touches the filesystem.
    Untouched,
    /// Create the empty partial file beside the destination path.
    CreatePartial,
    /// Append one chunk to the partial file.
    AppendPartial { data: Vec<u8> },
    /// Flush and atomically rename the partial file onto the destination.
    Promote,
}

/// The mathematical shape of an [`FsOp`].
pub enum FsOpModel {
    Untouched,
    CreatePartial,
    AppendPartial { data: Seq<u8> },
    Promote,
}

impl View for FsOp {
    type V = FsOpModel;

    open spec fn view(&self) -> FsOpModel {
        match self {
            FsOp::Untouched => FsOpModel::Untouched,
            FsOp::CreatePartial => FsOpModel::CreatePartial,
            FsOp::AppendPartial { data } => (FsOpModel::AppendPartial { data: data@ }),
            FsOp::Promote => FsOpModel::Promote,
        }
    }
}

/// What one item has on disk: the partial artifact and the delivered file.
///
/// Every operation of the machine targets the item's own destination path
/// (or its partial sibling) and no other — an item, redirected or not,
/// can only ever leave bytes at these two places.
pub struct FsModel {
    /// Contents of `<dest>.partial`, if that file exists.
    pub partial: Option<Vec<u8>>,
    /// Contents of the file at the destination path, if it exists.
    pub delivered: Option<Vec<u8>>,
}

/// The mathematical shape of an [`FsModel`].
#[verifier::ext_equal]
pub struct FsView {
    pub partial: Option<Seq<u8>>,
    pub delivered: Option<Seq<u8>>,
}

impl View for FsModel {
    type V = FsView;

    open spec fn view(&self) -> FsView {
        FsView {
            partial: match &self.partial {
                Option::Some(b) => Option::Some(b@),
                Option::None => Option::None,
            },
            delivered: match &self.delivered {
                Option::Some(b) => Option::Some(b@),
                Option::None => Option::None,
            },
        }
    }
}

impl DeepView for FsModel {
    type V = FsView;

    open spec fn deep_view(&self) -> FsView {
        self.view()
    }
}

impl FsModel {
    /// An untouched filesystem: neither artifact exists.
    pub fn untouched() -> (r: FsModel)
        ensures
            r@ == fs_untouched(),
    {
        FsModel { partial: Option::None, delivered: Option::None }
    }
}

/// Neither the partial nor the delivered file exists.
pub open spec fn fs_untouched() -> FsView {
    FsView { partial: Option::None, delivered: Option::None }
}

/// The bytes of the partial file, or empty if it does not exist.
pub open spec fn partial_bytes(fs: FsView) -> Seq<u8> {
    match fs.partial {
        Option::Some(b) => b,
        Option::None => Seq::empty(),
    }
}

/// The filesystem after one operation.
pub open spec fn spec_apply_fs(fs: FsView, op: FsOpModel) -> FsView {
    match op {
        FsOpModel::Untouched => fs,
        FsOpModel::CreatePartial => (FsView {
            partial: Option::Some(Seq::empty()),
            delivered: fs.delivered,
        }),
        FsOpModel::AppendPartial { data } => (FsView {
            partial: Option::Some(partial_bytes(fs) + data),
            delivered: fs.delivered,
        }),
        FsOpModel::Promote => (FsView {
            partial: Option::None,
            delivered: Option::Some(partial_bytes(fs)),
        }),
    }
}

/// Applies one file operation to the filesystem model.
pub fn apply_fs(fs: FsModel, op: FsOp) -> (r: FsModel)
    ensures
        r@ == spec_apply_fs(fs@, op@),
{
    match op {
        FsOp::Untouched => fs,
        FsOp::CreatePartial => FsModel { partial: Option::Some(Vec::new()), delivered: fs.delivered },
        FsOp::AppendPartial { data } => {
            let mut b = match fs.partial {
                Option::Some(b) => b,
                Option::None => Vec::new(),
            };
            crate::request::extend_bytes(&mut b, &data);
            FsModel { partial: Option::Some(b), delivered: fs.delivered }
        },
        FsOp::Promote => {
            let b = match fs.partial {
                Option::Some(b) => b,
                Option::None => Vec::new(),
            };
            FsModel { partial: Option::None, delivered: Option::Some(b) }
        },
    }
}

/// The stall counter, advanced wrap-safely.
pub open spec fn wrap_tick(stalls: u8) -> u8 {
    if stalls == 255 {
        0
    } else {
        (stalls + 1) as u8
    }
}

/// The backoff delay doubled, saturating at the largest representable
/// delay.
pub open spec fn sat_double(delay_ms: u64) -> u64 {
    if delay_ms <= u64::MAX / 2 {
        (delay_ms * 2) as u64
    } else {
        u64::MAX
    }
}

/// What one step produces: the next state, at most one event to emit, and
/// one file operation.
#[verifier::ext_equal]
pub struct StepModel {
    pub state: StateModel,
    pub emit: Option<EventModel>,
    pub fs: FsOpModel,
}

/// The transition relation of the state machine, as a function.
///
/// A transport event that the current state is not awaiting (a chunk while
/// connecting, a response while streaming, anything after a terminal
/// outcome) changes nothing.
pub open spec fn spec_step(cfg: Config, st: StateModel, ev: TransportEventModel) -> StepModel {
    match st {
        StateModel::Finished { .. } => (StepModel {
            state: st,
            emit: Option::None,
            fs: FsOpModel::Untouched,
        }),
        StateModel::Connecting { locator, dest, delay_ms, attempts, hops } => match ev {
            TransportEventModel::ConnectTimedOut => {
                if attempts + 1 >= cfg.max_connect_attempts {
                    StepModel {
                        state: StateModel::Finished { outcome: Outcome::ConnectGivenUp },
                        emit: Option::Some(EventModel::Failed { subject: dest }),
                        fs: FsOpModel::Untouched,
                    }
                } else {
                    StepModel {
                        state: StateModel::Connecting {
                            locator: locator,
                            dest: dest,
                            delay_ms: sat_double(delay_ms),
                            attempts: (attempts + 1) as u64,
                            hops: hops,
                        },
                        emit: Option::Some(EventModel::RetryScheduled {
                            subject: locator,
                            delay_ms: delay_ms,
                        }),
                        fs: FsOpModel::Untouched,
                    }
                }
            },
            TransportEventModel::Connected { status, location } => {
                if status == 200 {
                    StepModel {
                        state: StateModel::Streaming { dest: dest, stalls: 0 },
                        emit: Option::None,
                        fs: FsOpModel::CreatePartial,
                    }
                } else if status == 302 {
                    match location {
                        Option::Some(loc) => {
                            if hops >= cfg.max_redirect_hops {
                                StepModel {
                                    state: StateModel::Finished { outcome: Outcome::RedirectLimit },
                                    emit: Option::Some(EventModel::Failed { subject: dest }),
                                    fs: FsOpModel::Untouched,
                                }
                            } else {
                                StepModel {
                                    state: StateModel::Connecting {
                                        locator: loc,
                                        dest: dest,
                                        delay_ms: delay_ms,
                                        attempts: 0,
                                        hops: (hops + 1) as u64,
                                    },
                                    emit: Option::None,
                                    fs: FsOpModel::Untouched,
                                }
                            }
                        },
                        Option::None => (StepModel {
                            state: StateModel::Finished { outcome: Outcome::NoLocation },
                            emit: Option::Some(EventModel::Failed { subject: dest }),
                            fs: FsOpModel::Untouched,
                        }),
                    }
                } else {
                    StepModel {
                        state: StateModel::Finished { outcome: Outcome::HttpRejected { status } },
                        emit: Option::Some(EventModel::FailedHttp { subject: dest, status }),
                        fs: FsOpModel::Untouched,
                    }
                }
            },
            _ => (StepModel { state: st, emit: Option::None, fs: FsOpModel::Untouched }),
        },
        StateModel::Streaming { dest, stalls } => match ev {
            TransportEventModel::Chunk { data } => (StepModel {
                state: StateModel::Streaming { dest: dest, stalls: stalls },
                emit: Option::None,
                fs: FsOpModel::AppendPartial { data },
            }),
            TransportEventModel::ChunkTimedOut => {
                let ticked = wrap_tick(stalls);
                if ticked % cfg.stall_abandon_every == 0 {
                    StepModel {
                        state: StateModel::Finished { outcome: Outcome::StalledOut },
                        emit: Option::Some(EventModel::Failed {
                            subject: spec_partial_path(dest),
                        }),
                        fs: FsOpModel::Untouched,
                    }
                } else if ticked % cfg.stall_warn_every == 0 {
                    StepModel {
                        state: StateModel::Streaming { dest: dest, stalls: ticked },
                        emit: Option::Some(EventModel::Retrying {
                            subject: spec_partial_path(dest),
                            attempt: ticked,
                        }),
                        fs: FsOpModel::Untouched,
                    }
                } else {
                    StepModel {
                        state: StateModel::Streaming { dest: dest, stalls: ticked },
                        emit: Option::None,
                        fs: FsOpModel::Untouched,
                    }
                }
            },
            TransportEventModel::BodyEnd => (StepModel {
                state: StateModel::Finished { outcome: Outcome::Delivered },
                emit: Option::Some(EventModel::Completed),
                fs: FsOpModel::Promote,
            }),
            _ => (StepModel {
                state: StateModel::Streaming { dest: dest, stalls: stalls },
                emit: Option::None,
                fs: FsOpModel::Untouched,
            }),
        },
    }
}

/// Advances one item by one transport event.
pub fn step(cfg: &Config, st: FetchState, ev: TransportEvent) -> (r: (
    FetchState,
    Option<Event>,
    FsOp,
))
    requires
        cfg.wf(),
    ensures
        r.0@ == spec_step(*cfg, st@, ev@).state,
        r.1.deep_view() == spec_step(*cfg, st@, ev@).emit,
        r.2@ == spec_step(*cfg, st@, ev@).fs,
{
    match st {
        FetchState::Finished { outcome } => (
            FetchState::Finished { outcome },
            Option::None,
            FsOp::Untouched,
        ),
        FetchState::Connecting { locator, dest, delay_ms, attempts, hops } => match ev {
            TransportEvent::ConnectTimedOut => {
                if attempts >= cfg.max_connect_attempts - 1 {
                    (
                        FetchState::Finished { outcome: Outcome::ConnectGivenUp },
                        Option::Some(Event::Failed { subject: dest }),
                        FsOp::Untouched,
                    )
                } else {
                    let doubled = if delay_ms <= u64::MAX / 2 {
                        delay_ms * 2
                    } else {
                        u64::MAX
                    };
                    let subject = copy_bytes(&locator);
                    (
                        FetchState::Connecting {
                            locator,
                            dest,
                            delay_ms: doubled,
                            attempts: attempts + 1,
                            hops,
                        },
                        Option::Some(Event::RetryScheduled { subject, delay_ms }),
                        FsOp::Untouched,
                    )
                }
            },
            TransportEvent::Connected { status, location } => {
                if status == 200 {
                    (FetchState::Streaming { dest, stalls: 0 }, Option::None, FsOp::CreatePartial)
                } else if status == 302 {
                    match location {
                        Option::Some(loc) => {
                            if hops >= cfg.max_redirect_hops {
                                (
                                    FetchState::Finished { outcome: Outcome::RedirectLimit },
                                    Option::Some(Event::Failed { subject: dest }),
                                    FsOp::Untouched,
                                )
                            } else {
                                (
                                    FetchState::Connecting {
                                        locator: loc,
                                        dest,
                                        delay_ms,
                                        attempts: 0,
                                        hops: hops + 1,
                                    },
                                    Option::None,
                                    FsOp::Untouched,
                                )
                            }
                        },
                        Option::None => (
                            FetchState::Finished { outcome: Outcome::NoLocation },
                            Option::Some(Event::Failed { subject: dest }),
                            FsOp::Untouched,
                        ),
                    }
                } else {
                    (
                        FetchState::Finished { outcome: Outcome::HttpRejected { status } },
                        Option::Some(Event::FailedHttp { subject: dest, status }),
                        FsOp::Untouched,
                    )
                }
            },
            TransportEvent::Chunk { .. } => (
                FetchState::Connecting { locator, dest, delay_ms, attempts, hops },
                Option::None,
                FsOp::Untouched,
            ),
            TransportEvent::ChunkTimedOut => (
                FetchState::Connecting { locator, dest, delay_ms, attempts, hops },
                Option::None,
                FsOp::Untouched,
            ),
            TransportEvent::BodyEnd => (
                FetchState::Connecting { locator, dest, delay_ms, attempts, hops },
                Option::None,
                FsOp::Untouched,
            ),
        },
        FetchState::Streaming { dest, stalls } => match ev {
            TransportEvent::Chunk { data } => (
                FetchState::Streaming { dest, stalls },
                Option::None,
                FsOp::AppendPartial { data },
            ),
            TransportEvent::ChunkTimedOut => {
                let ticked: u8 = if stalls == 255 {
                    0
                } else {
                    stalls + 1
                };
                if ticked % cfg.stall_abandon_every == 0 {
                    let subject = partial_path(&dest);
                    (
                        FetchState::Finished { outcome: Outcome::StalledOut },
                        Option::Some(Event::Failed { subject }),
                        FsOp::Untouched,
                    )
                } else if ticked % cfg.stall_warn_every == 0 {
                    let subject = partial_path(&dest);
                    (
                        FetchState::Streaming { dest, stalls: ticked },
                        Option::Some(Event::Retrying { subject, attempt: ticked }),
                        FsOp::Untouched,
                    )
                } else {
                    (FetchState::Streaming { dest, stalls: ticked }, Option::None, FsOp::Untouched)
                }
            },
            TransportEvent::BodyEnd => (
                FetchState::Finished { outcome: Outcome::Delivered },
                Option::Some(Event::Completed),
                FsOp::Promote,
            ),
            TransportEvent::Connected { .. } => (
                FetchState::Streaming { dest, stalls },
                Option::None,
                FsOp::Untouched,
            ),
            TransportEvent::ConnectTimedOut => (
                FetchState::Streaming { dest, stalls },
                Option::None,
                FsOp::Untouched,
            ),
        },
    }
}

/// The emitted-event sequence of one step: empty or a singleton.
pub open spec fn emit_seq(e: Option<EventModel>) -> Seq<EventModel> {
    match e {
        Option::Some(x) => seq![x],
        Option::None => Seq::empty(),
    }
}

/// What a whole scripted run produces: the final state, the filesystem,
/// the emitted events in order, and how many transport events were
/// consumed.
#[verifier::ext_equal]
pub struct RunModel {
    pub state: StateModel,
    pub fs: FsView,
    pub events: Seq<EventModel>,
    pub consumed: int,
}

/// Runs the machine over a script of transport events, stopping at a
/// terminal state or at the script's end.
pub open spec fn spec_run(
    cfg: Config,
    st: StateModel,
    fs: FsView,
    script: Seq<TransportEventModel>,
) -> RunModel
    decreases script.len(),
{
    if script.len() == 0 || st is Finished {
        RunModel { state: st, fs, events: Seq::empty(), consumed: 0 }
    } else {
        let stp = spec_step(cfg, st, script[0]);
        let rest = spec_run(cfg, stp.state, spec_apply_fs(fs, stp.fs), script.drop_first());
        RunModel {
            state: rest.state,
            fs: rest.fs,
            events: emit_seq(stp.emit) + rest.events,
            consumed: 1 + rest.consumed,
        }
    }
}

/// A run over a concatenated script is the run over the first part
/// followed by the run over the second from where the first left off.
pub proof fn lemma_run_append(
    cfg: Config,
    st: StateModel,
    fs: FsView,
    s1: Seq<TransportEventModel>,
    s2: Seq<TransportEventModel>,
)
    ensures
        ({
            let r1 = spec_run(cfg, st, fs, s1);
            let r2 = spec_run(cfg, r1.state, r1.fs, s2);
            spec_run(cfg, st, fs, s1 + s2) =~= (RunModel {
                state: r2.state,
                fs: r2.fs,
                events: r1.events + r2.events,
                consumed: r1.consumed + r2.consumed,
            })
        }),
    decreases s1.len(),
{
    let r1 = spec_run(cfg, st, fs, s1);
    let r2 = spec_run(cfg, r1.state, r1.fs, s2);
    if s1.len() == 0 {
        assert(s1 + s2 =~= s2);
        assert(Seq::<EventModel>::empty() + r2.events =~= r2.events);
    } else if st is Finished {
        assert(r1.events + r2.events =~= Seq::<EventModel>::empty());
    } else {
        let stp = spec_step(cfg, st, s1[0]);
        let fs1 = spec_apply_fs(fs, stp.fs);
        assert((s1 + s2)[0] == s1[0]);
        assert((s1 + s2).drop_first() =~= s1.drop_first() + s2);
        lemma_run_append(cfg, stp.state, fs1, s1.drop_first(), s2);
        let q1 = spec_run(cfg, stp.state, fs1, s1.drop_first());
        let q2 = spec_run(cfg, q1.state, q1.fs, s2);
        assert(emit_seq(stp.emit) + (q1.events + q2.events) =~= (emit_seq(stp.emit) + q1.events)
            + q2.events);
    }
}

/// Consuming one more transport event extends a run by exactly one step.
pub proof fn lemma_run_extend(
    cfg: Config,
    st: StateModel,
    fs: FsView,
    s: Seq<TransportEventModel>,
    ev: TransportEventModel,
)
    requires
        !(spec_run(cfg, st, fs, s).state is Finished),
    ensures
        ({
            let r = spec_run(cfg, st, fs, s);
            let stp = spec_step(cfg, r.state, ev);
            spec_run(cfg, st, fs, s.push(ev)) =~= (RunModel {
                state: stp.state,
                fs: spec_apply_fs(r.fs, stp.fs),
                events: r.events + emit_seq(stp.emit),
                consumed: r.consumed + 1,
            })
        }),
{
    reveal_with_fuel(spec_run, 3);
    let r = spec_run(cfg, st, fs, s);
    let stp = spec_step(cfg, r.state, ev);
    assert(s + seq![ev] =~= s.push(ev));
    lemma_run_append(cfg, st, fs, s, seq![ev]);
    assert(seq![ev].drop_first() =~= Seq::<TransportEventModel>::empty());
    let one = spec_run(cfg, r.state, r.fs, seq![ev]);
    assert(one.events =~= emit_seq(stp.emit));
    assert(r.events + one.events =~= r.events + emit_seq(stp.emit));
}

/// Once a run has reached a terminal state, further script makes no
/// difference.
pub proof fn lemma_run_finished_absorbs(
    cfg: Config,
    st: StateModel,
    fs: FsView,
    s1: Seq<TransportEventModel>,
    s2: Seq<TransportEventModel>,
)
    requires
        spec_run(cfg, st, fs, s1).state is Finished,
    ensures
        spec_run(cfg, st, fs, s1 + s2) =~= spec_run(cfg, st, fs, s1),
{
    reveal_with_fuel(spec_run, 2);
    let r1 = spec_run(cfg, st, fs, s1);
    lemma_run_append(cfg, st, fs, s1, s2);
    let r2 = spec_run(cfg, r1.state, r1.fs, s2);
    assert(r2.events =~= Seq::<EventModel>::empty());
    assert(r1.events + r2.events =~= r1.events);
}

/// The result of driving one item against a script.
pub struct ItemRun {
    /// The state in which the run stopped.
    pub state: FetchState,
    /// What the item left on disk.
    pub fs: FsModel,
    /// The events emitted, in order.
    pub events: Vec<Event>,
    /// How many transport events were consumed.
    pub consumed: usize,
}

/// Drives one item from `st0` through the scripted transport events until
/// a terminal outcome or the end of the script, collecting emitted events
/// and the filesystem effects.
///
/// The run is exactly [`spec_run`] of the script; tests feed concrete
/// fault scripts through this function.
#[verifier::rlimit(80)]
pub fn run_item(cfg: &Config, st0: FetchState, script: Vec<TransportEvent>) -> (r: ItemRun)
    requires
        cfg.wf(),
    ensures
        ({
            let m = spec_run(*cfg, st0@, fs_untouched(), script.deep_view());
            &&& r.state@ == m.state
            &&& r.fs@ == m.fs
            &&& r.events.deep_view() == m.events
            &&& r.consumed == m.consumed
        }),
{
    let ghost script0 = script.deep_view();
    let ghost st_init = st0@;
    let script_len = script.len();
    proof {
        assert(script0.len() == script_len);
    }
    let mut rest = script;
    let mut state = st0;
    let mut fs = FsModel::untouched();
    let mut events: Vec<Event> = Vec::new();
    let mut consumed: usize = 0;
    let ghost mut processed: Seq<TransportEventModel> = Seq::empty();
    proof {
        assert(processed + rest.deep_view() =~= script0);
    }
    loop
        invariant
            cfg.wf(),
            script0.len() <= usize::MAX,
            processed + rest.deep_view() =~= script0,
            consumed == processed.len(),
            spec_run(*cfg, st_init, fs_untouched(), processed) == (RunModel {
                state: state@,
                fs: fs@,
                events: events.deep_view(),
                consumed: processed.len() as int,
            }),
            state@ is Finished ==> spec_run(*cfg, st_init, fs_untouched(), script0) == (RunModel {
                state: state@,
                fs: fs@,
                events: events.deep_view(),
                consumed: processed.len() as int,
            }),
        ensures
            spec_run(*cfg, st_init, fs_untouched(), script0) == (RunModel {
                state: state@,
                fs: fs@,
                events: events.deep_view(),
                consumed: consumed as int,
            }),
        decreases rest.len(),
    {
        if rest.len() == 0 {
            proof {
                assert(processed =~= script0);
            }
            break;
        }
        if state.is_finished() {
            break;
        }
        let ghost pre_state = state@;
        let ghost pre_fs = fs@;
        let ghost pre_events = events.deep_view();
        let ghost pre_rest = rest.deep_view();
        let ev = rest.remove(0);
        let ghost evm = ev@;
        let cur = state;
        let (next, emit, op) = step(cfg, cur, ev);
        state = next;
        fs = apply_fs(fs, op);
        match emit {
            Option::Some(e) => events.push(e),
            Option::None => {},
        }
        consumed = consumed + 1;
        proof {
            let stp = spec_step(*cfg, pre_state, evm);
            lemma_run_extend(*cfg, st_init, fs_untouched(), processed, evm);
            assert(events.deep_view() =~= pre_events + emit_seq(stp.emit));
            assert(rest.deep_view() =~= pre_rest.drop_first());
            processed = processed.push(evm);
            assert(processed + rest.deep_view() =~= script0);
            if state@ is Finished {
                lemma_run_finished_absorbs(*cfg, st_init, fs_untouched(), processed,
                    rest.deep_view());
            }
        }
    }
    ItemRun { state, fs, events, consumed }
}

} // verus!
