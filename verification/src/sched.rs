//! The download scheduler: fans requests out to fetch tasks.
//!
//! Two disciplines share one contract.  The eager discipline starts a
//! fetch task per request as requests arrive; the bounded-pool discipline
//! first drains the whole queue into memory and then keeps at most a
//! fixed number of fetches in flight, starting the next as soon as a slot
//! frees.  Either way no request is dropped, every request gets exactly
//! one terminal fetch attempt sequence, and in dry-run mode the same
//! plumbing runs without touching network or disk, recording each item's
//! resolved target path instead.
//!
//! Per item the scheduler draws a randomized backoff seed from the
//! configured range, so that concurrently started fetches do not retry in
//! lockstep; the draw is the one place chance enters, and everything
//! downstream is proved for every seed.

use crate::config::Config;
use crate::events::Event;
use crate::events::EventModel;
use crate::fetch::FetchState;
use crate::fetch::FsModel;
use crate::fetch::FsView;
use crate::fetch::RunModel;
use crate::fetch::StateModel;
use crate::fetch::TransportEvent;
use crate::fetch::TransportEventModel;
use crate::fetch::fs_untouched;
use crate::fetch::run_item;
use crate::fetch::spec_run;
use crate::queue::RequestQueue;
use crate::request::DownloadRequest;
use crate::request::RequestModel;
use crate::request::dest_path;
use crate::request::spec_dest_path;
use crate::request::spec_resolve_locator;
use rand::Rng;
use vstd::prelude::*;

verus! {

/// Relies on rand's `Rng::gen_range` over the half-open range `lo..hi`:
/// it panics on an empty range and otherwise samples a value of that
/// range, from the thread-local generator.  Nothing more is assumed — in
/// particular, no two calls are assumed to agree.
#[verifier::external_body]
fn sample_range(lo: u64, hi: u64) -> (r: u64)
    requires
        lo < hi,
    ensures
        lo <= r < hi,
{
    rand::thread_rng().gen_range(lo..hi)
}

/// Draw the randomized initial backoff delay for one item.
pub fn draw_backoff_seed(cfg: &Config) -> (r: u64)
    requires
        cfg.wf(),
    ensures
        cfg.backoff_seed_min <= r < cfg.backoff_seed_max,
{
    sample_range(cfg.backoff_seed_min, cfg.backoff_seed_max)
}

/// The state an item starts in: connecting to its resolved locator, with
/// its destination path fixed, the drawn backoff seed as the first retry
/// delay, and no attempts or hops spent.
pub open spec fn start_model(req: RequestModel, dir: Seq<u8>, seed: u64) -> StateModel {
    StateModel::Connecting {
        locator: spec_resolve_locator(req),
        dest: spec_dest_path(dir, req.destination_name),
        delay_ms: seed,
        attempts: 0,
        hops: 0,
    }
}

/// The whole run of one item against its script.
pub open spec fn item_run(
    cfg: Config,
    dir: Seq<u8>,
    req: RequestModel,
    seed: u64,
    script: Seq<TransportEventModel>,
) -> RunModel {
    spec_run(cfg, start_model(req, dir, seed), fs_untouched(), script)
}

/// The events one scheduled item contributes: nothing in dry-run mode,
/// otherwise `Started` followed by whatever its fetch emits.
pub open spec fn item_events(
    cfg: Config,
    dir: Seq<u8>,
    req: RequestModel,
    seed: u64,
    script: Seq<TransportEventModel>,
) -> Seq<EventModel> {
    if cfg.dry_run {
        Seq::empty()
    } else {
        seq![EventModel::Started] + item_run(cfg, dir, req, seed, script).events
    }
}

/// What one scheduled batch produces: all emitted events in schedule
/// order, the dry-run records, each item's filesystem effect, and how
/// many transport events each item consumed.
#[verifier::ext_equal]
pub struct BatchModel {
    pub events: Seq<EventModel>,
    pub records: Seq<Seq<u8>>,
    pub files: Seq<FsView>,
    pub consumed: Seq<int>,
}

/// Runs a batch of requests through the scheduler, item by item.
pub open spec fn spec_batch(
    cfg: Config,
    dir: Seq<u8>,
    reqs: Seq<RequestModel>,
    seeds: Seq<u64>,
    scripts: Seq<Seq<TransportEventModel>>,
) -> BatchModel
    decreases reqs.len(),
{
    if reqs.len() == 0 {
        BatchModel {
            events: Seq::empty(),
            records: Seq::empty(),
            files: Seq::empty(),
            consumed: Seq::empty(),
        }
    } else {
        let rest = spec_batch(cfg, dir, reqs.drop_first(), seeds.drop_first(), scripts.drop_first());
        if cfg.dry_run {
            BatchModel {
                events: rest.events,
                records: seq![spec_dest_path(dir, reqs[0].destination_name)] + rest.records,
                files: seq![fs_untouched()] + rest.files,
                consumed: seq![0int] + rest.consumed,
            }
        } else {
            let r = item_run(cfg, dir, reqs[0], seeds[0], scripts[0]);
            BatchModel {
                events: item_events(cfg, dir, reqs[0], seeds[0], scripts[0]) + rest.events,
                records: rest.records,
                files: seq![r.fs] + rest.files,
                consumed: seq![r.consumed] + rest.consumed,
            }
        }
    }
}

/// The result of a scripted batch run.
pub struct BatchRun {
    /// Every event the batch emitted, in schedule order.
    pub events: Vec<Event>,
    /// In dry-run mode, each item's resolved target path, in order.
    pub records: Vec<Vec<u8>>,
    /// Each item's filesystem effect, in order.
    pub files: Vec<FsModel>,
    /// How many transport events each item consumed, in order.
    pub consumed: Vec<usize>,
}

/// Front end of the scheduler: the configuration and the download
/// directory, fixed for a run.
pub struct Scheduler {
    pub config: Config,
    pub download_dir: Vec<u8>,
}

impl Scheduler {
    /// A scheduler over the given configuration and download directory.
    pub fn new(config: Config, download_dir: Vec<u8>) -> (r: Scheduler)
        ensures
            r.config == config,
            r.download_dir@ == download_dir@,
    {
        Scheduler { config, download_dir }
    }

    /// The initial fetch state of one request, given its backoff seed.
    pub fn prepare(&self, req: &DownloadRequest, seed: u64) -> (r: FetchState)
        ensures
            r@ == start_model(req@, self.download_dir@, seed),
    {
        FetchState::Connecting {
            locator: req.resolve_locator(),
            dest: dest_path(&self.download_dir, &req.destination_name),
            delay_ms: seed,
            attempts: 0,
            hops: 0,
        }
    }

    /// Drain the closed hand-off queue into memory, in FIFO order: the
    /// first phase of the bounded-pool discipline.
    pub fn drain(&self, q: &mut RequestQueue) -> (r: Vec<DownloadRequest>)
        requires
            old(q).wf(),
            old(q).is_closed(),
        ensures
            final(q).wf(),
            final(q).is_closed(),
            final(q).items().len() == 0,
            r.deep_view() =~= old(q).items(),
    {
        let mut out: Vec<DownloadRequest> = Vec::new();
        loop
            invariant
                q.wf(),
                q.is_closed(),
                out.deep_view() + q.items() =~= old(q).items(),
            ensures
                q.wf(),
                q.is_closed(),
                q.items().len() == 0,
                out.deep_view() =~= old(q).items(),
            decreases q.items().len(),
        {
            let ghost pre_out = out.deep_view();
            let ghost pre_items = q.items();
            match q.dequeue() {
                Option::Some(req) => {
                    out.push(req);
                    proof {
                        assert(out.deep_view() =~= pre_out.push(pre_items[0]));
                        assert(pre_out.push(pre_items[0]) + pre_items.drop_first() =~= pre_out
                            + pre_items);
                    }
                },
                Option::None => {
                    break;
                },
            }
        }
        out
    }

    /// Run a whole batch against scripted transports, sequentially: the
    /// reference execution every discipline must agree with on events,
    /// records, files and consumption — concurrency may only reorder the
    /// events, which leaves the summary unchanged.
    ///
    /// In dry-run mode the scripts are never consulted and no filesystem
    /// effect happens; each item only records its resolved target path.
    pub fn run_scripted(
        &self,
        requests: Vec<DownloadRequest>,
        scripts: Vec<Vec<TransportEvent>>,
        seeds: Vec<u64>,
    ) -> (r: BatchRun)
        requires
            self.config.wf(),
            requests.len() == scripts.len(),
            requests.len() == seeds.len(),
        ensures
            ({
                let m = spec_batch(
                    self.config,
                    self.download_dir@,
                    requests.deep_view(),
                    seeds@,
                    scripts.deep_view(),
                );
                &&& r.events.deep_view() == m.events
                &&& r.records.deep_view() == m.records
                &&& r.files.deep_view() == m.files
                &&& r.consumed@.len() == m.consumed.len()
                &&& forall|i: int|
                    0 <= i < m.consumed.len() ==> r.consumed@[i] as int == m.consumed[i]
            }),
        decreases requests.len(),
    {
        let ghost reqs0 = requests.deep_view();
        let ghost scripts0 = scripts.deep_view();
        let ghost seeds0 = seeds@;
        let mut requests = requests;
        let mut scripts = scripts;
        let mut seeds = seeds;
        if requests.len() == 0 {
            let r = BatchRun {
                events: Vec::new(),
                records: Vec::new(),
                files: Vec::new(),
                consumed: Vec::new(),
            };
            proof {
                assert(r.events.deep_view() =~= Seq::<EventModel>::empty());
                assert(r.records.deep_view() =~= Seq::<Seq<u8>>::empty());
                assert(r.files.deep_view() =~= Seq::<FsView>::empty());
            }
            r
        } else {
            let req = requests.remove(0);
            let script = scripts.remove(0);
            let seed = seeds.remove(0);
            proof {
                assert(requests.deep_view() =~= reqs0.drop_first());
                assert(scripts.deep_view() =~= scripts0.drop_first());
                assert(seeds@ =~= seeds0.drop_first());
                assert(req@ == reqs0[0]);
                assert(script.deep_view() == scripts0[0]);
            }
            if self.config.dry_run {
                let record = dest_path(&self.download_dir, &req.destination_name);
                let mut rest = self.run_scripted(requests, scripts, seeds);
                let ghost rest_records = rest.records.deep_view();
                let ghost rest_files = rest.files.deep_view();
                rest.records.insert(0, record);
                rest.files.insert(0, FsModel::untouched());
                rest.consumed.insert(0, 0);
                proof {
                    assert(rest.records.deep_view() =~~= seq![
                        spec_dest_path(self.download_dir@, reqs0[0].destination_name),
                    ] + rest_records);
                    assert(rest.files.deep_view() =~= seq![fs_untouched()] + rest_files);
                }
                rest
            } else {
                let st = self.prepare(&req, seed);
                let run = run_item(&self.config, st, script);
                let rest = self.run_scripted(requests, scripts, seeds);
                let ghost run_events = run.events.deep_view();
                let ghost rest_events = rest.events.deep_view();
                let ghost rest_files = rest.files.deep_view();
                let mut events: Vec<Event> = Vec::new();
                events.push(Event::Started);
                let mut run_events_vec = run.events;
                let mut rest_events_vec = rest.events;
                events.append(&mut run_events_vec);
                events.append(&mut rest_events_vec);
                let mut files = rest.files;
                files.insert(0, run.fs);
                let mut consumed = rest.consumed;
                consumed.insert(0, run.consumed);
                proof {
                    assert(events.deep_view() =~= (seq![EventModel::Started] + run_events)
                        + rest_events);
                    assert(files.deep_view() =~= seq![
                        item_run(self.config, self.download_dir@, reqs0[0], seeds0[0], scripts0[0]).fs,
                    ] + rest_files);
                }
                BatchRun { events, records: rest.records, files, consumed }
            }
        }
    }
}

/// The bounded worker pool of the capped discipline.
///
/// The pool holds the drained request list and starts the next request as
/// soon as a slot frees — never more than `cap` in flight at once.  Each
/// request leaves `pending` exactly once, in FIFO order, when it is
/// started; a started request stays counted in flight until its terminal
/// outcome is reported back.
pub struct PoolState {
    pending: Vec<DownloadRequest>,
    cap: usize,
    in_flight: usize,
    done: usize,
    started: Ghost<Seq<RequestModel>>,
    submitted: Ghost<Seq<RequestModel>>,
}

impl PoolState {
    /// The requests not yet started, oldest first.
    pub closed spec fn pending(self) -> Seq<RequestModel> {
        self.pending.deep_view()
    }

    /// The concurrency cap.
    pub closed spec fn cap(self) -> usize {
        self.cap
    }

    /// How many fetches are in flight right now.
    pub closed spec fn in_flight(self) -> usize {
        self.in_flight
    }

    /// How many fetches have reached a terminal outcome.
    pub closed spec fn done(self) -> usize {
        self.done
    }

    /// The requests started so far, in start order.
    pub closed spec fn started(self) -> Seq<RequestModel> {
        self.started@
    }

    /// Everything the pool was created with, in order.
    pub closed spec fn submitted(self) -> Seq<RequestModel> {
        self.submitted@
    }

    /// The pool's invariant: the cap is respected, every started request
    /// is either in flight or done, and started plus pending is exactly
    /// what was submitted — nothing lost, nothing duplicated.
    pub closed spec fn wf(self) -> bool {
        &&& 0 < self.cap
        &&& self.in_flight <= self.cap
        &&& self.started@.len() == self.in_flight + self.done
        &&& self.started@ + self.pending.deep_view() =~= self.submitted@
        &&& self.submitted@.len() <= usize::MAX
    }

    /// A fresh pool over a drained request list.
    pub fn new(cap: usize, pending: Vec<DownloadRequest>) -> (r: PoolState)
        requires
            0 < cap,
        ensures
            r.wf(),
            r.cap() == cap,
            r.in_flight() == 0,
            r.done() == 0,
            r.pending() =~= pending.deep_view(),
            r.submitted() =~= pending.deep_view(),
            r.started() =~= Seq::<RequestModel>::empty(),
    {
        let ghost submitted = pending.deep_view();
        let n = pending.len();
        proof {
            assert(submitted.len() == n);
        }
        PoolState {
            pending,
            cap,
            in_flight: 0,
            done: 0,
            started: Ghost(Seq::empty()),
            submitted: Ghost(submitted),
        }
    }

    /// Whether the start-next-as-soon-as-a-slot-frees policy starts a
    /// fetch now: something is pending and a slot is free.
    pub fn wants_start(&self) -> (r: bool)
        requires
            self.wf(),
        ensures
            r == (self.pending().len() > 0 && self.in_flight() < self.cap()),
    {
        self.pending.len() > 0 && self.in_flight < self.cap
    }

    /// Start the next pending request: it leaves `pending`, occupies a
    /// slot, and is handed to the caller to spawn its fetch task.
    pub fn start_next(&mut self) -> (r: DownloadRequest)
        requires
            old(self).wf(),
            old(self).pending().len() > 0,
            old(self).in_flight() < old(self).cap(),
        ensures
            final(self).wf(),
            final(self).cap() == old(self).cap(),
            final(self).submitted() == old(self).submitted(),
            final(self).in_flight() == old(self).in_flight() + 1,
            final(self).in_flight() <= final(self).cap(),
            final(self).done() == old(self).done(),
            r@ == old(self).pending()[0],
            final(self).pending() =~= old(self).pending().drop_first(),
            final(self).started() =~= old(self).started().push(r@),
    {
        let req = self.pending.remove(0);
        self.in_flight = self.in_flight + 1;
        proof {
            self.started@ = self.started@.push(req@);
            assert(self.pending.deep_view() =~= old(self).pending().drop_first());
            assert(old(self).started().push(req@) + old(self).pending().drop_first() =~= old(
                self,
            ).started() + old(self).pending());
        }
        req
    }

    /// A fetch reported its terminal outcome: its slot frees.
    pub fn finish_one(&mut self)
        requires
            old(self).wf(),
            old(self).in_flight() > 0,
        ensures
            final(self).wf(),
            final(self).cap() == old(self).cap(),
            final(self).submitted() == old(self).submitted(),
            final(self).pending() == old(self).pending(),
            final(self).started() == old(self).started(),
            final(self).in_flight() == old(self).in_flight() - 1,
            final(self).done() == old(self).done() + 1,
    {
        proof {
            assert(old(self).done() + 1 <= old(self).submitted().len());
        }
        self.in_flight = self.in_flight - 1;
        self.done = self.done + 1;
    }

    /// Run-time read of the in-flight count.
    pub fn in_flight_now(&self) -> (r: usize)
        ensures
            r == self.in_flight(),
    {
        self.in_flight
    }

    /// Run-time read of the cap.
    pub fn cap_now(&self) -> (r: usize)
        ensures
            r == self.cap(),
    {
        self.cap
    }

    /// Run-time read of how many fetches have finished.
    pub fn done_now(&self) -> (r: usize)
        ensures
            r == self.done(),
    {
        self.done
    }

    /// Run-time read of how many requests are still pending.
    pub fn pending_now(&self) -> (r: usize)
        ensures
            r == self.pending().len(),
    {
        self.pending.len()
    }

    /// Whether every submitted request has reached its terminal outcome.
    pub fn is_idle(&self) -> (r: bool)
        requires
            self.wf(),
        ensures
            r == (self.pending().len() == 0 && self.in_flight() == 0),
    {
        self.pending.len() == 0 && self.in_flight == 0
    }
}

/// The concurrency ceiling holds in every reachable pool state: a pool
/// that satisfies its invariant — as every operation above guarantees —
/// never has more fetches in flight than its cap.
pub proof fn lemma_pool_cap_never_exceeded(p: PoolState)
    requires
        p.wf(),
    ensures
        p.in_flight() <= p.cap(),
{
}

/// No request is dropped and none is fetched twice: once the pool is
/// idle, the requests it started are exactly the requests submitted, in
/// submission order.
pub proof fn lemma_pool_no_request_dropped(p: PoolState)
    requires
        p.wf(),
        p.pending().len() == 0,
        p.in_flight() == 0,
    ensures
        p.started() =~= p.submitted(),
        p.started().len() == p.done(),
{
    assert(p.started() + p.pending() =~= p.started());
}

} // verus!
