//! The laws of the pipeline: what whole runs of the state machine and the
//! scheduler provably do, for every input the statement admits.
//!
//! Each law is stated over the spec-level run functions ([`spec_run`],
//! [`spec_batch`]) that the executable drivers are proved to implement,
//! so it holds of every execution.

use crate::config::Config;
use crate::events::EventClass;
use crate::events::EventModel;
use crate::events::Summary;
use crate::events::before_close;
use crate::events::class_matches;
use crate::events::count_class;
use crate::events::is_summary_of;
use crate::events::lemma_count_class_permutation;
use crate::fetch::FsView;
use crate::fetch::Outcome;
use crate::fetch::StateModel;
use crate::fetch::TransportEventModel;
use crate::fetch::emit_seq;
use crate::fetch::fs_untouched;
use crate::fetch::lemma_run_append;
use crate::fetch::lemma_run_extend;
use crate::fetch::partial_bytes;
use crate::fetch::spec_run;
use crate::fetch::spec_step;
use crate::request::spec_partial_path;
use vstd::arithmetic::mul::lemma_mul_inequality;
use vstd::arithmetic::mul::lemma_mul_is_associative;
use vstd::arithmetic::mul::lemma_mul_is_commutative;
use vstd::arithmetic::power2::lemma2_to64;
use vstd::arithmetic::power2::lemma_pow2_unfold;
use vstd::arithmetic::power2::pow2;
use vstd::prelude::*;

verus! {

/// A transport that never answers: `k` connect timeouts in a row.
pub open spec fn repeat_timeouts(k: nat) -> Seq<TransportEventModel> {
    Seq::new(k, |i: int| TransportEventModel::ConnectTimedOut)
}

/// A body that stalls `m` times in a row.
pub open spec fn repeat_stalls(m: nat) -> Seq<TransportEventModel> {
    Seq::new(m, |i: int| TransportEventModel::ChunkTimedOut)
}

/// The chunks of a body, as transport events.
pub open spec fn chunk_events(chunks: Seq<Seq<u8>>) -> Seq<TransportEventModel> {
    Seq::new(chunks.len(), |i: int| (TransportEventModel::Chunk { data: chunks[i] }))
}

/// A fault-free transport: a success response, the body's chunks, a clean
/// end of body.
pub open spec fn clean_stream(chunks: Seq<Seq<u8>>) -> Seq<TransportEventModel> {
    seq![TransportEventModel::Connected { status: 200, location: Option::None }]
        + chunk_events(chunks) + seq![TransportEventModel::BodyEnd]
}

/// The source bytes: all chunks in order.
pub open spec fn concat_chunks(chunks: Seq<Seq<u8>>) -> Seq<u8>
    decreases chunks.len(),
{
    if chunks.len() == 0 {
        Seq::empty()
    } else {
        chunks[0] + concat_chunks(chunks.drop_first())
    }
}

/// Against a transport that never answers, the connect-retry loop
/// announces each retry with `RetryScheduled`, and the announced delays
/// double exactly: the `i`-th announcement carries `delay * 2^i`,
/// starting at the item's seed — which the scheduler draws from the
/// configured seed range.  No file is touched, and after `k` timeouts the
/// item is still connecting, with `k` attempts spent and the next delay
/// already doubled.
pub proof fn lemma_connect_retry_backoff(
    cfg: Config,
    locator: Seq<u8>,
    dest: Seq<u8>,
    delay: u64,
    attempts: u64,
    hops: u64,
    k: nat,
)
    requires
        cfg.wf(),
        attempts + k < cfg.max_connect_attempts,
        delay * pow2(k) <= u64::MAX,
    ensures
        ({
            let st = (StateModel::Connecting { locator, dest, delay_ms: delay, attempts, hops });
            let r = spec_run(cfg, st, fs_untouched(), repeat_timeouts(k));
            &&& r.events.len() == k
            &&& forall|i: int|
                0 <= i < k ==> r.events[i] == (EventModel::RetryScheduled {
                    subject: locator,
                    delay_ms: (delay * pow2(i as nat)) as u64,
                })
            &&& r.state == (StateModel::Connecting {
                locator,
                dest,
                delay_ms: (delay * pow2(k)) as u64,
                attempts: (attempts + k) as u64,
                hops,
            })
            &&& r.fs == fs_untouched()
            &&& r.consumed == k
        }),
    decreases k,
{
    lemma2_to64();
    let st = (StateModel::Connecting { locator, dest, delay_ms: delay, attempts, hops });
    let r = spec_run(cfg, st, fs_untouched(), repeat_timeouts(k));
    if k == 0 {
        assert(repeat_timeouts(0) =~= Seq::<TransportEventModel>::empty());
        assert(delay * pow2(0) == delay);
    } else {
        assert(pow2(1) == 2);
        vstd::arithmetic::power2::lemma_pow2_strictly_increases(0, k);
        lemma_pow2_unfold(k);
        // delay * 2 <= delay * pow2(k) <= u64::MAX, so the doubling is exact
        assert(delay * 2 <= delay * pow2(k)) by {
            if delay > 0 {
                lemma_mul_inequality(2, pow2(k) as int, delay as int);
                lemma_mul_is_commutative(delay as int, 2);
                lemma_mul_is_commutative(delay as int, pow2(k) as int);
            }
        }
        let delay2: u64 = (delay * 2) as u64;
        // (2 * delay) * pow2(k - 1) == delay * pow2(k)
        assert(delay2 * pow2((k - 1) as nat) == delay * pow2(k)) by {
            lemma_mul_is_associative(delay as int, 2, pow2((k - 1) as nat) as int);
            lemma_mul_is_commutative(delay as int, 2);
            lemma_mul_is_associative(2, delay as int, pow2((k - 1) as nat) as int);
        }
        lemma_connect_retry_backoff(
            cfg,
            locator,
            dest,
            delay2,
            (attempts + 1) as u64,
            hops,
            (k - 1) as nat,
        );
        let stp = spec_step(cfg, st, TransportEventModel::ConnectTimedOut);
        let st2 = (StateModel::Connecting {
            locator,
            dest,
            delay_ms: delay2,
            attempts: (attempts + 1) as u64,
            hops,
        });
        assert(stp.state == st2);
        let tail = spec_run(cfg, st2, fs_untouched(), repeat_timeouts((k - 1) as nat));
        assert(repeat_timeouts(k)[0] == TransportEventModel::ConnectTimedOut);
        assert(repeat_timeouts(k).drop_first() =~= repeat_timeouts((k - 1) as nat));
        assert(r.events =~= seq![
            EventModel::RetryScheduled { subject: locator, delay_ms: delay },
        ] + tail.events);
        assert forall|i: int| 0 <= i < k implies r.events[i] == (EventModel::RetryScheduled {
            subject: locator,
            delay_ms: (delay * pow2(i as nat)) as u64,
        }) by {
            if i == 0 {
                assert(delay * pow2(0) == delay);
            } else {
                assert(tail.events[i - 1] == (EventModel::RetryScheduled {
                    subject: locator,
                    delay_ms: (delay2 * pow2((i - 1) as nat)) as u64,
                }));
                assert(delay2 * pow2((i - 1) as nat) == delay * pow2(i as nat)) by {
                    lemma_pow2_unfold(i as nat);
                    lemma_mul_is_associative(delay as int, 2, pow2((i - 1) as nat) as int);
                    lemma_mul_is_commutative(delay as int, 2);
                    lemma_mul_is_associative(2, delay as int, pow2((i - 1) as nat) as int);
                    assert(pow2(i as nat) <= pow2(k)) by {
                        if i < k {
                            vstd::arithmetic::power2::lemma_pow2_strictly_increases(
                                i as nat,
                                k,
                            );
                        }
                    }
                    assert(delay * pow2(i as nat) <= delay * pow2(k)) by {
                        if delay > 0 {
                            lemma_mul_inequality(
                                pow2(i as nat) as int,
                                pow2(k) as int,
                                delay as int,
                            );
                            lemma_mul_is_commutative(delay as int, pow2(i as nat) as int);
                            lemma_mul_is_commutative(delay as int, pow2(k) as int);
                        }
                    }
                }
            }
        }
        assert(delay2 * pow2((k - 1) as nat) == delay * pow2(k));
    }
}

/// Any response status other than success or redirect fails the item at
/// once: the run emits exactly one event, `FailedHttp` carrying that
/// status and the item's destination path, nothing is retried, and no
/// file — in particular no partial artifact — is left behind.
pub proof fn lemma_unexpected_status_fails_once(
    cfg: Config,
    locator: Seq<u8>,
    dest: Seq<u8>,
    delay: u64,
    attempts: u64,
    hops: u64,
    status: u16,
    location: Option<Seq<u8>>,
)
    requires
        cfg.wf(),
        status != 200,
        status != 302,
    ensures
        ({
            let st = (StateModel::Connecting { locator, dest, delay_ms: delay, attempts, hops });
            let r = spec_run(
                cfg,
                st,
                fs_untouched(),
                seq![TransportEventModel::Connected { status, location }],
            );
            &&& r.events =~= seq![EventModel::FailedHttp { subject: dest, status }]
            &&& r.state == (StateModel::Finished { outcome: (Outcome::HttpRejected { status }) })
            &&& r.fs == fs_untouched()
            &&& r.consumed == 1
        }),
{
    reveal_with_fuel(spec_run, 3);
    let st = (StateModel::Connecting { locator, dest, delay_ms: delay, attempts, hops });
    let script = seq![TransportEventModel::Connected { status, location }];
    assert(script.drop_first() =~= Seq::<TransportEventModel>::empty());
}

/// A streaming item that sees only chunks and then a clean end of body
/// completes: every chunk is appended to the partial artifact in order,
/// the partial file is promoted onto the destination, and exactly one
/// `Completed` is emitted.
pub proof fn lemma_streaming_drains(
    cfg: Config,
    dest: Seq<u8>,
    stalls: u8,
    fs: FsView,
    chunks: Seq<Seq<u8>>,
)
    requires
        cfg.wf(),
    ensures
        ({
            let st = (StateModel::Streaming { dest, stalls });
            let r = spec_run(cfg, st, fs, chunk_events(chunks) + seq![TransportEventModel::BodyEnd]);
            &&& r.events =~= seq![EventModel::Completed]
            &&& r.state == (StateModel::Finished { outcome: Outcome::Delivered })
            &&& r.fs.partial is None
            &&& r.fs.delivered == Option::Some(partial_bytes(fs) + concat_chunks(chunks))
            &&& r.consumed == chunks.len() + 1
        }),
    decreases chunks.len(),
{
    reveal_with_fuel(spec_run, 3);
    let st = (StateModel::Streaming { dest, stalls });
    let script = chunk_events(chunks) + seq![TransportEventModel::BodyEnd];
    if chunks.len() == 0 {
        assert(script =~= seq![TransportEventModel::BodyEnd]);
        assert(script.drop_first() =~= Seq::<TransportEventModel>::empty());
        assert(partial_bytes(fs) + concat_chunks(chunks) =~= partial_bytes(fs));
    } else {
        let fs2 = (FsView {
            partial: Option::Some(partial_bytes(fs) + chunks[0]),
            delivered: fs.delivered,
        });
        lemma_streaming_drains(cfg, dest, stalls, fs2, chunks.drop_first());
        assert(script[0] == (TransportEventModel::Chunk { data: chunks[0] }));
        assert(script.drop_first() =~= chunk_events(chunks.drop_first()) + seq![
            TransportEventModel::BodyEnd,
        ]);
        let tail = spec_run(cfg, st, fs2, script.drop_first());
        assert(Seq::<EventModel>::empty() + tail.events =~= tail.events);
        assert((partial_bytes(fs) + chunks[0]) + concat_chunks(chunks.drop_first())
            =~= partial_bytes(fs) + concat_chunks(chunks));
    }
}

/// Against a fault-free transport an item completes in one pass: the
/// partial artifact is created, filled with exactly the source bytes,
/// and promoted onto the destination path; the one and only event is
/// `Completed`.
pub proof fn lemma_clean_transport_completes(
    cfg: Config,
    locator: Seq<u8>,
    dest: Seq<u8>,
    delay: u64,
    attempts: u64,
    hops: u64,
    chunks: Seq<Seq<u8>>,
)
    requires
        cfg.wf(),
    ensures
        ({
            let st = (StateModel::Connecting { locator, dest, delay_ms: delay, attempts, hops });
            let r = spec_run(cfg, st, fs_untouched(), clean_stream(chunks));
            &&& r.events =~= seq![EventModel::Completed]
            &&& r.state == (StateModel::Finished { outcome: Outcome::Delivered })
            &&& r.fs.partial is None
            &&& r.fs.delivered == Option::Some(concat_chunks(chunks))
            &&& r.consumed == chunks.len() + 2
        }),
{
    reveal_with_fuel(spec_run, 2);
    let st = (StateModel::Connecting { locator, dest, delay_ms: delay, attempts, hops });
    let script = clean_stream(chunks);
    let fs2 = (FsView { partial: Option::Some(Seq::empty()), delivered: Option::None });
    assert(script[0] == (TransportEventModel::Connected { status: 200, location: Option::None }));
    assert(script.drop_first() =~= chunk_events(chunks) + seq![TransportEventModel::BodyEnd]);
    lemma_streaming_drains(cfg, dest, 0, fs2, chunks);
    let tail = spec_run(
        cfg,
        (StateModel::Streaming { dest, stalls: 0 }),
        fs2,
        chunk_events(chunks) + seq![TransportEventModel::BodyEnd],
    );
    assert(Seq::<EventModel>::empty() + tail.events =~= tail.events);
    assert(partial_bytes(fs2) + concat_chunks(chunks) =~= concat_chunks(chunks));
}

/// One temporary redirect with a valid location, then a fault-free
/// transport: the item completes exactly once — one `Completed`, no
/// failure event — and the bytes land once, at the item's own
/// destination path.  The redirect cannot leave a duplicate anywhere
/// else: every file operation of the machine targets the destination
/// path or its partial sibling, whatever locator is being fetched.  The
/// backoff delay in force is carried into the redirected connect
/// unchanged.
pub proof fn lemma_redirect_once_completes_once(
    cfg: Config,
    locator: Seq<u8>,
    dest: Seq<u8>,
    delay: u64,
    new_location: Seq<u8>,
    chunks: Seq<Seq<u8>>,
)
    requires
        cfg.wf(),
        cfg.max_redirect_hops >= 1,
    ensures
        ({
            let st = (StateModel::Connecting {
                locator,
                dest,
                delay_ms: delay,
                attempts: 0,
                hops: 0,
            });
            let script = seq![
                TransportEventModel::Connected {
                    status: 302,
                    location: Option::Some(new_location),
                },
            ] + clean_stream(chunks);
            let r = spec_run(cfg, st, fs_untouched(), script);
            &&& r.events =~= seq![EventModel::Completed]
            &&& r.state == (StateModel::Finished { outcome: Outcome::Delivered })
            &&& r.fs.partial is None
            &&& r.fs.delivered == Option::Some(concat_chunks(chunks))
            &&& r.consumed == chunks.len() + 3
        }),
{
    reveal_with_fuel(spec_run, 2);
    let st = (StateModel::Connecting { locator, dest, delay_ms: delay, attempts: 0, hops: 0 });
    let hop = (TransportEventModel::Connected { status: 302, location: Option::Some(new_location) });
    let script = seq![hop] + clean_stream(chunks);
    let st2 = (StateModel::Connecting {
        locator: new_location,
        dest,
        delay_ms: delay,
        attempts: 0,
        hops: 1,
    });
    assert(script[0] == hop);
    assert(script.drop_first() =~= clean_stream(chunks));
    assert(spec_step(cfg, st, hop).state == st2);
    lemma_clean_transport_completes(cfg, new_location, dest, delay, 0, 1, chunks);
    let tail = spec_run(cfg, st2, fs_untouched(), clean_stream(chunks));
    assert(Seq::<EventModel>::empty() + tail.events =~= tail.events);
}

/// The warnings a run of `m` stall ticks emits: one `Retrying` at every
/// `warn`-th tick, carrying the partial artifact's path and the tick
/// count.
pub open spec fn stall_warnings(dest: Seq<u8>, warn: u8, m: nat) -> Seq<EventModel>
    decreases m,
{
    if m == 0 {
        Seq::empty()
    } else {
        stall_warnings(dest, warn, (m - 1) as nat) + if m % (warn as nat) == 0 {
            seq![
                EventModel::Retrying { subject: spec_partial_path(dest), attempt: m as u8 },
            ]
        } else {
            Seq::<EventModel>::empty()
        }
    }
}

/// Fewer stall ticks than the abandon threshold never end an item: after
/// `m` chunk timeouts the item is still streaming, its stall counter at
/// `m`, the filesystem untouched since the stalls began, and the only
/// events are the periodic `Retrying` warnings.
pub proof fn lemma_stall_ticks_survive(cfg: Config, dest: Seq<u8>, fs: FsView, m: nat)
    requires
        cfg.wf(),
        m < cfg.stall_abandon_every,
    ensures
        ({
            let r = spec_run(cfg, (StateModel::Streaming { dest, stalls: 0 }), fs, repeat_stalls(m));
            &&& r.state == (StateModel::Streaming { dest, stalls: m as u8 })
            &&& r.fs == fs
            &&& r.events =~= stall_warnings(dest, cfg.stall_warn_every, m)
            &&& r.consumed == m
        }),
    decreases m,
{
    let st0 = (StateModel::Streaming { dest, stalls: 0 });
    if m == 0 {
        assert(repeat_stalls(0) =~= Seq::<TransportEventModel>::empty());
    } else {
        lemma_stall_ticks_survive(cfg, dest, fs, (m - 1) as nat);
        assert(repeat_stalls(m) =~= repeat_stalls((m - 1) as nat).push(
            TransportEventModel::ChunkTimedOut,
        ));
        lemma_run_extend(
            cfg,
            st0,
            fs,
            repeat_stalls((m - 1) as nat),
            TransportEventModel::ChunkTimedOut,
        );
        let prev = spec_run(cfg, st0, fs, repeat_stalls((m - 1) as nat));
        let stp = spec_step(cfg, prev.state, TransportEventModel::ChunkTimedOut);
        assert((m as u8) as int % (cfg.stall_abandon_every as int) == m) by {
            vstd::arithmetic::div_mod::lemma_small_mod(m, cfg.stall_abandon_every as nat);
        }
        assert(prev.events + emit_seq(stp.emit) =~= stall_warnings(dest, cfg.stall_warn_every, m));
    }
}

/// An item whose body stalls fewer times than the abandon threshold and
/// then streams cleanly still completes, and the delivered file holds
/// exactly the source bytes; the stalls cost nothing but the warnings.
pub proof fn lemma_stalls_below_threshold_still_complete(
    cfg: Config,
    locator: Seq<u8>,
    dest: Seq<u8>,
    delay: u64,
    attempts: u64,
    hops: u64,
    m: nat,
    chunks: Seq<Seq<u8>>,
)
    requires
        cfg.wf(),
        m < cfg.stall_abandon_every,
    ensures
        ({
            let st = (StateModel::Connecting { locator, dest, delay_ms: delay, attempts, hops });
            let script = seq![
                TransportEventModel::Connected { status: 200, location: Option::None },
            ] + (repeat_stalls(m) + (chunk_events(chunks) + seq![TransportEventModel::BodyEnd]));
            let r = spec_run(cfg, st, fs_untouched(), script);
            &&& r.events =~= stall_warnings(dest, cfg.stall_warn_every, m) + seq![
                EventModel::Completed,
            ]
            &&& r.state == (StateModel::Finished { outcome: Outcome::Delivered })
            &&& r.fs.partial is None
            &&& r.fs.delivered == Option::Some(concat_chunks(chunks))
            &&& r.consumed == m + chunks.len() + 2
        }),
{
    reveal_with_fuel(spec_run, 2);
    let st = (StateModel::Connecting { locator, dest, delay_ms: delay, attempts, hops });
    let ok = (TransportEventModel::Connected { status: 200, location: Option::None });
    let rest = repeat_stalls(m) + (chunk_events(chunks) + seq![TransportEventModel::BodyEnd]);
    let script = seq![ok] + rest;
    let st1 = (StateModel::Streaming { dest, stalls: 0 });
    let fs1 = (FsView { partial: Option::Some(Seq::<u8>::empty()), delivered: Option::None });
    assert(script[0] == ok);
    assert(script.drop_first() =~= rest);
    assert(spec_step(cfg, st, ok).state == st1);
    lemma_stall_ticks_survive(cfg, dest, fs1, m);
    lemma_run_append(
        cfg,
        st1,
        fs1,
        repeat_stalls(m),
        chunk_events(chunks) + seq![TransportEventModel::BodyEnd],
    );
    lemma_streaming_drains(cfg, dest, m as u8, fs1, chunks);
    let r1 = spec_run(cfg, st1, fs1, repeat_stalls(m));
    let r2 = spec_run(
        cfg,
        r1.state,
        r1.fs,
        chunk_events(chunks) + seq![TransportEventModel::BodyEnd],
    );
    assert(partial_bytes(fs1) + concat_chunks(chunks) =~= concat_chunks(chunks));
    let tail = spec_run(cfg, st1, fs1, rest);
    assert(Seq::<EventModel>::empty() + tail.events =~= tail.events);
}

/// At exactly the abandon threshold the item is given up: the run ends
/// `StalledOut` with a single `Failed` event after the warnings, the
/// partial artifact is left behind on disk, and nothing is delivered at
/// the destination path.
pub proof fn lemma_stall_threshold_abandons(
    cfg: Config,
    locator: Seq<u8>,
    dest: Seq<u8>,
    delay: u64,
    attempts: u64,
    hops: u64,
)
    requires
        cfg.wf(),
    ensures
        ({
            let a = cfg.stall_abandon_every as nat;
            let st = (StateModel::Connecting { locator, dest, delay_ms: delay, attempts, hops });
            let script = seq![
                TransportEventModel::Connected { status: 200, location: Option::None },
            ] + repeat_stalls(a);
            let r = spec_run(cfg, st, fs_untouched(), script);
            &&& r.events =~= stall_warnings(dest, cfg.stall_warn_every, (a - 1) as nat) + seq![
                EventModel::Failed { subject: spec_partial_path(dest) },
            ]
            &&& r.state == (StateModel::Finished { outcome: Outcome::StalledOut })
            &&& r.fs.partial == Option::Some(Seq::<u8>::empty())
            &&& r.fs.delivered is None
            &&& r.consumed == a + 1
        }),
{
    reveal_with_fuel(spec_run, 2);
    let a = cfg.stall_abandon_every as nat;
    let st = (StateModel::Connecting { locator, dest, delay_ms: delay, attempts, hops });
    let ok = (TransportEventModel::Connected { status: 200, location: Option::None });
    let script = seq![ok] + repeat_stalls(a);
    let st1 = (StateModel::Streaming { dest, stalls: 0 });
    let fs1 = (FsView { partial: Option::Some(Seq::<u8>::empty()), delivered: Option::None });
    assert(script[0] == ok);
    assert(script.drop_first() =~= repeat_stalls(a));
    assert(spec_step(cfg, st, ok).state == st1);
    lemma_stall_ticks_survive(cfg, dest, fs1, (a - 1) as nat);
    assert(repeat_stalls(a) =~= repeat_stalls((a - 1) as nat).push(
        TransportEventModel::ChunkTimedOut,
    ));
    lemma_run_extend(
        cfg,
        st1,
        fs1,
        repeat_stalls((a - 1) as nat),
        TransportEventModel::ChunkTimedOut,
    );
    let prev = spec_run(cfg, st1, fs1, repeat_stalls((a - 1) as nat));
    let stp = spec_step(cfg, prev.state, TransportEventModel::ChunkTimedOut);
    assert((a as u8) as int % (cfg.stall_abandon_every as int) == 0) by {
        vstd::arithmetic::div_mod::lemma_mod_self_0(cfg.stall_abandon_every as int);
    }
    let tail = spec_run(cfg, st1, fs1, repeat_stalls(a));
    assert(Seq::<EventModel>::empty() + tail.events =~= tail.events);
}

/// A count of zero means no event of the class occurs anywhere.
proof fn lemma_count_zero_no_match(s: Seq<EventModel>, c: EventClass)
    requires
        count_class(s, c) == 0,
    ensures
        forall|i: int| 0 <= i < s.len() ==> !class_matches(c, s[i]),
    decreases s.len(),
{
    if s.len() > 0 {
        lemma_count_zero_no_match(s.drop_last(), c);
        assert forall|i: int| 0 <= i < s.len() implies !class_matches(c, s[i]) by {
            if i < s.len() - 1 {
                assert(s.drop_last()[i] == s[i]);
                assert(!class_matches(c, s.drop_last()[i]));
            } else {
                assert(!class_matches(c, s.last()));
            }
        }
    }
}

/// When a stream holds no `Summarize`, appending the closing `Summarize`
/// makes the sink process exactly the stream.
proof fn lemma_before_close_whole(s: Seq<EventModel>)
    requires
        forall|i: int| 0 <= i < s.len() ==> !(#[trigger] s[i] is Summarize),
    ensures
        before_close(s.push(EventModel::Summarize)) =~= s,
    decreases s.len(),
{
    let p = s.push(EventModel::Summarize);
    if s.len() == 0 {
        assert(p[0] is Summarize);
    } else {
        assert(p[0] == s[0]);
        assert(p.drop_first() =~= s.drop_first().push(EventModel::Summarize));
        assert(forall|i: int|
            0 <= i < s.drop_first().len() ==> !(#[trigger] s.drop_first()[i] is Summarize));
        lemma_before_close_whole(s.drop_first());
        assert(seq![s[0]] + s.drop_first() =~= s);
    }
}

/// For every request set against a fault-free transport, the accounting
/// comes out even: as many `Started` and as many `Completed` events as
/// there are requests, and not one failure.  Whatever summary the sink
/// derives from those events closed by a `Summarize` reports exactly
/// `total == N`, `completed == N`, `failed == 0`.
pub proof fn lemma_fault_free_batch_accounting(
    cfg: Config,
    dir: Seq<u8>,
    reqs: Seq<crate::request::RequestModel>,
    seeds: Seq<u64>,
    scripts: Seq<Seq<TransportEventModel>>,
    chunkss: Seq<Seq<Seq<u8>>>,
)
    requires
        cfg.wf(),
        !cfg.dry_run,
        seeds.len() == reqs.len(),
        scripts.len() == reqs.len(),
        chunkss.len() == reqs.len(),
        forall|i: int| 0 <= i < reqs.len() ==> #[trigger] scripts[i] == clean_stream(chunkss[i]),
    ensures
        ({
            let evs = crate::sched::spec_batch(cfg, dir, reqs, seeds, scripts).events;
            &&& count_class(evs, EventClass::Starts) == reqs.len()
            &&& count_class(evs, EventClass::Completes) == reqs.len()
            &&& count_class(evs, EventClass::Fails) == 0
            &&& count_class(evs, EventClass::Closes) == 0
            &&& forall|s: Summary|
                #[trigger] is_summary_of(s, evs.push(EventModel::Summarize)) ==> s == (Summary {
                    total: reqs.len() as u64,
                    completed: reqs.len() as u64,
                    failed: 0,
                })
        }),
    decreases reqs.len(),
{
    reveal_with_fuel(count_class, 3);
    let b = crate::sched::spec_batch(cfg, dir, reqs, seeds, scripts);
    let evs = b.events;
    if reqs.len() == 0 {
        assert(count_class(evs, EventClass::Starts) == 0);
    } else {
        lemma_fault_free_batch_accounting(
            cfg,
            dir,
            reqs.drop_first(),
            seeds.drop_first(),
            scripts.drop_first(),
            chunkss.drop_first(),
        );
        let rest = crate::sched::spec_batch(
            cfg,
            dir,
            reqs.drop_first(),
            seeds.drop_first(),
            scripts.drop_first(),
        );
        let run = crate::sched::item_run(cfg, dir, reqs[0], seeds[0], scripts[0]);
        lemma_clean_transport_completes(
            cfg,
            crate::request::spec_resolve_locator(reqs[0]),
            crate::request::spec_dest_path(dir, reqs[0].destination_name),
            seeds[0],
            0,
            0,
            chunkss[0],
        );
        assert(run.events =~= seq![EventModel::Completed]);
        let head = crate::sched::item_events(cfg, dir, reqs[0], seeds[0], scripts[0]);
        assert(head =~= seq![EventModel::Started, EventModel::Completed]);
        crate::events::lemma_count_class_concat(head, rest.events, EventClass::Starts);
        crate::events::lemma_count_class_concat(head, rest.events, EventClass::Completes);
        crate::events::lemma_count_class_concat(head, rest.events, EventClass::Fails);
        crate::events::lemma_count_class_concat(head, rest.events, EventClass::Closes);
        assert(count_class(head, EventClass::Starts) == 1);
        assert(count_class(head, EventClass::Completes) == 1);
        assert(count_class(head, EventClass::Fails) == 0);
        assert(count_class(head, EventClass::Closes) == 0);
    }
    lemma_count_zero_no_match(evs, EventClass::Closes);
    assert(forall|i: int| 0 <= i < evs.len() ==> !(#[trigger] evs[i] is Summarize));
    lemma_before_close_whole(evs);
}

/// The fault-free accounting is order-blind: however the concurrent
/// fetches interleave their events — any delivery holding the same
/// events as the scheduled batch, in any order — the sink reports the
/// same `N / N / 0` summary.
pub proof fn lemma_accounting_order_blind(
    cfg: Config,
    dir: Seq<u8>,
    reqs: Seq<crate::request::RequestModel>,
    seeds: Seq<u64>,
    scripts: Seq<Seq<TransportEventModel>>,
    chunkss: Seq<Seq<Seq<u8>>>,
    delivered: Seq<EventModel>,
)
    requires
        cfg.wf(),
        !cfg.dry_run,
        seeds.len() == reqs.len(),
        scripts.len() == reqs.len(),
        chunkss.len() == reqs.len(),
        forall|i: int| 0 <= i < reqs.len() ==> #[trigger] scripts[i] == clean_stream(chunkss[i]),
        delivered.to_multiset() == crate::sched::spec_batch(
            cfg,
            dir,
            reqs,
            seeds,
            scripts,
        ).events.to_multiset(),
    ensures
        count_class(delivered, EventClass::Starts) == reqs.len(),
        count_class(delivered, EventClass::Completes) == reqs.len(),
        count_class(delivered, EventClass::Fails) == 0,
        forall|s: Summary|
            #[trigger] is_summary_of(s, delivered.push(EventModel::Summarize)) ==> s == (Summary {
                total: reqs.len() as u64,
                completed: reqs.len() as u64,
                failed: 0,
            }),
{
    let evs = crate::sched::spec_batch(cfg, dir, reqs, seeds, scripts).events;
    lemma_fault_free_batch_accounting(cfg, dir, reqs, seeds, scripts, chunkss);
    lemma_count_class_permutation(delivered, evs, EventClass::Starts);
    lemma_count_class_permutation(delivered, evs, EventClass::Completes);
    lemma_count_class_permutation(delivered, evs, EventClass::Fails);
    lemma_count_class_permutation(delivered, evs, EventClass::Closes);
    lemma_count_zero_no_match(delivered, EventClass::Closes);
    assert(forall|i: int|
        0 <= i < delivered.len() ==> !(#[trigger] delivered[i] is Summarize));
    lemma_before_close_whole(delivered);
}

/// The machine never emits `Started` or `Summarize` of its own, and
/// it emits a counted event — `Completed`, `Failed` or `FailedHttp` —
/// exactly once, at the step that reaches the terminal outcome.
pub proof fn lemma_terminal_run_accounting(
    cfg: Config,
    st: StateModel,
    fs: FsView,
    script: Seq<TransportEventModel>,
)
    requires
        !(st is Finished),
    ensures
        ({
            let r = spec_run(cfg, st, fs, script);
            &&& count_class(r.events, EventClass::Starts) == 0
            &&& count_class(r.events, EventClass::Closes) == 0
            &&& r.state is Finished ==> count_class(r.events, EventClass::Completes) + count_class(
                r.events,
                EventClass::Fails,
            ) == 1
            &&& !(r.state is Finished) ==> count_class(r.events, EventClass::Completes)
                + count_class(r.events, EventClass::Fails) == 0
        }),
    decreases script.len(),
{
    reveal_with_fuel(count_class, 3);
    let r = spec_run(cfg, st, fs, script);
    if script.len() == 0 {
    } else {
        let stp = spec_step(cfg, st, script[0]);
        let fs1 = crate::fetch::spec_apply_fs(fs, stp.fs);
        let head = emit_seq(stp.emit);
        if stp.state is Finished {
            let tail = spec_run(cfg, stp.state, fs1, script.drop_first());
            assert(tail.events =~= Seq::<EventModel>::empty());
            crate::events::lemma_count_class_concat(head, tail.events, EventClass::Starts);
            crate::events::lemma_count_class_concat(head, tail.events, EventClass::Closes);
            crate::events::lemma_count_class_concat(head, tail.events, EventClass::Completes);
            crate::events::lemma_count_class_concat(head, tail.events, EventClass::Fails);
        } else {
            lemma_terminal_run_accounting(cfg, stp.state, fs1, script.drop_first());
            let tail = spec_run(cfg, stp.state, fs1, script.drop_first());
            crate::events::lemma_count_class_concat(head, tail.events, EventClass::Starts);
            crate::events::lemma_count_class_concat(head, tail.events, EventClass::Closes);
            crate::events::lemma_count_class_concat(head, tail.events, EventClass::Completes);
            crate::events::lemma_count_class_concat(head, tail.events, EventClass::Fails);
        }
    }
}

/// Once every in-flight item of a batch has reached its terminal outcome
/// and the `Summarize` is processed, the accounting balances: the sink's
/// `total` equals its `completed` plus its `failed`, whatever mix of
/// successes and failures the transports produced.
pub proof fn lemma_drained_batch_balances(
    cfg: Config,
    dir: Seq<u8>,
    reqs: Seq<crate::request::RequestModel>,
    seeds: Seq<u64>,
    scripts: Seq<Seq<TransportEventModel>>,
)
    requires
        cfg.wf(),
        !cfg.dry_run,
        seeds.len() == reqs.len(),
        scripts.len() == reqs.len(),
        forall|i: int|
            0 <= i < reqs.len() ==> (#[trigger] crate::sched::item_run(
                cfg,
                dir,
                reqs[i],
                seeds[i],
                scripts[i],
            )).state is Finished,
    ensures
        ({
            let evs = crate::sched::spec_batch(cfg, dir, reqs, seeds, scripts).events;
            &&& count_class(evs, EventClass::Starts) == reqs.len()
            &&& count_class(evs, EventClass::Completes) + count_class(evs, EventClass::Fails)
                == reqs.len()
            &&& count_class(evs, EventClass::Closes) == 0
            &&& forall|s: Summary|
                #[trigger] is_summary_of(s, evs.push(EventModel::Summarize)) ==> s.total
                    == s.completed + s.failed
        }),
    decreases reqs.len(),
{
    reveal_with_fuel(count_class, 3);
    let b = crate::sched::spec_batch(cfg, dir, reqs, seeds, scripts);
    let evs = b.events;
    if reqs.len() == 0 {
    } else {
        lemma_drained_batch_balances(
            cfg,
            dir,
            reqs.drop_first(),
            seeds.drop_first(),
            scripts.drop_first(),
        );
        let rest = crate::sched::spec_batch(
            cfg,
            dir,
            reqs.drop_first(),
            seeds.drop_first(),
            scripts.drop_first(),
        );
        let run = crate::sched::item_run(cfg, dir, reqs[0], seeds[0], scripts[0]);
        lemma_terminal_run_accounting(
            cfg,
            crate::sched::start_model(reqs[0], dir, seeds[0]),
            fs_untouched(),
            scripts[0],
        );
        let head = crate::sched::item_events(cfg, dir, reqs[0], seeds[0], scripts[0]);
        assert(head =~= seq![EventModel::Started] + run.events);
        crate::events::lemma_count_class_concat(
            seq![EventModel::Started],
            run.events,
            EventClass::Starts,
        );
        crate::events::lemma_count_class_concat(
            seq![EventModel::Started],
            run.events,
            EventClass::Completes,
        );
        crate::events::lemma_count_class_concat(
            seq![EventModel::Started],
            run.events,
            EventClass::Fails,
        );
        crate::events::lemma_count_class_concat(
            seq![EventModel::Started],
            run.events,
            EventClass::Closes,
        );
        crate::events::lemma_count_class_concat(head, rest.events, EventClass::Starts);
        crate::events::lemma_count_class_concat(head, rest.events, EventClass::Completes);
        crate::events::lemma_count_class_concat(head, rest.events, EventClass::Fails);
        crate::events::lemma_count_class_concat(head, rest.events, EventClass::Closes);
    }
    lemma_count_zero_no_match(evs, EventClass::Closes);
    assert(forall|i: int| 0 <= i < evs.len() ==> !(#[trigger] evs[i] is Summarize));
    lemma_before_close_whole(evs);
}

/// In dry-run mode the scheduler goes through the same plumbing and
/// terminates, yet consults no transport and creates no file: every
/// item's consumption is zero and its filesystem untouched, no event is
/// emitted, and the only output is one record per request — its resolved
/// target path, in order.  The summary the sink then reports is all
/// zeroes.
pub proof fn lemma_dry_run_touches_nothing(
    cfg: Config,
    dir: Seq<u8>,
    reqs: Seq<crate::request::RequestModel>,
    seeds: Seq<u64>,
    scripts: Seq<Seq<TransportEventModel>>,
)
    requires
        cfg.dry_run,
        seeds.len() == reqs.len(),
        scripts.len() == reqs.len(),
    ensures
        ({
            let b = crate::sched::spec_batch(cfg, dir, reqs, seeds, scripts);
            &&& b.events =~= Seq::<EventModel>::empty()
            &&& b.consumed.len() == reqs.len()
            &&& forall|i: int| 0 <= i < reqs.len() ==> #[trigger] b.consumed[i] == 0
            &&& b.files.len() == reqs.len()
            &&& forall|i: int| 0 <= i < reqs.len() ==> #[trigger] b.files[i] == fs_untouched()
            &&& b.records =~= Seq::new(
                reqs.len(),
                |i: int| crate::request::spec_dest_path(dir, reqs[i].destination_name),
            )
            &&& forall|s: Summary|
                #[trigger] is_summary_of(s, b.events.push(EventModel::Summarize)) ==> s
                    == (Summary { total: 0, completed: 0, failed: 0 })
        }),
    decreases reqs.len(),
{
    reveal_with_fuel(before_close, 2);
    let b = crate::sched::spec_batch(cfg, dir, reqs, seeds, scripts);
    if reqs.len() == 0 {
        assert(b.records =~= Seq::new(
            reqs.len(),
            |i: int| crate::request::spec_dest_path(dir, reqs[i].destination_name),
        ));
    } else {
        lemma_dry_run_touches_nothing(
            cfg,
            dir,
            reqs.drop_first(),
            seeds.drop_first(),
            scripts.drop_first(),
        );
        let rest = crate::sched::spec_batch(
            cfg,
            dir,
            reqs.drop_first(),
            seeds.drop_first(),
            scripts.drop_first(),
        );
        assert(b.records =~= Seq::new(
            reqs.len(),
            |i: int| crate::request::spec_dest_path(dir, reqs[i].destination_name),
        ));
    }
    assert(b.events.push(EventModel::Summarize)[0] is Summarize);
    assert(before_close(b.events.push(EventModel::Summarize)) =~= Seq::<EventModel>::empty());
}

} // verus!
