//! Lifecycle events of the download pipeline and the accounting sink that
//! folds them into a final summary.
//!
//! Every fetch task emits events; a single consumer receives them and keeps
//! three counters.  `total` counts `Started`, `completed` counts
//! `Completed`, `failed` counts `Failed` and `FailedHttp`.  `Retrying` and
//! `RetryScheduled` are warnings and are not counted.  `Summarize` closes
//! the sink: the counters at that moment are the run's summary.

use vstd::multiset::Multiset;
use vstd::prelude::*;

verus! {

/// One lifecycle event of one item, or the closing `Summarize` request.
///
/// Subjects are byte strings: the locator being retried, or the path of the
/// file the event is about.
#[derive(Debug, PartialEq, Eq)]
pub enum Event {
    /// An item entered the pipeline (counted in `total`).
    Started,
    /// The transfer of `subject` stalled `attempt` times so far; streaming
    /// continues (a warning, not counted).
    Retrying { subject: Vec<u8>, attempt: u8 },
    /// A connect attempt on `subject` timed out; the next attempt follows
    /// after `delay_ms` milliseconds (a warning, not counted).
    RetryScheduled { subject: Vec<u8>, delay_ms: u64 },
    /// The item owning `subject` was given up (counted in `failed`).
    Failed { subject: Vec<u8> },
    /// The remote answered with an unexpected HTTP `status` (counted in
    /// `failed`).
    FailedHttp { subject: Vec<u8>, status: u16 },
    /// The item's file was materialized (counted in `completed`).
    Completed,
    /// Emit the final report and stop receiving.
    Summarize,
}

/// The mathematical shape of an [`Event`]: the same variants over `Seq<u8>`.
pub enum EventModel {
    Started,
    Retrying { subject: Seq<u8>, attempt: u8 },
    RetryScheduled { subject: Seq<u8>, delay_ms: u64 },
    Failed { subject: Seq<u8> },
    FailedHttp { subject: Seq<u8>, status: u16 },
    Completed,
    Summarize,
}

impl View for Event {
    type V = EventModel;

    open spec fn view(&self) -> EventModel {
        match self {
            Event::Started => EventModel::Started,
            Event::Retrying { subject, attempt } => (EventModel::Retrying {
                subject: subject@,
                attempt: *attempt,
            }),
            Event::RetryScheduled { subject, delay_ms } => (EventModel::RetryScheduled {
                subject: subject@,
                delay_ms: *delay_ms,
            }),
            Event::Failed { subject } => (EventModel::Failed { subject: subject@ }),
            Event::FailedHttp { subject, status } => (EventModel::FailedHttp {
                subject: subject@,
                status: *status,
            }),
            Event::Completed => EventModel::Completed,
            Event::Summarize => EventModel::Summarize,
        }
    }
}

impl DeepView for Event {
    type V = EventModel;

    open spec fn deep_view(&self) -> EventModel {
        self.view()
    }
}

/// The classes of events that the sink tells apart when counting.
pub enum EventClass {
    /// Matches `Started`.
    Starts,
    /// Matches `Completed`.
    Completes,
    /// Matches `Failed` and `FailedHttp`.
    Fails,
    /// Matches `Summarize`.
    Closes,
}

/// Whether `e` falls in class `c`.
pub open spec fn class_matches(c: EventClass, e: EventModel) -> bool {
    match c {
        EventClass::Starts => e is Started,
        EventClass::Completes => e is Completed,
        EventClass::Fails => e is Failed || e is FailedHttp,
        EventClass::Closes => e is Summarize,
    }
}

/// How many events of `s` fall in class `c`.
pub open spec fn count_class(s: Seq<EventModel>, c: EventClass) -> nat
    decreases s.len(),
{
    if s.len() == 0 {
        0
    } else {
        count_class(s.drop_last(), c) + if class_matches(c, s.last()) {
            1nat
        } else {
            0nat
        }
    }
}

/// The prefix of `s` strictly before its first `Summarize`: the events the
/// sink has processed into its counters when it closes (all of `s`, if no
/// `Summarize` arrives and the stream just ends).
pub open spec fn before_close(s: Seq<EventModel>) -> Seq<EventModel>
    decreases s.len(),
{
    if s.len() == 0 {
        s
    } else if s[0] is Summarize {
        Seq::empty()
    } else {
        seq![s[0]] + before_close(s.drop_first())
    }
}

/// A count never exceeds the length of the sequence counted.
pub proof fn lemma_count_class_le_len(s: Seq<EventModel>, c: EventClass)
    ensures
        count_class(s, c) <= s.len(),
    decreases s.len(),
{
    if s.len() > 0 {
        lemma_count_class_le_len(s.drop_last(), c);
    }
}

/// Counts add up over concatenation.
pub proof fn lemma_count_class_concat(a: Seq<EventModel>, b: Seq<EventModel>, c: EventClass)
    ensures
        count_class(a + b, c) == count_class(a, c) + count_class(b, c),
    decreases b.len(),
{
    if b.len() == 0 {
        assert(a + b =~= a);
    } else {
        lemma_count_class_concat(a, b.drop_last(), c);
        assert((a + b).drop_last() =~= a + b.drop_last());
        assert((a + b).last() == b.last());
    }
}

/// A count is a function of the multiset of events alone: it equals the
/// size of the class's slice of `s.to_multiset()`.
pub proof fn lemma_count_class_multiset(s: Seq<EventModel>, c: EventClass)
    ensures
        count_class(s, c) == s.to_multiset().filter(|e: EventModel| class_matches(c, e)).len(),
    decreases s.len(),
{
    broadcast use vstd::seq_lib::group_to_multiset_ensures;
    broadcast use vstd::multiset::group_multiset_axioms;

    let p = |e: EventModel| class_matches(c, e);
    if s.len() == 0 {
        assert(s.to_multiset().filter(p) =~= Multiset::<EventModel>::empty());
    } else {
        let d = s.drop_last();
        let a = s.last();
        lemma_count_class_multiset(d, c);
        assert(s =~= d.push(a));
        assert(s.to_multiset() =~= d.to_multiset().insert(a));
        if p(a) {
            assert(s.to_multiset().filter(p) =~= d.to_multiset().filter(p).insert(a));
        } else {
            assert(s.to_multiset().filter(p) =~= d.to_multiset().filter(p));
        }
    }
}

/// Counting is order-blind: two deliveries of the same events, however
/// interleaved, drive the sink's counters to the same values.  This is what
/// lets the accounting hold under concurrent fetches, where completion
/// order is not specified.
pub proof fn lemma_count_class_permutation(
    s1: Seq<EventModel>,
    s2: Seq<EventModel>,
    c: EventClass,
)
    requires
        s1.to_multiset() == s2.to_multiset(),
    ensures
        count_class(s1, c) == count_class(s2, c),
{
    lemma_count_class_multiset(s1, c);
    lemma_count_class_multiset(s2, c);
}

/// The final report: the counters as they stood when the sink closed.
#[derive(Clone, Copy, PartialEq, Eq, Structural, Debug)]
pub struct Summary {
    pub total: u64,
    pub completed: u64,
    pub failed: u64,
}

/// Whether `s` is the summary of the event sequence `evs`.
pub open spec fn is_summary_of(s: Summary, evs: Seq<EventModel>) -> bool {
    let seen = before_close(evs);
    &&& s.total == count_class(seen, EventClass::Starts)
    &&& s.completed == count_class(seen, EventClass::Completes)
    &&& s.failed == count_class(seen, EventClass::Fails)
}

/// The single consumer of the event stream.
///
/// All mutation of the counters happens through [`EventSink::observe`], one
/// event at a time, so the accumulated counts are exactly the class counts
/// of the events seen so far.  Under-accounting is not fatal: the sink
/// keeps receiving until `Summarize`, whatever the counters say.
pub struct EventSink {
    total: u64,
    completed: u64,
    failed: u64,
    closed: bool,
    seen: Ghost<Seq<EventModel>>,
}

impl EventSink {
    /// The events processed into the counters so far (`Summarize` itself is
    /// not among them).
    pub closed spec fn seen(self) -> Seq<EventModel> {
        self.seen@
    }

    /// Whether a `Summarize` has been observed.
    pub closed spec fn is_closed(self) -> bool {
        self.closed
    }

    /// The counters are exactly the class counts of the events seen.
    pub closed spec fn wf(self) -> bool {
        &&& self.total == count_class(self.seen@, EventClass::Starts)
        &&& self.completed == count_class(self.seen@, EventClass::Completes)
        &&& self.failed == count_class(self.seen@, EventClass::Fails)
        &&& count_class(self.seen@, EventClass::Closes) == 0
    }

    /// A fresh sink: nothing seen, nothing counted.
    pub fn new() -> (r: EventSink)
        ensures
            r.wf(),
            !r.is_closed(),
            r.seen() =~= Seq::<EventModel>::empty(),
    {
        EventSink { total: 0, completed: 0, failed: 0, closed: false, seen: Ghost(Seq::empty()) }
    }

    /// Feed one event into the counters.
    ///
    /// `Started`, `Completed`, `Failed` and `FailedHttp` each advance their
    /// counter by one; the warning events change nothing; `Summarize`
    /// closes the sink and leaves the counters as they stand.
    pub fn observe(&mut self, e: &Event)
        requires
            old(self).wf(),
            !old(self).is_closed(),
            old(self).seen().len() < u64::MAX,
        ensures
            final(self).wf(),
            final(self).is_closed() == (e@ is Summarize),
            e@ is Summarize ==> final(self).seen() == old(self).seen(),
            !(e@ is Summarize) ==> final(self).seen() == old(self).seen().push(e@),
    {
        proof {
            lemma_count_class_le_len(self.seen@, EventClass::Starts);
            lemma_count_class_le_len(self.seen@, EventClass::Completes);
            lemma_count_class_le_len(self.seen@, EventClass::Fails);
            if !(e@ is Summarize) {
                lemma_count_push(self.seen@, e@, EventClass::Starts);
                lemma_count_push(self.seen@, e@, EventClass::Completes);
                lemma_count_push(self.seen@, e@, EventClass::Fails);
                lemma_count_push(self.seen@, e@, EventClass::Closes);
            }
        }
        match e {
            Event::Started => {
                self.total = self.total + 1;
                proof {
                    self.seen@ = self.seen@.push(e@);
                }
            },
            Event::Completed => {
                self.completed = self.completed + 1;
                proof {
                    self.seen@ = self.seen@.push(e@);
                }
            },
            Event::Failed { .. } => {
                self.failed = self.failed + 1;
                proof {
                    self.seen@ = self.seen@.push(e@);
                }
            },
            Event::FailedHttp { .. } => {
                self.failed = self.failed + 1;
                proof {
                    self.seen@ = self.seen@.push(e@);
                }
            },
            Event::Retrying { .. } => {
                proof {
                    self.seen@ = self.seen@.push(e@);
                }
            },
            Event::RetryScheduled { .. } => {
                proof {
                    self.seen@ = self.seen@.push(e@);
                }
            },
            Event::Summarize => {
                self.closed = true;
            },
        }
    }

    /// The counters as they stand.
    pub fn report(&self) -> (r: Summary)
        requires
            self.wf(),
        ensures
            r.total == count_class(self.seen(), EventClass::Starts),
            r.completed == count_class(self.seen(), EventClass::Completes),
            r.failed == count_class(self.seen(), EventClass::Fails),
    {
        Summary { total: self.total, completed: self.completed, failed: self.failed }
    }
}

/// Pushing one event moves exactly the counts of the classes it matches.
proof fn lemma_count_push(s: Seq<EventModel>, e: EventModel, c: EventClass)
    ensures
        count_class(s.push(e), c) == count_class(s, c) + if class_matches(c, e) {
            1nat
        } else {
            0nat
        },
{
    assert(s.push(e).drop_last() =~= s);
    assert(s.push(e).last() == e);
}

/// Count and log: fold a whole event stream into its summary.
///
/// Processes events in order until the first `Summarize` (or the end of the
/// stream) and returns the counters at that point, exactly as the
/// long-running sink would after receiving the same events one by one.
pub fn track_events(events: &Vec<Event>) -> (r: Summary)
    ensures
        is_summary_of(r, events.deep_view()),
{
    let ghost evs = events.deep_view();
    let mut sink = EventSink::new();
    let mut i: usize = 0;
    proof {
        assert(evs.take(0) =~= Seq::<EventModel>::empty());
        assert(evs.skip(0) =~= evs);
        assert(evs.take(0) + before_close(evs) =~= before_close(evs));
    }
    while i < events.len() && !sink.closed
        invariant
            0 <= i <= events.len(),
            evs == events.deep_view(),
            evs.len() == events.len(),
            forall|j: int| 0 <= j < evs.len() ==> evs[j] == events[j]@,
            sink.wf(),
            sink.is_closed() ==> before_close(evs) == sink.seen(),
            !sink.is_closed() ==> sink.seen() == evs.take(i as int)
                && before_close(evs) == evs.take(i as int) + before_close(evs.skip(i as int)),
        decreases events.len() - i,
    {
        proof {
            lemma_count_class_le_len(sink.seen(), EventClass::Starts);
            assert(sink.seen().len() <= i < u64::MAX);
        }
        sink.observe(&events[i]);
        proof {
            if !(evs[i as int] is Summarize) {
                lemma_before_close_step(evs, i as int);
                assert(evs.take(i + 1 as int) =~= evs.take(i as int).push(evs[i as int]));
            } else {
                assert(before_close(evs) =~= evs.take(i as int)) by {
                    lemma_before_close_stops(evs, i as int);
                }
            }
        }
        i = i + 1;
    }
    proof {
        if !sink.is_closed() {
            assert(i == events.len());
            assert(evs.take(i as int) =~= evs);
            assert(evs.skip(i as int) =~= Seq::<EventModel>::empty());
            assert(before_close(evs) == evs + before_close(Seq::<EventModel>::empty()));
            assert(evs + Seq::<EventModel>::empty() =~= evs);
        }
    }
    sink.report()
}

/// Splitting at a non-`Summarize` head commutes with `before_close`.
proof fn lemma_before_close_step(s: Seq<EventModel>, i: int)
    requires
        0 <= i < s.len(),
        before_close(s) == s.take(i) + before_close(s.skip(i)),
        !(s[i] is Summarize),
    ensures
        before_close(s) == s.take(i + 1) + before_close(s.skip(i + 1)),
{
    let tail = s.skip(i);
    assert(tail[0] == s[i]);
    assert(tail.drop_first() =~= s.skip(i + 1));
    assert(before_close(tail) == seq![tail[0]] + before_close(tail.drop_first()));
    assert(s.take(i) + (seq![s[i]] + before_close(s.skip(i + 1))) =~= s.take(i + 1)
        + before_close(s.skip(i + 1)));
}

/// A `Summarize` at position `i` cuts `before_close` at exactly `i`.
proof fn lemma_before_close_stops(s: Seq<EventModel>, i: int)
    requires
        0 <= i < s.len(),
        before_close(s) == s.take(i) + before_close(s.skip(i)),
        s[i] is Summarize,
    ensures
        before_close(s) =~= s.take(i),
{
    let tail = s.skip(i);
    assert(tail[0] == s[i]);
    assert(before_close(tail) =~= Seq::<EventModel>::empty());
    assert(s.take(i) + Seq::<EventModel>::empty() =~= s.take(i));
}

} // verus!
