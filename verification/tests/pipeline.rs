//! End-to-end scenarios of the download pipeline model: fault-free runs,
//! redirects, retry backoff, failure statuses, stalls, dry runs and the
//! bounded pool.

use goopho::config::Config;
use goopho::events::{track_events, Event, Summary};
use goopho::fetch::{run_item, FetchState, Outcome, TransportEvent};
use goopho::request::{DownloadRequest, MediaKind};
use goopho::queue::RequestQueue;
use goopho::sched::{PoolState, Scheduler};

fn test_config() -> Config {
    Config::default()
}

fn image_request(url: &[u8], name: &[u8], w: u64, h: u64) -> DownloadRequest {
    DownloadRequest {
        locator: url.to_vec(),
        destination_name: name.to_vec(),
        size_hint: Some((w, h)),
        kind: MediaKind::Image,
        logical_timestamp: Some(19000),
    }
}

fn clean_script(chunks: &[&[u8]]) -> Vec<TransportEvent> {
    let mut script = vec![TransportEvent::Connected { status: 200, location: None }];
    for c in chunks {
        script.push(TransportEvent::Chunk { data: c.to_vec() });
    }
    script.push(TransportEvent::BodyEnd);
    script
}

#[test]
fn fault_free_batch_reports_all_completed() {
    let cfg = test_config();
    let sched = Scheduler::new(cfg, b"photos".to_vec());
    let requests = vec![
        image_request(b"http://h/a", b"a.jpg", 4, 3),
        image_request(b"http://h/b", b"b.jpg", 2, 2),
        image_request(b"http://h/c", b"c.jpg", 1, 1),
    ];
    let scripts = vec![
        clean_script(&[b"aa", b"a2"]),
        clean_script(&[b"bb"]),
        clean_script(&[]),
    ];
    let seeds = vec![3000, 3500, 4000];
    let mut run = sched.run_scripted(requests, scripts, seeds);

    assert_eq!(run.records.len(), 0);
    assert_eq!(run.files.len(), 3);
    assert_eq!(run.files[0].delivered, Some(b"aaa2".to_vec()));
    assert_eq!(run.files[0].partial, None);
    assert_eq!(run.files[1].delivered, Some(b"bb".to_vec()));
    assert_eq!(run.files[2].delivered, Some(b"".to_vec()));

    run.events.push(Event::Summarize);
    let summary = track_events(&run.events);
    assert_eq!(summary, Summary { total: 3, completed: 3, failed: 0 });
}

#[test]
fn interleaved_delivery_counts_the_same() {
    // The same events as two fault-free items, delivered in a different
    // order, drive the sink to the same summary.
    let events = vec![
        Event::Started,
        Event::Started,
        Event::Completed,
        Event::Completed,
        Event::Summarize,
    ];
    let swapped = vec![
        Event::Started,
        Event::Completed,
        Event::Started,
        Event::Completed,
        Event::Summarize,
    ];
    assert_eq!(track_events(&events), track_events(&swapped));
    assert_eq!(track_events(&events), Summary { total: 2, completed: 2, failed: 0 });
}

#[test]
fn redirect_once_completes_once() {
    let cfg = test_config();
    let sched = Scheduler::new(cfg, b"photos".to_vec());
    let req = image_request(b"http://h/a", b"a.jpg", 4, 3);
    let st = sched.prepare(&req, 3000);
    let script = vec![
        TransportEvent::Connected { status: 302, location: Some(b"http://cdn/a".to_vec()) },
        TransportEvent::Connected { status: 200, location: None },
        TransportEvent::Chunk { data: b"payload".to_vec() },
        TransportEvent::BodyEnd,
    ];
    let run = run_item(&cfg, st, script);
    assert_eq!(run.events, vec![Event::Completed]);
    assert!(matches!(run.state, FetchState::Finished { outcome: Outcome::Delivered }));
    assert_eq!(run.fs.delivered, Some(b"payload".to_vec()));
    assert_eq!(run.fs.partial, None);
    assert_eq!(run.consumed, 4);
}

#[test]
fn redirect_without_location_fails() {
    let cfg = test_config();
    let sched = Scheduler::new(cfg, b"photos".to_vec());
    let req = image_request(b"http://h/a", b"a.jpg", 4, 3);
    let st = sched.prepare(&req, 3000);
    let script = vec![TransportEvent::Connected { status: 302, location: None }];
    let run = run_item(&cfg, st, script);
    assert_eq!(run.events, vec![Event::Failed { subject: b"photos/a.jpg".to_vec() }]);
    assert!(matches!(run.state, FetchState::Finished { outcome: Outcome::NoLocation }));
    assert_eq!(run.fs.partial, None);
    assert_eq!(run.fs.delivered, None);
}

#[test]
fn connect_retry_backoff_doubles() {
    let cfg = test_config();
    let sched = Scheduler::new(cfg, b"photos".to_vec());
    let req = image_request(b"http://h/a", b"a.jpg", 4, 3);
    let st = sched.prepare(&req, 3100);
    let script = vec![
        TransportEvent::ConnectTimedOut,
        TransportEvent::ConnectTimedOut,
        TransportEvent::ConnectTimedOut,
    ];
    let run = run_item(&cfg, st, script);
    let locator = b"http://h/a=w4-h3".to_vec();
    assert_eq!(
        run.events,
        vec![
            Event::RetryScheduled { subject: locator.clone(), delay_ms: 3100 },
            Event::RetryScheduled { subject: locator.clone(), delay_ms: 6200 },
            Event::RetryScheduled { subject: locator, delay_ms: 12400 },
        ]
    );
    assert!(matches!(run.state, FetchState::Connecting { .. }));
    assert_eq!(run.fs.partial, None);
    assert_eq!(run.fs.delivered, None);
}

#[test]
fn connect_attempt_cap_gives_up() {
    let cfg = test_config();
    let sched = Scheduler::new(cfg, b"photos".to_vec());
    let req = image_request(b"http://h/a", b"a.jpg", 4, 3);
    let st = sched.prepare(&req, 3000);
    let attempts = cfg.max_connect_attempts as usize;
    let mut script = Vec::new();
    for _ in 0..attempts {
        script.push(TransportEvent::ConnectTimedOut);
    }
    let run = run_item(&cfg, st, script);
    assert_eq!(run.events.len(), attempts);
    assert_eq!(
        run.events[attempts - 1],
        Event::Failed { subject: b"photos/a.jpg".to_vec() }
    );
    assert!(matches!(run.state, FetchState::Finished { outcome: Outcome::ConnectGivenUp }));
}

#[test]
fn http_error_fails_once_and_leaves_no_partial() {
    let cfg = test_config();
    let sched = Scheduler::new(cfg, b"photos".to_vec());
    let req = image_request(b"http://h/a", b"a.jpg", 4, 3);
    let st = sched.prepare(&req, 3000);
    let script = vec![TransportEvent::Connected { status: 404, location: None }];
    let run = run_item(&cfg, st, script);
    assert_eq!(
        run.events,
        vec![Event::FailedHttp { subject: b"photos/a.jpg".to_vec(), status: 404 }]
    );
    assert!(matches!(
        run.state,
        FetchState::Finished { outcome: Outcome::HttpRejected { status: 404 } }
    ));
    assert_eq!(run.fs.partial, None);
    assert_eq!(run.fs.delivered, None);
    assert_eq!(run.consumed, 1);
}

#[test]
fn stalls_below_threshold_still_complete() {
    let cfg = test_config();
    let sched = Scheduler::new(cfg, b"photos".to_vec());
    let req = image_request(b"http://h/a", b"a.jpg", 4, 3);
    let st = sched.prepare(&req, 3000);
    let stalls = (cfg.stall_abandon_every - 1) as usize;
    let mut script = vec![TransportEvent::Connected { status: 200, location: None }];
    for _ in 0..stalls {
        script.push(TransportEvent::ChunkTimedOut);
    }
    script.push(TransportEvent::Chunk { data: b"the bytes".to_vec() });
    script.push(TransportEvent::BodyEnd);
    let run = run_item(&cfg, st, script);
    let partial = b"photos/a.jpg.partial".to_vec();
    assert_eq!(
        run.events,
        vec![
            Event::Retrying { subject: partial.clone(), attempt: 20 },
            Event::Retrying { subject: partial, attempt: 40 },
            Event::Completed,
        ]
    );
    assert!(matches!(run.state, FetchState::Finished { outcome: Outcome::Delivered }));
    assert_eq!(run.fs.delivered, Some(b"the bytes".to_vec()));
    assert_eq!(run.fs.partial, None);
}

#[test]
fn stall_threshold_abandons_and_leaves_partial() {
    let cfg = test_config();
    let sched = Scheduler::new(cfg, b"photos".to_vec());
    let req = image_request(b"http://h/a", b"a.jpg", 4, 3);
    let st = sched.prepare(&req, 3000);
    let stalls = cfg.stall_abandon_every as usize;
    let mut script = vec![TransportEvent::Connected { status: 200, location: None }];
    script.push(TransportEvent::Chunk { data: b"partial bytes".to_vec() });
    for _ in 0..stalls {
        script.push(TransportEvent::ChunkTimedOut);
    }
    let run = run_item(&cfg, st, script);
    let partial = b"photos/a.jpg.partial".to_vec();
    assert_eq!(
        run.events,
        vec![
            Event::Retrying { subject: partial.clone(), attempt: 20 },
            Event::Retrying { subject: partial.clone(), attempt: 40 },
            Event::Failed { subject: partial },
        ]
    );
    assert!(matches!(run.state, FetchState::Finished { outcome: Outcome::StalledOut }));
    assert_eq!(run.fs.partial, Some(b"partial bytes".to_vec()));
    assert_eq!(run.fs.delivered, None);
}

#[test]
fn dry_run_touches_nothing() {
    let mut cfg = test_config();
    cfg.dry_run = true;
    let sched = Scheduler::new(cfg, b"photos".to_vec());
    let requests = vec![
        image_request(b"http://h/a", b"a.jpg", 4, 3),
        image_request(b"http://h/b", b"b.jpg", 2, 2),
    ];
    // A transport that would fail the test if consulted: consumption must
    // stay at zero for every item.
    let scripts = vec![
        vec![TransportEvent::Connected { status: 500, location: None }],
        vec![TransportEvent::Connected { status: 500, location: None }],
    ];
    let seeds = vec![3000, 3000];
    let mut run = sched.run_scripted(requests, scripts, seeds);
    assert_eq!(run.consumed, vec![0, 0]);
    assert_eq!(run.events.len(), 0);
    assert_eq!(run.records, vec![b"photos/a.jpg".to_vec(), b"photos/b.jpg".to_vec()]);
    for fs in &run.files {
        assert_eq!(fs.partial, None);
        assert_eq!(fs.delivered, None);
    }
    run.events.push(Event::Summarize);
    let summary = track_events(&run.events);
    assert_eq!(summary, Summary { total: 0, completed: 0, failed: 0 });
}

#[test]
fn mixed_outcomes_balance_the_accounting() {
    let cfg = test_config();
    let sched = Scheduler::new(cfg, b"photos".to_vec());
    let requests = vec![
        image_request(b"http://h/a", b"a.jpg", 4, 3),
        image_request(b"http://h/b", b"b.jpg", 2, 2),
    ];
    let scripts = vec![
        clean_script(&[b"good"]),
        vec![TransportEvent::Connected { status: 404, location: None }],
    ];
    let seeds = vec![3000, 3000];
    let mut run = sched.run_scripted(requests, scripts, seeds);
    run.events.push(Event::Summarize);
    let summary = track_events(&run.events);
    assert_eq!(summary, Summary { total: 2, completed: 1, failed: 1 });
    assert_eq!(summary.total, summary.completed + summary.failed);
}

#[test]
fn drain_empties_the_closed_queue_in_order() {
    let cfg = test_config();
    let sched = Scheduler::new(cfg, b"photos".to_vec());
    let mut q = RequestQueue::new(4);
    assert!(q.try_enqueue(image_request(b"u1", b"one", 1, 1)).is_ok());
    assert!(q.try_enqueue(image_request(b"u2", b"two", 1, 1)).is_ok());
    assert!(q.try_enqueue(image_request(b"u3", b"three", 1, 1)).is_ok());
    q.close();
    let drained = sched.drain(&mut q);
    assert_eq!(drained.len(), 3);
    assert_eq!(drained[0].destination_name, b"one".to_vec());
    assert_eq!(drained[1].destination_name, b"two".to_vec());
    assert_eq!(drained[2].destination_name, b"three".to_vec());
    assert_eq!(q.len(), 0);
    assert!(q.dequeue().is_none());
}

#[test]
fn bounded_pool_never_exceeds_cap() {
    let requests: Vec<DownloadRequest> = (0u8..5)
        .map(|i| image_request(b"http://h/x", &[b'f', b'0' + i], 1, 1))
        .collect();
    let mut pool = PoolState::new(2, requests);
    let mut started = 0;
    let mut peak = 0;
    // Start-next-as-soon-as-a-slot-frees, one completion at a time.
    while !pool.is_idle() {
        while pool.wants_start() {
            let _req = pool.start_next();
            started += 1;
            assert!(pool.in_flight_now() <= pool.cap_now());
            if pool.in_flight_now() > peak {
                peak = pool.in_flight_now();
            }
        }
        pool.finish_one();
    }
    assert_eq!(started, 5);
    assert_eq!(pool.done_now(), 5);
    assert_eq!(pool.pending_now(), 0);
    assert_eq!(peak, 2);
}
