//! Unit tests of the smaller pieces: locator resolution, path building,
//! decimal formatting, the difference hash, the selection rule, the
//! bounded queue, the event sink and the seed draw.

use goopho::calc::{dhash_of_rows, dhash_values, make_dhash, make_thumbnail, CalcChoice,
    Calculation, SchedulerProxy};
use goopho::config::Config;
use goopho::events::{track_events, Event, Summary};
use goopho::queue::RequestQueue;
use goopho::request::{dest_path, partial_path, push_decimal, DownloadRequest, MediaKind};
use goopho::sched::draw_backoff_seed;
use goopho::select::{classify, select_from_records, CatalogRecord, Selection};

fn image_record(url: &[u8], name: &[u8], day: i64) -> CatalogRecord {
    CatalogRecord {
        base_url: Some(url.to_vec()),
        filename: Some(name.to_vec()),
        creation_day: Some(day),
        width: Some(800),
        height: Some(600),
        has_photo: true,
        has_video: false,
    }
}

#[test]
fn image_locator_gets_size_suffix() {
    let req = DownloadRequest {
        locator: b"http://h/a".to_vec(),
        destination_name: b"a.jpg".to_vec(),
        size_hint: Some((800, 600)),
        kind: MediaKind::Image,
        logical_timestamp: None,
    };
    assert_eq!(req.resolve_locator(), b"http://h/a=w800-h600".to_vec());
}

#[test]
fn image_locator_without_hint_gets_download_suffix() {
    let req = DownloadRequest {
        locator: b"http://h/a".to_vec(),
        destination_name: b"a.jpg".to_vec(),
        size_hint: None,
        kind: MediaKind::Image,
        logical_timestamp: None,
    };
    assert_eq!(req.resolve_locator(), b"http://h/a=d".to_vec());
}

#[test]
fn video_locator_gets_video_suffix() {
    let req = DownloadRequest {
        locator: b"http://h/v".to_vec(),
        destination_name: b"v.mp4".to_vec(),
        size_hint: Some((100, 100)),
        kind: MediaKind::Video,
        logical_timestamp: None,
    };
    assert_eq!(req.resolve_locator(), b"http://h/v=dv".to_vec());
}

#[test]
fn paths_are_joined_and_suffixed() {
    let dest = dest_path(&b"photos".to_vec(), &b"a.jpg".to_vec());
    assert_eq!(dest, b"photos/a.jpg".to_vec());
    assert_eq!(partial_path(&dest), b"photos/a.jpg.partial".to_vec());
}

#[test]
fn decimal_formatting_is_exact() {
    let mut out = Vec::new();
    push_decimal(&mut out, 0);
    assert_eq!(out, b"0".to_vec());
    let mut out = Vec::new();
    push_decimal(&mut out, 907);
    assert_eq!(out, b"907".to_vec());
    let mut out = b"x".to_vec();
    push_decimal(&mut out, 18446744073709551615);
    assert_eq!(out, b"x18446744073709551615".to_vec());
}

#[test]
fn dhash_of_flat_rows_is_zero() {
    let rows = vec![7u8; 72];
    assert_eq!(dhash_of_rows(&rows), 0);
}

#[test]
fn dhash_of_ascending_rows_is_all_ones() {
    let mut rows = Vec::new();
    for _ in 0..8 {
        for p in 0..9 {
            rows.push(p as u8);
        }
    }
    assert_eq!(dhash_of_rows(&rows), u64::MAX);
}

#[test]
fn dhash_sets_exactly_the_rising_bit() {
    // Only row 0 has one rising step, at its first pair: bit 0.
    let mut rows = vec![0u8; 72];
    rows[1] = 9;
    assert_eq!(dhash_of_rows(&rows), 1);
    // Same step in row 1 instead: bit 8.
    let mut rows = vec![0u8; 72];
    rows[10] = 9;
    assert_eq!(dhash_of_rows(&rows), 256);
}

#[test]
fn dhash_through_the_image_crate() {
    // A 9x8 grayscale image with strictly ascending rows: reduction is
    // the identity, so every neighbour comparison rises.
    let mut raw = Vec::new();
    for _ in 0..8 {
        for p in 0..9 {
            raw.push((p * 20) as u8);
        }
    }
    let buffer = image::GrayImage::from_raw(9, 8, raw).unwrap();
    let img = image::DynamicImage::ImageLuma8(buffer);
    assert_eq!(make_dhash(&img), Calculation::Dhash(u64::MAX));
    assert_eq!(make_thumbnail(&img), Calculation::Thumbnail);
}

#[test]
fn scheduler_proxy_runs_chosen_calculations() {
    let buffer = image::GrayImage::from_raw(2, 2, vec![1, 2, 3, 4]).unwrap();
    let img = image::DynamicImage::ImageLuma8(buffer);
    let proxy = SchedulerProxy::new(vec![CalcChoice::Dhash, CalcChoice::Thumbnail]);
    let done = proxy.schedule(&img);
    assert_eq!(done.len(), 2);
    assert!(matches!(done[0], Calculation::Dhash(_)));
    assert_eq!(done[1], Calculation::Thumbnail);
}

#[test]
fn dhash_values_keeps_hashes_and_drops_thumbnails() {
    let calcs = vec![Calculation::Dhash(5), Calculation::Thumbnail, Calculation::Dhash(7)];
    assert_eq!(dhash_values(&calcs), vec![5, 7]);
}

#[test]
fn classify_takes_images_and_videos() {
    let rec = image_record(b"http://h/a", b"a.jpg", 100);
    match classify(&rec, Some(50), Some(150)) {
        Selection::Selected(req) => {
            assert_eq!(req.locator, b"http://h/a".to_vec());
            assert_eq!(req.destination_name, b"a.jpg".to_vec());
            assert_eq!(req.size_hint, Some((800, 600)));
            assert_eq!(req.kind, MediaKind::Image);
            assert_eq!(req.logical_timestamp, Some(100));
        },
        _ => panic!("image record must be selected"),
    }
    let video = CatalogRecord {
        base_url: Some(b"http://h/v".to_vec()),
        filename: Some(b"v.mp4".to_vec()),
        creation_day: Some(100),
        width: None,
        height: None,
        has_photo: false,
        has_video: true,
    };
    match classify(&video, None, None) {
        Selection::Selected(req) => {
            assert_eq!(req.kind, MediaKind::Video);
            assert_eq!(req.size_hint, None);
        },
        _ => panic!("video record must be selected"),
    }
}

#[test]
fn classify_window_boundaries_are_inclusive() {
    let rec = image_record(b"u", b"n", 50);
    assert!(matches!(classify(&rec, Some(50), Some(50)), Selection::Selected(_)));
    assert!(matches!(
        classify(&rec, Some(51), None),
        Selection::SkippedWindow { stop_paging: true }
    ));
    assert!(matches!(
        classify(&rec, None, Some(49)),
        Selection::SkippedWindow { stop_paging: false }
    ));
}

#[test]
fn classify_refuses_incomplete_records() {
    let mut rec = image_record(b"u", b"n", 50);
    rec.base_url = None;
    assert!(matches!(classify(&rec, None, None), Selection::Unexpected));
    let mut rec = image_record(b"u", b"n", 50);
    rec.creation_day = None;
    assert!(matches!(classify(&rec, None, None), Selection::Unexpected));
    // Both photo and video metadata: not recognizably either.
    let mut rec = image_record(b"u", b"n", 50);
    rec.has_video = true;
    assert!(matches!(classify(&rec, None, None), Selection::Unexpected));
}

#[test]
fn old_record_ends_the_paging() {
    let records = vec![
        image_record(b"http://h/new", b"new.jpg", 100),
        image_record(b"http://h/old", b"old.jpg", 10),
    ];
    let (token, selection) =
        select_from_records(&records, Some(b"tok".to_vec()), Some(50), None);
    assert_eq!(token, None);
    assert_eq!(selection.len(), 1);
    assert_eq!(selection[0].destination_name, b"new.jpg".to_vec());

    let (token, selection) =
        select_from_records(&records, Some(b"tok".to_vec()), None, None);
    assert_eq!(token, Some(b"tok".to_vec()));
    assert_eq!(selection.len(), 2);
}

#[test]
fn queue_is_fifo_bounded_and_drains_after_close() {
    let mut q = RequestQueue::new(2);
    let mk = |name: &[u8]| DownloadRequest {
        locator: b"u".to_vec(),
        destination_name: name.to_vec(),
        size_hint: None,
        kind: MediaKind::Image,
        logical_timestamp: None,
    };
    assert!(q.try_enqueue(mk(b"one")).is_ok());
    assert!(q.try_enqueue(mk(b"two")).is_ok());
    // Full: the third is refused and handed back -- the backpressure.
    let refused = q.try_enqueue(mk(b"three"));
    assert_eq!(refused.unwrap_err().destination_name, b"three".to_vec());
    q.close();
    // Closed but not drained: items still come out, in FIFO order.
    assert_eq!(q.dequeue().unwrap().destination_name, b"one".to_vec());
    assert_eq!(q.dequeue().unwrap().destination_name, b"two".to_vec());
    // Drained and closed: end of stream.
    assert!(q.dequeue().is_none());
}

#[test]
fn sink_counts_by_class_until_summarize() {
    let events = vec![
        Event::Started,
        Event::Started,
        Event::Started,
        Event::RetryScheduled { subject: b"u".to_vec(), delay_ms: 3000 },
        Event::Retrying { subject: b"p".to_vec(), attempt: 20 },
        Event::FailedHttp { subject: b"p1".to_vec(), status: 404 },
        Event::Failed { subject: b"p2".to_vec() },
        Event::Completed,
        Event::Summarize,
        Event::Started,
    ];
    assert_eq!(track_events(&events), Summary { total: 3, completed: 1, failed: 2 });
}

#[test]
fn sink_without_summarize_counts_everything() {
    let events = vec![Event::Started, Event::Completed];
    assert_eq!(track_events(&events), Summary { total: 1, completed: 1, failed: 0 });
}

#[test]
fn default_config_is_well_formed() {
    let cfg = Config::default();
    assert!(cfg.check());
    assert_eq!(cfg.connect_timeout_ms, 3000);
    assert_eq!(cfg.chunk_timeout_ms, 5000);
    assert_eq!(cfg.stall_warn_every, 20);
    assert_eq!(cfg.stall_abandon_every, 60);
    assert_eq!(cfg.queue_capacity, 10);
}

#[test]
fn backoff_seed_lands_in_the_configured_range() {
    let cfg = Config::default();
    for _ in 0..100 {
        let seed = draw_backoff_seed(&cfg);
        assert!(cfg.backoff_seed_min <= seed && seed < cfg.backoff_seed_max);
    }
}
