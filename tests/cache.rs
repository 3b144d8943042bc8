use std::sync::Arc;

use frame_cache::accounting::{get_cache_usage, set_max_cache_size, CacheAccounting};
use frame_cache::decoder::{
    drain_finished, CachedDecoder, Decoder, DecoderKey, FrameState, FrameWait, DECODE_CHUNK,
};
use frame_cache::ffmpeg::extract_frame_window_hw_rgba;
use frame_cache::frame::generate_empty_frame;
use frame_cache::future::SharedManualFuture;
use futures_util::FutureExt;
use manual_future::{ManualFuture, ManualFutureCompleter};

fn key(width: u32, height: u32) -> DecoderKey {
    DecoderKey {
        path: "clip.mp4".to_string(),
        width,
        height,
    }
}

fn notify(completers: Vec<ManualFutureCompleter<Arc<Vec<u8>>>>, value: Arc<Vec<u8>>) {
    let runtime = tokio::runtime::Builder::new_current_thread().build().unwrap();
    runtime.block_on(async move {
        for completer in completers {
            completer.complete(value.clone()).await;
        }
    });
}

fn awaited(wait: FrameWait) -> ManualFuture<Arc<Vec<u8>>> {
    match wait {
        FrameWait::Await(future) => future,
        FrameWait::Redecode => panic!("expected to wait on the frame's handle"),
    }
}

fn publish_window(
    decoder: &mut CachedDecoder,
    accounting: &mut CacheAccounting,
    window: Vec<(usize, Vec<u8>)>,
) -> Vec<Arc<Vec<u8>>> {
    let mut published = Vec::new();
    for (index, frame) in window {
        let (completers, value) = decoder.publish_frame(index, frame, accounting);
        notify(completers, value.clone());
        published.push(value);
    }
    published
}

fn frames(first: u8, count: usize, len: usize) -> Vec<Vec<u8>> {
    (0..count).map(|k| vec![first.wrapping_add(k as u8); len]).collect()
}

#[test]
fn cold_request_claims_a_full_window() {
    let mut accounting = CacheAccounting::new();
    let mut decoder = CachedDecoder::new(key(2, 2));
    let (window, wait) = decoder.begin_get_frame(42);
    assert_eq!(window, Some((42, 42 + DECODE_CHUNK - 1)));
    assert_eq!(window, Some((42, 161)));
    let future = awaited(wait);

    let decoded = extract_frame_window_hw_rgba(42, 2, 2, Ok(frames(0, 120, 16))).unwrap();
    assert_eq!(decoded.len(), 120);
    let published = publish_window(&mut decoder, &mut accounting, decoded);
    decoder.finish_window();

    let frame = future.now_or_never().expect("frame 42 is resolved");
    assert_eq!(frame.len(), 4 * 2 * 2);
    assert!(Arc::ptr_eq(&frame, &published[0]));
    decoder.deliver(42, &frame, &mut accounting);

    let (window, wait) = decoder.begin_get_frame(43);
    assert_eq!(window, None);
    assert_eq!(decoder.running_decode_tasks(), 0);
    let second = awaited(wait).now_or_never().expect("frame 43 is resolved");
    assert!(Arc::ptr_eq(&second, &published[1]));
}

#[test]
fn concurrent_requests_schedule_one_window() {
    let mut decoder = CachedDecoder::new(key(1, 1));
    let (first_window, first_wait) = decoder.begin_get_frame(10);
    let (second_window, second_wait) = decoder.begin_get_frame(10);
    assert_eq!(first_window, Some((10, 129)));
    assert_eq!(second_window, None);
    assert_eq!(decoder.running_decode_tasks(), 1);
    assert!(matches!(first_wait, FrameWait::Await(_)));
    assert!(matches!(second_wait, FrameWait::Redecode));
}

#[test]
fn waiters_on_one_handle_share_the_buffer() {
    let mut accounting = CacheAccounting::new();
    let mut decoder = CachedDecoder::new(key(1, 1));
    let first = decoder.subscribe(10);
    let second = decoder.subscribe(10);
    let (completers, value) = decoder.publish_frame(10, vec![7, 7, 7, 7], &mut accounting);
    assert_eq!(completers.len(), 2);
    notify(completers, value.clone());
    let a = first.now_or_never().unwrap();
    let b = second.now_or_never().unwrap();
    assert!(Arc::ptr_eq(&a, &b));
    assert!(Arc::ptr_eq(&a, &value));
}

#[test]
fn re_request_after_delivery_redecodes() {
    let mut accounting = CacheAccounting::new();
    let mut decoder = CachedDecoder::new(key(1, 1));
    let (_, wait) = decoder.begin_get_frame(5);
    let future = awaited(wait);
    publish_window(&mut decoder, &mut accounting, vec![(5, vec![5, 5, 5, 5])]);
    decoder.finish_window();
    let frame = future.now_or_never().unwrap();
    decoder.deliver(5, &frame, &mut accounting);
    assert!(!decoder.has_handle(5));
    assert_eq!(get_cache_usage(&accounting).0, 0);

    let (window, wait) = decoder.begin_get_frame(5);
    assert_eq!(window, None);
    assert!(matches!(wait, FrameWait::Redecode));
    assert_eq!(decoder.frame_state(5), FrameState::Waited);
}

#[test]
fn stall_falls_back_to_earlier_frame() {
    let mut accounting = CacheAccounting::new();
    let mut decoder = CachedDecoder::new(key(1, 1));
    let (window_101, wait_101) = decoder.begin_get_frame(101);
    assert_eq!(window_101, Some((101, 220)));
    let (window_100, _) = decoder.begin_get_frame(100);
    assert_eq!(window_100, Some((100, 100)));
    assert_eq!(decoder.running_decode_tasks(), 2);

    let empty = extract_frame_window_hw_rgba(100, 1, 1, Ok(vec![])).unwrap();
    publish_window(&mut decoder, &mut accounting, empty);
    decoder.finish_window();
    let failed = extract_frame_window_hw_rgba(101, 1, 1, Err("decode failed".to_string()));
    assert!(failed.is_err());
    decoder.finish_window();

    let mut future = awaited(wait_101);
    assert!((&mut future).now_or_never().is_none());
    let frame = decoder.on_wait_timeout(101).expect("no decode is running");
    assert_eq!(*frame, vec![255, 0, 0, 255]);
}

#[test]
fn timeout_keeps_waiting_while_decodes_run() {
    let mut decoder = CachedDecoder::new(key(1, 1));
    decoder.begin_get_frame(3);
    assert_eq!(decoder.on_wait_timeout(3), None);
}

#[test]
fn stall_without_earlier_frame_is_placeholder() {
    let decoder = CachedDecoder::new(key(3, 2));
    let frame = decoder.recover_stall(50);
    assert_eq!(*frame, generate_empty_frame(3, 2));
    assert_eq!(frame.len(), 4 * 3 * 2);
}

#[test]
fn stall_picks_nearest_earlier_frame() {
    let mut accounting = CacheAccounting::new();
    let mut decoder = CachedDecoder::new(key(1, 1));
    publish_window(
        &mut decoder,
        &mut accounting,
        vec![(2, vec![2, 2, 2, 2]), (6, vec![6, 6, 6, 6])],
    );
    decoder.subscribe(8);
    assert_eq!(*decoder.recover_stall(9), vec![6, 6, 6, 6]);
    assert_eq!(*decoder.recover_stall(6), vec![2, 2, 2, 2]);
}

#[test]
fn eviction_brings_usage_under_budget() {
    let mut accounting = CacheAccounting::new();
    set_max_cache_size(&mut accounting, 1024 * 1024);
    let mut decoder = CachedDecoder::new(key(800, 600));
    assert_eq!(decoder.claim_window(0), Some((0, 119)));
    assert_eq!(decoder.claim_window(120), Some((120, 239)));
    for index in 0..200usize {
        let (completers, _) = decoder.publish_frame(index, vec![0u8; 800 * 600 * 4], &mut accounting);
        assert!(completers.is_empty());
    }
    assert_eq!(get_cache_usage(&accounting).0, 200 * 1_920_000);

    decoder.collect_garbage(&mut accounting);
    let (current, max) = get_cache_usage(&accounting);
    assert!(current < max);
    assert_eq!(decoder.frame_state(199), FrameState::Dropped);
    assert_eq!(decoder.frame_state(198), FrameState::Dropped);
    assert!(!decoder.has_handle(199));
}

#[test]
fn eviction_spares_requested_frames_and_stops_early() {
    let mut accounting = CacheAccounting::new();
    set_max_cache_size(&mut accounting, 1024 * 1024);
    let mut decoder = CachedDecoder::new(key(256, 256));
    let frame_bytes = 256 * 256 * 4;
    for index in 0..6usize {
        decoder.publish_frame(index, vec![1u8; frame_bytes], &mut accounting);
    }
    decoder.begin_request(5);
    assert_eq!(get_cache_usage(&accounting).0, 6 * frame_bytes as u64);

    decoder.collect_garbage(&mut accounting);
    assert_eq!(decoder.frame_state(5), FrameState::Waited);
    assert!(decoder.has_handle(5));
    assert_eq!(decoder.frame_state(4), FrameState::Dropped);
    assert_eq!(decoder.frame_state(3), FrameState::Dropped);
    assert_eq!(decoder.frame_state(2), FrameState::Dropped);
    assert_eq!(decoder.frame_state(1), FrameState::Unseen);
    assert!(decoder.has_handle(1));
    assert_eq!(get_cache_usage(&accounting).0, 3 * frame_bytes as u64);
}

#[test]
fn sweep_under_budget_changes_nothing() {
    let mut accounting = CacheAccounting::new();
    let mut decoder = CachedDecoder::new(key(1, 1));
    decoder.publish_frame(4, vec![1, 2, 3, 4], &mut accounting);
    decoder.collect_garbage(&mut accounting);
    assert!(decoder.has_handle(4));
    assert_eq!(decoder.frame_state(4), FrameState::Unseen);
    assert_eq!(get_cache_usage(&accounting).0, 4);
}

#[test]
fn frame_zero_stays_after_delivery() {
    let mut accounting = CacheAccounting::new();
    let mut decoder = CachedDecoder::new(key(1, 1));
    let (_, wait) = decoder.begin_get_frame(0);
    let future = awaited(wait);
    publish_window(&mut decoder, &mut accounting, vec![(0, vec![9, 9, 9, 9])]);
    let frame = future.now_or_never().unwrap();
    decoder.deliver(0, &frame, &mut accounting);
    assert!(decoder.has_handle(0));
    assert_eq!(get_cache_usage(&accounting).0, 4);
    let again = decoder.subscribe(0).now_or_never().unwrap();
    assert!(Arc::ptr_eq(&frame, &again));
}

#[test]
fn later_window_stops_before_claimed_frames() {
    let mut decoder = CachedDecoder::new(key(1, 1));
    assert_eq!(decoder.claim_window(10), Some((10, 129)));
    assert_eq!(decoder.claim_window(5), Some((5, 9)));
    assert_eq!(decoder.claim_window(7), None);
    assert_eq!(decoder.claim_window(130), Some((130, 249)));
    assert_eq!(decoder.running_decode_tasks(), 3);
}

#[test]
fn window_at_the_last_index_is_short() {
    let mut decoder = CachedDecoder::new(key(1, 1));
    assert_eq!(decoder.claim_window(u32::MAX - 2), Some((u32::MAX - 2, u32::MAX)));
}

#[test]
fn publish_keeps_first_value_and_counts_it_once() {
    let mut accounting = CacheAccounting::new();
    let mut decoder = CachedDecoder::new(key(1, 1));
    let (_, first) = decoder.publish_frame(3, vec![1, 1, 1, 1], &mut accounting);
    let (completers, _) = decoder.publish_frame(3, vec![2, 2, 2, 2], &mut accounting);
    assert!(completers.is_empty());
    assert_eq!(get_cache_usage(&accounting).0, 4);
    let kept = decoder.subscribe(3).now_or_never().unwrap();
    assert!(Arc::ptr_eq(&kept, &first));
}

#[test]
fn publish_drops_index_beyond_u32() {
    let mut accounting = CacheAccounting::new();
    let mut decoder = CachedDecoder::new(key(1, 1));
    let (completers, _) =
        decoder.publish_frame(u32::MAX as usize + 1, vec![1, 1, 1, 1], &mut accounting);
    assert!(completers.is_empty());
    assert_eq!(get_cache_usage(&accounting).0, 0);
    assert!(!decoder.has_handle(0));
}

#[test]
fn handle_resolves_once() {
    let mut handle: SharedManualFuture<u32> = SharedManualFuture::new();
    assert!(!handle.is_completed());
    let pending = handle.get();
    let completers = handle.complete(Arc::new(1));
    assert_eq!(completers.len(), 1);
    let runtime = tokio::runtime::Builder::new_current_thread().build().unwrap();
    runtime.block_on(async move {
        for completer in completers {
            completer.complete(Arc::new(1)).await;
        }
    });
    assert_eq!(*pending.now_or_never().unwrap(), 1);
    assert!(handle.complete(Arc::new(2)).is_empty());
    assert_eq!(handle.get_now().map(|v| *v), Some(1));
    assert_eq!(*handle.get().now_or_never().unwrap(), 1);
}

#[test]
fn completed_handle_is_ready() {
    let mut handle = SharedManualFuture::new_completed(5u8);
    assert!(handle.is_completed());
    assert_eq!(*handle.get().now_or_never().unwrap(), 5);
}

#[test]
fn registry_creates_once_per_key() {
    let mut registry: Decoder<u32> = Decoder::new();
    assert!(registry.cached_decoder(key(4, 4), 1));
    assert!(!registry.cached_decoder(key(4, 4), 2));
    assert!(registry.cached_decoder(key(4, 5), 3));
    assert_eq!(registry.get(&key(4, 4)), Some(&1));
    assert_eq!(registry.get(&key(4, 5)), Some(&3));
    assert_eq!(registry.get(&key(5, 5)), None);
}

#[test]
fn clear_waits_for_running_window() {
    let mut accounting = CacheAccounting::new();
    let mut registry: Decoder<CachedDecoder> = Decoder::new();
    let mut decoder = CachedDecoder::new(key(1, 1));
    decoder.begin_get_frame(0);
    publish_window(&mut decoder, &mut accounting, vec![(0, vec![1, 1, 1, 1])]);
    registry.cached_decoder(key(1, 1), decoder);

    let mut cleared = registry.clear();
    assert_eq!(registry.get(&key(1, 1)).map(|_| ()), None);
    let running: Vec<usize> = cleared.iter().map(|d| d.running_decode_tasks()).collect();
    assert!(!drain_finished(&running));

    cleared[0].finish_window();
    let running: Vec<usize> = cleared.iter().map(|d| d.running_decode_tasks()).collect();
    assert!(drain_finished(&running));
    accounting.reset();
    assert_eq!(get_cache_usage(&accounting).0, 0);
}

#[test]
fn keys_compare_by_path_and_size() {
    assert_eq!(key(4, 4), key(4, 4));
    assert_ne!(key(4, 4), key(4, 5));
    let mut other = key(4, 4);
    other.path = "other.mp4".to_string();
    assert_ne!(key(4, 4), other);
}
