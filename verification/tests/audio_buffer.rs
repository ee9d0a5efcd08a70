use improve::audio_buffer::{
    copy_range, AudioBuffer, BufferOptions, Policy, DEFAULT_RESOLUTION, MAX_RESOLUTION,
    MIN_RESOLUTION,
};

fn ramp(from: usize, to: usize) -> Vec<f32> {
    (from..to).map(|i| i as f32).collect()
}

fn options(resolution: usize, discard: bool, overlap: bool) -> BufferOptions {
    BufferOptions::new(resolution, discard, overlap).unwrap()
}

#[test]
fn default_options_are_strict_with_default_resolution() {
    let o = BufferOptions::default();
    assert_eq!(o.resolution, DEFAULT_RESOLUTION);
    assert_eq!(o.resolution, 8192);
    assert!(!o.discard);
    assert!(!o.overlap);
    assert!(o.is_valid());
    assert_eq!(o.policy(), Policy::Strict);
}

#[test]
fn resolution_range_is_enforced() {
    assert!(BufferOptions::new(MIN_RESOLUTION - 1, false, false).is_none());
    assert!(BufferOptions::new(MIN_RESOLUTION, false, false).is_some());
    assert!(BufferOptions::new(MAX_RESOLUTION, true, true).is_some());
    assert!(BufferOptions::new(MAX_RESOLUTION + 1, false, false).is_none());
    assert!(BufferOptions::new(0, false, false).is_none());
    let bad = BufferOptions { resolution: 31, discard: false, overlap: false };
    assert!(!bad.is_valid());
    let good = BufferOptions { resolution: 1_048_576, discard: false, overlap: false };
    assert!(good.is_valid());
}

#[test]
fn flags_select_the_policy() {
    assert_eq!(options(32, false, false).policy(), Policy::Strict);
    assert_eq!(options(32, true, false).policy(), Policy::Discard);
    assert_eq!(options(32, false, true).policy(), Policy::Overlap);
    assert_eq!(options(32, true, true).policy(), Policy::Both);
    assert!(Policy::Discard.discards() && !Policy::Discard.overlaps());
    assert!(!Policy::Overlap.discards() && Policy::Overlap.overlaps());
    assert!(Policy::Both.discards() && Policy::Both.overlaps());
    assert!(!Policy::Strict.discards() && !Policy::Strict.overlaps());
}

#[test]
fn copy_range_copies_the_slice() {
    let v = ramp(0, 10);
    assert_eq!(copy_range(&v, 3, 7), vec![3.0, 4.0, 5.0, 6.0]);
    assert_eq!(copy_range(&v, 4, 4), Vec::<f32>::new());
    assert_eq!(copy_range(&v, 0, 10), v);
}

#[test]
fn new_buffer_is_empty_and_waits() {
    let mut b: AudioBuffer<f32> = AudioBuffer::new(options(32, false, false));
    assert_eq!(b.backlog(), 0);
    assert!(!b.is_ready());
    assert!(b.next_window().is_none());
    assert_eq!(b.options(), options(32, false, false));
}

#[test]
fn strict_segmentation_rebuilds_the_stream() {
    let n = 5;
    let res = 32;
    let stream = ramp(0, n * res);
    let mut b: AudioBuffer<f32> = AudioBuffer::new(options(res, false, false));
    let mut windows: Vec<Vec<f32>> = Vec::new();
    let sizes = [1usize, 7, 0, 33, 64, 2, 31, 22];
    assert_eq!(sizes.iter().sum::<usize>(), n * res);
    let mut at = 0;
    for size in sizes {
        b.push(stream[at..at + size].to_vec());
        at += size;
        while let Some(w) = b.next_window() {
            assert_eq!(w.samples.len(), res);
            assert_eq!(w.reused, 0);
            assert_eq!(w.discarded, 0);
            assert_eq!(w.skipped, 0);
            windows.push(w.samples);
        }
    }
    assert_eq!(windows.len(), n);
    assert_eq!(b.backlog(), 0);
    for (i, w) in windows.iter().enumerate() {
        assert_eq!(w[..], stream[i * res..(i + 1) * res]);
    }
    assert_eq!(windows.concat(), stream);
}

#[test]
fn strict_keeps_the_backlog_in_order() {
    let mut b: AudioBuffer<f32> = AudioBuffer::new(options(32, false, false));
    b.push(ramp(0, 100));
    assert_eq!(b.backlog(), 100);
    assert!(b.is_ready());
    let w = b.next_window().unwrap();
    assert_eq!(w.samples, ramp(0, 32));
    assert_eq!(b.backlog(), 68);
    assert_eq!(b.next_window().unwrap().samples, ramp(32, 64));
    assert_eq!(b.next_window().unwrap().samples, ramp(64, 96));
    assert!(b.next_window().is_none());
    assert_eq!(b.backlog(), 4);
    b.push(ramp(100, 128));
    assert_eq!(b.next_window().unwrap().samples, ramp(96, 128));
}

#[test]
fn strict_waits_below_one_window() {
    let mut b: AudioBuffer<f32> = AudioBuffer::new(options(32, false, false));
    b.push(ramp(0, 31));
    assert!(!b.is_ready());
    assert!(b.next_window().is_none());
    assert_eq!(b.backlog(), 31);
    b.push(ramp(31, 32));
    assert!(b.is_ready());
    assert_eq!(b.next_window().unwrap().samples, ramp(0, 32));
}

#[test]
fn discard_keeps_only_the_newest_window() {
    let mut b: AudioBuffer<f32> = AudioBuffer::new(options(32, true, false));
    b.push(ramp(0, 1000));
    let w = b.next_window().unwrap();
    assert_eq!(w.samples, ramp(968, 1000));
    assert_eq!(w.discarded, 968);
    assert_eq!(w.skipped, 30);
    assert_eq!(w.reused, 0);
    assert_eq!(b.backlog(), 0);
    assert!(b.next_window().is_none());
}

#[test]
fn discard_with_exactly_one_window_drops_nothing() {
    let mut b: AudioBuffer<f32> = AudioBuffer::new(options(32, true, false));
    b.push(ramp(0, 32));
    let w = b.next_window().unwrap();
    assert_eq!(w.samples, ramp(0, 32));
    assert_eq!(w.discarded, 0);
    assert_eq!(w.skipped, 0);
}

#[test]
fn discard_counts_whole_windows_only() {
    let mut b: AudioBuffer<f32> = AudioBuffer::new(options(32, true, false));
    b.push(ramp(0, 63));
    let w = b.next_window().unwrap();
    assert_eq!(w.samples, ramp(31, 63));
    assert_eq!(w.discarded, 31);
    assert_eq!(w.skipped, 0);
    b.push(ramp(63, 127));
    let w = b.next_window().unwrap();
    assert_eq!(w.samples, ramp(95, 127));
    assert_eq!(w.discarded, 32);
    assert_eq!(w.skipped, 1);
}

#[test]
fn discard_bounds_the_backlog_after_every_request() {
    let mut b: AudioBuffer<f32> = AudioBuffer::new(options(32, true, false));
    for burst in [5usize, 4000, 31, 33, 0, 100_000] {
        b.push(ramp(0, burst));
        let _ = b.next_window();
        assert!(b.backlog() < 32);
    }
}

#[test]
fn overlap_waits_for_the_first_window() {
    let mut b: AudioBuffer<f32> = AudioBuffer::new(options(32, false, true));
    b.push(ramp(0, 10));
    assert!(!b.is_ready());
    assert!(b.next_window().is_none());
    assert_eq!(b.backlog(), 10);
}

#[test]
fn overlap_reuses_the_tail_of_the_previous_window() {
    let mut b: AudioBuffer<f32> = AudioBuffer::new(options(32, false, true));
    b.push(ramp(0, 32));
    let first = b.next_window().unwrap();
    assert_eq!(first.samples, ramp(0, 32));
    assert_eq!(first.reused, 0);
    b.push(ramp(32, 42));
    assert!(b.is_ready());
    let second = b.next_window().unwrap();
    assert_eq!(second.reused, 22);
    assert_eq!(second.discarded, 0);
    assert_eq!(second.skipped, 0);
    assert_eq!(second.samples.len(), 32);
    assert_eq!(second.samples[..22], first.samples[10..]);
    assert_eq!(second.samples[22..], ramp(32, 42)[..]);
    assert_eq!(second.samples, ramp(10, 42));
    assert_eq!(b.backlog(), 0);
}

#[test]
fn overlap_without_new_samples_repeats_the_window() {
    let mut b: AudioBuffer<f32> = AudioBuffer::new(options(32, false, true));
    b.push(ramp(0, 32));
    let first = b.next_window().unwrap();
    assert!(b.is_ready());
    let again = b.next_window().unwrap();
    assert_eq!(again.samples, first.samples);
    assert_eq!(again.reused, 32);
}

#[test]
fn overlap_chains_over_several_windows() {
    let mut b: AudioBuffer<f32> = AudioBuffer::new(options(32, false, true));
    b.push(ramp(0, 32));
    let _ = b.next_window().unwrap();
    b.push(ramp(32, 40));
    assert_eq!(b.next_window().unwrap().samples, ramp(8, 40));
    b.push(ramp(40, 41));
    let w = b.next_window().unwrap();
    assert_eq!(w.samples, ramp(9, 41));
    assert_eq!(w.reused, 31);
}

#[test]
fn overlap_with_a_full_window_is_strict() {
    let mut b: AudioBuffer<f32> = AudioBuffer::new(options(32, false, true));
    b.push(ramp(0, 80));
    let w = b.next_window().unwrap();
    assert_eq!(w.samples, ramp(0, 32));
    assert_eq!(w.reused, 0);
    assert_eq!(b.backlog(), 48);
    assert_eq!(b.next_window().unwrap().samples, ramp(32, 64));
    let w = b.next_window().unwrap();
    assert_eq!(w.samples, ramp(48, 80));
    assert_eq!(w.reused, 16);
    assert_eq!(b.backlog(), 0);
}

#[test]
fn both_flags_discard_when_fast_and_reuse_when_slow() {
    let mut b: AudioBuffer<f32> = AudioBuffer::new(options(32, true, true));
    b.push(ramp(0, 100));
    let w = b.next_window().unwrap();
    assert_eq!(w.samples, ramp(68, 100));
    assert_eq!(w.discarded, 68);
    assert_eq!(w.skipped, 2);
    assert_eq!(b.backlog(), 0);
    b.push(ramp(100, 104));
    let w = b.next_window().unwrap();
    assert_eq!(w.samples, ramp(72, 104));
    assert_eq!(w.reused, 28);
    assert_eq!(w.discarded, 0);
}

#[test]
fn push_of_an_empty_chunk_changes_nothing() {
    let mut b: AudioBuffer<f32> = AudioBuffer::new(options(32, false, false));
    b.push(ramp(0, 5));
    b.push(Vec::new());
    assert_eq!(b.backlog(), 5);
}
