use diseq::ring::{
    clip_to, first_consistent, silence_destination, silence_planes, Bounds, Ring, RingError,
    Snapshot, TimeBounds,
};

const CAPACITY: usize = 64;

fn new_ring(channels: usize) -> Ring<f32> {
    Ring::new(channels, CAPACITY, 0.0)
}

fn ramp(start: usize, count: usize) -> Vec<f32> {
    (0..count).map(|index| (start + index) as f32).collect()
}

/// Writes `count` frames of a per-channel ramp at `at`.
fn write_ramp(ring: &mut Ring<f32>, at: i64, count: usize) -> Vec<Vec<f32>> {
    let planes: Vec<Vec<f32>> = (0..ring.channels())
        .map(|channel| {
            ramp(at as usize, count)
                .iter()
                .map(|sample| sample + channel as f32 * 1000.0)
                .collect()
        })
        .collect();
    let borrowed: Vec<&[f32]> = planes.iter().map(|plane| plane.as_slice()).collect();
    ring.write(&borrowed, at, at + count as i64).expect("write");
    planes
}

fn read_back(ring: &Ring<f32>, from: i64, count: usize) -> Result<Vec<Vec<f32>>, RingError> {
    let mut planes: Vec<Vec<f32>> = vec![vec![f32::NAN; count]; ring.channels()];
    {
        let mut borrowed: Vec<&mut [f32]> = planes
            .iter_mut()
            .map(|plane| plane.as_mut_slice())
            .collect();
        ring.read(&mut borrowed, from, from + count as i64)?;
    }
    Ok(planes)
}

#[test]
fn what_goes_in_comes_out() {
    let mut ring = new_ring(2);
    let written = write_ramp(&mut ring, 0, 16);
    assert_eq!(read_back(&ring, 0, 16).unwrap(), written);
}

#[test]
fn channels_stay_separate() {
    let mut ring = new_ring(2);
    write_ramp(&mut ring, 0, 8);
    let read = read_back(&ring, 0, 8).unwrap();
    assert_eq!(read[0][0], 0.0);
    assert_eq!(read[1][0], 1000.0);
}

#[test]
fn reading_before_anything_is_written_is_silent() {
    let ring = new_ring(2);
    let read = read_back(&ring, 0, 8).unwrap();
    assert!(read.iter().all(|plane| plane.iter().all(|s| *s == 0.0)));
}

#[test]
fn writes_wrap_the_buffer() {
    let mut ring = new_ring(1);
    // Straddle the wrap: the last write starts before the end and finishes past
    // it.
    write_ramp(&mut ring, 0, CAPACITY - 8);
    let across = write_ramp(&mut ring, (CAPACITY - 8) as i64, 16);
    assert_eq!(
        read_back(&ring, (CAPACITY - 8) as i64, 16).unwrap(),
        across,
        "frames written across the wrap did not come back"
    );
}

#[test]
fn frames_older_than_the_buffer_read_as_silence() {
    let mut ring = new_ring(1);
    write_ramp(&mut ring, 0, CAPACITY);
    // Overwrite the first half; sample time 0 is now gone.
    write_ramp(&mut ring, CAPACITY as i64, CAPACITY / 2);

    let read = read_back(&ring, 0, 8).unwrap();
    assert!(
        read[0].iter().all(|sample| *sample == 0.0),
        "expected silence for evicted frames, got {:?}",
        read[0]
    );
}

#[test]
fn a_request_straddling_the_start_is_silent_only_where_it_has_to_be() {
    let mut ring = new_ring(1);
    write_ramp(&mut ring, 100, 16);

    // Ask for eight frames before the write and eight inside it.
    let read = read_back(&ring, 92, 16).unwrap();
    assert!(
        read[0][..8].iter().all(|sample| *sample == 0.0),
        "frames before the written range should be silent, got {:?}",
        &read[0][..8]
    );
    assert_eq!(&read[0][8..], &ramp(100, 8)[..]);
}

#[test]
fn a_request_past_the_end_is_silent_only_where_it_has_to_be() {
    let mut ring = new_ring(1);
    write_ramp(&mut ring, 0, 8);

    let read = read_back(&ring, 0, 16).unwrap();
    assert_eq!(&read[0][..8], &ramp(0, 8)[..]);
    assert!(
        read[0][8..].iter().all(|sample| *sample == 0.0),
        "frames past the written range should be silent, got {:?}",
        &read[0][8..]
    );
}

#[test]
fn a_gap_between_writes_reads_as_silence() {
    let mut ring = new_ring(1);
    write_ramp(&mut ring, 0, 8);
    // Skip 8 frames.
    let later = write_ramp(&mut ring, 16, 8);

    let read = read_back(&ring, 8, 16).unwrap();
    assert!(
        read[0][..8].iter().all(|sample| *sample == 0.0),
        "the skipped frames should be silent, got {:?}",
        &read[0][..8]
    );
    assert_eq!(&read[0][8..], &later[0][..]);
}

#[test]
fn writing_more_than_the_buffer_holds_is_refused() {
    let mut ring = new_ring(1);
    let samples = vec![0.0f32; CAPACITY + 1];
    let planes = [samples.as_slice()];
    assert_eq!(
        ring.write(&planes, 0, CAPACITY as i64 + 1),
        Err(RingError::TooMuch)
    );
    assert_eq!(ring.valid_range(), Some((0, 0)));
}

#[test]
fn time_going_backwards_discards_what_was_held() {
    let mut ring = new_ring(1);
    write_ramp(&mut ring, 1000, 16);
    // The writer restarted, so its old sample times mean nothing.
    let restarted = write_ramp(&mut ring, 0, 16);

    assert_eq!(read_back(&ring, 0, 16).unwrap(), restarted);
    let stale = read_back(&ring, 1000, 8).unwrap();
    assert!(
        stale[0].iter().all(|sample| *sample == 0.0),
        "frames from before the restart should be gone, got {:?}",
        stale[0]
    );
}

#[test]
fn a_mono_source_silences_the_channels_it_does_not_supply() {
    let mut ring = new_ring(2);
    write_ramp(&mut ring, 0, 16);

    let mono = ramp(0, 8);
    let planes = [mono.as_slice()];
    ring.write(&planes, 16, 24).expect("write");

    let read = read_back(&ring, 16, 8).unwrap();
    assert_eq!(read[0], mono);
    assert!(
        read[1].iter().all(|sample| *sample == 0.0),
        "the unsupplied channel should be silent, got {:?}",
        read[1]
    );
}

#[test]
fn empty_ranges_are_accepted_and_do_nothing() {
    let mut ring = new_ring(1);
    let planes: [&[f32]; 1] = [&[]];
    assert_eq!(ring.write(&planes, 5, 5), Ok(()));
    assert_eq!(ring.valid_range(), Some((0, 0)));
}

#[test]
fn the_valid_range_follows_the_writer() {
    let mut ring = new_ring(1);
    write_ramp(&mut ring, 0, 16);
    assert_eq!(ring.valid_range(), Some((0, 16)));

    write_ramp(&mut ring, 16, CAPACITY);
    let (start, end) = ring.valid_range().unwrap();
    assert_eq!(end, 16 + CAPACITY as i64);
    assert_eq!(
        end - start,
        CAPACITY as i64,
        "the buffer should hold exactly its capacity once full"
    );
}

/// A reader that trails the writer by a fixed offset, the way the output unit's
/// safety offset makes it trail, gets the frame it asked for, every time.
#[test]
fn a_reader_trailing_a_writer_never_tears() {
    const BLOCK: usize = 128;
    const BLOCKS: i64 = 4_000;
    const TRAIL: i64 = 2 * BLOCK as i64;
    const ROOM: usize = 32_768;

    let mut ring: Ring<f32> = Ring::new(2, ROOM, 0.0);
    let mut checked = 0usize;
    for block in 0..BLOCKS {
        let at = block * BLOCK as i64;
        // Each frame carries its own sample time, so the reader can check it
        // got the frame it asked for.
        let plane: Vec<f32> = (0..BLOCK).map(|index| (at + index as i64) as f32).collect();
        let planes = [plane.as_slice(), plane.as_slice()];
        ring.write(&planes, at, at + BLOCK as i64).expect("write");

        let written = at + BLOCK as i64;
        if written < TRAIL + BLOCK as i64 {
            continue;
        }
        let position = written - TRAIL;
        let mut left = vec![f32::NAN; BLOCK];
        let mut right = vec![f32::NAN; BLOCK];
        {
            let mut planes: Vec<&mut [f32]> = vec![&mut left, &mut right];
            ring.read(&mut planes, position, position + BLOCK as i64).expect("read");
        }
        for (index, sample) in left.iter().enumerate() {
            let expected = (position + index as i64) as f32;
            assert_eq!(
                *sample,
                expected,
                "frame at {} came back as {sample}",
                position + index as i64
            );
        }
        assert_eq!(left, right, "channels diverged at {position}");
        checked += BLOCK;
    }
    assert!(checked > 0, "the reader never managed a read");
}

// --- bounds -----------------------------------------------------------------

fn bounds(start: i64, end: i64, index: i64) -> Bounds {
    Bounds { start, end, index }
}

#[test]
fn a_reader_takes_the_first_look_that_was_not_overtaken() {
    let overtaken = Snapshot { head: 3, bounds: bounds(0, 10, 35) };
    let settled = Snapshot { head: 4, bounds: bounds(5, 20, 4) };
    let later = Snapshot { head: 5, bounds: bounds(6, 21, 5) };
    let found = first_consistent(&[overtaken, settled, later]).expect("a settled look");
    assert_eq!((found.start, found.end), (5, 20));
    assert!(first_consistent(&[overtaken, overtaken]).is_none());
    assert!(first_consistent(&[]).is_none());
}

#[test]
fn a_read_that_cannot_see_the_bounds_reports_the_overload() {
    let mut ring = new_ring(1);
    write_ramp(&mut ring, 0, 8);
    let mut plane = [f32::NAN; 4];
    let mut planes: [&mut [f32]; 1] = [&mut plane];
    assert_eq!(
        ring.read_observed(None, &mut planes, 0, 4),
        Err(RingError::CpuOverload)
    );
    let observed = ring.observe();
    assert_eq!(ring.read_observed(observed, &mut planes, 0, 4), Ok(()));
    assert_eq!(plane, [0.0, 1.0, 2.0, 3.0]);
}

#[test]
fn published_bounds_are_the_ones_looked_up() {
    let mut published = TimeBounds::new();
    for round in 0..100 {
        published.set(round, round + 7);
        let seen = published.get().expect("always consistent here");
        assert_eq!((seen.start, seen.end), (round, round + 7));
        assert_eq!(published.current().end, round + 7);
        assert_eq!(published.look().bounds.index, published.look().head);
    }
}

#[test]
fn a_request_is_clipped_to_what_is_held() {
    let held = Some(bounds(10, 20, 0));
    for (from, to, expected) in [
        (0, 15, (10, 15)),
        (12, 18, (12, 18)),
        (15, 40, (15, 20)),
        (0, 40, (10, 20)),
    ] {
        let (mut start, mut end) = (from, to);
        assert!(clip_to(held, &mut start, &mut end));
        assert_eq!((start, end), expected, "clipping {from}..{to}");
    }
    // A request outside the range comes back empty.
    let (mut start, mut end) = (25, 30);
    assert!(clip_to(held, &mut start, &mut end));
    assert_eq!(start, end);
    // Without bounds nothing is known.
    assert!(!clip_to(None, &mut start, &mut end));
}

#[test]
fn silencing_stops_at_the_end_of_a_plane() {
    let mut left = [1.0f32; 4];
    let mut right = [1.0f32; 2];
    {
        let mut planes: [&mut [f32]; 2] = [&mut left, &mut right];
        silence_destination(&mut planes, 1, 2, 0.0);
    }
    assert_eq!(left, [1.0, 0.0, 0.0, 1.0]);
    assert_eq!(right, [1.0, 0.0]);
    {
        let mut planes: [&mut [f32]; 2] = [&mut left, &mut right];
        silence_planes(&mut planes, 9.0);
    }
    assert_eq!(left, [9.0; 4]);
    assert_eq!(right, [9.0; 2]);
}

// --- times before zero, and the last word -----------------------------------

fn read_mono(ring: &Ring<f32>, from: i64, count: usize) -> Vec<f32> {
    read_back(ring, from, count).expect("read").remove(0)
}

#[test]
fn a_request_that_starts_before_zero_keeps_its_place() {
    let mut ring = new_ring(1);
    let samples = [1.0f32, 2.0, 3.0, 4.0, 5.0, 6.0, 7.0, 8.0];
    ring.write(&[&samples], 0, 8).expect("write");
    assert_eq!(read_mono(&ring, -4, 8), [0.0, 0.0, 0.0, 0.0, 1.0, 2.0, 3.0, 4.0]);
    assert_eq!(read_mono(&ring, -8, 8), [0.0; 8]);
}

#[test]
fn frames_written_before_zero_are_read_back() {
    let mut ring = new_ring(1);
    ring.write(&[&[1.0f32, 2.0, 3.0, 4.0]], -6, -2).expect("write");
    assert_eq!(ring.valid_range(), Some((-6, -2)));
    assert_eq!(read_mono(&ring, -7, 6), [0.0, 1.0, 2.0, 3.0, 4.0, 0.0]);
}

#[test]
fn a_refused_write_changes_nothing() {
    let mut ring = new_ring(1);
    let written = write_ramp(&mut ring, 4, 8);
    let samples = vec![9.0f32; CAPACITY + 1];
    assert_eq!(
        ring.write(&[&samples], 12, 12 + CAPACITY as i64 + 1),
        Err(RingError::TooMuch)
    );
    assert_eq!(ring.write(&[&samples], 12, 12), Ok(()));
    assert_eq!(ring.write(&[&samples], 12, 3), Ok(()));
    assert_eq!(ring.valid_range(), Some((0, 12)));
    assert_eq!(read_back(&ring, 4, 8).expect("read"), written);
}

#[test]
fn the_held_range_starts_over_where_time_went_backwards() {
    let mut ring = new_ring(1);
    write_ramp(&mut ring, 0, 16);
    write_ramp(&mut ring, 50, 30);
    assert_eq!(ring.valid_range(), Some((80 - CAPACITY as i64, 80)));
    write_ramp(&mut ring, 79, 4);
    assert_eq!(ring.valid_range(), Some((79, 83)));
}

#[test]
fn a_reader_hears_the_last_word() {
    let mut ring = new_ring(1);
    ring.write(&[&[1.0f32; 8]], 0, 8).expect("write");
    // A gap, then a write shorter than its range.
    ring.write(&[&[2.0f32; 2]], 10, 14).expect("write");
    assert_eq!(
        read_mono(&ring, 6, 8),
        [1.0, 1.0, 0.0, 0.0, 2.0, 2.0, 0.0, 0.0]
    );
    // A write over held frames is a restart: only it is heard.
    ring.write(&[&[3.0f32; 2]], 12, 14).expect("write");
    assert_eq!(
        read_mono(&ring, 8, 8),
        [0.0, 0.0, 0.0, 0.0, 3.0, 3.0, 0.0, 0.0]
    );
}

#[test]
fn a_request_may_span_all_of_time() {
    let mut ring = new_ring(1);
    ring.write(&[&[1.0f32, 2.0]], i64::MIN, i64::MIN + 2).expect("write");
    let mut plane = [9.0f32; 3];
    ring.read(&mut [&mut plane], i64::MIN, i64::MAX).expect("read");
    assert_eq!(plane, [1.0, 2.0, 0.0]);

    ring.write(&[&[3.0f32, 4.0]], i64::MAX - 2, i64::MAX).expect("write");
    assert_eq!(
        ring.valid_range(),
        Some((i64::MAX - CAPACITY as i64, i64::MAX))
    );
    assert_eq!(read_mono(&ring, i64::MAX - 3, 3), [0.0, 3.0, 4.0]);
    // What is held lies further on than the plane reaches.
    ring.read(&mut [&mut plane], i64::MIN, i64::MAX).expect("read");
    assert_eq!(plane, [0.0; 3]);
    assert_eq!(
        ring.write(&[&[5.0f32]], i64::MIN, i64::MAX),
        Err(RingError::TooMuch)
    );
    assert_eq!(ring.write(&[&[5.0f32]], i64::MAX, i64::MIN), Ok(()));
    assert_eq!(read_mono(&ring, i64::MAX - 2, 2), [3.0, 4.0]);
}

#[test]
fn silencing_may_be_asked_for_further_than_a_word_counts() {
    let mut plane = [1.0f32; 4];
    silence_destination(&mut [&mut plane], 3, usize::MAX, 0.0);
    assert_eq!(plane, [1.0, 1.0, 1.0, 0.0]);
    silence_destination(&mut [&mut plane], usize::MAX, usize::MAX, 0.0);
    assert_eq!(plane, [1.0, 1.0, 1.0, 0.0]);
}
