use canopy_reverb::reverb::Reverb;

fn tap(stored: f32, decay: f32) -> f32 {
    let x = stored * decay;
    if x.abs() < 1e-6 {
        0.0
    } else {
        x
    }
}

fn mix(a: f32, b: f32) -> f32 {
    a + b
}

fn fade(s: f32, i: usize) -> f32 {
    s * 0.5f32.powi(i as i32)
}

#[test]
fn empty_buffer_passes_input_through() {
    let mut r = Reverb::new(vec![3, 5], 0.5f32, 0, 0.0);
    for x in [0.7f32, -1.0, 0.0, 123.5] {
        assert_eq!(r.process(x, &tap, &mix), x);
        assert!(r.buffer().is_empty());
        assert_eq!(r.write_index(), 0);
    }
}

#[test]
fn feedback_sums_every_tap() {
    let mut r = Reverb::new(vec![1, 2], 0.5f32, 4, 0.0);
    assert_eq!(r.process(1.0, &tap, &mix), 0.0);
    assert_eq!(r.process(0.0, &tap, &mix), 0.0);
    assert_eq!(r.process(0.0, &tap, &mix), 0.5);
    assert_eq!(r.process(0.0, &tap, &mix), 0.5);
    assert_eq!(r.process(0.0, &tap, &mix), 0.25);
    assert_eq!(r.buffer(), &vec![0.25, 0.0, 0.5, 0.5]);
    assert_eq!(r.write_index(), 1);
}

#[test]
fn two_taps_add_their_readings() {
    let pass = |s: f32, _d: f32| s;
    let mut r = Reverb::new(vec![1, 2], 1.0f32, 4, 0.0);
    r.process(5.0, &pass, &mix);
    r.process(7.0, &pass, &mix);
    r.process(0.0, &pass, &mix);
    // cursor 3: the taps read index 0 (5) and index 1 (7)
    assert_eq!(r.write_index(), 3);
    assert_eq!(r.process(0.0, &pass, &mix), 12.0);
}

#[test]
fn tiny_feedback_is_flushed() {
    let mut r = Reverb::new(vec![0], 1e-7f32, 2, 0.0);
    r.process(1.0, &tap, &mix);
    r.process(0.0, &tap, &mix);
    assert_eq!(r.process(0.0, &tap, &mix), 0.0);
}

#[test]
fn growing_keeps_samples_and_adds_silence() {
    let mut r = Reverb::new(vec![1], 0.5f32, 4, 0.0);
    for x in [1.0f32, 2.0, 3.0] {
        r.process(x, &tap, &mix);
    }
    let before = r.buffer().clone();
    let cursor = r.write_index();
    r.update(vec![1, 2, 3], 0.25, &fade);
    assert_eq!(r.buffer().len(), 12);
    assert_eq!(&r.buffer()[..4], &before[..]);
    assert!(r.buffer()[4..].iter().all(|s| *s == 0.0));
    assert_eq!(r.write_index(), cursor);
    assert_eq!(r.decay(), 0.25);
    assert_eq!(r.delay_times(), &vec![1, 2, 3]);
}

#[test]
fn shrinking_fades_the_kept_samples() {
    let mut r = Reverb::new(vec![5], 0.5f32, 10, 0.0);
    for x in [1.0f32, 2.0, 3.0, 4.0, 5.0, 6.0] {
        r.process(x, &tap, &mix);
    }
    let before = r.buffer().clone();
    assert_eq!(r.write_index(), 6);
    r.update(vec![2], 0.5, &fade);
    assert_eq!(r.buffer().len(), 4);
    for i in 0..4 {
        assert_eq!(r.buffer()[i], before[i] * 0.5f32.powi(i as i32));
    }
    assert_eq!(r.write_index(), 3);
}

#[test]
fn shrinking_to_nothing_resets_cursor() {
    let mut r = Reverb::new(vec![5], 0.5f32, 10, 0.0);
    r.process(1.0, &tap, &mix);
    r.update(vec![0], 0.5, &fade);
    assert!(r.buffer().is_empty());
    assert_eq!(r.write_index(), 0);
    assert_eq!(r.process(0.3, &tap, &mix), 0.3);
}

#[test]
fn same_schedule_update_changes_only_decay() {
    let mut r = Reverb::new(vec![1, 2], 0.5f32, 6, 0.0);
    for x in [1.0f32, -2.0, 0.5] {
        r.process(x, &tap, &mix);
    }
    r.update(vec![1, 2, 3], 0.3, &fade);
    let buf = r.buffer().clone();
    let cursor = r.write_index();
    r.update(vec![1, 2, 3], 0.3, &fade);
    assert_eq!(r.buffer(), &buf);
    assert_eq!(r.write_index(), cursor);
    r.update(vec![1, 2, 3], 0.9, &fade);
    assert_eq!(r.buffer(), &buf);
    assert_eq!(r.write_index(), cursor);
    assert_eq!(r.decay(), 0.9);
}

#[test]
fn shift_moves_the_read_point() {
    let mut r = Reverb::new(vec![0], 1.0f32, 4, 0.0);
    r.process(1.0, &tap, &mix);
    r.shift_buffer(3);
    assert_eq!(r.read_offset(), 3);
    assert_eq!(r.write_index(), 1);
    assert_eq!(r.process(0.0, &tap, &mix), 1.0);
}

#[test]
fn locked_process_does_not_write() {
    let mut r = Reverb::new(vec![1], 0.5f32, 3, 0.0);
    r.process(1.0, &tap, &mix);
    r.process(0.0, &tap, &mix);
    let buf = r.buffer().clone();
    assert_eq!(r.locked_buffer_process(7.0, &tap, &mix), 0.5);
    assert_eq!(r.buffer(), &buf);
    assert_eq!(r.write_index(), 0);
    let mut empty = Reverb::new(vec![1], 0.5f32, 0, 0.0);
    assert_eq!(empty.locked_buffer_process(7.0, &tap, &mix), 7.0);
}

#[test]
fn reset_silences_buffer() {
    let mut r = Reverb::new(vec![1], 0.5f32, 3, 0.0);
    r.process(1.0, &tap, &mix);
    r.reset();
    assert_eq!(r.buffer(), &vec![0.0; 3]);
    assert_eq!(r.write_index(), 0);
    assert_eq!(r.delay_times(), &vec![1]);
}

#[test]
fn empty_schedule_feeds_back_silence() {
    let mut r = Reverb::new(vec![], 0.5f32, 2, 0.0);
    assert_eq!(r.process(1.0, &tap, &mix), 0.0);
    assert_eq!(r.buffer(), &vec![1.0, 0.0]);
}

#[test]
fn impulse_decays_towards_silence() {
    // two taps at 0.45 give a loop gain of 0.9
    let mut r = Reverb::new(vec![3, 7], 0.45f32, 20, 0.0);
    r.process(1.0, &tap, &mix);
    let mut last = 1.0f32;
    for _ in 0..48000 {
        last = r.process(0.0, &tap, &mix);
    }
    assert_eq!(last, 0.0);
}
