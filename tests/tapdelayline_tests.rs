use canopy_reverb::tapdelayline::TappedDelayLine;

fn tap(stored: f32, gain: f32) -> f32 {
    stored * gain
}

fn mix(a: f32, b: f32) -> f32 {
    a + b
}

#[test]
fn tapped_line_sums_oldest_and_taps() {
    let mut line = TappedDelayLine::new(3, vec![1, 2], 0.0f32);
    assert_eq!(line.buffer().len(), 4);
    assert_eq!(line.process(1.0, 0.5, &tap, &mix), 0.0);
    assert_eq!(line.process(2.0, 0.5, &tap, &mix), 0.0);
    assert_eq!(line.process(3.0, 0.5, &tap, &mix), 0.5);
    assert_eq!(line.process(4.0, 0.5, &tap, &mix), 1.5);
    assert_eq!(line.process(0.0, 0.5, &tap, &mix), 3.5);
    assert_eq!(line.buffer(), &vec![0.0, 2.0, 3.0, 4.0]);
}

#[test]
fn tapped_line_without_taps_is_a_plain_delay() {
    let mut line = TappedDelayLine::new(1, vec![], 0.0f32);
    assert_eq!(line.process(1.0, 0.5, &tap, &mix), 0.0);
    assert_eq!(line.process(2.0, 0.5, &tap, &mix), 0.0);
    assert_eq!(line.process(3.0, 0.5, &tap, &mix), 1.0);
}
