use canopy_reverb::schedule::{generate_steps, ReverbType};
use canopy_reverb::stack::{ReverbStack, StackSettings};

fn tap(stored: f32, decay: f32) -> f32 {
    let x = stored * decay;
    if x.abs() < 1e-6 {
        0.0
    } else {
        x
    }
}

fn mix(a: f32, b: f32) -> f32 {
    a + b
}

fn fade(s: f32, i: usize) -> f32 {
    s * 0.5f32.powi(i as i32)
}

fn settings(width_offset: i32) -> StackSettings {
    StackSettings {
        base_delay: 954,
        step_count: 10,
        algorithm: ReverbType::LinearSmall,
        width_offset,
    }
}

fn built(size: usize) -> ReverbStack<f32> {
    let mut stack = ReverbStack::new(0.0f32);
    assert_eq!(stack.reconcile(size, settings(0), 0.437, false, &fade), Ok(true));
    stack
}

#[test]
fn stage_schedules_divide_base_delay() {
    let stack = built(4);
    assert_eq!(stack.len(), 4);
    for (k, base) in [954, 477, 318, 238].into_iter().enumerate() {
        let expected = generate_steps(base, 10, ReverbType::LinearSmall);
        assert_eq!(stack.left(k).delay_times(), &expected);
        assert_eq!(stack.right(k).delay_times(), &expected);
        assert_eq!(stack.left(k).decay(), 0.437);
    }
    assert_eq!(stack.left(0).buffer().len(), 8550);
}

#[test]
fn impulse_echoes_at_every_tap() {
    let mut stack = built(4);
    let (l, r) = stack.process_stage(0, 1.0, 1.0, &tap, &mix);
    assert_eq!((l, r), (0.0, 0.0));
    // a tap at offset d of the first stage reads d samples ahead of the
    // cursor in a ring of 8550, so the impulse comes back after 8550 - d
    let offsets: Vec<usize> = (1..10).map(|i| 95 * i).collect();
    for t in 1..8550usize {
        let (l, r) = stack.process_stage(0, 0.0, 0.0, &tap, &mix);
        if offsets.contains(&(8550 - t)) {
            assert_eq!((l, r), (0.437, 0.437));
        } else {
            assert_eq!((l, r), (0.0, 0.0));
        }
    }
}

#[test]
fn unchanged_settings_do_nothing() {
    let mut stack = built(3);
    assert_eq!(stack.reconcile(3, settings(0), 0.437, false, &fade), Ok(false));
    assert_eq!(stack.len(), 3);
}

#[test]
fn growing_keeps_existing_units() {
    let mut stack = built(4);
    for i in 0..50 {
        for k in 0..4 {
            stack.process_stage(k, i as f32, -(i as f32), &tap, &mix);
        }
    }
    let kept: Vec<(Vec<f32>, usize)> = (0..4)
        .map(|k| (stack.left(k).buffer().clone(), stack.left(k).write_index()))
        .collect();
    assert_eq!(stack.reconcile(6, settings(0), 0.437, false, &fade), Ok(true));
    assert_eq!(stack.len(), 6);
    for k in 0..4 {
        assert_eq!(stack.left(k).buffer(), &kept[k].0);
        assert_eq!(stack.left(k).write_index(), kept[k].1);
    }
    for (k, base) in [(4usize, 190), (5, 159)] {
        let unit = stack.left(k);
        assert_eq!(unit.delay_times(), &generate_steps(base, 10, ReverbType::LinearSmall));
        assert_eq!(unit.write_index(), 0);
        assert!(unit.buffer().iter().all(|s| *s == 0.0));
        assert!(stack.right(k).buffer().iter().all(|s| *s == 0.0));
    }
}

#[test]
fn shrinking_pops_from_tail() {
    let mut stack = built(4);
    for i in 0..20 {
        for k in 0..4 {
            stack.process_stage(k, i as f32, 1.0, &tap, &mix);
        }
    }
    let kept: Vec<Vec<f32>> = (0..2).map(|k| stack.right(k).buffer().clone()).collect();
    assert_eq!(stack.reconcile(2, settings(0), 0.437, false, &fade), Ok(true));
    assert_eq!(stack.len(), 2);
    for k in 0..2 {
        assert_eq!(stack.right(k).buffer(), &kept[k]);
    }
}

#[test]
fn width_offset_biases_one_channel() {
    let mut stack = built(2);
    assert_eq!(stack.reconcile(2, settings(5), 0.437, false, &fade), Ok(true));
    for k in 0..2 {
        assert_eq!(stack.left(k).read_offset(), 5);
        assert_eq!(stack.right(k).read_offset(), 0);
    }
    assert_eq!(stack.reconcile(3, settings(-3), 0.437, false, &fade), Ok(true));
    for k in 0..2 {
        assert_eq!(stack.left(k).read_offset(), 5);
        assert_eq!(stack.right(k).read_offset(), 3);
    }
    assert_eq!(stack.left(2).read_offset(), 0);
    assert_eq!(stack.right(2).read_offset(), 3);
}

#[test]
fn other_changes_update_decay() {
    let mut stack = built(2);
    assert_eq!(stack.reconcile(2, settings(0), 0.8, true, &fade), Ok(true));
    assert_eq!(stack.left(1).decay(), 0.8);
    assert_eq!(stack.right(0).decay(), 0.8);
}

#[test]
fn new_base_delay_resizes_buffers() {
    let mut stack = built(2);
    let mut s = settings(0);
    s.base_delay = 200;
    assert_eq!(stack.reconcile(2, s, 0.437, false, &fade), Ok(true));
    // 200 / 10 = 20, offsets 20..180, sum 900
    assert_eq!(stack.left(0).buffer().len(), 1800);
    assert_eq!(stack.left(0).delay_times(), &generate_steps(200, 10, ReverbType::LinearSmall));
    assert_eq!(stack.left(1).delay_times(), &generate_steps(100, 10, ReverbType::LinearSmall));
}

#[test]
fn reset_silences_every_unit() {
    let mut stack = built(2);
    stack.process_stage(1, 1.0, 1.0, &tap, &mix);
    stack.reset();
    assert_eq!(stack.len(), 2);
    assert!(stack.left(1).buffer().iter().all(|s| *s == 0.0));
    assert_eq!(stack.left(1).write_index(), 0);
}
