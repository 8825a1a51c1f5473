use canopy_reverb::reverb::buffer_capacity;
use canopy_reverb::schedule::{generate_steps, integer_root, ReverbType};

#[test]
fn linear_small_spaces_taps_evenly() {
    let steps = generate_steps(954, 10, ReverbType::LinearSmall);
    assert_eq!(steps, vec![95, 190, 285, 380, 475, 570, 665, 760, 855]);
}

#[test]
fn exp_swirl_doubles_base() {
    let steps = generate_steps(954, 10, ReverbType::ExpSwirl);
    assert_eq!(steps, vec![1908; 9]);
}

#[test]
fn geo_phase_uses_floored_root() {
    // 954^(1/10) lies between 1 and 2
    assert_eq!(generate_steps(954, 10, ReverbType::GeoPhase), vec![954; 9]);
    // 1000^(1/3) is exactly 10
    assert_eq!(generate_steps(1000, 3, ReverbType::GeoPhase), vec![10000, 10000]);
    // 999^(1/3) is just under 10
    assert_eq!(generate_steps(999, 3, ReverbType::GeoPhase), vec![8991, 8991]);
}

#[test]
fn quad_metal_subtracts_one_step() {
    assert_eq!(generate_steps(954, 10, ReverbType::QuadMetal), vec![859; 9]);
}

#[test]
fn specific_swirl_is_four_times_less_one() {
    assert_eq!(generate_steps(954, 10, ReverbType::SpecificSwirl), vec![3815; 9]);
}

#[test]
fn chaos_steps_is_constant() {
    assert_eq!(generate_steps(954, 10, ReverbType::ChaosSteps), vec![2389; 9]);
    assert_eq!(generate_steps(3, 2, ReverbType::ChaosSteps), vec![7]);
}

#[test]
fn golden_ratio_floors_multiples() {
    assert_eq!(
        generate_steps(954, 10, ReverbType::GoldenRatio),
        vec![1, 3, 4, 6, 8, 9, 11, 12, 14]
    );
}

#[test]
fn smallest_step_count_gives_one_tap() {
    assert_eq!(generate_steps(100, 2, ReverbType::LinearSmall), vec![50]);
}

#[test]
fn generate_is_deterministic() {
    for alg in [
        ReverbType::LinearSmall,
        ReverbType::ExpSwirl,
        ReverbType::GeoPhase,
        ReverbType::QuadMetal,
        ReverbType::SpecificSwirl,
        ReverbType::ChaosSteps,
        ReverbType::GoldenRatio,
    ] {
        assert_eq!(generate_steps(777, 13, alg), generate_steps(777, 13, alg));
    }
}

#[test]
fn integer_root_values() {
    assert_eq!(integer_root(1024, 10), 2);
    assert_eq!(integer_root(1023, 10), 1);
    assert_eq!(integer_root(1000, 3), 10);
    assert_eq!(integer_root(999, 3), 9);
    assert_eq!(integer_root(1, 7), 1);
    assert_eq!(integer_root(2147483647, 2), 46340);
}

#[test]
fn capacity_is_twice_the_sum() {
    assert_eq!(buffer_capacity(&vec![1, 2, 3]), Some(12));
    assert_eq!(buffer_capacity(&vec![]), Some(0));
    assert_eq!(buffer_capacity(&generate_steps(954, 10, ReverbType::LinearSmall)), Some(8550));
}

#[test]
fn capacity_overflow_is_none() {
    assert_eq!(buffer_capacity(&vec![u64::MAX / 2, u64::MAX / 2]), None);
    assert_eq!(buffer_capacity(&vec![u64::MAX]), None);
}
