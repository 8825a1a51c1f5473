use vstd::prelude::*;

verus! {

/// The tap-spacing algorithms a reverb unit can be built from.
#[derive(PartialEq, Eq, Structural, Clone, Copy, Debug)]
pub enum ReverbType {
    LinearSmall,
    ExpSwirl,
    GeoPhase,
    QuadMetal,
    SpecificSwirl,
    ChaosSteps,
    GoldenRatio,
}

/// `base` raised to the power `exp`.
pub open spec fn pow(base: int, exp: nat) -> int
    decreases exp,
{
    if exp == 0 {
        1
    } else {
        base * pow(base, (exp - 1) as nat)
    }
}


/// `r` is the integer `n`-th root of `b`: the largest natural number whose
/// `n`-th power does not exceed `b`.
pub open spec fn is_int_root(r: int, b: int, n: nat) -> bool {
    0 <= r && pow(r, n) <= b && b < pow(r + 1, n)
}

/// The integer `n`-th root of `b`, that is `floor(b^(1/n))`.
pub open spec fn int_root(b: int, n: nat) -> int {
    choose|r: int| is_int_root(r, b, n)
}

/// The offset of tap `i` (counted from 1) for a unit built from base delay `b`
/// and step count `n`; integer division truncates.
pub open spec fn tap_offset(alg: ReverbType, b: int, n: int, i: int) -> int {
    match alg {
        ReverbType::LinearSmall => i * (b / n),
        ReverbType::ExpSwirl => b * 2,
        ReverbType::GeoPhase => b * int_root(b, n as nat),
        ReverbType::QuadMetal => b - b / n,
        ReverbType::SpecificSwirl => b * 4 - 1,
        ReverbType::ChaosSteps => (b + n) / 2 + (2 * b - 1),
        ReverbType::GoldenRatio => (1618 * i) / 1000,
    }
}

/// The tap schedule: the offsets of taps `1 .. n - 1`, in order.
pub open spec fn tap_schedule(alg: ReverbType, b: int, n: int) -> Seq<int> {
    Seq::new((n - 1) as nat, |j: int| tap_offset(alg, b, n, j + 1))
}

/// A sequence of machine offsets read as integers.
pub open spec fn offsets_of(s: Seq<u64>) -> Seq<int> {
    s.map_values(|x: u64| x as int)
}

pub proof fn lemma_pow_nonneg(x: int, n: nat)
    requires
        0 <= x,
    ensures
        0 <= pow(x, n),
    decreases n,
{
    if n > 0 {
        lemma_pow_nonneg(x, (n - 1) as nat);
        assert(0 <= x * pow(x, (n - 1) as nat)) by (nonlinear_arith)
            requires
                0 <= x,
                0 <= pow(x, (n - 1) as nat),
        ;
    }
}

/// Raising to a fixed power keeps the order of non-negative bases.
pub proof fn lemma_pow_monotone_base(x: int, y: int, n: nat)
    requires
        0 <= x <= y,
    ensures
        pow(x, n) <= pow(y, n),
    decreases n,
{
    if n > 0 {
        let m = (n - 1) as nat;
        lemma_pow_monotone_base(x, y, m);
        lemma_pow_nonneg(x, m);
        assert(x * pow(x, m) <= y * pow(y, m)) by (nonlinear_arith)
            requires
                0 <= x <= y,
                0 <= pow(x, m) <= pow(y, m),
        ;
    }
}

/// For a base of at least one, a larger exponent gives a larger power.
pub proof fn lemma_pow_monotone_exp(x: int, m: nat, n: nat)
    requires
        1 <= x,
        m <= n,
    ensures
        1 <= pow(x, m) <= pow(x, n),
    decreases n,
{
    if n > m {
        lemma_pow_monotone_exp(x, m, (n - 1) as nat);
        let p = pow(x, (n - 1) as nat);
        assert(p <= x * p) by (nonlinear_arith)
            requires
                1 <= x,
                1 <= p,
        ;
    } else if n > 0 {
        lemma_pow_monotone_exp(x, 0, (n - 1) as nat);
        let p = pow(x, (n - 1) as nat);
        assert(1 <= x * p) by (nonlinear_arith)
            requires
                1 <= x,
                1 <= p,
        ;
    }
}

/// A positive power of a base of at least one is at least the base.
pub proof fn lemma_pow_at_least_base(x: int, n: nat)
    requires
        1 <= x,
        1 <= n,
    ensures
        x <= pow(x, n),
{
    lemma_pow_monotone_exp(x, 1, n);
    assert(pow(x, 1) == x * pow(x, 0));
}

/// The integer root is unique.
pub proof fn lemma_int_root_unique(r: int, b: int, n: nat)
    requires
        is_int_root(r, b, n),
    ensures
        int_root(b, n) == r,
{
    let s = int_root(b, n);
    assert(is_int_root(s, b, n));
    if s < r {
        lemma_pow_monotone_base(s + 1, r, n);
    } else if r < s {
        lemma_pow_monotone_base(r + 1, s, n);
    }
}

/// Whether `x` to the power `n` exceeds `cap`, without overflow.
fn pow_exceeds(x: u64, n: u32, cap: u64) -> (r: bool)
    requires
        1 <= x <= cap + 1,
        1 <= cap < 0x1_0000_0000,
    ensures
        r == (pow(x as int, n as nat) > cap),
{
    let mut acc: u64 = 1;
    let mut j: u32 = 0;
    while j < n
        invariant
            j <= n,
            1 <= x <= cap + 1,
            cap < 0x1_0000_0000,
            acc as int == pow(x as int, j as nat),
            acc <= cap,
        decreases n - j,
    {
        assert(acc * x < 0x1_0000_0000 * 0x1_0000_0000) by (nonlinear_arith)
            requires
                acc <= cap,
                x <= cap + 1,
                cap < 0x1_0000_0000,
        ;
        assert(pow(x as int, (j + 1) as nat) == x * pow(x as int, j as nat));
        assert(acc * x == x * acc) by (nonlinear_arith);
        acc = acc * x;
        j = j + 1;
        if acc > cap {
            proof {
                lemma_pow_monotone_exp(x as int, j as nat, n as nat);
            }
            return true;
        }
    }
    false
}

/// The integer `n`-th root of `b`: the largest `r` with `r^n <= b`.
pub fn integer_root(b: u32, n: u32) -> (r: u64)
    requires
        1 <= b,
        1 <= n,
    ensures
        r as int == int_root(b as int, n as nat),
        1 <= r <= b,
{
    let mut r: u64 = 1;
    proof {
        lemma_pow_monotone_exp(1, 0, n as nat);
        lemma_pow_one(n as nat);
    }
    loop
        invariant
            1 <= r <= b,
            1 <= n,
            pow(r as int, n as nat) <= b,
        decreases b - r,
    {
        if pow_exceeds(r + 1, n, b as u64) {
            proof {
                lemma_int_root_unique(r as int, b as int, n as nat);
            }
            return r;
        }
        proof {
            lemma_pow_at_least_base(r + 1, n as nat);
        }
        r = r + 1;
    }
}

proof fn lemma_pow_one(n: nat)
    ensures
        pow(1, n) == 1,
    decreases n,
{
    if n > 0 {
        lemma_pow_one((n - 1) as nat);
    }
}

/// The offsets of taps `1 .. number_of_integers - 1` for a unit with base
/// delay `input_number`, spaced by `algorithm`.
///
/// The result depends on the arguments alone: the same arguments always give
/// the same schedule.
pub fn generate_steps(
    input_number: i32,
    number_of_integers: i32,
    algorithm: ReverbType,
) -> (r: Vec<u64>)
    requires
        input_number > 0,
        number_of_integers >= 2,
    ensures
        offsets_of(r@) == tap_schedule(algorithm, input_number as int, number_of_integers as int),
{
    let b = input_number as u64;
    let n = number_of_integers as u64;
    // The variants other than the linear and golden ones give one offset for
    // every tap, so it is worked out once.
    let fixed: u64 = match algorithm {
        ReverbType::ExpSwirl => b * 2,
        ReverbType::GeoPhase => {
            let root = integer_root(input_number as u32, number_of_integers as u32);
            assert(b * root <= b * b) by (nonlinear_arith)
                requires
                    root <= b,
            ;
            assert(b * b < 0x1_0000_0000 * 0x1_0000_0000) by (nonlinear_arith)
                requires
                    b < 0x8000_0000,
            ;
            b * root
        },
        ReverbType::QuadMetal => b - b / n,
        ReverbType::SpecificSwirl => b * 4 - 1,
        ReverbType::ChaosSteps => (b + n) / 2 + (2 * b - 1),
        _ => 0,
    };
    let step = b / n;
    let mut out: Vec<u64> = Vec::new();
    let mut i: u64 = 1;
    while i < n
        invariant
            1 <= i <= n,
            n == number_of_integers,
            b == input_number,
            2 <= n < 0x8000_0000,
            1 <= b < 0x8000_0000,
            step == b / n,
            algorithm != ReverbType::LinearSmall && algorithm != ReverbType::GoldenRatio ==> fixed
                == tap_offset(algorithm, b as int, n as int, 1),
            out@.len() == i - 1,
            forall|j: int|
                0 <= j < out@.len() ==> out@[j] as int == tap_offset(
                    algorithm,
                    b as int,
                    n as int,
                    j + 1,
                ),
        decreases n - i,
    {
        let value: u64 = match algorithm {
            ReverbType::LinearSmall => {
                assert(i * step <= n * (b / n)) by (nonlinear_arith)
                    requires
                        i <= n,
                        step == b / n,
                        0 <= step,
                ;
                assert(n * (b / n) <= b) by (nonlinear_arith)
                    requires
                        0 < n,
                        0 <= b,
                ;
                i * step
            },
            ReverbType::GoldenRatio => 1618 * i / 1000,
            _ => fixed,
        };
        out.push(value);
        i = i + 1;
    }
    proof {
        assert(offsets_of(out@) =~= tap_schedule(algorithm, b as int, n as int));
    }
    out
}

/// Two schedules that `generate_steps` can return for the same arguments are
/// the same: the schedule is a function of its arguments.
pub proof fn lemma_generate_deterministic(
    input_number: int,
    number_of_integers: int,
    algorithm: ReverbType,
    first: Seq<u64>,
    second: Seq<u64>,
)
    requires
        offsets_of(first) == tap_schedule(algorithm, input_number, number_of_integers),
        offsets_of(second) == tap_schedule(algorithm, input_number, number_of_integers),
    ensures
        first == second,
{
    assert(first.len() == offsets_of(first).len());
    assert(second.len() == offsets_of(second).len());
    assert forall|j: int| 0 <= j < first.len() implies first[j] == second[j] by {
        assert(offsets_of(first)[j] == first[j] as int);
        assert(offsets_of(second)[j] == second[j] as int);
    }
    assert(first =~= second);
}

} // verus!
