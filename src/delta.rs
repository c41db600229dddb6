//! The signed step between two readings of a wrapping 16-bit counter.
use vstd::prelude::*;

verus! {

/// Number of distinct values of the hardware counter.
pub const COUNTER_MODULUS: i64 = 65536;

/// Largest step, in either direction, that two successive samples may
/// differ by for the step to be recovered without ambiguity.
pub const MAX_STEP: i64 = 32767;

/// The step from `last` to `current` on the 16-bit ring: the difference
/// `current - last`, moved by one full turn of the counter when it is more
/// than half a turn in either direction.
pub open spec fn step_between(current: int, last: int) -> int {
    let d = current - last;
    if d > MAX_STEP {
        d - COUNTER_MODULUS
    } else if d < -MAX_STEP {
        d + COUNTER_MODULUS
    } else {
        d
    }
}

/// Signed change of the counter from `last_count` to `current_count`,
/// taking the shorter way round the ring.
///
/// Exactly half a turn (32768) is read as a move against the naive
/// difference, so that the result is antisymmetric in its arguments.
pub fn calculate_delta(current_count: u16, last_count: u16) -> (r: i64)
    ensures
        r == step_between(current_count as int, last_count as int),
        -COUNTER_MODULUS / 2 <= r <= COUNTER_MODULUS / 2,
        (r - (current_count - last_count)) % (COUNTER_MODULUS as int) == 0,
{
    if current_count > last_count {
        let delta: u16 = current_count - last_count;
        if delta <= 32767 {
            // 100 -> 200 is a step of +100.
            delta as i64
        } else {
            // 50 -> 65486 is a step of -100 across the wrap.
            -(COUNTER_MODULUS - delta as i64)
        }
    } else {
        let delta: u16 = last_count - current_count;
        if delta <= 32767 {
            // 200 -> 100 is a step of -100.
            -(delta as i64)
        } else {
            // 65486 -> 50 is a step of +100 across the wrap.
            COUNTER_MODULUS - delta as i64
        }
    }
}

/// What the hardware counter reads at an unwrapped position.
pub open spec fn raw_reading(position: int) -> int {
    position % COUNTER_MODULUS as int
}

/// Sum of the steps between each sample and the one before it.
pub open spec fn total_steps(samples: Seq<int>) -> int
    decreases samples.len(),
{
    if samples.len() < 2 {
        0
    } else {
        total_steps(samples.drop_last()) + step_between(
            samples.last(),
            samples[samples.len() - 2],
        )
    }
}

/// Whether successive positions never move further than `MAX_STEP` apart.
pub open spec fn within_half_range(positions: Seq<int>) -> bool {
    forall|i: int|
        0 <= i < positions.len() - 1 ==> -MAX_STEP <= #[trigger] positions[i + 1] - positions[i]
            <= MAX_STEP
}

/// Swapping the two readings negates the step.
pub proof fn lemma_delta_antisymmetric(current: u16, last: u16)
    ensures
        step_between(current as int, last as int) == -step_between(last as int, current as int),
{
}

/// A reading compared with itself gives no step.
pub proof fn lemma_delta_identity(x: u16)
    ensures
        step_between(x as int, x as int) == 0,
{
}

/// The step between the readings at two positions no more than `MAX_STEP`
/// apart is the true distance between the positions.
pub proof fn lemma_step_of_readings(a: int, b: int)
    requires
        -MAX_STEP <= a - b <= MAX_STEP,
    ensures
        step_between(raw_reading(a), raw_reading(b)) == a - b,
{
    let m = COUNTER_MODULUS as int;
    vstd::arithmetic::div_mod::lemma_fundamental_div_mod(a, m);
    vstd::arithmetic::div_mod::lemma_fundamental_div_mod(b, m);
    let k = a / m - b / m;
    assert((a % m) - (b % m) == (a - b) - m * k) by (nonlinear_arith)
        requires
            a == m * (a / m) + a % m,
            b == m * (b / m) + b % m,
            k == a / m - b / m,
    ;
    assert(-1 <= k <= 1) by (nonlinear_arith)
        requires
            m == 65536,
            0 <= a % m < m,
            0 <= b % m < m,
            (a % m) - (b % m) == (a - b) - m * k,
            -32767 <= a - b <= 32767,
    ;
    assert(raw_reading(a) == a % m && raw_reading(b) == b % m);
}

/// Summing the steps between the readings of a run of positions, none more
/// than `MAX_STEP` from the one before, gives back the whole distance
/// travelled: wrapping of the counter never makes the sum drift.
pub proof fn lemma_no_drift(positions: Seq<int>)
    requires
        positions.len() > 0,
        within_half_range(positions),
    ensures
        total_steps(positions.map_values(|p: int| raw_reading(p))) == positions.last()
            - positions[0],
    decreases positions.len(),
{
    let readings = positions.map_values(|p: int| raw_reading(p));
    if positions.len() >= 2 {
        let n = positions.len();
        let front = positions.drop_last();
        assert(within_half_range(front)) by {
            assert forall|i: int| 0 <= i < front.len() - 1 implies -MAX_STEP <= #[trigger] front[i
                + 1] - front[i] <= MAX_STEP by {
                assert(front[i + 1] == positions[i + 1]);
            }
        }
        lemma_no_drift(front);
        assert(readings.drop_last() =~= front.map_values(|p: int| raw_reading(p)));
        assert(-MAX_STEP <= positions[n - 2 + 1] - positions[n - 2] <= MAX_STEP);
        lemma_step_of_readings(positions[n - 1], positions[n - 2]);
    }
}

} // verus!
