//! The encoder: a wide, direction-aware position built from successive
//! samples of the hardware counter.
use vstd::prelude::*;
use crate::delta::{
    calculate_delta, raw_reading, step_between, total_steps, within_half_range,
    lemma_no_drift,
};

verus! {

/// Largest magnitude of the accumulated count from which one more update is
/// sure to fit in an `i64`: `i64::MAX` less the largest possible step.
pub const COUNT_LIMIT: i64 = 0x7fff_ffff_ffff_7fff;

/// Which way of turning counts as positive.
#[derive(Clone, Copy, Debug, PartialEq, Eq, Structural)]
pub enum RotateDirection {
    Forward,
    Reverse,
}

impl RotateDirection {
    /// The factor applied to each step of the hardware counter.
    pub open spec fn sign(self) -> int {
        match self {
            RotateDirection::Forward => 1,
            RotateDirection::Reverse => -1,
        }
    }
}

/// The abstract state of an [`Encoder`].
pub struct EncoderState {
    /// Counts per revolution: four per pulse of the encoder.
    pub resolution: nat,
    pub direction: RotateDirection,
    /// The hardware reading taken at the latest update (or at construction).
    pub last_hw_count: int,
    /// Counts accumulated since construction.
    pub software_count: int,
}

impl EncoderState {
    /// The state after one update that read `current` from the hardware.
    pub open spec fn step(self, current: int) -> EncoderState {
        EncoderState {
            last_hw_count: current,
            software_count: self.software_count + self.direction.sign() * step_between(
                current,
                self.last_hw_count,
            ),
            ..self
        }
    }

    /// The state after one update for each of `samples`, in order.
    pub open spec fn after_samples(self, samples: Seq<int>) -> EncoderState
        decreases samples.len(),
    {
        if samples.len() == 0 {
            self
        } else {
            self.after_samples(samples.drop_last()).step(samples.last())
        }
    }

    /// Whether one more update cannot overflow the accumulated count.
    pub open spec fn has_headroom(self) -> bool {
        -COUNT_LIMIT <= self.software_count <= COUNT_LIMIT
    }
}

/// Extends a wrapping 16-bit quadrature counter into an `i64` position.
///
/// The caller reads the hardware counter and hands each reading to
/// [`Encoder::update`]; readings must come often enough that the true motion
/// between two of them stays within half the counter's range.
pub struct Encoder {
    qei_resolution: u32,
    direction: RotateDirection,
    last_hw_count: u16,
    software_count: i64,
}

impl View for Encoder {
    type V = EncoderState;

    closed spec fn view(&self) -> EncoderState {
        EncoderState {
            resolution: self.qei_resolution as nat,
            direction: self.direction,
            last_hw_count: self.last_hw_count as int,
            software_count: self.software_count as int,
        }
    }
}

impl Encoder {
    /// An encoder with `ppr` pulses per revolution, counted four times each,
    /// whose baseline is the hardware reading `initial_count`.
    pub fn new(ppr: u32, direction: RotateDirection, initial_count: u16) -> (r: Encoder)
        requires
            ppr <= u32::MAX / 4,
        ensures
            r@ == (EncoderState {
                resolution: 4 * ppr as nat,
                direction,
                last_hw_count: initial_count as int,
                software_count: 0,
            }),
    {
        // Quadrature decoding counts both edges of both phases.
        let qei_resolution: u32 = ppr * 4;
        Encoder { qei_resolution, direction, last_hw_count: initial_count, software_count: 0 }
    }

    /// Counts accumulated since construction.
    pub fn get_count(&self) -> (r: i64)
        ensures
            r == self@.software_count,
    {
        self.software_count
    }

    /// Counts per revolution.
    pub fn resolution(&self) -> (r: u32)
        ensures
            r == self@.resolution,
    {
        self.qei_resolution
    }

    /// The direction fixed at construction.
    pub fn direction(&self) -> (r: RotateDirection)
        ensures
            r == self@.direction,
    {
        self.direction
    }

    /// The hardware reading taken at the latest update.
    pub fn last_hw_count(&self) -> (r: u16)
        ensures
            r == self@.last_hw_count,
    {
        self.last_hw_count
    }

    /// Whether one more update cannot overflow the accumulated count.
    pub fn has_headroom(&self) -> (r: bool)
        ensures
            r == self@.has_headroom(),
    {
        -COUNT_LIMIT <= self.software_count && self.software_count <= COUNT_LIMIT
    }

    /// Takes the hardware reading `current_hw_count`: adds the step from the
    /// previous reading to the count (subtracts it for `Reverse`), and keeps
    /// the reading as the new baseline.
    pub fn update(&mut self, current_hw_count: u16)
        requires
            old(self)@.has_headroom(),
        ensures
            final(self)@ == old(self)@.step(current_hw_count as int),
    {
        let delta = calculate_delta(current_hw_count, self.last_hw_count);
        match self.direction {
            RotateDirection::Forward => self.software_count = self.software_count + delta,
            RotateDirection::Reverse => self.software_count = self.software_count - delta,
        }
        self.last_hw_count = current_hw_count;
    }
}

/// Updating once per sample adds, times the direction's sign, the steps
/// between the baseline and the samples in turn, and leaves the latest
/// sample as the baseline.
pub proof fn lemma_after_samples(start: EncoderState, samples: Seq<int>)
    ensures
        start.after_samples(samples).software_count == start.software_count
            + start.direction.sign() * total_steps(seq![start.last_hw_count] + samples),
        samples.len() > 0 ==> start.after_samples(samples).last_hw_count == samples.last(),
        start.after_samples(samples).resolution == start.resolution,
        start.after_samples(samples).direction == start.direction,
    decreases samples.len(),
{
    if samples.len() > 0 {
        lemma_after_samples(start, samples.drop_last());
        let all = seq![start.last_hw_count] + samples;
        assert(all.drop_last() =~= seq![start.last_hw_count] + samples.drop_last());
        assert(all.last() == samples.last());
        if samples.len() > 1 {
            assert(all[all.len() - 2] == samples.drop_last().last());
        }
        let sign = start.direction.sign();
        let before = total_steps(all.drop_last());
        let s = step_between(all.last(), all[all.len() - 2]);
        assert(sign * (before + s) == sign * before + sign * s) by (nonlinear_arith);
    }
}

/// An encoder whose baseline is the reading at `positions[0]`, updated with
/// the readings at each later position, where no two successive positions
/// are more than half the counter's range apart, ends with its count moved
/// by exactly the unwrapped distance from the first position to the last
/// (negated for `Reverse`).
pub proof fn lemma_tracks_unwrapped_position(start: EncoderState, positions: Seq<int>)
    requires
        positions.len() > 0,
        within_half_range(positions),
        start.last_hw_count == raw_reading(positions[0]),
    ensures
        start.after_samples(positions.drop_first().map_values(|p: int| raw_reading(p))).software_count
            == start.software_count + start.direction.sign() * (positions.last() - positions[0]),
{
    let readings = positions.map_values(|p: int| raw_reading(p));
    let later = positions.drop_first().map_values(|p: int| raw_reading(p));
    assert(seq![start.last_hw_count] + later =~= readings);
    lemma_after_samples(start, later);
    lemma_no_drift(positions);
}

} // verus!
