//! The actuator of the bridge and the decoder of the encoder.
//!
//! A [`Motor`] holds what the bridge was last told: the level of its two
//! direction inputs and the duty of its enable input. A [`MotorEncoder`]
//! counts the rising edges of the encoder's channel A, up or down by the
//! level of channel B.

use vstd::prelude::*;
use crate::speed::{
    duty_for, in_range, is_zero, lemma_duty_within_period, lemma_range_by_pattern,
    lemma_zero_has_no_duty, rounded_duty, sign_set, speed_in_range, speed_is_negative,
    speed_is_zero, PERIOD,
};

verus! {

/// The level of a digital line.
#[derive(Clone, Copy, Debug, PartialEq, Eq, Structural)]
pub enum Level {
    Low,
    High,
}

/// What the bridge is given: the level of its forward and of its reverse
/// direction input, and the duty of its enable input in steps of the period.
#[derive(Clone, Copy, Debug, PartialEq, Eq, Structural)]
pub struct Bridge {
    pub forward: Level,
    pub reverse: Level,
    pub duty: u16,
}

impl Bridge {
    /// Both direction inputs high would short the legs of the bridge, and a
    /// duty cannot exceed the period.
    pub open spec fn safe(self) -> bool {
        &&& !(self.forward == Level::High && self.reverse == Level::High)
        &&& self.duty <= PERIOD
    }
}

/// The bridge at rest: both direction inputs low, no duty.
pub open spec fn stopped() -> Bridge {
    Bridge { forward: Level::Low, reverse: Level::Low, duty: 0 }
}

/// What a speed in `[-1, 1]`, given by its bit pattern, asks of the bridge.
/// A zero of either sign asks for rest. Any other speed raises the direction
/// input of its sign alone and asks for the rounded duty of its magnitude.
pub open spec fn commanded(speed_bits: u32) -> Bridge {
    if is_zero(speed_bits) {
        stopped()
    } else if sign_set(speed_bits) {
        Bridge { forward: Level::Low, reverse: Level::High, duty: rounded_duty(speed_bits) as u16 }
    } else {
        Bridge { forward: Level::High, reverse: Level::Low, duty: rounded_duty(speed_bits) as u16 }
    }
}

/// One write to the bridge: a level for one direction input, or a duty for
/// the enable input.
#[derive(Clone, Copy, Debug, PartialEq, Eq, Structural)]
pub enum PinWrite {
    Forward(Level),
    Reverse(Level),
    Duty(u16),
}

/// The bridge after one write.
pub open spec fn written(bridge: Bridge, write: PinWrite) -> Bridge {
    match write {
        PinWrite::Forward(level) => Bridge { forward: level, ..bridge },
        PinWrite::Reverse(level) => Bridge { reverse: level, ..bridge },
        PinWrite::Duty(duty) => Bridge { duty, ..bridge },
    }
}

/// Three writes, to be made in this order.
#[derive(Clone, Copy, Debug, PartialEq, Eq, Structural)]
pub struct WritePlan {
    pub first: PinWrite,
    pub second: PinWrite,
    pub third: PinWrite,
}

impl WritePlan {
    /// The bridge after all three writes.
    pub open spec fn carried_out(self, before: Bridge) -> Bridge {
        written(written(written(before, self.first), self.second), self.third)
    }

    /// Whether the bridge is safe after each of the three writes.
    pub open spec fn safe_throughout(self, before: Bridge) -> bool {
        &&& written(before, self.first).safe()
        &&& written(written(before, self.first), self.second).safe()
        &&& self.carried_out(before).safe()
    }
}

/// A speed that `drive` does not take: the pattern of a number outside
/// `[-1, 1]`, or of no number.
#[derive(Clone, Copy, Debug, PartialEq, Eq, Structural)]
pub struct SpeedOutOfRange {
    pub speed_bits: u32,
}

/// The actuator: what the bridge was last told.
pub struct Motor {
    in1: Level,
    in2: Level,
    duty: u16,
}

impl View for Motor {
    type V = Bridge;

    closed spec fn view(&self) -> Bridge {
        Bridge { forward: self.in1, reverse: self.in2, duty: self.duty }
    }
}

impl Motor {
    #[verifier::type_invariant]
    closed spec fn bridge_is_safe(self) -> bool {
        self@.safe()
    }

    /// A motor at rest.
    pub fn take() -> (motor: Motor)
        ensures
            motor@ == stopped(),
    {
        Motor { in1: Level::Low, in2: Level::Low, duty: 0 }
    }

    /// A new decoder, which has counted nothing yet.
    pub fn with_encoder(&self) -> (encoder: MotorEncoder)
        ensures
            encoder.counter == 0,
    {
        MotorEncoder::new()
    }

    /// What the bridge is told now. It is always safe.
    pub fn bridge(&self) -> (bridge: Bridge)
        ensures
            bridge == self@,
            bridge.safe(),
    {
        proof {
            use_type_invariant(self);
        }
        Bridge { forward: self.in1, reverse: self.in2, duty: self.duty }
    }

    /// The writes that bring a bridge to what this motor tells it, from
    /// whatever it was told before. The direction input that goes low is
    /// written first, so that a safe bridge is safe after each write.
    pub fn writes(&self) -> (plan: WritePlan)
        ensures
            forall|before: Bridge| #[trigger] plan.carried_out(before) == self@,
            forall|before: Bridge| before.safe() ==> #[trigger] plan.safe_throughout(before),
    {
        proof {
            use_type_invariant(self);
        }
        match self.in1 {
            Level::Low => WritePlan {
                first: PinWrite::Forward(Level::Low),
                second: PinWrite::Reverse(self.in2),
                third: PinWrite::Duty(self.duty),
            },
            Level::High => WritePlan {
                first: PinWrite::Reverse(Level::Low),
                second: PinWrite::Forward(Level::High),
                third: PinWrite::Duty(self.duty),
            },
        }
    }

    /// Brings the bridge to rest, whatever it was told before.
    pub fn stop(&mut self)
        ensures
            final(self)@ == stopped(),
    {
        *self = Motor { in1: Level::Low, in2: Level::Low, duty: 0 };
    }

    /// Tells the bridge what `speed_bits` asks, the pattern of a speed in
    /// `[-1, 1]`.
    pub fn drive(&mut self, speed_bits: u32)
        requires
            in_range(speed_bits),
        ensures
            final(self)@ == commanded(speed_bits),
            final(self)@.duty == rounded_duty(speed_bits),
            !is_zero(speed_bits) ==> (final(self)@.forward == Level::High) != (final(self)@.reverse
                == Level::High),
    {
        if speed_is_zero(speed_bits) {
            proof {
                lemma_zero_has_no_duty(speed_bits);
            }
            self.stop();
        } else {
            let duty: u16 = duty_for(speed_bits);
            if speed_is_negative(speed_bits) {
                *self = Motor { in1: Level::Low, in2: Level::High, duty };
            } else {
                *self = Motor { in1: Level::High, in2: Level::Low, duty };
            }
        }
    }

    /// `drive` for any pattern: one that is no speed in `[-1, 1]` is refused,
    /// and the bridge is left as it was.
    pub fn try_drive(&mut self, speed_bits: u32) -> (outcome: Result<(), SpeedOutOfRange>)
        ensures
            in_range(speed_bits) ==> outcome is Ok && final(self)@ == commanded(speed_bits),
            !in_range(speed_bits) ==> outcome == Err::<(), SpeedOutOfRange>(
                SpeedOutOfRange { speed_bits },
            ) && final(self)@ == old(self)@,
    {
        if speed_in_range(speed_bits) {
            self.drive(speed_bits);
            Ok(())
        } else {
            Err(SpeedOutOfRange { speed_bits })
        }
    }
}

/// What the two lines of the encoder show: whether channel A has latched a
/// rising edge that nobody has served yet, and the level of channel B.
#[derive(Clone, Copy, Debug, PartialEq, Eq, Structural)]
pub struct EncoderLines {
    pub edge_pending: bool,
    pub channel_b: Level,
}

/// The count after the lines were served: unchanged without a pending edge,
/// else one less where channel B is high and one more where it is low.
pub open spec fn counted(counter: int, lines: EncoderLines) -> int {
    if !lines.edge_pending {
        counter
    } else if lines.channel_b == Level::High {
        counter - 1
    } else {
        counter + 1
    }
}

/// The lines after they were served: the pending edge is cleared, channel B
/// is as it was.
pub open spec fn served(lines: EncoderLines) -> EncoderLines {
    EncoderLines { edge_pending: false, channel_b: lines.channel_b }
}

/// The decoder: the net number of edges counted since it was made.
pub struct MotorEncoder {
    pub counter: i32,
}

impl MotorEncoder {
    fn new() -> (encoder: MotorEncoder)
        ensures
            encoder.counter == 0,
    {
        MotorEncoder { counter: 0 }
    }

    /// Whether the count that serving `lines` leads to can be held.
    pub open spec fn can_count(self, lines: EncoderLines) -> bool {
        i32::MIN <= counted(self.counter as int, lines) <= i32::MAX
    }

    /// Whether `update` may be called on `lines`.
    pub fn can_update(&self, lines: &EncoderLines) -> (can: bool)
        ensures
            can == self.can_count(*lines),
    {
        if !lines.edge_pending {
            true
        } else if lines.channel_b == Level::High {
            self.counter > i32::MIN
        } else {
            self.counter < i32::MAX
        }
    }

    /// Serves the lines: counts a pending edge by the level of channel B and
    /// clears it. Says whether there was an edge to serve.
    pub fn update(&mut self, lines: &mut EncoderLines) -> (handled: bool)
        requires
            old(self).can_count(*old(lines)),
        ensures
            handled == old(lines).edge_pending,
            final(self).counter == counted(old(self).counter as int, *old(lines)),
            *final(lines) == served(*old(lines)),
    {
        if lines.edge_pending {
            if lines.channel_b == Level::High {
                self.counter = self.counter - 1;
            } else {
                self.counter = self.counter + 1;
            }
            lines.edge_pending = false;
            return true;
        }
        false
    }
}

/// A speed in range that is not zero raises exactly one direction input, and
/// whatever a speed in range asks of the bridge is safe.
pub proof fn lemma_drive_raises_one_direction(speed_bits: u32)
    requires
        in_range(speed_bits),
    ensures
        commanded(speed_bits).safe(),
        commanded(speed_bits).duty == rounded_duty(speed_bits),
        !is_zero(speed_bits) ==> (commanded(speed_bits).forward == Level::High) != (commanded(
            speed_bits,
        ).reverse == Level::High),
{
    lemma_duty_within_period(speed_bits);
    if is_zero(speed_bits) {
        lemma_zero_has_no_duty(speed_bits);
    }
}

/// A zero speed, of either sign, is in range and asks of the bridge what
/// `stop` does.
pub proof fn lemma_zero_speed_is_stop(speed_bits: u32)
    requires
        speed_bits == 0 || speed_bits == 0x8000_0000,
    ensures
        is_zero(speed_bits),
        in_range(speed_bits),
        commanded(speed_bits) == stopped(),
{
    lemma_range_by_pattern(speed_bits);
}

/// Once the lines were served, serving them again counts nothing, whatever
/// channel B shows by then, until channel A latches a new edge.
pub proof fn lemma_second_update_counts_nothing(
    counter: int,
    lines: EncoderLines,
    later_channel_b: Level,
)
    ensures
        !(EncoderLines { channel_b: later_channel_b, ..served(lines) }).edge_pending,
        counted(
            counted(counter, lines),
            (EncoderLines { channel_b: later_channel_b, ..served(lines) }),
        ) == counted(counter, lines),
{
}

} // verus!
