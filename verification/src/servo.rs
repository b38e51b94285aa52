//! Servo wiring: which controller pin drives each joint, how a pulse width is
//! sent to the left or the mirrored right controller, and which repeated pulses
//! are skipped.

use vstd::prelude::*;
use crate::legs::{leg_is_left, Leg, LegPart};

verus! {

/// Pulse width (controller ticks at 50 Hz) of the 0 degree end of the safe range.
pub const SERVO_MIN: u16 = 204;
/// Pulse width of the centre position.
pub const SERVO_CENTER: u16 = 307;
/// Pulse width of the 180 degree end of the safe range.
pub const SERVO_MAX: u16 = 410;
/// Number of channels of one PWM controller.
pub const CHANNELS: usize = 16;

/// (Coxa, Femur, Tibia) pin configuration for each leg.
#[derive(Debug, Clone, Copy, PartialEq, Eq)]
pub struct ServoPins {
    pub left_front: (u8, u8, u8),
    pub left_middle: (u8, u8, u8),
    pub left_back: (u8, u8, u8),
    pub right_front: (u8, u8, u8),
    pub right_middle: (u8, u8, u8),
    pub right_back: (u8, u8, u8),
}

/// The pin triple of a leg.
pub open spec fn leg_pins(p: ServoPins, leg: Leg) -> (u8, u8, u8) {
    match leg {
        Leg::LeftFront => p.left_front,
        Leg::LeftMiddle => p.left_middle,
        Leg::LeftBack => p.left_back,
        Leg::RightFront => p.right_front,
        Leg::RightMiddle => p.right_middle,
        Leg::RightBack => p.right_back,
    }
}

/// The pin of one joint of a leg.
pub open spec fn pin_spec(p: ServoPins, leg: Leg, part: LegPart) -> u8 {
    let t = leg_pins(p, leg);
    match part {
        LegPart::Coxa => t.0,
        LegPart::Femur => t.1,
        LegPart::Tibia => t.2,
    }
}

/// Each leg reads its own field of the wiring: the coxa, femur and tibia pins of
/// a leg are the first, second and third components of that leg's triple.
pub proof fn lemma_each_joint_reads_its_own_pin(p: ServoPins)
    ensures
        pin_spec(p, Leg::LeftFront, LegPart::Coxa) == p.left_front.0,
        pin_spec(p, Leg::LeftFront, LegPart::Femur) == p.left_front.1,
        pin_spec(p, Leg::LeftFront, LegPart::Tibia) == p.left_front.2,
        pin_spec(p, Leg::LeftMiddle, LegPart::Coxa) == p.left_middle.0,
        pin_spec(p, Leg::LeftMiddle, LegPart::Femur) == p.left_middle.1,
        pin_spec(p, Leg::LeftMiddle, LegPart::Tibia) == p.left_middle.2,
        pin_spec(p, Leg::LeftBack, LegPart::Coxa) == p.left_back.0,
        pin_spec(p, Leg::LeftBack, LegPart::Femur) == p.left_back.1,
        pin_spec(p, Leg::LeftBack, LegPart::Tibia) == p.left_back.2,
        pin_spec(p, Leg::RightFront, LegPart::Coxa) == p.right_front.0,
        pin_spec(p, Leg::RightFront, LegPart::Femur) == p.right_front.1,
        pin_spec(p, Leg::RightFront, LegPart::Tibia) == p.right_front.2,
        pin_spec(p, Leg::RightMiddle, LegPart::Coxa) == p.right_middle.0,
        pin_spec(p, Leg::RightMiddle, LegPart::Femur) == p.right_middle.1,
        pin_spec(p, Leg::RightMiddle, LegPart::Tibia) == p.right_middle.2,
        pin_spec(p, Leg::RightBack, LegPart::Coxa) == p.right_back.0,
        pin_spec(p, Leg::RightBack, LegPart::Femur) == p.right_back.1,
        pin_spec(p, Leg::RightBack, LegPart::Tibia) == p.right_back.2,
{
}

impl ServoPins {
    /// The pin number of a specific joint of a leg.
    pub fn get_pin(&self, leg: Leg, part: LegPart) -> (pin: u8)
        ensures
            pin == pin_spec(*self, leg, part),
    {
        let pins = match leg {
            Leg::LeftFront => self.left_front,
            Leg::LeftMiddle => self.left_middle,
            Leg::LeftBack => self.left_back,
            Leg::RightFront => self.right_front,
            Leg::RightMiddle => self.right_middle,
            Leg::RightBack => self.right_back,
        };
        match part {
            LegPart::Coxa => pins.0,
            LegPart::Femur => pins.1,
            LegPart::Tibia => pins.2,
        }
    }
}

/// A pulse to send: to the left or the right controller, on a channel, with a width.
#[derive(Debug, Clone, Copy, PartialEq, Eq)]
pub struct PwmCommand {
    pub left: bool,
    pub channel: u8,
    pub width: u16,
}

/// The width sent for a leg: as given on the left side, mirrored within the safe
/// range (`SERVO_MIN + SERVO_MAX - width`) on the right side, whose servos are
/// mounted the other way round.
pub open spec fn side_width(leg: Leg, width: u16) -> int {
    if leg_is_left(leg) {
        width as int
    } else {
        SERVO_MIN + SERVO_MAX - width
    }
}

/// The last width sent on each channel of both controllers.
#[derive(Debug, Clone, Copy, PartialEq, Eq)]
pub struct PwmCache {
    last_pwm_left: [Option<u16>; 16],
    last_pwm_right: [Option<u16>; 16],
}

/// The mathematical content of the cache: last width per channel, left and right.
pub struct PwmCacheView {
    pub left: Seq<Option<u16>>,
    pub right: Seq<Option<u16>>,
}

impl View for PwmCache {
    type V = PwmCacheView;

    closed spec fn view(&self) -> PwmCacheView {
        PwmCacheView { left: self.last_pwm_left@, right: self.last_pwm_right@ }
    }
}

impl PwmCache {
    /// Well-formedness: one slot per channel on each side.
    pub open spec fn wf(&self) -> bool {
        self@.left.len() == CHANNELS && self@.right.len() == CHANNELS
    }

    /// No width sent yet on any channel.
    pub fn new() -> (c: PwmCache)
        ensures
            c.wf(),
            forall|i: int| 0 <= i < 16 ==> c@.left[i] is None && c@.right[i] is None,
    {
        PwmCache { last_pwm_left: [None; 16], last_pwm_right: [None; 16] }
    }

    /// Whether `target` was the last width sent on this channel; if not, it is
    /// recorded as the last one.
    pub fn should_skip_pwm(&mut self, is_left: bool, pin: u8, target: u16) -> (skip: bool)
        requires
            old(self).wf(),
            pin < CHANNELS,
        ensures
            final(self).wf(),
            is_left ==> skip == (old(self)@.left[pin as int] == Some(target)),
            !is_left ==> skip == (old(self)@.right[pin as int] == Some(target)),
            is_left ==> final(self)@.left == old(self)@.left.update(pin as int, Some(target))
                && final(self)@.right == old(self)@.right,
            !is_left ==> final(self)@.right == old(self)@.right.update(pin as int, Some(target))
                && final(self)@.left == old(self)@.left,
    {
        let i = pin as usize;
        let prev = if is_left {
            self.last_pwm_left[i]
        } else {
            self.last_pwm_right[i]
        };
        if let Some(p) = prev {
            if p == target {
                proof {
                    if is_left {
                        assert(self@.left.update(pin as int, Some(target)) =~= self@.left);
                    } else {
                        assert(self@.right.update(pin as int, Some(target)) =~= self@.right);
                    }
                }
                return true;
            }
        }
        if is_left {
            self.last_pwm_left[i] = Some(target);
        } else {
            self.last_pwm_right[i] = Some(target);
        }
        false
    }

    /// The pulse to send for a joint of `leg` on `pin` with (already offset and
    /// clamped) width `width`: `None` when that very width was the last one sent on
    /// that channel, which is then left alone (see `plan_spec`).
    pub fn plan_pwm(&mut self, leg: Leg, pin: u8, width: u16) -> (cmd: Option<PwmCommand>)
        requires
            old(self).wf(),
            pin < CHANNELS,
            width <= SERVO_MIN + SERVO_MAX,
        ensures
            final(self).wf(),
            cmd == plan_spec(old(self)@, leg, pin, width).0,
            final(self)@.left == plan_spec(old(self)@, leg, pin, width).1.left,
            final(self)@.right == plan_spec(old(self)@, leg, pin, width).1.right,
    {
        let left = leg.is_left();
        let w: u16 = if left {
            width
        } else {
            SERVO_MIN + SERVO_MAX - width
        };
        if self.should_skip_pwm(left, pin, w) {
            None
        } else {
            Some(PwmCommand { left, channel: pin, width: w })
        }
    }
}

/// The last width recorded for a channel of the left or the right controller.
pub open spec fn last_sent(c: PwmCacheView, left: bool, pin: int) -> Option<u16> {
    if left {
        c.left[pin]
    } else {
        c.right[pin]
    }
}

/// The pulse planned for a joint of `leg` on `pin` with width `width`, and the
/// cache afterwards: the width is mirrored for the right side; nothing is sent
/// when it equals the last width sent on that channel; otherwise it is sent and
/// recorded as the channel's last width.
pub open spec fn plan_spec(c: PwmCacheView, leg: Leg, pin: u8, width: u16) -> (Option<PwmCommand>, PwmCacheView) {
    let left = leg_is_left(leg);
    let w = side_width(leg, width) as u16;
    if last_sent(c, left, pin as int) == Some(w) {
        (None, c)
    } else {
        let c2 = if left {
            PwmCacheView { left: c.left.update(pin as int, Some(w)), right: c.right }
        } else {
            PwmCacheView { left: c.left, right: c.right.update(pin as int, Some(w)) }
        };
        (Some(PwmCommand { left, channel: pin, width: w }), c2)
    }
}

/// Where and how a planned pulse goes: to the controller of the leg's side
/// (left for the three left legs), on the given channel; on the left with the
/// width as given, on the right with the width mirrored within the safe range,
/// so that the two widths add up to `SERVO_MIN + SERVO_MAX` (the centre stays the
/// centre and the ends of the range swap). It is sent exactly when it differs
/// from the last width sent on that channel of that controller.
pub proof fn lemma_plan_side_and_width(c: PwmCacheView, leg: Leg, pin: u8, width: u16)
    requires
        width <= SERVO_MIN + SERVO_MAX,
    ensures
        ({
            let left = leg == Leg::LeftFront || leg == Leg::LeftMiddle || leg == Leg::LeftBack;
            let w: int = if left { width as int } else { 614 - width };
            let prev = if left { c.left[pin as int] } else { c.right[pin as int] };
            match plan_spec(c, leg, pin, width).0 {
                Some(cmd) => cmd.left == left && cmd.channel == pin && cmd.width == w && prev
                    != Some(cmd.width),
                None => 0 <= w <= 65535 && prev == Some(w as u16),
            }
        }),
        SERVO_MIN + SERVO_MAX == 614,
{
}

/// A pulse is never sent twice in a row: planning the same pulse again right
/// after it was planned sends nothing and leaves the cache as it was.
pub proof fn lemma_repeat_pulse_skipped(c: PwmCacheView, leg: Leg, pin: u8, width: u16)
    requires
        c.left.len() == CHANNELS,
        c.right.len() == CHANNELS,
        pin < CHANNELS,
    ensures
        plan_spec(plan_spec(c, leg, pin, width).1, leg, pin, width).0 is None,
        plan_spec(plan_spec(c, leg, pin, width).1, leg, pin, width).1 == plan_spec(c, leg, pin, width).1,
{
}

/// Pulses on different channels, or for legs on different sides, do not affect
/// each other's skipping: planning one leaves the other's last width unchanged.
pub proof fn lemma_channels_independent(c: PwmCacheView, leg: Leg, pin: u8, width: u16, left2: bool, pin2: u8)
    requires
        c.left.len() == CHANNELS,
        c.right.len() == CHANNELS,
        pin < CHANNELS,
        pin2 < CHANNELS,
        pin2 != pin || left2 != leg_is_left(leg),
    ensures
        last_sent(plan_spec(c, leg, pin, width).1, left2, pin2 as int) == last_sent(c, left2, pin2 as int),
{
}

} // verus!
