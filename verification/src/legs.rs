//! Identification of the six legs and their three joints.

use vstd::prelude::*;

verus! {

/// One of the six legs, as the servo wiring names them.
#[derive(Debug, Clone, Copy, PartialEq, Eq)]
pub enum Leg {
    LeftFront,
    LeftMiddle,
    LeftBack,
    RightFront,
    RightMiddle,
    RightBack,
}

/// Whether a leg is on the left side of the body.
pub open spec fn leg_is_left(leg: Leg) -> bool {
    leg == Leg::LeftFront || leg == Leg::LeftMiddle || leg == Leg::LeftBack
}

impl Leg {
    /// Whether this leg is on the left side.
    pub fn is_left(&self) -> (b: bool)
        ensures
            b == leg_is_left(*self),
    {
        matches!(self, Leg::LeftFront | Leg::LeftMiddle | Leg::LeftBack)
    }

    /// Whether this leg is on the right side.
    pub fn is_right(&self) -> (b: bool)
        ensures
            b == !leg_is_left(*self),
    {
        matches!(self, Leg::RightFront | Leg::RightMiddle | Leg::RightBack)
    }
}

/// Every leg is on exactly one side.
pub proof fn lemma_each_leg_has_one_side(leg: Leg)
    ensures
        leg_is_left(leg) != (leg == Leg::RightFront || leg == Leg::RightMiddle || leg
            == Leg::RightBack),
{
}

/// One of the three joints of a leg, from the body outwards.
#[derive(Debug, Clone, Copy, PartialEq, Eq)]
pub enum LegPart {
    Coxa,
    Femur,
    Tibia,
}

/// One of the six legs, as the kinematic model names them.
#[derive(Debug, Clone, Copy, PartialEq, Eq, Hash)]
pub enum LegId {
    LeftFront,
    LeftMiddle,
    LeftBack,
    RightFront,
    RightMiddle,
    RightBack,
}

/// One of the three joints of a leg, as the kinematic model names them.
#[derive(Debug, Clone, Copy, PartialEq, Eq)]
pub enum Joint {
    Coxa,
    Femur,
    Tibia,
}

/// Position of a leg in the order left front, left middle, left back, right
/// front, right middle, right back.
pub open spec fn leg_index(leg: LegId) -> int {
    match leg {
        LegId::LeftFront => 0,
        LegId::LeftMiddle => 1,
        LegId::LeftBack => 2,
        LegId::RightFront => 3,
        LegId::RightMiddle => 4,
        LegId::RightBack => 5,
    }
}

/// The leg at position `i` of that order.
pub open spec fn leg_at(i: int) -> LegId {
    if i == 0 {
        LegId::LeftFront
    } else if i == 1 {
        LegId::LeftMiddle
    } else if i == 2 {
        LegId::LeftBack
    } else if i == 3 {
        LegId::RightFront
    } else if i == 4 {
        LegId::RightMiddle
    } else {
        LegId::RightBack
    }
}

impl LegId {
    /// Position of this leg in the order left front .. right back.
    pub fn index(&self) -> (i: usize)
        ensures
            i == leg_index(*self),
            i < 6,
    {
        match self {
            LegId::LeftFront => 0,
            LegId::LeftMiddle => 1,
            LegId::LeftBack => 2,
            LegId::RightFront => 3,
            LegId::RightMiddle => 4,
            LegId::RightBack => 5,
        }
    }

    /// The leg at position `i` of the order left front .. right back.
    pub fn from_index(i: usize) -> (leg: LegId)
        requires
            i < 6,
        ensures
            leg == leg_at(i as int),
            leg_index(leg) == i,
    {
        if i == 0 {
            LegId::LeftFront
        } else if i == 1 {
            LegId::LeftMiddle
        } else if i == 2 {
            LegId::LeftBack
        } else if i == 3 {
            LegId::RightFront
        } else if i == 4 {
            LegId::RightMiddle
        } else {
            LegId::RightBack
        }
    }
}

/// Positions and legs correspond one to one.
pub proof fn lemma_leg_index_bijective(leg: LegId, i: int)
    requires
        0 <= i < 6,
    ensures
        leg_at(leg_index(leg)) == leg,
        leg_index(leg_at(i)) == i,
        0 <= leg_index(leg) < 6,
{
}

/// The order of the legs: left front, left middle, left back, right front,
/// right middle, right back, at positions 0 to 5.
pub proof fn lemma_leg_order()
    ensures
        leg_index(LegId::LeftFront) == 0,
        leg_index(LegId::LeftMiddle) == 1,
        leg_index(LegId::LeftBack) == 2,
        leg_index(LegId::RightFront) == 3,
        leg_index(LegId::RightMiddle) == 4,
        leg_index(LegId::RightBack) == 5,
        leg_at(0) == LegId::LeftFront,
        leg_at(1) == LegId::LeftMiddle,
        leg_at(2) == LegId::LeftBack,
        leg_at(3) == LegId::RightFront,
        leg_at(4) == LegId::RightMiddle,
        leg_at(5) == LegId::RightBack,
{
}

} // verus!
