//! Gait patterns and the choice of which legs take part in walking.

use vstd::prelude::*;
use crate::legs::{leg_at, leg_index, LegId};
use std::collections::HashSet;

verus! {

broadcast use vstd::std_specs::hash::group_hash_axioms;

/// Gait patterns.
#[derive(Clone, Copy, Debug, PartialEq, Eq, Default)]
pub enum GaitType {
    /// Classic tripod gait: three legs move while three support.
    #[default]
    Tripod,
    /// Two legs move while four support; used when a leg is disabled.
    Tetrapod,
    /// A single leg moves at a time.
    Wave,
    /// Legs move in sequence with more overlap than the wave gait.
    Ripple,
}

/// Number of phases in each gait's cycle.
pub open spec fn phase_count_spec(g: GaitType) -> int {
    match g {
        GaitType::Tripod => 2,
        GaitType::Tetrapod => 3,
        GaitType::Wave => 6,
        GaitType::Ripple => 6,
    }
}

/// The gait that follows `g` in the cycle Tripod, Tetrapod, Wave, Ripple.
pub open spec fn next_spec(g: GaitType) -> GaitType {
    match g {
        GaitType::Tripod => GaitType::Tetrapod,
        GaitType::Tetrapod => GaitType::Wave,
        GaitType::Wave => GaitType::Ripple,
        GaitType::Ripple => GaitType::Tripod,
    }
}

impl GaitType {
    /// Display name of the gait.
    pub fn name(&self) -> (s: &'static str)
        ensures
            *self == GaitType::Tripod ==> s@ == "Tripod"@,
            *self == GaitType::Tetrapod ==> s@ == "Tetrapod"@,
            *self == GaitType::Wave ==> s@ == "Wave"@,
            *self == GaitType::Ripple ==> s@ == "Ripple"@,
    {
        match self {
            GaitType::Tripod => "Tripod",
            GaitType::Tetrapod => "Tetrapod",
            GaitType::Wave => "Wave",
            GaitType::Ripple => "Ripple",
        }
    }

    /// Number of phases in the gait cycle.
    pub fn phase_count(&self) -> (n: usize)
        ensures
            n == phase_count_spec(*self),
    {
        match self {
            GaitType::Tripod => 2,
            GaitType::Tetrapod => 3,
            GaitType::Wave => 6,
            GaitType::Ripple => 6,
        }
    }

    /// Cycle to the next gait type.
    pub fn next(&self) -> (g: GaitType)
        ensures
            g == next_spec(*self),
    {
        match self {
            GaitType::Tripod => GaitType::Tetrapod,
            GaitType::Tetrapod => GaitType::Wave,
            GaitType::Wave => GaitType::Ripple,
            GaitType::Ripple => GaitType::Tripod,
        }
    }
}

/// The gait cycle and its phase counts: Tripod (2 phases), then Tetrapod (3),
/// then Wave (6), then Ripple (6), then Tripod again.
pub proof fn lemma_gait_order()
    ensures
        next_spec(GaitType::Tripod) == GaitType::Tetrapod,
        next_spec(GaitType::Tetrapod) == GaitType::Wave,
        next_spec(GaitType::Wave) == GaitType::Ripple,
        next_spec(GaitType::Ripple) == GaitType::Tripod,
        phase_count_spec(GaitType::Tripod) == 2,
        phase_count_spec(GaitType::Tetrapod) == 3,
        phase_count_spec(GaitType::Wave) == 6,
        phase_count_spec(GaitType::Ripple) == 6,
{
}

/// Cycling through the gaits returns to the start after four steps and visits
/// four different gaits on the way.
pub proof fn lemma_next_cycles(g: GaitType)
    ensures
        next_spec(next_spec(next_spec(next_spec(g)))) == g,
        next_spec(g) != g,
        next_spec(next_spec(g)) != g,
        next_spec(next_spec(next_spec(g))) != g,
        phase_count_spec(g) >= 2,
{
}

/// A set of legs, held by their positions in the order left front (0) .. right back (5).
#[derive(Debug, PartialEq, Eq)]
pub struct LegSet {
    legs: HashSet<u8>,
}

impl View for LegSet {
    type V = Set<u8>;

    closed spec fn view(&self) -> Set<u8> {
        self.legs@
    }
}

impl Clone for LegSet {
    /// A set holding the same legs.
    fn clone(&self) -> (c: LegSet)
        ensures
            self.wf() ==> c@ == self@,
    {
        let mut c = LegSet::new();
        let mut i: usize = 0;
        while i < 6
            invariant
                i <= 6,
                c.wf(),
                forall|k: u8| #[trigger] c@.contains(k) <==> (k < i && self@.contains(k)),
            decreases 6 - i,
        {
            let leg = LegId::from_index(i);
            if self.contains(leg) {
                c.insert(leg);
            }
            i = i + 1;
        }
        proof {
            if self.wf() {
                assert(c@ =~= self@);
            }
        }
        c
    }
}

/// The position under which a leg is held in a `LegSet`.
pub open spec fn leg_key(leg: LegId) -> u8 {
    leg_index(leg) as u8
}

/// The set of all leg positions.
pub open spec fn all_leg_keys() -> Set<u8> {
    set![0u8, 1u8, 2u8, 3u8, 4u8, 5u8]
}

/// A leg position flipped in or out of a set.
pub open spec fn toggled(s: Set<u8>, k: u8) -> Set<u8> {
    if s.contains(k) {
        s.remove(k)
    } else {
        s.insert(k)
    }
}

impl LegSet {
    /// Well-formedness: a finite set of leg positions.
    pub open spec fn wf(&self) -> bool {
        &&& self@.finite()
        &&& self@.subset_of(all_leg_keys())
    }

    /// Whether the set holds `leg`.
    pub open spec fn has(&self, leg: LegId) -> bool {
        self@.contains(leg_key(leg))
    }

    /// The empty set.
    pub fn new() -> (s: LegSet)
        ensures
            s.wf(),
            s@ == Set::<u8>::empty(),
    {
        LegSet { legs: HashSet::new() }
    }

    /// Whether the set holds `leg`.
    pub fn contains(&self, leg: LegId) -> (b: bool)
        ensures
            b == self.has(leg),
    {
        let k: u8 = leg.index() as u8;
        self.legs.contains(&k)
    }

    /// Add `leg` to the set.
    pub fn insert(&mut self, leg: LegId)
        requires
            old(self).wf(),
        ensures
            final(self).wf(),
            final(self)@ == old(self)@.insert(leg_key(leg)),
    {
        let k: u8 = leg.index() as u8;
        self.legs.insert(k);
    }

    /// Remove `leg` from the set.
    pub fn remove(&mut self, leg: LegId)
        requires
            old(self).wf(),
        ensures
            final(self).wf(),
            final(self)@ == old(self)@.remove(leg_key(leg)),
    {
        let k: u8 = leg.index() as u8;
        self.legs.remove(&k);
    }

    /// Number of legs in the set.
    pub fn len(&self) -> (n: usize)
        requires
            self.wf(),
        ensures
            n == self@.len(),
            n <= 6,
    {
        proof {
            vstd::set_lib::lemma_len_subset(self@, all_leg_keys());
        }
        self.legs.len()
    }

    /// Whether the set holds no leg.
    pub fn is_empty(&self) -> (b: bool)
        requires
            self.wf(),
        ensures
            b == (self@ == Set::<u8>::empty()),
            b == (forall|l: LegId| !self.has(l)),
    {
        let b = self.legs.is_empty();
        proof {
            if !b {
                let k = choose|k: u8| self@.contains(k);
                assert(self@.contains(k));
                assert(all_leg_keys().contains(k));
                assert(leg_key(leg_at(k as int)) == k);
                assert(self.has(leg_at(k as int)));
            }
        }
        b
    }

    /// The legs outside the set, in the order left front .. right back.
    pub fn absent_in_order(&self) -> (legs: Vec<LegId>)
        ensures
            legs@ == Seq::new(6, |i: int| leg_at(i)).filter(|l: LegId| !self.has(l)),
    {
        let mut legs: Vec<LegId> = Vec::new();
        let mut i: usize = 0;
        let ghost all = Seq::new(6, |i: int| leg_at(i));
        let ghost pred = |l: LegId| !self.has(l);
        while i < 6
            invariant
                i <= 6,
                all == Seq::new(6, |i: int| leg_at(i)),
                pred == (|l: LegId| !self.has(l)),
                legs@ == all.take(i as int).filter(pred),
            decreases 6 - i,
        {
            let leg = LegId::from_index(i);
            assert(all.take(i + 1).drop_last() =~= all.take(i as int));
            assert(all.take(i + 1).last() == leg);
            reveal_with_fuel(Seq::<_>::filter, 1);
            if !self.contains(leg) {
                legs.push(leg);
            }
            i = i + 1;
        }
        assert(all.take(6) =~= all);
        legs
    }
}

/// Which gait is walked and which legs are left out of it.
#[derive(Clone, Debug, PartialEq, Eq)]
pub struct GaitConfig {
    /// Current gait type.
    pub gait_type: GaitType,
    /// Legs that are not animated.
    pub disabled_legs: LegSet,
}

impl Default for GaitConfig {
    fn default() -> (c: GaitConfig)
        ensures
            c.gait_type == GaitType::Tripod,
            c.disabled_legs.wf(),
            c.disabled_legs@ == Set::<u8>::empty(),
    {
        GaitConfig { gait_type: GaitType::Tripod, disabled_legs: LegSet::new() }
    }
}

impl GaitConfig {
    /// Whether a leg is enabled (not disabled).
    pub fn is_leg_enabled(&self, leg: LegId) -> (b: bool)
        ensures
            b == !self.disabled_legs.has(leg),
    {
        !self.disabled_legs.contains(leg)
    }

    /// Toggle a leg's enabled state; a tripod gait becomes a tetrapod gait when
    /// a leg is disabled afterwards.
    pub fn toggle_leg(&mut self, leg: LegId)
        requires
            old(self).disabled_legs.wf(),
        ensures
            final(self).disabled_legs.wf(),
            final(self).disabled_legs@ == toggled(old(self).disabled_legs@, leg_key(leg)),
            final(self).gait_type == if old(self).gait_type == GaitType::Tripod && exists|l: LegId|
                #[trigger] final(self).disabled_legs.has(l) {
                GaitType::Tetrapod
            } else {
                old(self).gait_type
            },
    {
        if self.disabled_legs.contains(leg) {
            self.disabled_legs.remove(leg);
        } else {
            self.disabled_legs.insert(leg);
        }
        let empty = self.disabled_legs.is_empty();
        if !empty && matches!(self.gait_type, GaitType::Tripod) {
            self.gait_type = GaitType::Tetrapod;
        }
    }

    /// Disable a leg; a tripod gait becomes a tetrapod gait.
    pub fn disable_leg(&mut self, leg: LegId)
        requires
            old(self).disabled_legs.wf(),
        ensures
            final(self).disabled_legs.wf(),
            final(self).disabled_legs@ == old(self).disabled_legs@.insert(leg_key(leg)),
            final(self).gait_type == if old(self).gait_type == GaitType::Tripod {
                GaitType::Tetrapod
            } else {
                old(self).gait_type
            },
    {
        self.disabled_legs.insert(leg);
        if matches!(self.gait_type, GaitType::Tripod) {
            self.gait_type = GaitType::Tetrapod;
        }
    }

    /// Enable a leg; the gait is unchanged.
    pub fn enable_leg(&mut self, leg: LegId)
        requires
            old(self).disabled_legs.wf(),
        ensures
            final(self).disabled_legs.wf(),
            final(self).disabled_legs@ == old(self).disabled_legs@.remove(leg_key(leg)),
            final(self).gait_type == old(self).gait_type,
    {
        self.disabled_legs.remove(leg);
    }

    /// Number of enabled legs.
    pub fn enabled_leg_count(&self) -> (n: usize)
        requires
            self.disabled_legs.wf(),
        ensures
            n == 6 - self.disabled_legs@.len(),
    {
        6 - self.disabled_legs.len()
    }
}

/// Toggling a leg twice leaves the set of disabled legs as it was.
pub proof fn lemma_toggle_twice(s: Set<u8>, k: u8)
    ensures
        toggled(toggled(s, k), k) == s,
{
    assert(toggled(toggled(s, k), k) =~= s);
}

/// Number of phase slots of the tetrapod gait for `enabled` legs: legs are paired,
/// so half of them rounded up (at least one slot).
pub open spec fn tetrapod_slots_spec(enabled: int) -> int {
    let n = if enabled < 1 { 1 } else { enabled };
    (n + 1) / 2
}

/// Number of phase slots of the tetrapod gait for `enabled` legs.
pub fn tetrapod_slots(enabled: usize) -> (k: usize)
    requires
        enabled <= 6,
    ensures
        k == tetrapod_slots_spec(enabled as int),
        1 <= k <= 3,
{
    let n = if enabled < 1 { 1 } else { enabled };
    (n + 1) / 2
}

} // verus!
