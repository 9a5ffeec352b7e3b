use vstd::prelude::*;

verus! {

/// Stands for "no upper bound" in `Intercept::Success { max, .. }`: the minion is still in
/// the blast when the simulation stops and stays there afterwards.
pub const UNBOUNDED_TICK: i32 = 2147483647;

/// When the thrown minion becomes dangerous (`eat`) and when it can first be frozen
/// (`iceable`), merged over every sample taken so far.
#[derive(PartialEq, Eq, Structural, Debug, Clone, Copy)]
pub enum Eat {
    Empty,
    Both { eat: i32, iceable: i32 },
}

/// Ticks during which the blast can destroy the minion.
#[derive(PartialEq, Eq, Structural, Debug, Clone, Copy)]
pub enum Intercept {
    Empty,
    Fail,
    OnlyHighIndexImp,
    Success { min: i32, max: i32 },
}

pub open spec fn min_int(a: int, b: int) -> int {
    if a <= b { a } else { b }
}

pub open spec fn max_int(a: int, b: int) -> int {
    if a >= b { a } else { b }
}

/// Worst case of two samples: the earlier eat tick, the later iceable tick.
pub open spec fn eat_merge(a: Eat, b: Eat) -> Eat {
    match (a, b) {
        (Eat::Empty, _) => b,
        (_, Eat::Empty) => a,
        (Eat::Both { eat: e1, iceable: i1 }, Eat::Both { eat: e2, iceable: i2 }) => Eat::Both {
            eat: min_int(e1 as int, e2 as int) as i32,
            iceable: max_int(i1 as int, i2 as int) as i32,
        },
    }
}

/// Two windows merge to their overlap, or to `Fail` when they do not overlap; any other
/// pair that does not hold `Empty` merges to `Fail`.
pub open spec fn intercept_merge(a: Intercept, b: Intercept) -> Intercept {
    match (a, b) {
        (Intercept::Empty, _) => b,
        (_, Intercept::Empty) => a,
        (Intercept::Success { min: l1, max: h1 }, Intercept::Success { min: l2, max: h2 }) => {
            let lo = max_int(l1 as int, l2 as int);
            let hi = min_int(h1 as int, h2 as int);
            if lo <= hi {
                Intercept::Success { min: lo as i32, max: hi as i32 }
            } else {
                Intercept::Fail
            }
        },
        _ => Intercept::Fail,
    }
}

/// The window after one more observed tick.
pub open spec fn intercept_update(i: Intercept, tick: i32, interceptable: bool) -> Intercept {
    match i {
        Intercept::Empty | Intercept::Fail => {
            if interceptable {
                Intercept::OnlyHighIndexImp
            } else {
                Intercept::Fail
            }
        },
        Intercept::OnlyHighIndexImp => {
            if interceptable {
                Intercept::Success { min: tick, max: tick }
            } else {
                i
            }
        },
        Intercept::Success { min, max } => {
            if interceptable {
                Intercept::Success { min, max: tick }
            } else {
                i
            }
        },
    }
}

impl Intercept {
    /// A success window never ends before it starts.
    pub open spec fn wf(self) -> bool {
        match self {
            Intercept::Success { min, max } => min <= max,
            _ => true,
        }
    }

    /// Folds the result of one more sample into `self`.
    pub fn merge(self, other: Self) -> (r: Self)
        ensures
            r == intercept_merge(self, other),
    {
        match (self, other) {
            (Intercept::Empty, any) => any,
            (any, Intercept::Empty) => any,
            (Intercept::Success { min, max }, Intercept::Success { min: other_min, max: other_max }) => {
                let new_min = if min >= other_min { min } else { other_min };
                let new_max = if max <= other_max { max } else { other_max };
                if new_min <= new_max {
                    Intercept::Success { min: new_min, max: new_max }
                } else {
                    Intercept::Fail
                }
            },
            _ => Intercept::Fail,
        }
    }

    /// Records whether the minion could be hit at `curr_time`.
    pub fn update(&mut self, curr_time: i32, interceptable: bool)
        ensures
            *final(self) == intercept_update(*old(self), curr_time, interceptable),
    {
        match *self {
            Intercept::Empty | Intercept::Fail => {
                if interceptable {
                    *self = Intercept::OnlyHighIndexImp;
                } else {
                    *self = Intercept::Fail;
                }
            },
            Intercept::OnlyHighIndexImp => {
                if interceptable {
                    *self = Intercept::Success { min: curr_time, max: curr_time };
                }
            },
            Intercept::Success { min, max: _ } => {
                if interceptable {
                    *self = Intercept::Success { min, max: curr_time };
                }
            },
        }
    }

    /// Re-bases a window measured from the cob's activation onto the plant's activation:
    /// both ends move one tick later, an unbounded end stays unbounded.
    pub fn shift_to_plant_intercept(&mut self)
        requires
            old(self).wf(),
            match *old(self) {
                Intercept::Success { min, .. } => min < UNBOUNDED_TICK,
                _ => true,
            },
        ensures
            final(self).wf(),
            *final(self) == match *old(self) {
                Intercept::Success { min, max } => Intercept::Success {
                    min: (min + 1) as i32,
                    max: if max == UNBOUNDED_TICK { max } else { (max + 1) as i32 },
                },
                other => other,
            },
    {
        match *self {
            Intercept::Empty | Intercept::Fail | Intercept::OnlyHighIndexImp => {},
            Intercept::Success { min, max } => {
                let new_max = if max == UNBOUNDED_TICK { max } else { max + 1 };
                *self = Intercept::Success { min: min + 1, max: new_max };
            },
        }
    }
}

impl Eat {
    /// Folds the result of one more sample into `self`.
    pub fn merge(self, other: Self) -> (r: Self)
        ensures
            r == eat_merge(self, other),
    {
        match (self, other) {
            (Eat::Empty, any) => any,
            (any, Eat::Empty) => any,
            (Eat::Both { eat, iceable }, Eat::Both { eat: other_eat, iceable: other_iceable }) => {
                Eat::Both {
                    eat: if eat <= other_eat { eat } else { other_eat },
                    iceable: if iceable >= other_iceable { iceable } else { other_iceable },
                }
            },
        }
    }

    /// Re-bases ticks measured from the cob's activation onto the plant's activation:
    /// both the eat tick and the iceable tick move one tick later.
    pub fn shift_to_plant_intercept(&mut self)
        requires
            match *old(self) {
                Eat::Both { eat, iceable } => eat < i32::MAX && iceable < i32::MAX,
                Eat::Empty => true,
            },
        ensures
            *final(self) == match *old(self) {
                Eat::Both { eat, iceable } => Eat::Both {
                    eat: (eat + 1) as i32,
                    iceable: (iceable + 1) as i32,
                },
                Eat::Empty => Eat::Empty,
            },
    {
        match *self {
            Eat::Empty => {},
            Eat::Both { eat, iceable } => {
                *self = Eat::Both { eat: eat + 1, iceable: iceable + 1 };
            },
        }
    }
}

/// The part of the intercept window at or after the eat tick: a blast then comes too late.
pub open spec fn unsafe_interval(eat: Eat, intercept: Intercept) -> Option<(i32, i32)> {
    match (eat, intercept) {
        (Eat::Both { eat, .. }, Intercept::Success { min, max }) => {
            if eat <= max {
                Some((max_int(eat as int, min as int) as i32, max))
            } else {
                None
            }
        },
        _ => None,
    }
}

/// The part of the intercept window strictly before the eat tick.
pub open spec fn safe_interval(eat: Eat, intercept: Intercept) -> Option<(i32, i32)> {
    match (eat, intercept) {
        (Eat::Both { eat, .. }, Intercept::Success { min, max }) => {
            if eat > min {
                Some((min, min_int(eat - 1, max as int) as i32))
            } else {
                None
            }
        },
        _ => None,
    }
}

pub fn unsafe_intercept_interval(eat: &Eat, intercept: &Intercept) -> (r: Option<(i32, i32)>)
    ensures
        r == unsafe_interval(*eat, *intercept),
{
    match (*eat, *intercept) {
        (Eat::Both { eat, .. }, Intercept::Success { min, max }) => {
            if eat <= max {
                Some((if eat >= min { eat } else { min }, max))
            } else {
                None
            }
        },
        _ => None,
    }
}

pub fn safe_intercept_interval(eat: &Eat, intercept: &Intercept) -> (r: Option<(i32, i32)>)
    ensures
        r == safe_interval(*eat, *intercept),
{
    match (*eat, *intercept) {
        (Eat::Both { eat, .. }, Intercept::Success { min, max }) => {
            if eat > min {
                Some((min, if eat - 1 <= max { eat - 1 } else { max }))
            } else {
                None
            }
        },
        _ => None,
    }
}

/// Merging never makes the eat tick later nor the iceable tick earlier than either side's.
pub proof fn lemma_eat_merge_widens(a: Eat, b: Eat)
    ensures
        match (a, eat_merge(a, b)) {
            (Eat::Both { eat: e, iceable: i }, Eat::Both { eat: me, iceable: mi }) => me <= e && mi >= i,
            (Eat::Both { .. }, Eat::Empty) => false,
            _ => true,
        },
        match (b, eat_merge(a, b)) {
            (Eat::Both { eat: e, iceable: i }, Eat::Both { eat: me, iceable: mi }) => me <= e && mi >= i,
            (Eat::Both { .. }, Eat::Empty) => false,
            _ => true,
        },
{
}

/// `big` is a safe envelope at least as wide as `small`: an eat tick no later and an
/// iceable tick no earlier.
pub open spec fn eat_widens(big: Eat, small: Eat) -> bool {
    match (small, big) {
        (Eat::Empty, _) => true,
        (Eat::Both { .. }, Eat::Empty) => false,
        (Eat::Both { eat: e, iceable: i }, Eat::Both { eat: e2, iceable: i2 }) => e2 <= e && i2 >= i,
    }
}

/// The merge widens both sides, and it is the narrowest envelope that does.
pub proof fn lemma_eat_merge_least(a: Eat, b: Eat, t: Eat)
    ensures
        eat_widens(eat_merge(a, b), a),
        eat_widens(eat_merge(a, b), b),
        eat_widens(t, a) && eat_widens(t, b) ==> eat_widens(t, eat_merge(a, b)),
{
}

pub proof fn lemma_eat_widens_transitive(a: Eat, b: Eat, c: Eat)
    requires
        eat_widens(a, b),
        eat_widens(b, c),
    ensures
        eat_widens(a, c),
{
}

/// `Eat::merge` gives the same result in either order.
pub proof fn lemma_eat_merge_commutative(a: Eat, b: Eat)
    ensures
        eat_merge(a, b) == eat_merge(b, a),
{
}

/// `Eat::merge` may be regrouped freely.
pub proof fn lemma_eat_merge_associative(a: Eat, b: Eat, c: Eat)
    ensures
        eat_merge(eat_merge(a, b), c) == eat_merge(a, eat_merge(b, c)),
{
}

/// `Eat::Empty` is the identity of `Eat::merge` on both sides.
pub proof fn lemma_eat_merge_identity(a: Eat)
    ensures
        eat_merge(Eat::Empty, a) == a,
        eat_merge(a, Eat::Empty) == a,
{
}

/// Merging a sample with itself changes nothing.
pub proof fn lemma_eat_merge_idempotent(a: Eat)
    ensures
        eat_merge(a, a) == a,
{
}

/// Merging a result with itself changes nothing, except for `OnlyHighIndexImp`, which
/// merges with anything but `Empty` to `Fail`.
pub proof fn lemma_intercept_merge_idempotent(a: Intercept)
    requires
        a.wf(),
        a != Intercept::OnlyHighIndexImp,
    ensures
        intercept_merge(a, a) == a,
{
}

/// `Intercept::merge` gives the same result in either order.
pub proof fn lemma_intercept_merge_commutative(a: Intercept, b: Intercept)
    ensures
        intercept_merge(a, b) == intercept_merge(b, a),
{
}

/// `Intercept::merge` may be regrouped freely.
pub proof fn lemma_intercept_merge_associative(a: Intercept, b: Intercept, c: Intercept)
    ensures
        intercept_merge(intercept_merge(a, b), c) == intercept_merge(a, intercept_merge(b, c)),
{
}

/// `Intercept::Empty` is the identity of `Intercept::merge` on both sides.
pub proof fn lemma_intercept_merge_identity(a: Intercept)
    ensures
        intercept_merge(Intercept::Empty, a) == a,
        intercept_merge(a, Intercept::Empty) == a,
{
}

/// Merging and updating keep every success window well formed.
pub proof fn lemma_intercept_wf_preserved(a: Intercept, b: Intercept, tick: i32, hit: bool)
    requires
        a.wf(),
        b.wf(),
        match a {
            Intercept::Success { max, .. } => max <= tick,
            _ => true,
        },
    ensures
        intercept_merge(a, b).wf(),
        intercept_update(a, tick, hit).wf(),
{
}

} // verus!
