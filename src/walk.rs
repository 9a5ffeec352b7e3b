use vstd::prelude::*;

verus! {

broadcast use vstd::seq_lib::group_to_multiset_ensures;

/// How long one application of ice slows a giant, in ticks.
pub const ICE_SLOW_TOTAL_TIME: i32 = 2000;

/// Shortest and longest freeze of a giant that was not slowed before the ice.
pub const MIN_ICE_TIME_FOR_UNICED: i32 = 400;

pub const MAX_ICE_TIME_FOR_UNICED: i32 = 600;

/// Shortest and longest freeze of a giant that was still slowed when the ice came.
pub const MIN_ICE_TIME_FOR_ICED: i32 = 300;

pub const MAX_ICE_TIME_FOR_ICED: i32 = 400;

/// Where a giant can be when it enters the yard, in thousandths of a pixel.
pub const MIN_GARG_START_POS: i32 = 845_000;

pub const MAX_GARG_START_POS: i32 = 854_000;

/// The ice applications before a cob, and the tick at which the cob takes effect.
#[derive(Debug, Clone)]
pub struct IceAndCobTimes {
    pub ice_times: Vec<i32>,
    pub cob_time: i32,
}

/// Why a list of ice and cob times was refused.
#[derive(PartialEq, Eq, Structural, Debug, Clone, Copy)]
pub enum TimeError {
    /// The cob's tick lies before the wave starts.
    NegativeCobTime { cob_time: i32 },
}

/// A walked time (in half ticks) that the walk table does not cover.
#[derive(PartialEq, Eq, Structural, Debug, Clone, Copy)]
pub enum WalkError {
    /// The shortest walk, looked up in the slow table.
    MinWalkOutOfRange { half_ticks: i64, table_len: usize },
    /// The longest walk, looked up in the fast table.
    MaxWalkOutOfRange { half_ticks: i64, table_len: usize },
}

/// How far a giant has walked after a number of half ticks, at the slowest and at the
/// fastest, in thousandths of a pixel; entry `i` is for `i` half ticks.
#[derive(Debug, Clone)]
pub struct GargWalkTable {
    pub slow: Vec<i32>,
    pub fast: Vec<i32>,
}

impl GargWalkTable {
    /// Every distance is one a giant can walk on the lawn.
    pub open spec fn wf(&self) -> bool {
        &&& forall|i: int| 0 <= i < self.slow.len() ==> 0 <= #[trigger] self.slow@[i] <= 10_000_000
        &&& forall|i: int| 0 <= i < self.fast.len() ==> 0 <= #[trigger] self.fast@[i] <= 10_000_000
    }
}

pub open spec fn sorted(s: Seq<i32>) -> bool {
    forall|i: int, j: int| 0 <= i < j < s.len() ==> s[i] <= s[j]
}

/// The ice times, in their order, that fall between the wave's start and the cob.
pub open spec fn ice_times_within(s: Seq<i32>, cob_time: int) -> Seq<i32>
    decreases s.len(),
{
    if s.len() == 0 {
        Seq::empty()
    } else {
        let rest = ice_times_within(s.drop_last(), cob_time);
        if 0 <= s.last() <= cob_time {
            rest.push(s.last())
        } else {
            rest
        }
    }
}

impl IceAndCobTimes {
    /// Ice times in order, none before the wave starts, none after the cob.
    pub open spec fn wf(&self) -> bool {
        &&& sorted(self.ice_times@)
        &&& 0 <= self.cob_time
        &&& forall|i: int|
            0 <= i < self.ice_times.len() ==> 0 <= #[trigger] self.ice_times@[i] <= self.cob_time
    }

    /// Keeps the ice times between the wave's start and the cob, in increasing order;
    /// refuses a cob before the wave starts.
    pub fn of_ice_times_and_cob_time(ice_times: &[i32], cob_time: i32) -> (r: Result<
        IceAndCobTimes,
        TimeError,
    >)
        ensures
            cob_time < 0 <==> r is Err,
            cob_time < 0 ==> r == Err::<IceAndCobTimes, TimeError>(
                TimeError::NegativeCobTime { cob_time },
            ),
            r is Ok ==> {
                let t = r->Ok_0;
                &&& t.wf()
                &&& t.cob_time == cob_time
                &&& t.ice_times@.to_multiset() == ice_times_within(
                    ice_times@,
                    cob_time as int,
                ).to_multiset()
            },
    {
        if cob_time < 0 {
            return Err(TimeError::NegativeCobTime { cob_time });
        }
        let mut kept: Vec<i32> = Vec::new();
        let mut i: usize = 0;
        while i < ice_times.len()
            invariant
                i <= ice_times.len(),
                0 <= cob_time,
                sorted(kept@),
                forall|a: int| 0 <= a < kept.len() ==> 0 <= #[trigger] kept@[a] <= cob_time,
                kept@.to_multiset() == ice_times_within(
                    ice_times@.subrange(0, i as int),
                    cob_time as int,
                ).to_multiset(),
            decreases ice_times.len() - i,
        {
            let v = ice_times[i];
            assert(ice_times@.subrange(0, i + 1).drop_last() =~= ice_times@.subrange(0, i as int));
            if 0 <= v && v <= cob_time {
                let mut j: usize = 0;
                while j < kept.len() && kept[j] <= v
                    invariant
                        j <= kept.len(),
                        forall|a: int| 0 <= a < j ==> #[trigger] kept@[a] <= v,
                    decreases kept.len() - j,
                {
                    j = j + 1;
                }
                assert(forall|a: int| j <= a < kept.len() ==> #[trigger] kept@[a] > v) by {
                    if j < kept.len() {
                        assert(kept@[j as int] > v);
                    }
                }
                let ghost before = kept@;
                kept.insert(j, v);
                assert(kept@ == before.insert(j as int, v));
                assert(sorted(kept@)) by {
                    assert forall|a: int, b: int| 0 <= a < b < kept@.len() implies kept@[a]
                        <= kept@[b] by {
                        if a < j && b > j {
                            assert(kept@[a] == before[a]);
                            assert(kept@[b] == before[b - 1]);
                        }
                    }
                }
            }
            i = i + 1;
        }
        assert(ice_times@.subrange(0, ice_times.len() as int) =~= ice_times@);
        Ok(IceAndCobTimes { ice_times: kept, cob_time })
    }

    /// The giant is still slowed when the cob takes effect.
    pub fn is_iced(&self) -> (r: bool)
        requires
            self.wf(),
        ensures
            r == (self.ice_times.len() > 0 && self.cob_time - self.ice_times@.last()
                <= ICE_SLOW_TOTAL_TIME),
    {
        if self.ice_times.len() == 0 {
            false
        } else {
            let last = self.ice_times[self.ice_times.len() - 1];
            self.cob_time - last <= ICE_SLOW_TOTAL_TIME
        }
    }
}

/// Events of a wave, in order: its start, each ice application with the length of the
/// freeze it causes, and the cob.
#[derive(PartialEq, Eq, Structural, Debug, Clone, Copy)]
pub enum Tick {
    Start(i32),
    Ice { time: i32, length: i32 },
    Cob(i32),
}

/// The tick at which an ice counts: one at the wave's first tick counts as one at tick 1,
/// the first tick the giant walks.
pub open spec fn ice_tick(t: i32) -> i32 {
    if t < 1 { 1 } else { t }
}

/// The freeze length of the `i`-th ice: shorter when the previous ice still slows.
pub open spec fn ice_length(ice_times: Seq<i32>, i: int, iced_len: i32, uniced_len: i32) -> i32 {
    if i > 0 && ice_tick(ice_times[i]) - ice_tick(ice_times[i - 1]) < ICE_SLOW_TOTAL_TIME {
        iced_len
    } else {
        uniced_len
    }
}

pub open spec fn walk_events(ice_times: Seq<i32>, cob_time: i32, iced_len: i32, uniced_len: i32) -> Seq<Tick> {
    seq![Tick::Start(0)] + Seq::new(
        ice_times.len(),
        |i: int|
            Tick::Ice {
                time: ice_tick(ice_times[i]),
                length: ice_length(ice_times, i, iced_len, uniced_len),
            },
    ) + seq![Tick::Cob(cob_time)]
}

/// Half ticks walked in `walk` ticks after an ice whose freeze lasts `ice_length`: the
/// part still slowed counts once, the rest twice.
pub open spec fn prorated_walk(walk: int, ice_length: int) -> int {
    let uniced = if walk - (ICE_SLOW_TOTAL_TIME - ice_length) >= 0 {
        walk - (ICE_SLOW_TOTAL_TIME - ice_length)
    } else {
        0
    };
    (walk - uniced) + uniced * 2
}

pub open spec fn nonneg(v: int) -> int {
    if v >= 0 { v } else { 0 }
}

/// Half ticks the giant walks between two consecutive events.
pub open spec fn tick_diff(old: Tick, new: Tick) -> int {
    match (old, new) {
        (Tick::Start(o), Tick::Ice { time, .. }) => nonneg((time - o - 1) * 2),
        (Tick::Ice { time: o, length }, Tick::Ice { time, .. }) => prorated_walk(
            nonneg(time - o - (length - 1)),
            length as int,
        ),
        (Tick::Start(o), Tick::Cob(c)) => nonneg((c - o) * 2),
        (Tick::Ice { time: o, length }, Tick::Cob(c)) => prorated_walk(
            nonneg(c - o - (length - 2)),
            length as int,
        ),
        _ => 0,
    }
}

/// Half ticks walked over all consecutive pairs of events.
pub open spec fn walk_sum(ev: Seq<Tick>) -> int
    decreases ev.len(),
{
    if ev.len() < 2 {
        0
    } else {
        walk_sum(ev.drop_last()) + tick_diff(ev[ev.len() - 2], ev.last())
    }
}

pub open spec fn walk_half_ticks(ice_times: Seq<i32>, cob_time: i32, iced_len: i32, uniced_len: i32) -> int {
    walk_sum(walk_events(ice_times, cob_time, iced_len, uniced_len))
}

pub open spec fn tick_time(t: Tick) -> int {
    match t {
        Tick::Start(t) => t as int,
        Tick::Ice { time, .. } => time as int,
        Tick::Cob(t) => t as int,
    }
}

fn tick_diff_exec(old: &Tick, new: &Tick) -> (r: i64)
    requires
        match (*old, *new) {
            (Tick::Start(o), _) => o == 0,
            (Tick::Ice { length, .. }, _) => 2 <= length <= ICE_SLOW_TOTAL_TIME,
            _ => false,
        },
        new is Ice || new is Cob,
        tick_time(*new) >= 0,
        tick_time(*old) >= 0,
    ensures
        r == tick_diff(*old, *new),
        0 <= r <= 2 * nonneg(tick_time(*new) - tick_time(*old)),
{
    let (o, length, from_start): (i64, i64, bool) = match *old {
        Tick::Start(o) => (o as i64, 0, true),
        Tick::Ice { time, length } => (time as i64, length as i64, false),
        Tick::Cob(c) => (c as i64, 0, false),
    };
    let (n, is_cob): (i64, bool) = match *new {
        Tick::Ice { time, .. } => (time as i64, false),
        Tick::Cob(c) => (c as i64, true),
        Tick::Start(s) => (s as i64, false),
    };
    if from_start {
        let d = if is_cob { (n - o) * 2 } else { (n - o - 1) * 2 };
        if d >= 0 { d } else { 0 }
    } else {
        let raw = if is_cob { n - o - (length - 2) } else { n - o - (length - 1) };
        let walk = if raw >= 0 { raw } else { 0 };
        let over = walk - (ICE_SLOW_TOTAL_TIME as i64 - length);
        let uniced = if over >= 0 { over } else { 0 };
        (walk - uniced) + uniced * 2
    }
}

/// Half ticks a giant walks before the cob, given the freeze lengths for a giant that was
/// or was not slowed when the ice came.
fn garg_walk_in_half_ticks(
    valid_ice_times: &[i32],
    cob_time: i32,
    ice_length_for_iced: i32,
    ice_length_for_uniced: i32,
) -> (r: i64)
    requires
        sorted(valid_ice_times@),
        forall|i: int| 0 <= i < valid_ice_times.len() ==> 0 <= #[trigger] valid_ice_times@[i],
        0 <= cob_time,
        2 <= ice_length_for_iced <= ICE_SLOW_TOTAL_TIME,
        2 <= ice_length_for_uniced <= ICE_SLOW_TOTAL_TIME,
    ensures
        r == walk_half_ticks(valid_ice_times@, cob_time, ice_length_for_iced, ice_length_for_uniced),
{
    let ghost ev = walk_events(
        valid_ice_times@,
        cob_time,
        ice_length_for_iced,
        ice_length_for_uniced,
    );
    let mut ticks: Vec<Tick> = vec![Tick::Start(0)];
    let mut prev_ice_time: Option<i32> = None;
    let mut k: usize = 0;
    while k < valid_ice_times.len()
        invariant
            k <= valid_ice_times.len(),
            ticks@ == ev.subrange(0, k + 1),
            ev.len() == valid_ice_times.len() + 2,
            ev == walk_events(valid_ice_times@, cob_time, ice_length_for_iced, ice_length_for_uniced),
            k == 0 ==> prev_ice_time is None,
            k > 0 ==> prev_ice_time == Some(ice_tick(valid_ice_times@[k - 1])),
            sorted(valid_ice_times@),
            forall|i: int| 0 <= i < valid_ice_times.len() ==> 0 <= #[trigger] valid_ice_times@[i],
        decreases valid_ice_times.len() - k,
    {
        let ice_time = if valid_ice_times[k] < 1 { 1 } else { valid_ice_times[k] };
        let iced = match prev_ice_time {
            None => false,
            Some(prev) => ice_time - prev < ICE_SLOW_TOTAL_TIME,
        };
        ticks.push(
            Tick::Ice {
                time: ice_time,
                length: if iced {
                    ice_length_for_iced
                } else {
                    ice_length_for_uniced
                },
            },
        );
        prev_ice_time = Some(ice_time);
        k = k + 1;
        assert(ticks@ =~= ev.subrange(0, k + 1));
    }
    ticks.push(Tick::Cob(cob_time));
    assert(ticks@ =~= ev);
    let mut sum: i64 = 0;
    let mut i: usize = 1;
    while i < ticks.len()
        invariant
            1 <= i <= ticks.len(),
            ticks@ == ev,
            ev.len() == valid_ice_times.len() + 2,
            ev == walk_events(valid_ice_times@, cob_time, ice_length_for_iced, ice_length_for_uniced),
            sum == walk_sum(ev.subrange(0, i as int)),
            0 <= sum <= 4 * (i32::MAX as int),
            i < ticks.len() ==> sum <= 2 * tick_time(ev[i - 1]),
            0 <= tick_time(ev[i - 1]),
            0 <= cob_time,
            2 <= ice_length_for_iced <= ICE_SLOW_TOTAL_TIME,
            2 <= ice_length_for_uniced <= ICE_SLOW_TOTAL_TIME,
            sorted(valid_ice_times@),
            forall|a: int| 0 <= a < valid_ice_times.len() ==> 0 <= #[trigger] valid_ice_times@[a],
        decreases ticks.len() - i,
    {
        let ghost n = valid_ice_times.len() as int;
        assert(ev[0] == Tick::Start(0));
        assert(1 <= i <= n ==> ev[i as int] == Tick::Ice {
            time: ice_tick(valid_ice_times@[i - 1]),
            length: ice_length(valid_ice_times@, i - 1, ice_length_for_iced, ice_length_for_uniced),
        });
        assert(i >= 2 ==> ev[i - 1] == Tick::Ice {
            time: ice_tick(valid_ice_times@[i - 2]),
            length: ice_length(valid_ice_times@, i - 2, ice_length_for_iced, ice_length_for_uniced),
        });
        assert(ev[n + 1] == Tick::Cob(cob_time));
        let d = tick_diff_exec(&ticks[i - 1], &ticks[i]);
        assert(ev.subrange(0, i + 1).drop_last() =~= ev.subrange(0, i as int));
        sum = sum + d;
        i = i + 1;
    }
    assert(ev.subrange(0, ticks.len() as int) =~= ev);
    sum
}

/// Half ticks walked before the cob, at the least and at the most.
pub fn min_max_garg_walk_in_half_ticks(valid_ice_times: &[i32], cob_time: i32) -> (r: (i64, i64))
    requires
        sorted(valid_ice_times@),
        forall|i: int| 0 <= i < valid_ice_times.len() ==> 0 <= #[trigger] valid_ice_times@[i],
        0 <= cob_time,
    ensures
        r.0 == walk_half_ticks(
            valid_ice_times@,
            cob_time,
            MAX_ICE_TIME_FOR_ICED,
            MAX_ICE_TIME_FOR_UNICED,
        ),
        r.1 == walk_half_ticks(
            valid_ice_times@,
            cob_time,
            MIN_ICE_TIME_FOR_ICED,
            MIN_ICE_TIME_FOR_UNICED,
        ),
{
    (
        garg_walk_in_half_ticks(
            valid_ice_times,
            cob_time,
            MAX_ICE_TIME_FOR_ICED,
            MAX_ICE_TIME_FOR_UNICED,
        ),
        garg_walk_in_half_ticks(
            valid_ice_times,
            cob_time,
            MIN_ICE_TIME_FOR_ICED,
            MIN_ICE_TIME_FOR_UNICED,
        ),
    )
}

/// Where the giant can be when the cob takes effect: the least walk is looked up in the
/// slow table, the most in the fast one; either lookup may fall outside its table.
pub open spec fn garg_x_bounds(
    min_half: int,
    max_half: int,
    slow: Seq<i32>,
    fast: Seq<i32>,
) -> Result<(i32, i32), WalkError> {
    if !(0 <= min_half < slow.len()) {
        Err(WalkError::MinWalkOutOfRange { half_ticks: min_half as i64, table_len: slow.len() as usize })
    } else if !(0 <= max_half < fast.len()) {
        Err(WalkError::MaxWalkOutOfRange { half_ticks: max_half as i64, table_len: fast.len() as usize })
    } else {
        Ok(((MIN_GARG_START_POS - fast[max_half]) as i32, (MAX_GARG_START_POS - slow[min_half]) as i32))
    }
}

/// The giant's position range when the cob takes effect.
pub fn min_max_garg_x(times: &IceAndCobTimes, table: &GargWalkTable) -> (r: Result<(i32, i32), WalkError>)
    requires
        times.wf(),
        table.wf(),
    ensures
        r == garg_x_bounds(
            walk_half_ticks(times.ice_times@, times.cob_time, MAX_ICE_TIME_FOR_ICED, MAX_ICE_TIME_FOR_UNICED),
            walk_half_ticks(times.ice_times@, times.cob_time, MIN_ICE_TIME_FOR_ICED, MIN_ICE_TIME_FOR_UNICED),
            table.slow@,
            table.fast@,
        ),
{
    let (min_half_ticks, max_half_ticks) = min_max_garg_walk_in_half_ticks(
        times.ice_times.as_slice(),
        times.cob_time,
    );
    if min_half_ticks < 0 || min_half_ticks as u64 >= table.slow.len() as u64 {
        return Err(WalkError::MinWalkOutOfRange { half_ticks: min_half_ticks, table_len: table.slow.len() });
    }
    if max_half_ticks < 0 || max_half_ticks as u64 >= table.fast.len() as u64 {
        return Err(WalkError::MaxWalkOutOfRange { half_ticks: max_half_ticks, table_len: table.fast.len() });
    }
    let min_walk = table.slow[min_half_ticks as usize];
    let max_walk = table.fast[max_half_ticks as usize];
    Ok((MIN_GARG_START_POS - max_walk, MAX_GARG_START_POS - min_walk))
}

} // verus!
