use vstd::prelude::*;
use crate::blast::Explode;
use crate::geometry::{circle_rectangle_intersect, circle_small, intersects, IntVec2, Rectangle};
use crate::interval::{intercept_update, Eat, Intercept, UNBOUNDED_TICK};

verus! {

/// Giant positions are counted in thousandths of a pixel.
pub const X_UNITS_PER_PIXEL: i64 = 1000;

/// Heights and vertical speeds are counted in 1/120000 of a pixel, so that the throw
/// speed (a difference of giant positions divided by 120) and gravity (0.05 pixel per
/// tick and tick) are whole numbers.
pub const H_UNITS_PER_PIXEL: i64 = 120_000;

/// Height units of roof correction per position unit left of 400 pixels: a quarter
/// of `H_UNITS_PER_PIXEL / X_UNITS_PER_PIXEL`.
pub const Y_SHIFT_PER_X_UNIT: i64 = 30;

/// Gravity, in height units per tick and tick (0.05 pixel).
pub const GRAVITY: i64 = 6000;

/// Horizontal speed of the minion, in position units per tick (3 pixels, leftwards).
pub const IMP_SPEED_X: i64 = 3000;

/// Giants left of 401 pixels never throw.
pub const GARG_THROW_IMP_THRES: i32 = 401_000;

/// Left of 501 pixels a giant throws only with the lowest random draw.
pub const GARG_THROW_RND_THRES: i32 = 501_000;

/// The rightmost position a giant can be at.
pub const MAX_GARG_X: i32 = 854_000;

/// The leftmost position a giant can be at before it reaches the house.
pub const MIN_GARG_X: i32 = -152_000;

/// Ticks of flight after which any thrown minion has landed.
pub const MAX_FLIGHT_TICKS: i32 = 200;

/// Ticks enough for any sample to finish.
pub open spec fn sim_fuel() -> nat {
    300
}

/// Offset of the minion's defense box from its position, in pixels.
pub const IMP_DEFENSE_SHIFT_X: i32 = 36;

pub const IMP_DEFENSE_SHIFT_Y: i32 = 0;

pub const IMP_DEFENSE_WIDTH: i32 = 42;

pub const IMP_DEFENSE_HEIGHT: i32 = 115;

/// Lifecycle of the thrown minion.
#[derive(PartialEq, Eq, Structural, Debug, Clone, Copy)]
pub enum ImpState {
    /// Falling under gravity.
    Airborne,
    /// On the ground, stunned for `countdown` more ticks.
    Landed { countdown: i32 },
    /// Dangerous and freezable from now on.
    Grounded,
}

/// One simulated trajectory of a thrown minion, with what it has shown so far.
#[derive(PartialEq, Eq, Structural, Debug, Clone, Copy)]
pub struct Imp {
    pub state: ImpState,
    /// Vertical speed, in height units per tick, upwards.
    pub vy: i64,
    /// Horizontal position, in position units.
    pub x: i64,
    /// Height above ground, in height units.
    pub h: i64,
    /// Roof correction of the height, in height units.
    pub y_shift: i64,
    /// Screen y of the giant's row, in pixels.
    pub y: i64,
    pub row: i32,
    /// Ticks since the throw.
    pub exist_time: i32,
    /// The current game tick.
    pub tick: i32,
    pub eat: Option<i32>,
    pub iceable: Option<i32>,
    pub intercept: Intercept,
}

/// Division rounding toward zero, as a cast from a float to an integer does.
pub open spec fn trunc_div(a: int, b: int) -> int {
    if a >= 0 {
        a / b
    } else {
        -((-a) / b)
    }
}

/// On the roof, left of 400 pixels, the minion is drawn `(400 - x) / 4` pixels lower.
pub open spec fn y_shift_of(x: int, roof: bool) -> int {
    if !roof || x >= 400 * X_UNITS_PER_PIXEL {
        0
    } else {
        (400 * (X_UNITS_PER_PIXEL as int) - x) * Y_SHIFT_PER_X_UNIT
    }
}

/// The minion's defense box, in whole pixels.
pub open spec fn defense_rect(imp: Imp) -> Rectangle {
    Rectangle {
        upper_left: IntVec2 {
            x: (trunc_div(imp.x as int, X_UNITS_PER_PIXEL as int) + IMP_DEFENSE_SHIFT_X) as i32,
            y: (trunc_div(
                imp.y * H_UNITS_PER_PIXEL - imp.h + imp.y_shift,
                H_UNITS_PER_PIXEL as int,
            ) + IMP_DEFENSE_SHIFT_Y) as i32,
        },
        width: IMP_DEFENSE_WIDTH,
        height: IMP_DEFENSE_HEIGHT,
    }
}

/// The blast reaches the minion's row and overlaps its defense box.
pub open spec fn interceptable(imp: Imp, e: Explode) -> bool {
    e.hittable_rows@.contains(imp.row) && intersects(e.range, defense_rect(imp))
}

pub open spec fn eat_loop(iced: bool) -> i32 {
    if iced { 8 } else { 4 }
}

pub open spec fn landing_countdown(iced: bool) -> i32 {
    if iced { 50 } else { 25 }
}

pub open spec fn spawn_time(iced: bool) -> i32 {
    if iced { 210 } else { 105 }
}

/// The state after moving one tick, before the blast is checked. A falling minion lands
/// once its height plus the roof correction is at most 0.
pub open spec fn imp_move(imp: Imp, iced: bool, roof: bool) -> Imp {
    let tick = (imp.tick + 1) as i32;
    let et = (imp.exist_time + 1) as i32;
    let imp = Imp { tick, exist_time: et, ..imp };
    match imp.state {
        ImpState::Airborne => {
            let vy = (imp.vy - GRAVITY) as i64;
            let x = (imp.x - IMP_SPEED_X) as i64;
            let h = (imp.h + vy) as i64;
            let ys = y_shift_of(x as int, roof) as i64;
            if h + ys <= 0 {
                Imp {
                    state: ImpState::Landed { countdown: landing_countdown(iced) },
                    vy,
                    x,
                    h: 0,
                    y_shift: ys,
                    ..imp
                }
            } else {
                Imp { vy, x, h, y_shift: ys, ..imp }
            }
        },
        ImpState::Landed { countdown } => {
            if countdown - 1 == 0 {
                Imp {
                    state: ImpState::Grounded,
                    eat: if et % eat_loop(iced) == 0 {
                        Some(tick)
                    } else {
                        imp.eat
                    },
                    ..imp
                }
            } else {
                Imp { state: ImpState::Landed { countdown: (countdown - 1) as i32 }, ..imp }
            }
        },
        ImpState::Grounded => {
            Imp {
                iceable: if imp.iceable.is_none() {
                    Some((tick - 1) as i32)
                } else {
                    imp.iceable
                },
                eat: if imp.eat.is_none() && et % eat_loop(iced) == 0 {
                    Some(tick)
                } else {
                    imp.eat
                },
                ..imp
            }
        },
    }
}

/// One tick: move, then record whether the blast could hit the minion now.
pub open spec fn imp_step(imp: Imp, iced: bool, roof: bool, e: Explode) -> Imp {
    let m = imp_move(imp, iced, roof);
    Imp { intercept: intercept_update(m.intercept, m.tick, interceptable(m, e)), ..m }
}

/// Both the eat tick and the iceable tick are known.
pub open spec fn imp_done(imp: Imp) -> bool {
    imp.eat.is_some() && imp.iceable.is_some()
}

/// The state after `n` ticks; it stays put once the sample is done.
pub open spec fn imp_run(imp: Imp, iced: bool, roof: bool, e: Explode, n: nat) -> Imp
    decreases n,
{
    if n == 0 {
        imp
    } else {
        let p = imp_run(imp, iced, roof, e, (n - 1) as nat);
        if imp_done(p) {
            p
        } else {
            imp_step(p, iced, roof, e)
        }
    }
}

/// The minion as a giant at `garg_x` in the row at screen y `garg_y` throws it.
pub open spec fn imp_init(garg_x: int, garg_y: int, row: i32, rnd: int, iced: bool, roof: bool) -> Imp {
    let x = garg_x - 133 * X_UNITS_PER_PIXEL;
    Imp {
        state: ImpState::Airborne,
        vy: (garg_x - (360 + (if roof { 180int } else { 0int }) + rnd) * X_UNITS_PER_PIXEL) as i64,
        x: x as i64,
        h: (88 * H_UNITS_PER_PIXEL) as i64,
        y_shift: y_shift_of(x, roof) as i64,
        y: garg_y as i64,
        row,
        exist_time: 0,
        tick: spawn_time(iced),
        eat: None,
        iceable: None,
        intercept: Intercept::Empty,
    }
}

/// What a finished sample shows; a window still open at the last tick stays open.
pub open spec fn imp_outcome(imp: Imp) -> (Eat, Intercept) {
    (
        Eat::Both { eat: imp.eat.unwrap(), iceable: imp.iceable.unwrap() },
        match imp.intercept {
            Intercept::Success { min, max } => if max == imp.tick {
                Intercept::Success { min, max: UNBOUNDED_TICK }
            } else {
                imp.intercept
            },
            other => other,
        },
    )
}

/// A giant at this position does not throw with this random draw.
pub open spec fn no_throw(garg_x: int, rnd: int) -> bool {
    garg_x < GARG_THROW_IMP_THRES || (garg_x < GARG_THROW_RND_THRES && rnd != 0)
}

/// Eat and intercept of one sample: a giant at `garg_x` in `garg_row` (screen y
/// `garg_y`) throwing with random draw `rnd`.
pub open spec fn judge_sample(
    garg_x: int,
    garg_y: int,
    garg_row: i32,
    rnd: int,
    iced: bool,
    roof: bool,
    e: Explode,
) -> (Eat, Intercept) {
    if no_throw(garg_x, rnd) {
        (Eat::Empty, Intercept::Empty)
    } else {
        imp_outcome(
            imp_run(imp_init(garg_x, garg_y, garg_row, rnd, iced, roof), iced, roof, e, sim_fuel()),
        )
    }
}

/// Inputs a sample is taken for.
pub open spec fn sample_inputs_ok(garg_x: int, garg_y: int, rnd: int) -> bool {
    &&& garg_x <= MAX_GARG_X
    &&& 0 <= rnd <= 100
    &&& -10_000 <= garg_y <= 10_000
}

/// Closed form of the flight after `k` ticks.
pub open spec fn flight_h(h0: int, v0: int, k: int) -> int {
    h0 + k * v0 - (GRAVITY / 2) * k * (k + 1)
}

/// What holds of a trajectory at every tick until it is done.
pub open spec fn imp_inv(imp: Imp, init: Imp, iced: bool, roof: bool) -> bool {
    let k = imp.exist_time as int;
    let v0 = init.vy as int;
    &&& GARG_THROW_IMP_THRES - 133 * X_UNITS_PER_PIXEL <= init.x <= MAX_GARG_X - 133
        * X_UNITS_PER_PIXEL
    &&& init.h == 88 * H_UNITS_PER_PIXEL
    &&& v0 <= MAX_GARG_X - (360 + (if roof { 180int } else { 0int })) * X_UNITS_PER_PIXEL
    &&& v0 >= GARG_THROW_IMP_THRES - 640 * X_UNITS_PER_PIXEL
    &&& -10_000 <= imp.y <= 10_000
    &&& imp.y == init.y
    &&& imp.row == init.row
    &&& imp.tick == init.tick + imp.exist_time
    &&& init.tick == spawn_time(iced)
    &&& 0 <= k <= 260
    &&& imp.intercept.wf()
    &&& match imp.intercept {
        Intercept::Success { min, max } => init.tick < min && max <= imp.tick,
        _ => true,
    }
    &&& match imp.state {
        ImpState::Airborne => {
            &&& k < MAX_FLIGHT_TICKS
            &&& imp.vy == v0 - GRAVITY * k
            &&& imp.x == init.x - IMP_SPEED_X * k
            &&& imp.h == flight_h(init.h as int, v0, k)
            &&& imp.y_shift == y_shift_of(imp.x as int, roof)
            &&& imp.eat.is_none()
            &&& imp.iceable.is_none()
        },
        _ => {
            &&& 1 <= k
            &&& k <= MAX_FLIGHT_TICKS + 60
            &&& init.x - IMP_SPEED_X * MAX_FLIGHT_TICKS <= imp.x <= init.x
            &&& imp.h == 0
            &&& 0 <= imp.y_shift <= 30 * (400 + 133 + 3 * MAX_FLIGHT_TICKS) * X_UNITS_PER_PIXEL
        },
    }
    &&& match imp.state {
        ImpState::Landed { countdown } => {
            &&& 1 <= countdown <= 50
            &&& k + countdown <= MAX_FLIGHT_TICKS + 50
            &&& imp.eat.is_none()
            &&& imp.iceable.is_none()
        },
        ImpState::Grounded => {
            &&& imp.iceable.is_none() ==> k <= MAX_FLIGHT_TICKS + 50
            &&& imp.eat.is_none() ==> k - k % (eat_loop(iced) as int) <= MAX_FLIGHT_TICKS + 50
        },
        _ => true,
    }
}

/// Decreases with every tick until the sample is done.
pub open spec fn imp_measure(imp: Imp, iced: bool) -> int {
    if imp_done(imp) {
        0
    } else {
        match imp.state {
            ImpState::Airborne => 1000 + MAX_FLIGHT_TICKS - imp.exist_time,
            ImpState::Landed { countdown } => 100 + countdown,
            ImpState::Grounded => if imp.iceable.is_none() {
                20
            } else {
                eat_loop(iced) - imp.exist_time % eat_loop(iced)
            },
        }
    }
}

proof fn lemma_flight_step(h0: int, v0: int, k: int)
    ensures
        flight_h(h0, v0, k) + (v0 - GRAVITY * (k + 1)) == flight_h(h0, v0, k + 1),
{
    assert(k * v0 + v0 == (k + 1) * v0) by (nonlinear_arith);
    assert(3000 * k * (k + 1) + 6000 * (k + 1) == 3000 * (k + 1) * (k + 2)) by (nonlinear_arith);
}

proof fn lemma_flight_bounds(h0: int, v0: int, k: int)
    requires
        0 <= k <= MAX_FLIGHT_TICKS,
        -640_000 <= v0 <= 500_000,
        h0 == 88 * H_UNITS_PER_PIXEL,
    ensures
        -300_000_000 <= flight_h(h0, v0, k) <= 300_000_000,
{
    assert(-640_000 * k <= k * v0 <= 500_000 * k) by (nonlinear_arith)
        requires
            0 <= k,
            -640_000 <= v0 <= 500_000,
    ;
    assert(0 <= 3000 * k * (k + 1) <= 3000 * 200 * 201) by (nonlinear_arith)
        requires
            0 <= k <= 200,
    ;
}

/// Any minion has landed after the longest flight.
proof fn lemma_flight_lands(init: Imp, roof: bool)
    requires
        GARG_THROW_IMP_THRES - 133 * X_UNITS_PER_PIXEL <= init.x <= MAX_GARG_X - 133
            * X_UNITS_PER_PIXEL,
        init.h == 88 * H_UNITS_PER_PIXEL,
        init.vy <= MAX_GARG_X - (360 + (if roof { 180int } else { 0int })) * X_UNITS_PER_PIXEL,
    ensures
        flight_h(init.h as int, init.vy as int, MAX_FLIGHT_TICKS as int) + y_shift_of(
            init.x - IMP_SPEED_X * MAX_FLIGHT_TICKS,
            roof,
        ) <= 0,
{
    assert(flight_h(init.h as int, init.vy as int, 200) == 88 * 120_000 + 200 * init.vy - 3000
        * 200 * 201);
}

proof fn lemma_step_keeps_inv(imp: Imp, init: Imp, iced: bool, roof: bool, e: Explode)
    requires
        imp_inv(imp, init, iced, roof),
        !imp_done(imp),
    ensures
        imp_inv(imp_step(imp, iced, roof, e), init, iced, roof),
        imp_measure(imp_step(imp, iced, roof, e), iced) < imp_measure(imp, iced),
        imp_measure(imp_step(imp, iced, roof, e), iced) >= 0,
{
    let k = imp.exist_time as int;
    let n = imp_step(imp, iced, roof, e);
    let p = eat_loop(iced) as int;
    match imp.state {
        ImpState::Airborne => {
            lemma_flight_step(init.h as int, init.vy as int, k);
            lemma_flight_bounds(init.h as int, init.vy as int, k + 1);
            if k + 1 == MAX_FLIGHT_TICKS {
                lemma_flight_lands(init, roof);
            }
        },
        ImpState::Landed { countdown } => {
            assert((k + 1) - (k + 1) % p <= k + 1) by {
                assert((k + 1) % p >= 0);
            }
        },
        ImpState::Grounded => {
            if imp.iceable.is_some() {
                assert(imp.eat.is_none());
                assert((k + 1) % p != 0 ==> (k + 1) % p == k % p + 1
                    && (k + 1) - (k + 1) % p == k - k % p) by {
                    assert(0 <= k % p < p);
                    assert(k == p * (k / p) + k % p) by (nonlinear_arith)
                        requires
                            p > 0,
                    ;
                    assert(k + 1 == p * (k / p) + (k % p + 1));
                    if k % p + 1 < p {
                        assert((k + 1) % p == k % p + 1) by (nonlinear_arith)
                            requires
                                k + 1 == p * (k / p) + (k % p + 1),
                                0 <= k % p + 1 < p,
                                p > 0,
                        ;
                    } else {
                        assert((k + 1) % p == 0) by (nonlinear_arith)
                            requires
                                k + 1 == p * (k / p) + p,
                                p > 0,
                        ;
                    }
                }
            } else {
                assert(k - k % p <= k) by {
                    assert(0 <= k % p);
                }
                assert((k + 1) - (k + 1) % p <= k + 1);
            }
        },
    }
}

proof fn lemma_run_settles(init: Imp, iced: bool, roof: bool, e: Explode, n: nat, m: nat)
    requires
        n <= m,
        imp_done(imp_run(init, iced, roof, e, n)),
    ensures
        imp_run(init, iced, roof, e, m) == imp_run(init, iced, roof, e, n),
    decreases m - n,
{
    if n < m {
        lemma_run_settles(init, iced, roof, e, n, (m - 1) as nat);
    }
}

fn trunc_div_exec(a: i64, b: i64) -> (r: i64)
    requires
        a > i64::MIN,
        b > 0,
    ensures
        r == trunc_div(a as int, b as int),
{
    if a >= 0 {
        a / b
    } else {
        -((-a) / b)
    }
}

fn y_shift_exec(x: i64, roof: bool) -> (r: i64)
    requires
        -10_000_000 <= x <= 10_000_000,
    ensures
        r == y_shift_of(x as int, roof),
{
    if !roof || x >= 400 * X_UNITS_PER_PIXEL {
        0
    } else {
        (400 * X_UNITS_PER_PIXEL - x) * Y_SHIFT_PER_X_UNIT
    }
}

fn rows_contain(rows: &Vec<i32>, row: i32) -> (r: bool)
    ensures
        r == rows@.contains(row),
{
    let mut i: usize = 0;
    while i < rows.len()
        invariant
            i <= rows.len(),
            forall|j: int| 0 <= j < i ==> rows@[j] != row,
        decreases rows.len() - i,
    {
        if rows[i] == row {
            return true;
        }
        i = i + 1;
    }
    false
}

impl Imp {
    fn interceptable_exec(&self, e: &Explode) -> (r: bool)
        requires
            circle_small(e.range),
            -10_000_000 <= self.x <= 10_000_000,
            -10_000 <= self.y <= 10_000,
            -400_000_000 <= self.h <= 400_000_000,
            0 <= self.y_shift <= 400_000_000,
        ensures
            r == interceptable(*self, *e),
    {
        if !rows_contain(&e.hittable_rows, self.row) {
            return false;
        }
        let px = trunc_div_exec(self.x, X_UNITS_PER_PIXEL) as i32;
        let py = trunc_div_exec(self.y * H_UNITS_PER_PIXEL - self.h + self.y_shift, H_UNITS_PER_PIXEL) as i32;
        let rect = Rectangle {
            upper_left: IntVec2 { x: px, y: py }.add(
                IntVec2 { x: IMP_DEFENSE_SHIFT_X, y: IMP_DEFENSE_SHIFT_Y },
            ),
            width: IMP_DEFENSE_WIDTH,
            height: IMP_DEFENSE_HEIGHT,
        };
        circle_rectangle_intersect(&e.range, &rect)
    }

    fn step(&mut self, iced: bool, roof: bool, e: &Explode, Ghost(init): Ghost<Imp>)
        requires
            imp_inv(*old(self), init, iced, roof),
            !imp_done(*old(self)),
            circle_small(e.range),
        ensures
            *final(self) == imp_step(*old(self), iced, roof, *e),
    {
        let ghost start = *self;
        proof {
            lemma_step_keeps_inv(*self, init, iced, roof, *e);
        }
        self.tick = self.tick + 1;
        self.exist_time = self.exist_time + 1;
        let period: i32 = if iced { 8 } else { 4 };
        match self.state {
            ImpState::Airborne => {
                proof {
                    lemma_flight_bounds(init.h as int, init.vy as int, start.exist_time as int);
                }
                self.vy = self.vy - GRAVITY;
                self.x = self.x - IMP_SPEED_X;
                self.h = self.h + self.vy;
                self.y_shift = y_shift_exec(self.x, roof);
                if self.h + self.y_shift <= 0 {
                    self.h = 0;
                    self.state = ImpState::Landed { countdown: if iced { 50 } else { 25 } };
                }
            },
            ImpState::Landed { countdown } => {
                if countdown - 1 == 0 {
                    self.state = ImpState::Grounded;
                    if self.exist_time % period == 0 {
                        self.eat = Some(self.tick);
                    }
                } else {
                    self.state = ImpState::Landed { countdown: countdown - 1 };
                }
            },
            ImpState::Grounded => {
                if self.iceable.is_none() {
                    self.iceable = Some(self.tick - 1);
                }
                if self.eat.is_none() && self.exist_time % period == 0 {
                    self.eat = Some(self.tick);
                }
            },
        }
        assert(*self == imp_move(start, iced, roof));
        let hit = self.interceptable_exec(e);
        let tick = self.tick;
        self.intercept.update(tick, hit);
    }
}

/// Simulates one thrown minion: a giant at `garg_x` (position units) in `garg_row`, whose
/// row lies at screen y `garg_y` (pixels), throws with random draw `rnd`; `iced` says
/// whether the giant is slowed, `roof` whether the yard is the roof.
pub fn judge_internal(
    garg_x: i32,
    garg_y: i32,
    garg_row: i32,
    rnd: i32,
    iced: bool,
    roof: bool,
    explode: &Explode,
) -> (r: (Eat, Intercept))
    requires
        !no_throw(garg_x as int, rnd as int) ==> sample_inputs_ok(
            garg_x as int,
            garg_y as int,
            rnd as int,
        ) && circle_small(explode.range),
    ensures
        r == judge_sample(garg_x as int, garg_y as int, garg_row, rnd as int, iced, roof, *explode),
        no_throw(garg_x as int, rnd as int) ==> r == (Eat::Empty, Intercept::Empty),
        !no_throw(garg_x as int, rnd as int) ==> r.0 is Both,
        r.1.wf(),
        match r.1 {
            Intercept::Success { min, .. } => spawn_time(iced) < min,
            _ => true,
        },
{
    if garg_x < GARG_THROW_IMP_THRES || (garg_x < GARG_THROW_RND_THRES && rnd != 0) {
        return (Eat::Empty, Intercept::Empty);
    }
    let x = garg_x as i64 - 133 * X_UNITS_PER_PIXEL;
    let roof_shift: i64 = if roof { 180 } else { 0 };
    let mut imp = Imp {
        state: ImpState::Airborne,
        vy: garg_x as i64 - (360 + roof_shift + rnd as i64) * X_UNITS_PER_PIXEL,
        x,
        h: 88 * H_UNITS_PER_PIXEL,
        y_shift: y_shift_exec(x, roof),
        y: garg_y as i64,
        row: garg_row,
        exist_time: 0,
        tick: if iced { 210 } else { 105 },
        eat: None,
        iceable: None,
        intercept: Intercept::Empty,
    };
    let ghost init = imp;
    assert(init == imp_init(garg_x as int, garg_y as int, garg_row, rnd as int, iced, roof));
    assert(flight_h(init.h as int, init.vy as int, 0) == init.h);
    let ghost mut n: nat = 0;
    while !(imp.eat.is_some() && imp.iceable.is_some())
        invariant
            imp_inv(imp, init, iced, roof),
            imp == imp_run(init, iced, roof, *explode, n),
            n == imp.exist_time,
            circle_small(explode.range),
        decreases imp_measure(imp, iced),
    {
        proof {
            lemma_step_keeps_inv(imp, init, iced, roof, *explode);
        }
        imp.step(iced, roof, explode, Ghost(init));
        proof {
            n = n + 1;
        }
    }
    proof {
        lemma_run_settles(init, iced, roof, *explode, n, sim_fuel());
    }
    let eat = match (imp.eat, imp.iceable) {
        (Some(eat), Some(iceable)) => Eat::Both { eat, iceable },
        _ => Eat::Empty,
    };
    let intercept = match imp.intercept {
        Intercept::Success { min, max } => if max == imp.tick {
            Intercept::Success { min, max: UNBOUNDED_TICK }
        } else {
            imp.intercept
        },
        other => other,
    };
    (eat, intercept)
}

} // verus!
