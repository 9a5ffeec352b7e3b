use vstd::prelude::*;
use crate::geometry::{circle_small, Circle, IntVec2};
use crate::scene::{
    row_height_of, rows_within, scene_garg_rows, Scene, COB_HIT_RANGE, DOOM_HIT_RANGE,
};

verus! {

pub const COL_WIDTH: i32 = 80;

pub const COB_RADIUS: i32 = 115;

pub const DOOM_RADIUS: i32 = 250;

/// Where a cob lands. `x` is the landing pixel (the column times 80, rounded).
/// On the roof the cob's own tail column and row also shape the blast's height.
#[derive(PartialEq, Eq, Structural, Debug, Clone, Copy)]
pub enum Cob {
    Ground { row: i32, x: i32 },
    Roof { row: i32, x: i32, cob_col: i32, cob_row: i32 },
}

/// A doom-shroom planted at a grid cell.
#[derive(PartialEq, Eq, Structural, Debug, Clone, Copy)]
pub struct Doom {
    pub row: i32,
    pub col: i32,
}

/// A blast: the circle it covers and the giant rows it reaches.
#[derive(Debug, Clone)]
pub struct Explode {
    pub range: Circle,
    pub hittable_rows: Vec<i32>,
}

impl Cob {
    pub open spec fn row_of(self) -> i32 {
        match self {
            Cob::Ground { row, .. } => row,
            Cob::Roof { row, .. } => row,
        }
    }

    pub open spec fn x_of(self) -> i32 {
        match self {
            Cob::Ground { x, .. } => x,
            Cob::Roof { x, .. } => x,
        }
    }

    /// A landing row of the yard, a landing pixel on the lawn, and a tail column that
    /// the roof's panel rules know.
    pub open spec fn valid(self) -> bool {
        &&& 1 <= self.row_of() <= 6
        &&& -100_000 <= self.x_of() <= 100_000
        &&& match self {
            Cob::Roof { cob_col, .. } => 1 <= cob_col <= 8,
            _ => true,
        }
    }

    pub fn row(&self) -> (r: i32)
        ensures
            r == self.row_of(),
    {
        match self {
            Cob::Ground { row, .. } => *row,
            Cob::Roof { row, .. } => *row,
        }
    }

    pub fn x(&self) -> (r: i32)
        ensures
            r == self.x_of(),
    {
        match self {
            Cob::Ground { x, .. } => *x,
            Cob::Roof { x, .. } => *x,
        }
    }
}

/// The blast's center sits 7 pixels left of the landing pixel (6 near the left edge).
pub open spec fn blast_x(x: int) -> int {
    if x >= 7 { x - 7 } else { x - 6 }
}

/// Coarse roof step: one 20-pixel step per column between pixels 207 and 526.
pub open spec fn roof_step1(x: int) -> int {
    if x <= 206 {
        0
    } else if x >= 527 {
        5
    } else {
        (x - 127) / 80
    }
}

/// The pixel range over which a cob with tail column `cob_col` climbs the roof finely,
/// and the shift of that fine step.
pub open spec fn roof_edges(cob_col: int) -> (int, int, int) {
    if cob_col == 1 {
        (87, 524, 0)
    } else if cob_col >= 7 {
        (510, 523, 5)
    } else {
        (80 * cob_col - 13, 524, 5)
    }
}

/// Fine roof step, one pixel for every 4 pixels past the left edge.
pub open spec fn roof_step2(x: int, cob_col: int) -> int {
    let (left, right, shift) = roof_edges(cob_col);
    if x <= left {
        0
    } else if x >= right {
        (right - left + 3) / 4 - shift
    } else {
        (x - left + 3) / 4 - shift
    }
}

/// The empirical correction of a landing exactly on a panel edge.
pub open spec fn roof_edge_fix(x: int, cob_col: int, cob_row: int) -> int {
    let (left, _, _) = roof_edges(cob_col);
    if x == left && 2 <= cob_col <= 6 {
        (if 3 <= cob_row <= 5 { 5int } else { 0int }) - (if cob_row == 3 && cob_col == 6 {
            5int
        } else {
            0int
        })
    } else {
        0
    }
}

/// Height of a roof blast's center, never above the top of the yard.
pub open spec fn roof_blast_y(row: int, x: int, cob_col: int, cob_row: int, row_height: int) -> int {
    let y = 209 + (row - 1) * row_height - roof_step1(x) * 20 - roof_step2(x, cob_col)
        + roof_edge_fix(x, cob_col, cob_row);
    if y >= 0 { y } else { 0 }
}

pub open spec fn cob_center(cob: Cob, scene: Scene) -> IntVec2 {
    match cob {
        Cob::Ground { row, x } => IntVec2 {
            x: blast_x(x as int) as i32,
            y: (120 + (row - 1) * row_height_of(scene)) as i32,
        },
        Cob::Roof { row, x, cob_col, cob_row } => IntVec2 {
            x: blast_x(x as int) as i32,
            y: roof_blast_y(
                row as int,
                x as int,
                cob_col as int,
                cob_row as int,
                row_height_of(scene) as int,
            ) as i32,
        },
    }
}

/// `e` is the blast of `cob` in `scene`.
pub open spec fn is_cob_blast(e: Explode, cob: Cob, scene: Scene) -> bool {
    &&& e.range == Circle { center: cob_center(cob, scene), radius: COB_RADIUS }
    &&& e.hittable_rows@ == rows_within(
        scene_garg_rows(scene),
        cob.row_of() as int,
        COB_HIT_RANGE as int,
    )
}

/// `e` is the blast of `doom` in `scene`.
pub open spec fn is_doom_blast(e: Explode, doom: Doom, scene: Scene) -> bool {
    &&& e.range == Circle {
        center: IntVec2 {
            x: (doom.col * COL_WIDTH) as i32,
            y: (120 + (doom.row - 1) * row_height_of(scene)) as i32,
        },
        radius: DOOM_RADIUS,
    }
    &&& e.hittable_rows@ == rows_within(
        scene_garg_rows(scene),
        doom.row as int,
        DOOM_HIT_RANGE as int,
    )
}

impl Explode {
    pub fn of_cob(cob: &Cob, scene: &Scene) -> (r: Explode)
        requires
            cob.valid(),
        ensures
            is_cob_blast(r, *cob, *scene),
            circle_small(r.range),
    {
        let row_height = scene.row_height();
        match *cob {
            Cob::Ground { row, x } => {
                let cx = if x >= 7 { x - 7 } else { x - 6 };
                let y = 120 + (row - 1) * row_height;
                Explode {
                    range: Circle { center: IntVec2 { x: cx, y }, radius: COB_RADIUS },
                    hittable_rows: scene.hittable_rows(row, COB_HIT_RANGE),
                }
            },
            Cob::Roof { row, x, cob_col, cob_row } => {
                let mut y: i32 = 209 + (row - 1) * row_height;
                let step1: i32 = if x <= 206 {
                    0
                } else if x >= 527 {
                    5
                } else {
                    (x - 127) / 80
                };
                y = y - step1 * 20;
                let (left_edge, right_edge, step2_shift): (i32, i32, i32) = if cob_col == 1 {
                    (87, 524, 0)
                } else if cob_col >= 7 {
                    (510, 523, 5)
                } else {
                    (80 * cob_col - 13, 524, 5)
                };
                let step2: i32 = if x <= left_edge {
                    0
                } else if x >= right_edge {
                    (right_edge - left_edge + 3) / 4 - step2_shift
                } else {
                    (x - left_edge + 3) / 4 - step2_shift
                };
                y = y - step2;
                if x == left_edge && cob_col >= 2 && cob_col <= 6 {
                    if cob_row >= 3 && cob_row <= 5 {
                        y = y + 5;
                    }
                    if cob_row == 3 && cob_col == 6 {
                        y = y - 5;
                    }
                }
                if y < 0 {
                    y = 0;
                }
                let cx = if x >= 7 { x - 7 } else { x - 6 };
                Explode {
                    range: Circle { center: IntVec2 { x: cx, y }, radius: COB_RADIUS },
                    hittable_rows: scene.hittable_rows(row, COB_HIT_RANGE),
                }
            },
        }
    }

    pub fn of_doom(doom: &Doom, scene: &Scene) -> (r: Explode)
        requires
            1 <= doom.row <= 6,
            -10_000 <= doom.col <= 10_000,
        ensures
            is_doom_blast(r, *doom, *scene),
            circle_small(r.range),
    {
        Explode {
            range: Circle {
                center: IntVec2 {
                    x: doom.col * COL_WIDTH,
                    y: 120 + (doom.row - 1) * scene.row_height(),
                },
                radius: DOOM_RADIUS,
            },
            hittable_rows: scene.hittable_rows(doom.row, DOOM_HIT_RANGE),
        }
    }
}

/// The blast of a cob depends on the placement and the scene alone: two blasts of the
/// same cob in the same scene cover the same circle and reach the same rows.
pub proof fn lemma_cob_blast_deterministic(cob: Cob, scene: Scene, e1: Explode, e2: Explode)
    requires
        is_cob_blast(e1, cob, scene),
        is_cob_blast(e2, cob, scene),
    ensures
        e1.range == e2.range,
        e1.hittable_rows@ == e2.hittable_rows@,
{
}

/// The blast of a doom-shroom depends on the placement and the scene alone.
pub proof fn lemma_doom_blast_deterministic(doom: Doom, scene: Scene, e1: Explode, e2: Explode)
    requires
        is_doom_blast(e1, doom, scene),
        is_doom_blast(e2, doom, scene),
    ensures
        e1.range == e2.range,
        e1.hittable_rows@ == e2.hittable_rows@,
{
}

} // verus!
