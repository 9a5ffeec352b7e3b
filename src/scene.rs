use vstd::prelude::*;

verus! {

/// Which rows a blast is meant to stop giants in.
#[derive(PartialEq, Eq, Structural, Debug, Clone, Copy)]
pub enum DelayMode {
    /// Only the row below the hit row.
    Delay1,
    /// The hit row and the row below.
    Delay2,
    /// The rows above, at and below the hit row.
    Delay3,
}

/// How far (in pixels) a cob may land from a giant and still hit it.
#[derive(PartialEq, Eq, Structural, Debug, Clone, Copy)]
pub struct CobDist {
    /// For a giant in the row above.
    pub hit_above: i32,
    /// For a giant in the same row.
    pub hit_same: i32,
    /// For a giant in the row below.
    pub hit_below: i32,
}

/// The yard layout: ground front yard, ground back yard (with a pool), or roof.
#[derive(PartialEq, Eq, Structural, Debug, Clone, Copy)]
pub enum Scene {
    DE,
    PE,
    RE,
}

/// Rows of the scene, in order.
pub open spec fn scene_rows(s: Scene) -> Seq<i32> {
    match s {
        Scene::PE => seq![1i32, 2, 3, 4, 5, 6],
        _ => seq![1i32, 2, 3, 4, 5],
    }
}

/// Rows in which giants walk (the pool rows of the back yard have none), in order.
pub open spec fn scene_garg_rows(s: Scene) -> Seq<i32> {
    match s {
        Scene::PE => seq![1i32, 2, 5, 6],
        _ => seq![1i32, 2, 3, 4, 5],
    }
}

pub open spec fn row_dist(a: int, b: int) -> int {
    if a >= b { a - b } else { b - a }
}

/// The elements of `rows`, in their order, that lie at most `range` rows from `hit`.
pub open spec fn rows_within(rows: Seq<i32>, hit: int, range: int) -> Seq<i32>
    decreases rows.len(),
{
    if rows.len() == 0 {
        Seq::empty()
    } else {
        let rest = rows_within(rows.drop_last(), hit, range);
        if row_dist(rows.last() as int, hit) <= range {
            rest.push(rows.last())
        } else {
            rest
        }
    }
}

/// Rows a cob affects around its row.
pub const COB_HIT_RANGE: i32 = 1;

/// Rows a doom-shroom affects around its row.
pub const DOOM_HIT_RANGE: i32 = 3;

pub open spec fn row_height_of(s: Scene) -> i32 {
    match s {
        Scene::DE => 100,
        _ => 85,
    }
}

pub open spec fn zombie_base_y_of(s: Scene) -> i32 {
    match s {
        Scene::RE => 40,
        _ => 50,
    }
}

pub open spec fn cob_dist_of(s: Scene, cob_col: Option<i32>) -> CobDist {
    match s {
        Scene::DE => CobDist { hit_above: 111, hit_same: 125, hit_below: 125 },
        Scene::PE => CobDist { hit_above: 118, hit_same: 125, hit_below: 125 },
        Scene::RE => {
            let c = cob_col.unwrap();
            if c == 1 {
                CobDist { hit_above: 125, hit_same: 124, hit_below: 84 }
            } else if c == 2 {
                CobDist { hit_above: 125, hit_same: 125, hit_below: 102 }
            } else if c == 3 {
                CobDist { hit_above: 125, hit_same: 125, hit_below: 114 }
            } else if c == 4 {
                CobDist { hit_above: 125, hit_same: 125, hit_below: 121 }
            } else if c == 5 {
                CobDist { hit_above: 124, hit_same: 125, hit_below: 124 }
            } else if c == 6 {
                CobDist { hit_above: 121, hit_same: 125, hit_below: 125 }
            } else {
                CobDist { hit_above: 118, hit_same: 125, hit_below: 125 }
            }
        },
    }
}

/// Whether `cob_col` names a cob column that the roof's distance table covers.
pub open spec fn roof_cob_col_known(cob_col: Option<i32>) -> bool {
    cob_col.is_some() && 1 <= cob_col.unwrap() <= 8
}

fn vec_of(s: &[i32]) -> (r: Vec<i32>)
    ensures
        r@ == s@,
{
    let mut r: Vec<i32> = Vec::new();
    let mut i: usize = 0;
    while i < s.len()
        invariant
            i <= s.len(),
            r@ == s@.subrange(0, i as int),
        decreases s.len() - i,
    {
        r.push(s[i]);
        i = i + 1;
        assert(r@ =~= s@.subrange(0, i as int));
    }
    assert(r@ =~= s@);
    r
}

impl Scene {
    pub fn all_rows(&self) -> (r: Vec<i32>)
        ensures
            r@ == scene_rows(*self),
    {
        let r = match self {
            Scene::PE => vec![1, 2, 3, 4, 5, 6],
            _ => vec![1, 2, 3, 4, 5],
        };
        assert(r@ =~= scene_rows(*self));
        r
    }

    fn garg_rows(&self) -> (r: Vec<i32>)
        ensures
            r@ == scene_garg_rows(*self),
    {
        let r = match self {
            Scene::PE => vec![1, 2, 5, 6],
            _ => vec![1, 2, 3, 4, 5],
        };
        assert(r@ =~= scene_garg_rows(*self));
        r
    }

    /// The giant rows at most `hit_range` rows from `hit_row`, in increasing order.
    pub fn hittable_rows(&self, hit_row: i32, hit_range: i32) -> (r: Vec<i32>)
        ensures
            r@ == rows_within(scene_garg_rows(*self), hit_row as int, hit_range as int),
    {
        let rows = self.garg_rows();
        let mut r: Vec<i32> = Vec::new();
        let mut i: usize = 0;
        while i < rows.len()
            invariant
                i <= rows.len(),
                rows@ == scene_garg_rows(*self),
                r@ == rows_within(rows@.subrange(0, i as int), hit_row as int, hit_range as int),
            decreases rows.len() - i,
        {
            let v = rows[i];
            let d: i64 = if v as i64 >= hit_row as i64 {
                v as i64 - hit_row as i64
            } else {
                hit_row as i64 - v as i64
            };
            assert(rows@.subrange(0, i + 1).drop_last() =~= rows@.subrange(0, i as int));
            if d <= hit_range as i64 {
                r.push(v);
            }
            i = i + 1;
        }
        assert(rows@.subrange(0, rows.len() as int) =~= rows@);
        r
    }

    /// The giant rows that a cob landing in `hit_row` can reach.
    pub fn garg_rows_for_cob(&self, hit_row: i32) -> (r: Vec<i32>)
        ensures
            r@ == rows_within(scene_garg_rows(*self), hit_row as int, COB_HIT_RANGE as int),
    {
        self.hittable_rows(hit_row, COB_HIT_RANGE)
    }

    /// The giant rows that a doom-shroom in `doom_row` can reach.
    pub fn garg_rows_for_doom(&self, doom_row: i32) -> (r: Vec<i32>)
        ensures
            r@ == rows_within(scene_garg_rows(*self), doom_row as int, DOOM_HIT_RANGE as int),
    {
        self.hittable_rows(doom_row, DOOM_HIT_RANGE)
    }

    /// The usual delay mode for a cob landing at pixel `hit_x`; on the roof beyond
    /// column 5 it depends on the cob's column, which must then be given.
    pub fn default_delay_mode(&self, hit_x: i32, cob_col: Option<i32>) -> (r: DelayMode)
        requires
            *self == Scene::RE && hit_x > 400 ==> cob_col.is_some(),
        ensures
            r == match *self {
                Scene::DE => if hit_x <= 400 { DelayMode::Delay3 } else { DelayMode::Delay2 },
                Scene::PE => DelayMode::Delay2,
                Scene::RE => if hit_x <= 400 || cob_col.unwrap() <= 4 {
                    DelayMode::Delay3
                } else {
                    DelayMode::Delay2
                },
            },
    {
        match self {
            Scene::DE => {
                if hit_x <= 400 {
                    DelayMode::Delay3
                } else {
                    DelayMode::Delay2
                }
            },
            Scene::PE => DelayMode::Delay2,
            Scene::RE => {
                if hit_x <= 400 {
                    DelayMode::Delay3
                } else {
                    match cob_col {
                        Some(c) => if c <= 4 {
                            DelayMode::Delay3
                        } else {
                            DelayMode::Delay2
                        },
                        None => DelayMode::Delay2,
                    }
                }
            },
        }
    }

    /// The standard hit rows of a delay mode, each with the giant rows it stops.
    pub fn hit_row_and_garg_rows_of_delay_mode(&self, delay_mode: &DelayMode) -> (r: Vec<
        (i32, Vec<i32>),
    >)
        ensures
            r.len() == 2,
            (r[0].0, r[0].1@, r[1].0, r[1].1@) == match (*delay_mode, *self) {
                (DelayMode::Delay1, Scene::DE) => (1i32, seq![2i32], 4i32, seq![5i32]),
                (DelayMode::Delay1, Scene::PE) => (1i32, seq![2i32], 5i32, seq![6i32]),
                (DelayMode::Delay1, Scene::RE) => (2i32, seq![3i32], 4i32, seq![5i32]),
                (DelayMode::Delay2, Scene::DE) => (1i32, seq![1i32, 2], 4i32, seq![4i32, 5]),
                (DelayMode::Delay2, Scene::PE) => (1i32, seq![1i32, 2], 5i32, seq![5i32, 6]),
                (DelayMode::Delay2, Scene::RE) => (2i32, seq![2i32, 3], 4i32, seq![4i32, 5]),
                (DelayMode::Delay3, Scene::PE) => (2i32, seq![1i32, 2], 6i32, seq![5i32, 6]),
                (DelayMode::Delay3, _) => (2i32, seq![1i32, 2, 3], 4i32, seq![3i32, 4, 5]),
            },
    {
        let (a, ra, b, rb): (i32, &[i32], i32, &[i32]) = match (delay_mode, self) {
            (DelayMode::Delay1, Scene::DE) => (1, &[2], 4, &[5]),
            (DelayMode::Delay1, Scene::PE) => (1, &[2], 5, &[6]),
            (DelayMode::Delay1, Scene::RE) => (2, &[3], 4, &[5]),
            (DelayMode::Delay2, Scene::DE) => (1, &[1, 2], 4, &[4, 5]),
            (DelayMode::Delay2, Scene::PE) => (1, &[1, 2], 5, &[5, 6]),
            (DelayMode::Delay2, Scene::RE) => (2, &[2, 3], 4, &[4, 5]),
            (DelayMode::Delay3, Scene::PE) => (2, &[1, 2], 6, &[5, 6]),
            (DelayMode::Delay3, _) => (2, &[1, 2, 3], 4, &[3, 4, 5]),
        };
        let first = vec_of(ra);
        let second = vec_of(rb);
        let r = vec![(a, first), (b, second)];
        proof {
            assert(ra@ =~= r[0].1@);
        }
        r
    }

    /// How far a cob may land from a giant and still hit it; on the roof this depends
    /// on the cob's column, which must be given.
    pub fn cob_dist(&self, cob_col: Option<i32>) -> (r: CobDist)
        requires
            *self == Scene::RE ==> roof_cob_col_known(cob_col),
        ensures
            r == cob_dist_of(*self, cob_col),
    {
        match self {
            Scene::DE => CobDist { hit_above: 111, hit_same: 125, hit_below: 125 },
            Scene::PE => CobDist { hit_above: 118, hit_same: 125, hit_below: 125 },
            Scene::RE => {
                let c = match cob_col {
                    Some(c) => c,
                    None => 1,
                };
                if c == 1 {
                    CobDist { hit_above: 125, hit_same: 124, hit_below: 84 }
                } else if c == 2 {
                    CobDist { hit_above: 125, hit_same: 125, hit_below: 102 }
                } else if c == 3 {
                    CobDist { hit_above: 125, hit_same: 125, hit_below: 114 }
                } else if c == 4 {
                    CobDist { hit_above: 125, hit_same: 125, hit_below: 121 }
                } else if c == 5 {
                    CobDist { hit_above: 124, hit_same: 125, hit_below: 124 }
                } else if c == 6 {
                    CobDist { hit_above: 121, hit_same: 125, hit_below: 125 }
                } else {
                    CobDist { hit_above: 118, hit_same: 125, hit_below: 125 }
                }
            },
        }
    }

    pub fn row_height(&self) -> (r: i32)
        ensures
            r == row_height_of(*self),
    {
        match self {
            Scene::DE => 100,
            _ => 85,
        }
    }

    pub fn zombie_base_y(&self) -> (r: i32)
        ensures
            r == zombie_base_y_of(*self),
    {
        match self {
            Scene::RE => 40,
            _ => 50,
        }
    }

    pub fn is_roof(&self) -> (r: bool)
        ensures
            r == (*self == Scene::RE),
    {
        match self {
            Scene::RE => true,
            _ => false,
        }
    }
}

} // verus!
