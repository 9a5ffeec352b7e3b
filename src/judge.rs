use vstd::prelude::*;
use crate::blast::Explode;
use crate::geometry::circle_small;
use crate::imp::{judge_internal, judge_sample, GARG_THROW_IMP_THRES, MAX_GARG_X};
use crate::interval::{
    eat_merge, eat_widens, intercept_merge, lemma_eat_merge_least, lemma_eat_widens_transitive, Eat,
    Intercept,
};
use crate::scene::{row_height_of, zombie_base_y_of, Scene};

verus! {

/// The giant's possible positions when the cob takes effect, in thousandths of a pixel.
#[derive(PartialEq, Eq, Structural, Debug, Clone, Copy)]
pub enum GargXRange {
    /// No giant in the range throws: nothing to compute.
    Cancelled,
    /// The range reached left of the throw threshold and was cut there.
    Modified { min: i32, max: i32 },
    /// The range as given.
    Unchanged { min: i32, max: i32 },
}

pub open spec fn garg_x_range_of(min: i32, max: i32) -> GargXRange {
    if min < GARG_THROW_IMP_THRES {
        if max < GARG_THROW_IMP_THRES {
            GargXRange::Cancelled
        } else {
            GargXRange::Modified { min: GARG_THROW_IMP_THRES, max }
        }
    } else {
        GargXRange::Unchanged { min, max }
    }
}

/// The extreme positions that are sampled.
pub open spec fn garg_xs(r: GargXRange) -> Seq<i32> {
    match r {
        GargXRange::Cancelled => Seq::empty(),
        GargXRange::Modified { min, max } => seq![min, max],
        GargXRange::Unchanged { min, max } => seq![min, max],
    }
}

impl GargXRange {
    /// Cuts a position range at the throw threshold.
    pub fn of_min_max_garg_pos(min_max_garg_pos: (i32, i32)) -> (r: GargXRange)
        ensures
            r == garg_x_range_of(min_max_garg_pos.0, min_max_garg_pos.1),
    {
        let (min_garg_x, max_garg_x) = min_max_garg_pos;
        if min_garg_x < GARG_THROW_IMP_THRES {
            if max_garg_x < GARG_THROW_IMP_THRES {
                GargXRange::Cancelled
            } else {
                GargXRange::Modified { min: GARG_THROW_IMP_THRES, max: max_garg_x }
            }
        } else {
            GargXRange::Unchanged { min: min_garg_x, max: max_garg_x }
        }
    }

    pub fn to_list(&self) -> (r: Vec<i32>)
        ensures
            r@ == garg_xs(*self),
    {
        let r = match *self {
            GargXRange::Cancelled => Vec::new(),
            GargXRange::Modified { min, max } => vec![min, max],
            GargXRange::Unchanged { min, max } => vec![min, max],
        };
        assert(r@ =~= garg_xs(*self));
        r
    }

    /// Every sampled position is one a giant can be at.
    pub open spec fn within_yard(self) -> bool {
        forall|i: int| 0 <= i < garg_xs(self).len() ==> #[trigger] garg_xs(self)[i] <= MAX_GARG_X
    }
}

pub open spec fn merge_results(a: (Eat, Intercept), b: (Eat, Intercept)) -> (Eat, Intercept) {
    (eat_merge(a.0, b.0), intercept_merge(a.1, b.1))
}

/// Screen y of a giant's row.
pub open spec fn garg_y_of(scene: Scene, row: i32) -> int {
    zombie_base_y_of(scene) + (row - 1) * row_height_of(scene)
}

pub open spec fn sample_of(x: i32, row: i32, rnd: int, iced: bool, scene: Scene, e: Explode) -> (
    Eat,
    Intercept,
) {
    judge_sample(x as int, garg_y_of(scene, row), row, rnd, iced, scene == Scene::RE, e)
}

/// Both random draws that bound the throw speed, at one position and row.
pub open spec fn fold_rnds(
    acc: (Eat, Intercept),
    x: i32,
    row: i32,
    iced: bool,
    scene: Scene,
    e: Explode,
) -> (Eat, Intercept) {
    merge_results(
        merge_results(acc, sample_of(x, row, 0, iced, scene, e)),
        sample_of(x, row, 100, iced, scene, e),
    )
}

pub open spec fn fold_rows(
    acc: (Eat, Intercept),
    rows: Seq<i32>,
    x: i32,
    iced: bool,
    scene: Scene,
    e: Explode,
) -> (Eat, Intercept)
    decreases rows.len(),
{
    if rows.len() == 0 {
        acc
    } else {
        fold_rnds(fold_rows(acc, rows.drop_last(), x, iced, scene, e), x, rows.last(), iced, scene, e)
    }
}

pub open spec fn fold_xs(
    acc: (Eat, Intercept),
    xs: Seq<i32>,
    rows: Seq<i32>,
    iced: bool,
    scene: Scene,
    e: Explode,
) -> (Eat, Intercept)
    decreases xs.len(),
{
    if xs.len() == 0 {
        acc
    } else {
        fold_rows(fold_xs(acc, xs.drop_last(), rows, iced, scene, e), rows, xs.last(), iced, scene, e)
    }
}

pub open spec fn fold_explodes(
    acc: (Eat, Intercept),
    pairs: Seq<(Explode, &Vec<i32>)>,
    xs: Seq<i32>,
    iced: bool,
    scene: Scene,
) -> (Eat, Intercept)
    decreases pairs.len(),
{
    if pairs.len() == 0 {
        acc
    } else {
        let p = pairs.last();
        fold_xs(fold_explodes(acc, pairs.drop_last(), xs, iced, scene), xs, p.1@, iced, scene, p.0)
    }
}

/// Eat and intercept merged over every blast, both extreme positions, every row the
/// blast is paired with, and both extreme random draws.
pub open spec fn judge_spec(
    garg_x_range: GargXRange,
    pairs: Seq<(Explode, &Vec<i32>)>,
    iced: bool,
    scene: Scene,
) -> (Eat, Intercept) {
    fold_explodes((Eat::Empty, Intercept::Empty), pairs, garg_xs(garg_x_range), iced, scene)
}

/// Blasts with small circles, paired with rows of the yard.
pub open spec fn pairs_ok(pairs: Seq<(Explode, &Vec<i32>)>) -> bool {
    forall|i: int|
        0 <= i < pairs.len() ==> {
            &&& circle_small(#[trigger] pairs[i].0.range)
            &&& forall|j: int| 0 <= j < pairs[i].1.len() ==> 1 <= #[trigger] pairs[i].1@[j] <= 6
        }
}

fn judge_rows(
    start: (Eat, Intercept),
    rows: &Vec<i32>,
    x: i32,
    iced: bool,
    scene: &Scene,
    explode: &Explode,
) -> (r: (Eat, Intercept))
    requires
        x <= MAX_GARG_X,
        circle_small(explode.range),
        forall|j: int| 0 <= j < rows.len() ==> 1 <= #[trigger] rows@[j] <= 6,
        start.1.wf(),
    ensures
        r == fold_rows(start, rows@, x, iced, *scene, *explode),
        r.1.wf(),
{
    let mut acc = start;
    let mut k: usize = 0;
    while k < rows.len()
        invariant
            k <= rows.len(),
            x <= MAX_GARG_X,
            circle_small(explode.range),
            forall|j: int| 0 <= j < rows.len() ==> 1 <= #[trigger] rows@[j] <= 6,
            acc == fold_rows(start, rows@.subrange(0, k as int), x, iced, *scene, *explode),
            acc.1.wf(),
        decreases rows.len() - k,
    {
        let garg_row = rows[k];
        assert(1 <= rows@[k as int] <= 6);
        let row_height = scene.row_height();
        assert(0 <= (garg_row - 1) * row_height <= 500) by (nonlinear_arith)
            requires
                1 <= garg_row <= 6,
                0 <= row_height <= 100,
        ;
        let garg_y = scene.zombie_base_y() + (garg_row - 1) * row_height;
        let roof = scene.is_roof();
        let s0 = judge_internal(x, garg_y, garg_row, 0, iced, roof, explode);
        let acc1 = (acc.0.merge(s0.0), acc.1.merge(s0.1));
        let s1 = judge_internal(x, garg_y, garg_row, 100, iced, roof, explode);
        acc = (acc1.0.merge(s1.0), acc1.1.merge(s1.1));
        assert(rows@.subrange(0, k + 1).drop_last() =~= rows@.subrange(0, k as int));
        k = k + 1;
    }
    assert(rows@.subrange(0, rows.len() as int) =~= rows@);
    acc
}

/// Merges every sample: for each blast and its rows, both extreme positions of the range,
/// each row, and both extreme random draws.
pub fn judge(
    garg_x_range: &GargXRange,
    explode_and_garg_rows: &[(Explode, &Vec<i32>)],
    iced: bool,
    scene: &Scene,
) -> (r: (Eat, Intercept))
    requires
        garg_x_range.within_yard(),
        pairs_ok(explode_and_garg_rows@),
    ensures
        r == judge_spec(*garg_x_range, explode_and_garg_rows@, iced, *scene),
        r.1.wf(),
{
    let xs = garg_x_range.to_list();
    let mut acc: (Eat, Intercept) = (Eat::Empty, Intercept::Empty);
    let mut p: usize = 0;
    while p < explode_and_garg_rows.len()
        invariant
            p <= explode_and_garg_rows.len(),
            xs@ == garg_xs(*garg_x_range),
            garg_x_range.within_yard(),
            pairs_ok(explode_and_garg_rows@),
            acc == fold_explodes(
                (Eat::Empty, Intercept::Empty),
                explode_and_garg_rows@.subrange(0, p as int),
                xs@,
                iced,
                *scene,
            ),
            acc.1.wf(),
        decreases explode_and_garg_rows.len() - p,
    {
        let (explode, garg_rows) = &explode_and_garg_rows[p];
        assert(circle_small(explode_and_garg_rows@[p as int].0.range));
        let ghost before = acc;
        let mut q: usize = 0;
        while q < xs.len()
            invariant
                q <= xs.len(),
                xs@ == garg_xs(*garg_x_range),
                garg_x_range.within_yard(),
                circle_small(explode.range),
                forall|j: int| 0 <= j < garg_rows.len() ==> 1 <= #[trigger] garg_rows@[j] <= 6,
                acc == fold_xs(before, xs@.subrange(0, q as int), garg_rows@, iced, *scene, *explode),
                acc.1.wf(),
            decreases xs.len() - q,
        {
            assert(xs@[q as int] <= MAX_GARG_X);
            acc = judge_rows(acc, garg_rows, xs[q], iced, scene, explode);
            assert(xs@.subrange(0, q + 1).drop_last() =~= xs@.subrange(0, q as int));
            q = q + 1;
        }
        assert(xs@.subrange(0, xs.len() as int) =~= xs@);
        assert(explode_and_garg_rows@.subrange(0, p + 1).drop_last() =~= explode_and_garg_rows@.subrange(
            0,
            p as int,
        ));
        p = p + 1;
    }
    assert(explode_and_garg_rows@.subrange(0, explode_and_garg_rows.len() as int)
        =~= explode_and_garg_rows@);
    acc
}

/// `t` is at least as wide as both draws' samples at position `x` in `row`.
pub open spec fn covers_sample(t: Eat, x: i32, row: i32, iced: bool, scene: Scene, e: Explode) -> bool {
    &&& eat_widens(t, sample_of(x, row, 0, iced, scene, e).0)
    &&& eat_widens(t, sample_of(x, row, 100, iced, scene, e).0)
}

pub open spec fn covers_rows(t: Eat, rows: Seq<i32>, x: i32, iced: bool, scene: Scene, e: Explode) -> bool {
    forall|row: i32| rows.contains(row) ==> #[trigger] covers_sample(t, x, row, iced, scene, e)
}

pub open spec fn covers_xs(t: Eat, xs: Seq<i32>, rows: Seq<i32>, iced: bool, scene: Scene, e: Explode) -> bool {
    forall|x: i32| xs.contains(x) ==> #[trigger] covers_rows(t, rows, x, iced, scene, e)
}

pub open spec fn covers_pairs(t: Eat, pairs: Seq<(Explode, &Vec<i32>)>, xs: Seq<i32>, iced: bool, scene: Scene) -> bool {
    forall|i: int| 0 <= i < pairs.len() ==> #[trigger] covers_xs(t, xs, pairs[i].1@, iced, scene, pairs[i].0)
}

proof fn lemma_contains_drop_last(s: Seq<i32>, v: i32)
    requires
        s.len() > 0,
    ensures
        s.contains(v) <==> (s.drop_last().contains(v) || v == s.last()),
{
    if s.contains(v) {
        let j = choose|j: int| 0 <= j < s.len() && s[j] == v;
        if j < s.len() - 1 {
            assert(s.drop_last()[j] == v);
        }
    }
    if s.drop_last().contains(v) {
        let j = choose|j: int| 0 <= j < s.drop_last().len() && s.drop_last()[j] == v;
        assert(s[j] == v);
    }
    if v == s.last() {
        assert(s[s.len() - 1] == v);
    }
}

/// The fold over rows widens its start and every sample it takes, and no narrower envelope
/// does both.
proof fn lemma_fold_rows_bounds(
    acc: (Eat, Intercept),
    rows: Seq<i32>,
    x: i32,
    iced: bool,
    scene: Scene,
    e: Explode,
    t: Eat,
)
    ensures
        eat_widens(fold_rows(acc, rows, x, iced, scene, e).0, acc.0),
        covers_rows(fold_rows(acc, rows, x, iced, scene, e).0, rows, x, iced, scene, e),
        eat_widens(t, acc.0) && covers_rows(t, rows, x, iced, scene, e) ==> eat_widens(
            t,
            fold_rows(acc, rows, x, iced, scene, e).0,
        ),
    decreases rows.len(),
{
    if rows.len() > 0 {
        let inner = fold_rows(acc, rows.drop_last(), x, iced, scene, e);
        let row = rows.last();
        let s0 = sample_of(x, row, 0, iced, scene, e).0;
        let s1 = sample_of(x, row, 100, iced, scene, e).0;
        let m0 = eat_merge(inner.0, s0);
        let f = eat_merge(m0, s1);
        lemma_fold_rows_bounds(acc, rows.drop_last(), x, iced, scene, e, t);
        lemma_eat_merge_least(inner.0, s0, t);
        lemma_eat_merge_least(m0, s1, t);
        lemma_eat_widens_transitive(f, m0, inner.0);
        lemma_eat_widens_transitive(f, inner.0, acc.0);
        lemma_eat_widens_transitive(f, m0, s0);
        assert forall|r: i32| rows.contains(r) implies #[trigger] covers_sample(f, x, r, iced, scene, e) by {
            lemma_contains_drop_last(rows, r);
            if r != row {
                assert(covers_sample(inner.0, x, r, iced, scene, e));
                lemma_eat_widens_transitive(f, inner.0, sample_of(x, r, 0, iced, scene, e).0);
                lemma_eat_widens_transitive(f, inner.0, sample_of(x, r, 100, iced, scene, e).0);
            }
        }
        if eat_widens(t, acc.0) && covers_rows(t, rows, x, iced, scene, e) {
            assert forall|r: i32| rows.drop_last().contains(r) implies #[trigger] covers_sample(
                t,
                x,
                r,
                iced,
                scene,
                e,
            ) by {
                lemma_contains_drop_last(rows, r);
            }
            lemma_contains_drop_last(rows, row);
            assert(covers_sample(t, x, row, iced, scene, e));
        }
    }
}

proof fn lemma_fold_xs_bounds(
    acc: (Eat, Intercept),
    xs: Seq<i32>,
    rows: Seq<i32>,
    iced: bool,
    scene: Scene,
    e: Explode,
    t: Eat,
)
    ensures
        eat_widens(fold_xs(acc, xs, rows, iced, scene, e).0, acc.0),
        covers_xs(fold_xs(acc, xs, rows, iced, scene, e).0, xs, rows, iced, scene, e),
        eat_widens(t, acc.0) && covers_xs(t, xs, rows, iced, scene, e) ==> eat_widens(
            t,
            fold_xs(acc, xs, rows, iced, scene, e).0,
        ),
    decreases xs.len(),
{
    if xs.len() > 0 {
        let inner = fold_xs(acc, xs.drop_last(), rows, iced, scene, e);
        let x = xs.last();
        let f = fold_rows(inner, rows, x, iced, scene, e);
        lemma_fold_xs_bounds(acc, xs.drop_last(), rows, iced, scene, e, t);
        lemma_fold_rows_bounds(inner, rows, x, iced, scene, e, t);
        lemma_eat_widens_transitive(f.0, inner.0, acc.0);
        assert forall|y: i32| xs.contains(y) implies #[trigger] covers_rows(f.0, rows, y, iced, scene, e) by {
            lemma_contains_drop_last(xs, y);
            if y != x {
                assert(covers_rows(inner.0, rows, y, iced, scene, e));
                assert forall|r: i32| rows.contains(r) implies #[trigger] covers_sample(
                    f.0,
                    y,
                    r,
                    iced,
                    scene,
                    e,
                ) by {
                    assert(covers_sample(inner.0, y, r, iced, scene, e));
                    lemma_eat_widens_transitive(f.0, inner.0, sample_of(y, r, 0, iced, scene, e).0);
                    lemma_eat_widens_transitive(f.0, inner.0, sample_of(y, r, 100, iced, scene, e).0);
                }
            }
        }
        if eat_widens(t, acc.0) && covers_xs(t, xs, rows, iced, scene, e) {
            assert forall|y: i32| xs.drop_last().contains(y) implies #[trigger] covers_rows(
                t,
                rows,
                y,
                iced,
                scene,
                e,
            ) by {
                lemma_contains_drop_last(xs, y);
            }
            lemma_contains_drop_last(xs, x);
            assert(covers_rows(t, rows, x, iced, scene, e));
        }
    }
}

proof fn lemma_fold_explodes_bounds(
    acc: (Eat, Intercept),
    pairs: Seq<(Explode, &Vec<i32>)>,
    xs: Seq<i32>,
    iced: bool,
    scene: Scene,
    t: Eat,
)
    ensures
        eat_widens(fold_explodes(acc, pairs, xs, iced, scene).0, acc.0),
        covers_pairs(fold_explodes(acc, pairs, xs, iced, scene).0, pairs, xs, iced, scene),
        eat_widens(t, acc.0) && covers_pairs(t, pairs, xs, iced, scene) ==> eat_widens(
            t,
            fold_explodes(acc, pairs, xs, iced, scene).0,
        ),
    decreases pairs.len(),
{
    if pairs.len() > 0 {
        let inner = fold_explodes(acc, pairs.drop_last(), xs, iced, scene);
        let p = pairs.last();
        let f = fold_xs(inner, xs, p.1@, iced, scene, p.0);
        lemma_fold_explodes_bounds(acc, pairs.drop_last(), xs, iced, scene, t);
        lemma_fold_xs_bounds(inner, xs, p.1@, iced, scene, p.0, t);
        lemma_eat_widens_transitive(f.0, inner.0, acc.0);
        assert forall|i: int| 0 <= i < pairs.len() implies #[trigger] covers_xs(
            f.0,
            xs,
            pairs[i].1@,
            iced,
            scene,
            pairs[i].0,
        ) by {
            if i < pairs.len() - 1 {
                let q = pairs[i];
                assert(pairs.drop_last()[i] == q);
                assert(covers_xs(inner.0, xs, q.1@, iced, scene, q.0));
                assert forall|y: i32| xs.contains(y) implies #[trigger] covers_rows(
                    f.0,
                    q.1@,
                    y,
                    iced,
                    scene,
                    q.0,
                ) by {
                    assert(covers_rows(inner.0, q.1@, y, iced, scene, q.0));
                    assert forall|r: i32| q.1@.contains(r) implies #[trigger] covers_sample(
                        f.0,
                        y,
                        r,
                        iced,
                        scene,
                        q.0,
                    ) by {
                        assert(covers_sample(inner.0, y, r, iced, scene, q.0));
                        lemma_eat_widens_transitive(f.0, inner.0, sample_of(y, r, 0, iced, scene, q.0).0);
                        lemma_eat_widens_transitive(
                            f.0,
                            inner.0,
                            sample_of(y, r, 100, iced, scene, q.0).0,
                        );
                    }
                }
            }
        }
        if eat_widens(t, acc.0) && covers_pairs(t, pairs, xs, iced, scene) {
            assert forall|i: int| 0 <= i < pairs.drop_last().len() implies #[trigger] covers_xs(
                t,
                xs,
                pairs.drop_last()[i].1@,
                iced,
                scene,
                pairs.drop_last()[i].0,
            ) by {
                assert(pairs.drop_last()[i] == pairs[i]);
                assert(covers_xs(t, xs, pairs[i].1@, iced, scene, pairs[i].0));
            }
            assert(covers_xs(t, xs, pairs[pairs.len() - 1].1@, iced, scene, pairs[pairs.len() - 1].0));
        }
    }
}

/// Sampling more only widens the safe envelope: when every blast of `pairs1` also stands
/// in `pairs2`, paired there with at least the same rows, the eat tick that `judge` gives
/// for `pairs2` is no later, and its iceable tick no earlier, than for `pairs1`.
pub proof fn lemma_judge_more_samples_widen(
    garg_x_range: GargXRange,
    pairs1: Seq<(Explode, &Vec<i32>)>,
    pairs2: Seq<(Explode, &Vec<i32>)>,
    iced: bool,
    scene: Scene,
)
    requires
        forall|i: int|
            0 <= i < pairs1.len() ==> exists|k: int|
                0 <= k < pairs2.len() && #[trigger] pairs2[k].0 == #[trigger] pairs1[i].0 && forall|
                    row: i32,
                | pairs1[i].1@.contains(row) ==> pairs2[k].1@.contains(row),
    ensures
        eat_widens(
            judge_spec(garg_x_range, pairs2, iced, scene).0,
            judge_spec(garg_x_range, pairs1, iced, scene).0,
        ),
{
    let xs = garg_xs(garg_x_range);
    let init = (Eat::Empty, Intercept::Empty);
    let t = judge_spec(garg_x_range, pairs2, iced, scene).0;
    lemma_fold_explodes_bounds(init, pairs2, xs, iced, scene, t);
    assert forall|i: int| 0 <= i < pairs1.len() implies #[trigger] covers_xs(
        t,
        xs,
        pairs1[i].1@,
        iced,
        scene,
        pairs1[i].0,
    ) by {
        let k = choose|k: int|
            0 <= k < pairs2.len() && #[trigger] pairs2[k].0 == #[trigger] pairs1[i].0 && forall|
                row: i32,
            | pairs1[i].1@.contains(row) ==> pairs2[k].1@.contains(row);
        assert(covers_xs(t, xs, pairs2[k].1@, iced, scene, pairs2[k].0));
        assert forall|y: i32| xs.contains(y) implies #[trigger] covers_rows(
            t,
            pairs1[i].1@,
            y,
            iced,
            scene,
            pairs1[i].0,
        ) by {
            assert(covers_rows(t, pairs2[k].1@, y, iced, scene, pairs2[k].0));
            assert forall|r: i32| pairs1[i].1@.contains(r) implies #[trigger] covers_sample(
                t,
                y,
                r,
                iced,
                scene,
                pairs1[i].0,
            ) by {
                assert(pairs2[k].1@.contains(r));
            }
        }
    }
    lemma_fold_explodes_bounds(init, pairs1, xs, iced, scene, t);
}

} // verus!
