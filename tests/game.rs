use pvz_interception_calculator::blast::{Cob, Doom, Explode};
use pvz_interception_calculator::imp::judge_internal;
use pvz_interception_calculator::interval::{
    safe_intercept_interval, unsafe_intercept_interval, Eat, Intercept, UNBOUNDED_TICK,
};
use pvz_interception_calculator::judge::{judge, GargXRange};
use pvz_interception_calculator::scene::{CobDist, DelayMode, Scene};
use pvz_interception_calculator::walk::{
    min_max_garg_walk_in_half_ticks, min_max_garg_x, GargWalkTable, IceAndCobTimes, TimeError,
    WalkError,
};

#[test]
fn test_ground_judge() {
    let scene = Scene::PE;
    let explode = Explode::of_cob(&Cob::Ground { row: 1, x: 680 }, &scene);
    let (eat, intercept) = judge_internal(800_000, 50, 1, 57, false, false, &explode);
    assert_eq!(eat, Eat::Both { eat: 281, iceable: 281 });
    assert_eq!(intercept, Intercept::Success { min: 107, max: 134 });
    let (eat, intercept) = judge_internal(800_000, 50, 1, 45, false, false, &explode);
    assert_eq!(eat, Eat::Both { eat: 285, iceable: 284 });
    assert_eq!(intercept, Intercept::Success { min: 107, max: 133 });
    let (eat, intercept) = judge(
        &GargXRange::Unchanged { min: 800_000, max: 800_000 },
        &vec![(explode.clone(), &vec![1])],
        false,
        &scene,
    );
    assert_eq!(eat, Eat::Both { eat: 269, iceable: 297 });
    assert_eq!(intercept, Intercept::Success { min: 107, max: 128 });

    let (eat, intercept) = judge(
        &GargXRange::Unchanged { min: 555_000, max: 666_000 },
        &vec![(explode.clone(), &vec![1, 2])],
        true,
        &scene,
    );
    assert_eq!(eat, Eat::Both { eat: 338, iceable: 389 });
    assert_eq!(intercept, Intercept::Fail);
}

#[test]
fn test_roof_judge() {
    let scene = Scene::RE;
    let explode = Explode::of_cob(&Cob::Roof { row: 1, x: 680, cob_col: 3, cob_row: 3 }, &scene);
    let (eat, intercept) = judge_internal(800_000, 40, 1, 50, false, true, &explode);
    assert_eq!(eat, Eat::Both { eat: 237, iceable: 237 });
    assert_eq!(intercept, Intercept::Success { min: 107, max: 167 });
    let (eat, intercept) = judge_internal(800_000, 40, 1, 70, false, true, &explode);
    assert_eq!(eat, Eat::Both { eat: 233, iceable: 231 });
    assert_eq!(intercept, Intercept::Success { min: 107, max: 167 });
    let (eat, intercept) = judge(
        &GargXRange::Unchanged { min: 800_000, max: 800_000 },
        &vec![(explode.clone(), &vec![1])],
        false,
        &scene,
    );
    assert_eq!(eat, Eat::Both { eat: 225, iceable: 253 });
    assert_eq!(intercept, Intercept::Success { min: 107, max: 167 });

    let (eat, intercept) = judge(
        &GargXRange::Unchanged { min: 555_000, max: 666_000 },
        &vec![(explode.clone(), &vec![1, 2])],
        true,
        &scene,
    );
    assert_eq!(eat, Eat::Both { eat: 322, iceable: 355 });
    assert_eq!(intercept, Intercept::Fail);
}

#[test]
fn test_min_max_walk() {
    let (min, max) = min_max_garg_walk_in_half_ticks(&(Vec::new()), 10);
    assert_eq!((min, max), (20, 20));
    let (min, max) = min_max_garg_walk_in_half_ticks(&(vec![1]), 0);
    assert_eq!((min, max), (0, 0));
    let (min, max) = min_max_garg_walk_in_half_ticks(&(vec![1]), 400);
    assert_eq!((min, max), (0, 1));
    let (min, max) = min_max_garg_walk_in_half_ticks(&(vec![1]), 500);
    assert_eq!((min, max), (0, 101));
    let (min, max) = min_max_garg_walk_in_half_ticks(&(vec![1]), 600);
    assert_eq!((min, max), (1, 201));
    let (min, max) = min_max_garg_walk_in_half_ticks(&(vec![1]), 1999);
    assert_eq!((min, max), (1400, 1600));
    let (min, max) = min_max_garg_walk_in_half_ticks(&(vec![1]), 2000);
    assert_eq!((min, max), (1402, 1602));
    let (min, max) = min_max_garg_walk_in_half_ticks(&(vec![1, 2]), 301);
    assert_eq!((min, max), (0, 1));
    let (min, max) = min_max_garg_walk_in_half_ticks(&(vec![1, 2]), 501);
    assert_eq!((min, max), (101, 201));
    let (min, max) = min_max_garg_walk_in_half_ticks(&(vec![1, 500]), 1000);
    assert_eq!((min, max), (102, 302));
    let (min, max) = min_max_garg_walk_in_half_ticks(&(vec![1, 2500]), 3000);
    assert_eq!((min, max), (2400, 2702));
}

#[test]
fn ground_scenario_single_sample() {
    let explode = Explode::of_cob(&Cob::Ground { row: 1, x: 680 }, &Scene::PE);
    assert_eq!(explode.range.center.x, 673);
    assert_eq!(explode.range.center.y, 120);
    assert_eq!(explode.range.radius, 115);
    assert_eq!(explode.hittable_rows, vec![1, 2]);
    let (eat, intercept) = judge_internal(800_000, 50, 1, 57, false, false, &explode);
    assert_eq!(eat, Eat::Both { eat: 281, iceable: 281 });
    assert_eq!(intercept, Intercept::Success { min: 107, max: 134 });
}

#[test]
fn roof_scenario_single_sample() {
    let explode = Explode::of_cob(&Cob::Roof { row: 1, x: 680, cob_col: 3, cob_row: 3 }, &Scene::RE);
    assert_eq!(explode.range.center.x, 673);
    assert_eq!(explode.range.center.y, 39);
    let (eat, intercept) = judge_internal(800_000, 40, 1, 50, false, true, &explode);
    assert_eq!(intercept, Intercept::Success { min: 107, max: 167 });
    assert_eq!(eat, Eat::Both { eat: 237, iceable: 237 });
}

#[test]
fn walking_time_scenarios() {
    assert_eq!(min_max_garg_walk_in_half_ticks(&[], 10), (20, 20));
    assert_eq!(min_max_garg_walk_in_half_ticks(&[1], 2000), (1402, 1602));
    assert_eq!(min_max_garg_walk_in_half_ticks(&[0], 2000), (1402, 1602));
    assert_eq!(min_max_garg_walk_in_half_ticks(&[0], 0), (0, 0));
    assert_eq!(min_max_garg_walk_in_half_ticks(&[0, 1], 2000), min_max_garg_walk_in_half_ticks(&[1, 1], 2000));
}

#[test]
fn range_judge_merges_the_extremes() {
    let scene = Scene::PE;
    let explode = Explode::of_cob(&Cob::Ground { row: 1, x: 680 }, &scene);
    let rows = vec![1, 2];
    let (eat, intercept) = judge(
        &GargXRange::Unchanged { min: 555_000, max: 666_000 },
        &vec![(explode.clone(), &rows)],
        true,
        &scene,
    );
    assert_eq!(intercept, Intercept::Fail);
    let mut merged = Eat::Empty;
    for x in [555_000, 666_000] {
        for row in [1, 2] {
            for rnd in [0, 100] {
                let y = 50 + (row - 1) * 85;
                let (e, _) = judge_internal(x, y, row, rnd, true, false, &explode);
                merged = merged.merge(e);
            }
        }
    }
    assert_eq!(eat, merged);
}

#[test]
fn no_throw_below_threshold() {
    let explode = Explode::of_cob(&Cob::Ground { row: 1, x: 680 }, &Scene::PE);
    for x in [-152_000, 0, 400_999] {
        for rnd in [0, 50, 100] {
            for iced in [false, true] {
                let r = judge_internal(x, 50, 1, rnd, iced, false, &explode);
                assert_eq!(r, (Eat::Empty, Intercept::Empty));
            }
        }
    }
    let r = judge_internal(500_999, 50, 1, 1, false, false, &explode);
    assert_eq!(r, (Eat::Empty, Intercept::Empty));
    let (eat, _) = judge_internal(500_999, 50, 1, 0, false, false, &explode);
    assert!(matches!(eat, Eat::Both { .. }));
    let r = judge(
        &GargXRange::of_min_max_garg_pos((100_000, 400_000)),
        &vec![(explode.clone(), &vec![1])],
        false,
        &Scene::PE,
    );
    assert_eq!(r, (Eat::Empty, Intercept::Empty));
}

#[test]
fn garg_x_range_clamps_at_threshold() {
    assert_eq!(GargXRange::of_min_max_garg_pos((100_000, 400_000)), GargXRange::Cancelled);
    assert_eq!(
        GargXRange::of_min_max_garg_pos((100_000, 500_000)),
        GargXRange::Modified { min: 401_000, max: 500_000 }
    );
    assert_eq!(
        GargXRange::of_min_max_garg_pos((401_000, 500_000)),
        GargXRange::Unchanged { min: 401_000, max: 500_000 }
    );
    assert_eq!(GargXRange::Cancelled.to_list(), Vec::<i32>::new());
    assert_eq!(GargXRange::Unchanged { min: 1, max: 2 }.to_list(), vec![1, 2]);
}

#[test]
fn eat_merge_widens_and_obeys_laws() {
    let a = Eat::Both { eat: 300, iceable: 310 };
    let b = Eat::Both { eat: 290, iceable: 305 };
    let c = Eat::Both { eat: 295, iceable: 320 };
    assert_eq!(a.merge(b), Eat::Both { eat: 290, iceable: 310 });
    assert_eq!(a.merge(b), b.merge(a));
    assert_eq!(a.merge(b).merge(c), a.merge(b.merge(c)));
    assert_eq!(Eat::Empty.merge(a), a);
    assert_eq!(a.merge(Eat::Empty), a);
    assert_eq!(a.merge(a), a);
}

#[test]
fn intercept_merge_obeys_laws() {
    let a = Intercept::Success { min: 100, max: 130 };
    let b = Intercept::Success { min: 110, max: 140 };
    let c = Intercept::Success { min: 135, max: 150 };
    assert_eq!(a.merge(b), Intercept::Success { min: 110, max: 130 });
    assert_eq!(a.merge(c), Intercept::Fail);
    assert_eq!(a.merge(b), b.merge(a));
    assert_eq!(a.merge(b).merge(c), a.merge(b.merge(c)));
    assert_eq!(Intercept::Empty.merge(a), a);
    assert_eq!(a.merge(Intercept::Empty), a);
    assert_eq!(a.merge(Intercept::OnlyHighIndexImp), Intercept::Fail);
    assert_eq!(Intercept::Fail.merge(a), Intercept::Fail);
    assert_eq!(
        a.merge(Intercept::Success { min: 120, max: UNBOUNDED_TICK }),
        Intercept::Success { min: 120, max: 130 }
    );
}

#[test]
fn intercept_update_progression() {
    let mut i = Intercept::Empty;
    i.update(10, false);
    assert_eq!(i, Intercept::Fail);
    i.update(11, true);
    assert_eq!(i, Intercept::OnlyHighIndexImp);
    i.update(12, false);
    assert_eq!(i, Intercept::OnlyHighIndexImp);
    i.update(13, true);
    assert_eq!(i, Intercept::Success { min: 13, max: 13 });
    i.update(14, false);
    assert_eq!(i, Intercept::Success { min: 13, max: 13 });
    i.update(15, true);
    assert_eq!(i, Intercept::Success { min: 13, max: 15 });
}

#[test]
fn shift_to_plant_intercept_moves_one_tick() {
    let mut e = Eat::Both { eat: 281, iceable: 281 };
    e.shift_to_plant_intercept();
    assert_eq!(e, Eat::Both { eat: 282, iceable: 282 });
    let mut e = Eat::Empty;
    e.shift_to_plant_intercept();
    assert_eq!(e, Eat::Empty);
    let mut i = Intercept::Success { min: 107, max: 134 };
    i.shift_to_plant_intercept();
    assert_eq!(i, Intercept::Success { min: 108, max: 135 });
    let mut i = Intercept::Success { min: 107, max: UNBOUNDED_TICK };
    i.shift_to_plant_intercept();
    assert_eq!(i, Intercept::Success { min: 108, max: UNBOUNDED_TICK });
    let mut i = Intercept::Fail;
    i.shift_to_plant_intercept();
    assert_eq!(i, Intercept::Fail);
}

#[test]
fn safe_and_unsafe_intervals() {
    let eat = Eat::Both { eat: 120, iceable: 125 };
    let intercept = Intercept::Success { min: 107, max: 134 };
    assert_eq!(unsafe_intercept_interval(&eat, &intercept), Some((120, 134)));
    assert_eq!(safe_intercept_interval(&eat, &intercept), Some((107, 119)));
    let late = Eat::Both { eat: 281, iceable: 281 };
    assert_eq!(unsafe_intercept_interval(&late, &intercept), None);
    assert_eq!(safe_intercept_interval(&late, &intercept), Some((107, 134)));
    let early = Eat::Both { eat: 100, iceable: 100 };
    assert_eq!(unsafe_intercept_interval(&early, &intercept), Some((107, 134)));
    assert_eq!(safe_intercept_interval(&early, &intercept), None);
    assert_eq!(unsafe_intercept_interval(&Eat::Empty, &intercept), None);
    assert_eq!(safe_intercept_interval(&eat, &Intercept::Fail), None);
}

#[test]
fn blast_geometry_is_deterministic() {
    let cob = Cob::Roof { row: 2, x: 333, cob_col: 4, cob_row: 3 };
    let a = Explode::of_cob(&cob, &Scene::RE);
    let b = Explode::of_cob(&cob, &Scene::RE);
    assert_eq!(a.range, b.range);
    assert_eq!(a.hittable_rows, b.hittable_rows);
}

#[test]
fn roof_blast_heights() {
    // left of every panel step
    let e = Explode::of_cob(&Cob::Roof { row: 1, x: 80, cob_col: 1, cob_row: 1 }, &Scene::RE);
    assert_eq!(e.range.center, pvz_interception_calculator::geometry::IntVec2 { x: 73, y: 209 });
    // exactly on the panel edge of tail column 3 in tail row 3: corrected by 5 pixels
    let e = Explode::of_cob(&Cob::Roof { row: 3, x: 227, cob_col: 3, cob_row: 3 }, &Scene::RE);
    assert_eq!(e.range.center.y, 209 + 170 - 20 + 5);
    // tail column 6, tail row 3: both corrections cancel
    let e = Explode::of_cob(&Cob::Roof { row: 3, x: 467, cob_col: 6, cob_row: 3 }, &Scene::RE);
    assert_eq!(e.range.center.y, 209 + 170 - 80);
    // far right, clamped at the top of the yard
    let e = Explode::of_cob(&Cob::Roof { row: 1, x: 780, cob_col: 7, cob_row: 1 }, &Scene::RE);
    assert_eq!(e.range.center, pvz_interception_calculator::geometry::IntVec2 { x: 773, y: 110 });
    // near the left edge the center moves 6 pixels
    let e = Explode::of_cob(&Cob::Ground { row: 5, x: 3 }, &Scene::DE);
    assert_eq!(e.range.center, pvz_interception_calculator::geometry::IntVec2 { x: -3, y: 520 });
}

#[test]
fn doom_blast() {
    let e = Explode::of_doom(&Doom { row: 3, col: 5 }, &Scene::PE);
    assert_eq!(e.range.center.x, 400);
    assert_eq!(e.range.center.y, 290);
    assert_eq!(e.range.radius, 250);
    assert_eq!(e.hittable_rows, vec![1, 2, 5, 6]);
    let e = Explode::of_doom(&Doom { row: 1, col: 5 }, &Scene::DE);
    assert_eq!(e.hittable_rows, vec![1, 2, 3, 4]);
}

#[test]
fn scene_rows() {
    assert_eq!(Scene::PE.all_rows(), vec![1, 2, 3, 4, 5, 6]);
    assert_eq!(Scene::RE.all_rows(), vec![1, 2, 3, 4, 5]);
    assert_eq!(Scene::PE.garg_rows_for_cob(2), vec![1, 2]);
    assert_eq!(Scene::PE.garg_rows_for_cob(4), vec![5]);
    assert_eq!(Scene::DE.garg_rows_for_cob(3), vec![2, 3, 4]);
    assert_eq!(Scene::DE.garg_rows_for_doom(5), vec![2, 3, 4, 5]);
    assert_eq!(Scene::PE.garg_rows_for_doom(3), vec![1, 2, 5, 6]);
    assert!(Scene::RE.is_roof());
    assert!(!Scene::PE.is_roof());
    assert_eq!(Scene::DE.row_height(), 100);
    assert_eq!(Scene::RE.zombie_base_y(), 40);
}

#[test]
fn delay_modes_and_cob_dist() {
    assert_eq!(Scene::DE.default_delay_mode(400, None), DelayMode::Delay3);
    assert_eq!(Scene::DE.default_delay_mode(401, None), DelayMode::Delay2);
    assert_eq!(Scene::PE.default_delay_mode(100, None), DelayMode::Delay2);
    assert_eq!(Scene::RE.default_delay_mode(600, Some(4)), DelayMode::Delay3);
    assert_eq!(Scene::RE.default_delay_mode(600, Some(5)), DelayMode::Delay2);
    let r = Scene::PE.hit_row_and_garg_rows_of_delay_mode(&DelayMode::Delay3);
    assert_eq!(r, vec![(2, vec![1, 2]), (6, vec![5, 6])]);
    let r = Scene::RE.hit_row_and_garg_rows_of_delay_mode(&DelayMode::Delay1);
    assert_eq!(r, vec![(2, vec![3]), (4, vec![5])]);
    assert_eq!(
        Scene::RE.cob_dist(Some(1)),
        CobDist { hit_above: 125, hit_same: 124, hit_below: 84 }
    );
    assert_eq!(
        Scene::RE.cob_dist(Some(8)),
        CobDist { hit_above: 118, hit_same: 125, hit_below: 125 }
    );
    assert_eq!(Scene::DE.cob_dist(None), CobDist { hit_above: 111, hit_same: 125, hit_below: 125 });
}

#[test]
fn ice_and_cob_times() {
    assert_eq!(
        IceAndCobTimes::of_ice_times_and_cob_time(&[1, 2], -1).unwrap_err(),
        TimeError::NegativeCobTime { cob_time: -1 }
    );
    let t = IceAndCobTimes::of_ice_times_and_cob_time(&[900, -5, 1, 3000, 400, 1], 1000).unwrap();
    assert_eq!(t.ice_times, vec![1, 1, 400, 900]);
    assert_eq!(t.cob_time, 1000);
    assert!(t.is_iced());
    let t = IceAndCobTimes::of_ice_times_and_cob_time(&[1], 2002).unwrap();
    assert!(!t.is_iced());
    let t = IceAndCobTimes::of_ice_times_and_cob_time(&[], 10).unwrap();
    assert!(!t.is_iced());
}

#[test]
fn garg_x_from_walk_table() {
    let table = GargWalkTable { slow: (0..100).map(|i| i * 10).collect(), fast: (0..200).map(|i| i * 20).collect() };
    let t = IceAndCobTimes::of_ice_times_and_cob_time(&[], 10).unwrap();
    assert_eq!(min_max_garg_x(&t, &table), Ok((845_000 - 400, 854_000 - 200)));
    let t = IceAndCobTimes::of_ice_times_and_cob_time(&[], 50).unwrap();
    assert_eq!(
        min_max_garg_x(&t, &table),
        Err(WalkError::MinWalkOutOfRange { half_ticks: 100, table_len: 100 })
    );
    let short = GargWalkTable { slow: vec![0; 300], fast: vec![0; 50] };
    let t = IceAndCobTimes::of_ice_times_and_cob_time(&[], 100).unwrap();
    assert_eq!(
        min_max_garg_x(&t, &short),
        Err(WalkError::MaxWalkOutOfRange { half_ticks: 200, table_len: 50 })
    );
}

#[test]
fn more_rows_widen_the_envelope() {
    let scene = Scene::PE;
    let explode = Explode::of_cob(&Cob::Ground { row: 1, x: 680 }, &scene);
    let range = GargXRange::Unchanged { min: 555_000, max: 666_000 };
    let (few, _) = judge(&range, &vec![(explode.clone(), &vec![1])], true, &scene);
    let (more, _) = judge(&range, &vec![(explode.clone(), &vec![1, 2])], true, &scene);
    match (few, more) {
        (Eat::Both { eat: e1, iceable: i1 }, Eat::Both { eat: e2, iceable: i2 }) => {
            assert!(e2 <= e1);
            assert!(i2 >= i1);
        }
        _ => panic!("both ranges throw"),
    }
}

#[test]
fn doom_blast_is_deterministic() {
    let a = Explode::of_doom(&Doom { row: 2, col: 7 }, &Scene::RE);
    let b = Explode::of_doom(&Doom { row: 2, col: 7 }, &Scene::RE);
    assert_eq!(a.range, b.range);
    assert_eq!(a.hittable_rows, b.hittable_rows);
}

#[test]
fn no_throw_ignores_other_inputs() {
    let far = Explode::of_doom(&Doom { row: 1, col: 1 }, &Scene::DE);
    let r = judge_internal(400_000, 99_999, -7, 12345, true, true, &far);
    assert_eq!(r, (Eat::Empty, Intercept::Empty));
}
