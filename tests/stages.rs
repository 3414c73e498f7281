use minkowski_sampling::{
    correct_contact, correct_projection, cso_support, first_minimum, floor_div, isqrt, normalize,
    penetration_shift, projection_shift, sample_direction, separating_shift, AnnotatedPoint,
    AnnotatedSimplex, Cuboid, Simplex, SupportMap, Vect, NORMAL_SCALE, RESULT_LIMIT,
    SAMPLE_COUNT,
};

fn dists_with(index: usize, value: i64, rest: i64) -> Vec<i64> {
    let mut d = vec![rest; SAMPLE_COUNT];
    d[index] = value;
    d
}

#[test]
fn floor_division_rounds_down() {
    assert_eq!(floor_div(7, 2), 3);
    assert_eq!(floor_div(-7, 2), -4);
    assert_eq!(floor_div(-6, 3), -2);
    assert_eq!(floor_div(0, 5), 0);
    assert_eq!(floor_div(-1, 4225), -1);
}

#[test]
fn large_integer_square_root() {
    assert_eq!(isqrt(2 << 32), 92681);
    assert_eq!(isqrt(1 << 100), 1 << 50);
}

#[test]
fn integer_square_root() {
    assert_eq!(isqrt(0), 0);
    assert_eq!(isqrt(1), 1);
    assert_eq!(isqrt(15), 3);
    assert_eq!(isqrt(16), 4);
    assert_eq!(isqrt(17), 4);
    assert_eq!(isqrt(1 << 60), 1 << 30);
}

#[test]
fn sample_directions_have_exact_length() {
    assert_eq!(sample_direction(0), Vect::new(65, 0));
    assert_eq!(sample_direction(1), Vect::new(63, 16));
    assert_eq!(sample_direction(9), Vect::new(0, 65));
    assert_eq!(sample_direction(10), Vect::new(-16, 63));
    assert_eq!(sample_direction(18), Vect::new(-65, 0));
    assert_eq!(sample_direction(27), Vect::new(0, -65));
    for k in 0..SAMPLE_COUNT {
        let d = sample_direction(k);
        assert_eq!(d.x * d.x + d.y * d.y, 65 * 65);
        for j in 0..k {
            assert_ne!(sample_direction(j), d);
        }
    }
    for k in 0..18 {
        let d = sample_direction(k);
        assert_eq!(sample_direction(k + 18), Vect::new(-d.x, -d.y));
    }
}

#[test]
fn first_minimum_takes_earliest_least() {
    assert_eq!(first_minimum(&vec![3, 1, 1, 2]), 1);
    assert_eq!(first_minimum(&vec![5]), 0);
    assert_eq!(first_minimum(&vec![2, 2, 2]), 0);
    assert_eq!(first_minimum(&vec![i64::MAX, 0]), 1);
    assert_eq!(first_minimum(&vec![4, -3, 7, -3, -5]), 4);
}

#[test]
fn shift_follows_least_direction() {
    let sh = separating_shift(&dists_with(5, 65000, 100000), 10);
    assert_eq!(sh.index, 5);
    assert_eq!(sh.dir, Vect::new(39, 52));
    assert_eq!(sh.min_dist, 65000);
    assert_eq!(sh.margin, 10);
    assert_eq!(sh.shift, Vect::new(606, 808));
}

#[test]
fn shift_rounds_down_for_negative_distance() {
    let sh = separating_shift(&dists_with(0, -100, 0), 0);
    assert_eq!(sh.index, 0);
    assert_eq!(sh.shift, Vect::new(-2, 0));
}

#[test]
fn normalize_scales_to_fixed_point() {
    assert_eq!(normalize(&Vect::new(3, 4)), Some((Vect::new(39321, 52428), 327680)));
    assert_eq!(normalize(&Vect::new(-3, 0)), Some((Vect::new(-NORMAL_SCALE, 0), 196608)));
    assert_eq!(normalize(&Vect::new(1, 1)), Some((Vect::new(46341, 46341), 92681)));
    assert_eq!(normalize(&Vect::new(0, 0)), None);
}

#[test]
fn normalized_diagonals_have_unit_length() {
    let s = NORMAL_SCALE as i128;
    for v in [(1, 1), (7, 7), (-7, 7), (1, 2), (-1000, 3), (33_554_432, -33_554_432)] {
        let (n, _) = normalize(&Vect::new(v.0, v.1)).unwrap();
        let q = (n.x as i128) * (n.x as i128) + (n.y as i128) * (n.y as i128);
        assert!(s * s - 4 * s <= q && q <= s * s + 6 * s + 3);
    }
}

#[test]
fn contact_is_corrected_back() {
    let sh = separating_shift(&dists_with(0, 65000, 100000), 10);
    assert_eq!(sh.shift, Vect::new(1010, 0));
    let r = correct_contact(&sh, &Vect::new(2000, 1000), &Vect::new(2010, 1000));
    assert_eq!(
        r,
        Some((Vect::new(1500, 1000), Vect::new(500, 1000), Vect::new(NORMAL_SCALE, 0)))
    );
}

#[test]
fn coinciding_points_give_no_contact() {
    let sh = separating_shift(&dists_with(0, 65000, 100000), 10);
    let p = Vect::new(2000, 1000);
    assert_eq!(correct_contact(&sh, &p, &p), None);
}

#[test]
fn out_of_range_points_give_no_contact() {
    let sh = separating_shift(&dists_with(0, 65000, 100000), 10);
    let far = Vect::new(RESULT_LIMIT + 1, 0);
    assert_eq!(correct_contact(&sh, &Vect::new(0, 0), &far), None);
    assert_eq!(correct_projection(&sh, &far), None);
}

#[test]
fn projection_is_corrected_back() {
    let sh = separating_shift(&dists_with(27, 26000, 100000), 10);
    assert_eq!(sh.shift, Vect::new(0, -410));
    assert_eq!(correct_projection(&sh, &Vect::new(0, 10)), Some(Vect::new(0, -400)));
    assert_eq!(correct_projection(&sh, &Vect::new(0, 0)), None);
}

#[test]
fn cuboid_support_points() {
    let g = Cuboid::new(Vect::new(1000, 500));
    assert_eq!(g.support_point(&Vect::new(10, 20), &Vect::new(-1, 0)), Vect::new(-990, 520));
    assert_eq!(g.support_point(&Vect::new(10, 20), &Vect::new(0, 0)), Vect::new(1010, 520));
    assert_eq!(g.support_point(&Vect::new(0, 0), &Vect::new(-3, -4)), Vect::new(-1000, -500));
}

#[test]
fn cso_support_is_difference_of_supports() {
    let g = Cuboid::new(Vect::new(1000, 1000));
    let r = cso_support(&Vect::new(1000, 1000), &g, &Vect::new(2000, 1000), &g, &Vect::new(65, 0));
    assert_eq!(
        r,
        AnnotatedPoint {
            orig1: Vect::new(2000, 2000),
            orig2: Vect::new(1000, 2000),
            point: Vect::new(1000, 0),
        }
    );
}

#[test]
fn simplex_translation() {
    let mut s = Simplex { pts: vec![Vect::new(1, 2), Vect::new(-5, 0)] };
    s.translate_all(&Vect::new(3, -4));
    assert_eq!(s.pts, vec![Vect::new(4, -2), Vect::new(-2, -4)]);
    let mut a = AnnotatedSimplex {
        pts: vec![AnnotatedPoint { orig1: Vect::new(5, 5), orig2: Vect::new(1, 1), point: Vect::new(4, 4) }],
    };
    a.translate_second(&Vect::new(2, 3));
    assert_eq!(a.pts[0].orig1, Vect::new(5, 5));
    assert_eq!(a.pts[0].orig2, Vect::new(3, 4));
    assert_eq!(a.pts[0].point, Vect::new(2, 1));
}

#[test]
fn search_on_overlapping_boxes() {
    let g = Cuboid::new(Vect::new(1000, 1000));
    let sh = penetration_shift(&Vect::new(1000, 1000), &g, &Vect::new(2000, 1000), &g, 10);
    assert_eq!(sh.index, 0);
    assert_eq!(sh.min_dist, 65000);
    assert_eq!(sh.shift, Vect::new(1010, 0));
    let swapped = penetration_shift(&Vect::new(2000, 1000), &g, &Vect::new(1000, 1000), &g, 10);
    assert_eq!(swapped.index, 18);
    assert_eq!(swapped.min_dist, 65000);
    assert_eq!(swapped.shift, Vect::new(-1010, 0));
}

#[test]
fn search_on_box_around_origin() {
    let g = Cuboid::new(Vect::new(1000, 500));
    let sh = projection_shift(&Vect::new(0, 100), &g, 10);
    assert_eq!(sh.index, 27);
    assert_eq!(sh.min_dist, 26000);
    assert_eq!(sh.shift, Vect::new(0, -410));
}

#[test]
fn larger_margin_moves_shift_farther() {
    let g = Cuboid::new(Vect::new(1000, 1000));
    let a = penetration_shift(&Vect::new(1000, 1000), &g, &Vect::new(2000, 1000), &g, 10);
    let b = penetration_shift(&Vect::new(1000, 1000), &g, &Vect::new(2000, 1000), &g, 1000);
    assert_eq!(a.index, b.index);
    assert!(0 < a.shift.x && a.shift.x < b.shift.x);
    assert_eq!(b.shift, Vect::new(2000, 0));
}
