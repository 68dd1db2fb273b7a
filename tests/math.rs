use iridium::math::{floor_cell, RandomNumberGenerator, Vec3};
use iridium::traversal::{BidirectionalRange, Direction, GlobalIndex, GlobalIndexRange};

#[test]
fn converting_vec3_into_global_index() {
    let examples = [
        (Vec3(0, 0, 0), GlobalIndex(0, 0, 0)),
        (Vec3(1000, 2800, 3500), GlobalIndex(1, 2, 3)),
        (Vec3(-200, -1000, -1100), GlobalIndex(-1, -1, -2)),
    ];

    for (input, expected) in examples.into_iter() {
        let actual = GlobalIndex::from(input);
        assert_eq!(actual, expected);
    }
}

#[test]
fn floor_cell_rounds_down_for_negatives() {
    assert_eq!(floor_cell(0), 0);
    assert_eq!(floor_cell(999), 0);
    assert_eq!(floor_cell(1000), 1);
    assert_eq!(floor_cell(-1), -1);
    assert_eq!(floor_cell(-1000), -1);
    assert_eq!(floor_cell(-1001), -2);
}

#[test]
fn xorshift_from_known_seeds() {
    let mut rng = RandomNumberGenerator::with_seed(1);
    assert_eq!(rng.gen_u32(), 270369);

    let mut rng = RandomNumberGenerator::with_seed(32131);
    assert_eq!(rng.gen_u32(), 4189278523);
    assert_eq!(rng.gen_u32(), 3776669393);
}

#[test]
fn gen_range_stays_in_range() {
    let mut rng = RandomNumberGenerator::with_seed(32131);
    rng.gen_u32();
    assert_eq!(rng.gen_range(7, 17), 10);

    let mut rng = RandomNumberGenerator::with_seed(42);
    for _ in 0..1000 {
        let v = rng.gen_range(120, 180);
        assert!((120..180).contains(&v));
    }
}

#[test]
fn vec3_setters_and_sum() {
    let v = Vec3(1, 2, 3);
    assert_eq!(v.set_x(9), Vec3(9, 2, 3));
    assert_eq!(v.set_y(9), Vec3(1, 9, 3));
    assert_eq!(v.set_z(9), Vec3(1, 2, 9));
    assert_eq!(v.add(Vec3(10, -20, 30)), Vec3(11, -18, 33));
    assert_eq!((v.x(), v.y(), v.z()), (1, 2, 3));
}

fn collect(mut range: BidirectionalRange) -> Vec<i32> {
    let mut out = Vec::new();
    while let Some(v) = range.next() {
        out.push(v);
    }
    out
}

#[test]
fn bidirectional_range_counts_both_ways() {
    assert_eq!(collect(BidirectionalRange::new(2, 5)), vec![2, 3, 4, 5]);
    assert_eq!(collect(BidirectionalRange::new(5, 2)), vec![5, 4, 3, 2]);
    assert_eq!(collect(BidirectionalRange::new(-1, -1)), vec![-1]);
    assert_eq!(collect(BidirectionalRange::new(i32::MAX - 1, i32::MAX)), vec![i32::MAX - 1, i32::MAX]);
    assert_eq!(collect(BidirectionalRange::new(i32::MIN, i32::MIN + 1)), vec![i32::MIN, i32::MIN + 1]);
}

#[test]
fn bidirectional_range_stays_spent() {
    let mut range = BidirectionalRange::new(0, 0);
    assert_eq!(range.next(), Some(0));
    assert_eq!(range.next(), None);
    assert_eq!(range.next(), None);
}

#[test]
fn direction_steps() {
    assert_eq!(Direction::Ascending.step(), 1);
    assert_eq!(Direction::Descending.step(), -1);
}

#[test]
fn global_index_range_walks_one_axis() {
    let mut range = GlobalIndexRange::along_x_axis(Vec3(1500, 2500, 3500), 2000);
    assert_eq!(range.next(), Some(GlobalIndex(1, 2, 3)));
    assert_eq!(range.next(), Some(GlobalIndex(2, 2, 3)));
    assert_eq!(range.next(), Some(GlobalIndex(3, 2, 3)));
    assert_eq!(range.next(), None);

    let mut range = GlobalIndexRange::along_y_axis(Vec3(1500, 2500, 3500), -1600);
    assert_eq!(range.next(), Some(GlobalIndex(1, 2, 3)));
    assert_eq!(range.next(), Some(GlobalIndex(1, 1, 3)));
    assert_eq!(range.next(), Some(GlobalIndex(1, 0, 3)));
    assert_eq!(range.next(), None);

    let mut range = GlobalIndexRange::along_z_axis(Vec3(1500, 2500, 3500), 0);
    assert_eq!(range.next(), Some(GlobalIndex(1, 2, 3)));
    assert_eq!(range.next(), None);
}
