use iridium::noise::{gradient_from_direction, Heightmap, Vec2, NOISE_ONE};

#[test]
fn perlin_noise_single_grid_cell() {
    // One cell with four gradients, one per corner, each along the x or z axis.
    let gradients = vec![
        gradient_from_direction(0),
        gradient_from_direction(16),
        gradient_from_direction(8),
        gradient_from_direction(24),
    ];

    let heightmap = Heightmap::with_gradients(gradients, 1000, 1, 1);

    let examples = [
        (Vec2(0, 0), 0.0),
        (Vec2(500, 0), 0.5),
        (Vec2(250, 0), 0.375),
        (Vec2(750, 0), 0.375),
        (Vec2(0, 500), -0.25),
        (Vec2(0, 250), -0.1875),
        (Vec2(0, 750), -0.1875),
        (Vec2(500, 500), 0.25),
    ];

    for (position, expected) in examples.into_iter() {
        let actual = heightmap.height_at(&position) as f64 / NOISE_ONE as f64;
        assert!((actual - expected).abs() < 0.00001, "{:?}: {} != {}", position, actual, expected);
    }
}

#[test]
fn perlin_noise_varying_cell_size() {
    let small_cell_heightmap = Heightmap::new(1000, 2, 2);
    let big_cell_heightmap = Heightmap::new(16000, 2, 2);

    let examples = [
        (Vec2(0, 0), Vec2(0, 0)),
        (Vec2(1500, 500), Vec2(24000, 8000)),
        (Vec2(1000, 1000), Vec2(16000, 16000)),
    ];

    for (small_position, big_position) in examples.into_iter() {
        let small_cell_height = small_cell_heightmap.height_at(&small_position);
        let big_cell_height = big_cell_heightmap.height_at(&big_position);

        assert_eq!(small_cell_height, big_cell_height);
    }
}

#[test]
fn perlin_noise_outside_of_cell_range() {
    let heightmap = Heightmap::new(16000, 2, 2);

    let examples = [
        Vec2(-1, 0),
        Vec2(32000, 32000),
        Vec2(32000, 0),
        Vec2(16000, 32000),
        Vec2(-1, 10000),
    ];

    for position in examples.into_iter() {
        assert_eq!(heightmap.height_at(&position), 0);
    }
}

#[test]
fn noise_is_deterministic() {
    let a = Heightmap::new(16000, 4, 3);
    let b = Heightmap::new(16000, 4, 3);
    assert_eq!(a.gradients, b.gradients);
    for (x, z) in [(100, 200), (8000, 8000), (17321, 40123), (63999, 47999)] {
        let p = Vec2(x, z);
        assert_eq!(a.height_at(&p), b.height_at(&p));
        assert_eq!(a.height_at(&p), a.height_at(&p));
    }
}

#[test]
fn noise_is_zero_at_grid_corners() {
    let heightmap = Heightmap::new(16000, 3, 3);
    for xi in 0..3 {
        for zi in 0..3 {
            assert_eq!(heightmap.height_at(&Vec2(xi * 16000, zi * 16000)), 0);
        }
    }
}

#[test]
fn noise_scales_with_cell_size() {
    let small = Heightmap::new(1000, 3, 3);
    let big = Heightmap::new(7000, 3, 3);
    for (x, z) in [(1, 2), (999, 1), (1234, 2345), (2999, 2999)] {
        assert_eq!(small.height_at(&Vec2(x, z)), big.height_at(&Vec2(7 * x, 7 * z)));
    }
}

#[test]
fn noise_field_end_to_end() {
    let heightmap = Heightmap::new(16000, 2, 2);
    assert_eq!(heightmap.height_at(&Vec2(0, 0)), 0);

    // The centre of the grid is the corner shared by its four cells: its raw value is zero,
    // and mapped from [-1, 1] onto [0, 1] it lies strictly inside.
    let center = heightmap.height_at(&Vec2(16000, 16000));
    assert_eq!(center, 0);
    let mapped = (center + NOISE_ONE) / 2;
    assert!(mapped > 0 && mapped < NOISE_ONE);

    // Inside a cell the value varies, within [-1, 1].
    let inside = heightmap.height_at(&Vec2(8000, 8000));
    assert!(inside > -NOISE_ONE && inside < NOISE_ONE);
}

#[test]
fn gradients_are_unit_directions() {
    assert_eq!(gradient_from_direction(0), Vec2(65536, 0));
    assert_eq!(gradient_from_direction(8), Vec2(0, 65536));
    assert_eq!(gradient_from_direction(16), Vec2(-65536, 0));
    assert_eq!(gradient_from_direction(24), Vec2(0, -65536));
    assert_eq!(gradient_from_direction(4), Vec2(46341, 46341));
    assert_eq!(gradient_from_direction(13), Vec2(-54491, 36410));
    for k in 0..32 {
        let g = gradient_from_direction(k);
        let len = ((g.0 as f64).powi(2) + (g.1 as f64).powi(2)).sqrt() / 65536.0;
        assert!((len - 1.0).abs() < 0.0001);
    }
}

#[test]
fn heightmap_bounds() {
    let heightmap = Heightmap::new(16000, 2, 3);
    assert_eq!((heightmap.min_x(), heightmap.max_x()), (0, 32000));
    assert_eq!((heightmap.min_z(), heightmap.max_z()), (0, 48000));
    assert!(heightmap.is_out_of_range(&Vec2(32000, 0)));
    assert!(!heightmap.is_out_of_range(&Vec2(31999, 47999)));
    assert_eq!(heightmap.gradients.len(), 12);
}

#[test]
fn noise_scales_with_large_cells() {
    let small = Heightmap::new(1000, 2, 2);
    let big = Heightmap::new(1_000_000, 2, 2);
    for (x, z) in [(1, 1), (1234, 567), (1999, 1999)] {
        assert_eq!(small.height_at(&Vec2(x, z)), big.height_at(&Vec2(1000 * x, 1000 * z)));
    }
    let largest = Heightmap::new(iridium::noise::MAX_CELL_SIZE, 2, 2);
    let v = largest.height_at(&Vec2(1_500_000_000, 700_000_000));
    assert!(v > -NOISE_ONE && v < NOISE_ONE);
}
