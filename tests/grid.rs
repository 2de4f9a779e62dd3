use heightfield::grid::{build_height_grid, cell_index, check_window};
use heightfield::sampler::NoiseSampler;
use noise::NoiseFn;

#[test]
fn grid_has_width_times_height_cells() {
    let grid = build_height_grid(&|x: u32, y: u32| (x, y), 3, 4, 0, 0);
    assert_eq!(grid.len(), 12);
}

#[test]
fn grid_is_row_major_from_offset() {
    let grid = build_height_grid(&|x: u32, y: u32| (x, y), 3, 2, 10, 20);
    assert_eq!(
        grid,
        vec![(10, 20), (11, 20), (12, 20), (10, 21), (11, 21), (12, 21)]
    );
    for y in 0..2u32 {
        for x in 0..3u32 {
            assert_eq!(grid[cell_index(x, y, 3)], (10 + x, 20 + y));
        }
    }
}

#[test]
fn empty_window_gives_empty_grid() {
    assert!(build_height_grid(&|x: u32, y: u32| x + y, 0, 5, 0, 0).is_empty());
    assert!(build_height_grid(&|x: u32, y: u32| x + y, 5, 0, 0, 0).is_empty());
}

#[test]
fn window_reaching_last_coordinate() {
    let grid = build_height_grid(&|x: u32, y: u32| (x, y), 1, 1, u32::MAX, u32::MAX);
    assert_eq!(grid, vec![(u32::MAX, u32::MAX)]);
}

#[test]
fn window_checks() {
    assert!(check_window(100, 100, 0, 0));
    assert!(check_window(1, 1, u32::MAX, u32::MAX));
    assert!(!check_window(2, 1, u32::MAX, 0));
    assert!(!check_window(1, 2, 0, u32::MAX));
    assert!(check_window(0, 0, u32::MAX, u32::MAX));
}

#[test]
fn cell_index_values() {
    assert_eq!(cell_index(0, 0, 4), 0);
    assert_eq!(cell_index(3, 0, 4), 3);
    assert_eq!(cell_index(0, 1, 4), 4);
    assert_eq!(cell_index(2, 5, 4), 22);
}

#[test]
fn same_window_same_grid() {
    let sampler = NoiseSampler::new(259);
    let sample = |x: u32, y: u32| sampler.field().get([x as f64 * 0.1, y as f64 * 0.1]);
    let first = build_height_grid(&sample, 7, 5, 3, 9);
    let second = build_height_grid(&sample, 7, 5, 3, 9);
    assert_eq!(first, second);
}

#[test]
fn sampler_keeps_its_seed() {
    assert_eq!(NoiseSampler::new(259).seed(), 259);
    assert_eq!(NoiseSampler::new(0).seed(), 0);
}

#[test]
fn sampler_matches_simplex_of_its_seed() {
    let sampler = NoiseSampler::new(259);
    let simplex = noise::Simplex::new(259);
    for i in 0..20u32 {
        let p = [i as f64 * 0.37, i as f64 * 0.53];
        assert_eq!(sampler.field().get(p), simplex.get(p));
    }
}

#[test]
fn different_seeds_give_different_fields() {
    let a = NoiseSampler::new(1);
    let b = NoiseSampler::new(2);
    let differs = (0..20u32).any(|i| {
        let p = [i as f64 * 0.37 + 0.1, i as f64 * 0.53 + 0.2];
        a.field().get(p) != b.field().get(p)
    });
    assert!(differs);
}

#[test]
fn single_octave_grid_end_to_end() {
    // scale 1, one octave, exponent 4, maximum height 1.
    let sampler = NoiseSampler::new(259);
    let sample = |x: u32, y: u32| {
        let v = sampler.field().get([x as f64 * 1.0, y as f64 * 1.0]);
        v.max(0.0).powf(4.0) * 1.0
    };
    let grid = build_height_grid(&sample, 2, 2, 0, 0);
    assert_eq!(grid.len(), 4);
    let simplex = noise::Simplex::new(259);
    let cells = [(0u32, 0u32), (1, 0), (0, 1), (1, 1)];
    for (i, (x, y)) in cells.iter().enumerate() {
        let expected = simplex.get([*x as f64, *y as f64]).max(0.0).powf(4.0);
        assert_eq!(grid[i], expected);
        assert!(grid[i] >= 0.0);
    }
}
