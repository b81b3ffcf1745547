use rustmand2d::config::{check_config, ConfigError};
use rustmand2d::grid::{axis_offset, center_offset, half_side, pixel_index, Offset, Voxel};
use rustmand2d::raster::{intensity, render};
use rustmand2d::scan::scan_column;
use std::cell::Cell;

#[test]
fn config_accepts_valid_setup() {
    assert_eq!(check_config(4, 8, 16), Ok(()));
    assert_eq!(check_config(960, 2, 960 * 960), Ok(()));
}

#[test]
fn config_rejects_small_power() {
    assert_eq!(check_config(4, 1, 16), Err(ConfigError::PowerTooSmall));
    assert_eq!(check_config(4, 0, 3), Err(ConfigError::PowerTooSmall));
}

#[test]
fn config_rejects_buffer_length() {
    assert_eq!(check_config(4, 8, 15), Err(ConfigError::BufferLength));
    assert_eq!(check_config(usize::MAX, 8, 1), Err(ConfigError::BufferLength));
}

#[test]
fn half_side_truncates() {
    assert_eq!(half_side(4), 2);
    assert_eq!(half_side(5), 2);
    assert_eq!(half_side(1), 0);
}

#[test]
fn offsets_of_odd_side() {
    let got: Vec<i64> = (0..5).map(|v| axis_offset(v, 5)).collect();
    assert_eq!(got, vec![-2, -1, 0, 1, 2]);
}

#[test]
fn offsets_of_even_side() {
    let got: Vec<i64> = (0..4).map(|v| axis_offset(v, 4)).collect();
    assert_eq!(got, vec![-2, -1, 0, 1]);
}

#[test]
fn center_voxel_is_origin() {
    let zero = Offset { dx: 0, dy: 0, dz: 0 };
    assert_eq!(center_offset(Voxel { x: 2, y: 2, z: 2 }, 4), zero);
    assert_eq!(center_offset(Voxel { x: 2, y: 2, z: 2 }, 5), zero);
    assert_eq!(center_offset(Voxel { x: 480, y: 480, z: 480 }, 960), zero);
    assert_eq!(
        center_offset(Voxel { x: 0, y: 3, z: 1 }, 4),
        Offset { dx: -2, dy: 1, dz: -1 }
    );
}

#[test]
fn pixel_index_is_row_major() {
    assert_eq!(pixel_index(0, 0, 4), 0);
    assert_eq!(pixel_index(3, 0, 4), 3);
    assert_eq!(pixel_index(0, 1, 4), 4);
    assert_eq!(pixel_index(3, 3, 4), 15);
}

#[test]
fn intensity_maps_and_clamps() {
    assert_eq!(intensity(None), 255);
    assert_eq!(intensity(Some(0)), 0);
    assert_eq!(intensity(Some(64)), 64);
    assert_eq!(intensity(Some(-3)), 0);
    assert_eq!(intensity(Some(300)), 255);
}

#[test]
fn scan_stops_at_first_bounded_depth() {
    let calls = Cell::new(0usize);
    let probe = |v: Voxel| {
        calls.set(calls.get() + 1);
        if v.z >= 1 { Some(v.z as i64 * 10) } else { None }
    };
    assert_eq!(scan_column(&probe, 0, 0, 8), Some(10));
    assert_eq!(calls.get(), 2);
}

#[test]
fn scan_without_hit_probes_front_half() {
    let calls = Cell::new(0usize);
    let seen = Cell::new(0usize);
    let probe = |v: Voxel| {
        calls.set(calls.get() + 1);
        seen.set(seen.get().max(v.z));
        None
    };
    assert_eq!(scan_column(&probe, 1, 2, 8), None);
    assert_eq!(calls.get(), 4);
    assert_eq!(seen.get(), 3);
}

#[test]
fn scan_of_odd_side_probes_truncated_half() {
    let calls = Cell::new(0usize);
    let probe = |_v: Voxel| {
        calls.set(calls.get() + 1);
        None
    };
    assert_eq!(scan_column(&probe, 0, 0, 5), None);
    assert_eq!(calls.get(), 2);
    assert_eq!(scan_column(&probe, 0, 0, 1), None);
    assert_eq!(calls.get(), 2);
}

/// The numeric kernel with no rotation and no iteration: the sampled point's
/// squared magnitude against the squared bailout.
fn raw_probe(side: usize, power: u32) -> impl Fn(Voxel) -> Option<i64> {
    let bailout = 2.0f64.powf(1.0 / (power as f64 - 1.0));
    let bailout2 = bailout.powi(2);
    let half = half_side(side) as f64;
    move |v: Voxel| {
        let o = center_offset(v, side);
        let x = o.dx as f64 / half * bailout;
        let y = o.dy as f64 / half * bailout;
        let z = o.dz as f64 / half * bailout;
        let sqr = x * x + y * y + z * z;
        if sqr <= bailout2 {
            Some((sqr / bailout2 * 255.0).round() as i64)
        } else {
            None
        }
    }
}

#[test]
fn render_side_four_without_iteration() {
    let probe = raw_probe(4, 8);
    let mut pixels = vec![127u8; 16];
    render(&mut pixels, 4, &probe);
    let expected: Vec<u8> = vec![
        255, 255, 255, 255, //
        255, 191, 128, 191, //
        255, 128, 255, 128, //
        255, 191, 128, 191,
    ];
    assert_eq!(pixels, expected);
}

#[test]
fn render_is_deterministic() {
    let probe = raw_probe(6, 3);
    let mut first = vec![0u8; 36];
    let mut second = vec![9u8; 36];
    render(&mut first, 6, &probe);
    render(&mut second, 6, &probe);
    assert_eq!(first, second);
}

#[test]
fn render_odd_side_all_escaping() {
    let calls = Cell::new(0usize);
    let probe = |_v: Voxel| {
        calls.set(calls.get() + 1);
        None
    };
    let mut pixels = vec![0u8; 25];
    render(&mut pixels, 5, &probe);
    assert_eq!(pixels, vec![255u8; 25]);
    assert_eq!(calls.get(), 50);
}

#[test]
fn render_single_pixel_probes_nothing() {
    let calls = Cell::new(0usize);
    let probe = |_v: Voxel| {
        calls.set(calls.get() + 1);
        Some(0)
    };
    let mut pixels = vec![0u8; 1];
    render(&mut pixels, 1, &probe);
    assert_eq!(pixels, vec![255u8]);
    assert_eq!(calls.get(), 0);
}

#[test]
fn render_writes_row_major() {
    let probe = |v: Voxel| Some((v.y * 10 + v.x) as i64);
    let mut pixels = vec![0u8; 9];
    render(&mut pixels, 3, &probe);
    assert_eq!(pixels, vec![0, 1, 2, 10, 11, 12, 20, 21, 22]);
}
