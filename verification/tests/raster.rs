use pattern_png::grid::Grid;
use pattern_png::raster::{rasterize, Color, CELL_PIXELS, IMAGE_WIDTH};

const RED: Color = Color { r: 200, g: 10, b: 30 };

fn pixel(bytes: &[u8], x: usize, y: usize) -> (u8, u8, u8) {
    let at = (y * 256 + x) * 3;
    (bytes[at], bytes[at + 1], bytes[at + 2])
}

fn single_cell(row: usize, col: usize) -> Grid {
    // Only the upper half can be set through samples; the lower half mirrors it.
    let mut samples = [0u8; 36];
    samples[(row - 1) * 6 + (col - 1)] = 1;
    Grid::from_samples(&samples)
}

#[test]
fn raster_is_256_pixels_wide_in_cells_of_32() {
    assert_eq!(IMAGE_WIDTH, 256);
    assert_eq!(CELL_PIXELS, 32);
    assert_eq!(IMAGE_WIDTH / 8, CELL_PIXELS);
}

#[test]
fn white_is_all_channels_full() {
    assert_eq!(Color::white(), Color { r: 255, g: 255, b: 255 });
}

#[test]
fn raster_has_three_bytes_for_each_pixel() {
    assert_eq!(rasterize(&Grid::new(), RED).len(), 196608);
    assert_eq!(rasterize(&Grid::from_samples(&[1u8; 36]), RED).len(), 256 * 256 * 3);
}

#[test]
fn empty_grid_is_all_white() {
    let bytes = rasterize(&Grid::new(), RED);
    assert!(bytes.iter().all(|&b| b == 255));
}

#[test]
fn full_grid_has_a_white_frame_of_32_pixels() {
    let bytes = rasterize(&Grid::from_samples(&[1u8; 36]), RED);
    for y in 0..256 {
        for x in 0..256 {
            let inside = (32..224).contains(&x) && (32..224).contains(&y);
            let expected = if inside { (200, 10, 30) } else { (255, 255, 255) };
            assert_eq!(pixel(&bytes, x, y), expected, "pixel ({}, {})", x, y);
        }
    }
}

#[test]
fn first_index_of_the_grid_runs_along_x() {
    // Cell (1, 2): pixels with x in 32..64 and y in 64..96, and its mirror
    // image, cell (6, 2): x in 192..224.
    let bytes = rasterize(&single_cell(1, 2), RED);
    for y in 0..256 {
        for x in 0..256 {
            let in_cell = (32..64).contains(&x) && (64..96).contains(&y);
            let in_mirror = (192..224).contains(&x) && (64..96).contains(&y);
            let expected = if in_cell || in_mirror { (200, 10, 30) } else { (255, 255, 255) };
            assert_eq!(pixel(&bytes, x, y), expected, "pixel ({}, {})", x, y);
        }
    }
}

#[test]
fn cell_edges_fall_on_multiples_of_32() {
    let bytes = rasterize(&single_cell(3, 3), RED);
    assert_eq!(pixel(&bytes, 95, 96), (255, 255, 255));
    assert_eq!(pixel(&bytes, 96, 95), (255, 255, 255));
    assert_eq!(pixel(&bytes, 96, 96), (200, 10, 30));
    assert_eq!(pixel(&bytes, 127, 127), (200, 10, 30));
    assert_eq!(pixel(&bytes, 128, 127), (200, 10, 30)); // the mirrored cell (4, 3)
    assert_eq!(pixel(&bytes, 159, 127), (200, 10, 30));
    assert_eq!(pixel(&bytes, 160, 127), (255, 255, 255));
    assert_eq!(pixel(&bytes, 127, 128), (255, 255, 255));
}

#[test]
fn every_pixel_shows_its_cell() {
    let mut samples = [0u8; 36];
    for k in 0..36 {
        samples[k] = ((k * 5 + k / 7) % 3) as u8;
    }
    let grid = Grid::from_samples(&samples);
    let color = Color { r: 1, g: 2, b: 3 };
    let bytes = rasterize(&grid, color);
    for y in 0..256 {
        for x in 0..256 {
            let expected = if grid.get(x / 32, y / 32) == 1 { (1, 2, 3) } else { (255, 255, 255) };
            assert_eq!(pixel(&bytes, x, y), expected);
        }
    }
}

#[test]
fn raster_is_symmetric_from_left_to_right() {
    let mut samples = [0u8; 36];
    for k in 0..36 {
        samples[k] = (k * k + 1) as u8;
    }
    let bytes = rasterize(&Grid::from_samples(&samples), RED);
    for y in 0..256 {
        for x in 0..256 {
            assert_eq!(pixel(&bytes, x, y), pixel(&bytes, 255 - x, y));
        }
    }
}

#[test]
fn white_foreground_hides_the_pattern() {
    let bytes = rasterize(&Grid::from_samples(&[1u8; 36]), Color::white());
    assert!(bytes.iter().all(|&b| b == 255));
}

#[test]
fn only_cells_equal_to_one_are_foreground() {
    // Samples are reduced to their parity, so 2 and 254 are background.
    let bytes = rasterize(&Grid::from_samples(&[2u8; 36]), RED);
    assert!(bytes.iter().all(|&b| b == 255));
    let bytes = rasterize(&Grid::from_samples(&[254u8; 36]), RED);
    assert!(bytes.iter().all(|&b| b == 255));
}
