use pattern_png::dispatch::Dispatcher;
use pattern_png::generate::{compose_image, generate_image, render};
use pattern_png::grid::Grid;
use pattern_png::raster::{rasterize, Color};

fn decode(stream: &[u8]) -> (png::OutputInfo, Vec<u8>) {
    let decoder = png::Decoder::new(stream);
    let mut reader = decoder.read_info().unwrap();
    let mut data = vec![0u8; reader.output_buffer_size()];
    let info = reader.next_frame(&mut data).unwrap();
    data.truncate(info.buffer_size());
    (info, data)
}

fn cells(grid: &Grid) -> Vec<Vec<u8>> {
    (0..8).map(|i| (0..8).map(|j| grid.get(i, j)).collect()).collect()
}

#[test]
fn rendered_grid_decodes_to_its_raster() {
    let mut samples = [0u8; 36];
    for k in 0..36 {
        samples[k] = (k % 5) as u8;
    }
    let grid = Grid::from_samples(&samples);
    let color = Color { r: 12, g: 200, b: 99 };
    let stream = render(&grid, color).unwrap();
    let (info, decoded) = decode(&stream);
    assert_eq!(info.width, 256);
    assert_eq!(info.height, 256);
    assert_eq!(info.color_type, png::ColorType::Rgb);
    assert_eq!(info.bit_depth, png::BitDepth::Eight);
    assert_eq!(decoded, rasterize(&grid, color));
}

#[test]
fn rendered_stream_says_256_by_256_rgb() {
    let stream = render(&Grid::new(), Color::white()).unwrap();
    let expected: [u8; 29] = [
        137, 80, 78, 71, 13, 10, 26, 10, 0, 0, 0, 13, 73, 72, 68, 82, 0, 0, 1, 0, 0, 0, 1, 0, 8,
        2, 0, 0, 0,
    ];
    assert_eq!(&stream[..29], &expected[..]);
}

#[test]
fn composed_image_holds_what_it_was_given() {
    let mut samples = [0u8; 36];
    samples[0] = 1;
    samples[8] = 1;
    let color = Color { r: 5, g: 6, b: 7 };
    let image = compose_image("images/", 42, color, &samples).unwrap();
    assert_eq!(image.path, "images/42.png");
    assert_eq!(image.color, color);
    assert_eq!(cells(&image.grid), cells(&Grid::from_samples(&samples)));
    assert_eq!(image.grid.get(1, 1), 1);
    assert_eq!(image.grid.get(2, 3), 1);
    assert_eq!(image.grid.get(6, 1), 1);
    assert_eq!(image.grid.get(5, 3), 1);
    let (info, decoded) = decode(&image.png);
    assert_eq!((info.width, info.height), (256, 256));
    assert_eq!(decoded, rasterize(&image.grid, color));
}

#[test]
fn composing_twice_gives_the_same_image() {
    let samples = [3u8; 36];
    let color = Color { r: 0, g: 0, b: 0 };
    let first = compose_image("images/", 1, color, &samples).unwrap();
    let second = compose_image("images/", 1, color, &samples).unwrap();
    assert_eq!(first.png, second.png);
    assert_eq!(first.path, second.path);
}

#[test]
fn generated_image_goes_to_its_index() {
    assert_eq!(generate_image("images/", 0).unwrap().path, "images/0.png");
    assert_eq!(generate_image("images/", 99).unwrap().path, "images/99.png");
    assert_eq!(generate_image("out/", 100).unwrap().path, "out/100.png");
}

#[test]
fn generated_image_goes_into_its_directory() {
    assert_eq!(generate_image("out", 3).unwrap().path, "out/3.png");
    assert_eq!(generate_image("images", 0).unwrap().path, "images/0.png");
    assert_eq!(generate_image("", 3).unwrap().path, "3.png");
    let color = Color { r: 1, g: 2, b: 3 };
    assert_eq!(compose_image("out", 3, color, &[0u8; 36]).unwrap().path, "out/3.png");
}

#[test]
fn generated_grid_is_symmetric_with_a_clear_border() {
    for id in 0..50 {
        let image = generate_image("images/", id).unwrap();
        let grid = cells(&image.grid);
        for i in 0..8 {
            assert_eq!(grid[i], grid[7 - i]);
            assert_eq!(grid[i][0], 0);
            assert_eq!(grid[i][7], 0);
            assert_eq!(grid[0][i], 0);
            assert_eq!(grid[7][i], 0);
        }
        assert!(grid.iter().flatten().all(|&cell| cell <= 1));
    }
}

#[test]
fn generated_file_is_a_png_of_256_by_256_in_rgb() {
    for id in 0..10 {
        let image = generate_image("images/", id).unwrap();
        assert_eq!(&image.png[..8], &[137, 80, 78, 71, 13, 10, 26, 10]);
        let (info, decoded) = decode(&image.png);
        assert_eq!(info.width, 256);
        assert_eq!(info.height, 256);
        assert_eq!(info.color_type, png::ColorType::Rgb);
        assert_eq!(info.bit_depth, png::BitDepth::Eight);
        assert_eq!(decoded.len(), 256 * 256 * 3);
        assert_eq!(decoded, rasterize(&image.grid, image.color));
    }
}

#[test]
fn generated_images_vary() {
    let images: Vec<Vec<u8>> = (0..20).map(|id| generate_image("images/", id).unwrap().png).collect();
    assert!(images.iter().any(|png| png != &images[0]));
}

#[test]
fn batch_of_one_hundred_is_complete() {
    let mut dispatcher = Dispatcher::new(100);
    let mut paths = Vec::new();
    while let Some(id) = dispatcher.claim() {
        let image = generate_image("images/", id).unwrap();
        assert_eq!(decode(&image.png).0.width, 256);
        paths.push(image.path);
    }
    let expected: Vec<String> = (0..100).map(|id| format!("images/{}.png", id)).collect();
    assert_eq!(paths, expected);
}
