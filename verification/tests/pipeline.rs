use worldmap::color::{accent, black, friendly, hostile, neutral, occupancy_colored, Rgb};
use worldmap::compose::{assemble, compose};
use worldmap::encode::{encode, encoded};
use worldmap::error::RenderError;
use worldmap::raster::Raster;
use worldmap::scheduler::{barrier_step, draw_map, job_at, jobs, render_pass, render_window, RECHECK_SPINS};
use worldmap::signal::CompletionSignal;
use worldmap::tiles::blank_tile;
use worldmap::types::map::Tile;
use worldmap::window::TileWindow;

fn shade(x: i64, y: i64) -> Rgb {
    Rgb { r: 0, g: (40 + (x / 5).rem_euclid(50)) as u8, b: (10 + (y / 5).rem_euclid(50)) as u8 }
}

fn held_by(tag: &str, x: i32, y: i32) -> Tile {
    let mut t = blank_tile(x, y);
    t.occupied = true;
    t.faction = tag.to_string();
    t
}

fn window(x0: i32, y0: i32, cols: i32, rows: i32, held: &[(i32, i32, &str)]) -> TileWindow {
    let mut grid = Vec::new();
    for x in x0..x0 + cols {
        let mut column = Vec::new();
        for y in y0..y0 + rows {
            match held.iter().find(|h| h.0 == x && h.1 == y) {
                Some(h) => column.push(held_by(h.2, x, y)),
                None => column.push(blank_tile(x, y)),
            }
        }
        grid.push(column);
    }
    TileWindow::from_grid(grid).unwrap()
}

fn plain(c: Rgb) -> Raster {
    let mut img = Raster::new(150, 150).unwrap();
    img.fill_rect(0, 0, 150, 150, c);
    img
}

#[test]
fn signal_starts_empty() {
    let signal = CompletionSignal::new();
    assert_eq!(signal.len(), 0);
    assert_eq!(signal.completed(), 0);
    assert!(signal.get(0, 0).is_none());
}

#[test]
fn signal_gathers_pictures_by_coordinates() {
    let mut signal = CompletionSignal::new();
    assert!(signal.record(3, -7, plain(friendly())));
    assert!(signal.record(-1, 2, plain(hostile())));
    assert_eq!(signal.len(), 2);
    assert_eq!(signal.completed(), 2);
    assert_eq!(signal.get(3, -7).unwrap().get_pixel(149, 0), friendly());
    assert_eq!(signal.get(-1, 2).unwrap().get_pixel(0, 149), hostile());
    assert!(signal.get(-7, 3).is_none());
    assert_eq!(signal.get(3, -7).unwrap().width(), 150);
    assert_eq!(signal.get(3, -7).unwrap().height(), 150);
}

#[test]
fn signal_keeps_the_first_picture_for_a_tile() {
    let mut signal = CompletionSignal::new();
    assert!(signal.record(3, -7, plain(friendly())));
    assert!(!signal.record(3, -7, plain(neutral())));
    assert_eq!(signal.len(), 1);
    assert_eq!(signal.completed(), 1);
    assert_eq!(signal.get(3, -7).unwrap().get_pixel(5, 5), friendly());
    assert!(signal.record(-7, 3, plain(neutral())));
    assert_eq!(signal.get(3, -7).unwrap().get_pixel(5, 5), friendly());
    assert_eq!(signal.completed(), 2);
}

#[test]
fn signal_turns_away_pictures_of_another_size() {
    let mut signal = CompletionSignal::new();
    assert!(!signal.record(0, 0, Raster::new(149, 150).unwrap()));
    assert!(!signal.record(0, 0, Raster::new(150, 151).unwrap()));
    assert!(!signal.record(0, 0, Raster::new(0, 0).unwrap()));
    assert_eq!(signal.len(), 0);
    assert_eq!(signal.completed(), 0);
}

#[test]
fn barrier_opens_when_all_is_done() {
    assert_eq!(RECHECK_SPINS, 300);
    assert_eq!(barrier_step(100, 100, 100, 0), None);
    assert_eq!(barrier_step(101, 100, 100, 17), None);
    assert_eq!(barrier_step(0, 0, 0, 0), None);
}

#[test]
fn barrier_waits_and_counts_its_turns() {
    assert_eq!(barrier_step(99, 99, 100, 0), Some(1));
    assert_eq!(barrier_step(100, 99, 100, 5), Some(6));
    assert_eq!(barrier_step(99, 100, 100, 298), Some(299));
    assert_eq!(barrier_step(99, 100, 100, 299), Some(300));
    assert_eq!(barrier_step(100, 101, 100, 12), Some(13));
}

#[test]
fn barrier_looks_at_the_pictures_after_many_turns() {
    assert_eq!(barrier_step(0, 100, 100, 300), None);
    assert_eq!(barrier_step(99, 100, 100, usize::MAX), None);
    assert_eq!(barrier_step(99, 99, 100, 300), Some(0));
    assert_eq!(barrier_step(100, 99, 100, 301), Some(0));
}

#[test]
fn jobs_are_one_for_each_tile() {
    let w = window(-2, 5, 3, 4, &[(0, 7, "ABCD")]);
    let viewer = "ABCD".to_string();
    let list = jobs(&w, &viewer, &shade);
    assert_eq!(list.len(), 12);
    for i in 0..3usize {
        for j in 0..4usize {
            let job = &list[i * 4 + j];
            assert_eq!((job.tile.x, job.tile.y), (-2 + i as i32, 5 + j as i32));
            assert_eq!(job.viewer, "ABCD");
            assert_eq!(job.is_center, (i, j) == (1, 2));
        }
    }
    assert_eq!(w.center(), (-1, 7));
    let one = job_at(&w, 2, 2, &viewer, &shade);
    assert!(one.tile.occupied);
    assert!(!one.is_center);
    assert_eq!(one.run().get_pixel(75, 75), friendly());
    assert_eq!(list[6].run().get_pixel(0, 75), accent());
    assert_eq!(list[6].run().get_pixel(75, 75), neutral());
}

#[test]
fn jobs_done_in_any_order_give_the_same_map() {
    let w = window(0, 0, 3, 2, &[(1, 1, "WXYZ"), (2, 0, "ABCD")]);
    let viewer = "ABCD".to_string();
    let mut signal = CompletionSignal::new();
    let mut list = jobs(&w, &viewer, &shade);
    list.reverse();
    list.swap(1, 4);
    for job in list {
        assert!(signal.record(job.tile.x, job.tile.y, job.run()));
    }
    let total = signal.len();
    assert_eq!(total, 6);
    assert_eq!(barrier_step(signal.completed(), signal.len(), total, 0), None);
    let shown = compose(&w, &signal).unwrap();
    assert_eq!(shown.as_raw(), draw_map(&w, &viewer, &shade).as_raw());
}

#[test]
fn pass_gathers_one_picture_for_each_tile() {
    let w = window(-2, 5, 3, 2, &[(-1, 6, "ABCD")]);
    let signal = render_pass(&w, &"ABCD".to_string(), &shade);
    assert_eq!(signal.len(), 6);
    assert_eq!(signal.completed(), 6);
    for x in -4..4 {
        for y in 3..9 {
            let inside = (-2..1).contains(&x) && (5..7).contains(&y);
            assert_eq!(signal.get(x, y).is_some(), inside, "at {} {}", x, y);
        }
    }
    assert_eq!(signal.get(-1, 6).unwrap().get_pixel(75, 75), friendly());
    assert_eq!(signal.get(-2, 5).unwrap().get_pixel(75, 75), neutral());
    assert_eq!(signal.get(-1, 6).unwrap().get_pixel(0, 75), accent());
    assert_eq!(signal.get(-2, 5).unwrap().get_pixel(0, 75), shade(-300, 825));
}

#[test]
fn assemble_puts_each_picture_where_its_tile_lies() {
    let w = window(4, -3, 2, 3, &[]);
    let mut signal = CompletionSignal::new();
    let mut marks = Vec::new();
    for i in 0..2u8 {
        for j in 0..3u8 {
            let c = Rgb { r: 50 + i, g: 60 + j, b: 70 };
            let mut img = plain(c);
            img.put_pixel(0, 0, accent());
            signal.record(4 + i as i32, -3 + j as i32, img);
            marks.push((i as u32, j as u32, c));
        }
    }
    let canvas = assemble(&w, &signal).unwrap();
    assert_eq!(canvas.width(), 300);
    assert_eq!(canvas.height(), 450);
    for (i, j, c) in marks {
        assert_eq!(canvas.get_pixel(i * 150, j * 150), accent());
        assert_eq!(canvas.get_pixel(i * 150 + 1, j * 150), c);
        assert_eq!(canvas.get_pixel(i * 150 + 149, j * 150 + 149), c);
    }
}

#[test]
fn anchor_tile_lands_at_the_first_pixel() {
    let w = window(-7, 9, 2, 2, &[]);
    let mut signal = CompletionSignal::new();
    let mut anchor = plain(neutral());
    anchor.put_pixel(0, 0, friendly());
    anchor.put_pixel(149, 149, hostile());
    signal.record(-7, 9, anchor);
    signal.record(-6, 9, plain(black()));
    signal.record(-7, 10, plain(black()));
    signal.record(-6, 10, plain(black()));
    let canvas = assemble(&w, &signal).unwrap();
    assert_eq!(canvas.get_pixel(0, 0), friendly());
    assert_eq!(canvas.get_pixel(1, 0), neutral());
    assert_eq!(canvas.get_pixel(149, 149), hostile());
    assert_eq!(canvas.get_pixel(150, 0), black());
    assert_eq!(canvas.get_pixel(0, 150), black());
    let shown = compose(&w, &signal).unwrap();
    assert_eq!(shown.get_pixel(0, 299), friendly());
    assert_eq!(shown.get_pixel(149, 150), hostile());
    assert_eq!(shown.get_pixel(0, 0), black());
}

#[test]
fn compose_inverts_the_rows_of_the_assembled_map() {
    let w = window(0, 0, 2, 2, &[(1, 0, "ABCD"), (0, 1, "WXYZ")]);
    let signal = render_pass(&w, &"ABCD".to_string(), &shade);
    let flat = assemble(&w, &signal).unwrap();
    let shown = compose(&w, &signal).unwrap();
    assert_eq!(shown.width(), 300);
    assert_eq!(shown.height(), 300);
    assert_eq!(shown.as_raw(), flat.rows_inverted().as_raw());
    assert_eq!(shown.rows_inverted().as_raw(), flat.as_raw());
    assert_eq!(flat.get_pixel(225, 75), friendly());
    assert_eq!(shown.get_pixel(225, 224), friendly());
    assert_eq!(shown.get_pixel(75, 74), hostile());
}

#[test]
fn missing_picture_is_an_error() {
    let w = window(0, 0, 2, 2, &[]);
    let mut signal = CompletionSignal::new();
    signal.record(0, 0, plain(neutral()));
    signal.record(1, 1, plain(neutral()));
    signal.record(9, 9, plain(neutral()));
    assert!(matches!(assemble(&w, &signal), Err(RenderError::MissingTile { x: 0, y: 1 })));
    assert!(matches!(compose(&w, &signal), Err(RenderError::MissingTile { x: 0, y: 1 })));
    signal.record(0, 1, plain(neutral()));
    assert!(matches!(compose(&w, &signal), Err(RenderError::MissingTile { x: 1, y: 0 })));
    signal.record(1, 0, plain(neutral()));
    assert!(compose(&w, &signal).is_ok());
    assert!(matches!(compose(&w, &CompletionSignal::new()), Err(RenderError::MissingTile { x: 0, y: 0 })));
}

#[test]
fn blank_window_has_no_occupancy_colour() {
    let w = window(-5, -5, 10, 10, &[]);
    let canvas = draw_map(&w, &"ABCD".to_string(), &shade);
    assert_eq!(canvas.width(), 1500);
    assert_eq!(canvas.height(), 1500);
    let raw = canvas.as_raw();
    assert_eq!(raw.len(), 3 * 1500 * 1500);
    let mut neutral_seen = false;
    let mut accent_seen = false;
    for px in raw.chunks(3) {
        let c = Rgb { r: px[0], g: px[1], b: px[2] };
        assert!(!occupancy_colored(c));
        neutral_seen = neutral_seen || c == neutral();
        accent_seen = accent_seen || c == accent();
    }
    assert!(neutral_seen);
    assert!(accent_seen);
}

#[test]
fn map_shows_who_holds_what() {
    let w = window(10, 20, 3, 3, &[(10, 20, "ABCD"), (12, 22, "WXYZ")]);
    let canvas = draw_map(&w, &"ABCD".to_string(), &shade);
    assert_eq!(canvas.width(), 450);
    assert_eq!(canvas.height(), 450);
    assert_eq!(canvas.get_pixel(75, 449 - 75), friendly());
    assert_eq!(canvas.get_pixel(375, 449 - 375), hostile());
    assert_eq!(canvas.get_pixel(225, 449 - 225), neutral());
    assert_eq!(canvas.get_pixel(150, 449 - 225), accent());
    assert_eq!(canvas.get_pixel(0, 449 - 75), shade(1500, 3075));
    assert_eq!(canvas.get_pixel(0, 449), shade(1500, 3000));
}

#[test]
fn map_is_the_same_for_the_same_input() {
    let w = window(0, 0, 2, 1, &[(1, 0, "ABCD")]);
    let a = draw_map(&w, &"ABCD".to_string(), &shade);
    let b = draw_map(&w, &"ABCD".to_string(), &shade);
    assert_eq!(a.as_raw(), b.as_raw());
}

#[test]
fn encode_writes_a_png_that_reads_back() {
    let data: Vec<u8> = (0..3 * 7 * 5).map(|v| (v * 11 % 256) as u8).collect();
    let img = Raster::from_raw(7, 5, data.clone()).unwrap();
    let bytes = encode(&img).unwrap();
    assert_eq!(bytes[..8], [0x89, b'P', b'N', b'G', 0x0d, 0x0a, 0x1a, 0x0a]);
    let back = image::load_from_memory(&bytes).unwrap().to_rgb8();
    assert_eq!(back.width(), 7);
    assert_eq!(back.height(), 5);
    assert_eq!(back.into_raw(), data);
    assert_eq!(encode(&img).unwrap(), bytes);
}

#[test]
fn encode_of_an_empty_raster_fails() {
    let img = Raster::new(0, 0).unwrap();
    assert!(matches!(encode(&img), Err(RenderError::Encoding(_))));
}

#[test]
fn encoder_answers_are_passed_on() {
    assert_eq!(encoded(Ok(vec![1, 2, 3])).unwrap(), vec![1, 2, 3]);
    let cause = image::ImageError::IoError(std::io::Error::new(std::io::ErrorKind::Other, "full"));
    assert!(matches!(encoded(Err(cause)), Err(RenderError::Encoding(image::ImageError::IoError(_)))));
}

#[test]
fn render_window_gives_the_png_of_the_map() {
    let w = window(0, 0, 2, 2, &[(0, 0, "ABCD")]);
    let viewer = "ABCD".to_string();
    let bytes = render_window(&w, &viewer, &shade).unwrap();
    let back = image::load_from_memory(&bytes).unwrap().to_rgb8();
    assert_eq!(back.width(), 300);
    assert_eq!(back.height(), 300);
    assert_eq!(&back.into_raw(), draw_map(&w, &viewer, &shade).as_raw());
}
