use worldmap::color::{accent, black, friendly, hostile, neutral, occupancy_colored, Rgb};
use worldmap::raster::Raster;

fn red() -> Rgb {
    Rgb { r: 200, g: 10, b: 20 }
}

fn blue() -> Rgb {
    Rgb { r: 1, g: 2, b: 250 }
}

#[test]
fn new_raster_is_black() {
    let img = Raster::new(4, 3).unwrap();
    assert_eq!(img.width(), 4);
    assert_eq!(img.height(), 3);
    assert_eq!(img.sample_count(), 36);
    for y in 0..3 {
        for x in 0..4 {
            assert_eq!(img.get_pixel(x, y), black());
        }
    }
}

#[test]
fn new_raster_of_no_pixels() {
    let img = Raster::new(0, 7).unwrap();
    assert_eq!(img.width(), 0);
    assert_eq!(img.height(), 7);
    assert_eq!(img.sample_count(), 0);
}

#[test]
fn new_raster_refuses_sides_beyond_the_limit() {
    assert!(Raster::new(0x8000_0000, 1).is_none());
    assert!(Raster::new(1, 0x8000_0000).is_none());
}

#[test]
fn put_pixel_changes_one_pixel() {
    let mut img = Raster::new(3, 2).unwrap();
    img.put_pixel(2, 1, red());
    for y in 0..2 {
        for x in 0..3 {
            let want = if x == 2 && y == 1 { red() } else { black() };
            assert_eq!(img.get_pixel(x, y), want);
        }
    }
    assert_eq!(img.as_raw()[15..18], [200, 10, 20]);
}

#[test]
fn samples_are_stored_row_by_row() {
    let data: Vec<u8> = (0..24).collect();
    let img = Raster::from_raw(4, 2, data.clone()).unwrap();
    assert_eq!(img.get_pixel(0, 0), Rgb { r: 0, g: 1, b: 2 });
    assert_eq!(img.get_pixel(3, 0), Rgb { r: 9, g: 10, b: 11 });
    assert_eq!(img.get_pixel(1, 1), Rgb { r: 15, g: 16, b: 17 });
    assert_eq!(img.into_raw(), data);
}

#[test]
fn from_raw_wants_three_samples_for_each_pixel() {
    assert!(Raster::from_raw(2, 2, vec![0; 11]).is_none());
    assert!(Raster::from_raw(2, 2, vec![0; 13]).is_none());
    assert!(Raster::from_raw(2, 2, vec![0; 12]).is_some());
    assert!(Raster::from_raw(0, 5, vec![]).is_some());
    assert!(Raster::from_raw(0, 5, vec![1]).is_none());
}

#[test]
fn fill_rect_paints_the_rectangle_and_nothing_else() {
    let mut img = Raster::new(6, 5).unwrap();
    img.fill_rect(1, 2, 3, 2, red());
    for y in 0..5u32 {
        for x in 0..6u32 {
            let inside = (1..4).contains(&x) && (2..4).contains(&y);
            let want = if inside { red() } else { black() };
            assert_eq!(img.get_pixel(x, y), want, "at {} {}", x, y);
        }
    }
}

#[test]
fn fill_rect_is_cut_at_the_edges() {
    let mut img = Raster::new(4, 4).unwrap();
    img.fill_rect(-2, -1, 4, 3, red());
    img.fill_rect(3, 3, 10, 10, blue());
    for y in 0..4u32 {
        for x in 0..4u32 {
            let want = if x < 2 && y < 2 {
                red()
            } else if x == 3 && y == 3 {
                blue()
            } else {
                black()
            };
            assert_eq!(img.get_pixel(x, y), want, "at {} {}", x, y);
        }
    }
}

#[test]
fn fill_rect_outside_or_empty_changes_nothing() {
    let mut img = Raster::new(4, 4).unwrap();
    img.fill_rect(4, 0, 3, 3, red());
    img.fill_rect(0, -5, 3, 5, red());
    img.fill_rect(1, 1, 0, 3, red());
    img.fill_rect(1, 1, 3, 0, red());
    img.fill_rect(i32::MAX, i32::MAX, u32::MAX, u32::MAX, red());
    assert_eq!(img.into_raw(), vec![0u8; 48]);
    let mut none = Raster::new(0, 0).unwrap();
    none.fill_rect(0, 0, 5, 5, red());
    assert_eq!(none.sample_count(), 0);
}

#[test]
fn fill_disc_paints_within_its_square() {
    let mut img = Raster::new(21, 21).unwrap();
    img.fill_disc(10, 10, 4, red());
    assert_eq!(img.get_pixel(10, 10), red());
    assert_eq!(img.get_pixel(6, 10), red());
    assert_eq!(img.get_pixel(14, 10), red());
    assert_eq!(img.get_pixel(10, 6), red());
    assert_eq!(img.get_pixel(10, 14), red());
    for y in 0..21u32 {
        for x in 0..21u32 {
            let c = img.get_pixel(x, y);
            assert!(c == red() || c == black());
            let in_square = (6..=14).contains(&x) && (6..=14).contains(&y);
            if !in_square {
                assert_eq!(c, black(), "at {} {}", x, y);
            }
        }
    }
    assert_eq!(img.get_pixel(6, 6), black());
}

#[test]
fn fill_disc_of_radius_zero_paints_its_centre() {
    let mut img = Raster::new(3, 3).unwrap();
    img.fill_disc(1, 1, 0, blue());
    for y in 0..3u32 {
        for x in 0..3u32 {
            let want = if x == 1 && y == 1 { blue() } else { black() };
            assert_eq!(img.get_pixel(x, y), want);
        }
    }
}

#[test]
fn fill_disc_is_cut_at_the_edges() {
    let mut img = Raster::new(5, 5).unwrap();
    img.fill_disc(0, 0, 2, red());
    assert_eq!(img.get_pixel(0, 0), red());
    assert_eq!(img.get_pixel(2, 0), red());
    assert_eq!(img.get_pixel(0, 2), red());
    assert_eq!(img.get_pixel(3, 0), black());
    assert_eq!(img.get_pixel(4, 4), black());
}

#[test]
fn blit_copies_a_raster_onto_another() {
    let mut small = Raster::new(2, 2).unwrap();
    small.put_pixel(0, 0, red());
    small.put_pixel(1, 1, blue());
    let mut img = Raster::new(5, 4).unwrap();
    img.fill_rect(0, 0, 5, 4, neutral());
    assert!(img.blit(&small, 3, 1));
    for y in 0..4u32 {
        for x in 0..5u32 {
            let want = match (x, y) {
                (3, 1) => red(),
                (4, 2) => blue(),
                (4, 1) | (3, 2) => black(),
                _ => neutral(),
            };
            assert_eq!(img.get_pixel(x, y), want, "at {} {}", x, y);
        }
    }
}

#[test]
fn blit_that_does_not_fit_changes_nothing() {
    let small = Raster::new(2, 2).unwrap();
    let mut img = Raster::new(3, 3).unwrap();
    img.fill_rect(0, 0, 3, 3, accent());
    let before = img.as_raw().clone();
    assert!(!img.blit(&small, 2, 0));
    assert!(!img.blit(&small, 0, 2));
    assert!(!img.blit(&small, u32::MAX, 0));
    assert_eq!(img.as_raw(), &before);
    assert!(img.blit(&small, 1, 1));
}

#[test]
fn rows_inverted_turns_the_raster_upside_down() {
    let data: Vec<u8> = (0..18).collect();
    let img = Raster::from_raw(2, 3, data).unwrap();
    let turned = img.rows_inverted();
    assert_eq!(turned.width(), 2);
    assert_eq!(turned.height(), 3);
    assert_eq!(turned.into_raw(), vec![12, 13, 14, 15, 16, 17, 6, 7, 8, 9, 10, 11, 0, 1, 2, 3, 4, 5]);
}

#[test]
fn rows_inverted_twice_gives_the_raster_back() {
    let data: Vec<u8> = (0..60).map(|v| (v * 7 % 251) as u8).collect();
    let img = Raster::from_raw(4, 5, data.clone()).unwrap();
    assert_eq!(img.rows_inverted().rows_inverted().into_raw(), data);
    let one_row = Raster::from_raw(3, 1, vec![1, 2, 3, 4, 5, 6, 7, 8, 9]).unwrap();
    assert_eq!(one_row.rows_inverted().into_raw(), vec![1, 2, 3, 4, 5, 6, 7, 8, 9]);
}

#[test]
fn palette_has_the_fixed_colours() {
    assert_eq!(accent(), Rgb { r: 28, g: 119, b: 114 });
    assert_eq!(neutral(), Rgb { r: 28, g: 119, b: 68 });
    assert_eq!(friendly(), Rgb { r: 102, g: 178, b: 255 });
    assert_eq!(hostile(), Rgb { r: 28, g: 172, b: 255 });
    assert_eq!(black(), Rgb { r: 0, g: 0, b: 0 });
    assert!(occupancy_colored(friendly()));
    assert!(occupancy_colored(hostile()));
    assert!(!occupancy_colored(neutral()));
    assert!(!occupancy_colored(accent()));
    assert!(!occupancy_colored(black()));
}
