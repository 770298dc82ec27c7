use worldmap::builder::{Phase, Progress, StoreAnswer, StoreQuery, WindowBuilder};
use worldmap::tiles::blank_tile;
use worldmap::types::buildings::Building;
use worldmap::types::map::Tile;
use worldmap::types::units::Unit;
use worldmap::window::{fits_canvas, TileWindow};

fn held(x: i32, y: i32) -> Tile {
    let mut t = blank_tile(x, y);
    t.occupied = true;
    t.faction = "ABCD".to_string();
    t.buildings.push((Building::Farm, 2));
    t.units.push((Unit::Scout, 7));
    t
}

fn in_range(t: &Tile, xs: (i32, i32), ys: (i32, i32)) -> bool {
    xs.0 <= t.x && t.x < xs.1 && ys.0 <= t.y && t.y < ys.1
}

fn run(center: (i32, i32), store: &[Tile]) -> (TileWindow, Vec<StoreQuery>) {
    let mut builder = WindowBuilder::new(center.0, center.1).unwrap();
    let mut asked = Vec::new();
    loop {
        let query = builder.query();
        asked.push(query);
        let answer = match query {
            StoreQuery::AllExist { x_range, y_range } => {
                let mut all = true;
                for x in x_range.0..x_range.1 {
                    for y in y_range.0..y_range.1 {
                        all = all && store.iter().any(|t| t.x == x && t.y == y);
                    }
                }
                StoreAnswer::Flag(all)
            }
            StoreQuery::AnyExist { x_range, y_range } => {
                StoreAnswer::Flag(store.iter().any(|t| in_range(t, x_range, y_range)))
            }
            StoreQuery::FetchRange { x_range, y_range } => StoreAnswer::Tiles(
                store.iter().rev().filter(|t| in_range(t, x_range, y_range)).cloned().collect(),
            ),
            StoreQuery::Exists { x, y } => StoreAnswer::Flag(store.iter().any(|t| t.x == x && t.y == y)),
            StoreQuery::Fetch { x, y } => {
                StoreAnswer::Found(store.iter().find(|t| t.x == x && t.y == y).unwrap().clone())
            }
        };
        match builder.advance(answer) {
            Progress::Pending(next) => builder = next,
            Progress::Done(window) => return (window, asked),
        }
    }
}

fn assert_complete(window: &TileWindow, center: (i32, i32)) {
    assert_eq!(window.cols(), 10);
    assert_eq!(window.rows(), 10);
    assert_eq!(window.origin_x(), center.0 - 5);
    assert_eq!(window.origin_y(), center.1 - 5);
    assert_eq!(window.center(), center);
    for i in 0..10 {
        for j in 0..10 {
            let t = window.tile(i, j);
            assert_eq!(t.x, center.0 - 5 + i as i32);
            assert_eq!(t.y, center.1 - 5 + j as i32);
        }
    }
}

#[test]
fn builder_starts_by_asking_for_all() {
    let builder = WindowBuilder::new(3, -4).unwrap();
    assert_eq!(builder.phase(), Phase::AskAll);
    assert_eq!(builder.query(), StoreQuery::AllExist { x_range: (-2, 8), y_range: (-9, 1) });
}

#[test]
fn empty_store_gives_a_blank_window() {
    let (window, asked) = run((0, 0), &[]);
    assert_complete(&window, (0, 0));
    assert_eq!(
        asked,
        vec![
            StoreQuery::AllExist { x_range: (-5, 5), y_range: (-5, 5) },
            StoreQuery::AnyExist { x_range: (-5, 5), y_range: (-5, 5) },
        ]
    );
    for i in 0..10 {
        for j in 0..10 {
            let t = window.tile(i, j);
            assert!(!t.occupied);
            assert!(t.faction.is_empty());
            assert!(t.buildings.is_empty());
            assert!(t.units.is_empty());
        }
    }
}

#[test]
fn full_store_is_fetched_in_one_batch() {
    let mut store = Vec::new();
    for x in 95..105 {
        for y in -55..-45 {
            store.push(held(x, y));
        }
    }
    store.push(held(200, 200));
    let (window, asked) = run((100, -50), &store);
    assert_complete(&window, (100, -50));
    assert_eq!(
        asked,
        vec![
            StoreQuery::AllExist { x_range: (95, 105), y_range: (-55, -45) },
            StoreQuery::FetchRange { x_range: (95, 105), y_range: (-55, -45) },
        ]
    );
    for i in 0..10 {
        for j in 0..10 {
            let t = window.tile(i, j);
            assert!(t.occupied);
            assert_eq!(t.faction, "ABCD");
            assert_eq!(t.buildings, vec![(Building::Farm, 2)]);
            assert_eq!(t.units, vec![(Unit::Scout, 7)]);
        }
    }
}

#[test]
fn sparse_store_is_asked_place_by_place() {
    let store = vec![held(1, 2), held(-5, -5), held(4, 4), held(5, 0)];
    let (window, asked) = run((0, 0), &store);
    assert_complete(&window, (0, 0));
    assert_eq!(asked.len(), 2 + 100 + 3);
    assert_eq!(asked[2], StoreQuery::Exists { x: -5, y: -5 });
    assert_eq!(asked[3], StoreQuery::Fetch { x: -5, y: -5 });
    assert_eq!(asked[4], StoreQuery::Exists { x: -5, y: -4 });
    assert_eq!(asked[103], StoreQuery::Exists { x: 4, y: 4 });
    assert_eq!(asked[104], StoreQuery::Fetch { x: 4, y: 4 });
    for i in 0..10usize {
        for j in 0..10usize {
            let t = window.tile(i, j);
            let stored = matches!((t.x, t.y), (1, 2) | (-5, -5) | (4, 4));
            assert_eq!(t.occupied, stored, "at {} {}", t.x, t.y);
            assert_eq!(t.buildings.len(), if stored { 1 } else { 0 });
        }
    }
}

#[test]
fn batch_with_gaps_and_strangers_still_fills_the_window() {
    let builder = WindowBuilder::new(0, 0).unwrap();
    let builder = match builder.advance(StoreAnswer::Flag(true)) {
        Progress::Pending(b) => b,
        Progress::Done(_) => panic!("done too early"),
    };
    assert_eq!(builder.phase(), Phase::Batch);
    assert_eq!(builder.query(), StoreQuery::FetchRange { x_range: (-5, 5), y_range: (-5, 5) });
    let mut second = held(0, 0);
    second.faction = "LATE".to_string();
    let batch = vec![held(77, 77), held(0, 0), second, held(-5, 4)];
    let window = match builder.advance(StoreAnswer::Tiles(batch)) {
        Progress::Done(w) => w,
        Progress::Pending(_) => panic!("not done"),
    };
    assert_complete(&window, (0, 0));
    for i in 0..10usize {
        for j in 0..10usize {
            let t = window.tile(i, j);
            let stored = matches!((t.x, t.y), (0, 0) | (-5, 4));
            assert_eq!(t.occupied, stored);
            if stored {
                assert_eq!(t.faction, "ABCD");
            }
        }
    }
}

#[test]
fn fetched_tile_from_elsewhere_counts_as_missing() {
    let mut builder = WindowBuilder::new(0, 0).unwrap();
    for answer in [StoreAnswer::Flag(false), StoreAnswer::Flag(true), StoreAnswer::Flag(true)] {
        builder = match builder.advance(answer) {
            Progress::Pending(b) => b,
            Progress::Done(_) => panic!("done too early"),
        };
    }
    assert_eq!(builder.phase(), Phase::FetchCell);
    assert_eq!(builder.query(), StoreQuery::Fetch { x: -5, y: -5 });
    builder = match builder.advance(StoreAnswer::Found(held(9, 9))) {
        Progress::Pending(b) => b,
        Progress::Done(_) => panic!("done too early"),
    };
    assert_eq!(builder.phase(), Phase::Probe);
    assert_eq!(builder.query(), StoreQuery::Exists { x: -5, y: -4 });
    let mut last = None;
    for _ in 0..99 {
        match builder.advance(StoreAnswer::Flag(false)) {
            Progress::Pending(b) => builder = b,
            Progress::Done(w) => {
                last = Some(w);
                break;
            }
        }
    }
    let window = last.unwrap();
    assert_complete(&window, (0, 0));
    assert!(!window.tile(0, 0).occupied);
}

#[test]
fn answer_of_the_wrong_kind_changes_nothing() {
    let builder = WindowBuilder::new(7, 7).unwrap();
    let builder = match builder.advance(StoreAnswer::Found(held(2, 2))) {
        Progress::Pending(b) => b,
        Progress::Done(_) => panic!("done"),
    };
    assert_eq!(builder.phase(), Phase::AskAll);
    let builder = match builder.advance(StoreAnswer::Tiles(vec![])) {
        Progress::Pending(b) => b,
        Progress::Done(_) => panic!("done"),
    };
    assert_eq!(builder.phase(), Phase::AskAll);
    assert_eq!(builder.query(), StoreQuery::AllExist { x_range: (2, 12), y_range: (2, 12) });
    let builder = match builder.advance(StoreAnswer::Flag(true)) {
        Progress::Pending(b) => b,
        Progress::Done(_) => panic!("done"),
    };
    let builder = match builder.advance(StoreAnswer::Flag(true)) {
        Progress::Pending(b) => b,
        Progress::Done(_) => panic!("done"),
    };
    assert_eq!(builder.phase(), Phase::Batch);
}

#[test]
fn window_at_the_edge_of_the_world() {
    assert!(WindowBuilder::new(i32::MIN + 4, 0).is_none());
    assert!(WindowBuilder::new(0, i32::MIN + 4).is_none());
    assert!(WindowBuilder::new(i32::MAX - 4, 0).is_none());
    assert!(WindowBuilder::new(0, i32::MAX - 4).is_none());
    assert!(WindowBuilder::new(i32::MIN + 5, i32::MAX - 5).is_some());
    let (window, _) = run((i32::MAX - 5, i32::MIN + 5), &[]);
    assert_complete(&window, (i32::MAX - 5, i32::MIN + 5));
    assert_eq!(window.tile(9, 0).x, i32::MAX - 1);
    assert_eq!(window.tile(0, 0).y, i32::MIN);
}

#[test]
fn window_from_a_grid() {
    let grid = vec![
        vec![blank_tile(3, -1), blank_tile(3, 0), held(3, 1)],
        vec![blank_tile(4, -1), blank_tile(4, 0), blank_tile(4, 1)],
    ];
    let window = TileWindow::from_grid(grid).unwrap();
    assert_eq!(window.cols(), 2);
    assert_eq!(window.rows(), 3);
    assert_eq!(window.origin_x(), 3);
    assert_eq!(window.origin_y(), -1);
    assert_eq!(window.center(), (4, 0));
    assert!(window.tile(0, 2).occupied);
    let grid = window.into_grid();
    assert_eq!(grid.len(), 2);
    assert_eq!(grid[1][2].y, 1);
}

#[test]
fn window_refuses_a_grid_with_gaps() {
    assert!(TileWindow::from_grid(vec![]).is_none());
    assert!(TileWindow::from_grid(vec![vec![], vec![]]).is_none());
    assert!(TileWindow::from_grid(vec![vec![blank_tile(0, 0), blank_tile(0, 1)], vec![blank_tile(1, 0)]]).is_none());
    assert!(TileWindow::from_grid(vec![vec![blank_tile(0, 0)], vec![blank_tile(2, 0)]]).is_none());
    assert!(TileWindow::from_grid(vec![vec![blank_tile(0, 0), blank_tile(0, 2)]]).is_none());
    assert!(TileWindow::from_grid(vec![vec![blank_tile(0, 1), blank_tile(0, 0)]]).is_none());
    assert!(TileWindow::from_grid(vec![vec![blank_tile(i32::MAX, 0)], vec![blank_tile(i32::MIN, 0)]]).is_none());
    assert!(TileWindow::from_grid(vec![vec![blank_tile(i32::MAX, i32::MAX)]]).is_some());
}

#[test]
fn canvas_has_a_largest_size() {
    assert!(fits_canvas(10, 10));
    assert!(fits_canvas(14_316_557, 1));
    assert!(!fits_canvas(14_316_558, 1));
    assert!(!fits_canvas(1, 14_316_558));
    assert!(fits_canvas(0, usize::MAX / 1000) == false);
}
