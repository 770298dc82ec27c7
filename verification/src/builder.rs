//! Gathering the window of a map from a store of tiles, one question at a
//! time. The builder decides what to ask and what to make of each answer; the
//! caller puts the questions to the store.
//!
//! It asks first whether the store holds every tile of the window, and if so
//! fetches them together. Else it asks whether the store holds any of them,
//! and if not fills the window with blank tiles. Else it goes through the
//! window place by place, fetches the tiles that the store holds and puts a
//! blank tile wherever it holds none.

use vstd::prelude::*;
use crate::conversions::split_tiles;
use crate::geometry::VIEW_DISTANCE;
use crate::tiles::{blank_tile, blank_tile_range, span};
use crate::types::map::{blank_view, grid_views, tile_views, Tile, TileView};
use crate::window::{is_window, TileWindow};

verus! {

/// A question to the store of tiles. A range holds its lower end and not its
/// upper end.
#[derive(Debug, Clone, Copy, PartialEq, Eq)]
pub enum StoreQuery {
    /// Does the store hold a tile for every place in the ranges?
    AllExist { x_range: (i32, i32), y_range: (i32, i32) },
    /// Does the store hold a tile for any place in the ranges?
    AnyExist { x_range: (i32, i32), y_range: (i32, i32) },
    /// The tiles that the store holds for the places in the ranges.
    FetchRange { x_range: (i32, i32), y_range: (i32, i32) },
    /// Does the store hold a tile for this place?
    Exists { x: i32, y: i32 },
    /// The tile that the store holds for this place.
    Fetch { x: i32, y: i32 },
}

/// An answer of the store.
#[derive(Debug)]
pub enum StoreAnswer {
    /// Yes or no.
    Flag(bool),
    /// Tiles, in any order.
    Tiles(Vec<Tile>),
    /// One tile.
    Found(Tile),
}

/// What an answer holds, as plain values.
pub enum AnswerView {
    Flag(bool),
    Tiles(Seq<TileView>),
    Found(TileView),
}

impl View for StoreAnswer {
    type V = AnswerView;

    open spec fn view(&self) -> AnswerView {
        match self {
            StoreAnswer::Flag(b) => AnswerView::Flag(*b),
            StoreAnswer::Tiles(tiles) => AnswerView::Tiles(tile_views(tiles@)),
            StoreAnswer::Found(tile) => AnswerView::Found(tile@),
        }
    }
}

/// Where the builder stands.
#[derive(Debug, Clone, Copy, PartialEq, Eq, Structural)]
pub enum Phase {
    /// It asks whether the store holds every tile of the window.
    AskAll,
    /// It fetches all the tiles of the window together.
    Batch,
    /// It asks whether the store holds any tile of the window.
    AskAny,
    /// It asks whether the store holds the tile of the next place.
    Probe,
    /// It fetches the tile of the next place.
    FetchCell,
}

/// The number of tiles in a window.
pub open spec fn cell_count() -> int {
    VIEW_DISTANCE * VIEW_DISTANCE
}

/// The coordinate at which a window centred on `center` begins, along either
/// axis.
pub open spec fn origin_of(center: i32) -> int {
    center - VIEW_DISTANCE / 2
}

/// True where a window centred on `center` lies within the coordinates of the
/// world, along either axis.
pub open spec fn center_fits(center: i32) -> bool {
    i32::MIN <= origin_of(center) && origin_of(center) + VIEW_DISTANCE <= i32::MAX
}

/// The first tile of the list from index `k` on that lies at the given
/// coordinates, or the blank tile there if the list has none.
pub open spec fn find_from(list: Seq<TileView>, x: i32, y: i32, k: int) -> TileView
    decreases list.len() - k,
{
    if k < 0 || k >= list.len() {
        blank_view(x, y)
    } else if list[k].x == x && list[k].y == y {
        list[k]
    } else {
        find_from(list, x, y, k + 1)
    }
}

/// The tile for the `k`th place of the window, counted column by column,
/// taken from a list of tiles.
pub open spec fn arranged(list: Seq<TileView>, center_x: i32, center_y: i32, k: int) -> TileView {
    find_from(
        list,
        (origin_of(center_x) + k / (VIEW_DISTANCE as int)) as i32,
        (origin_of(center_y) + k % (VIEW_DISTANCE as int)) as i32,
        0,
    )
}

/// The blank tile for the `k`th place of the window, counted column by column.
pub open spec fn blank_cell(center_x: i32, center_y: i32, k: int) -> TileView {
    blank_view(
        (origin_of(center_x) + k / (VIEW_DISTANCE as int)) as i32,
        (origin_of(center_y) + k % (VIEW_DISTANCE as int)) as i32,
    )
}

/// The tile to put in the `k`th place when the store has handed over `found`
/// for it: that tile, or a blank one where it lies somewhere else.
pub open spec fn fetched_cell(found: TileView, center_x: i32, center_y: i32, k: int) -> TileView {
    if found.x == origin_of(center_x) + k / (VIEW_DISTANCE as int) && found.y == origin_of(center_y) + k % (
    VIEW_DISTANCE as int) {
        found
    } else {
        blank_cell(center_x, center_y, k)
    }
}

/// The grid of a window whose tiles are listed column by column.
pub open spec fn grid_of_cells(cells: Seq<TileView>) -> Seq<Seq<TileView>> {
    Seq::new(
        VIEW_DISTANCE as nat,
        |i: int| Seq::new(VIEW_DISTANCE as nat, |j: int| cells[i * VIEW_DISTANCE + j]),
    )
}

/// What an answer leads to: a builder in a new state, or the finished window.
pub enum Outcome {
    Pending { phase: Phase, cells: Seq<TileView> },
    Done { grid: Seq<Seq<TileView>> },
}

/// What comes of putting one more tile into the window.
pub open spec fn placed(cells: Seq<TileView>, tile: TileView) -> Outcome {
    if cells.len() + 1 == cell_count() {
        Outcome::Done { grid: grid_of_cells(cells.push(tile)) }
    } else {
        Outcome::Pending { phase: Phase::Probe, cells: cells.push(tile) }
    }
}

/// True where the answer is of the kind that the builder waits for.
pub open spec fn answer_fits(phase: Phase, answer: AnswerView) -> bool {
    match phase {
        Phase::AskAll | Phase::AskAny | Phase::Probe => answer is Flag,
        Phase::Batch => answer is Tiles,
        Phase::FetchCell => answer is Found,
    }
}

/// What the builder makes of an answer. An answer of another kind than the
/// one it waits for changes nothing.
pub open spec fn spec_advance(center_x: i32, center_y: i32, phase: Phase, cells: Seq<TileView>, answer: AnswerView) -> Outcome {
    match (phase, answer) {
        (Phase::AskAll, AnswerView::Flag(all)) => Outcome::Pending {
            phase: if all {
                Phase::Batch
            } else {
                Phase::AskAny
            },
            cells,
        },
        (Phase::Batch, AnswerView::Tiles(list)) => Outcome::Done {
            grid: grid_of_cells(Seq::new(cell_count() as nat, |k: int| arranged(list, center_x, center_y, k))),
        },
        (Phase::AskAny, AnswerView::Flag(any)) => if any {
            Outcome::Pending { phase: Phase::Probe, cells }
        } else {
            Outcome::Done {
                grid: grid_of_cells(Seq::new(cell_count() as nat, |k: int| blank_cell(center_x, center_y, k))),
            }
        },
        (Phase::Probe, AnswerView::Flag(held)) => if held {
            Outcome::Pending { phase: Phase::FetchCell, cells }
        } else {
            placed(cells, blank_cell(center_x, center_y, cells.len() as int))
        },
        (Phase::FetchCell, AnswerView::Found(found)) => placed(
            cells,
            fetched_cell(found, center_x, center_y, cells.len() as int),
        ),
        _ => Outcome::Pending { phase, cells },
    }
}

/// The most answers that the builder still needs before the window is done.
pub open spec fn steps_left(phase: Phase, filled: int) -> int {
    match phase {
        Phase::AskAll => 2 * cell_count() + 2,
        Phase::Batch => 1,
        Phase::AskAny => 2 * cell_count() + 1,
        Phase::Probe => 2 * (cell_count() - filled),
        Phase::FetchCell => 2 * (cell_count() - filled) - 1,
    }
}

/// The state of gathering one window.
pub struct WindowBuilder {
    center_x: i32,
    center_y: i32,
    phase: Phase,
    filled: Vec<Tile>,
}

/// The end of one step of the builder.
pub enum Progress {
    /// The builder has another question.
    Pending(WindowBuilder),
    /// The window is complete.
    Done(TileWindow),
}

impl WindowBuilder {
    /// What every builder keeps to: its window lies within the world, and the
    /// tiles it has placed lie where they belong.
    #[verifier::type_invariant]
    pub open spec fn inv(&self) -> bool {
        &&& center_fits(self.spec_center_x())
        &&& center_fits(self.spec_center_y())
        &&& self.cells().len() <= cell_count()
        &&& (self.spec_phase() is Probe || self.spec_phase() is FetchCell) ==> self.cells().len() < cell_count()
        &&& !(self.spec_phase() is Probe || self.spec_phase() is FetchCell) ==> self.cells().len() == 0
        &&& forall|k: int|
            0 <= k < self.cells().len() ==> {
                &&& (#[trigger] self.cells()[k]).x == origin_of(self.spec_center_x()) + k / (VIEW_DISTANCE as int)
                &&& self.cells()[k].y == origin_of(self.spec_center_y()) + k % (VIEW_DISTANCE as int)
            }
    }

    /// The `x` that the window is centred on.
    pub closed spec fn spec_center_x(&self) -> i32 {
        self.center_x
    }

    /// The `y` that the window is centred on.
    pub closed spec fn spec_center_y(&self) -> i32 {
        self.center_y
    }

    /// Where the builder stands.
    pub closed spec fn spec_phase(&self) -> Phase {
        self.phase
    }

    /// The tiles placed so far, column by column.
    pub closed spec fn cells(&self) -> Seq<TileView> {
        tile_views(self.filled@)
    }

    /// The question that the builder has for the store.
    pub open spec fn spec_query(&self) -> StoreQuery {
        let x0 = origin_of(self.spec_center_x()) as i32;
        let y0 = origin_of(self.spec_center_y()) as i32;
        let x_range = (x0, (x0 + VIEW_DISTANCE) as i32);
        let y_range = (y0, (y0 + VIEW_DISTANCE) as i32);
        let k = self.cells().len() as int;
        let x = (x0 + k / (VIEW_DISTANCE as int)) as i32;
        let y = (y0 + k % (VIEW_DISTANCE as int)) as i32;
        match self.spec_phase() {
            Phase::AskAll => StoreQuery::AllExist { x_range, y_range },
            Phase::Batch => StoreQuery::FetchRange { x_range, y_range },
            Phase::AskAny => StoreQuery::AnyExist { x_range, y_range },
            Phase::Probe => StoreQuery::Exists { x, y },
            Phase::FetchCell => StoreQuery::Fetch { x, y },
        }
    }

    /// A builder for the window centred on the given coordinates, or `None`
    /// where that window would reach beyond the coordinates of the world.
    pub fn new(center_x: i32, center_y: i32) -> (out: Option<WindowBuilder>)
        ensures
            out is Some <==> center_fits(center_x) && center_fits(center_y),
            out matches Some(b) ==> {
                &&& b.spec_center_x() == center_x
                &&& b.spec_center_y() == center_y
                &&& b.spec_phase() == Phase::AskAll
                &&& b.cells().len() == 0
            },
    {
        let half = VIEW_DISTANCE / 2;
        if center_x < i32::MIN + half || center_x > i32::MAX - (VIEW_DISTANCE - half) {
            return None;
        }
        if center_y < i32::MIN + half || center_y > i32::MAX - (VIEW_DISTANCE - half) {
            return None;
        }
        Some(WindowBuilder { center_x, center_y, phase: Phase::AskAll, filled: Vec::new() })
    }

    /// Where the builder stands.
    #[verifier::when_used_as_spec(spec_phase)]
    pub fn phase(&self) -> (p: Phase)
        ensures
            p == self.spec_phase(),
    {
        self.phase
    }

    /// The place that the builder asks about next, where it goes place by
    /// place.
    fn cursor(&self) -> (at: (i32, i32))
        requires
            self.filled@.len() < cell_count(),
        ensures
            at.0 == origin_of(self.center_x) + self.filled@.len() / (VIEW_DISTANCE as nat),
            at.1 == origin_of(self.center_y) + self.filled@.len() % (VIEW_DISTANCE as nat),
    {
        proof {
            use_type_invariant(self);
        }
        let k: i32 = self.filled.len() as i32;
        let x0 = self.center_x - VIEW_DISTANCE / 2;
        let y0 = self.center_y - VIEW_DISTANCE / 2;
        (x0 + k / VIEW_DISTANCE, y0 + k % VIEW_DISTANCE)
    }

    /// The question that the builder has for the store.
    #[verifier::when_used_as_spec(spec_query)]
    pub fn query(&self) -> (q: StoreQuery)
        ensures
            q == self.spec_query(),
    {
        proof {
            use_type_invariant(self);
        }
        let x0 = self.center_x - VIEW_DISTANCE / 2;
        let y0 = self.center_y - VIEW_DISTANCE / 2;
        let x_range = (x0, x0 + VIEW_DISTANCE);
        let y_range = (y0, y0 + VIEW_DISTANCE);
        match self.phase {
            Phase::AskAll => StoreQuery::AllExist { x_range, y_range },
            Phase::Batch => StoreQuery::FetchRange { x_range, y_range },
            Phase::AskAny => StoreQuery::AnyExist { x_range, y_range },
            Phase::Probe => {
                let at = self.cursor();
                StoreQuery::Exists { x: at.0, y: at.1 }
            },
            Phase::FetchCell => {
                let at = self.cursor();
                StoreQuery::Fetch { x: at.0, y: at.1 }
            },
        }
    }

    /// Takes the answer to the builder's question and moves on: to the next
    /// question, or to the finished window. The window that comes out has a
    /// tile for every place, whatever the store has answered.
    pub fn advance(self, answer: StoreAnswer) -> (out: Progress)
        ensures
            match (out, spec_advance(self.spec_center_x(), self.spec_center_y(), self.spec_phase(), self.cells(), answer@)) {
                (Progress::Pending(b), Outcome::Pending { phase, cells }) => {
                    &&& b.spec_center_x() == self.spec_center_x()
                    &&& b.spec_center_y() == self.spec_center_y()
                    &&& b.spec_phase() == phase
                    &&& b.cells() == cells
                },
                (Progress::Done(w), Outcome::Done { grid }) => {
                    &&& w@ == grid
                    &&& w.spec_origin_x() == origin_of(self.spec_center_x())
                    &&& w.spec_origin_y() == origin_of(self.spec_center_y())
                },
                _ => false,
            },
            out matches Progress::Done(w) ==> {
                &&& w.inv()
                &&& w.spec_cols() == VIEW_DISTANCE
                &&& w.spec_rows() == VIEW_DISTANCE
                &&& w.spec_center() == (self.spec_center_x(), self.spec_center_y())
            },
            out matches Progress::Pending(b) ==> {
                ||| !answer_fits(self.spec_phase(), answer@)
                ||| steps_left(b.spec_phase(), b.cells().len() as int) < steps_left(
                    self.spec_phase(),
                    self.cells().len() as int,
                )
            },
    {
        proof {
            use_type_invariant(&self);
        }
        let center_x = self.center_x;
        let center_y = self.center_y;
        let phase = self.phase;
        let filled = self.filled;
        match (phase, answer) {
            (Phase::AskAll, StoreAnswer::Flag(all)) => {
                let next = if all {
                    Phase::Batch
                } else {
                    Phase::AskAny
                };
                Progress::Pending(WindowBuilder { center_x, center_y, phase: next, filled })
            },
            (Phase::Batch, StoreAnswer::Tiles(list)) => {
                let cells = arrange(&list, center_x, center_y);
                Progress::Done(finish(center_x, center_y, cells))
            },
            (Phase::AskAny, StoreAnswer::Flag(any)) => {
                if any {
                    Progress::Pending(WindowBuilder { center_x, center_y, phase: Phase::Probe, filled })
                } else {
                    let x0 = center_x - VIEW_DISTANCE / 2;
                    let y0 = center_y - VIEW_DISTANCE / 2;
                    let cells = blank_tile_range((x0, x0 + VIEW_DISTANCE), (y0, y0 + VIEW_DISTANCE));
                    proof {
                        let x_range = (x0, (x0 + VIEW_DISTANCE) as i32);
                        let y_range = (y0, (y0 + VIEW_DISTANCE) as i32);
                        assert(span(x_range) == VIEW_DISTANCE && span(y_range) == VIEW_DISTANCE);
                        assert forall|k: int| 0 <= k < cell_count() implies (#[trigger] cells@[k])@ == blank_cell(
                            center_x,
                            center_y,
                            k,
                        ) by {
                            let i = k / (VIEW_DISTANCE as int);
                            let j = k % (VIEW_DISTANCE as int);
                            assert(k == i * span(y_range) + j);
                            assert(cells@[i * span(y_range) + j]@ == blank_view((x0 + i) as i32, (y0 + j) as i32));
                        }
                        assert(tile_views(cells@) =~= Seq::new(
                            cell_count() as nat,
                            |k: int| blank_cell(center_x, center_y, k),
                        ));
                    }
                    Progress::Done(finish(center_x, center_y, cells))
                }
            },
            (Phase::Probe, StoreAnswer::Flag(held)) => {
                if held {
                    Progress::Pending(WindowBuilder { center_x, center_y, phase: Phase::FetchCell, filled })
                } else {
                    let k: i32 = filled.len() as i32;
                    let x = center_x - VIEW_DISTANCE / 2 + k / VIEW_DISTANCE;
                    let y = center_y - VIEW_DISTANCE / 2 + k % VIEW_DISTANCE;
                    place(center_x, center_y, filled, blank_tile(x, y))
                }
            },
            (Phase::FetchCell, StoreAnswer::Found(found)) => {
                let k: i32 = filled.len() as i32;
                let x = center_x - VIEW_DISTANCE / 2 + k / VIEW_DISTANCE;
                let y = center_y - VIEW_DISTANCE / 2 + k % VIEW_DISTANCE;
                let tile = if found.x == x && found.y == y {
                    found
                } else {
                    blank_tile(x, y)
                };
                place(center_x, center_y, filled, tile)
            },
            (phase, _) => Progress::Pending(WindowBuilder { center_x, center_y, phase, filled }),
        }
    }
}

/// The first tile of the list that lies at the given coordinates, or a blank
/// tile there if the list has none.
fn find(list: &Vec<Tile>, x: i32, y: i32) -> (t: Tile)
    ensures
        t@ == find_from(tile_views(list@), x, y, 0),
{
    let mut k: usize = 0;
    while k < list.len()
        invariant
            0 <= k <= list.len(),
            find_from(tile_views(list@), x, y, 0) == find_from(tile_views(list@), x, y, k as int),
        decreases list.len() - k,
    {
        if list[k].x == x && list[k].y == y {
            return list[k].duplicate();
        }
        k = k + 1;
    }
    blank_tile(x, y)
}

/// The tiles of the window column by column, each taken from the list or
/// blank where the list has none for its place.
fn arrange(list: &Vec<Tile>, center_x: i32, center_y: i32) -> (cells: Vec<Tile>)
    requires
        center_fits(center_x),
        center_fits(center_y),
    ensures
        cells@.len() == cell_count(),
        tile_views(cells@) == Seq::new(
            cell_count() as nat,
            |k: int| arranged(tile_views(list@), center_x, center_y, k),
        ),
        forall|k: int|
            0 <= k < cell_count() ==> {
                &&& (#[trigger] cells@[k])@.x == origin_of(center_x) + k / (VIEW_DISTANCE as int)
                &&& cells@[k]@.y == origin_of(center_y) + k % (VIEW_DISTANCE as int)
            },
{
    let mut cells: Vec<Tile> = Vec::new();
    let x0 = center_x - VIEW_DISTANCE / 2;
    let y0 = center_y - VIEW_DISTANCE / 2;
    let mut k: i32 = 0;
    while k < VIEW_DISTANCE * VIEW_DISTANCE
        invariant
            0 <= k <= cell_count(),
            center_fits(center_x),
            center_fits(center_y),
            x0 == origin_of(center_x),
            y0 == origin_of(center_y),
            cells@.len() == k,
            forall|a: int| 0 <= a < k ==> (#[trigger] cells@[a])@ == arranged(tile_views(list@), center_x, center_y, a),
        decreases cell_count() - k,
    {
        let tile = find(list, x0 + k / VIEW_DISTANCE, y0 + k % VIEW_DISTANCE);
        cells.push(tile);
        k = k + 1;
    }
    assert forall|a: int| 0 <= a < cell_count() implies {
        &&& (#[trigger] cells@[a])@.x == origin_of(center_x) + a / (VIEW_DISTANCE as int)
        &&& cells@[a]@.y == origin_of(center_y) + a % (VIEW_DISTANCE as int)
    } by {
        lemma_find_from_place(
            tile_views(list@),
            (origin_of(center_x) + a / (VIEW_DISTANCE as int)) as i32,
            (origin_of(center_y) + a % (VIEW_DISTANCE as int)) as i32,
            0,
        );
    }
    assert(tile_views(cells@) =~= Seq::new(
        cell_count() as nat,
        |k: int| arranged(tile_views(list@), center_x, center_y, k),
    ));
    cells
}

/// Whatever a list holds, the tile found for a place lies at that place.
proof fn lemma_find_from_place(list: Seq<TileView>, x: i32, y: i32, k: int)
    ensures
        find_from(list, x, y, k).x == x,
        find_from(list, x, y, k).y == y,
    decreases list.len() - k,
{
    if 0 <= k < list.len() && !(list[k].x == x && list[k].y == y) {
        lemma_find_from_place(list, x, y, k + 1);
    }
}

/// The window over tiles that are listed column by column, each at its place.
fn finish(center_x: i32, center_y: i32, cells: Vec<Tile>) -> (w: TileWindow)
    requires
        center_fits(center_x),
        center_fits(center_y),
        cells@.len() == cell_count(),
        forall|k: int|
            0 <= k < cell_count() ==> {
                &&& (#[trigger] cells@[k])@.x == origin_of(center_x) + k / (VIEW_DISTANCE as int)
                &&& cells@[k]@.y == origin_of(center_y) + k % (VIEW_DISTANCE as int)
            },
    ensures
        w@ == grid_of_cells(tile_views(cells@)),
        w.spec_origin_x() == origin_of(center_x),
        w.spec_origin_y() == origin_of(center_y),
        w.inv(),
{
    let grid = split_tiles(cells, VIEW_DISTANCE);
    proof {
        let views = grid_views(grid@);
        let want = grid_of_cells(tile_views(cells@));
        assert forall|i: int| 0 <= i < VIEW_DISTANCE implies #[trigger] views[i] =~= want[i] by {
            assert(grid@[i]@.len() == VIEW_DISTANCE);
            assert forall|j: int| 0 <= j < VIEW_DISTANCE implies views[i][j] == want[i][j] by {
                assert(grid@[i]@[j] == cells@[i * VIEW_DISTANCE + j]);
            }
        }
        assert(views =~= want);
        assert forall|i: int, j: int| 0 <= i < views.len() && 0 <= j < views[0].len() implies {
            &&& (#[trigger] views[i][j]).x == origin_of(center_x) + i
            &&& views[i][j].y == origin_of(center_y) + j
        } by {
            let k = i * VIEW_DISTANCE + j;
            assert(views[i][j] == cells@[k]@);
            assert(k / (VIEW_DISTANCE as int) == i && k % (VIEW_DISTANCE as int) == j);
        }
        assert(views[0][0] == grid@[0]@[0]@);
        assert(is_window(views, grid@[0]@[0].x, grid@[0]@[0].y));
    }
    let made = TileWindow::from_grid(grid);
    let w = made.unwrap();
    proof {
        use_type_invariant(&w);
    }
    w
}

/// Puts one more tile into the window, and finishes the window where that
/// was the last one.
fn place(center_x: i32, center_y: i32, filled: Vec<Tile>, tile: Tile) -> (out: Progress)
    requires
        center_fits(center_x),
        center_fits(center_y),
        filled@.len() < cell_count(),
        forall|k: int|
            0 <= k < filled@.len() ==> {
                &&& (#[trigger] tile_views(filled@)[k]).x == origin_of(center_x) + k / (VIEW_DISTANCE as int)
                &&& tile_views(filled@)[k].y == origin_of(center_y) + k % (VIEW_DISTANCE as int)
            },
        tile@.x == origin_of(center_x) + filled@.len() / (VIEW_DISTANCE as nat),
        tile@.y == origin_of(center_y) + filled@.len() % (VIEW_DISTANCE as nat),
    ensures
        match (out, placed(tile_views(filled@), tile@)) {
            (Progress::Pending(b), Outcome::Pending { phase, cells }) => {
                &&& b.spec_center_x() == center_x
                &&& b.spec_center_y() == center_y
                &&& b.spec_phase() == phase
                &&& b.cells() == cells
            },
            (Progress::Done(w), Outcome::Done { grid }) => {
                &&& w@ == grid
                &&& w.spec_origin_x() == origin_of(center_x)
                &&& w.spec_origin_y() == origin_of(center_y)
                &&& w.inv()
            },
            _ => false,
        },
{
    let mut cells = filled;
    cells.push(tile);
    assert(tile_views(cells@) =~= tile_views(filled@).push(tile@));
    assert forall|k: int| 0 <= k < cells@.len() implies {
        &&& (#[trigger] tile_views(cells@)[k]).x == origin_of(center_x) + k / (VIEW_DISTANCE as int)
        &&& tile_views(cells@)[k].y == origin_of(center_y) + k % (VIEW_DISTANCE as int)
    } by {
        if k < filled@.len() {
            assert(tile_views(cells@)[k] == tile_views(filled@)[k]);
        }
    }
    if cells.len() == (VIEW_DISTANCE * VIEW_DISTANCE) as usize {
        assert forall|k: int| 0 <= k < cell_count() implies {
            &&& (#[trigger] cells@[k])@.x == origin_of(center_x) + k / (VIEW_DISTANCE as int)
            &&& cells@[k]@.y == origin_of(center_y) + k % (VIEW_DISTANCE as int)
        } by {
            assert(tile_views(cells@)[k] == cells@[k]@);
        }
        Progress::Done(finish(center_x, center_y, cells))
    } else {
        Progress::Pending(WindowBuilder { center_x, center_y, phase: Phase::Probe, filled: cells })
    }
}

} // verus!
