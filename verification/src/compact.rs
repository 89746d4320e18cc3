//! The grid collision compactor.
//!
//! A level stores its solid tiles as single cells; spawning one collision
//! shape per cell would be wasteful. This module turns the set of wall cells
//! of one level partition into a much smaller list of axis-aligned
//! rectangles whose union is exactly the wall set: each row is first cut
//! into maximal horizontal runs ("plates"), then plates that reappear with
//! identical bounds on consecutive rows are merged vertically into one
//! rectangle. Two runs merge only when both bounds match exactly; a run one
//! cell wider on the next row starts a new rectangle. That exact-match rule
//! is deliberately kept even though it is not optimal, because changing it
//! would visibly change the spawned collision shapes.

use vstd::prelude::*;

verus! {

/// A grid coordinate in cell units, addressed from the bottom-left of a
/// level partition.
#[derive(Clone, Copy, Debug, PartialEq, Eq, Structural)]
pub struct GridPos {
    pub x: usize,
    pub y: usize,
}

/// A maximal horizontal run `[left, right]` (inclusive) of wall cells
/// within one row.
#[derive(Clone, Copy, Debug, PartialEq, Eq, Structural)]
pub struct Plate {
    pub left: usize,
    pub right: usize,
}

/// An axis-aligned rectangle of cells, all bounds inclusive; the output
/// unit of the compactor.
#[derive(Clone, Copy, Debug, PartialEq, Eq, Structural)]
pub struct WallRect {
    pub left: usize,
    pub right: usize,
    pub bottom: usize,
    pub top: usize,
}

/// The wall cells of one level partition, stored as a dense row-major grid.
pub struct WallGrid {
    width: usize,
    height: usize,
    cells: Vec<bool>,
}

impl WallGrid {
    /// Grid width in cells.
    pub closed spec fn spec_width(&self) -> int {
        self.width as int
    }

    /// Grid height in cells.
    pub closed spec fn spec_height(&self) -> int {
        self.height as int
    }

    /// The backing store holds one cell per coordinate.
    pub closed spec fn wf(&self) -> bool {
        self.cells@.len() == self.width * self.height
            && self.width * self.height <= usize::MAX
            && self.width < usize::MAX
            && self.height < usize::MAX
    }

    /// Whether the cell at `(x, y)` is a wall; false outside the grid.
    pub closed spec fn wall_at(&self, x: int, y: int) -> bool {
        0 <= x < self.spec_width() && 0 <= y < self.spec_height()
            && self.cells@[y * self.spec_width() + x]
    }

    /// Grid width in cells.
    pub fn width(&self) -> (w: usize)
        ensures
            w == self.spec_width(),
    {
        self.width
    }

    /// Grid height in cells.
    pub fn height(&self) -> (h: usize)
        ensures
            h == self.spec_height(),
    {
        self.height
    }

    /// An empty grid of the given dimensions.
    pub fn new(width: usize, height: usize) -> (g: WallGrid)
        requires
            width < usize::MAX,
            height < usize::MAX,
            width * height <= usize::MAX,
        ensures
            g.wf(),
            g.spec_width() == width,
            g.spec_height() == height,
            forall|x: int, y: int| !g.wall_at(x, y),
    {
        let mut cells: Vec<bool> = Vec::new();
        let total: usize = width * height;
        let mut i: usize = 0;
        while i < total
            invariant
                i <= total,
                cells@.len() == i,
                forall|k: int| 0 <= k < i ==> !cells@[k],
            decreases total - i,
        {
            cells.push(false);
            i = i + 1;
        }
        let g = WallGrid { width, height, cells };
        proof {
            assert forall|x: int, y: int| !g.wall_at(x, y) by {
                if 0 <= x < width && 0 <= y < height {
                    lemma_row_major_index(width as int, height as int, x, y);
                }
            }
        }
        g
    }

    /// Marks the cell at `p` as a wall; positions outside the grid are
    /// ignored, matching how the row scan never looks beyond the bounds.
    pub fn set_wall(&mut self, p: GridPos)
        requires
            old(self).wf(),
        ensures
            final(self).wf(),
            final(self).spec_width() == old(self).spec_width(),
            final(self).spec_height() == old(self).spec_height(),
            forall|x: int, y: int|
                final(self).wall_at(x, y) == (old(self).wall_at(x, y)
                    || (x == p.x && y == p.y && p.x < old(self).spec_width()
                        && p.y < old(self).spec_height())),
    {
        if p.x < self.width && p.y < self.height {
            proof {
                lemma_row_major_index(self.width as int, self.height as int, p.x as int, p.y as int);
            }
            let i: usize = p.y * self.width + p.x;
            self.cells.set(i, true);
            proof {
                assert forall|x: int, y: int|
                    self.wall_at(x, y) == (old(self).wall_at(x, y)
                        || (x == p.x && y == p.y && p.x < old(self).spec_width()
                            && p.y < old(self).spec_height())) by {
                    if 0 <= x < self.spec_width() && 0 <= y < self.spec_height() {
                        lemma_row_major_index(
                            self.width as int, self.height as int, x, y);
                        lemma_row_major_injective(
                            self.width as int, self.height as int, x, y, p.x as int, p.y as int);
                    }
                }
            }
        }
    }

    /// A grid with exactly the listed cells set; entries outside the
    /// dimensions are ignored.
    pub fn from_cells(width: usize, height: usize, walls: &Vec<GridPos>) -> (g: WallGrid)
        requires
            width < usize::MAX,
            height < usize::MAX,
            width * height <= usize::MAX,
        ensures
            g.wf(),
            g.spec_width() == width,
            g.spec_height() == height,
            forall|x: int, y: int|
                g.wall_at(x, y) == exists|i: int|
                    0 <= i < walls@.len() && walls@[i].x == x && walls@[i].y == y
                        && x < width && y < height,
    {
        let mut g = WallGrid::new(width, height);
        let mut i: usize = 0;
        while i < walls.len()
            invariant
                i <= walls@.len(),
                g.wf(),
                g.spec_width() == width,
                g.spec_height() == height,
                forall|x: int, y: int|
                    g.wall_at(x, y) == exists|j: int|
                        0 <= j < i && walls@[j].x == x && walls@[j].y == y
                            && x < width && y < height,
            decreases walls@.len() - i,
        {
            let ghost before = g;
            g.set_wall(walls[i]);
            proof {
                assert forall|x: int, y: int|
                    g.wall_at(x, y) == exists|j: int|
                        0 <= j < i + 1 && walls@[j].x == x && walls@[j].y == y
                            && x < width && y < height by {
                    if g.wall_at(x, y) {
                        if before.wall_at(x, y) {
                            let j = choose|j: int|
                                0 <= j < i && walls@[j].x == x && walls@[j].y == y
                                    && x < width && y < height;
                            assert(0 <= j < i + 1 && walls@[j].x == x && walls@[j].y == y
                                && x < width && y < height);
                        } else {
                            assert(walls@[i as int].x == x && walls@[i as int].y == y
                                && x < width && y < height);
                        }
                    }
                }
            }
            i = i + 1;
        }
        g
    }

    /// Whether the cell at `(x, y)` is a wall; positions at or beyond the
    /// bounds read as empty, which is what closes runs at the right edge.
    pub fn is_wall(&self, x: usize, y: usize) -> (r: bool)
        requires
            self.wf(),
        ensures
            r == self.wall_at(x as int, y as int),
    {
        if x < self.width && y < self.height {
            proof {
                lemma_row_major_index(self.width as int, self.height as int, x as int, y as int);
            }
            let i: usize = y * self.width + x;
            self.cells[i]
        } else {
            false
        }
    }
}

/// Whether the plate's column span contains column `x`.
pub open spec fn plate_covers_col(p: Plate, x: int) -> bool {
    p.left <= x <= p.right
}

/// A plate is a maximal run of wall cells of row `y`: every covered cell is
/// a wall and the cells just beyond both ends are not (the grid edge counts
/// as not a wall).
pub open spec fn plate_wf(g: WallGrid, y: int, p: Plate) -> bool {
    &&& p.left <= p.right < g.spec_width()
    &&& forall|x: int| plate_covers_col(p, x) ==> g.wall_at(x, y)
    &&& !g.wall_at(p.left - 1, y)
    &&& !g.wall_at(p.right + 1, y)
}

/// The state of the row scan at column `x`: plates emitted so far in `acc`,
/// and the start of the currently open run, if any. The scan visits columns
/// `0..=width`; reading one column past the right edge (always empty) closes
/// a run that touches the edge.
pub open spec fn plate_scan(g: WallGrid, y: int, x: int, run_start: Option<usize>, acc: Seq<Plate>) -> Seq<Plate>
    decreases g.spec_width() + 1 - x,
{
    if x < 0 || x > g.spec_width() {
        acc
    } else {
        let wall = g.wall_at(x, y);
        match run_start {
            Option::Some(s) => if !wall {
                plate_scan(g, y, x + 1, Option::None,
                    acc.push(Plate { left: s, right: (x - 1) as usize }))
            } else {
                plate_scan(g, y, x + 1, Option::Some(s), acc)
            },
            Option::None => if wall {
                plate_scan(g, y, x + 1, Option::Some(x as usize), acc)
            } else {
                plate_scan(g, y, x + 1, Option::None, acc)
            },
        }
    }
}

/// The plates of row `y`, left to right.
pub open spec fn row_plates_spec(g: WallGrid, y: int) -> Seq<Plate> {
    plate_scan(g, y, 0, Option::None, Seq::empty())
}

/// Scans one row and returns its maximal runs of wall cells, left to right.
///
/// The result is pinned to `row_plates_spec`, so two scans of the same row
/// agree; the remaining clauses characterize it: every plate is a maximal
/// run, plates are ordered with at least one empty cell between them, and
/// every wall cell of the row lies on exactly one plate.
pub fn row_plates(g: &WallGrid, y: usize) -> (plates: Vec<Plate>)
    requires
        g.wf(),
    ensures
        plates@ == row_plates_spec(*g, y as int),
        forall|i: int| 0 <= i < plates@.len() ==> plate_wf(*g, y as int, #[trigger] plates@[i]),
        forall|i: int, j: int|
            0 <= i < j < plates@.len() ==> plates@[i].right + 1 < plates@[j].left,
        forall|x: int|
            g.wall_at(x, y as int) ==> exists|i: int|
                0 <= i < plates@.len() && plate_covers_col(#[trigger] plates@[i], x),
{
    let width = g.width();
    let mut plates: Vec<Plate> = Vec::new();
    let mut run_start: Option<usize> = None;
    let mut x: usize = 0;
    while x <= width
        invariant
            g.wf(),
            width == g.spec_width(),
            x <= width + 1,
            row_plates_spec(*g, y as int) == plate_scan(*g, y as int, x as int, run_start, plates@),
            forall|i: int| 0 <= i < plates@.len() ==> plate_wf(*g, y as int, #[trigger] plates@[i]),
            forall|i: int, j: int|
                0 <= i < j < plates@.len() ==> plates@[i].right + 1 < plates@[j].left,
            forall|i: int| 0 <= i < plates@.len() ==> (#[trigger] plates@[i]).right + 1 < x,
            match run_start {
                Option::Some(s) => s < x <= width
                    && (forall|c: int| s <= c < x ==> g.wall_at(c, y as int))
                    && !g.wall_at(s - 1, y as int)
                    && (forall|i: int| 0 <= i < plates@.len() ==> (#[trigger] plates@[i]).right + 1 < s),
                Option::None => x == 0 || !g.wall_at(x - 1, y as int),
            },
            forall|c: int|
                0 <= c < x && g.wall_at(c, y as int) ==> (exists|i: int|
                    0 <= i < plates@.len() && plate_covers_col(#[trigger] plates@[i], c))
                    || (run_start matches Option::Some(s) && s <= c),
        decreases width + 1 - x,
    {
        let wall = g.is_wall(x, y);
        match run_start {
            Some(s) => {
                if !wall {
                    let ghost previous = plates@;
                    plates.push(Plate { left: s, right: x - 1 });
                    run_start = None;
                    proof {
                        assert forall|c: int|
                            0 <= c < x + 1 && g.wall_at(c, y as int) implies exists|i: int|
                                0 <= i < plates@.len()
                                    && plate_covers_col(#[trigger] plates@[i], c) by {
                            if c < s {
                                let i = choose|i: int|
                                    0 <= i < previous.len()
                                        && plate_covers_col(#[trigger] previous[i], c);
                                assert(plates@[i] == previous[i]);
                                assert(plate_covers_col(plates@[i], c));
                            } else {
                                assert(c <= x - 1);
                                assert(plate_covers_col(plates@[plates@.len() - 1], c));
                            }
                        }
                    }
                }
            },
            None => {
                if wall {
                    run_start = Some(x);
                }
            },
        }
        x = x + 1;
    }
    proof {
        if let Option::Some(s) = run_start {
            assert(g.wall_at(width as int, y as int));
            assert(false);
        }
    }
    plates
}

/// The column span of an in-progress rectangle, the key under which the
/// vertical merge looks it up.
pub open spec fn plate_of(r: WallRect) -> Plate {
    Plate { left: r.left, right: r.right }
}

/// Whether `p` occurs in the row's plate list (both bounds equal).
pub open spec fn plate_in(cur: Seq<Plate>, p: Plate) -> bool {
    exists|j: int| 0 <= j < cur.len() && cur[j] == p
}

/// The first in-progress rectangle at or after position `i` whose column
/// span equals `p`, if any.
pub open spec fn find_match_from(active: Seq<WallRect>, p: Plate, i: int) -> Option<WallRect>
    decreases active.len() - i,
{
    if i < 0 || i >= active.len() {
        Option::None
    } else if active[i].left == p.left && active[i].right == p.right {
        Option::Some(active[i])
    } else {
        find_match_from(active, p, i + 1)
    }
}

/// The first in-progress rectangle whose column span equals `p`, if any.
pub open spec fn find_match(active: Seq<WallRect>, p: Plate) -> Option<WallRect> {
    find_match_from(active, p, 0)
}

/// The in-progress rectangles among the first `n` whose plate does not
/// reappear in the current row, in their left-to-right order: these close
/// now.
pub open spec fn close_row_upto(active: Seq<WallRect>, cur: Seq<Plate>, n: int) -> Seq<WallRect>
    decreases n,
{
    if n <= 0 || n > active.len() {
        Seq::empty()
    } else {
        let pre = close_row_upto(active, cur, n - 1);
        if plate_in(cur, plate_of(active[n - 1])) {
            pre
        } else {
            pre.push(active[n - 1])
        }
    }
}

/// The rectangle that plate `p` of row `y` continues or starts: the matching
/// in-progress rectangle grown one row taller, or a fresh one-row rectangle.
pub open spec fn extend_one(active: Seq<WallRect>, p: Plate, y: usize) -> WallRect {
    match find_match(active, p) {
        Option::Some(r) => WallRect { left: r.left, right: r.right, bottom: r.bottom, top: y },
        Option::None => WallRect { left: p.left, right: p.right, bottom: y, top: y },
    }
}

/// The in-progress rectangles after absorbing row `y`, in plate order.
pub open spec fn extend_row(active: Seq<WallRect>, cur: Seq<Plate>, y: usize) -> Seq<WallRect> {
    Seq::new(cur.len(), |j: int| extend_one(active, cur[j], y))
}

/// Folds rows `y..=height` into the merge state; the synthetic empty row at
/// `height` flushes every rectangle still open.
pub open spec fn merge_rows(g: WallGrid, y: int, active: Seq<WallRect>, out: Seq<WallRect>) -> Seq<WallRect>
    decreases g.spec_height() + 1 - y,
{
    if y < 0 || y > g.spec_height() {
        out
    } else {
        let cur = if y < g.spec_height() {
            row_plates_spec(g, y)
        } else {
            Seq::<Plate>::empty()
        };
        merge_rows(
            g,
            y + 1,
            extend_row(active, cur, y as usize),
            out + close_row_upto(active, cur, active.len() as int),
        )
    }
}

/// The full compaction of a grid: rectangles in row-major order of the row
/// on which each closed, left to right within a row.
pub open spec fn compact_spec(g: WallGrid) -> Seq<WallRect> {
    merge_rows(g, 0, Seq::empty(), Seq::empty())
}

/// Whether rectangle `r` covers the cell `(x, y)`.
pub open spec fn rect_covers(r: WallRect, x: int, y: int) -> bool {
    r.left <= x <= r.right && r.bottom <= y <= r.top
}

/// Whether two rectangles share no cell.
pub open spec fn rects_disjoint(a: WallRect, b: WallRect) -> bool {
    a.right < b.left || b.right < a.left || a.top < b.bottom || b.top < a.bottom
}

/// Every cell of `r` is a wall cell of `g`.
pub open spec fn rect_walls_only(g: WallGrid, r: WallRect) -> bool {
    forall|x: int, y: int| #[trigger] rect_covers(r, x, y) ==> g.wall_at(x, y)
}

/// Some rectangle of `rs` covers the cell `(x, y)`.
pub open spec fn covers_cell(rs: Seq<WallRect>, x: int, y: int) -> bool {
    exists|i: int| 0 <= i < rs.len() && rect_covers(#[trigger] rs[i], x, y)
}

/// An in-progress rectangle while the merge stands at row `y`: a non-empty
/// span of wall cells whose top row is the row just below `y`.
spec fn active_ok(g: WallGrid, r: WallRect, y: int) -> bool {
    &&& r.left <= r.right < g.spec_width()
    &&& r.bottom <= r.top
    &&& r.top + 1 == y
    &&& rect_walls_only(g, r)
}

/// An already-emitted rectangle while the merge stands at row `y`: a
/// non-empty span of wall cells that closed on an earlier row.
spec fn emitted_ok(g: WallGrid, r: WallRect, y: int) -> bool {
    &&& r.left <= r.right < g.spec_width()
    &&& r.bottom <= r.top < y
    &&& rect_walls_only(g, r)
}

/// What a lookup result says about the scanned range: a hit is some entry
/// with the plate's bounds, a miss means no entry has them.
proof fn lemma_find_match_props(active: Seq<WallRect>, p: Plate, i: int)
    requires
        0 <= i <= active.len(),
    ensures
        match find_match_from(active, p, i) {
            Option::Some(r) => exists|k: int|
                i <= k < active.len() && #[trigger] active[k] == r && r.left == p.left
                    && r.right == p.right,
            Option::None => forall|k: int|
                i <= k < active.len()
                    ==> !((#[trigger] active[k]).left == p.left && active[k].right == p.right),
        },
    decreases active.len() - i,
{
    if i < active.len() {
        if active[i].left == p.left && active[i].right == p.right {
            assert(active[i] == active[i] && active[i].left == p.left
                && active[i].right == p.right);
        } else {
            lemma_find_match_props(active, p, i + 1);
        }
    }
}

/// Compaction is deterministic: any two rectangle lists produced from the
/// same grid — `compact_walls` pins its result to `compact_spec` — are equal
/// element for element, in the same order.
pub proof fn lemma_compaction_deterministic(g: WallGrid, r1: Seq<WallRect>, r2: Seq<WallRect>)
    requires
        r1 == compact_spec(g),
        r2 == compact_spec(g),
    ensures
        r1 == r2,
{
}

/// Linear search for a plate with exactly the given bounds.
fn contains_plate(cur: &Vec<Plate>, left: usize, right: usize) -> (r: bool)
    ensures
        r == plate_in(cur@, Plate { left, right }),
{
    let mut j: usize = 0;
    while j < cur.len()
        invariant
            j <= cur@.len(),
            forall|k: int| 0 <= k < j ==> cur@[k] != (Plate { left, right }),
        decreases cur@.len() - j,
    {
        if cur[j].left == left && cur[j].right == right {
            assert(cur@[j as int] == (Plate { left, right }));
            return true;
        }
        j = j + 1;
    }
    false
}

/// Linear search for the first in-progress rectangle with the plate's
/// bounds.
fn find_rect(active: &Vec<WallRect>, p: Plate) -> (r: Option<WallRect>)
    ensures
        r == find_match(active@, p),
{
    let mut i: usize = 0;
    while i < active.len()
        invariant
            i <= active@.len(),
            find_match(active@, p) == find_match_from(active@, p, i as int),
        decreases active@.len() - i,
    {
        if active[i].left == p.left && active[i].right == p.right {
            return Some(active[i]);
        }
        i = i + 1;
    }
    None
}

/// Emits, in their left-to-right order, the in-progress rectangles whose
/// plate does not reappear in the current row.
#[verifier::rlimit(60)]
fn close_row_pass(out: &mut Vec<WallRect>, active: &Vec<WallRect>, cur: &Vec<Plate>)
    requires
        forall|a: int, b: int|
            0 <= a < b < active@.len()
                ==> (#[trigger] active@[a]).right < (#[trigger] active@[b]).left,
    ensures
        final(out)@ == old(out)@ + close_row_upto(active@, cur@, active@.len() as int),
        forall|k: int| 0 <= k < old(out)@.len() ==> final(out)@[k] == old(out)@[k],
        forall|k: int|
            old(out)@.len() <= k < final(out)@.len() ==> exists|t: int|
                0 <= t < active@.len() && #[trigger] final(out)@[k] == active@[t]
                    && !plate_in(cur@, plate_of(active@[t])),
        forall|a: int, b: int|
            old(out)@.len() <= a < b < final(out)@.len()
                ==> (#[trigger] final(out)@[a]).right < (#[trigger] final(out)@[b]).left,
        forall|t: int|
            0 <= t < active@.len() && !plate_in(cur@, plate_of(#[trigger] active@[t]))
                ==> exists|k: int|
                    old(out)@.len() <= k < final(out)@.len() && final(out)@[k] == active@[t],
{
    let ghost entry_out = out@;
    let mut i: usize = 0;
    while i < active.len()
        invariant
            forall|a: int, b: int|
                0 <= a < b < active@.len()
                    ==> (#[trigger] active@[a]).right < (#[trigger] active@[b]).left,
            i <= active@.len(),
            out@ == entry_out + close_row_upto(active@, cur@, i as int),
            forall|k: int| 0 <= k < entry_out.len() ==> out@[k] == entry_out[k],
            forall|k: int|
                entry_out.len() <= k < out@.len() ==> exists|t: int|
                    0 <= t < i && #[trigger] out@[k] == active@[t]
                        && !plate_in(cur@, plate_of(active@[t])),
            forall|a: int, b: int|
                entry_out.len() <= a < b < out@.len()
                    ==> (#[trigger] out@[a]).right < (#[trigger] out@[b]).left,
            forall|t: int|
                0 <= t < i && !plate_in(cur@, plate_of(#[trigger] active@[t]))
                    ==> exists|k: int|
                        entry_out.len() <= k < out@.len() && out@[k] == active@[t],
        decreases active@.len() - i,
    {
        let ghost out_before = out@;
        let pushed = !contains_plate(&cur, active[i].left, active[i].right);
        if pushed {
            proof {
                assert(plate_of(active@[i as int])
                    == (Plate { left: active@[i as int].left, right: active@[i as int].right }));
            }
            out.push(active[i]);
        }
        i = i + 1;
        proof {
            assert(out@ =~= entry_out + close_row_upto(active@, cur@, i as int));
            assert forall|k: int|
                entry_out.len() <= k < out@.len() implies exists|t: int|
                    0 <= t < i && #[trigger] out@[k] == active@[t]
                        && !plate_in(cur@, plate_of(active@[t])) by {
                if k < out_before.len() {
                    assert(out@[k] == out_before[k]);
                    let t = choose|t: int|
                        0 <= t < i - 1 && #[trigger] out_before[k] == active@[t]
                            && !plate_in(cur@, plate_of(active@[t]));
                    assert(0 <= t < i && out@[k] == active@[t]
                        && !plate_in(cur@, plate_of(active@[t])));
                } else {
                    assert(out@[k] == active@[i - 1]);
                }
            }
            assert forall|a: int, b: int|
                entry_out.len() <= a < b < out@.len() implies (#[trigger] out@[a]).right
                    < (#[trigger] out@[b]).left by {
                if b < out_before.len() {
                    assert(out@[a] == out_before[a] && out@[b] == out_before[b]);
                } else {
                    assert(out@[b] == active@[i - 1]);
                    assert(out@[a] == out_before[a]);
                    let t = choose|t: int|
                        0 <= t < i - 1 && #[trigger] out_before[a] == active@[t]
                            && !plate_in(cur@, plate_of(active@[t]));
                    assert(active@[t].right < active@[i - 1].left);
                }
            }
            assert forall|t: int|
                0 <= t < i && !plate_in(cur@, plate_of(#[trigger] active@[t]))
                    implies exists|k: int|
                        entry_out.len() <= k < out@.len() && out@[k] == active@[t] by {
                if t == i - 1 {
                    assert(out@[out_before.len() as int] == active@[i - 1]);
                } else {
                    let k = choose|k: int|
                        entry_out.len() <= k < out_before.len() && out_before[k] == active@[t];
                    assert(out@[k] == active@[t]);
                }
            }
        }
    }
}

/// Builds the next row's in-progress rectangles: each plate continues the
/// unique rectangle with its bounds, or starts a fresh one-row rectangle.
#[verifier::rlimit(60)]
fn extend_row_pass(active: &Vec<WallRect>, cur: &Vec<Plate>, y: usize) -> (next: Vec<WallRect>)
    requires
        forall|a: int, b: int|
            0 <= a < b < active@.len()
                ==> (#[trigger] active@[a]).right < (#[trigger] active@[b]).left,
        forall|t: int| 0 <= t < active@.len() ==> (#[trigger] active@[t]).bottom <= y,
        forall|t: int|
            0 <= t < active@.len() ==> (#[trigger] active@[t]).left <= active@[t].right,
    ensures
        next@ == extend_row(active@, cur@, y),
        next@.len() == cur@.len(),
        forall|k: int|
            0 <= k < next@.len() ==> (#[trigger] next@[k]).left == cur@[k].left
                && next@[k].right == cur@[k].right && next@[k].top == y
                && next@[k].bottom <= y,
        forall|k: int|
            0 <= k < next@.len() ==> (#[trigger] next@[k]).bottom == y || exists|t: int|
                0 <= t < active@.len() && #[trigger] active@[t].left == cur@[k].left
                    && active@[t].right == cur@[k].right
                    && next@[k].bottom == active@[t].bottom,
        forall|k: int, t: int|
            0 <= k < next@.len() && 0 <= t < active@.len()
                && (#[trigger] active@[t]).left == (#[trigger] cur@[k]).left
                && active@[t].right == cur@[k].right
                ==> next@[k].bottom == active@[t].bottom,
{
    let mut next: Vec<WallRect> = Vec::new();
    let mut j: usize = 0;
    #[verifier::loop_isolation(false)]
    while j < cur.len()
        invariant
            j <= cur@.len(),
            next@.len() == j,
            forall|k: int| 0 <= k < j ==> next@[k] == extend_one(active@, cur@[k], y),
            forall|k: int|
                0 <= k < j ==> (#[trigger] next@[k]).left == cur@[k].left
                    && next@[k].right == cur@[k].right && next@[k].top == y
                    && next@[k].bottom <= y,
            forall|k: int|
                0 <= k < j ==> (#[trigger] next@[k]).bottom == y || exists|t: int|
                    0 <= t < active@.len() && #[trigger] active@[t].left == cur@[k].left
                        && active@[t].right == cur@[k].right
                        && next@[k].bottom == active@[t].bottom,
            forall|k: int, t: int|
                0 <= k < j && 0 <= t < active@.len()
                    && (#[trigger] active@[t]).left == (#[trigger] cur@[k]).left
                    && active@[t].right == cur@[k].right
                    ==> next@[k].bottom == active@[t].bottom,
        decreases cur@.len() - j,
    {
        let p = cur[j];
        proof {
            lemma_find_match_props(active@, p, 0);
        }
        match find_rect(&active, p) {
            Some(r) => {
                proof {
                    let k = choose|k: int|
                        0 <= k < active@.len() && #[trigger] active@[k] == r && r.left == p.left
                            && r.right == p.right;
                    assert forall|t: int|
                        0 <= t < active@.len() && (#[trigger] active@[t]).left == p.left
                            && active@[t].right == p.right implies active@[t].bottom
                            == r.bottom by {
                        if t < k {
                            assert(active@[t].right < active@[k].left);
                        } else if k < t {
                            assert(active@[k].right < active@[t].left);
                        }
                    }
                    assert(r.bottom <= y);
                }
                next.push(WallRect { left: r.left, right: r.right, bottom: r.bottom, top: y });
            },
            None => {
                next.push(WallRect { left: p.left, right: p.right, bottom: y, top: y });
            },
        }
        j = j + 1;
    }
    next
}

/// Converts the wall cells of a grid into collision rectangles.
///
/// Rows are scanned bottom row first; an in-progress rectangle grows upward
/// while its plate reappears with identical bounds, and closes (and is
/// emitted) on the first row where it does not. The result is pinned to
/// `compact_spec`, so identical grids give identical lists in identical
/// order; the remaining clauses say that the rectangles tile the wall set:
/// together they cover exactly the wall cells, no two of them overlap, and
/// none is empty.
#[verifier::rlimit(100)]
pub fn compact_walls(g: &WallGrid) -> (rects: Vec<WallRect>)
    requires
        g.wf(),
    ensures
        rects@ == compact_spec(*g),
        forall|x: int, yy: int| covers_cell(rects@, x, yy) <==> g.wall_at(x, yy),
        forall|a: int, b: int|
            0 <= a < b < rects@.len()
                ==> rects_disjoint(#[trigger] rects@[a], #[trigger] rects@[b]),
        forall|k: int|
            0 <= k < rects@.len() ==> (#[trigger] rects@[k]).left <= rects@[k].right
                && rects@[k].bottom <= rects@[k].top,
{
    let height = g.height();
    let mut out: Vec<WallRect> = Vec::new();
    let mut active: Vec<WallRect> = Vec::new();
    let mut y: usize = 0;
    while y <= height
        invariant
            g.wf(),
            height == g.spec_height(),
            y <= height + 1,
            compact_spec(*g) == merge_rows(*g, y as int, active@, out@),
            forall|k: int|
                0 <= k < active@.len() ==> active_ok(*g, #[trigger] active@[k], y as int),
            forall|a: int, b: int|
                0 <= a < b < active@.len()
                    ==> (#[trigger] active@[a]).right < (#[trigger] active@[b]).left,
            forall|k: int| 0 <= k < out@.len() ==> emitted_ok(*g, #[trigger] out@[k], y as int),
            forall|a: int, b: int|
                0 <= a < b < out@.len() ==> rects_disjoint(#[trigger] out@[a], #[trigger] out@[b]),
            forall|a: int, k: int|
                0 <= a < out@.len() && 0 <= k < active@.len()
                    ==> rects_disjoint(#[trigger] out@[a], #[trigger] active@[k]),
            forall|x: int, r: int|
                0 <= r < y && #[trigger] g.wall_at(x, r)
                    ==> covers_cell(out@, x, r) || covers_cell(active@, x, r),
            y == height + 1 ==> active@.len() == 0,
        decreases height + 1 - y,
    {
        let cur: Vec<Plate> = if y < height {
            row_plates(g, y)
        } else {
            Vec::new()
        };
        let ghost entry_out = out@;
        let ghost av = active@;

        close_row_pass(&mut out, &active, &cur);

        // Everything emitted so far is a finished span of wall cells, and
        // emitted rectangles stay pairwise disjoint.
        proof {
            assert forall|k: int|
                0 <= k < out@.len() implies emitted_ok(*g, #[trigger] out@[k], y as int) by {
                if k < entry_out.len() {
                    assert(out@[k] == entry_out[k]);
                } else {
                    let t = choose|t: int|
                        0 <= t < av.len() && #[trigger] out@[k] == av[t]
                            && !plate_in(cur@, plate_of(av[t]));
                    assert(active_ok(*g, av[t], y as int));
                }
            }
            assert forall|a: int, b: int|
                0 <= a < b < out@.len() implies rects_disjoint(
                #[trigger] out@[a],
                #[trigger] out@[b],
            ) by {
                if b < entry_out.len() {
                    assert(out@[a] == entry_out[a] && out@[b] == entry_out[b]);
                } else if a < entry_out.len() {
                    assert(out@[a] == entry_out[a]);
                    let t = choose|t: int|
                        0 <= t < av.len() && #[trigger] out@[b] == av[t]
                            && !plate_in(cur@, plate_of(av[t]));
                    assert(rects_disjoint(entry_out[a], av[t]));
                }
            }
        }

        let next_active = extend_row_pass(&active, &cur, y);

        proof {
            let na = next_active@;
            // The new in-progress rectangles satisfy the shape invariants.
            assert forall|k: int|
                0 <= k < na.len() implies active_ok(*g, #[trigger] na[k], y as int + 1) by {
                assert(plate_wf(*g, y as int, cur@[k]));
                assert forall|xx: int, rr: int|
                    #[trigger] rect_covers(na[k], xx, rr) implies g.wall_at(xx, rr) by {
                    if rr == y {
                        assert(plate_covers_col(cur@[k], xx));
                    } else {
                        assert(na[k].bottom <= rr <= y - 1);
                        let t = choose|t: int|
                            0 <= t < av.len() && #[trigger] av[t].left == cur@[k].left
                                && av[t].right == cur@[k].right && na[k].bottom == av[t].bottom;
                        assert(active_ok(*g, av[t], y as int));
                        assert(rect_covers(av[t], xx, rr));
                    }
                }
            }
            assert forall|a: int, b: int|
                0 <= a < b < na.len() implies (#[trigger] na[a]).right < (#[trigger] na[b]).left by {
                assert(cur@[a].right + 1 < cur@[b].left);
            }
            // Emitted rectangles are disjoint from every new in-progress one.
            assert forall|a: int, k: int|
                0 <= a < out@.len() && 0 <= k < na.len() implies rects_disjoint(
                #[trigger] out@[a],
                #[trigger] na[k],
            ) by {
                assert(emitted_ok(*g, out@[a], y as int));
                if na[k].bottom < y {
                    let t = choose|t: int|
                        0 <= t < av.len() && #[trigger] av[t].left == cur@[k].left
                            && av[t].right == cur@[k].right && na[k].bottom == av[t].bottom;
                    assert(active_ok(*g, av[t], y as int));
                    if a < entry_out.len() {
                        assert(out@[a] == entry_out[a]);
                        assert(rects_disjoint(entry_out[a], av[t]));
                    } else {
                        let u = choose|u: int|
                            0 <= u < av.len() && #[trigger] out@[a] == av[u]
                                && !plate_in(cur@, plate_of(av[u]));
                        assert(plate_of(av[t]) == cur@[k as int]);
                        assert(plate_in(cur@, plate_of(av[t])));
                        assert(av[u] != av[t]);
                        if u < t {
                            assert(av[u].right < av[t].left);
                        } else if t < u {
                            assert(av[t].right < av[u].left);
                        } else {
                            assert(false);
                        }
                    }
                }
            }
            // Every wall cell below the next row stays covered.
            assert forall|x: int, r: int|
                0 <= r < y + 1 && #[trigger] g.wall_at(x, r) implies covers_cell(out@, x, r)
                    || covers_cell(na, x, r) by {
                if r < y {
                    if covers_cell(entry_out, x, r) {
                        let a = choose|a: int|
                            0 <= a < entry_out.len() && rect_covers(#[trigger] entry_out[a], x, r);
                        assert(out@[a] == entry_out[a]);
                        assert(rect_covers(out@[a], x, r));
                        assert(covers_cell(out@, x, r));
                    } else {
                        assert(covers_cell(av, x, r));
                        let idx = choose|idx: int|
                            0 <= idx < av.len() && rect_covers(#[trigger] av[idx], x, r);
                        let ri = av[idx];
                        if plate_in(cur@, plate_of(ri)) {
                            let b = choose|b: int| 0 <= b < cur@.len() && cur@[b] == plate_of(ri);
                            assert(av[idx].left == cur@[b].left
                                && av[idx].right == cur@[b].right);
                            assert(na[b].bottom == ri.bottom);
                            assert(na[b].left == ri.left && na[b].right == ri.right
                                && na[b].top == y);
                            assert(rect_covers(na[b], x, r));
                            assert(covers_cell(na, x, r));
                        } else {
                            let k = choose|k: int|
                                entry_out.len() <= k < out@.len() && out@[k] == av[idx];
                            assert(rect_covers(out@[k], x, r));
                            assert(covers_cell(out@, x, r));
                        }
                    }
                } else {
                    assert(r == y && g.wall_at(x, y as int));
                    assert(y < height);
                    let b = choose|b: int|
                        0 <= b < cur@.len() && plate_covers_col(#[trigger] cur@[b], x);
                    assert(rect_covers(na[b], x, r));
                    assert(covers_cell(na, x, r));
                }
            }
            // One unfolding of the merge recursion matches what this pass did.
            assert(na =~= extend_row(av, cur@, y));
            if y == height {
                assert(cur@ =~= Seq::<Plate>::empty());
            }
            assert(merge_rows(*g, y as int, av, entry_out) == merge_rows(
                *g,
                y as int + 1,
                extend_row(av, cur@, y),
                entry_out + close_row_upto(av, cur@, av.len() as int),
            ));
        }
        active = next_active;
        y = y + 1;
    }
    proof {
        assert(merge_rows(*g, y as int, active@, out@) == out@);
        assert forall|x: int, yy: int| covers_cell(out@, x, yy) <==> g.wall_at(x, yy) by {
            if covers_cell(out@, x, yy) {
                let k = choose|k: int| 0 <= k < out@.len() && rect_covers(#[trigger] out@[k], x, yy);
                assert(emitted_ok(*g, out@[k], y as int));
                assert(g.wall_at(x, yy));
            }
            if g.wall_at(x, yy) {
                assert(0 <= yy < g.spec_height());
                assert(covers_cell(out@, x, yy) || covers_cell(active@, x, yy));
                if covers_cell(active@, x, yy) {
                    let k = choose|k: int|
                        0 <= k < active@.len() && rect_covers(#[trigger] active@[k], x, yy);
                    assert(false);
                }
            }
        }
    }
    out
}

/// The row-major index of an in-bounds cell stays within the store.
proof fn lemma_row_major_index(w: int, h: int, x: int, y: int)
    requires
        0 <= x < w,
        0 <= y < h,
    ensures
        0 <= y * w + x < w * h,
{
    assert(y * w + x < w * h) by (nonlinear_arith)
        requires
            0 <= x < w,
            0 <= y < h,
    ;
    assert(0 <= y * w) by (nonlinear_arith)
        requires
            0 <= y,
            0 < w,
    ;
}

/// Distinct in-bounds cells get distinct row-major indices.
proof fn lemma_row_major_injective(w: int, h: int, x1: int, y1: int, x2: int, y2: int)
    requires
        0 <= x1 < w,
        0 <= y1 < h,
        0 <= x2 < w,
        0 <= y2 < h,
    ensures
        (y1 * w + x1 == y2 * w + x2) ==> (x1 == x2 && y1 == y2),
{
    if y1 * w + x1 == y2 * w + x2 && (x1 != x2 || y1 != y2) {
        assert(false) by (nonlinear_arith)
            requires
                0 <= x1 < w,
                0 <= x2 < w,
                y1 * w + x1 == y2 * w + x2,
                x1 != x2 || y1 != y2,
        ;
    }
}

} // verus!
