use vstd::prelude::*;

use crate::cell::{Cell, Kind};
use crate::rng::{coin_flip, random_below};
use vstd::pervasive::VecAdditionalExecFns;

verus! {

/// One line of the scene design grammar: five segment widths given as
/// percentages of the terminal width, in the fixed order land, river, land,
/// river, land, followed by the number of terrain rows generated from the
/// line (the "part height"). A percentage is stored in hundredths of a
/// percent, so `4050` stands for `40.5%`.
#[derive(Clone, Copy, PartialEq, Eq, Structural, Debug)]
pub struct DesignLine {
    pub land1: u32,
    pub river1: u32,
    pub land2: u32,
    pub river2: u32,
    pub land3: u32,
    pub part_height: usize,
}

/// How many cells a percentage covers on a terminal of the given width:
/// `floor(percent * width / 100)`, with the percentage in hundredths.
pub open spec fn percent_cells(percent_hundredths: u32, terminal_width: u16) -> int {
    (percent_hundredths * terminal_width) / 10000
}

impl DesignLine {
    /// First land segment width, in cells.
    pub open spec fn seg1(self, w: u16) -> int {
        percent_cells(self.land1, w)
    }

    /// First river segment width, in cells.
    pub open spec fn seg2(self, w: u16) -> int {
        percent_cells(self.river1, w)
    }

    /// Second land segment width, in cells.
    pub open spec fn seg3(self, w: u16) -> int {
        percent_cells(self.land2, w)
    }

    /// Second river segment width, in cells.
    pub open spec fn seg4(self, w: u16) -> int {
        percent_cells(self.river2, w)
    }

    /// The five floored widths together, before the rounding correction.
    pub open spec fn floors_total(self, w: u16) -> int {
        self.seg1(w) + self.seg2(w) + self.seg3(w) + self.seg4(w) + percent_cells(self.land3, w)
    }

    /// Last land segment width, in cells: the floored width plus whatever
    /// the flooring of the five percentages left short of the terminal
    /// width. The shortfall is only ever added here, never subtracted.
    pub open spec fn seg5(self, w: u16) -> int {
        percent_cells(self.land3, w) + if self.floors_total(w) < w {
            w - self.floors_total(w)
        } else {
            0
        }
    }

    /// The design line's required input invariant: each percentage is at
    /// most 100%, and the floored widths do not overshoot the terminal.
    pub open spec fn wf_for_width(self, w: u16) -> bool {
        &&& self.land1 <= 10000
        &&& self.river1 <= 10000
        &&& self.land2 <= 10000
        &&& self.river2 <= 10000
        &&& self.land3 <= 10000
        &&& self.floors_total(w) <= w
    }
}

/// A run of `n` identical cells.
pub open spec fn segment(kind: Kind, n: int) -> Seq<Cell> {
    Seq::new(n as nat, |i: int| Cell { kind })
}

/// The row a design line denotes: the five segments concatenated in the
/// fixed order land, river, land, river, land.
pub open spec fn line_spec(d: DesignLine, w: u16) -> Seq<Cell> {
    segment(Kind::Land, d.seg1(w)) + segment(Kind::River, d.seg2(w)) + segment(
        Kind::Land,
        d.seg3(w),
    ) + segment(Kind::River, d.seg4(w)) + segment(Kind::Land, d.seg5(w))
}

/// The five generated segment counts always sum exactly to the terminal
/// width: the rounding shortfall lands in the final land segment, which is
/// never made smaller than its floored width.
pub proof fn lemma_segments_fill_width(d: DesignLine, w: u16)
    requires
        d.wf_for_width(w),
    ensures
        d.seg1(w) + d.seg2(w) + d.seg3(w) + d.seg4(w) + d.seg5(w) == w,
        d.seg5(w) >= percent_cells(d.land3, w),
        line_spec(d, w).len() == w,
{
}

/// A terrain row carries no enemies straight out of the grammar: every cell
/// of the denoted row is land or river.
pub proof fn lemma_line_spec_no_enemy(d: DesignLine, w: u16)
    ensures
        forall|j: int|
            0 <= j < line_spec(d, w).len() ==> (#[trigger] line_spec(d, w)[j]).kind != Kind::Enemy,
{
}

/// Converts a percentage of the terminal width to a cell count.
pub fn percent_to_terminal_size(percent_hundredths: u32, terminal_width: u16) -> (r: usize)
    requires
        percent_hundredths <= 10000,
    ensures
        r == percent_cells(percent_hundredths, terminal_width),
        r <= terminal_width,
{
    proof {
        vstd::arithmetic::mul::lemma_mul_upper_bound(
            percent_hundredths as int,
            10000,
            terminal_width as int,
            65535,
        );
    }
    let p: u64 = percent_hundredths as u64 * terminal_width as u64;
    assert(p / 10000 <= terminal_width) by {
        vstd::arithmetic::mul::lemma_mul_upper_bound(
            percent_hundredths as int,
            10000,
            terminal_width as int,
            terminal_width as int,
        );
        vstd::arithmetic::div_mod::lemma_div_is_ordered(
            p as int,
            10000 * terminal_width as int,
            10000,
        );
        vstd::arithmetic::div_mod::lemma_div_by_multiple(terminal_width as int, 10000);
    };
    (p / 10000) as usize
}

/// Builds the row a design line denotes, and hands back the line's part
/// height beside it. The five percentages become floored cell counts; the
/// rounding shortfall is added to the last land segment, so the row always
/// spans the terminal exactly.
pub fn generate_line(design: &DesignLine, terminal_width: u16) -> (r: (Vec<Cell>, usize))
    requires
        design.wf_for_width(terminal_width),
    ensures
        r.0@ == line_spec(*design, terminal_width),
        r.0@.len() == terminal_width,
        r.1 == design.part_height,
{
    let land_part_one_size = percent_to_terminal_size(design.land1, terminal_width);
    let river_part_one_size = percent_to_terminal_size(design.river1, terminal_width);
    let land_part_two_size = percent_to_terminal_size(design.land2, terminal_width);
    let river_part_two_size = percent_to_terminal_size(design.river2, terminal_width);
    let mut land_part_three_size = percent_to_terminal_size(design.land3, terminal_width);
    let total_size = land_part_one_size + river_part_one_size + land_part_two_size
        + river_part_two_size + land_part_three_size;
    if total_size < terminal_width as usize {
        land_part_three_size = land_part_three_size + (terminal_width as usize - total_size);
    }

    let mut v = Cell::create_cells_vec(land_part_one_size, Kind::Land);
    let mut river_part_one = Cell::create_cells_vec(river_part_one_size, Kind::River);
    let mut land_part_two = Cell::create_cells_vec(land_part_two_size, Kind::Land);
    let mut river_part_two = Cell::create_cells_vec(river_part_two_size, Kind::River);
    let mut land_part_three = Cell::create_cells_vec(land_part_three_size, Kind::Land);

    v.append(&mut river_part_one);
    v.append(&mut land_part_two);
    v.append(&mut river_part_two);
    v.append(&mut land_part_three);

    proof {
        assert(v@ =~= line_spec(*design, terminal_width));
        lemma_segments_fill_width(*design, terminal_width);
    }
    (v, design.part_height)
}

/// What replicating a base row may produce: either the base row untouched,
/// or the base row with exactly one river-typed cell turned into an enemy.
pub open spec fn row_from_base(base: Seq<Cell>, row: Seq<Cell>) -> bool {
    ||| row == base
    ||| exists|j: int|
        0 <= j < base.len() && base[j].kind == Kind::River && row == base.update(
            j,
            Cell { kind: Kind::Enemy },
        )
}

/// Enemies only ever stand where the base row had river: wherever a
/// replicated row shows an enemy, the row it was copied from had a
/// river-typed cell, never land.
pub proof fn lemma_enemy_only_on_river(base: Seq<Cell>, row: Seq<Cell>)
    requires
        row_from_base(base, row),
        forall|j: int| 0 <= j < base.len() ==> (#[trigger] base[j]).kind != Kind::Enemy,
    ensures
        row.len() == base.len(),
        forall|j: int|
            0 <= j < row.len() && (#[trigger] row[j]).kind == Kind::Enemy ==> base[j].kind
                == Kind::River,
{
}

/// Replicates a base row `height` times to form one terrain part. With
/// `with_enemy` set, each copy independently gets a coin flip's chance of
/// holding exactly one enemy, at a randomly picked river-typed column; a
/// row without river keeps no place for one and stays untouched, as does
/// every row when `with_enemy` is unset.
pub fn generate_with_height(line: &Vec<Cell>, height: usize, with_enemy: bool) -> (part: Vec<
    Vec<Cell>,
>)
    ensures
        part@.len() == height,
        forall|i: int| 0 <= i < height ==> row_from_base(line@, (#[trigger] part@[i])@),
        !with_enemy ==> forall|i: int| 0 <= i < height ==> (#[trigger] part@[i])@ == line@,
{
    let mut result: Vec<Vec<Cell>> = Vec::new();
    if with_enemy {
        let mut river_indexes: Vec<usize> = Vec::new();
        let mut c: usize = 0;
        while c < line.len()
            invariant
                c <= line@.len(),
                forall|k: int|
                    0 <= k < river_indexes@.len() ==> (#[trigger] river_indexes@[k]) < line@.len()
                        && line@[river_indexes@[k] as int].kind == Kind::River,
            decreases line@.len() - c,
        {
            if line[c].kind == Kind::River {
                river_indexes.push(c);
            }
            c = c + 1;
        }

        let mut n: usize = 0;
        while n < height
            invariant
                n <= height,
                result@.len() == n,
                forall|k: int|
                    0 <= k < river_indexes@.len() ==> (#[trigger] river_indexes@[k]) < line@.len()
                        && line@[river_indexes@[k] as int].kind == Kind::River,
                forall|i: int| 0 <= i < n ==> row_from_base(line@, (#[trigger] result@[i])@),
            decreases height - n,
        {
            let mut row = clone_row(line);
            if river_indexes.len() > 0 && coin_flip() {
                let enemy_index = river_indexes[random_below(river_indexes.len())];
                row.set(enemy_index, Cell { kind: Kind::Enemy });
                proof {
                    assert(row@ == line@.update(enemy_index as int, Cell { kind: Kind::Enemy }));
                }
            }
            result.push(row);
            n = n + 1;
        }
    } else {
        let mut n: usize = 0;
        while n < height
            invariant
                n <= height,
                result@.len() == n,
                forall|i: int| 0 <= i < n ==> (#[trigger] result@[i])@ == line@,
            decreases height - n,
        {
            result.push(clone_row(line));
            n = n + 1;
        }
    }
    result
}

/// A copy of one terrain row, cell for cell.
fn clone_row(r: &Vec<Cell>) -> (c: Vec<Cell>)
    ensures
        c@ == r@,
{
    let c = r.clone();
    proof {
        assert(c@ =~= r@);
    }
    c
}

/// The number of terrain rows a run of design lines generates: the sum of
/// their part heights.
pub open spec fn heights_sum(ds: Seq<DesignLine>) -> int
    decreases ds.len(),
{
    if ds.len() == 0 {
        0
    } else {
        heights_sum(ds.drop_last()) + ds.last().part_height
    }
}

/// Part heights are never negative, so neither is their sum.
pub proof fn lemma_heights_sum_nonneg(ds: Seq<DesignLine>)
    ensures
        heights_sum(ds) >= 0,
    decreases ds.len(),
{
    if ds.len() > 0 {
        lemma_heights_sum_nonneg(ds.drop_last());
    }
}

/// Taking one more design line adds exactly that line's part height.
pub proof fn lemma_heights_sum_take_step(ds: Seq<DesignLine>, k: int)
    requires
        0 <= k < ds.len(),
    ensures
        heights_sum(ds.take(k + 1)) == heights_sum(ds.take(k)) + ds[k].part_height,
{
    assert(ds.take(k + 1).drop_last() =~= ds.take(k));
    assert(ds.take(k + 1).last() == ds[k]);
}

/// Prefix sums of part heights grow with the prefix.
pub proof fn lemma_heights_sum_take_le(ds: Seq<DesignLine>, a: int, b: int)
    requires
        0 <= a <= b <= ds.len(),
    ensures
        heights_sum(ds.take(a)) <= heights_sum(ds.take(b)),
    decreases b - a,
{
    if a < b {
        lemma_heights_sum_take_le(ds, a, b - 1);
        lemma_heights_sum_take_step(ds, b - 1);
    }
}

/// Where part `k` starts inside the generated terrain: all the part heights
/// before it, summed.
pub open spec fn part_start(ds: Seq<DesignLine>, k: int) -> int {
    heights_sum(ds.take(k))
}

/// What `Scene::make` guarantees of the generated terrain, row by row:
/// every row of part `k` was replicated from design line `k`'s denoted row,
/// at most one river cell per copy turned into an enemy, and the first
/// part's rows are the denoted row untouched.
pub open spec fn scene_ok(ds: Seq<DesignLine>, w: u16, grid: Seq<Seq<Cell>>) -> bool {
    &&& grid.len() == heights_sum(ds)
    &&& forall|k: int, i: int|
        0 <= k < ds.len() && 0 <= i < ds[k].part_height ==> #[trigger] part_row_ok(
            ds,
            w,
            grid,
            k,
            i,
        )
}

/// Row `i` of part `k` is properly generated from design line `k`.
pub open spec fn part_row_ok(ds: Seq<DesignLine>, w: u16, grid: Seq<Seq<Cell>>, k: int, i: int) -> bool {
    &&& row_from_base(line_spec(ds[k], w), grid[part_start(ds, k) + i])
    &&& k == 0 ==> grid[part_start(ds, k) + i] == line_spec(ds[k], w)
}

/// The first generated terrain part never holds an enemy cell: its rows are
/// the first design line's denoted row untouched, which is land and river
/// only.
pub proof fn lemma_first_part_no_enemy(ds: Seq<DesignLine>, w: u16, grid: Seq<Seq<Cell>>)
    requires
        scene_ok(ds, w, grid),
        ds.len() > 0,
    ensures
        forall|i: int, j: int|
            0 <= i < ds[0].part_height && 0 <= j < grid[i].len() ==> (#[trigger] grid[i][j]).kind
                != Kind::Enemy,
{
    assert(ds.take(0) =~= Seq::<DesignLine>::empty());
    assert forall|i: int, j: int|
        0 <= i < ds[0].part_height && 0 <= j < grid[i].len() implies (#[trigger] grid[i][j]).kind
        != Kind::Enemy by {
        assert(part_row_ok(ds, w, grid, 0, i));
        assert(grid[i] == line_spec(ds[0], w));
        lemma_line_spec_no_enemy(ds[0], w);
    }
}

/// The rows of a terrain, each seen as a sequence of cells.
pub open spec fn grid_of(rows: Seq<Vec<Cell>>) -> Seq<Seq<Cell>> {
    Seq::new(rows.len(), |i: int| rows[i]@)
}

/// The full generated terrain: a fixed ordered run of rows, treated as a
/// ring by the windowed reads that scrolling performs.
pub struct Scene {
    pub rows: Vec<Vec<Cell>>,
}

impl Scene {
    /// The terrain as a sequence of rows of cells.
    pub open spec fn grid(self) -> Seq<Seq<Cell>> {
        grid_of(self.rows@)
    }

    /// Every row spans the same width.
    pub open spec fn wf(self) -> bool {
        forall|i: int|
            0 <= i < self.grid().len() ==> (#[trigger] self.grid()[i]).len() == self.width()
    }

    /// How many rows the terrain holds.
    pub open spec fn height(self) -> nat {
        self.grid().len()
    }

    /// The width rows were generated at.
    pub open spec fn width(self) -> nat {
        if self.grid().len() == 0 {
            0
        } else {
            self.grid()[0].len()
        }
    }

    /// Builds the whole terrain from the design lines: each line's denoted
    /// row, replicated part-height times, parts concatenated in order, with
    /// enemies seeded into every part but the first.
    pub fn make(designs: &Vec<DesignLine>, terminal_width: u16) -> (scene: Scene)
        requires
            forall|k: int|
                0 <= k < designs@.len() ==> (#[trigger] designs@[k]).wf_for_width(terminal_width),
            heights_sum(designs@) <= usize::MAX,
        ensures
            scene_ok(designs@, terminal_width, scene.grid()),
            scene.wf(),
            scene.height() == heights_sum(designs@),
            scene.height() > 0 ==> scene.width() == terminal_width,
    {
        let mut result: Vec<Vec<Cell>> = Vec::new();
        let mut design_index: usize = 0;
        proof {
            assert(designs@.take(0) =~= Seq::<DesignLine>::empty());
        }
        while design_index < designs.len()
            invariant
                design_index <= designs@.len(),
                forall|k: int|
                    0 <= k < designs@.len() ==> (#[trigger] designs@[k]).wf_for_width(
                        terminal_width,
                    ),
                heights_sum(designs@) <= usize::MAX,
                result@.len() == heights_sum(designs@.take(design_index as int)),
                forall|r: int|
                    0 <= r < result@.len() ==> (#[trigger] result@[r])@.len() == terminal_width,
                forall|k: int, i: int|
                    0 <= k < design_index && 0 <= i < designs@[k].part_height
                        ==> #[trigger] part_row_ok(
                        designs@,
                        terminal_width,
                        grid_of(result@),
                        k,
                        i,
                    ),
            decreases designs@.len() - design_index,
        {
            let ghost k = design_index as int;
            let ghost prev_grid = grid_of(result@);
            let design = designs[design_index];
            let (line, part_height) = generate_line(&design, terminal_width);
            let has_enemy = design_index > 0;
            let mut part = generate_with_height(&line, part_height, has_enemy);
            let ghost part_view = part@;
            proof {
                lemma_heights_sum_take_step(designs@, k);
                lemma_heights_sum_take_le(designs@, k + 1, designs@.len() as int);
                assert(designs@.take(designs@.len() as int) =~= designs@);
            }
            result.append(&mut part);
            design_index = design_index + 1;
            proof {
                let grid = grid_of(result@);
                assert forall|k2: int, i: int|
                    0 <= k2 < design_index && 0 <= i < designs@[k2].part_height
                    implies #[trigger] part_row_ok(designs@, terminal_width, grid, k2, i) by {
                    lemma_heights_sum_nonneg(designs@.take(k2));
                    if k2 < k {
                        assert(part_row_ok(designs@, terminal_width, prev_grid, k2, i));
                        lemma_heights_sum_take_le(designs@, k2 + 1, k);
                        lemma_heights_sum_take_step(designs@, k2);
                        assert(grid[part_start(designs@, k2) + i] == prev_grid[part_start(
                            designs@,
                            k2,
                        ) + i]);
                    } else {
                        assert(grid[part_start(designs@, k2) + i] == part_view[i]@);
                    }
                }
            }
        }
        proof {
            assert(designs@.take(design_index as int) =~= designs@);
            let scene = (Scene { rows: result });
            assert(scene.grid() == grid_of(result@));
        }
        Scene { rows: result }
    }

    /// How many rows the terrain holds.
    pub fn len(&self) -> (n: usize)
        ensures
            n == self.height(),
    {
        self.rows.len()
    }

    /// The width the rows were generated at.
    pub fn row_width(&self) -> (n: usize)
        ensures
            n == self.width(),
    {
        if self.rows.len() == 0 {
            0
        } else {
            self.rows[0].len()
        }
    }

    /// The cell at a logical row and column.
    pub fn cell_at(&self, row: usize, col: usize) -> (c: Cell)
        requires
            row < self.height(),
            col < self.grid()[row as int].len(),
        ensures
            c == self.grid()[row as int][col as int],
    {
        self.rows[row][col]
    }

    /// Answers a windowed read for scrolling: `window_height + 1`
    /// consecutive logical rows starting at `start mod length`, low to high
    /// logical index, wrapping past the end of the buffer back to index 0
    /// with no row skipped or repeated at the boundary. When the window's
    /// start and end indices coincide (`window_height == 0`), a single
    /// wrapped row comes back, neither empty nor doubled.
    pub fn get_window(&self, start: usize, window_height: u16) -> (window: Vec<Vec<Cell>>)
        requires
            self.height() > 0,
        ensures
            window@.len() == window_height + 1,
            forall|i: int|
                0 <= i <= window_height ==> (#[trigger] window@[i])@ == self.grid()[(start + i) % (
                self.height() as int)],
    {
        let len = self.rows.len();
        let mut window: Vec<Vec<Cell>> = Vec::new();
        let mut idx = start % len;
        let mut i: usize = 0;
        let window_rows = window_height as usize + 1;
        while i < window_rows
            invariant
                0 < len == self.height(),
                i <= window_rows,
                idx == (start + i) % (len as int),
                window@.len() == i,
                forall|r: int|
                    0 <= r < i ==> (#[trigger] window@[r])@ == self.grid()[(start + r) % (
                    len as int)],
            decreases window_rows - i,
        {
            proof {
                vstd::arithmetic::div_mod::lemma_mod_bound(start as int + i, len as int);
            }
            window.push(clone_row(&self.rows[idx]));
            proof {
                vstd::arithmetic::div_mod::lemma_add_mod_noop(start as int + i, 1, len as int);
                if idx + 1 == len {
                    vstd::arithmetic::div_mod::lemma_mod_self_0(len as int);
                } else {
                    vstd::arithmetic::div_mod::lemma_small_mod((idx + 1) as nat, len as nat);
                }
                if len == 1 {
                    vstd::arithmetic::div_mod::lemma_small_mod(0nat, 1nat);
                } else {
                    vstd::arithmetic::div_mod::lemma_small_mod(1nat, len as nat);
                }
            }
            idx = if idx + 1 == len {
                0
            } else {
                idx + 1
            };
            i = i + 1;
        }
        window
    }

    /// The window `Scene::get_window` answers walks the ring row by row,
    /// skipping and doubling nothing at the boundary: the logical row at
    /// window position `i + 1` is always the ring successor of the one at
    /// position `i`, wrapping past the last row back to index 0; the
    /// window opens at `start mod length`; and a window whose start and
    /// end indices coincide (`window_height == 0`) holds that single
    /// wrapped row, neither empty nor doubled.
    pub proof fn lemma_window_walks_the_ring(len: int, start: int, i: int)
        requires
            len > 0,
            start >= 0,
            i >= 0,
        ensures
            (start + 0) % len == start % len,
            0 <= (start + i) % len < len,
            (start + i) % len + 1 == len ==> (start + i + 1) % len == 0,
            (start + i) % len + 1 < len ==> (start + i + 1) % len == (start + i) % len + 1,
    {
        vstd::arithmetic::div_mod::lemma_mod_bound(start + i, len);
        vstd::arithmetic::div_mod::lemma_add_mod_noop(start + i, 1, len);
        if len == 1 {
            vstd::arithmetic::div_mod::lemma_small_mod(0nat, 1nat);
        } else {
            vstd::arithmetic::div_mod::lemma_small_mod(1nat, len as nat);
        }
        let r = (start + i) % len;
        if r + 1 == len {
            vstd::arithmetic::div_mod::lemma_mod_self_0(len);
        } else {
            vstd::arithmetic::div_mod::lemma_small_mod((r + 1) as nat, len as nat);
        }
    }

    /// The explicit destroy-enemy operation of the buffer: if the addressed
    /// cell holds an enemy it is downgraded to river, in place; any other
    /// cell is left untouched. Nothing else of the terrain changes.
    pub fn destroy_enemy(&mut self, row: usize, col: usize)
        requires
            row < old(self).height(),
            col < old(self).grid()[row as int].len(),
        ensures
            final(self).grid() == if old(self).grid()[row as int][col as int].kind == Kind::Enemy {
                old(self).grid().update(
                    row as int,
                    old(self).grid()[row as int].update(col as int, Cell { kind: Kind::River }),
                )
            } else {
                old(self).grid()
            },
            final(self).height() == old(self).height(),
            final(self).width() == old(self).width(),
            old(self).wf() ==> final(self).wf(),
    {
        let cell = self.rows[row][col];
        if matches!(cell.kind, Kind::Enemy) {
            let mut new_row = clone_row(&self.rows[row]);
            new_row.set(col, Cell { kind: Kind::River });
            self.rows.set(row, new_row);
            proof {
                assert(final(self).grid() =~= old(self).grid().update(
                    row as int,
                    old(self).grid()[row as int].update(col as int, Cell { kind: Kind::River }),
                ));
            }
        } else {
            proof {
                assert(final(self).grid() =~= old(self).grid());
            }
        }
    }
}

} // verus!

