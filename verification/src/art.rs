//! The drawing of one planting: a framed grid of cells, each cell showing
//! the mark of the crop planted in it.

use crate::catalog::Combo;
use crate::layout::CropRatios;
use crate::plant::Plant;
use vstd::prelude::*;
use vstd::string::StringExecFns;

verus! {

/// The lines of a text, each as its characters.
pub open spec fn lines_view(lines: Seq<String>) -> Seq<Seq<char>> {
    lines.map_values(|line: String| line@)
}

/// The marks with which the crops are drawn: for each crop the text that
/// stands in its cells.
pub struct Palette {
    marks: Vec<String>,
}

impl View for Palette {
    type V = Map<Plant, Seq<char>>;

    /// The palette as a map that gives every crop its mark.
    closed spec fn view(&self) -> Map<Plant, Seq<char>> {
        Map::new(|p: Plant| true, |p: Plant| self.marks@[p.position()]@)
    }
}

impl Palette {
    #[verifier::type_invariant]
    spec fn complete(self) -> bool {
        self.marks@.len() == 14
    }

    /// The palette that draws every crop with `mark`.
    pub fn uniform(mark: &str) -> (palette: Palette)
        ensures
            forall|p: Plant| #[trigger] palette@[p] == mark@,
            palette@.dom() == Set::<Plant>::full(),
    {
        let mut marks: Vec<String> = Vec::new();
        let mut i: usize = 0;
        while i < 14
            invariant
                i <= 14,
                marks@.len() == i,
                forall|k: int| 0 <= k < i ==> (#[trigger] marks@[k])@ == mark@,
            decreases 14 - i,
        {
            marks.push(String::from_str(mark));
            i = i + 1;
        }
        let palette = Palette { marks };
        assert(palette@.dom() =~= Set::<Plant>::full());
        palette
    }

    /// The palette that draws `plant` with `mark` and every other crop as
    /// before.
    pub fn with_mark(self, plant: Plant, mark: &str) -> (palette: Palette)
        ensures
            palette@ == self@.insert(plant, mark@),
    {
        proof {
            use_type_invariant(&self);
        }
        let ghost before = self@;
        let mut marks: Vec<String> = self.marks;
        marks.set(plant.index(), String::from_str(mark));
        let palette = Palette { marks };
        proof {
            assert forall|p: Plant| #[trigger] palette@[p] == before.insert(plant, mark@)[p] by {
                if p != plant {
                    assert(p.position() != plant.position());
                }
            }
            assert(palette@ =~= before.insert(plant, mark@));
        }
        palette
    }

    /// The mark with which `plant` is drawn.
    pub fn mark(&self, plant: Plant) -> (mark: &str)
        ensures
            mark@ == self@[plant],
    {
        proof {
            use_type_invariant(self);
        }
        self.marks[plant.index()].as_str()
    }
}

/// The cells of one planting under `ratio`, row by row from the top: in
/// each cell the place, within the combination, of the crop planted there,
/// or nothing where the cell stays free.
pub open spec fn pattern(ratio: CropRatios) -> Seq<Seq<Option<usize>>> {
    match ratio {
        CropRatios::OneOne => seq![
            seq![Some(0usize), Some(0usize), Some(0usize)],
            seq![Some(0usize), None, Some(1usize)],
            seq![Some(1usize), Some(1usize), Some(1usize)],
        ],
        CropRatios::OneOneOne => seq![
            seq![Some(0usize), Some(1usize), Some(1usize), Some(1usize), Some(1usize), Some(0usize)],
            seq![Some(0usize), Some(1usize), Some(2usize), Some(2usize), Some(1usize), Some(0usize)],
            seq![Some(0usize), Some(2usize), Some(2usize), Some(2usize), Some(2usize), Some(0usize)],
            seq![Some(0usize), Some(2usize), Some(2usize), Some(2usize), Some(2usize), Some(0usize)],
            seq![Some(0usize), Some(1usize), Some(2usize), Some(2usize), Some(1usize), Some(0usize)],
            seq![Some(0usize), Some(1usize), Some(1usize), Some(1usize), Some(1usize), Some(0usize)],
        ],
        CropRatios::TwoOne => seq![
            seq![Some(0usize), Some(0usize), Some(2usize), Some(2usize), Some(1usize), Some(1usize)],
            seq![Some(0usize), Some(0usize), Some(2usize), Some(2usize), Some(1usize), Some(1usize)],
            seq![Some(0usize), Some(0usize), Some(2usize), Some(2usize), Some(1usize), Some(1usize)],
        ],
        CropRatios::TwoOneOne => seq![
            seq![Some(0usize), Some(0usize), Some(2usize), Some(2usize), Some(1usize), Some(1usize)],
            seq![Some(0usize), None, Some(2usize), Some(2usize), None, Some(1usize)],
            seq![Some(0usize), Some(3usize), Some(3usize), Some(3usize), Some(3usize), Some(1usize)],
            seq![Some(0usize), Some(3usize), Some(3usize), Some(3usize), Some(3usize), Some(1usize)],
            seq![Some(0usize), None, Some(2usize), Some(2usize), None, Some(1usize)],
            seq![Some(0usize), Some(0usize), Some(2usize), Some(2usize), Some(1usize), Some(1usize)],
        ],
    }
}

/// A grid of the size of `cells` in which every cell stays free.
pub open spec fn cleared(cells: Seq<Seq<Option<usize>>>) -> Seq<Seq<Option<usize>>> {
    Seq::new(cells.len(), |r: int| Seq::new(cells[r].len(), |c: int| None::<usize>))
}

/// The number of cells among the first `n` of `row` that hold the crop at
/// place `role`.
pub open spec fn cells_in_row(row: Seq<Option<usize>>, role: usize, n: nat) -> nat
    decreases n,
{
    if n == 0 {
        0
    } else {
        cells_in_row(row, role, (n - 1) as nat) + if row[n - 1] == Some(role) {
            1nat
        } else {
            0nat
        }
    }
}

/// The number of cells in the first `n` rows of `cells` that hold the crop
/// at place `role`.
pub open spec fn cells_of_role(cells: Seq<Seq<Option<usize>>>, role: usize, n: nat) -> nat
    decreases n,
{
    if n == 0 {
        0
    } else {
        cells_of_role(cells, role, (n - 1) as nat) + cells_in_row(
            cells[n - 1],
            role,
            cells[n - 1].len(),
        )
    }
}

/// The number of lines in the drawing of one planting under `ratio`.
pub open spec fn text_height(ratio: CropRatios) -> nat {
    2 * pattern(ratio).len() + 1
}

/// The upper edge of a drawing that is `cols` cells wide.
pub open spec fn top_rule(cols: nat) -> Seq<char> {
    if cols == 3 {
        "╔═══╤═══╤═══╗"@
    } else {
        "╔═══╤═══╤═══╤═══╤═══╤═══╗"@
    }
}

/// The line below the cell row `r` of a drawing of `rows` by `cols` cells:
/// the lower edge below the last row, a heavy line across the middle of a
/// drawing of six rows, a light line elsewhere.
pub open spec fn rule_below(r: int, rows: nat, cols: nat) -> Seq<char> {
    if r + 1 == rows {
        if cols == 3 {
            "╚═══╧═══╧═══╝"@
        } else {
            "╚═══╧═══╧═══╧═══╧═══╧═══╝"@
        }
    } else if rows == 6 && r == 2 {
        "╟━━━┿━━━┿━━━╋━━━┿━━━┿━━━╢"@
    } else if cols == 3 {
        "╟───┼───┼───╢"@
    } else {
        "╟───┼───┼───╂───┼───┼───╢"@
    }
}

/// The bar to the right of the cell in column `c` of a row of `cols`
/// cells: the frame behind the last cell, a heavy bar down the middle of a
/// row of six, a light bar elsewhere.
pub open spec fn bar_behind(c: int, cols: nat) -> Seq<char> {
    if c + 1 == cols {
        "║"@
    } else if cols == 6 && c == 2 {
        "┃"@
    } else {
        "│"@
    }
}

/// What a cell shows: the mark of its crop, or a blank.
pub open spec fn cell_text(cell: Option<usize>, marks: Seq<Seq<char>>) -> Seq<char> {
    match cell {
        Some(place) => marks[place as int],
        None => " "@,
    }
}

/// The line of a cell row, up to and with its cell in column `n - 1`.
pub open spec fn cell_line_upto(row: Seq<Option<usize>>, marks: Seq<Seq<char>>, n: nat) -> Seq<char>
    decreases n,
{
    if n == 0 {
        "║"@
    } else {
        cell_line_upto(row, marks, (n - 1) as nat) + " "@ + cell_text(row[n - 1], marks) + " "@
            + bar_behind(n - 1, row.len())
    }
}

/// The line of a cell row: the frame, then each cell between blanks and
/// the bar behind it.
pub open spec fn cell_line(row: Seq<Option<usize>>, marks: Seq<Seq<char>>) -> Seq<char> {
    cell_line_upto(row, marks, row.len())
}

/// The number of cells in a row of `cells`.
pub open spec fn width_of(cells: Seq<Seq<Option<usize>>>) -> nat {
    if cells.len() == 0 {
        0
    } else {
        cells[0].len()
    }
}

/// The drawing of `cells`, up to and with the line below row `n - 1`.
pub open spec fn drawn_upto(cells: Seq<Seq<Option<usize>>>, marks: Seq<Seq<char>>, n: nat) -> Seq<
    Seq<char>,
>
    decreases n,
{
    if n == 0 {
        seq![top_rule(width_of(cells))]
    } else {
        drawn_upto(cells, marks, (n - 1) as nat).push(cell_line(cells[n - 1], marks)).push(
            rule_below(n - 1, cells.len(), width_of(cells)),
        )
    }
}

/// The drawing of `cells`: the upper edge, then each cell row and the line
/// below it. `marks` gives the mark for each place of the combination.
pub open spec fn drawn(cells: Seq<Seq<Option<usize>>>, marks: Seq<Seq<char>>) -> Seq<Seq<char>> {
    drawn_upto(cells, marks, cells.len())
}

/// The drawing of a planting of `combo` under `ratio`.
pub open spec fn filled_plot(ratio: CropRatios, combo: Seq<Plant>, palette: Map<Plant, Seq<char>>) -> Seq<
    Seq<char>,
> {
    drawn(pattern(ratio), combo.map_values(|p: Plant| palette[p]))
}

/// The drawing of a slot under `ratio` on which nothing is planted.
pub open spec fn empty_plot(ratio: CropRatios) -> Seq<Seq<char>> {
    drawn(cleared(pattern(ratio)), Seq::<Seq<char>>::empty())
}

/// Whether every cell of `cells` that holds a crop holds one of the first
/// `n` places of a combination.
pub open spec fn within(cells: Seq<Seq<Option<usize>>>, n: nat) -> bool {
    forall|r: int, c: int|
        0 <= r < cells.len() && 0 <= c < cells[r].len() ==> match #[trigger] cells[r][c] {
            Some(place) => place < n,
            None => true,
        }
}

/// A drawing has a line for the upper edge and two for each cell row.
pub proof fn lemma_drawn_height(cells: Seq<Seq<Option<usize>>>, marks: Seq<Seq<char>>, n: nat)
    ensures
        drawn_upto(cells, marks, n).len() == 2 * n + 1,
    decreases n,
{
    if n > 0 {
        lemma_drawn_height(cells, marks, (n - 1) as nat);
    }
}

/// A pattern binds the places that its layout has roles for, and no other.
pub proof fn lemma_pattern_within(ratio: CropRatios)
    ensures
        within(pattern(ratio), ratio.roles()),
        pattern(ratio).len() == 3 || pattern(ratio).len() == 6,
{
    let cells = pattern(ratio);
    assert forall|r: int, c: int| 0 <= r < cells.len() && 0 <= c < cells[r].len() implies match #[trigger] cells[r][c] {
        Some(place) => place < ratio.roles(),
        None => true,
    } by {
        if r == 0 {
        } else if r == 1 {
        } else if r == 2 {
        } else if r == 3 {
        } else if r == 4 {
        } else {
        }
    }
}

/// One for a cell that holds the crop at place `role`, zero for another.
pub open spec fn hit(cell: Option<usize>, role: usize) -> nat {
    if cell == Some(role) {
        1
    } else {
        0
    }
}

/// The cells of a role in a row of three or six, cell by cell.
proof fn lemma_row_sum(row: Seq<Option<usize>>, role: usize)
    requires
        row.len() == 3 || row.len() == 6,
    ensures
        row.len() == 3 ==> cells_in_row(row, role, 3) == hit(row[0], role) + hit(row[1], role)
            + hit(row[2], role),
        row.len() == 6 ==> cells_in_row(row, role, 6) == hit(row[0], role) + hit(row[1], role)
            + hit(row[2], role) + hit(row[3], role) + hit(row[4], role) + hit(row[5], role),
{
    reveal_with_fuel(cells_in_row, 7);
}

/// The cells of a role in a grid of three or six rows, row by row.
proof fn lemma_rows_sum(cells: Seq<Seq<Option<usize>>>, role: usize)
    requires
        cells.len() == 3 || cells.len() == 6,
    ensures
        cells.len() == 3 ==> cells_of_role(cells, role, 3) == cells_in_row(
            cells[0],
            role,
            cells[0].len(),
        ) + cells_in_row(cells[1], role, cells[1].len()) + cells_in_row(
            cells[2],
            role,
            cells[2].len(),
        ),
        cells.len() == 6 ==> cells_of_role(cells, role, 6) == cells_in_row(
            cells[0],
            role,
            cells[0].len(),
        ) + cells_in_row(cells[1], role, cells[1].len()) + cells_in_row(
            cells[2],
            role,
            cells[2].len(),
        ) + cells_in_row(cells[3], role, cells[3].len()) + cells_in_row(
            cells[4],
            role,
            cells[4].len(),
        ) + cells_in_row(cells[5], role, cells[5].len()),
{
    reveal_with_fuel(cells_of_role, 7);
}

/// A pattern gives each role as many cells as the layout takes seeds for
/// it.
pub proof fn lemma_pattern_takes_seeds_per_role(ratio: CropRatios, role: usize)
    requires
        role < ratio.roles(),
    ensures
        cells_of_role(pattern(ratio), role, pattern(ratio).len()) == ratio.seeds_per_role(),
{
    let cells = pattern(ratio);
    lemma_rows_sum(cells, role);
    lemma_row_sum(cells[0], role);
    lemma_row_sum(cells[1], role);
    lemma_row_sum(cells[2], role);
    if cells.len() == 6 {
        lemma_row_sum(cells[3], role);
        lemma_row_sum(cells[4], role);
        lemma_row_sum(cells[5], role);
    }
}

/// The rows of a grid of cells, each as the sequence of its cells.
pub open spec fn cells_view(rows: Seq<Vec<Option<usize>>>) -> Seq<Seq<Option<usize>>> {
    rows.map_values(|row: Vec<Option<usize>>| row@)
}

/// A row of three cells.
fn row_of_three(a: Option<usize>, b: Option<usize>, c: Option<usize>) -> (row: Vec<Option<usize>>)
    ensures
        row@ == seq![a, b, c],
{
    let mut row: Vec<Option<usize>> = Vec::new();
    row.push(a);
    row.push(b);
    row.push(c);
    row
}

/// A row of six cells.
fn row_of_six(
    a: Option<usize>,
    b: Option<usize>,
    c: Option<usize>,
    d: Option<usize>,
    e: Option<usize>,
    f: Option<usize>,
) -> (row: Vec<Option<usize>>)
    ensures
        row@ == seq![a, b, c, d, e, f],
{
    let mut row: Vec<Option<usize>> = Vec::new();
    row.push(a);
    row.push(b);
    row.push(c);
    row.push(d);
    row.push(e);
    row.push(f);
    row
}

/// The cells of one planting under `ratio`, row by row from the top.
pub fn pattern_rows(ratio: &CropRatios) -> (rows: Vec<Vec<Option<usize>>>)
    ensures
        cells_view(rows@) == pattern(*ratio),
{
    let mut rows: Vec<Vec<Option<usize>>> = Vec::new();
    match ratio {
        CropRatios::OneOne => {
            rows.push(row_of_three(Some(0), Some(0), Some(0)));
            rows.push(row_of_three(Some(0), None, Some(1)));
            rows.push(row_of_three(Some(1), Some(1), Some(1)));
        },
        CropRatios::OneOneOne => {
            rows.push(row_of_six(Some(0), Some(1), Some(1), Some(1), Some(1), Some(0)));
            rows.push(row_of_six(Some(0), Some(1), Some(2), Some(2), Some(1), Some(0)));
            rows.push(row_of_six(Some(0), Some(2), Some(2), Some(2), Some(2), Some(0)));
            rows.push(row_of_six(Some(0), Some(2), Some(2), Some(2), Some(2), Some(0)));
            rows.push(row_of_six(Some(0), Some(1), Some(2), Some(2), Some(1), Some(0)));
            rows.push(row_of_six(Some(0), Some(1), Some(1), Some(1), Some(1), Some(0)));
        },
        CropRatios::TwoOne => {
            rows.push(row_of_six(Some(0), Some(0), Some(2), Some(2), Some(1), Some(1)));
            rows.push(row_of_six(Some(0), Some(0), Some(2), Some(2), Some(1), Some(1)));
            rows.push(row_of_six(Some(0), Some(0), Some(2), Some(2), Some(1), Some(1)));
        },
        CropRatios::TwoOneOne => {
            rows.push(row_of_six(Some(0), Some(0), Some(2), Some(2), Some(1), Some(1)));
            rows.push(row_of_six(Some(0), None, Some(2), Some(2), None, Some(1)));
            rows.push(row_of_six(Some(0), Some(3), Some(3), Some(3), Some(3), Some(1)));
            rows.push(row_of_six(Some(0), Some(3), Some(3), Some(3), Some(3), Some(1)));
            rows.push(row_of_six(Some(0), None, Some(2), Some(2), None, Some(1)));
            rows.push(row_of_six(Some(0), Some(0), Some(2), Some(2), Some(1), Some(1)));
        },
    }
    assert(cells_view(rows@) =~= pattern(*ratio));
    rows
}

/// A grid of the size of `cells` in which every cell stays free.
fn clear(cells: &Vec<Vec<Option<usize>>>) -> (rows: Vec<Vec<Option<usize>>>)
    ensures
        cells_view(rows@) == cleared(cells_view(cells@)),
{
    let mut rows: Vec<Vec<Option<usize>>> = Vec::new();
    let mut r: usize = 0;
    while r < cells.len()
        invariant
            r <= cells.len(),
            rows@.len() == r,
            forall|k: int|
                0 <= k < r ==> (#[trigger] rows@[k])@ == Seq::new(
                    cells@[k]@.len(),
                    |c: int| None::<usize>,
                ),
        decreases cells.len() - r,
    {
        let mut row: Vec<Option<usize>> = Vec::new();
        let mut c: usize = 0;
        while c < cells[r].len()
            invariant
                r < cells.len(),
                c <= cells@[r as int]@.len(),
                row@ == Seq::new(c as nat, |c: int| None::<usize>),
            decreases cells@[r as int]@.len() - c,
        {
            row.push(None);
            c = c + 1;
        }
        rows.push(row);
        r = r + 1;
    }
    assert(cells_view(rows@) =~= cleared(cells_view(cells@)));
    rows
}

/// The upper edge of a drawing that is `cols` cells wide.
fn top_rule_text(cols: usize) -> (text: &'static str)
    ensures
        text@ == top_rule(cols as nat),
{
    if cols == 3 {
        "╔═══╤═══╤═══╗"
    } else {
        "╔═══╤═══╤═══╤═══╤═══╤═══╗"
    }
}

/// The line below the cell row `r` of a drawing of `rows` by `cols` cells.
fn rule_below_text(r: usize, rows: usize, cols: usize) -> (text: &'static str)
    requires
        r < rows,
    ensures
        text@ == rule_below(r as int, rows as nat, cols as nat),
{
    if r + 1 == rows {
        if cols == 3 {
            "╚═══╧═══╧═══╝"
        } else {
            "╚═══╧═══╧═══╧═══╧═══╧═══╝"
        }
    } else if rows == 6 && r == 2 {
        "╟━━━┿━━━┿━━━╋━━━┿━━━┿━━━╢"
    } else if cols == 3 {
        "╟───┼───┼───╢"
    } else {
        "╟───┼───┼───╂───┼───┼───╢"
    }
}

/// The bar to the right of the cell in column `c` of a row of `cols`
/// cells.
fn bar_behind_text(c: usize, cols: usize) -> (text: &'static str)
    requires
        c < cols,
    ensures
        text@ == bar_behind(c as int, cols as nat),
{
    if c + 1 == cols {
        "║"
    } else if cols == 6 && c == 2 {
        "┃"
    } else {
        "│"
    }
}

/// The line of the cell row `row`.
fn draw_cell_line(row: &Vec<Option<usize>>, marks: &Vec<String>) -> (line: String)
    requires
        forall|c: int|
            0 <= c < row@.len() ==> match #[trigger] row@[c] {
                Some(place) => place < marks@.len(),
                None => true,
            },
    ensures
        line@ == cell_line(row@, lines_view(marks@)),
{
    let mut line: String = String::from_str("║");
    let mut c: usize = 0;
    while c < row.len()
        invariant
            c <= row.len(),
            line@ == cell_line_upto(row@, lines_view(marks@), c as nat),
            forall|c: int|
                0 <= c < row@.len() ==> match #[trigger] row@[c] {
                    Some(place) => place < marks@.len(),
                    None => true,
                },
        decreases row.len() - c,
    {
        line.append(" ");
        match row[c] {
            Some(place) => {
                assert(lines_view(marks@)[place as int] == marks@[place as int]@);
                line.append(marks[place].as_str());
            },
            None => {
                line.append(" ");
            },
        }
        line.append(" ");
        line.append(bar_behind_text(c, row.len()));
        c = c + 1;
    }
    line
}

/// The drawing of `cells`, with `marks` giving the mark for each place of
/// the combination.
pub fn draw(cells: &Vec<Vec<Option<usize>>>, marks: &Vec<String>) -> (lines: Vec<String>)
    requires
        within(cells_view(cells@), marks@.len() as nat),
    ensures
        lines_view(lines@) == drawn(cells_view(cells@), lines_view(marks@)),
{
    let ghost grid = cells_view(cells@);
    let ghost texts = lines_view(marks@);
    let rows: usize = cells.len();
    let cols: usize = if rows == 0 {
        0
    } else {
        cells[0].len()
    };
    let mut lines: Vec<String> = Vec::new();
    lines.push(String::from_str(top_rule_text(cols)));
    assert(lines_view(lines@) =~= drawn_upto(grid, texts, 0));
    let mut r: usize = 0;
    while r < rows
        invariant
            r <= rows,
            rows == cells@.len(),
            cols == width_of(grid),
            grid == cells_view(cells@),
            texts == lines_view(marks@),
            within(grid, marks@.len() as nat),
            lines_view(lines@) == drawn_upto(grid, texts, r as nat),
        decreases rows - r,
    {
        let ghost above = lines@;
        assert forall|c: int| 0 <= c < cells@[r as int]@.len() implies match #[trigger] cells@[r as int]@[c] {
            Some(place) => place < marks@.len(),
            None => true,
        } by {
            assert(grid[r as int][c] == cells@[r as int]@[c]);
        }
        let line = draw_cell_line(&cells[r], marks);
        let rule = String::from_str(rule_below_text(r, rows, cols));
        let ghost line_text = line@;
        let ghost rule_text = rule@;
        lines.push(line);
        lines.push(rule);
        proof {
            assert(lines@ == above.push(line).push(rule));
            assert(lines_view(lines@) =~= lines_view(above).push(line_text).push(rule_text));
            assert(grid[r as int] == cells@[r as int]@);
        }
        r = r + 1;
    }
    lines
}

/// The drawing of a planting of `combo` under `ratio`, each crop drawn
/// with its mark in `palette`.
pub fn plot_lines(ratio: &CropRatios, combo: &Combo, palette: &Palette) -> (lines: Vec<String>)
    requires
        combo@.len() == ratio.roles(),
    ensures
        lines_view(lines@) == filled_plot(*ratio, combo@, palette@),
        lines@.len() == text_height(*ratio),
{
    let cells = pattern_rows(ratio);
    let mut marks: Vec<String> = Vec::new();
    let mut i: usize = 0;
    while i < combo.plants.len()
        invariant
            i <= combo.plants.len(),
            marks@.len() == i,
            forall|k: int| 0 <= k < i ==> (#[trigger] marks@[k])@ == palette@[combo@[k]],
        decreases combo.plants.len() - i,
    {
        marks.push(String::from_str(palette.mark(combo.plants[i])));
        i = i + 1;
    }
    proof {
        lemma_pattern_within(*ratio);
        assert(lines_view(marks@) =~= combo@.map_values(|p: Plant| palette@[p]));
        lemma_drawn_height(pattern(*ratio), lines_view(marks@), pattern(*ratio).len());
    }
    let lines = draw(&cells, &marks);
    assert(lines_view(lines@).len() == lines@.len());
    lines
}

/// The drawing of a slot under `ratio` on which nothing is planted.
pub fn empty_plot_lines(ratio: &CropRatios) -> (lines: Vec<String>)
    ensures
        lines_view(lines@) == empty_plot(*ratio),
        lines@.len() == text_height(*ratio),
{
    let cells = clear(&pattern_rows(ratio));
    let marks: Vec<String> = Vec::new();
    proof {
        assert(lines_view(marks@) =~= Seq::<Seq<char>>::empty());
        lemma_drawn_height(
            cleared(pattern(*ratio)),
            Seq::<Seq<char>>::empty(),
            pattern(*ratio).len(),
        );
    }
    let lines = draw(&cells, &marks);
    assert(lines_view(lines@).len() == lines@.len());
    lines
}

} // verus!
