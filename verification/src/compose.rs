//! The composer: it draws every slot of the farm, planted or not, and sets
//! the drawings side by side as the slots lie on the farm.

use crate::art::{
    empty_plot, empty_plot_lines, filled_plot, lines_view, plot_lines, text_height, Palette,
};
use crate::catalog::{combo_views, Combo};
use crate::grid::{blocks_view, GridZip, ZipState};
use crate::layout::{CropRatios, FarmSize};
use crate::plant::Plant;
use vstd::prelude::*;
use vstd::string::StringExecFns;

verus! {

/// The texts `parts` in a row, with `sep` between each two.
pub open spec fn joined(parts: Seq<Seq<char>>, sep: Seq<char>) -> Seq<char>
    decreases parts.len(),
{
    if parts.len() == 0 {
        Seq::empty()
    } else if parts.len() == 1 {
        parts[0]
    } else {
        joined(parts.drop_last(), sep) + sep + parts.last()
    }
}

/// The line numbered `t` of each of the blocks `row`, from left to right.
pub open spec fn row_line(row: Seq<Seq<Seq<char>>>, t: int) -> Seq<Seq<char>> {
    row.map_values(|block: Seq<Seq<char>>| block[t])
}

/// The blocks `row` side by side, as `height` lines of text: in each line
/// the line of that number of every block, with one blank between each two
/// blocks.
pub open spec fn row_text(row: Seq<Seq<Seq<char>>>, height: nat) -> Seq<Seq<char>> {
    Seq::new(height, |t: int| joined(row_line(row, t), " "@))
}

/// The blocks in rows of `row_size`, the last row as long as the blocks
/// reach, each row as `height` lines of text, row below row.
pub open spec fn zipped(blocks: Seq<Seq<Seq<char>>>, row_size: nat, height: nat) -> Seq<Seq<char>>
    decreases blocks.len(),
{
    if row_size == 0 || blocks.len() == 0 {
        Seq::empty()
    } else {
        let n = if row_size < blocks.len() {
            row_size as int
        } else {
            blocks.len() as int
        };
        row_text(blocks.take(n), height) + zipped(blocks.skip(n), row_size, height)
    }
}

/// The drawing of the slot numbered `i`: of the combination planted on it,
/// or of an empty slot behind the last planting.
pub open spec fn plot_at(
    combos: Seq<Seq<Plant>>,
    ratio: CropRatios,
    palette: Map<Plant, Seq<char>>,
    i: int,
) -> Seq<Seq<char>> {
    if i < combos.len() {
        filled_plot(ratio, combos[i], palette)
    } else {
        empty_plot(ratio)
    }
}

/// The drawings of all slots of the farm, in the order of the slots.
pub open spec fn plots(
    combos: Seq<Seq<Plant>>,
    ratio: CropRatios,
    size: FarmSize,
    palette: Map<Plant, Seq<char>>,
) -> Seq<Seq<Seq<char>>> {
    Seq::new(ratio.capacity(size), |i: int| plot_at(combos, ratio, palette, i))
}

/// The drawing of the farm: the drawings of its slots in rows as wide as
/// the farm, row below row.
pub open spec fn composed(
    combos: Seq<Seq<Plant>>,
    ratio: CropRatios,
    size: FarmSize,
    palette: Map<Plant, Seq<char>>,
) -> Seq<Seq<char>> {
    zipped(plots(combos, ratio, size, palette), ratio.row_width(size), text_height(ratio))
}

/// A farm on which nothing is planted is drawn as one empty slot for each
/// slot it has, in rows as wide as the farm.
pub proof fn lemma_compose_empty(ratio: CropRatios, size: FarmSize, palette: Map<Plant, Seq<char>>)
    ensures
        composed(Seq::empty(), ratio, size, palette) == zipped(
            Seq::new(ratio.capacity(size), |i: int| empty_plot(ratio)),
            ratio.row_width(size),
            text_height(ratio),
        ),
{
    assert(plots(Seq::empty(), ratio, size, palette) =~= Seq::new(
        ratio.capacity(size),
        |i: int| empty_plot(ratio),
    ));
}

/// The number of rows that `n` blocks make in rows of `row_size`, the last
/// row as long as the blocks reach.
pub open spec fn row_count(n: nat, row_size: nat) -> nat
    decreases n,
{
    if row_size == 0 || n == 0 {
        0
    } else if row_size < n {
        1 + row_count((n - row_size) as nat, row_size)
    } else {
        1
    }
}

/// A drawing has `height` lines for each row of blocks.
pub proof fn lemma_zipped_height(blocks: Seq<Seq<Seq<char>>>, row_size: nat, height: nat)
    ensures
        zipped(blocks, row_size, height).len() == height * row_count(blocks.len(), row_size),
    decreases blocks.len(),
{
    if row_size == 0 || blocks.len() == 0 {
        assert(height * 0 == 0);
    } else if row_size < blocks.len() {
        let rest = blocks.skip(row_size as int);
        lemma_zipped_height(rest, row_size, height);
        let rows = row_count(rest.len(), row_size);
        assert(height * (1 + rows) == height + height * rows) by (nonlinear_arith);
    } else {
        let rest = blocks.skip(blocks.len() as int);
        assert(zipped(rest, row_size, height).len() == 0);
        assert(height * 1 == height);
    }
}

/// The state of a grid of blocks that all have `h` lines, in the course of
/// drawing: `t` lines are drawn of each block of the row that is being
/// drawn, and none of the blocks behind it.
pub open spec fn even(state: ZipState, t: nat, h: nat) -> bool {
    &&& state.wf()
    &&& t <= h
    &&& forall|i: int| 0 <= i < state.blocks.len() ==> (#[trigger] state.blocks[i]).len() == h
    &&& forall|i: int| state.start <= i < state.row_end() ==> #[trigger] state.drawn[i] == t
    &&& forall|i: int| state.row_end() <= i < state.blocks.len() ==> #[trigger] state.drawn[i] == 0
}

/// What is still to come of the drawing in an even state: the rest of the
/// row that is being drawn, and the rows behind it.
pub open spec fn pending(state: ZipState, t: nat, h: nat) -> Seq<Seq<char>> {
    if state.row_end() <= state.start {
        Seq::empty()
    } else {
        row_text(state.blocks.subrange(state.start as int, state.row_end()), h).skip(t as int)
            + zipped(state.blocks.skip(state.row_end()), state.row_size, h)
    }
}

/// Within a row, a step gives the next line of each block of the row.
pub proof fn lemma_next_in_row(state: ZipState, t: nat, h: nat)
    requires
        even(state, t, h),
        t < h,
        state.start < state.row_end(),
    ensures
        state.next() == (
            state.advanced(state.row_end()),
            Some(row_line(state.blocks.subrange(state.start as int, state.row_end()), t as int)),
        ),
        even(state.advanced(state.row_end()), t + 1, h),
        pending(state, t, h) == seq![
            joined(
                row_line(state.blocks.subrange(state.start as int, state.row_end()), t as int),
                " "@,
            ),
        ] + pending(state.advanced(state.row_end()), t + 1, h),
{
    let end = state.row_end();
    let row = state.blocks.subrange(state.start as int, end);
    assert forall|j: int| state.start <= j < end implies !#[trigger] state.spent(j) by {
        assert(state.drawn[j] == t);
        assert(state.blocks[j].len() == h);
    }
    crate::grid::lemma_first_spent(state, state.start as int, end);
    assert(state.current() =~= row_line(row, t as int));
    let after = state.advanced(end);
    assert(after.row_end() == end);
    assert(row_text(row, h).skip(t as int) =~= seq![joined(row_line(row, t as int), " "@)]
        + row_text(row, h).skip((t + 1) as int));
    assert(pending(state, t, h) =~= seq![joined(row_line(row, t as int), " "@)] + pending(
        after,
        t + 1,
        h,
    ));
}

/// At the end of a row, a step goes on with the next row.
pub proof fn lemma_next_row_spent(state: ZipState, h: nat)
    requires
        even(state, h, h),
        h > 0,
        state.start < state.row_end(),
    ensures
        state.next() == state.at_next_row().next(),
        even(state.at_next_row(), 0, h),
        pending(state, h, h) == pending(state.at_next_row(), 0, h),
{
    let end = state.row_end();
    assert(state.spent(state.start as int)) by {
        assert(state.drawn[state.start as int] == h);
        assert(state.blocks[state.start as int].len() == h);
    }
    assert(state.first_spent(state.start as int) == state.start);
    assert(state.advanced(state.start as int).drawn =~= state.drawn);
    assert(state.advanced(state.start as int) == state);
    let beyond = state.at_next_row();
    let rest = state.blocks.skip(end);
    assert(row_text(state.blocks.subrange(state.start as int, end), h).skip(h as int)
        =~= Seq::<Seq<char>>::empty());
    if beyond.row_end() <= beyond.start {
        assert(rest.len() == 0);
    } else {
        let end2 = beyond.row_end();
        let n = end2 - end;
        assert(rest.take(n) =~= state.blocks.subrange(end, end2));
        assert(rest.skip(n) =~= state.blocks.skip(end2));
        assert(row_text(state.blocks.subrange(end, end2), h).skip(0) =~= row_text(
            state.blocks.subrange(end, end2),
            h,
        ));
    }
}

/// The texts `parts` in a row, with `sep` between each two.
pub fn join(parts: &Vec<String>, sep: &str) -> (line: String)
    ensures
        line@ == joined(lines_view(parts@), sep@),
{
    let ghost texts = lines_view(parts@);
    let mut line: String = String::new();
    let mut i: usize = 0;
    while i < parts.len()
        invariant
            i <= parts.len(),
            texts == lines_view(parts@),
            line@ == joined(texts.take(i as int), sep@),
        decreases parts.len() - i,
    {
        proof {
            assert(texts.take(i + 1).drop_last() =~= texts.take(i as int));
            assert(texts.take(i + 1).last() == parts@[i as int]@);
        }
        if i > 0 {
            line.append(sep);
        } else {
            assert(line@ + parts@[i as int]@ =~= parts@[i as int]@);
        }
        line.append(parts[i].as_str());
        i = i + 1;
    }
    assert(texts.take(i as int) =~= texts);
    line
}

/// The drawing of the farm: every slot drawn with the combination planted
/// on it, or empty behind the last of `combos`, the slots side by side in
/// rows as they lie on the farm.
pub fn compose(
    combos: &Vec<Combo>,
    ratio: &CropRatios,
    farm_size: &FarmSize,
    palette: &Palette,
) -> (lines: Vec<String>)
    requires
        forall|i: int| 0 <= i < combos@.len() ==> (#[trigger] combos@[i])@.len() == ratio.roles(),
    ensures
        lines_view(lines@) == composed(combo_views(combos@), *ratio, *farm_size, palette@),
{
    let ghost planted = combo_views(combos@);
    let ghost h = text_height(*ratio);
    let capacity: u32 = ratio.get_filled_size(farm_size);
    let row_size: usize = ratio.get_filled_size_horizontal(farm_size) as usize;
    let mut blocks: Vec<Vec<String>> = Vec::new();
    let mut slot: u32 = 0;
    while slot < capacity
        invariant
            slot <= capacity,
            planted == combo_views(combos@),
            h == text_height(*ratio),
            blocks@.len() == slot,
            forall|i: int|
                0 <= i < combos@.len() ==> (#[trigger] combos@[i])@.len() == ratio.roles(),
            forall|k: int|
                0 <= k < slot ==> lines_view((#[trigger] blocks@[k])@) == plot_at(
                    planted,
                    *ratio,
                    palette@,
                    k,
                ) && blocks@[k]@.len() == h,
        decreases capacity - slot,
    {
        let block: Vec<String> = if (slot as usize) < combos.len() {
            assert(planted[slot as int] == combos@[slot as int]@);
            plot_lines(ratio, &combos[slot as usize], palette)
        } else {
            empty_plot_lines(ratio)
        };
        blocks.push(block);
        slot = slot + 1;
    }
    let ghost all = plots(planted, *ratio, *farm_size, palette@);
    assert(blocks_view(blocks@) =~= all);
    let mut zip: GridZip = GridZip::new(blocks, row_size);
    let mut lines: Vec<String> = Vec::new();
    let ghost mut t: nat = 0;
    proof {
        assert forall|i: int| 0 <= i < all.len() implies (#[trigger] all[i]).len() == h by {
            assert(all[i] == lines_view(blocks@[i]@));
        }
        let n = zip@.row_end();
        if n > 0 {
            assert(all.subrange(0, n) =~= all.take(n));
            assert(row_text(all.take(n), h).skip(0) =~= row_text(all.take(n), h));
        }
        assert(lines_view(lines@) + pending(zip@, 0, h) =~= zipped(all, row_size as nat, h));
    }
    loop
        invariant
            h > 0,
            even(zip@, t, h),
            zip@.blocks == all,
            zip@.row_size == row_size,
            row_size == ratio.row_width(*farm_size),
            all == plots(combo_views(combos@), *ratio, *farm_size, palette@),
            h == text_height(*ratio),
            zipped(all, row_size as nat, h) == lines_view(lines@) + pending(zip@, t, h),
        decreases all.len() - zip@.start, h - t,
    {
        let ghost before = zip@;
        let ghost above = lines@;
        proof {
            if before.start < before.row_end() {
                if t < h {
                    lemma_next_in_row(before, t, h);
                } else {
                    lemma_next_row_spent(before, h);
                    if before.at_next_row().start < before.at_next_row().row_end() {
                        lemma_next_in_row(before.at_next_row(), 0, h);
                    }
                }
            }
        }
        match zip.next() {
            None => {
                proof {
                    assert(pending(before, t, h) == Seq::<Seq<char>>::empty());
                    assert(lines_view(lines@) + Seq::<Seq<char>>::empty() =~= lines_view(lines@));
                }
                return lines;
            },
            Some(parts) => {
                let line: String = join(&parts, " ");
                let ghost text = line@;
                lines.push(line);
                proof {
                    assert(lines_view(lines@) =~= lines_view(above).push(text));
                    if t < h {
                        t = t + 1;
                    } else {
                        t = 1;
                    }
                    assert(lines_view(above) + (seq![text] + pending(zip@, t, h)) =~= lines_view(
                        lines@,
                    ) + pending(zip@, t, h));
                }
            },
        }
    }
}

} // verus!
