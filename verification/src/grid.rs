//! The farm-wide drawing: the drawings of the plantings, which are blocks
//! of lines, set side by side in rows.

use crate::art::lines_view;
use vstd::prelude::*;

verus! {

/// The blocks of a grid, each as the sequence of its lines.
pub open spec fn blocks_view(blocks: Seq<Vec<String>>) -> Seq<Seq<Seq<char>>> {
    blocks.map_values(|block: Vec<String>| lines_view(block@))
}

/// The state of a `GridZip`, in the model.
pub ghost struct ZipState {
    /// The blocks, in the order of the grid, row after row.
    pub blocks: Seq<Seq<Seq<char>>>,
    /// For each block, how many of its lines have been drawn.
    pub drawn: Seq<nat>,
    /// The place of the first block of the row that is being drawn.
    pub start: nat,
    /// The number of blocks in a full row.
    pub row_size: nat,
}

impl ZipState {
    /// No more lines are drawn from a block than it has, and the row that
    /// is being drawn does not begin behind the last block.
    pub open spec fn wf(self) -> bool {
        &&& self.drawn.len() == self.blocks.len()
        &&& self.start <= self.blocks.len()
        &&& forall|i: int|
            0 <= i < self.blocks.len() ==> #[trigger] self.drawn[i] <= self.blocks[i].len()
    }

    /// The place behind the last block of the row that is being drawn.
    pub open spec fn row_end(self) -> int {
        if self.start + self.row_size < self.blocks.len() {
            (self.start + self.row_size) as int
        } else {
            self.blocks.len() as int
        }
    }

    /// Whether every line of the block at place `i` has been drawn.
    pub open spec fn spent(self, i: int) -> bool {
        self.drawn[i] >= self.blocks[i].len()
    }

    /// The first block at or behind `from` in the row that is spent; the
    /// end of the row when there is none.
    pub open spec fn first_spent(self, from: int) -> int
        decreases self.row_end() - from,
    {
        if from >= self.row_end() {
            self.row_end()
        } else if self.spent(from) {
            from
        } else {
            self.first_spent(from + 1)
        }
    }

    /// The state after one more line is drawn from each block of the row
    /// before the place `upto`.
    pub open spec fn advanced(self, upto: int) -> ZipState {
        ZipState {
            blocks: self.blocks,
            drawn: Seq::new(
                self.drawn.len(),
                |i: int|
                    if self.start <= i < upto {
                        self.drawn[i] + 1
                    } else {
                        self.drawn[i]
                    },
            ),
            start: self.start,
            row_size: self.row_size,
        }
    }

    /// The state at the beginning of the next row.
    pub open spec fn at_next_row(self) -> ZipState {
        ZipState {
            blocks: self.blocks,
            drawn: self.drawn,
            start: self.row_end() as nat,
            row_size: self.row_size,
        }
    }

    /// The next line of each block of the row, from left to right.
    pub open spec fn current(self) -> Seq<Seq<char>> {
        Seq::new(
            (self.row_end() - self.start) as nat,
            |k: int| self.blocks[self.start + k][self.drawn[self.start + k] as int],
        )
    }

    /// One step: the state after it, and the lines it gives, one of each
    /// block of a row, or `None` behind the last row.
    ///
    /// The blocks of the row are asked in turn for their next line. When
    /// one of them is spent, the lines drawn so far in this step are
    /// dropped, the row is left, and the step goes on with the next row.
    pub open spec fn next(self) -> (ZipState, Option<Seq<Seq<char>>>)
        decreases self.blocks.len() - self.start,
    {
        if self.row_end() <= self.start {
            (self, None)
        } else {
            let k = self.first_spent(self.start as int);
            if k == self.row_end() {
                (self.advanced(k), Some(self.current()))
            } else {
                self.advanced(k).at_next_row().next()
            }
        }
    }
}

/// Where `first_spent` lands: on `k`, when no block from `from` up to `k`
/// is spent and `k` is spent or the end of the row.
pub proof fn lemma_first_spent(state: ZipState, from: int, k: int)
    requires
        from <= k <= state.row_end(),
        forall|j: int| from <= j < k ==> !#[trigger] state.spent(j),
        k == state.row_end() || state.spent(k),
    ensures
        state.first_spent(from) == k,
    decreases k - from,
{
    if from < k {
        lemma_first_spent(state, from + 1, k);
    }
}

/// Draws the blocks of a grid side by side: each step gives one line of
/// each block of a row, row after row.
pub struct GridZip {
    internal: Vec<Vec<String>>,
    drawn: Vec<usize>,
    start: usize,
    row_size: usize,
}

impl View for GridZip {
    type V = ZipState;

    closed spec fn view(&self) -> ZipState {
        ZipState {
            blocks: blocks_view(self.internal@),
            drawn: self.drawn@.map_values(|n: usize| n as nat),
            start: self.start as nat,
            row_size: self.row_size as nat,
        }
    }
}

impl GridZip {
    /// A grid of the blocks `internal`, in rows of `row_size`, of which
    /// nothing has been drawn.
    pub fn new(internal: Vec<Vec<String>>, row_size: usize) -> (zip: GridZip)
        ensures
            zip@.wf(),
            zip@ == (ZipState {
                blocks: blocks_view(internal@),
                drawn: Seq::new(internal@.len(), |i: int| 0nat),
                start: 0,
                row_size: row_size as nat,
            }),
    {
        let mut drawn: Vec<usize> = Vec::new();
        let mut i: usize = 0;
        while i < internal.len()
            invariant
                i <= internal.len(),
                drawn@.len() == i,
                forall|k: int| 0 <= k < i ==> drawn@[k] == 0,
            decreases internal.len() - i,
        {
            drawn.push(0);
            i = i + 1;
        }
        let zip = GridZip { internal, drawn, start: 0, row_size };
        assert(zip@.drawn =~= Seq::new(internal@.len(), |i: int| 0nat));
        zip
    }

    /// The next line of the grid, as the lines of the blocks that stand
    /// side by side in it; `None` behind the last row.
    pub fn next(&mut self) -> (r: Option<Vec<String>>)
        requires
            old(self)@.wf(),
        ensures
            final(self)@.wf(),
            old(self)@.next() == (
                final(self)@,
                match r {
                    Some(parts) => Some(lines_view(parts@)),
                    None => None::<Seq<Seq<char>>>,
                },
            ),
    {
        assert(self.drawn@.len() == self@.drawn.len());
        assert(self.internal@.len() == self@.blocks.len());
        loop
            invariant
                self@.wf(),
                self.drawn@.len() == self.internal@.len(),
                self@.next() == old(self)@.next(),
            decreases self.internal.len() - self.start,
        {
            let len: usize = self.internal.len();
            let end: usize = if self.row_size < len - self.start {
                self.start + self.row_size
            } else {
                len
            };
            if end <= self.start {
                return None;
            }
            let ghost row = self@;
            let mut parts: Vec<String> = Vec::new();
            let mut i: usize = self.start;
            let mut spent: bool = false;
            assert(self@.drawn =~= row.advanced(i as int).drawn);
            while i < end && !spent
                invariant
                    row.wf(),
                    self.drawn@.len() == self.internal@.len(),
                    self.internal@.len() == row.blocks.len(),
                    end <= self.internal@.len(),
                    end == row.row_end(),
                    row.start <= i <= end,
                    self@ == row.advanced(i as int),
                    forall|j: int| row.start <= j < i ==> !#[trigger] row.spent(j),
                    spent ==> i < end && row.spent(i as int),
                    parts@.len() == i - row.start,
                    forall|k: int|
                        0 <= k < i - row.start ==> (#[trigger] parts@[k])@ == row.current()[k],
                decreases end - i, if spent { 0int } else { 1int },
            {
                let taken: usize = self.drawn[i];
                assert(self@.drawn[i as int] == taken);
                assert(taken == row.drawn[i as int]);
                assert(row.blocks[i as int] == lines_view(self.internal@[i as int]@));
                assert(self.internal@[i as int]@.len() == row.blocks[i as int].len());
                if taken < self.internal[i].len() {
                    let line: String = self.internal[i][taken].clone();
                    assert(line@ == row.blocks[i as int][taken as int]);
                    assert(!row.spent(i as int));
                    let ghost before = self.drawn@;
                    let ghost earlier = self@;
                    parts.push(line);
                    self.drawn.set(i, taken + 1);
                    i = i + 1;
                    assert(self.drawn@ == before.update(i - 1, (taken + 1) as usize));
                    assert forall|j: int| 0 <= j < self@.drawn.len() implies self@.drawn[j]
                        == row.advanced(i as int).drawn[j] by {
                        assert(earlier.drawn[j] == row.advanced(i - 1).drawn[j]);
                        assert(earlier.drawn[j] == before[j]);
                    }
                    assert(self@.drawn =~= row.advanced(i as int).drawn);
                } else {
                    spent = true;
                }
            }
            proof {
                lemma_first_spent(row, row.start as int, i as int);
                assert forall|j: int| 0 <= j < self@.blocks.len() implies #[trigger] self@.drawn[j]
                    <= self@.blocks[j].len() by {
                    assert(row.drawn[j] <= row.blocks[j].len());
                    if row.start <= j < i {
                        assert(!row.spent(j));
                    }
                }
            }
            if !spent {
                proof {
                    assert(lines_view(parts@) =~= row.current());
                }
                return Some(parts);
            }
            self.start = end;
            assert(self@ == row.advanced(i as int).at_next_row());
        }
    }
}

} // verus!
