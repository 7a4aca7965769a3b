use vstd::prelude::*;

verus! {

/// Dense occupancy map over the play-field: one flag per cell, true once the
/// cell has been claimed by a trail. Cell (x, y) lives at index
/// x * height + y of the flat vector.
pub struct Grid {
    pub width: usize,
    pub height: usize,
    pub cells: Vec<bool>,
}

/// The flat index of cell (x, y) lies inside a width * height vector.
proof fn lemma_cell_index_in_range(x: int, y: int, width: int, height: int) by (nonlinear_arith)
    requires
        0 <= x < width,
        0 <= y < height,
    ensures
        0 <= x * height + y < width * height,
{
}

/// Distinct cells have distinct flat indices.
proof fn lemma_cell_index_injective(x1: int, y1: int, x2: int, y2: int, height: int) by (nonlinear_arith)
    requires
        0 <= y1 < height,
        0 <= y2 < height,
        x1 * height + y1 == x2 * height + y2,
    ensures
        x1 == x2 && y1 == y2,
{
}

impl Grid {
    /// The dimensions are positive and the cell vector covers the whole
    /// field.
    pub open spec fn wf(&self) -> bool {
        &&& 0 < self.width
        &&& 0 < self.height
        &&& self.width * self.height <= usize::MAX
        &&& self.cells@.len() == self.width * self.height
    }

    /// Whether cell (x, y) is claimed.
    pub open spec fn claimed(&self, x: int, y: int) -> bool {
        self.cells@[x * self.height + y]
    }

    /// A fresh grid of the given dimensions with every cell free.
    pub fn new(width: usize, height: usize) -> (g: Grid)
        requires
            0 < width,
            0 < height,
            width * height <= usize::MAX,
        ensures
            g.wf(),
            g.width == width,
            g.height == height,
            forall|x: int, y: int|
                0 <= x < width && 0 <= y < height ==> !g.claimed(x, y),
    {
        let n = width * height;
        let mut cells: Vec<bool> = Vec::new();
        let mut k: usize = 0;
        while k < n
            invariant
                k <= n,
                cells@.len() == k,
                forall|i: int| 0 <= i < k ==> !cells@[i],
            decreases n - k,
        {
            cells.push(false);
            k = k + 1;
        }
        let g = Grid { width, height, cells };
        proof {
            assert forall|x: int, y: int|
                0 <= x < width && 0 <= y < height implies !g.claimed(x, y) by {
                lemma_cell_index_in_range(x, y, width as int, height as int);
            }
        }
        g
    }

    /// Whether cell (x, y) is already claimed.
    pub fn is_claimed(&self, x: usize, y: usize) -> (r: bool)
        requires
            self.wf(),
            x < self.width,
            y < self.height,
        ensures
            r == self.claimed(x as int, y as int),
    {
        proof {
            lemma_cell_index_in_range(x as int, y as int, self.width as int, self.height as int);
        }
        self.cells[x * self.height + y]
    }

    /// Claim cell (x, y); every other cell keeps its state. Claims are
    /// monotonic: a claimed cell never returns to free short of `clear`.
    pub fn claim(&mut self, x: usize, y: usize)
        requires
            old(self).wf(),
            x < old(self).width,
            y < old(self).height,
        ensures
            final(self).wf(),
            final(self).width == old(self).width,
            final(self).height == old(self).height,
            final(self).claimed(x as int, y as int),
            forall|i: int, j: int|
                0 <= i < old(self).width && 0 <= j < old(self).height ==>
                    #[trigger] final(self).claimed(i, j)
                        == (old(self).claimed(i, j) || (i == x && j == y)),
    {
        proof {
            lemma_cell_index_in_range(x as int, y as int, self.width as int, self.height as int);
        }
        let idx = x * self.height + y;
        self.cells[idx] = true;
        proof {
            assert forall|i: int, j: int|
                0 <= i < self.width && 0 <= j < self.height implies
                #[trigger] self.claimed(i, j)
                    == (old(self).claimed(i, j) || (i == x && j == y)) by {
                lemma_cell_index_in_range(i, j, self.width as int, self.height as int);
                if i * self.height + j == x as int * self.height + y as int {
                    lemma_cell_index_injective(i, j, x as int, y as int, self.height as int);
                }
            }
        }
    }

    /// Free every cell; dimensions are kept.
    pub fn clear(&mut self)
        requires
            old(self).wf(),
        ensures
            final(self).wf(),
            final(self).width == old(self).width,
            final(self).height == old(self).height,
            forall|x: int, y: int|
                0 <= x < old(self).width && 0 <= y < old(self).height
                    ==> !final(self).claimed(x, y),
    {
        let n = self.cells.len();
        let mut k: usize = 0;
        while k < n
            invariant
                k <= n,
                self.cells@.len() == n,
                self.width == old(self).width,
                self.height == old(self).height,
                n == self.width * self.height,
                forall|i: int| 0 <= i < k ==> !self.cells@[i],
            decreases n - k,
        {
            self.cells[k] = false;
            k = k + 1;
        }
        proof {
            assert forall|x: int, y: int|
                0 <= x < self.width && 0 <= y < self.height implies !self.claimed(x, y) by {
                lemma_cell_index_in_range(x, y, self.width as int, self.height as int);
            }
        }
    }
}

} // verus!
