//! A grid of `W` columns and `H` rows, stored in row-major order in a [`Vec`].
//!
//! The cell at column `x` and row `y` is element `y * W + x` of the backing vector;
//! `(0, 0)` is the top left.
use vstd::prelude::*;

verus! {

/// The position in the backing vector of the cell at column `x` and row `y` of a
/// grid `w` columns wide.
pub open spec fn cell_index(w: int, x: int, y: int) -> int {
    y * w + x
}

/// Struct for a 2D Array, backed by a [`Vec`].
pub struct TwoArray<T, const W: usize, const H: usize> {
    /// Base of the struct which holds all of the data, row after row.
    pub backing: Vec<T>,
}

impl<T, const W: usize, const H: usize> TwoArray<T, W, H> {
    /// Whether the backing vector holds exactly one element for each cell.
    pub open spec fn wf(&self) -> bool {
        self.backing@.len() == W * H
    }

    /// The position in the backing vector of the cell at column `x` and row `y`,
    /// or `None` where the cell lies outside the grid.
    pub fn index_of(x: usize, y: usize) -> (r: Option<usize>)
        requires
            W * H <= usize::MAX,
        ensures
            r is Some <==> x < W && y < H,
            r is Some ==> r->Some_0 == cell_index(W as int, x as int, y as int) && r->Some_0 < W
                * H,
    {
        if x < W && y < H {
            proof {
                lemma_cell_in_grid(W as int, H as int, x as int, y as int);
            }
            Some(y * W + x)
        } else {
            None
        }
    }

    /// Instantiates a new `TwoArray` whose cell at column `x` and row `y` holds
    /// `f(x, y)`, filled row after row.
    pub fn from_function<F: Fn(usize, usize) -> T>(f: F) -> (r: Self)
        requires
            W * H <= usize::MAX,
            forall|x: usize, y: usize| x < W && y < H ==> #[trigger] f.requires((x, y)),
        ensures
            r.wf(),
            forall|x: usize, y: usize|
                x < W && y < H ==> #[trigger] f.ensures(
                    (x, y),
                    r.backing@[cell_index(W as int, x as int, y as int)],
                ),
    {
        let mut backing: Vec<T> = Vec::new();
        let mut y: usize = 0;
        while y < H
            invariant
                W * H <= usize::MAX,
                y <= H,
                forall|x: usize, y: usize| x < W && y < H ==> #[trigger] f.requires((x, y)),
                backing@.len() == y * W,
                forall|i: usize, j: usize|
                    i < W && j < y ==> #[trigger] f.ensures(
                        (i, j),
                        backing@[cell_index(W as int, i as int, j as int)],
                    ),
            decreases H - y,
        {
            let mut x: usize = 0;
            while x < W
                invariant
                    W * H <= usize::MAX,
                    y < H,
                    x <= W,
                    forall|x: usize, y: usize| x < W && y < H ==> #[trigger] f.requires((x, y)),
                    backing@.len() == y * W + x,
                    forall|i: usize, j: usize|
                        (i < W && j < y) || (i < x && j == y) ==> #[trigger] f.ensures(
                            (i, j),
                            backing@[cell_index(W as int, i as int, j as int)],
                        ),
                decreases W - x,
            {
                proof {
                    lemma_cell_in_grid(W as int, H as int, x as int, y as int);
                }
                let v = f(x, y);
                let ghost before = backing@;
                backing.push(v);
                proof {
                    assert forall|i: usize, j: usize|
                        (i < W && j < y) || (i < x + 1 && j == y) implies #[trigger] f.ensures(
                        (i, j),
                        backing@[cell_index(W as int, i as int, j as int)],
                    ) by {
                        if j < y {
                            lemma_cell_in_grid(W as int, y as int, i as int, j as int);
                        }
                        if j < y || i < x {
                            assert(backing@[cell_index(W as int, i as int, j as int)] == before[cell_index(
                                W as int,
                                i as int,
                                j as int,
                            )]);
                        }
                    }
                }
                x = x + 1;
            }
            proof {
                assert((y + 1) * W == y * W + W) by (nonlinear_arith);
                assert(H * W == W * H) by (nonlinear_arith);
                assert forall|i: usize, j: usize| i < W && j < y + 1 implies #[trigger] f.ensures(
                    (i, j),
                    backing@[cell_index(W as int, i as int, j as int)],
                ) by {}
            }
            y = y + 1;
        }
        assert(backing@.len() == W * H) by (nonlinear_arith)
            requires
                backing@.len() == y * W,
                y == H,
        ;
        TwoArray { backing }
    }

    /// A reference to the cell at column `x` and row `y`, or `None` where the cell
    /// lies outside the grid.
    pub fn get(&self, x: usize, y: usize) -> (r: Option<&T>)
        requires
            self.wf(),
            W * H <= usize::MAX,
        ensures
            r is Some <==> x < W && y < H,
            r is Some ==> *r->Some_0 == self.backing@[cell_index(W as int, x as int, y as int)],
    {
        match Self::index_of(x, y) {
            Some(i) => Some(&self.backing[i]),
            None => None,
        }
    }

    /// A mutable reference to the cell at column `x` and row `y`, or `None` where
    /// the cell lies outside the grid.
    pub fn get_mut(&mut self, x: usize, y: usize) -> (r: Option<&mut T>)
        requires
            old(self).wf(),
            W * H <= usize::MAX,
        ensures
            r is Some <==> x < W && y < H,
            r is Some ==> *r->Some_0 == old(self).backing@[cell_index(W as int, x as int, y as int)]
                && final(self).backing@ == old(self).backing@.update(
                cell_index(W as int, x as int, y as int),
                *final(r->Some_0),
            ),
            r is None ==> *final(self) == *old(self),
    {
        match Self::index_of(x, y) {
            Some(i) => Some(&mut self.backing[i]),
            None => None,
        }
    }
}

impl<T: Clone, const W: usize, const H: usize> TwoArray<T, W, H> {
    /// Instantiates a new `TwoArray`, with every cell a clone of `default`.
    ///
    /// If you want to just use the default T value, then consider using the
    /// [`Default`] trait implementation.
    pub fn from_one_clone(default: T) -> (r: Self)
        requires
            W * H <= usize::MAX,
        ensures
            r.wf(),
            forall|i: int| 0 <= i < W * H ==> cloned(default, #[trigger] r.backing@[i]),
    {
        TwoArray { backing: vec![default; W * H] }
    }
}

impl<T: Default, const W: usize, const H: usize> Default for TwoArray<T, W, H> {
    /// A `TwoArray` with an empty backing vector, to be filled by the caller.
    fn default() -> (r: Self)
        ensures
            r.backing@.len() == 0,
    {
        TwoArray { backing: Vec::new() }
    }
}

/// A cell inside a grid of `w` by `h` cells lies inside the backing vector.
pub proof fn lemma_cell_in_grid(w: int, h: int, x: int, y: int)
    requires
        0 <= x < w,
        0 <= y < h,
    ensures
        0 <= cell_index(w, x, y) < w * h,
        cell_index(w, x, y) < h * w,
{
    assert(0 <= y * w + x < w * h && y * w + x < h * w) by (nonlinear_arith)
        requires
            0 <= x < w,
            0 <= y < h,
    ;
}

} // verus!
