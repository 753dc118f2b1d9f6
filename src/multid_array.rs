//! An earlier form of the grid in [`crate::twod_array`], whose backing vector is
//! private.
use crate::twod_array::{cell_index, lemma_cell_in_grid};
use vstd::prelude::*;

verus! {

/// Struct for a 2D Array, backed by a [`Vec`].
pub struct TwoArray<T, const W: usize, const H: usize> {
    /// Base of the struct which holds all of the data, row after row.
    backing: Vec<T>,
}

impl<T, const W: usize, const H: usize> TwoArray<T, W, H> {
    /// The cells, row after row.
    pub closed spec fn cells(&self) -> Seq<T> {
        self.backing@
    }

    /// A reference to the cell at column `x` and row `y`, or `None` where the cell
    /// lies outside the grid or was never filled.
    pub fn get(&self, x: usize, y: usize) -> (r: Option<&T>)
        requires
            W * H <= usize::MAX,
        ensures
            r is Some <==> x < W && y < H && cell_index(W as int, x as int, y as int)
                < self.cells().len(),
            r is Some ==> *r->Some_0 == self.cells()[cell_index(W as int, x as int, y as int)],
    {
        if x < W && y < H {
            proof {
                lemma_cell_in_grid(W as int, H as int, x as int, y as int);
            }
            let i = y * W + x;
            if i < self.backing.len() {
                return Some(&self.backing[i]);
            }
        }
        None
    }
}

impl<T: Clone, const W: usize, const H: usize> TwoArray<T, W, H> {
    /// Instantiates a new `TwoArray`, with every cell a clone of `default`.
    ///
    /// If you want to just use the default T value, then consider using the
    /// [`Default`] trait implementation.
    pub fn from_one_clone(default: T) -> (r: Self)
        requires
            W * H <= usize::MAX,
        ensures
            r.cells().len() == W * H,
            forall|i: int| 0 <= i < W * H ==> cloned(default, #[trigger] r.cells()[i]),
    {
        TwoArray { backing: vec![default; W * H] }
    }
}

impl<T: Default, const W: usize, const H: usize> Default for TwoArray<T, W, H> {
    /// A `TwoArray` with no cells filled.
    fn default() -> (r: Self)
        ensures
            r.cells().len() == 0,
    {
        TwoArray { backing: Vec::new() }
    }
}

} // verus!
