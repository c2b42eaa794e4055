//! A 4 by 4 grid of coefficients, row after row, and its transpose.
use vstd::prelude::*;

verus! {

/// Sixteen coefficients of any kind: the rows of a 4 by 4 matrix, one after
/// another.
pub struct Matrix4<T> {
    m: [T; 16],
}

impl<T: Copy> View for Matrix4<T> {
    type V = Seq<T>;

    closed spec fn view(&self) -> Seq<T> {
        self.m@
    }
}

impl<T: Copy> Matrix4<T> {
    /// A matrix has sixteen coefficients.
    pub proof fn lemma_sixteen(self)
        ensures
            self@.len() == 16,
    {
    }

    /// The matrix with the coefficients `m`.
    pub fn raw(m: [T; 16]) -> (matrix: Self)
        ensures
            matrix@ == m@,
    {
        Matrix4 { m }
    }

    /// The coefficients, row after row.
    pub fn cells(&self) -> (m: &[T; 16])
        ensures
            m@ == self@,
            self@.len() == 16,
    {
        &self.m
    }

    /// The matrix whose rows are the columns of this one.
    pub fn transpose(&self) -> (flipped: Self)
        ensures
            flipped@ == transposed(self@),
    {
        let mut arr: [T; 16] = self.m;
        let mut row: usize = 0;
        while row < 4
            invariant
                row <= 4,
                forall|r: int, c: int|
                    0 <= r < row && 0 <= c < 4 ==> #[trigger] arr@[r * 4 + c] == self.m@[c * 4
                        + r],
            decreases 4 - row,
        {
            let mut col: usize = 0;
            while col < 4
                invariant
                    row < 4,
                    col <= 4,
                    forall|r: int, c: int|
                        0 <= r < row && 0 <= c < 4 ==> #[trigger] arr@[r * 4 + c] == self.m@[c
                            * 4 + r],
                    forall|c: int|
                        0 <= c < col ==> #[trigger] arr@[row * 4 + c] == self.m@[c * 4 + row],
                decreases 4 - col,
            {
                arr[row * 4 + col] = self.m[row + col * 4];
                col += 1;
            }
            row += 1;
        }
        proof {
            assert forall|i: int| 0 <= i < 16 implies arr@[i] == transposed(self.m@)[i] by {
                let r = i / 4;
                let c = i % 4;
                assert(arr@[r * 4 + c] == self.m@[c * 4 + r]);
            }
            assert(arr@ =~= transposed(self.m@));
        }
        Matrix4 { m: arr }
    }
}

/// The coefficients of the transpose of the matrix with the coefficients
/// `cells`: what stood in row `r` and column `c` stands in row `c` and
/// column `r`.
pub open spec fn transposed<T>(cells: Seq<T>) -> Seq<T> {
    Seq::new(16, |i: int| cells[(i % 4) * 4 + i / 4])
}

/// Transposing twice gives the matrix back.
pub proof fn lemma_transpose_twice<T>(cells: Seq<T>)
    requires
        cells.len() == 16,
    ensures
        transposed(transposed(cells)) == cells,
{
    assert forall|i: int| 0 <= i < 16 implies transposed(transposed(cells))[i] == cells[i] by {
        let j = (i % 4) * 4 + i / 4;
        assert((j % 4) * 4 + j / 4 == i);
    }
    assert(transposed(transposed(cells)) =~= cells);
}

} // verus!
