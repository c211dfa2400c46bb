use vstd::prelude::*;

verus! {

/// Why two matrices cannot be multiplied.
#[derive(Debug, Clone, Copy, PartialEq, Eq, Structural)]
pub enum ShapeError {
    /// The rows of the left operand differ in length.
    RaggedLeft,
    /// The rows of the right operand differ in length.
    RaggedRight,
    /// The left operand's column count differs from the right operand's row count.
    Mismatch { left_cols: usize, right_rows: usize },
}

/// The dimensions of a product `A * B`: `A` is `rows x inner`, `B` is
/// `inner x cols`, and the product is `rows x cols`.
#[derive(Debug, Clone, Copy, PartialEq, Eq, Structural)]
pub struct ProductShape {
    pub rows: usize,
    pub inner: usize,
    pub cols: usize,
}

/// The column count of a matrix given by its row lengths: the length of its
/// first row, or 0 for a matrix with no rows.
pub open spec fn width(row_lens: Seq<usize>) -> nat {
    if row_lens.len() == 0 {
        0
    } else {
        row_lens[0] as nat
    }
}

/// Every row has the same length.
pub open spec fn rectangular(row_lens: Seq<usize>) -> bool {
    forall|i: int| 0 <= i < row_lens.len() ==> #[trigger] row_lens[i] == width(row_lens)
}

/// The product shape owed for operands with these row lengths, or the
/// reason there is none.
pub open spec fn product_shape_of(a: Seq<usize>, b: Seq<usize>) -> Result<ProductShape, ShapeError> {
    if !rectangular(a) {
        Err(ShapeError::RaggedLeft)
    } else if !rectangular(b) {
        Err(ShapeError::RaggedRight)
    } else if width(a) != b.len() {
        Err(ShapeError::Mismatch { left_cols: width(a) as usize, right_rows: b.len() as usize })
    } else {
        Ok(ProductShape { rows: a.len() as usize, inner: b.len() as usize, cols: width(b) as usize })
    }
}

fn is_rectangular(row_lens: &Vec<usize>) -> (r: bool)
    ensures
        r == rectangular(row_lens@),
{
    if row_lens.len() == 0 {
        return true;
    }
    let w = row_lens[0];
    let mut i: usize = 1;
    while i < row_lens.len()
        invariant
            1 <= i <= row_lens@.len(),
            w == width(row_lens@),
            forall|t: int| 0 <= t < i ==> #[trigger] row_lens@[t] == w,
        decreases row_lens@.len() - i,
    {
        if row_lens[i] != w {
            return false;
        }
        i = i + 1;
    }
    true
}

/// Checks that a matrix with rows of lengths `a_row_lens` can be multiplied
/// by one with rows of lengths `b_row_lens`, and gives the product's shape.
/// Both operands must be rectangular, and the left one must have as many
/// columns as the right one has rows.
pub fn product_shape(a_row_lens: &Vec<usize>, b_row_lens: &Vec<usize>) -> (r: Result<ProductShape, ShapeError>)
    ensures
        r == product_shape_of(a_row_lens@, b_row_lens@),
{
    if !is_rectangular(a_row_lens) {
        return Err(ShapeError::RaggedLeft);
    }
    if !is_rectangular(b_row_lens) {
        return Err(ShapeError::RaggedRight);
    }
    let left_cols: usize = if a_row_lens.len() == 0 { 0 } else { a_row_lens[0] };
    let right_cols: usize = if b_row_lens.len() == 0 { 0 } else { b_row_lens[0] };
    if left_cols != b_row_lens.len() {
        return Err(ShapeError::Mismatch { left_cols, right_rows: b_row_lens.len() });
    }
    Ok(ProductShape { rows: a_row_lens.len(), inner: b_row_lens.len(), cols: right_cols })
}

} // verus!
