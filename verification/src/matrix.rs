//! 3x3 matrices over any copyable scalar, addressed by (row, column).

use vstd::prelude::*;
use crate::traits::ToUsize;

verus! {

/// A 3x3 matrix, stored row by row.
pub struct Matrix3<S> {
    data: [[S; 3]; 3],
}

impl<S> View for Matrix3<S> {
    type V = Seq<Seq<S>>;

    /// The three rows, each a sequence of three entries.
    closed spec fn view(&self) -> Seq<Seq<S>> {
        Seq::new(3, |r: int| self.data[r]@)
    }
}

/// The rows `a`, `b`, `c`, each given by its three entries.
pub open spec fn rows3<S>(a: (S, S, S), b: (S, S, S), c: (S, S, S)) -> Seq<Seq<S>> {
    seq![seq![a.0, a.1, a.2], seq![b.0, b.1, b.2], seq![c.0, c.1, c.2]]
}

/// The identity over a scalar whose additive and multiplicative units are
/// `zero` and `one`: `one` where row and column agree, `zero` elsewhere.
pub open spec fn identity_rows<S>(zero: S, one: S) -> Seq<Seq<S>> {
    Seq::new(
        3,
        |r: int|
            Seq::new(
                3,
                |c: int|
                    if r == c {
                        one
                    } else {
                        zero
                    },
            ),
    )
}

/// Exactly three rows of exactly three entries.
pub open spec fn three_by_three<S>(rows: Seq<Seq<S>>) -> bool {
    rows.len() == 3 && forall|r: int| 0 <= r < 3 ==> (#[trigger] rows[r]).len() == 3
}

/// What a vector of rows holds, row by row.
pub open spec fn rows_of<S>(data: Seq<Vec<S>>) -> Seq<Seq<S>> {
    Seq::new(data.len(), |r: int| data[r]@)
}

impl<S: Copy> Matrix3<S> {
    /// Every matrix has three rows of three entries.
    pub proof fn lemma_shape(&self)
        ensures
            three_by_three(self@),
    {
    }

    /// The entry at (`row`, `column`).
    pub fn get_element<T: ToUsize>(&self, row: T, column: T) -> (element: S)
        requires
            row.index_value() < 3,
            column.index_value() < 3,
        ensures
            element == self@[row.index_value() as int][column.index_value() as int],
    {
        self.data[row.to_usize()][column.to_usize()]
    }

    /// Replaces the entry at (`row`, `column`) and leaves the other eight.
    pub fn set_element<T: ToUsize>(&mut self, row: T, column: T, new_element: S)
        requires
            row.index_value() < 3,
            column.index_value() < 3,
        ensures
            final(self)@ == old(self)@.update(
                row.index_value() as int,
                old(self)@[row.index_value() as int].update(
                    column.index_value() as int,
                    new_element,
                ),
            ),
    {
        let r: usize = row.to_usize();
        let c: usize = column.to_usize();
        self.data[r][c] = new_element;
    }

    /// The rows as vectors, in order.
    pub fn to_vec(&self) -> (rows: Vec<Vec<S>>)
        ensures
            rows@.len() == 3,
            forall|r: int| 0 <= r < 3 ==> (#[trigger] rows@[r])@ == self@[r],
            rows_of(rows@) == self@,
    {
        let rows: Vec<Vec<S>> = vec![
            vec![self.data[0][0], self.data[0][1], self.data[0][2]],
            vec![self.data[1][0], self.data[1][1], self.data[1][2]],
            vec![self.data[2][0], self.data[2][1], self.data[2][2]],
        ];
        assert(rows_of(rows@) =~~= self@);
        rows
    }
}

/// Whether `data` is exactly three rows of exactly three entries.
pub fn is_three_by_three<S>(data: &Vec<Vec<S>>) -> (ok: bool)
    ensures
        ok == three_by_three(rows_of(data@)),
{
    let ok: bool = data.len() == 3 && data[0].len() == 3 && data[1].len() == 3 && data[2].len()
        == 3;
    proof {
        if data.len() == 3 {
            assert(rows_of(data@)[0] == data@[0]@);
            assert(rows_of(data@)[1] == data@[1]@);
            assert(rows_of(data@)[2] == data@[2]@);
        }
    }
    ok
}

/// The matrix whose rows are `data`, where `data` is three rows of three
/// entries; for any other shape the identity built from `zero` and `one`.
pub fn matrix3_init<S: Copy>(data: &Vec<Vec<S>>, zero: S, one: S) -> (matrix: Matrix3<S>)
    ensures
        three_by_three(rows_of(data@)) ==> matrix@ == rows_of(data@),
        !three_by_three(rows_of(data@)) ==> matrix@ == identity_rows(zero, one),
{
    if !is_three_by_three(data) {
        return identity_matrix(zero, one);
    }
    proof {
        assert(rows_of(data@)[0] == data@[0]@);
        assert(rows_of(data@)[1] == data@[1]@);
        assert(rows_of(data@)[2] == data@[2]@);
    }
    let matrix: Matrix3<S> = Matrix3 {
        data: [
            [data[0][0], data[0][1], data[0][2]],
            [data[1][0], data[1][1], data[1][2]],
            [data[2][0], data[2][1], data[2][2]],
        ],
    };
    assert(matrix@ =~~= rows_of(data@));
    matrix
}

/// The identity matrix: `one` on the diagonal, `zero` elsewhere.
pub fn identity_matrix<S: Copy>(zero: S, one: S) -> (matrix: Matrix3<S>)
    ensures
        matrix@ == identity_rows(zero, one),
{
    let matrix: Matrix3<S> = Matrix3 { data: [[one, zero, zero], [zero, one, zero], [zero, zero, one]] };
    assert(matrix@ =~~= identity_rows(zero, one));
    matrix
}

/// The right-handed rotation about the x axis by the angle whose cosine is
/// `cos`, whose sine is `sin` and whose negated sine is `neg_sin`.
pub fn rotation_matrix_x<S: Copy>(cos: S, sin: S, neg_sin: S, zero: S, one: S) -> (matrix: Matrix3<
    S,
>)
    ensures
        matrix@ == rows3((one, zero, zero), (zero, cos, neg_sin), (zero, sin, cos)),
{
    Matrix3 { data: [[one, zero, zero], [zero, cos, neg_sin], [zero, sin, cos]] }
}

/// The right-handed rotation about the y axis by the angle whose cosine is
/// `cos`, whose sine is `sin` and whose negated sine is `neg_sin`.
pub fn rotation_matrix_y<S: Copy>(cos: S, sin: S, neg_sin: S, zero: S, one: S) -> (matrix: Matrix3<
    S,
>)
    ensures
        matrix@ == rows3((cos, zero, sin), (zero, one, zero), (neg_sin, zero, cos)),
{
    Matrix3 { data: [[cos, zero, sin], [zero, one, zero], [neg_sin, zero, cos]] }
}

/// The right-handed rotation about the z axis by the angle whose cosine is
/// `cos`, whose sine is `sin` and whose negated sine is `neg_sin`.
pub fn rotation_matrix_z<S: Copy>(cos: S, sin: S, neg_sin: S, zero: S, one: S) -> (matrix: Matrix3<
    S,
>)
    ensures
        matrix@ == rows3((cos, neg_sin, zero), (sin, cos, zero), (zero, zero, one)),
{
    Matrix3 { data: [[cos, neg_sin, zero], [sin, cos, zero], [zero, zero, one]] }
}

} // verus!
