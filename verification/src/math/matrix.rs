use super::single::Single;
use vstd::prelude::*;

verus! {

/// Four single-precision numbers: one column of a [`Mat4`].
#[derive(Clone, Copy, Debug, PartialEq, Eq, Hash, Structural)]
pub struct Vec4 {
    pub x: Single,
    pub y: Single,
    pub z: Single,
    pub w: Single,
}

/// A 4×4 matrix of single-precision numbers, stored by columns.
#[derive(Clone, Copy, Debug, PartialEq, Eq, Hash, Structural)]
pub struct Mat4 {
    pub x_axis: Vec4,
    pub y_axis: Vec4,
    pub z_axis: Vec4,
    pub w_axis: Vec4,
}

impl Vec4 {
    pub open spec fn spec_new(x: Single, y: Single, z: Single, w: Single) -> Vec4 {
        Vec4 { x, y, z, w }
    }

    pub fn new(x: Single, y: Single, z: Single, w: Single) -> (v: Vec4)
        ensures
            v == Self::spec_new(x, y, z, w),
    {
        Vec4 { x, y, z, w }
    }

}

impl Mat4 {
    /// The matrix that leaves every point where it is.
    pub open spec fn spec_identity() -> Mat4 {
        let o = Single { bits: 0 };
        let i = Single { bits: 0x3F80_0000 };
        Mat4 {
            x_axis: Vec4 { x: i, y: o, z: o, w: o },
            y_axis: Vec4 { x: o, y: i, z: o, w: o },
            z_axis: Vec4 { x: o, y: o, z: i, w: o },
            w_axis: Vec4 { x: o, y: o, z: o, w: i },
        }
    }

    /// The matrix of zeros.
    pub open spec fn spec_zero() -> Mat4 {
        let o = Single { bits: 0 };
        let column = Vec4 { x: o, y: o, z: o, w: o };
        Mat4 { x_axis: column, y_axis: column, z_axis: column, w_axis: column }
    }

    /// The matrix that moves every point by `(x, y, z)`: the identity with
    /// the translation in its last column.
    pub open spec fn spec_from_translation(x: Single, y: Single, z: Single) -> Mat4 {
        Mat4 { w_axis: Vec4 { x, y, z, w: Single { bits: 0x3F80_0000 } }, ..Self::spec_identity() }
    }

    /// Rows and columns exchanged: the number in column `c`, row `r` goes to
    /// column `r`, row `c`.
    pub open spec fn spec_transpose(self) -> Mat4 {
        Mat4 {
            x_axis: Vec4 { x: self.x_axis.x, y: self.y_axis.x, z: self.z_axis.x, w: self.w_axis.x },
            y_axis: Vec4 { x: self.x_axis.y, y: self.y_axis.y, z: self.z_axis.y, w: self.w_axis.y },
            z_axis: Vec4 { x: self.x_axis.z, y: self.y_axis.z, z: self.z_axis.z, w: self.w_axis.z },
            w_axis: Vec4 { x: self.x_axis.w, y: self.y_axis.w, z: self.z_axis.w, w: self.w_axis.w },
        }
    }

    /// The sixteen numbers in storage order: column by column, each from `x` to `w`.
    pub open spec fn words(self) -> Seq<Single> {
        seq![
            self.x_axis.x,
            self.x_axis.y,
            self.x_axis.z,
            self.x_axis.w,
            self.y_axis.x,
            self.y_axis.y,
            self.y_axis.z,
            self.y_axis.w,
            self.z_axis.x,
            self.z_axis.y,
            self.z_axis.z,
            self.z_axis.w,
            self.w_axis.x,
            self.w_axis.y,
            self.w_axis.z,
            self.w_axis.w,
        ]
    }

    /// The bits of the sixteen numbers in storage order.
    pub open spec fn bits(self) -> Seq<u32> {
        self.words().map_values(|s: Single| s.bits)
    }

    pub fn zero() -> (m: Mat4)
        ensures
            m == Self::spec_zero(),
    {
        let o = Single::zero();
        let column = Vec4::new(o, o, o, o);
        Mat4 { x_axis: column, y_axis: column, z_axis: column, w_axis: column }
    }

    pub fn identity() -> (m: Mat4)
        ensures
            m == Self::spec_identity(),
    {
        let o = Single::zero();
        let i = Single::one();
        Mat4 {
            x_axis: Vec4::new(i, o, o, o),
            y_axis: Vec4::new(o, i, o, o),
            z_axis: Vec4::new(o, o, i, o),
            w_axis: Vec4::new(o, o, o, i),
        }
    }

    pub fn from_translation(x: Single, y: Single, z: Single) -> (m: Mat4)
        ensures
            m == Self::spec_from_translation(x, y, z),
    {
        let mut m = Self::identity();
        m.w_axis = Vec4::new(x, y, z, Single::one());
        m
    }

    pub fn transpose(&self) -> (t: Mat4)
        ensures
            t == self.spec_transpose(),
    {
        Mat4 {
            x_axis: Vec4::new(self.x_axis.x, self.y_axis.x, self.z_axis.x, self.w_axis.x),
            y_axis: Vec4::new(self.x_axis.y, self.y_axis.y, self.z_axis.y, self.w_axis.y),
            z_axis: Vec4::new(self.x_axis.z, self.y_axis.z, self.z_axis.z, self.w_axis.z),
            w_axis: Vec4::new(self.x_axis.w, self.y_axis.w, self.z_axis.w, self.w_axis.w),
        }
    }

    /// Builds a matrix from the bits of its sixteen numbers in storage order.
    pub fn from_cols_array(bits: &[u32; 16]) -> (m: Mat4)
        ensures
            m.bits() == bits@,
    {
        let m = Mat4 {
            x_axis: Vec4 {
                x: Single { bits: bits[0] },
                y: Single { bits: bits[1] },
                z: Single { bits: bits[2] },
                w: Single { bits: bits[3] },
            },
            y_axis: Vec4 {
                x: Single { bits: bits[4] },
                y: Single { bits: bits[5] },
                z: Single { bits: bits[6] },
                w: Single { bits: bits[7] },
            },
            z_axis: Vec4 {
                x: Single { bits: bits[8] },
                y: Single { bits: bits[9] },
                z: Single { bits: bits[10] },
                w: Single { bits: bits[11] },
            },
            w_axis: Vec4 {
                x: Single { bits: bits[12] },
                y: Single { bits: bits[13] },
                z: Single { bits: bits[14] },
                w: Single { bits: bits[15] },
            },
        };
        assert(m.bits() =~= bits@);
        m
    }

    /// The bits of the sixteen numbers in storage order.
    pub fn to_cols_array(&self) -> (bits: [u32; 16])
        ensures
            bits@ == self.bits(),
    {
        let bits: [u32; 16] = [
            self.x_axis.x.bits,
            self.x_axis.y.bits,
            self.x_axis.z.bits,
            self.x_axis.w.bits,
            self.y_axis.x.bits,
            self.y_axis.y.bits,
            self.y_axis.z.bits,
            self.y_axis.w.bits,
            self.z_axis.x.bits,
            self.z_axis.y.bits,
            self.z_axis.z.bits,
            self.z_axis.w.bits,
            self.w_axis.x.bits,
            self.w_axis.y.bits,
            self.w_axis.z.bits,
            self.w_axis.w.bits,
        ];
        assert(bits@ =~= self.bits());
        bits
    }
}

/// Transposing twice gives the matrix back.
pub proof fn lemma_transpose_involutive(m: Mat4)
    ensures
        m.spec_transpose().spec_transpose() == m,
{
}

/// In storage order, the transpose holds at place `4 * i + j` what the
/// matrix holds at place `4 * j + i`.
pub proof fn lemma_transpose_words(m: Mat4, i: int, j: int)
    requires
        0 <= i < 4,
        0 <= j < 4,
    ensures
        m.words().len() == 16,
        m.spec_transpose().words()[4 * i + j] == m.words()[4 * j + i],
{
}

} // verus!
