use vstd::prelude::*;

verus! {

/// A cell of a chunk, counted from the chunk's own corner.
#[derive(Clone, Copy, Debug, PartialEq, Eq, Hash, Structural)]
pub struct IVec3 {
    pub x: i32,
    pub y: i32,
    pub z: i32,
}

/// A place on the unbounded grid: a block in world coordinates, or a chunk
/// in chunk coordinates.
#[derive(Clone, Copy, Debug, PartialEq, Eq, Hash, Structural)]
pub struct I64Vec3 {
    pub x: i64,
    pub y: i64,
    pub z: i64,
}

impl IVec3 {
    pub fn new(x: i32, y: i32, z: i32) -> (v: Self)
        ensures
            v == (IVec3 { x, y, z }),
    {
        IVec3 { x, y, z }
    }

    /// The same vector with wider components.
    pub open spec fn spec_as_i64vec3(self) -> I64Vec3 {
        I64Vec3 { x: self.x as i64, y: self.y as i64, z: self.z as i64 }
    }

    pub fn as_i64vec3(&self) -> (v: I64Vec3)
        ensures
            v == self.spec_as_i64vec3(),
    {
        I64Vec3 { x: self.x as i64, y: self.y as i64, z: self.z as i64 }
    }
}

impl I64Vec3 {
    pub fn new(x: i64, y: i64, z: i64) -> (v: Self)
        ensures
            v == (I64Vec3 { x, y, z }),
    {
        I64Vec3 { x, y, z }
    }

    /// Every component of the sum lies within `i64`.
    pub open spec fn can_add(self, rhs: I64Vec3) -> bool {
        &&& i64::MIN <= self.x + rhs.x <= i64::MAX
        &&& i64::MIN <= self.y + rhs.y <= i64::MAX
        &&& i64::MIN <= self.z + rhs.z <= i64::MAX
    }

    /// The component-wise sum.
    pub open spec fn spec_plus(self, rhs: I64Vec3) -> I64Vec3 {
        I64Vec3 {
            x: (self.x + rhs.x) as i64,
            y: (self.y + rhs.y) as i64,
            z: (self.z + rhs.z) as i64,
        }
    }

    pub fn plus(self, rhs: I64Vec3) -> (v: I64Vec3)
        requires
            self.can_add(rhs),
        ensures
            v == self.spec_plus(rhs),
    {
        I64Vec3 { x: self.x + rhs.x, y: self.y + rhs.y, z: self.z + rhs.z }
    }

    /// Every component of the product lies within `i64`.
    pub open spec fn can_scale(self, factor: i64) -> bool {
        &&& i64::MIN <= self.x * factor <= i64::MAX
        &&& i64::MIN <= self.y * factor <= i64::MAX
        &&& i64::MIN <= self.z * factor <= i64::MAX
    }

    /// Every component multiplied by `factor`.
    pub open spec fn spec_scaled(self, factor: i64) -> I64Vec3 {
        I64Vec3 {
            x: (self.x * factor) as i64,
            y: (self.y * factor) as i64,
            z: (self.z * factor) as i64,
        }
    }

    pub fn scaled(self, factor: i64) -> (v: I64Vec3)
        requires
            self.can_scale(factor),
        ensures
            v == self.spec_scaled(factor),
    {
        I64Vec3 { x: self.x * factor, y: self.y * factor, z: self.z * factor }
    }

    /// The product, or `None` where a component leaves `i64`.
    pub fn checked_scaled(self, factor: i64) -> (v: Option<I64Vec3>)
        ensures
            self.can_scale(factor) ==> v == Some(self.spec_scaled(factor)),
            !self.can_scale(factor) ==> v.is_none(),
    {
        match (self.x.checked_mul(factor), self.y.checked_mul(factor), self.z.checked_mul(factor)) {
            (Some(x), Some(y), Some(z)) => Some(I64Vec3 { x, y, z }),
            _ => None,
        }
    }
}

} // verus!
