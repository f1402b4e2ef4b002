//! The algebra of the mirror-reflection formula used by the metal and
//! dielectric materials: `reflect(v, n) = v - 2 (v . n) n`.
//!
//! The renderer evaluates the formula on floating-point vectors; the law it
//! is built on is algebraic, and is stated and proved here over a vector model
//! with exact integer components.

use vstd::prelude::*;

verus! {

/// A three-component vector with exact integer components; the model over
/// which the reflection law is stated.
pub ghost struct Vec3 {
    pub x: int,
    pub y: int,
    pub z: int,
}

impl Vec3 {
    /// The inner product of two vectors.
    pub open spec fn dot(self, other: Vec3) -> int {
        self.x * other.x + self.y * other.y + self.z * other.z
    }

    /// The vector scaled by `k`.
    pub open spec fn scaled(self, k: int) -> Vec3 {
        Vec3 { x: k * self.x, y: k * self.y, z: k * self.z }
    }

    /// The difference of two vectors.
    pub open spec fn diff(self, other: Vec3) -> Vec3 {
        Vec3 { x: self.x - other.x, y: self.y - other.y, z: self.z - other.z }
    }
}

/// The mirror reflection of an incoming vector `v` at a surface with normal
/// `n`: `v - 2 (v . n) n`.
pub open spec fn reflect(v: Vec3, n: Vec3) -> Vec3 {
    v.diff(n.scaled(2 * v.dot(n)))
}

/// Reflection at a unit normal flips the normal component of the incoming
/// vector and keeps its tangential component.
pub proof fn lemma_reflect_flips_normal_component(v: Vec3, n: Vec3)
    requires
        n.dot(n) == 1,
    ensures
        reflect(v, n).dot(n) == -v.dot(n),
        reflect(v, n).diff(n.scaled(reflect(v, n).dot(n))) == v.diff(n.scaled(v.dot(n))),
{
    let d: int = v.dot(n);
    assert((v.x - 2 * d * n.x) * n.x + (v.y - 2 * d * n.y) * n.y + (v.z - 2 * d * n.z) * n.z
        == -d) by (nonlinear_arith)
        requires
            n.x * n.x + n.y * n.y + n.z * n.z == 1,
            d == v.x * n.x + v.y * n.y + v.z * n.z,
    ;
    assert((-d) * n.x == -(d * n.x) && (-d) * n.y == -(d * n.y) && (-d) * n.z == -(d * n.z))
        by (nonlinear_arith);
    assert((2 * d) * n.x == d * n.x + d * n.x && (2 * d) * n.y == d * n.y + d * n.y && (2 * d)
        * n.z == d * n.z + d * n.z) by (nonlinear_arith);
}

} // verus!
