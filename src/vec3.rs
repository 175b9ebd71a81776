//! Three-component integer vectors and their arithmetic.
use vstd::prelude::*;

verus! {

/// The mathematical value of a vector: three unbounded integers.
pub type Vec3Model = (int, int, int);

pub open spec fn add_v(a: Vec3Model, b: Vec3Model) -> Vec3Model {
    (a.0 + b.0, a.1 + b.1, a.2 + b.2)
}

pub open spec fn sub_v(a: Vec3Model, b: Vec3Model) -> Vec3Model {
    (a.0 - b.0, a.1 - b.1, a.2 - b.2)
}

pub open spec fn scale_v(a: Vec3Model, s: int) -> Vec3Model {
    (a.0 * s, a.1 * s, a.2 * s)
}

pub open spec fn hadamard_v(a: Vec3Model, b: Vec3Model) -> Vec3Model {
    (a.0 * b.0, a.1 * b.1, a.2 * b.2)
}

pub open spec fn dot_v(a: Vec3Model, b: Vec3Model) -> int {
    a.0 * b.0 + a.1 * b.1 + a.2 * b.2
}

/// The squared Euclidean length of a vector.
pub open spec fn norm_sq_v(a: Vec3Model) -> int {
    dot_v(a, a)
}

/// Every component of `a` is representable as an `i32`.
pub open spec fn fits_i32(a: Vec3Model) -> bool {
    i32::MIN <= a.0 <= i32::MAX && i32::MIN <= a.1 <= i32::MAX && i32::MIN <= a.2 <= i32::MAX
}

/// A vector with three `i32` components; a plain value, never mutated in place.
#[derive(Clone, Copy, Debug, PartialEq, Eq, Structural)]
pub struct Vec3 {
    pub x: i32,
    pub y: i32,
    pub z: i32,
}

impl View for Vec3 {
    type V = Vec3Model;

    open spec fn view(&self) -> Vec3Model {
        (self.x as int, self.y as int, self.z as int)
    }
}

/// A square of an `i32` is at most 2^62.
pub proof fn lemma_square_bound(a: int)
    requires
        i32::MIN <= a <= i32::MAX,
    ensures
        0 <= a * a <= 0x4000_0000_0000_0000,
{
    assert(0 <= a * a <= 0x4000_0000_0000_0000) by (nonlinear_arith)
        requires
            -0x8000_0000 <= a <= 0x7fff_ffff,
    ;
}

/// A product of two `i32` values lies within ±2^62.
pub proof fn lemma_product_bound(a: int, b: int)
    requires
        i32::MIN <= a <= i32::MAX,
        i32::MIN <= b <= i32::MAX,
    ensures
        -0x4000_0000_0000_0000 <= a * b <= 0x4000_0000_0000_0000,
{
    assert(-0x4000_0000_0000_0000 <= a * b <= 0x4000_0000_0000_0000) by (nonlinear_arith)
        requires
            -0x8000_0000 <= a <= 0x7fff_ffff,
            -0x8000_0000 <= b <= 0x7fff_ffff,
    ;
}

/// A dot product of two `i32` vectors lies within ±3 * 2^62.
pub proof fn lemma_dot_bound(a: Vec3Model, b: Vec3Model)
    requires
        fits_i32(a),
        fits_i32(b),
    ensures
        -0xC000_0000_0000_0000 <= dot_v(a, b) <= 0xC000_0000_0000_0000,
{
    lemma_product_bound(a.0, b.0);
    lemma_product_bound(a.1, b.1);
    lemma_product_bound(a.2, b.2);
}

/// A squared length of an `i32` vector lies within [0, 3 * 2^62].
pub proof fn lemma_norm_sq_bound(a: Vec3Model)
    requires
        fits_i32(a),
    ensures
        0 <= norm_sq_v(a) <= 0xC000_0000_0000_0000,
{
    lemma_square_bound(a.0);
    lemma_square_bound(a.1);
    lemma_square_bound(a.2);
}

/// Subtracting `b` and then adding it back gives `a` again.
pub proof fn lemma_sub_then_add(a: Vec3Model, b: Vec3Model)
    ensures
        add_v(sub_v(a, b), b) == a,
{
}

impl Vec3 {
    pub fn new(x: i32, y: i32, z: i32) -> (r: Vec3)
        ensures
            r@ == (x as int, y as int, z as int),
    {
        Vec3 { x, y, z }
    }

    /// The sum of the component-wise products.
    pub fn dot(&self, other: &Vec3) -> (r: i128)
        ensures
            r == dot_v(self@, other@),
    {
        proof {
            lemma_product_bound(self.x as int, other.x as int);
            lemma_product_bound(self.y as int, other.y as int);
            lemma_product_bound(self.z as int, other.z as int);
        }
        (self.x as i128) * (other.x as i128) + (self.y as i128) * (other.y as i128) + (self.z
            as i128) * (other.z as i128)
    }

    /// The squared Euclidean length, `dot(self, self)`.
    pub fn norm_squared(&self) -> (r: i128)
        ensures
            r == norm_sq_v(self@),
            r >= 0,
    {
        proof {
            lemma_norm_sq_bound(self@);
        }
        self.dot(self)
    }

    /// The component-wise difference `self - other`.
    pub fn sub(&self, other: &Vec3) -> (r: Vec3)
        requires
            fits_i32(sub_v(self@, other@)),
        ensures
            r@ == sub_v(self@, other@),
    {
        Vec3 { x: self.x - other.x, y: self.y - other.y, z: self.z - other.z }
    }

    /// Every component multiplied by the scalar `s`.
    pub fn scale(&self, s: i32) -> (r: Vec3)
        requires
            fits_i32(scale_v(self@, s as int)),
        ensures
            r@ == scale_v(self@, s as int),
    {
        Vec3 { x: self.x * s, y: self.y * s, z: self.z * s }
    }

    /// The component-wise (Hadamard) product.
    pub fn mul_components(&self, other: &Vec3) -> (r: Vec3)
        requires
            fits_i32(hadamard_v(self@, other@)),
        ensures
            r@ == hadamard_v(self@, other@),
    {
        Vec3 { x: self.x * other.x, y: self.y * other.y, z: self.z * other.z }
    }
}

} // verus!
