//! A sphere and the exact test of whether a ray meets it.
use vstd::prelude::*;

use crate::vec3::{
    dot_v, fits_i32, lemma_dot_bound, lemma_norm_sq_bound, norm_sq_v, scale_v, sub_v, Vec3,
    Vec3Model,
};

verus! {

/// Whether the ray from `orig` along `dir` comes within `radius` of `center`.
///
/// The point of the ray closest to the centre lies at parameter
/// `t = max(0, L·dir / |dir|^2)` with `L = center - orig`. When `L·dir <= 0`
/// that point is the origin itself; otherwise its squared distance to the centre,
/// multiplied by `|dir|^2`, is `|L|^2 |dir|^2 - (L·dir)^2`.
pub open spec fn ray_hits(center: Vec3Model, radius: int, orig: Vec3Model, dir: Vec3Model) -> bool {
    let l = sub_v(center, orig);
    let tca = dot_v(l, dir);
    if tca <= 0 {
        norm_sq_v(l) <= radius * radius
    } else {
        norm_sq_v(l) * norm_sq_v(dir) - tca * tca <= radius * radius * norm_sq_v(dir)
    }
}

/// For the ray point `x = orig + (p / q) * dir`, the vector `q * (center - x)`,
/// that is `q * (center - orig) - p * dir`.
pub open spec fn scaled_offset(center: Vec3Model, orig: Vec3Model, dir: Vec3Model, p: int, q: int) -> Vec3Model {
    sub_v(scale_v(sub_v(center, orig), q), scale_v(dir, p))
}

/// The ray point at parameter `p / q` (with `p >= 0`, `q > 0`) lies in the closed ball.
pub open spec fn point_in_ball(
    center: Vec3Model,
    radius: int,
    orig: Vec3Model,
    dir: Vec3Model,
    p: int,
    q: int,
) -> bool {
    p >= 0 && q > 0 && norm_sq_v(scaled_offset(center, orig, dir, p, q)) <= q * q * (radius * radius)
}

proof fn lemma_sum_of_squares_nonneg(a: int, b: int, c: int)
    ensures
        a * a + b * b + c * c >= 0,
{
    assert(a * a + b * b + c * c >= 0) by (nonlinear_arith);
}

proof fn lemma_square_of_difference(x: int, y: int)
    by (nonlinear_arith)
    ensures
        (x - y) * (x - y) == x * x - 2 * (x * y) + y * y,
{
}

proof fn lemma_regroup(a: int, q: int, u: int, p: int)
    by (nonlinear_arith)
    ensures
        (a * q) * (u * p) == p * q * (a * u),
{
}

proof fn lemma_regroup_square(a: int, q: int)
    by (nonlinear_arith)
    ensures
        (a * q) * (a * q) == q * q * (a * a),
{
}

proof fn lemma_expand_component(a: int, u: int, p: int, q: int)
    ensures
        (a * q - u * p) * (a * q - u * p) == q * q * (a * a) - 2 * p * q * (a * u) + p * p * (u * u),
{
    lemma_square_of_difference(a * q, u * p);
    lemma_regroup(a, q, u, p);
    lemma_regroup_square(a, q);
    lemma_regroup_square(u, p);
    assert(2 * p * q * (a * u) == 2 * (p * q * (a * u))) by (nonlinear_arith);
}

proof fn lemma_distribute3(m: int, x: int, y: int, z: int)
    by (nonlinear_arith)
    ensures
        m * (x + y + z) == m * x + m * y + m * z,
{
}

/// Expands the squared length of the scaled offset between a ray point and the centre.
proof fn lemma_offset_expansion(center: Vec3Model, orig: Vec3Model, dir: Vec3Model, p: int, q: int)
    ensures
        norm_sq_v(scaled_offset(center, orig, dir, p, q)) == q * q * norm_sq_v(sub_v(center, orig))
            - 2 * p * q * dot_v(sub_v(center, orig), dir) + p * p * norm_sq_v(dir),
{
    let l = sub_v(center, orig);
    lemma_expand_component(l.0, dir.0, p, q);
    lemma_expand_component(l.1, dir.1, p, q);
    lemma_expand_component(l.2, dir.2, p, q);
    lemma_distribute3(q * q, l.0 * l.0, l.1 * l.1, l.2 * l.2);
    lemma_distribute3(2 * p * q, l.0 * dir.0, l.1 * dir.1, l.2 * dir.2);
    lemma_distribute3(p * p, dir.0 * dir.0, dir.1 * dir.1, dir.2 * dir.2);
}

proof fn lemma_dot_reversed_component(c: int, o: int, k: int)
    by (nonlinear_arith)
    ensures
        (c - o) * ((o - c) * k) == -k * ((c - o) * (c - o)),
{
}

/// The ray meets the sphere exactly when some point of it, at a non-negative
/// rational parameter `p / q`, lies in the closed ball.
pub proof fn lemma_ray_hits_iff_point_in_ball(
    center: Vec3Model,
    radius: int,
    orig: Vec3Model,
    dir: Vec3Model,
)
    ensures
        ray_hits(center, radius, orig, dir) <==> exists|p: int, q: int|
            #[trigger] point_in_ball(center, radius, orig, dir, p, q),
{
    let l = sub_v(center, orig);
    let tca = dot_v(l, dir);
    let ll = norm_sq_v(l);
    let dd = norm_sq_v(dir);
    let rr = radius * radius;
    lemma_sum_of_squares_nonneg(l.0, l.1, l.2);
    lemma_sum_of_squares_nonneg(dir.0, dir.1, dir.2);
    lemma_sum_of_squares_nonneg(radius, 0, 0);
    if ray_hits(center, radius, orig, dir) {
        if tca <= 0 {
            lemma_offset_expansion(center, orig, dir, 0, 1);
            assert(point_in_ball(center, radius, orig, dir, 0, 1));
        } else {
            lemma_offset_expansion(center, orig, dir, tca, dd);
            assert(dd > 0) by (nonlinear_arith)
                requires
                    dd >= 0,
                    tca > 0,
                    tca == l.0 * dir.0 + l.1 * dir.1 + l.2 * dir.2,
                    dd == dir.0 * dir.0 + dir.1 * dir.1 + dir.2 * dir.2,
            ;
            assert(dd * dd * ll - 2 * tca * dd * tca + tca * tca * dd <= dd * dd * rr)
                by (nonlinear_arith)
                requires
                    dd > 0,
                    ll * dd - tca * tca <= rr * dd,
            ;
            assert(point_in_ball(center, radius, orig, dir, tca, dd));
        }
    } else {
        assert forall|p: int, q: int| !#[trigger] point_in_ball(center, radius, orig, dir, p, q) by {
            if p >= 0 && q > 0 {
                lemma_offset_expansion(center, orig, dir, p, q);
                if tca <= 0 {
                    assert(q * q * ll - 2 * p * q * tca + p * p * dd > q * q * rr) by (nonlinear_arith)
                        requires
                            p >= 0,
                            q > 0,
                            tca <= 0,
                            dd >= 0,
                            ll > rr,
                    ;
                } else {
                    assert(q * q * ll - 2 * p * q * tca + p * p * dd > q * q * rr) by (nonlinear_arith)
                        requires
                            p >= 0,
                            q > 0,
                            tca > 0,
                            dd >= 0,
                            ll * dd - tca * tca > rr * dd,
                    ;
                }
            }
        }
    }
}

proof fn lemma_scaled_product(a: int, u: int, k: int)
    by (nonlinear_arith)
    ensures
        a * (u * k) == k * (a * u),
{
}

/// Scaling the direction by a positive factor changes neither the ray nor the
/// outcome: a direction need not be normalised before the test.
pub proof fn lemma_ray_hits_scale_invariant(
    center: Vec3Model,
    radius: int,
    orig: Vec3Model,
    dir: Vec3Model,
    k: int,
)
    requires
        k > 0,
    ensures
        ray_hits(center, radius, orig, scale_v(dir, k)) == ray_hits(center, radius, orig, dir),
{
    let l = sub_v(center, orig);
    let tca = dot_v(l, dir);
    let ll = norm_sq_v(l);
    let dd = norm_sq_v(dir);
    let rr = radius * radius;
    lemma_scaled_product(l.0, dir.0, k);
    lemma_scaled_product(l.1, dir.1, k);
    lemma_scaled_product(l.2, dir.2, k);
    lemma_distribute3(k, l.0 * dir.0, l.1 * dir.1, l.2 * dir.2);
    lemma_regroup_square(dir.0, k);
    lemma_regroup_square(dir.1, k);
    lemma_regroup_square(dir.2, k);
    lemma_distribute3(k * k, dir.0 * dir.0, dir.1 * dir.1, dir.2 * dir.2);
    let sd = scale_v(dir, k);
    assert(dot_v(l, sd) == k * tca);
    assert(norm_sq_v(sd) == k * k * dd);
    assert((k * tca <= 0) == (tca <= 0)) by (nonlinear_arith)
        requires
            k > 0,
    ;
    assert((ll * (k * k * dd) - (k * tca) * (k * tca) <= rr * (k * k * dd)) == (ll * dd - tca
        * tca <= rr * dd)) by (nonlinear_arith)
        requires
            k > 0,
    ;
}

/// A ray that starts at the centre meets the sphere, whatever its direction.
pub proof fn lemma_ray_from_center_hits(center: Vec3Model, radius: int, dir: Vec3Model)
    ensures
        ray_hits(center, radius, center, dir),
{
    assert(radius * radius >= 0) by (nonlinear_arith);
}

/// A ray that starts outside the sphere and points straight away from its
/// centre (along `orig - center`, scaled by any positive factor) misses it.
pub proof fn lemma_ray_away_misses(center: Vec3Model, radius: int, orig: Vec3Model, k: int)
    requires
        k > 0,
        norm_sq_v(sub_v(center, orig)) > radius * radius,
    ensures
        !ray_hits(center, radius, orig, scale_v(sub_v(orig, center), k)),
{
    lemma_sum_of_squares_nonneg(radius, 0, 0);
    lemma_dot_reversed_component(center.0, orig.0, k);
    lemma_dot_reversed_component(center.1, orig.1, k);
    lemma_dot_reversed_component(center.2, orig.2, k);
    let l = sub_v(center, orig);
    lemma_sum_of_squares_nonneg(l.0, l.1, l.2);
    lemma_distribute3(-k, l.0 * l.0, l.1 * l.1, l.2 * l.2);
    assert(-k * norm_sq_v(l) <= 0) by (nonlinear_arith)
        requires
            k > 0,
            norm_sq_v(l) >= 0,
    ;
}

/// A sphere given by its centre and radius. The radius is meant to be positive;
/// only its square enters the intersection test.
#[derive(Clone, Copy, Debug, PartialEq, Eq, Structural)]
pub struct Sphere {
    pub center: Vec3,
    pub radius: i32,
}

impl Sphere {
    pub fn new(c: Vec3, r: i32) -> (s: Sphere)
        ensures
            s.center == c,
            s.radius == r,
    {
        Sphere { center: c, radius: r }
    }

    /// Whether the ray from `orig` along `dir` meets this sphere at a
    /// non-negative parameter. `dir` need not be a unit vector. Only hit or
    /// miss is reported: the distance to the hit is not returned, as shading
    /// does not depend on it.
    pub fn ray_intersect(&self, orig: Vec3, dir: Vec3) -> (r: bool)
        requires
            fits_i32(sub_v(self.center@, orig@)),
        ensures
            r == ray_hits(self.center@, self.radius as int, orig@, dir@),
    {
        let l = self.center.sub(&orig);
        let tca = l.dot(&dir);
        let ll = l.norm_squared();
        let rad = self.radius as i128;
        proof {
            lemma_norm_sq_bound(l@);
            lemma_norm_sq_bound(dir@);
            lemma_dot_bound(l@, dir@);
            assert(0 <= rad * rad <= 0x4000_0000_0000_0000) by (nonlinear_arith)
                requires
                    -0x8000_0000 <= rad <= 0x7fff_ffff,
            ;
        }
        let rr = rad * rad;
        if tca <= 0 {
            // The ray leaves the centre behind: its nearest point is the origin.
            return ll <= rr;
        }
        let dd = dir.norm_squared();
        proof {
            assert(0 <= ll * dd <= 0x9000_0000_0000_0000_0000_0000_0000_0000) by (nonlinear_arith)
                requires
                    0 <= ll <= 0xC000_0000_0000_0000,
                    0 <= dd <= 0xC000_0000_0000_0000,
            ;
            assert(0 <= rr * dd <= 0x3000_0000_0000_0000_0000_0000_0000_0000) by (nonlinear_arith)
                requires
                    0 <= rr <= 0x4000_0000_0000_0000,
                    0 <= dd <= 0xC000_0000_0000_0000,
            ;
            assert(0 <= tca * tca <= 0x9000_0000_0000_0000_0000_0000_0000_0000) by (nonlinear_arith)
                requires
                    0 < tca <= 0xC000_0000_0000_0000,
            ;
        }
        let tca_u = tca as u128;
        let lhs = (ll as u128) * (dd as u128);
        let rhs = (rr as u128) * (dd as u128) + tca_u * tca_u;
        lhs <= rhs
    }
}

} // verus!
