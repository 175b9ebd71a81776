//! Shading of one ray and sampling of the whole image plane.
use vstd::prelude::*;
use vstd::arithmetic::div_mod::lemma_fundamental_div_mod_converse;

use crate::sphere::{ray_hits, Sphere};
use crate::vec3::{fits_i32, Vec3, Vec3Model};

verus! {

/// A colour with channels in thousandths: 1000 stands for full intensity.
/// Channels are not clamped here; they are clamped when written out.
#[derive(Clone, Copy, Debug, PartialEq, Eq, Structural)]
pub struct Color {
    pub r: i32,
    pub g: i32,
    pub b: i32,
}

/// The pale blue seen where a ray meets nothing: (0.2, 0.7, 0.8).
pub open spec fn background_color() -> Color {
    Color { r: 200, g: 700, b: 800 }
}

/// The grey-brown of the sphere's surface: (0.4, 0.4, 0.3).
pub open spec fn object_color() -> Color {
    Color { r: 400, g: 400, b: 300 }
}

/// The colour seen along a ray, given whether it meets the sphere.
pub open spec fn shade(hit: bool) -> Color {
    if hit {
        object_color()
    } else {
        background_color()
    }
}

impl Color {
    pub fn new(r: i32, g: i32, b: i32) -> (c: Color)
        ensures
            c == (Color { r, g, b }),
    {
        Color { r, g, b }
    }

    pub fn background() -> (c: Color)
        ensures
            c == background_color(),
    {
        Color { r: 200, g: 700, b: 800 }
    }

    pub fn object() -> (c: Color)
        ensures
            c == object_color(),
    {
        Color { r: 400, g: 400, b: 300 }
    }
}

/// The colour seen along the ray from `orig` in direction `dir`.
pub fn cast_ray(orig: Vec3, dir: Vec3, sphere: &Sphere) -> (c: Color)
    requires
        fits_i32(crate::vec3::sub_v(sphere.center@, orig@)),
    ensures
        c == shade(ray_hits(sphere.center@, sphere.radius as int, orig@, dir@)),
{
    if !sphere.ray_intersect(orig, dir) {
        return Color::background();
    }
    Color::object()
}

/// The image to produce: its size in pixels and its field of view, given as the
/// tangent of half the field of view, `fov_tan_num / fov_tan_den`. The camera sits
/// at the origin and looks down the negative Z axis.
#[derive(Clone, Copy, Debug, PartialEq, Eq, Structural)]
pub struct RenderConfig {
    pub width: u32,
    pub height: u32,
    pub fov_tan_num: u32,
    pub fov_tan_den: u32,
}

impl RenderConfig {
    /// The directions of every pixel, and the number of pixels, are representable.
    pub open spec fn wf(&self) -> bool {
        &&& self.width as int * self.fov_tan_num as int <= i32::MAX
        &&& (2 * self.height as int - self.width as int) * self.fov_tan_num as int <= i32::MAX
        &&& self.height as int * self.fov_tan_den as int <= i32::MAX
        &&& self.width as int * self.height as int <= usize::MAX
    }

    pub fn new(width: u32, height: u32, fov_tan_num: u32, fov_tan_den: u32) -> (c: RenderConfig)
        ensures
            c == (RenderConfig { width, height, fov_tan_num, fov_tan_den }),
    {
        RenderConfig { width, height, fov_tan_num, fov_tan_den }
    }

    /// 1024 x 768 pixels with a field of view of 90 degrees (tan 45° = 1).
    pub fn standard() -> (c: RenderConfig)
        ensures
            c == (RenderConfig { width: 1024, height: 768, fov_tan_num: 1, fov_tan_den: 1 }),
            c.wf(),
    {
        RenderConfig { width: 1024, height: 768, fov_tan_num: 1, fov_tan_den: 1 }
    }
}

/// The direction of the camera ray through the centre of pixel `(i, j)`.
///
/// Column `i` maps to `(2(i + 0.5)/w - 1) * tan * w/h` and row `j` to
/// `-(2(j + 0.5)/w - 1) * tan * w/h` (the row is normalised by the width as well),
/// with `-1` as the depth. Multiplying all three by `h * fov_tan_den > 0` keeps the
/// ray and makes every component an integer.
pub open spec fn pixel_dir(cfg: RenderConfig, i: int, j: int) -> Vec3Model {
    let w = cfg.width as int;
    let h = cfg.height as int;
    (
        (2 * i + 1 - w) * cfg.fov_tan_num as int,
        (w - 2 * j - 1) * cfg.fov_tan_num as int,
        -(cfg.fov_tan_den as int * h),
    )
}

/// The colour of pixel `(i, j)`: the camera ray from the origin, cast at `sphere`.
pub open spec fn pixel_color(cfg: RenderConfig, sphere: Sphere, i: int, j: int) -> Color {
    shade(ray_hits(sphere.center@, sphere.radius as int, (0, 0, 0), pixel_dir(cfg, i, j)))
}

/// The framebuffer: `width * height` colours, row by row from the top, each row
/// from left to right, so that pixel `(i, j)` stands at index `j * width + i`.
pub open spec fn rendered(cfg: RenderConfig, sphere: Sphere) -> Seq<Color> {
    let w = cfg.width as int;
    Seq::new((w * cfg.height as int) as nat, |k: int| pixel_color(cfg, sphere, k % w, k / w))
}

/// Pixel `(i, j)` of the framebuffer stands at index `j * width + i`.
pub proof fn lemma_rendered_pixel(cfg: RenderConfig, sphere: Sphere, i: int, j: int)
    requires
        0 <= i < cfg.width,
        0 <= j < cfg.height,
    ensures
        j * cfg.width + i < rendered(cfg, sphere).len(),
        rendered(cfg, sphere)[j * cfg.width + i] == pixel_color(cfg, sphere, i, j),
{
    let w = cfg.width as int;
    let h = cfg.height as int;
    assert(j * w + i < w * h) by (nonlinear_arith)
        requires
            0 <= i < w,
            0 <= j < h,
    ;
    lemma_fundamental_div_mod_converse(j * w + i, w, j, i);
}

/// The camera ray through the centre of pixel `(i, j)`.
pub fn pixel_direction(cfg: &RenderConfig, i: u32, j: u32) -> (d: Vec3)
    requires
        cfg.wf(),
        i < cfg.width,
        j < cfg.height,
    ensures
        d@ == pixel_dir(*cfg, i as int, j as int),
{
    let w = cfg.width as i64;
    let h = cfg.height as i64;
    let num = cfg.fov_tan_num as i64;
    let den = cfg.fov_tan_den as i64;
    let fx = 2 * (i as i64) + 1 - w;
    let fy = w - 2 * (j as i64) - 1;
    proof {
        assert(-(w * num) <= fx * num <= w * num) by (nonlinear_arith)
            requires
                fx == 2 * i + 1 - w,
                0 <= i < w,
                0 <= num,
        ;
        assert(-((2 * h - w) * num) <= fy * num <= w * num) by (nonlinear_arith)
            requires
                fy == w - 2 * j - 1,
                0 <= j < h,
                0 <= num,
        ;
        assert(0 <= den * h) by (nonlinear_arith)
            requires
                0 <= den,
                0 <= h,
        ;
    }
    let x = fx * num;
    let y = fy * num;
    let z = -(den * h);
    Vec3::new(x as i32, y as i32, z as i32)
}

/// Casts one camera ray per pixel at `sphere` and collects the colours.
pub fn render(cfg: &RenderConfig, sphere: &Sphere) -> (fb: Vec<Color>)
    requires
        cfg.wf(),
    ensures
        fb@ == rendered(*cfg, *sphere),
{
    let total = (cfg.width as usize) * (cfg.height as usize);
    let ghost w = cfg.width as int;
    let ghost h = cfg.height as int;
    let origin = Vec3::new(0, 0, 0);
    let mut fb: Vec<Color> = Vec::new();
    let mut k: usize = 0;
    let mut i: u32 = 0;
    let mut j: u32 = 0;
    while k < total
        invariant
            total == w * h,
            w == cfg.width,
            h == cfg.height,
            cfg.wf(),
            origin@ == (0int, 0int, 0int),
            k <= total,
            fb@.len() == k,
            w > 0 ==> k == j * w + i && i < w,
            forall|m: int| 0 <= m < k ==> fb@[m] == #[trigger] pixel_color(*cfg, *sphere, m % w, m / w),
        decreases total - k,
    {
        proof {
            assert(w > 0) by (nonlinear_arith)
                requires
                    k < total,
                    total == w * h,
                    w >= 0,
                    h >= 0,
            ;
            assert(j < h) by (nonlinear_arith)
                requires
                    k == j * w + i,
                    k < w * h,
                    0 <= i,
                    w > 0,
            ;
            lemma_fundamental_div_mod_converse(k as int, w, j as int, i as int);
        }
        let dir = pixel_direction(cfg, i, j);
        let c = cast_ray(origin, dir, sphere);
        fb.push(c);
        k = k + 1;
        if i + 1 == cfg.width {
            proof {
                assert((j + 1) * w == j * w + w) by (nonlinear_arith);
            }
            i = 0;
            j = j + 1;
        } else {
            i = i + 1;
        }
    }
    assert(fb@ =~= rendered(*cfg, *sphere));
    fb
}

} // verus!
