//! The binary portable pixmap ("P6") encoding of a framebuffer.
use vstd::prelude::*;

use crate::render::{render, rendered, Color, RenderConfig};
use crate::sphere::Sphere;

verus! {

/// The decimal digits of `n` in ASCII, without leading zeros.
pub open spec fn decimal(n: nat) -> Seq<u8>
    decreases n,
{
    if n < 10 {
        seq![(48 + n) as u8]
    } else {
        decimal(n / 10) + seq![(48 + n % 10) as u8]
    }
}

/// `"P6\n<width> <height>\n255\n"` in ASCII.
pub open spec fn ppm_header(width: nat, height: nat) -> Seq<u8> {
    seq![80u8, 54u8, 10u8] + decimal(width) + seq![32u8] + decimal(height) + seq![
        10u8,
        50u8,
        53u8,
        53u8,
        10u8,
    ]
}

/// A channel in thousandths clamped to `[0, 1000]`.
pub open spec fn clamp_unit(c: int) -> int {
    if c < 0 {
        0
    } else if c > 1000 {
        1000
    } else {
        c
    }
}

/// The byte of a channel: `255 * clamp(c, 0, 1)`, truncated toward zero.
pub open spec fn channel_value(c: int) -> u8 {
    (255 * clamp_unit(c) / 1000) as u8
}

/// The three bytes of one pixel, red, green and blue.
pub open spec fn color_bytes(c: Color) -> Seq<u8> {
    seq![channel_value(c.r as int), channel_value(c.g as int), channel_value(c.b as int)]
}

/// The bytes of all pixels, in order.
pub open spec fn pixel_bytes(pixels: Seq<Color>) -> Seq<u8>
    decreases pixels.len(),
{
    if pixels.len() == 0 {
        Seq::empty()
    } else {
        pixel_bytes(pixels.drop_last()) + color_bytes(pixels.last())
    }
}

/// The whole file: header, then the pixel bytes.
pub open spec fn ppm_bytes(width: nat, height: nat, pixels: Seq<Color>) -> Seq<u8> {
    ppm_header(width, height) + pixel_bytes(pixels)
}

/// The file for the image of `sphere` under `cfg`.
pub open spec fn image_bytes(cfg: RenderConfig, sphere: Sphere) -> Seq<u8> {
    ppm_bytes(cfg.width as nat, cfg.height as nat, rendered(cfg, sphere))
}

/// Each pixel takes exactly three bytes.
pub proof fn lemma_pixel_bytes_len(pixels: Seq<Color>)
    ensures
        pixel_bytes(pixels).len() == 3 * pixels.len(),
    decreases pixels.len(),
{
    if pixels.len() > 0 {
        lemma_pixel_bytes_len(pixels.drop_last());
    }
}

/// The file of an image is its header followed by exactly
/// `3 * width * height` bytes of pixel data.
pub proof fn lemma_image_layout(cfg: RenderConfig, sphere: Sphere)
    ensures
        image_bytes(cfg, sphere).len() == ppm_header(cfg.width as nat, cfg.height as nat).len() + 3
            * (cfg.width * cfg.height),
        image_bytes(cfg, sphere).subrange(0, ppm_header(cfg.width as nat, cfg.height as nat).len() as int)
            == ppm_header(cfg.width as nat, cfg.height as nat),
{
    let hd = ppm_header(cfg.width as nat, cfg.height as nat);
    lemma_pixel_bytes_len(rendered(cfg, sphere));
    assert(image_bytes(cfg, sphere).subrange(0, hd.len() as int) =~= hd);
}

/// Rendering is deterministic: the same configuration and sphere always give
/// the same bytes.
pub proof fn lemma_image_deterministic(cfg1: RenderConfig, s1: Sphere, cfg2: RenderConfig, s2: Sphere)
    requires
        cfg1 == cfg2,
        s1 == s2,
    ensures
        image_bytes(cfg1, s1) == image_bytes(cfg2, s2),
{
}

/// Appends the decimal digits of `n`.
fn push_decimal(out: &mut Vec<u8>, n: u32)
    ensures
        final(out)@ == old(out)@ + decimal(n as nat),
    decreases n,
{
    if n >= 10 {
        push_decimal(out, n / 10);
    }
    out.push(48 + (n % 10) as u8);
    proof {
        if n < 10 {
            assert(n % 10 == n);
        }
        assert(final(out)@ =~= old(out)@ + decimal(n as nat));
    }
}

/// The byte of one channel given in thousandths.
pub fn channel_byte(c: i32) -> (b: u8)
    ensures
        b == channel_value(c as int),
{
    let v: i32 = if c < 0 {
        0
    } else if c > 1000 {
        1000
    } else {
        c
    };
    (v * 255 / 1000) as u8
}

/// The header line `"P6\n<width> <height>\n255\n"`.
pub fn encode_header(width: u32, height: u32) -> (out: Vec<u8>)
    ensures
        out@ == ppm_header(width as nat, height as nat),
{
    let mut out: Vec<u8> = Vec::new();
    out.push(80);
    out.push(54);
    out.push(10);
    push_decimal(&mut out, width);
    out.push(32);
    push_decimal(&mut out, height);
    out.push(10);
    out.push(50);
    out.push(53);
    out.push(53);
    out.push(10);
    assert(out@ =~= ppm_header(width as nat, height as nat));
    out
}

/// The file for a framebuffer of `width * height` pixels.
pub fn encode_ppm(width: u32, height: u32, pixels: &Vec<Color>) -> (out: Vec<u8>)
    requires
        pixels@.len() == width * height,
    ensures
        out@ == ppm_bytes(width as nat, height as nat, pixels@),
{
    let mut out = encode_header(width, height);
    let ghost hd = out@;
    let mut idx: usize = 0;
    while idx < pixels.len()
        invariant
            idx <= pixels@.len(),
            hd == ppm_header(width as nat, height as nat),
            out@ == hd + pixel_bytes(pixels@.subrange(0, idx as int)),
        decreases pixels@.len() - idx,
    {
        let c = pixels[idx];
        let ghost before = out@;
        out.push(channel_byte(c.r));
        out.push(channel_byte(c.g));
        out.push(channel_byte(c.b));
        proof {
            let next = pixels@.subrange(0, idx + 1);
            assert(next.drop_last() =~= pixels@.subrange(0, idx as int));
            assert(out@ =~= before + color_bytes(next.last()));
        }
        idx = idx + 1;
    }
    assert(pixels@.subrange(0, pixels@.len() as int) =~= pixels@);
    out
}

/// Renders `sphere` under `cfg` and encodes the result as a P6 file.
pub fn render_image(cfg: &RenderConfig, sphere: &Sphere) -> (out: Vec<u8>)
    requires
        cfg.wf(),
    ensures
        out@ == image_bytes(*cfg, *sphere),
{
    let fb = render(cfg, sphere);
    encode_ppm(cfg.width, cfg.height, &fb)
}

} // verus!
