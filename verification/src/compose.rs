//! Alpha blending of overlay pixels into an RGBA frame.
use vstd::prelude::*;

verus! {

/// One channel of `src` over `dst` at opacity `alpha / 255`, rounded to the nearest value.
pub open spec fn blend_channel(src: u8, dst: u8, alpha: u8) -> int {
    (src * alpha + dst * (255 - alpha) + 127) / 255
}

/// The byte offset of pixel `(x, y)` in a frame `width` pixels wide.
pub open spec fn pixel_offset(width: u32, x: int, y: int) -> int {
    (y * width + x) * 4
}

/// `(x, y)` lies inside a `width` × `height` frame.
pub open spec fn pixel_inside(width: u32, height: u32, x: i32, y: i32) -> bool {
    0 <= x < width && 0 <= y < height
}

fn blend(s: u8, d: u8, a: u8) -> (r: u8)
    ensures
        r == blend_channel(s, d, a),
{
    let su = s as u32;
    let du = d as u32;
    let au = a as u32;
    assert(su * au <= 255 * 255) by (nonlinear_arith)
        requires
            su <= 255,
            au <= 255,
    ;
    assert(du * (255 - au) <= 255 * 255) by (nonlinear_arith)
        requires
            du <= 255,
            au <= 255,
    ;
    assert(su * au + du * (255 - au) <= 255 * 255) by (nonlinear_arith)
        requires
            su <= 255,
            du <= 255,
            au <= 255,
    ;
    let v = (su * au + du * (255 - au) + 127) / 255;
    v as u8
}

/// Blends one RGBA pixel `src` over the frame at `(x, y)`; the result is
/// opaque. Pixels outside the frame are ignored. A pixel inside the frame
/// must have its byte offset fit in `u32` and its four bytes in `rgba`.
pub fn blend_pixel(rgba: &mut [u8], width: u32, height: u32, x: i32, y: i32, src: [u8; 4])
    requires
        pixel_inside(width, height, x, y) ==> pixel_offset(width, x as int, y as int) <= u32::MAX,
        pixel_inside(width, height, x, y) ==> pixel_offset(width, x as int, y as int) + 4 <= old(
            rgba,
        )@.len(),
    ensures
        !pixel_inside(width, height, x, y) ==> final(rgba)@ == old(rgba)@,
        pixel_inside(width, height, x, y) ==> {
            let i = pixel_offset(width, x as int, y as int);
            &&& final(rgba)@.len() == old(rgba)@.len()
            &&& forall|k: int| 0 <= k < final(rgba)@.len() && !(i <= k < i + 4) ==> final(rgba)@[k] == old(rgba)@[k]
            &&& final(rgba)@[i] == blend_channel(src[0], old(rgba)@[i], src[3])
            &&& final(rgba)@[i + 1] == blend_channel(src[1], old(rgba)@[i + 1], src[3])
            &&& final(rgba)@[i + 2] == blend_channel(src[2], old(rgba)@[i + 2], src[3])
            &&& final(rgba)@[i + 3] == 255
        },
{
    if x < 0 || y < 0 || x as u32 >= width || y as u32 >= height {
        return;
    }
    let xu = x as u32;
    let yu = y as u32;
    assert(0 <= yu * width) by (nonlinear_arith)
        requires
            0 <= yu,
            0 <= width,
    ;
    let idx: usize = ((yu * width + xu) * 4) as usize;
    let r = blend(src[0], rgba[idx], src[3]);
    let g = blend(src[1], rgba[idx + 1], src[3]);
    let b = blend(src[2], rgba[idx + 2], src[3]);
    rgba[idx] = r;
    rgba[idx + 1] = g;
    rgba[idx + 2] = b;
    rgba[idx + 3] = 255;
}

/// An opaque source replaces the channel; a fully transparent one keeps it;
/// any blend stays between the two inputs.
pub proof fn lemma_blend_channel_bounds(src: u8, dst: u8, alpha: u8)
    ensures
        blend_channel(src, dst, 255) == src,
        blend_channel(src, dst, 0) == dst,
        0 <= blend_channel(src, dst, alpha) <= 255,
        (src <= dst ==> src <= blend_channel(src, dst, alpha) <= dst),
        (dst <= src ==> dst <= blend_channel(src, dst, alpha) <= src),
{
    assert(blend_channel(src, dst, 255) == src) by (nonlinear_arith);
    assert(blend_channel(src, dst, 0) == dst) by (nonlinear_arith);
    let s = src as int;
    let d = dst as int;
    let a = alpha as int;
    assert(0 <= (s * a + d * (255 - a) + 127) / 255 <= 255) by (nonlinear_arith)
        requires
            0 <= s <= 255,
            0 <= d <= 255,
            0 <= a <= 255,
    ;
    assert(s <= d ==> s <= (s * a + d * (255 - a) + 127) / 255 <= d) by (nonlinear_arith)
        requires
            0 <= s <= 255,
            0 <= d <= 255,
            0 <= a <= 255,
    ;
    assert(d <= s ==> d <= (s * a + d * (255 - a) + 127) / 255 <= s) by (nonlinear_arith)
        requires
            0 <= s <= 255,
            0 <= d <= 255,
            0 <= a <= 255,
    ;
}

} // verus!
