//! Screen regions: keeping a scaled region inside the screenshot, and the point a
//! button region is tapped at; and the turning of a BGR frame into RGB.
use vstd::prelude::*;

use crate::model::{max_int, min_int};

verus! {

/// A rectangle of the screen: its top-left corner, width and height in pixels.
#[derive(Debug, Clone, Copy, PartialEq, Eq, Structural)]
pub struct Region {
    pub x: i32,
    pub y: i32,
    pub w: i32,
    pub h: i32,
}

/// `r` moved and cut to lie inside a `width` by `height` image: the corner is pulled
/// into the image and the size cut to the image's edge, never below one pixel.
pub open spec fn fitted(r: Region, width: int, height: int) -> Region {
    let x = max_int(0, min_int(r.x as int, max_int(width - 1, 0)));
    let y = max_int(0, min_int(r.y as int, max_int(height - 1, 0)));
    Region {
        x: x as i32,
        y: y as i32,
        w: max_int(min_int(r.w as int, width - x), 1) as i32,
        h: max_int(min_int(r.h as int, height - y), 1) as i32,
    }
}

/// Returns `r` fitted into a `width` by `height` image. Inside an image of at least
/// one pixel the result covers at least one pixel and none outside the image.
pub fn fit_region(r: Region, width: u32, height: u32) -> (f: Region)
    requires
        width <= i32::MAX,
        height <= i32::MAX,
    ensures
        f == fitted(r, width as int, height as int),
        width >= 1 ==> 0 <= f.x && f.x < width && 1 <= f.w && f.x + f.w <= width,
        height >= 1 ==> 0 <= f.y && f.y < height && 1 <= f.h && f.y + f.h <= height,
{
    let wmax: i32 = if width >= 1 { (width - 1) as i32 } else { 0 };
    let hmax: i32 = if height >= 1 { (height - 1) as i32 } else { 0 };
    let x = if r.x < 0 { 0 } else if r.x > wmax { wmax } else { r.x };
    let y = if r.y < 0 { 0 } else if r.y > hmax { hmax } else { r.y };
    let wi = width as i32;
    let hi = height as i32;
    let w0 = if r.w < wi - x { r.w } else { wi - x };
    let h0 = if r.h < hi - y { r.h } else { hi - y };
    Region { x, y, w: if w0 > 1 { w0 } else { 1 }, h: if h0 > 1 { h0 } else { 1 } }
}

/// Half of `v`, rounded toward zero.
pub open spec fn half_toward_zero(v: int) -> int {
    if v >= 0 {
        v / 2
    } else {
        -((-v) / 2)
    }
}

/// The point a region is tapped at: its centre, halves rounded toward zero.
pub open spec fn centre(r: Region) -> (int, int) {
    (r.x + half_toward_zero(r.w as int), r.y + half_toward_zero(r.h as int))
}

/// Returns the point a region is tapped at.
pub fn region_center(r: Region) -> (c: (i32, i32))
    requires
        i32::MIN <= centre(r).0 <= i32::MAX,
        i32::MIN <= centre(r).1 <= i32::MAX,
    ensures
        c.0 == centre(r).0,
        c.1 == centre(r).1,
{
    (r.x + r.w / 2, r.y + r.h / 2)
}

/// `rgb` holds the first `pixels` pixels of the BGR frame `bgr`, three bytes each, with
/// the blue and red bytes of every pixel swapped.
pub open spec fn is_rgb_of(rgb: Seq<u8>, bgr: Seq<u8>, pixels: int) -> bool {
    &&& rgb.len() == 3 * pixels
    &&& forall|k: int| 0 <= k < pixels ==> {
        &&& #[trigger] rgb[3 * k] == bgr[3 * k + 2]
        &&& rgb[3 * k + 1] == bgr[3 * k + 1]
        &&& rgb[3 * k + 2] == bgr[3 * k]
    }
}

/// Turns a `width` by `height` BGR frame into RGB bytes; `None` when `raw` holds fewer
/// than three bytes per pixel. Bytes past the frame are left out.
pub fn bgr_to_rgb(raw: &[u8], width: u32, height: u32) -> (r: Option<Vec<u8>>)
    requires
        3 * (width as int) * (height as int) <= usize::MAX,
    ensures
        r is None <==> raw@.len() < 3 * (width as int) * (height as int),
        r matches Some(v) ==> is_rgb_of(v@, raw@, (width as int) * (height as int)),
{
    let ghost n = (width as int) * (height as int);
    assert(n <= usize::MAX && 3 * n == 3 * (width as int) * (height as int)) by (nonlinear_arith)
        requires
            3 * (width as int) * (height as int) <= usize::MAX,
            n == (width as int) * (height as int);
    let pixels: usize = (width as usize) * (height as usize);
    let expected: usize = pixels * 3;
    if raw.len() < expected {
        return None;
    }
    let mut rgb: Vec<u8> = Vec::new();
    let mut k: usize = 0;
    while k < pixels
        invariant
            pixels == n,
            3 * pixels <= raw@.len(),
            3 * pixels <= usize::MAX,
            k <= pixels,
            is_rgb_of(rgb@, raw@, k as int),
        decreases pixels - k,
    {
        let i = 3 * k;
        let ghost prev = rgb@;
        rgb.push(raw[i + 2]);
        rgb.push(raw[i + 1]);
        rgb.push(raw[i]);
        assert forall|j: int| 0 <= j < k + 1 implies {
            &&& #[trigger] rgb@[3 * j] == raw@[3 * j + 2]
            &&& rgb@[3 * j + 1] == raw@[3 * j + 1]
            &&& rgb@[3 * j + 2] == raw@[3 * j]
        } by {
            if j < k {
                assert(rgb@[3 * j] == prev[3 * j]);
                assert(rgb@[3 * j + 1] == prev[3 * j + 1]);
                assert(rgb@[3 * j + 2] == prev[3 * j + 2]);
            }
        }
        k += 1;
    }
    Some(rgb)
}

} // verus!
