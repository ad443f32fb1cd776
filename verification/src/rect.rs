//! The coordinate transform from a pane's logical rectangle to the rectangle
//! the renderer is told to draw.
//!
//! Zoom factors are kept in thousandths (`ZOOM_UNIT` is the identity), so the
//! transform is integer arithmetic throughout: a coordinate is scaled by
//! `(v * z) / ZOOM_UNIT`, rounding towards negative infinity, and the global
//! offset is then added unscaled.

use vstd::prelude::*;
use vstd::arithmetic::div_mod::{lemma_fundamental_div_mod, lemma_fundamental_div_mod_converse, lemma_div_is_ordered};

verus! {

/// The zoom factor denominator: a zoom of `ZOOM_UNIT` leaves coordinates as
/// they are.
pub const ZOOM_UNIT: u32 = 1000;

/// The rectangle handed to the renderer, in final (zoomed and offset) units.
#[derive(Debug, Clone, Copy, PartialEq, Eq, Structural)]
pub struct RenderRect {
    pub x: i64,
    pub y: i64,
    pub w: u64,
    pub h: u64,
}

/// A coordinate or dimension scaled by a zoom factor in thousandths:
/// `(v * z) / ZOOM_UNIT`, rounded towards negative infinity.
pub open spec fn scale_spec(v: int, z: int) -> int {
    (v * z) / (ZOOM_UNIT as int)
}

/// The full transform: scale a logical rectangle by the zoom factors, then
/// shift its corner by the global offset.
pub open spec fn rect_spec(
    x: int,
    y: int,
    w: int,
    h: int,
    pos: (int, int),
    zoom: (int, int),
) -> (int, int, int, int) {
    (
        scale_spec(x, zoom.0) + pos.0,
        scale_spec(y, zoom.1) + pos.1,
        scale_spec(w, zoom.0),
        scale_spec(h, zoom.1),
    )
}

/// Scales one signed coordinate by a zoom factor in thousandths.
fn scale_signed(v: i32, z: u32) -> (r: i64)
    ensures
        r == scale_spec(v as int, z as int),
        -9300000000000000 <= r <= 9300000000000000,
{
    let vi: i64 = v as i64;
    if vi >= 0 {
        proof {
            assert(0 <= (v as int) * (z as int) <= 0x7fff_ffffint * 0xffff_ffff)
                by (nonlinear_arith)
                requires
                    0 <= v as int <= 0x7fff_ffff,
                    0 <= z as int <= 0xffff_ffff,
            ;
        }
        let prod: u64 = (vi as u64) * (z as u64);
        let q: u64 = prod / 1000;
        proof {
            lemma_div_is_ordered(prod as int, 0x7fff_ffffint * 0xffff_ffff, 1000);
        }
        q as i64
    } else {
        proof {
            assert(0 <= (-(v as int)) * (z as int) <= 0x8000_0000int * 0xffff_ffff
                && (-(v as int)) * (z as int) == -((v as int) * (z as int)))
                by (nonlinear_arith)
                requires
                    0 < -(v as int) <= 0x8000_0000,
                    0 <= z as int <= 0xffff_ffff,
            ;
        }
        let neg: i64 = -vi;
        let mag: u64 = (neg as u64) * (z as u64);
        let q: u64 = (mag + 999) / 1000;
        proof {
            let m = mag as int;
            let qq = (m + 999) / (1000 as int);
            // m + 999 == 1000 * qq + rem with 0 <= rem < 1000, so
            // 0 <= 1000 * qq - m < 1000, which pins (-m) / 1000 to -qq.
            lemma_fundamental_div_mod(m + 999, 1000);
            lemma_fundamental_div_mod_converse(-m, 1000, -qq, 1000 * qq - m);
            lemma_div_is_ordered(m + 999, 0x8000_0000int * 0xffff_ffff + 999, 1000);
        }
        -(q as i64)
    }
}

/// Scales one unsigned dimension by a zoom factor in thousandths.
fn scale_unsigned(v: u32, z: u32) -> (r: u64)
    ensures
        r == scale_spec(v as int, z as int),
{
    proof {
        assert(0 <= (v as int) * (z as int) <= 0xffff_ffffint * 0xffff_ffff)
            by (nonlinear_arith)
            requires
                0 <= v as int <= 0xffff_ffff,
                0 <= z as int <= 0xffff_ffff,
        ;
    }
    ((v as u64) * (z as u64)) / 1000
}

/// Computes the rendered rectangle of a logical rectangle under the given
/// global offset and zoom factors.
pub fn render_rect(x: i32, y: i32, w: u32, h: u32, pos: (i32, i32), zoom: (u32, u32)) -> (r:
    RenderRect)
    ensures
        (r.x as int, r.y as int, r.w as int, r.h as int) == rect_spec(
            x as int,
            y as int,
            w as int,
            h as int,
            (pos.0 as int, pos.1 as int),
            (zoom.0 as int, zoom.1 as int),
        ),
{
    let sx = scale_signed(x, zoom.0);
    let sy = scale_signed(y, zoom.1);
    RenderRect { x: sx + pos.0 as i64, y: sy + pos.1 as i64, w: scale_unsigned(w, zoom.0), h: scale_unsigned(h, zoom.1) }
}

} // verus!
