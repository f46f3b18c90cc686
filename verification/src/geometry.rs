//! Raster geometry for the device-context print pipeline.
//!
//! Pages are rasterized at the device DPI clamped to a documented ceiling,
//! with each axis further capped by a uniform downscale, and the resulting
//! bitmap is letterboxed and centered on the physical page — never stretched
//! non-uniformly.  All of it is integer arithmetic: values are rounded to the
//! nearest whole pixel, halves away from zero.

use vstd::prelude::*;

verus! {

/// The render DPI ceiling for rasterized pages.
pub const MAX_RENDER_DPI: u32 = 150;

/// The per-axis pixel ceiling for rasterized pages.
pub const MAX_RENDER_DIM: u32 = 2000;

/// `a / b` rounded to the nearest whole number, halves rounded up.
pub open spec fn round_div(a: nat, b: nat) -> nat
    recommends
        b > 0,
{
    (2 * a + b) / (2 * b)
}

/// Division truncated toward zero, as Rust's `/` behaves on `i32`.
pub open spec fn half_toward_zero(d: int) -> int {
    if d >= 0 {
        d / 2
    } else {
        -((-d) / 2)
    }
}

/// Clamp a device DPI to the render ceiling.
pub fn clamp_render_dpi(dpi: u32) -> (r: u32)
    ensures
        r == if dpi < MAX_RENDER_DPI { dpi as int } else { MAX_RENDER_DPI as int },
{
    if dpi < MAX_RENDER_DPI {
        dpi
    } else {
        MAX_RENDER_DPI
    }
}

/// The raster size of one page axis: the page extent in typographic points
/// (72 per inch) times the render DPI, rounded, at least one pixel, and
/// saturating at the 32-bit ceiling.
pub open spec fn target_dim_spec(pts: nat, dpi: nat) -> nat {
    let t = round_div(pts * dpi, 72);
    if t < 1 {
        1
    } else if t > u32::MAX {
        u32::MAX as nat
    } else {
        t
    }
}

/// Compute the raster size of one page axis before the per-axis cap.  The
/// DPI has already been clamped to the render ceiling.
pub fn target_dim(pts: u32, dpi: u32) -> (r: u32)
    requires
        dpi <= MAX_RENDER_DPI,
    ensures
        r == target_dim_spec(pts as nat, dpi as nat),
{
    proof {
        assert(2 * (pts as int) * (dpi as int) + 72 < 0x8000_0000_0000_0000u64)
            by (nonlinear_arith)
            requires
                0 <= pts as int <= 0xffff_ffff,
                0 <= dpi as int <= 150,
        ;
    }
    proof {
        assert((2 * (pts as int)) * (dpi as int) == 2 * ((pts as int) * (dpi as int)))
            by (nonlinear_arith);
    }
    let t: u64 = (2 * (pts as u64) * (dpi as u64) + 72) / 144;
    if t < 1 {
        1
    } else if t > u32::MAX as u64 {
        u32::MAX
    } else {
        t as u32
    }
}

/// Uniform downscale of a raster size so that both axes respect the pixel
/// ceiling: when either axis exceeds it, both are scaled by the same ratio
/// (the ceiling over the larger axis), rounded, and floored at one pixel.
pub open spec fn cap_dims_spec(w: nat, h: nat) -> (nat, nat) {
    if w <= MAX_RENDER_DIM && h <= MAX_RENDER_DIM {
        (w, h)
    } else {
        let m = if w >= h { w } else { h };
        let cw = round_div(w * (MAX_RENDER_DIM as nat), m);
        let ch = round_div(h * (MAX_RENDER_DIM as nat), m);
        ((if cw < 1 { 1nat } else { cw }), (if ch < 1 { 1nat } else { ch }))
    }
}

/// Apply the per-axis pixel ceiling to a raster size.
pub fn cap_dims(w: u32, h: u32) -> (r: (u32, u32))
    requires
        w >= 1,
        h >= 1,
    ensures
        (r.0 as nat, r.1 as nat) == cap_dims_spec(w as nat, h as nat),
{
    if w <= MAX_RENDER_DIM && h <= MAX_RENDER_DIM {
        return (w, h);
    }
    let m: u64 = if w >= h { w as u64 } else { h as u64 };
    let cw: u64 = (2 * (w as u64) * 2000 + m) / (2 * m);
    let ch: u64 = (2 * (h as u64) * 2000 + m) / (2 * m);
    proof {
        let mi = m as nat;
        let wi = w as nat;
        let hi = h as nat;
        assert(2 * wi * 2000 + mi <= (2 * mi) * 2001) by (nonlinear_arith)
            requires
                wi <= mi,
                mi >= 1,
        ;
        assert((2 * wi * 2000 + mi) / (2 * mi) <= 2001) by (nonlinear_arith)
            requires
                2 * wi * 2000 + mi <= (2 * mi) * 2001,
                mi >= 1,
        ;
        assert(2 * hi * 2000 + mi <= (2 * mi) * 2001) by (nonlinear_arith)
            requires
                hi <= mi,
                mi >= 1,
        ;
        assert((2 * hi * 2000 + mi) / (2 * mi) <= 2001) by (nonlinear_arith)
            requires
                2 * hi * 2000 + mi <= (2 * mi) * 2001,
                mi >= 1,
        ;
    }
    let cw32: u32 = if cw < 1 { 1 } else { cw as u32 };
    let ch32: u32 = if ch < 1 { 1 } else { ch as u32 };
    (cw32, ch32)
}

/// The capped size never exceeds the pixel ceiling on either axis.
pub proof fn lemma_cap_dims_bounded(w: nat, h: nat)
    requires
        w >= 1,
        h >= 1,
    ensures
        cap_dims_spec(w, h).0 <= MAX_RENDER_DIM,
        cap_dims_spec(w, h).1 <= MAX_RENDER_DIM,
{
    if w <= MAX_RENDER_DIM && h <= MAX_RENDER_DIM {
        return ;
    }
    let m = if w >= h { w } else { h };
    assert(2 * w * 2000 + m < (2 * m) * 2001) by (nonlinear_arith)
        requires
            w <= m,
            m > 2000,
    ;
    assert(round_div(w * 2000, m) <= 2000) by {
        assert((2 * (w * 2000) + m) / (2 * m) <= 2000) by (nonlinear_arith)
            requires
                2 * w * 2000 + m < (2 * m) * 2001,
                m > 2000,
        ;
    }
    assert(2 * h * 2000 + m < (2 * m) * 2001) by (nonlinear_arith)
        requires
            h <= m,
            m > 2000,
    ;
    assert(round_div(h * 2000, m) <= 2000) by {
        assert((2 * (h * 2000) + m) / (2 * m) <= 2000) by (nonlinear_arith)
            requires
                2 * h * 2000 + m < (2 * m) * 2001,
                m > 2000,
        ;
    }
}

/// The uniform downscale preserves the aspect ratio within rounding: the
/// cross products of the capped and the original size differ by at most half
/// of `w + h`.  The degenerate case where one axis would round to zero pixels
/// (a ratio beyond 4000:1) is excluded; there the one-pixel floor takes over.
pub proof fn lemma_cap_dims_aspect(w: nat, h: nat)
    requires
        w >= 1,
        h >= 1,
        w > MAX_RENDER_DIM || h > MAX_RENDER_DIM,
        4000 * w >= (if w >= h { w } else { h }),
        4000 * h >= (if w >= h { w } else { h }),
    ensures
        2 * cap_dims_spec(w, h).0 * h <= 2 * cap_dims_spec(w, h).1 * w + w + h,
        2 * cap_dims_spec(w, h).1 * w <= 2 * cap_dims_spec(w, h).0 * h + w + h,
{
    let m = if w >= h { w } else { h };
    let cw = round_div(w * 2000, m);
    let ch = round_div(h * 2000, m);
    // cw and ch are at least one, so the one-pixel floor changes nothing.
    assert(2 * (w * 2000) + m >= 2 * m) by (nonlinear_arith)
        requires
            4000 * w >= m,
            m >= 1,
    ;
    assert(cw >= 1) by {
        assert((2 * (w * 2000) + m) / (2 * m) >= 1) by (nonlinear_arith)
            requires
                2 * (w * 2000) + m >= 2 * m,
                m >= 1,
        ;
    }
    assert(2 * (h * 2000) + m >= 2 * m) by (nonlinear_arith)
        requires
            4000 * h >= m,
            m >= 1,
    ;
    assert(ch >= 1) by {
        assert((2 * (h * 2000) + m) / (2 * m) >= 1) by (nonlinear_arith)
            requires
                2 * (h * 2000) + m >= 2 * m,
                m >= 1,
        ;
    }
    assert(cap_dims_spec(w, h).0 == cw);
    assert(cap_dims_spec(w, h).1 == ch);
    // Rounding error per axis: |2m*cw - 4000w| <= m, |2m*ch - 4000h| <= m.
    assert(2 * m * cw <= 4000 * w + m && 2 * m * cw + m >= 4000 * w) by (nonlinear_arith)
        requires
            m >= 1,
            cw == (2 * (w * 2000) + m) / (2 * m),
    ;
    assert(2 * m * ch <= 4000 * h + m && 2 * m * ch + m >= 4000 * h) by (nonlinear_arith)
        requires
            m >= 1,
            ch == (2 * (h * 2000) + m) / (2 * m),
    ;
    // Combine: 2m|cw*h - ch*w| <= m(w + h), then cancel the common factor m.
    let wi = w as int;
    let hi = h as int;
    let mi = m as int;
    let cwi = cw as int;
    let chi = ch as int;
    assert((2 * mi * cwi) * hi <= (4000 * wi + mi) * hi) by (nonlinear_arith)
        requires
            hi >= 0,
            2 * mi * cwi <= 4000 * wi + mi,
    ;
    assert((4000 * wi - mi) * hi <= (2 * mi * cwi) * hi) by (nonlinear_arith)
        requires
            hi >= 0,
            2 * mi * cwi + mi >= 4000 * wi,
    ;
    assert((2 * mi * chi) * wi <= (4000 * hi + mi) * wi) by (nonlinear_arith)
        requires
            wi >= 0,
            2 * mi * chi <= 4000 * hi + mi,
    ;
    assert((4000 * hi - mi) * wi <= (2 * mi * chi) * wi) by (nonlinear_arith)
        requires
            wi >= 0,
            2 * mi * chi + mi >= 4000 * hi,
    ;
    assert((4000 * wi + mi) * hi == 4000 * (wi * hi) + mi * hi) by (nonlinear_arith);
    assert((4000 * wi - mi) * hi == 4000 * (wi * hi) - mi * hi) by (nonlinear_arith);
    assert((4000 * hi + mi) * wi == 4000 * (wi * hi) + mi * wi) by (nonlinear_arith);
    assert((4000 * hi - mi) * wi == 4000 * (wi * hi) - mi * wi) by (nonlinear_arith);
    assert((2 * mi * cwi) * hi == mi * (2 * (cwi * hi))) by (nonlinear_arith);
    assert((2 * mi * chi) * wi == mi * (2 * (chi * wi))) by (nonlinear_arith);
    assert(mi * (2 * (cwi * hi)) <= mi * (2 * (chi * wi)) + mi * hi + mi * wi);
    assert(mi * (2 * (chi * wi)) <= mi * (2 * (cwi * hi)) + mi * hi + mi * wi);
    assert(mi * (2 * (chi * wi)) + mi * hi + mi * wi == mi * (2 * (chi * wi) + hi + wi))
        by (nonlinear_arith);
    assert(mi * (2 * (cwi * hi)) + mi * hi + mi * wi == mi * (2 * (cwi * hi) + hi + wi))
        by (nonlinear_arith);
    assert(2 * (cwi * hi) <= 2 * (chi * wi) + hi + wi) by (nonlinear_arith)
        requires
            mi >= 1,
            mi * (2 * (cwi * hi)) <= mi * (2 * (chi * wi) + hi + wi),
    ;
    assert(2 * (chi * wi) <= 2 * (cwi * hi) + hi + wi) by (nonlinear_arith)
        requires
            mi >= 1,
            mi * (2 * (chi * wi)) <= mi * (2 * (cwi * hi) + hi + wi),
    ;
    assert(2 * cw * h == 2 * (cwi * hi)) by (nonlinear_arith)
        requires
            cwi == cw,
            hi == h,
    ;
    assert(2 * ch * w == 2 * (chi * wi)) by (nonlinear_arith)
        requires
            chi == ch,
            wi == w,
    ;
}

/// The raster size of one page: each axis at the clamped DPI, then both
/// capped together; the result never exceeds the pixel ceiling on either
/// axis.
pub fn plan_page_raster(page_w_pts: u32, page_h_pts: u32, dpi_x: u32, dpi_y: u32) -> (r: (
    u32,
    u32,
))
    ensures
        ({
            let rdx = if dpi_x < MAX_RENDER_DPI {
                dpi_x as nat
            } else {
                MAX_RENDER_DPI as nat
            };
            let rdy = if dpi_y < MAX_RENDER_DPI {
                dpi_y as nat
            } else {
                MAX_RENDER_DPI as nat
            };
            (r.0 as nat, r.1 as nat) == cap_dims_spec(
                target_dim_spec(page_w_pts as nat, rdx),
                target_dim_spec(page_h_pts as nat, rdy),
            )
        }),
        r.0 <= MAX_RENDER_DIM,
        r.1 <= MAX_RENDER_DIM,
{
    let rdx = clamp_render_dpi(dpi_x);
    let rdy = clamp_render_dpi(dpi_y);
    let tw = target_dim(page_w_pts, rdx);
    let th = target_dim(page_h_pts, rdy);
    proof {
        lemma_cap_dims_bounded(tw as nat, th as nat);
    }
    cap_dims(tw, th)
}

/// The destination rectangle of one page blit, in device pixels.
#[derive(Debug, Clone, PartialEq, Eq, Structural)]
pub struct DestRect {
    pub x: i32,
    pub y: i32,
    pub w: i32,
    pub h: i32,
}

/// The blit size: the bitmap scaled by the smaller of the two printable-over-
/// bitmap ratios, floored at one hundredth to avoid a degenerate zero scale,
/// rounded per axis.
pub open spec fn dest_dims_spec(pw: nat, ph: nat, bw: nat, bh: nat) -> (nat, nat)
    recommends
        bw >= 1,
        bh >= 1,
{
    if 100 * pw < bw || 100 * ph < bh {
        (round_div(bw, 100), round_div(bh, 100))
    } else if pw * bh <= ph * bw {
        (pw, round_div(bh * pw, bw))
    } else {
        (round_div(bw * ph, bh), ph)
    }
}

/// Where the blit lands: the scaled bitmap centered inside the printable
/// region, whose origin sits at the device's physical offset.
pub open spec fn dest_rect_spec(
    pw: nat,
    ph: nat,
    ox: nat,
    oy: nat,
    bw: nat,
    bh: nat,
) -> DestRect {
    let dims = dest_dims_spec(pw, ph, bw, bh);
    DestRect {
        x: (ox + half_toward_zero(pw - dims.0)) as i32,
        y: (oy + half_toward_zero(ph - dims.1)) as i32,
        w: dims.0 as i32,
        h: dims.1 as i32,
    }
}

/// Compute the destination rectangle for one page from the device's
/// printable region, its physical offsets and the bitmap size.  The bounds in
/// the precondition are what 32-bit device coordinates force; device
/// capabilities are never negative.
pub fn compute_dest_rect(
    printable_w: i32,
    printable_h: i32,
    offset_x: i32,
    offset_y: i32,
    bmp_w: u32,
    bmp_h: u32,
) -> (r: DestRect)
    requires
        printable_w >= 0,
        printable_h >= 0,
        offset_x >= 0,
        offset_y >= 0,
        offset_x + printable_w <= i32::MAX,
        offset_y + printable_h <= i32::MAX,
        bmp_w >= 1,
        bmp_h >= 1,
    ensures
        r == dest_rect_spec(
            printable_w as nat,
            printable_h as nat,
            offset_x as nat,
            offset_y as nat,
            bmp_w as nat,
            bmp_h as nat,
        ),
{
    let pw = printable_w as u64;
    let ph = printable_h as u64;
    let bw = bmp_w as u64;
    let bh = bmp_h as u64;
    proof {
        assert((pw as int) * (bh as int) <= 0x7fff_ffffi64 * 0xffff_ffffi64
            && (ph as int) * (bw as int) <= 0x7fff_ffffi64 * 0xffff_ffffi64
            && 2 * (bh as int) * (pw as int) <= 2 * 0xffff_ffffi64 * 0x7fff_ffffi64
            && 2 * (bw as int) * (ph as int) <= 2 * 0xffff_ffffi64 * 0x7fff_ffffi64)
            by (nonlinear_arith)
            requires
                0 <= pw as int <= 0x7fff_ffff,
                0 <= ph as int <= 0x7fff_ffff,
                0 <= bw as int <= 0xffff_ffff,
                0 <= bh as int <= 0xffff_ffff,
        ;
    }
    let dw: u64;
    let dh: u64;
    if 100 * pw < bw || 100 * ph < bh {
        dw = (2 * bw + 100) / 200;
        dh = (2 * bh + 100) / 200;
    } else if pw * bh <= ph * bw {
        dw = pw;
        proof {
            assert((2 * (bh as int)) * (pw as int) == 2 * ((bh as int) * (pw as int)))
                by (nonlinear_arith);
        }
        dh = (2 * bh * pw + bw) / (2 * bw);
        proof {
            assert(2 * (bh as nat) * (pw as nat) + (bw as nat) < (2 * (bw as nat)) * ((ph as nat)
                + 1)) by (nonlinear_arith)
                requires
                    (pw as nat) * (bh as nat) <= (ph as nat) * (bw as nat),
                    bw as nat >= 1,
            ;
            assert(dh as nat <= ph as nat) by (nonlinear_arith)
                requires
                    dh as nat == (2 * (bh as nat) * (pw as nat) + bw as nat) / (2 * (bw as nat)),
                    2 * (bh as nat) * (pw as nat) + (bw as nat) < (2 * (bw as nat)) * ((ph as nat)
                        + 1),
                    bw as nat >= 1,
            ;
        }
    } else {
        dh = ph;
        proof {
            assert((2 * (bw as int)) * (ph as int) == 2 * ((bw as int) * (ph as int)))
                by (nonlinear_arith);
        }
        dw = (2 * bw * ph + bh) / (2 * bh);
        proof {
            assert(2 * (bw as nat) * (ph as nat) + (bh as nat) < (2 * (bh as nat)) * ((pw as nat)
                + 1)) by (nonlinear_arith)
                requires
                    (ph as nat) * (bw as nat) < (pw as nat) * (bh as nat),
                    bh as nat >= 1,
            ;
            assert(dw as nat <= pw as nat) by (nonlinear_arith)
                requires
                    dw as nat == (2 * (bw as nat) * (ph as nat) + bh as nat) / (2 * (bh as nat)),
                    2 * (bw as nat) * (ph as nat) + (bh as nat) < (2 * (bh as nat)) * ((pw as nat)
                        + 1),
                    bh as nat >= 1,
            ;
        }
    }
    proof {
        // Each axis of the blit stays within 32-bit device coordinates: it is
        // either bounded by the printable extent or by the hundredth scale.
        assert((2 * (bmp_w as int) + 100) / 200 <= 0x7fff_ffff);
        assert((2 * (bmp_h as int) + 100) / 200 <= 0x7fff_ffff);
    }
    let x32: i32;
    let y32: i32;
    if pw >= dw {
        let half: u64 = (pw - dw) / 2;
        x32 = offset_x + (half as i32);
    } else {
        let half: u64 = (dw - pw) / 2;
        x32 = offset_x - (half as i32);
    }
    if ph >= dh {
        let half: u64 = (ph - dh) / 2;
        y32 = offset_y + (half as i32);
    } else {
        let half: u64 = (dh - ph) / 2;
        y32 = offset_y - (half as i32);
    }
    DestRect { x: x32, y: y32, w: dw as i32, h: dh as i32 }
}

/// The destination rectangle is centered — its origin is the physical offset
/// plus half the unused printable extent on each axis — and, whenever the
/// hundredth-scale floor is not binding, the blit fits the printable region
/// on both axes, with the binding axis filled exactly.
pub proof fn lemma_dest_rect_centered(pw: nat, ph: nat, ox: nat, oy: nat, bw: nat, bh: nat)
    requires
        bw >= 1,
        bh >= 1,
        ox + pw <= i32::MAX,
        oy + ph <= i32::MAX,
        100 * pw >= bw,
        100 * ph >= bh,
    ensures
        ({
            let r = dest_rect_spec(pw, ph, ox, oy, bw, bh);
            &&& r.x == ox + (pw - r.w) / 2
            &&& r.y == oy + (ph - r.h) / 2
            &&& r.w <= pw
            &&& r.h <= ph
            &&& (pw * bh <= ph * bw ==> r.w == pw)
            &&& (pw * bh >= ph * bw ==> r.h == ph)
        }),
{
    let dims = dest_dims_spec(pw, ph, bw, bh);
    if pw * bh <= ph * bw {
        assert(dims.0 == pw);
        assert(2 * bh * pw + bw < (2 * bw) * (ph + 1)) by (nonlinear_arith)
            requires
                pw * bh <= ph * bw,
                bw >= 1,
        ;
        assert(dims.1 <= ph) by (nonlinear_arith)
            requires
                dims.1 == (2 * (bh * pw) + bw) / (2 * bw),
                2 * bh * pw + bw < (2 * bw) * (ph + 1),
                bw >= 1,
        ;
        if pw * bh >= ph * bw {
            // both ratios equal: the height also fills exactly
            assert(2 * (bh * pw) + bw == (2 * bw) * ph + bw) by (nonlinear_arith)
                requires
                    pw * bh == ph * bw,
            ;
            assert(dims.1 == ph) by (nonlinear_arith)
                requires
                    dims.1 == (2 * (bh * pw) + bw) / (2 * bw),
                    2 * (bh * pw) + bw == (2 * bw) * ph + bw,
                    bw >= 1,
            ;
        }
    } else {
        assert(dims.1 == ph);
        assert(2 * bw * ph + bh < (2 * bh) * (pw + 1)) by (nonlinear_arith)
            requires
                ph * bw < pw * bh,
                bh >= 1,
        ;
        assert(dims.0 <= pw) by (nonlinear_arith)
            requires
                dims.0 == (2 * (bw * ph) + bh) / (2 * bh),
                2 * bw * ph + bh < (2 * bh) * (pw + 1),
                bh >= 1,
        ;
    }
    let r = dest_rect_spec(pw, ph, ox, oy, bw, bh);
    assert(r.w == dims.0 && r.h == dims.1);
    assert(half_toward_zero(pw - dims.0) == (pw - dims.0) / 2);
    assert(half_toward_zero(ph - dims.1) == (ph - dims.1) / 2);
}

/// Halve a raster size for the render retry, keeping each axis at least one
/// pixel.
pub fn reduced_dims(w: u32, h: u32) -> (r: (u32, u32))
    ensures
        r.0 == if w / 2 >= 1 { (w as int) / 2 } else { 1int },
        r.1 == if h / 2 >= 1 { (h as int) / 2 } else { 1int },
{
    let rw = w / 2;
    let rh = h / 2;
    ((if rw >= 1 { rw } else { 1 }), (if rh >= 1 { rh } else { 1 }))
}

/// The byte length of a tightly packed 32-bit-per-pixel pixel buffer.
pub fn bgra_buffer_len(w: u32, h: u32) -> (r: u128)
    ensures
        r == 4 * (w as int) * (h as int),
{
    proof {
        assert(4 * (w as int) * (h as int) <= 4 * 0xffff_ffffi128 * 0xffff_ffffi128)
            by (nonlinear_arith)
            requires
                0 <= w as int <= 0xffff_ffff,
                0 <= h as int <= 0xffff_ffff,
        ;
    }
    4u128 * (w as u128) * (h as u128)
}

} // verus!
