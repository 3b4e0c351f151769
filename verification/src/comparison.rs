//! Pixel-level comparison of two RGBA images, with a diff image that dims
//! the pixels that match and paints the others red.
use vstd::prelude::*;

verus! {

/// A fixture that has a reference rendering: its name and the file of the
/// reference PDF.
#[derive(Debug, Clone, Copy, PartialEq, Eq)]
pub struct OgFixture {
    pub fixture_name: &'static str,
    pub og_pdf: &'static str,
}

/// The fixtures that have a reference PDF, with the file of each.
pub fn og_fixtures() -> (r: Vec<OgFixture>)
    ensures
        r@.len() == 8,
        r@[0] == (OgFixture { fixture_name: "tc_02", og_pdf: "02.ng.pdf" }),
        r@[1] == (OgFixture { fixture_name: "tc_03a", og_pdf: "03a.ng.pdf" }),
        r@[2] == (OgFixture { fixture_name: "tc_03b", og_pdf: "03b.ng.pdf" }),
        r@[3] == (OgFixture { fixture_name: "tc_04", og_pdf: "04.ng.pdf" }),
        r@[4] == (OgFixture { fixture_name: "tc_05", og_pdf: "05.ng.pdf" }),
        r@[5] == (OgFixture { fixture_name: "tc_55_1", og_pdf: "55_1.ng.pdf" }),
        r@[6] == (OgFixture { fixture_name: "tc_ich_bin_ja", og_pdf: "ich_bin_ja.ng.pdf" }),
        r@[7] == (OgFixture { fixture_name: "tc_schildt", og_pdf: "schildt.ng.pdf" }),
{
    let mut r: Vec<OgFixture> = Vec::new();
    r.push(OgFixture { fixture_name: "tc_02", og_pdf: "02.ng.pdf" });
    r.push(OgFixture { fixture_name: "tc_03a", og_pdf: "03a.ng.pdf" });
    r.push(OgFixture { fixture_name: "tc_03b", og_pdf: "03b.ng.pdf" });
    r.push(OgFixture { fixture_name: "tc_04", og_pdf: "04.ng.pdf" });
    r.push(OgFixture { fixture_name: "tc_05", og_pdf: "05.ng.pdf" });
    r.push(OgFixture { fixture_name: "tc_55_1", og_pdf: "55_1.ng.pdf" });
    r.push(OgFixture { fixture_name: "tc_ich_bin_ja", og_pdf: "ich_bin_ja.ng.pdf" });
    r.push(OgFixture { fixture_name: "tc_schildt", og_pdf: "schildt.ng.pdf" });
    r
}

/// The position of channel `c` of pixel (`x`, `y`) in an RGBA image `w`
/// pixels wide.
pub open spec fn pix_idx(w: int, x: int, y: int, c: int) -> int {
    (y * w + x) * 4 + c
}

/// The pixel (`x`, `y`) of an RGBA image `w` by `h`: its four bytes, or
/// opaque white outside the image.
pub open spec fn pixel_at(img: Seq<u8>, w: int, h: int, x: int, y: int) -> Seq<u8> {
    if x < w && y < h {
        img.subrange(pix_idx(w, x, y, 0), pix_idx(w, x, y, 4))
    } else {
        seq![255u8, 255u8, 255u8, 255u8]
    }
}

/// A channel blended at 30% over white.
pub open spec fn dim(c: u8) -> u8 {
    ((c as int * 30 + 255 * 70) / 100) as u8
}

/// The diff image's pixel for two pixels: the first dimmed (opaque) where
/// they are equal, opaque red where they differ.
pub open spec fn diff_pixel(pa: Seq<u8>, pb: Seq<u8>) -> Seq<u8> {
    if pa == pb {
        seq![dim(pa[0]), dim(pa[1]), dim(pa[2]), 255u8]
    } else {
        seq![255u8, 0u8, 0u8, 255u8]
    }
}

/// The two images differ at pixel (`x`, `y`).
pub open spec fn differs(a: Seq<u8>, wa: int, ha: int, b: Seq<u8>, wb: int, hb: int, x: int, y: int) -> bool {
    pixel_at(a, wa, ha, x, y) != pixel_at(b, wb, hb, x, y)
}

/// The number of differing pixels of row `y` among columns `0..n`.
pub open spec fn row_diffs(a: Seq<u8>, wa: int, ha: int, b: Seq<u8>, wb: int, hb: int, y: int, n: int) -> nat
    decreases n,
{
    if n <= 0 {
        0
    } else {
        row_diffs(a, wa, ha, b, wb, hb, y, n - 1) + if differs(a, wa, ha, b, wb, hb, n - 1, y) { 1nat } else { 0nat }
    }
}

/// The number of differing pixels in rows `0..m` of width `w`.
pub open spec fn img_diffs(a: Seq<u8>, wa: int, ha: int, b: Seq<u8>, wb: int, hb: int, w: int, m: int) -> nat
    decreases m,
{
    if m <= 0 {
        0
    } else {
        img_diffs(a, wa, ha, b, wb, hb, w, m - 1) + row_diffs(a, wa, ha, b, wb, hb, m - 1, w)
    }
}

proof fn lemma_row_diffs_bounded(a: Seq<u8>, wa: int, ha: int, b: Seq<u8>, wb: int, hb: int, y: int, n: int)
    requires
        n >= 0,
    ensures
        row_diffs(a, wa, ha, b, wb, hb, y, n) <= n,
    decreases n,
{
    if n > 0 {
        lemma_row_diffs_bounded(a, wa, ha, b, wb, hb, y, n - 1);
    }
}

proof fn lemma_pix_idx_bounds(w: int, h: int, x: int, y: int)
    requires
        0 <= x < w,
        0 <= y < h,
    ensures
        0 <= pix_idx(w, x, y, 0),
        pix_idx(w, x, y, 4) <= w * h * 4,
{
    assert(0 <= y * w) by (nonlinear_arith) requires 0 <= y, 0 <= w;
    assert(y * w + x + 1 <= w * h) by (nonlinear_arith) requires 0 <= x < w, 0 <= y < h;
}

proof fn lemma_pix_idx_distinct(w: int, x1: int, y1: int, c1: int, x2: int, y2: int, c2: int)
    requires
        0 <= x1 < w,
        0 <= x2 < w,
        0 <= y1,
        0 <= y2,
        0 <= c1 < 4,
        0 <= c2 < 4,
        x1 != x2 || y1 != y2 || c1 != c2,
    ensures
        pix_idx(w, x1, y1, c1) != pix_idx(w, x2, y2, c2),
{
    if y1 == y2 {
    } else if y1 < y2 {
        assert(y1 * w + w <= y2 * w) by (nonlinear_arith) requires y1 < y2, 0 <= w;
    } else {
        assert(y2 * w + w <= y1 * w) by (nonlinear_arith) requires y2 < y1, 0 <= w;
    }
}

fn read_pixel(img: &[u8], w: u32, h: u32, x: u32, y: u32) -> (r: [u8; 4])
    requires
        img@.len() >= w as int * h as int * 4,
    ensures
        r@ == pixel_at(img@, w as int, h as int, x as int, y as int),
{
    if x < w && y < h {
        let len = img.len();
        proof {
            lemma_pix_idx_bounds(w as int, h as int, x as int, y as int);
            assert(0 <= (y as int) * (w as int)) by (nonlinear_arith) requires 0 <= y, 0 <= w;
            assert((y as int) * (w as int) + x as int + 1 <= len);
        }
        let idx: usize = ((y as u64 * w as u64 + x as u64) * 4) as usize;
        let r = [img[idx], img[idx + 1], img[idx + 2], img[idx + 3]];
        assert(r@ =~= img@.subrange(idx as int, idx as int + 4));
        r
    } else {
        let r = [255u8, 255u8, 255u8, 255u8];
        assert(r@ =~= seq![255u8, 255u8, 255u8, 255u8]);
        r
    }
}

fn dim_channel(c: u8) -> (r: u8)
    ensures
        r == dim(c),
{
    ((c as u16 * 30 + 255 * 70) / 100) as u8
}

/// Compare two RGBA images pixel by pixel over the larger width and height,
/// pixels outside an image counting as opaque white. Returns the diff
/// image (`diff_pixel` at each pixel), its width and height, the number of
/// pixels compared and the number that differ.
pub fn compare_rgba_pixels(
    img_a: &[u8],
    w_a: u32,
    h_a: u32,
    img_b: &[u8],
    w_b: u32,
    h_b: u32,
) -> (r: (Vec<u8>, u32, u32, u64, u64))
    requires
        img_a@.len() >= w_a as int * h_a as int * 4,
        img_b@.len() >= w_b as int * h_b as int * 4,
        (if w_a >= w_b { w_a as int } else { w_b as int }) * (if h_a >= h_b { h_a as int } else { h_b as int }) * 4 <= u32::MAX,
    ensures
        r.1 == if w_a >= w_b { w_a } else { w_b },
        r.2 == if h_a >= h_b { h_a } else { h_b },
        r.3 == r.1 as int * r.2 as int,
        r.0@.len() == r.1 as int * r.2 as int * 4,
        forall|x: int, y: int, c: int| 0 <= x < r.1 && 0 <= y < r.2 && 0 <= c < 4
            ==> #[trigger] r.0@[pix_idx(r.1 as int, x, y, c)] == diff_pixel(
                pixel_at(img_a@, w_a as int, h_a as int, x, y), pixel_at(img_b@, w_b as int, h_b as int, x, y))[c],
        r.4 == img_diffs(img_a@, w_a as int, h_a as int, img_b@, w_b as int, h_b as int, r.1 as int, r.2 as int),
        r.4 <= r.3,
{
    let w: u32 = if w_a >= w_b { w_a } else { w_b };
    let h: u32 = if h_a >= h_b { h_a } else { h_b };
    let total: u64 = w as u64 * h as u64;
    let n: usize = (total * 4) as usize;
    let mut diff_rgba: Vec<u8> = vec![255u8; n];
    let mut diff_count: u64 = 0;
    let ghost a = img_a@;
    let ghost b = img_b@;
    let mut y: u32 = 0;
    while y < h
        invariant
            w as int * h as int * 4 <= u32::MAX,
            n == w as int * h as int * 4,
            total == w as int * h as int,
            a == img_a@,
            b == img_b@,
            img_a@.len() >= w_a as int * h_a as int * 4,
            img_b@.len() >= w_b as int * h_b as int * 4,
            y <= h,
            diff_rgba@.len() == n,
            diff_count == img_diffs(a, w_a as int, h_a as int, b, w_b as int, h_b as int, w as int, y as int),
            diff_count <= y as int * w as int,
            forall|x2: int, y2: int, c: int| 0 <= x2 < w && 0 <= y2 < y && 0 <= c < 4
                ==> #[trigger] diff_rgba@[pix_idx(w as int, x2, y2, c)] == diff_pixel(
                    pixel_at(a, w_a as int, h_a as int, x2, y2), pixel_at(b, w_b as int, h_b as int, x2, y2))[c],
        decreases h - y,
    {
        let mut x: u32 = 0;
        let ghost row_start = diff_count;
        proof {
            assert((y as int + 1) * (w as int) <= w as int * h as int) by (nonlinear_arith)
                requires y < h, 0 <= w;
        }
        while x < w
            invariant
                w as int * h as int * 4 <= u32::MAX,
                n == w as int * h as int * 4,
                a == img_a@,
                b == img_b@,
                img_a@.len() >= w_a as int * h_a as int * 4,
                img_b@.len() >= w_b as int * h_b as int * 4,
                y < h,
                x <= w,
                diff_rgba@.len() == n,
                row_start == img_diffs(a, w_a as int, h_a as int, b, w_b as int, h_b as int, w as int, y as int),
                row_start <= y as int * w as int,
                (y as int + 1) * (w as int) <= w as int * h as int,
                diff_count == row_start + row_diffs(a, w_a as int, h_a as int, b, w_b as int, h_b as int, y as int, x as int),
                forall|x2: int, y2: int, c: int| 0 <= x2 < w && 0 <= y2 < y && 0 <= c < 4
                    ==> #[trigger] diff_rgba@[pix_idx(w as int, x2, y2, c)] == diff_pixel(
                        pixel_at(a, w_a as int, h_a as int, x2, y2), pixel_at(b, w_b as int, h_b as int, x2, y2))[c],
                forall|x2: int, c: int| 0 <= x2 < x && 0 <= c < 4
                    ==> #[trigger] diff_rgba@[pix_idx(w as int, x2, y as int, c)] == diff_pixel(
                        pixel_at(a, w_a as int, h_a as int, x2, y as int), pixel_at(b, w_b as int, h_b as int, x2, y as int))[c],
            decreases w - x,
        {
            let px_a = read_pixel(img_a, w_a, h_a, x, y);
            let px_b = read_pixel(img_b, w_b, h_b, x, y);
            proof {
                lemma_pix_idx_bounds(w as int, h as int, x as int, y as int);
                assert(0 <= (y as int) * (w as int)) by (nonlinear_arith) requires 0 <= y, 0 <= w;
            }
            let out: usize = ((y as u64 * w as u64 + x as u64) * 4) as usize;
            assert(out == pix_idx(w as int, x as int, y as int, 0));
            let same = px_a[0] == px_b[0] && px_a[1] == px_b[1] && px_a[2] == px_b[2] && px_a[3] == px_b[3];
            proof {
                if same {
                    assert(px_a@ =~= px_b@);
                } else {
                    assert(px_a@ != px_b@) by {
                        if px_a@ == px_b@ {
                            assert(px_a@[0] == px_b@[0] && px_a@[1] == px_b@[1] && px_a@[2] == px_b@[2] && px_a@[3] == px_b@[3]);
                        }
                    }
                }
            }
            let ghost before = diff_rgba@;
            if same {
                let r0 = dim_channel(px_a[0]);
                let r1 = dim_channel(px_a[1]);
                let r2 = dim_channel(px_a[2]);
                diff_rgba.set(out, r0);
                diff_rgba.set(out + 1, r1);
                diff_rgba.set(out + 2, r2);
                diff_rgba.set(out + 3, 255);
            } else {
                diff_rgba.set(out, 255);
                diff_rgba.set(out + 1, 0);
                diff_rgba.set(out + 2, 0);
                diff_rgba.set(out + 3, 255);
                proof { lemma_row_diffs_bounded(a, w_a as int, h_a as int, b, w_b as int, h_b as int, y as int, x as int); }
                diff_count = diff_count + 1;
            }
            proof {
                let wi = w as int;
                assert forall|x2: int, y2: int, c: int| 0 <= x2 < w && 0 <= y2 < y && 0 <= c < 4
                    implies #[trigger] diff_rgba@[pix_idx(wi, x2, y2, c)] == diff_pixel(
                        pixel_at(a, w_a as int, h_a as int, x2, y2), pixel_at(b, w_b as int, h_b as int, x2, y2))[c] by {
                    lemma_pix_idx_bounds(wi, h as int, x2, y2);
                    lemma_pix_idx_distinct(wi, x2, y2, c, x as int, y as int, 0);
                    lemma_pix_idx_distinct(wi, x2, y2, c, x as int, y as int, 1);
                    lemma_pix_idx_distinct(wi, x2, y2, c, x as int, y as int, 2);
                    lemma_pix_idx_distinct(wi, x2, y2, c, x as int, y as int, 3);
                    assert(diff_rgba@[pix_idx(wi, x2, y2, c)] == before[pix_idx(wi, x2, y2, c)]);
                }
                assert forall|x2: int, c: int| 0 <= x2 < x + 1 && 0 <= c < 4
                    implies #[trigger] diff_rgba@[pix_idx(wi, x2, y as int, c)] == diff_pixel(
                        pixel_at(a, w_a as int, h_a as int, x2, y as int), pixel_at(b, w_b as int, h_b as int, x2, y as int))[c] by {
                    lemma_pix_idx_bounds(wi, h as int, x2, y as int);
                    if x2 < x {
                        lemma_pix_idx_distinct(wi, x2, y as int, c, x as int, y as int, 0);
                        lemma_pix_idx_distinct(wi, x2, y as int, c, x as int, y as int, 1);
                        lemma_pix_idx_distinct(wi, x2, y as int, c, x as int, y as int, 2);
                        lemma_pix_idx_distinct(wi, x2, y as int, c, x as int, y as int, 3);
                        assert(diff_rgba@[pix_idx(wi, x2, y as int, c)] == before[pix_idx(wi, x2, y as int, c)]);
                    }
                }
                assert(row_diffs(a, w_a as int, h_a as int, b, w_b as int, h_b as int, y as int, x as int + 1)
                    == row_diffs(a, w_a as int, h_a as int, b, w_b as int, h_b as int, y as int, x as int)
                        + if differs(a, w_a as int, h_a as int, b, w_b as int, h_b as int, x as int, y as int) { 1nat } else { 0nat });
            }
            x = x + 1;
        }
        proof {
            lemma_row_diffs_bounded(a, w_a as int, h_a as int, b, w_b as int, h_b as int, y as int, w as int);
            assert((y as int) * (w as int) + (w as int) == (y as int + 1) * (w as int)) by (nonlinear_arith);
        }
        y = y + 1;
    }
    assert(h as int * w as int == w as int * h as int) by (nonlinear_arith);
    (diff_rgba, w, h, total, diff_count)
}

proof fn lemma_row_diffs_self(a: Seq<u8>, wa: int, ha: int, y: int, n: int)
    ensures
        row_diffs(a, wa, ha, a, wa, ha, y, n) == 0,
    decreases n,
{
    if n > 0 {
        lemma_row_diffs_self(a, wa, ha, y, n - 1);
    }
}

/// An image compared with itself has no differing pixel.
pub proof fn lemma_self_comparison_no_diff(a: Seq<u8>, w: int, h: int)
    ensures
        img_diffs(a, w, h, a, w, h, w, h) == 0,
{
    lemma_self_comparison_no_diff_rows(a, w, h, h);
}

proof fn lemma_self_comparison_no_diff_rows(a: Seq<u8>, w: int, h: int, m: int)
    ensures
        img_diffs(a, w, h, a, w, h, w, m) == 0,
    decreases m,
{
    if m > 0 {
        lemma_self_comparison_no_diff_rows(a, w, h, m - 1);
        lemma_row_diffs_self(a, w, h, m - 1, w);
    }
}

proof fn lemma_row_diffs_symmetric(a: Seq<u8>, wa: int, ha: int, b: Seq<u8>, wb: int, hb: int, y: int, n: int)
    ensures
        row_diffs(a, wa, ha, b, wb, hb, y, n) == row_diffs(b, wb, hb, a, wa, ha, y, n),
    decreases n,
{
    if n > 0 {
        lemma_row_diffs_symmetric(a, wa, ha, b, wb, hb, y, n - 1);
    }
}

/// The number of differing pixels does not depend on which image comes
/// first.
pub proof fn lemma_comparison_symmetric(a: Seq<u8>, wa: int, ha: int, b: Seq<u8>, wb: int, hb: int, w: int, m: int)
    ensures
        img_diffs(a, wa, ha, b, wb, hb, w, m) == img_diffs(b, wb, hb, a, wa, ha, w, m),
    decreases m,
{
    if m > 0 {
        lemma_comparison_symmetric(a, wa, ha, b, wb, hb, w, m - 1);
        lemma_row_diffs_symmetric(a, wa, ha, b, wb, hb, m - 1, w);
    }
}

} // verus!
