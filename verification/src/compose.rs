//! The compositor: allocates one canvas at the layout's computed size,
//! rescales each decoded image to its assigned cell, and copies it in at
//! the cell's offset. The canvas dimensions are exactly the layout's.

use vstd::prelude::*;
use vstd::pervasive::VecAdditionalExecFns;
use vstd::arithmetic::mul::{lemma_mul_inequality, lemma_mul_upper_bound};
use crate::layout::{rects_disjoint, Layout, Rect};
use crate::imgio::{resize_rgba, resized_of};

verus! {

/// A rectangular RGBA8 pixel buffer, row-major, 4 bytes per pixel.
#[derive(Debug, Clone)]
pub struct Pixels {
    pub width: u32,
    pub height: u32,
    pub data: Vec<u8>,
}

impl Pixels {
    /// At least one pixel per side, and exactly 4 bytes per pixel.
    pub open spec fn wf(self) -> bool {
        &&& 1 <= self.width
        &&& 1 <= self.height
        &&& self.data@.len() == self.width as int * self.height as int * 4
    }
}

/// The finished composite: an immutable canvas plus its dimensions.
pub type StitchOutput = Pixels;

/// Byte offset of the first byte of row `cy` of the cell, on a canvas
/// `width` pixels wide.
pub open spec fn row_base(width: int, cell: Rect, cy: int) -> int {
    ((cell.y + cy) * width + cell.x) * 4
}

/// Byte index of offset `off` within row `cy` of the cell's region.
pub open spec fn cell_byte(width: int, cell: Rect, cy: int, off: int) -> int {
    row_base(width, cell, cy) + off
}

/// Whether byte index `idx` lies in one of the cell's row spans.
pub open spec fn in_cell(width: int, cell: Rect, idx: int) -> bool {
    exists|cy: int|
        0 <= cy < cell.h && #[trigger] row_base(width, cell, cy) <= idx < row_base(width, cell, cy)
            + cell.w * 4
}

/// Row spans of later rows start beyond the end of earlier rows' spans.
proof fn lemma_row_base_mono(width: int, cell: Rect, cy1: int, cy2: int)
    requires
        0 <= cy1 < cy2,
        cell.x + cell.w <= width,
    ensures
        row_base(width, cell, cy1) + cell.w * 4 <= row_base(width, cell, cy2),
{
    let y0 = cell.y as int;
    let x0 = cell.x as int;
    let w0 = cell.w as int;
    assert(((y0 + cy1) * width + x0) * 4 + w0 * 4 <= ((y0 + cy2) * width + x0) * 4)
        by (nonlinear_arith)
        requires
            0 <= cy1 < cy2,
            x0 + w0 <= width,
            0 <= x0,
            0 <= y0,
            0 <= w0,
    ;
}

/// Every byte of a cell row lies within the canvas buffer.
proof fn lemma_cell_row_in_canvas(width: int, height: int, cell: Rect, cy: int)
    requires
        0 <= cy < cell.h,
        cell.x + cell.w <= width,
        cell.y + cell.h <= height,
    ensures
        0 <= row_base(width, cell, cy),
        row_base(width, cell, cy) + cell.w * 4 <= width * height * 4,
{
    let y0 = cell.y as int;
    let x0 = cell.x as int;
    let w0 = cell.w as int;
    let h0 = cell.h as int;
    assert(0 <= ((y0 + cy) * width + x0) * 4 && ((y0 + cy) * width + x0) * 4 + w0 * 4 <= width
        * height * 4) by (nonlinear_arith)
        requires
            0 <= cy < h0,
            x0 + w0 <= width,
            y0 + h0 <= height,
            0 <= x0,
            0 <= y0,
            0 <= w0,
    ;
}

/// Every byte of a source row lies within the source buffer.
proof fn lemma_src_row_in_image(w0: int, h0: int, cy: int)
    requires
        0 <= cy < h0,
        0 <= w0,
    ensures
        0 <= cy * (w0 * 4),
        cy * (w0 * 4) + w0 * 4 <= w0 * h0 * 4,
{
    assert(0 <= cy * (w0 * 4) && cy * (w0 * 4) + w0 * 4 <= w0 * h0 * 4) by (nonlinear_arith)
        requires
            0 <= cy < h0,
            0 <= w0,
    ;
}

/// A byte of one cell's region lies in no other, disjoint cell's region.
proof fn lemma_disjoint_cells_bytes(width: int, a: Rect, b: Rect, cy: int, off: int)
    requires
        rects_disjoint(a, b),
        a.x + a.w <= width,
        b.x + b.w <= width,
        0 <= cy < a.h,
        0 <= off < a.w * 4,
    ensures
        !in_cell(width, b, cell_byte(width, a, cy, off)),
{
    let idx = cell_byte(width, a, cy, off);
    if in_cell(width, b, idx) {
        let cy2 = choose|cy2: int|
            0 <= cy2 < b.h && #[trigger] row_base(width, b, cy2) <= idx < row_base(width, b, cy2)
                + b.w * 4;
        let ya = a.y + cy;
        let yb = b.y + cy2;
        // Each row span stays within its own pixel row, so the rows match.
        assert(ya == yb) by (nonlinear_arith)
            requires
                idx == ((ya * width + a.x) * 4) + off,
                0 <= off < a.w * 4,
                ((yb * width + b.x) * 4) <= idx < ((yb * width + b.x) * 4) + b.w * 4,
                a.x + a.w <= width,
                b.x + b.w <= width,
                0 <= a.x && 0 <= b.x && 0 <= ya && 0 <= yb && 1 <= width,
        ;
        // Within one pixel row the two x-ranges would have to overlap.
        assert(b.x < a.x + a.w && a.x < b.x + b.w) by (nonlinear_arith)
            requires
                ya == yb,
                idx == ((ya * width + a.x) * 4) + off,
                0 <= off < a.w * 4,
                ((yb * width + b.x) * 4) <= idx < ((yb * width + b.x) * 4) + b.w * 4,
                1 <= width,
        ;
        assert(a.y + a.h <= b.y || b.y + b.h <= a.y);
        assert(false);
    }
}

/// Copies the image into the cell's region of the canvas, byte for byte,
/// and touches nothing outside that region.
pub fn blit(canvas: &mut Vec<u8>, width: u32, height: u32, img: &Pixels, cell: Rect)
    requires
        old(canvas)@.len() == width as int * height as int * 4,
        width as int * height as int * 4 <= usize::MAX,
        cell.x + cell.w <= width,
        cell.y + cell.h <= height,
        1 <= cell.w,
        1 <= cell.h,
        img.width == cell.w,
        img.height == cell.h,
        img.data@.len() == cell.w as int * cell.h as int * 4,
    ensures
        final(canvas)@.len() == old(canvas)@.len(),
        forall|cy: int, off: int|
            0 <= cy < cell.h && 0 <= off < cell.w * 4 ==> final(canvas)@[#[trigger] cell_byte(
                width as int,
                cell,
                cy,
                off,
            )] == img.data@[cy * (cell.w * 4) + off],
        forall|idx: int|
            0 <= idx < final(canvas)@.len() && !in_cell(width as int, cell, idx)
                ==> final(canvas)@[idx] == old(canvas)@[idx],
{
    let ghost orig = old(canvas)@;
    let ghost wi = width as int;
    proof {
        // The row length in bytes fits in usize.
        lemma_cell_row_in_canvas(wi, height as int, cell, 0);
    }
    let rowlen: usize = (cell.w as usize) * 4;
    let mut cy: u32 = 0;
    while cy < cell.h
        invariant
            canvas@.len() == orig.len(),
            orig.len() == width as int * height as int * 4,
            width as int * height as int * 4 <= usize::MAX,
            cell.x + cell.w <= width,
            cell.y + cell.h <= height,
            img.width == cell.w,
            img.height == cell.h,
            img.data@.len() == cell.w as int * cell.h as int * 4,
            rowlen == cell.w as int * 4,
            0 <= cy <= cell.h,
            wi == width as int,
            forall|r: int, off: int|
                0 <= r < cy && 0 <= off < cell.w * 4 ==> canvas@[#[trigger] cell_byte(
                    wi,
                    cell,
                    r,
                    off,
                )] == img.data@[r * (cell.w * 4) + off],
            forall|idx: int|
                0 <= idx < canvas@.len() && !in_cell(wi, cell, idx) ==> canvas@[idx] == orig[idx],
        decreases cell.h - cy,
    {
        proof {
            lemma_cell_row_in_canvas(wi, height as int, cell, cy as int);
            lemma_src_row_in_image(cell.w as int, cell.h as int, cy as int);
            lemma_mul_upper_bound(cell.w as int, width as int, cell.h as int, height as int);
        }
        let cbase: usize = ((cell.y + cy) as usize * width as usize + cell.x as usize) * 4;
        let ibase: usize = (cy as usize) * rowlen;
        proof {
            assert(cbase as int == row_base(wi, cell, cy as int));
            assert(ibase as int == cy as int * (cell.w as int * 4));
        }
        let mut off: usize = 0;
        while off < rowlen
            invariant
                canvas@.len() == orig.len(),
                orig.len() == width as int * height as int * 4,
                width as int * height as int * 4 <= usize::MAX,
                cell.x + cell.w <= width,
                cell.y + cell.h <= height,
                img.width == cell.w,
                img.height == cell.h,
                img.data@.len() == cell.w as int * cell.h as int * 4,
                rowlen == cell.w as int * 4,
                0 <= cy < cell.h,
                0 <= off <= rowlen,
                wi == width as int,
                cbase as int == row_base(wi, cell, cy as int),
                cbase + rowlen <= canvas@.len(),
                ibase as int == cy as int * (cell.w as int * 4),
                ibase + rowlen <= img.data@.len(),
                img.data@.len() <= usize::MAX,
                forall|r: int, o: int|
                    0 <= r < cy && 0 <= o < cell.w * 4 ==> canvas@[#[trigger] cell_byte(
                        wi,
                        cell,
                        r,
                        o,
                    )] == img.data@[r * (cell.w * 4) + o],
                forall|o: int|
                    0 <= o < off ==> canvas@[#[trigger] cell_byte(wi, cell, cy as int, o)]
                        == img.data@[ibase as int + o],
                forall|idx: int|
                    0 <= idx < canvas@.len() && !in_cell(wi, cell, idx) ==> canvas@[idx]
                        == orig[idx],
            decreases rowlen - off,
        {
            let b = img.data[ibase + off];
            canvas.set(cbase + off, b);
            proof {
                let w = cbase as int + off as int;
                // The written byte lies in this cell's row span.
                assert(row_base(wi, cell, cy as int) <= w < row_base(wi, cell, cy as int) + cell.w
                    * 4);
                assert(in_cell(wi, cell, w));
                // Earlier rows' spans end before this one starts.
                assert forall|r: int, o: int|
                    0 <= r < cy && 0 <= o < cell.w * 4 implies canvas@[#[trigger] cell_byte(
                    wi,
                    cell,
                    r,
                    o,
                )] == img.data@[r * (cell.w * 4) + o] by {
                    lemma_row_base_mono(wi, cell, r, cy as int);
                }
            }
            off = off + 1;
        }
        cy = cy + 1;
    }
}

/// The sample that cell `i`'s region must hold at row `cy`, offset
/// `off`: the corresponding byte of image `i` resampled to the cell.
pub open spec fn composed_sample(images: Seq<Pixels>, cell: Rect, i: int, cy: int, off: int) -> u8 {
    resized_of(images[i].data@, images[i].width, images[i].height, cell.w, cell.h)[cy * (cell.w
        * 4) + off]
}

/// Composites the images into one canvas of exactly the layout's size:
/// each image is resampled to its cell and copied in at the cell's
/// offset; cells never overlap, so every non-empty cell's region holds
/// precisely its own image's resampled bytes.
pub fn compose(images: &Vec<Pixels>, layout: &Layout) -> (r: StitchOutput)
    requires
        images@.len() == layout.cells@.len(),
        forall|i: int| 0 <= i < images@.len() ==> (#[trigger] images@[i]).wf(),
        forall|i: int|
            0 <= i < layout.cells@.len() ==> (#[trigger] layout.cells@[i]).x
                + layout.cells@[i].w <= layout.width && layout.cells@[i].y + layout.cells@[i].h
                <= layout.height,
        forall|i: int, j: int|
            0 <= i < layout.cells@.len() && 0 <= j < layout.cells@.len() && i != j
                ==> rects_disjoint(#[trigger] layout.cells@[i], #[trigger] layout.cells@[j]),
        1 <= layout.width,
        1 <= layout.height,
        layout.width as int * layout.height as int * 4 <= usize::MAX,
    ensures
        r.width == layout.width,
        r.height == layout.height,
        r.wf(),
        forall|i: int, cy: int, off: int|
            0 <= i < images@.len() && 0 < layout.cells@[i].w && 0 < layout.cells@[i].h && 0 <= cy
                < layout.cells@[i].h && 0 <= off < layout.cells@[i].w * 4 ==> r.data@[#[trigger] cell_byte(
                layout.width as int,
                layout.cells@[i],
                cy,
                off,
            )] == composed_sample(images@, layout.cells@[i], i, cy, off),
{
    let width = layout.width;
    let height = layout.height;
    let clen: usize = (width as usize) * (height as usize) * 4;
    let mut canvas: Vec<u8> = vec![0u8; clen];
    proof {
        assert(canvas@.len() == width as int * height as int * 4);
    }
    let n = images.len();
    let mut i: usize = 0;
    while i < n
        invariant
            n == images@.len(),
            images@.len() == layout.cells@.len(),
            0 <= i <= n,
            forall|k: int| 0 <= k < images@.len() ==> (#[trigger] images@[k]).wf(),
            forall|k: int|
                0 <= k < layout.cells@.len() ==> (#[trigger] layout.cells@[k]).x
                    + layout.cells@[k].w <= width && layout.cells@[k].y + layout.cells@[k].h
                    <= height,
            forall|k: int, j: int|
                0 <= k < layout.cells@.len() && 0 <= j < layout.cells@.len() && k != j
                    ==> rects_disjoint(#[trigger] layout.cells@[k], #[trigger] layout.cells@[j]),
            width == layout.width,
            height == layout.height,
            1 <= width,
            1 <= height,
            width as int * height as int * 4 <= usize::MAX,
            canvas@.len() == width as int * height as int * 4,
            forall|k: int, cy: int, off: int|
                0 <= k < i && 0 < layout.cells@[k].w && 0 < layout.cells@[k].h && 0 <= cy
                    < layout.cells@[k].h && 0 <= off < layout.cells@[k].w * 4 ==> canvas@[#[trigger] cell_byte(
                    width as int,
                    layout.cells@[k],
                    cy,
                    off,
                )] == composed_sample(images@, layout.cells@[k], k, cy, off),
        decreases n - i,
    {
        let cell = layout.cells[i];
        if cell.w > 0 && cell.h > 0 {
            proof {
                lemma_mul_inequality(cell.w as int, width as int, cell.h as int);
                lemma_mul_inequality(cell.h as int, height as int, width as int);
                lemma_mul_upper_bound(
                    cell.w as int,
                    width as int,
                    cell.h as int,
                    height as int,
                );
            }
            let scaledimg = resize_rgba(&images[i], cell.w, cell.h);
            blit(&mut canvas, width, height, &scaledimg, cell);
            proof {
                // Earlier cells are disjoint from this one, so their
                // regions kept their bytes.
                assert forall|k: int, cy: int, off: int|
                    0 <= k < i && 0 < layout.cells@[k].w && 0 < layout.cells@[k].h && 0 <= cy
                        < layout.cells@[k].h && 0 <= off < layout.cells@[k].w * 4 implies canvas@[#[trigger] cell_byte(
                    width as int,
                    layout.cells@[k],
                    cy,
                    off,
                )] == composed_sample(images@, layout.cells@[k], k, cy, off) by {
                    lemma_disjoint_cells_bytes(
                        width as int,
                        layout.cells@[k],
                        layout.cells@[i as int],
                        cy,
                        off,
                    );
                    lemma_cell_row_in_canvas(width as int, height as int, layout.cells@[k], cy);
                }
            }
        }
        i = i + 1;
    }
    Pixels { width, height, data: canvas }
}

} // verus!
