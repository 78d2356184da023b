//! The stitch operation: decodes every source in collection order,
//! computes the layout, and composites the images into one canvas whose
//! dimensions are exactly the layout's.

use vstd::prelude::*;
use crate::compose::{cell_byte, compose, Pixels, StitchOutput};
use crate::config::StitchConfig;
use crate::error::StitchError;
use crate::files::ImageFiles;
use crate::imgio::{decode_rgba, decoded_of};
use crate::imgio::resized_of;
use crate::layout::{
    compute_layout,
    layout_infeasible,
    layout_matches,
    spec_canvas_height,
    spec_canvas_width,
    spec_cols,
    Dims,
    Layout,
};
use crate::source::ImageSource;

verus! {

/// Whether the bytes decode to an image with at least one pixel per
/// side. A decoder may accept a header that declares zero pixels; such
/// a degenerate image cannot be laid out and counts as a decode failure.
pub open spec fn usable_decode(bytes: Seq<u8>) -> bool {
    match decoded_of(bytes) {
        Some(d) => 1 <= d.0 && 1 <= d.1,
        None => false,
    }
}

/// Whether every source's bytes decode to a usable image.
pub open spec fn all_decodable(sources: Seq<ImageSource>) -> bool {
    forall|i: int| 0 <= i < sources.len() ==> usable_decode((#[trigger] sources[i]).bytes@)
}

/// The decoded RGBA samples of a byte buffer (empty if it does not
/// decode).
pub open spec fn decoded_data(bytes: Seq<u8>) -> Seq<u8> {
    match decoded_of(bytes) {
        Some(d) => d.2,
        None => Seq::empty(),
    }
}

/// The decoded pixel dimensions of each source, in order.
pub open spec fn decoded_dims(sources: Seq<ImageSource>) -> Seq<Dims> {
    Seq::new(
        sources.len(),
        |i: int|
            match decoded_of(sources[i].bytes@) {
                Some(d) => Dims { w: d.0, h: d.1 },
                None => Dims { w: 0, h: 0 },
            },
    )
}

/// Runs the stitch. Fails with `DecodeError` when any source's bytes do
/// not decode to a usable image (no partial canvas is ever returned), and with
/// `LayoutInfeasible` exactly when the layout for the decoded sizes is
/// infeasible; otherwise the output canvas has exactly the dimensions
/// the layout engine computes for the decoded sizes, and each cell of
/// that layout holds its own source's decoded image, resampled to the
/// cell.
pub fn stitch(files: &ImageFiles, config: &StitchConfig) -> (r: Result<StitchOutput, StitchError>)
    requires
        files.wf(),
    ensures
        !all_decodable(files.sources()) ==> (r matches Err(e) && e is DecodeError),
        all_decodable(files.sources()) ==> ((r is Err) <==> layout_infeasible(
            decoded_dims(files.sources()),
            *config,
        )),
        all_decodable(files.sources()) ==> (r matches Err(e) ==> e is LayoutInfeasible),
        r matches Ok(o) ==> o.wf() && o.width == spec_canvas_width(
            decoded_dims(files.sources()),
            *config,
        ) && o.height == spec_canvas_height(decoded_dims(files.sources()), *config),
        r matches Ok(o) ==> (exists|l: Layout|
            {
                &&& #[trigger] layout_matches(decoded_dims(files.sources()), *config, l)
                &&& l.cols as int == spec_cols(config.alignment, files.sources().len() as int)
                &&& l.width == o.width
                &&& l.height == o.height
                &&& l.cells.len() == files.sources().len()
                &&& forall|i: int, cy: int, off: int|
                    0 <= i < l.cells.len() && 0 < l.cells[i].w && 0 < l.cells[i].h && 0 <= cy
                        < l.cells[i].h && 0 <= off < l.cells[i].w * 4 ==> o.data@[#[trigger] cell_byte(
                        o.width as int,
                        l.cells[i],
                        cy,
                        off,
                    )] == resized_of(
                        decoded_data(files.sources()[i].bytes@),
                        decoded_dims(files.sources())[i].w,
                        decoded_dims(files.sources())[i].h,
                        l.cells[i].w,
                        l.cells[i].h,
                    )[cy * (l.cells[i].w * 4) + off]
            }),
{
    let n = files.count();
    let mut imgs: Vec<Pixels> = Vec::new();
    let mut i: usize = 0;
    while i < n
        invariant
            files.wf(),
            n == files.sources().len(),
            0 <= i <= n,
            imgs@.len() == i,
            forall|k: int|
                0 <= k < i ==> decoded_of(files.sources()[k].bytes@) == Some(
                    ((#[trigger] imgs@[k]).width, imgs@[k].height, imgs@[k].data@),
                ),
            forall|k: int| 0 <= k < i ==> (#[trigger] imgs@[k]).wf(),
        decreases n - i,
    {
        match decode_rgba(&files.get(i).bytes) {
            Some(p) => {
                if p.width == 0 || p.height == 0 {
                    proof {
                        assert(!usable_decode(files.sources()[i as int].bytes@));
                    }
                    return Err(
                        StitchError::DecodeError("a source decoded to an empty image".to_owned()),
                    );
                }
                imgs.push(p);
            },
            None => {
                proof {
                    assert(!usable_decode(files.sources()[i as int].bytes@));
                }
                return Err(StitchError::DecodeError("a source could not be decoded".to_owned()));
            },
        }
        i = i + 1;
    }
    proof {
        assert forall|k: int| 0 <= k < files.sources().len() implies usable_decode(
            (#[trigger] files.sources()[k]).bytes@,
        ) by {
            assert(decoded_of(files.sources()[k].bytes@) == Some(
                ((imgs@[k]).width, imgs@[k].height, imgs@[k].data@),
            ));
            assert(imgs@[k].wf());
        }
        assert(all_decodable(files.sources()));
    }
    let ghost gdims = decoded_dims(files.sources());
    let mut dims: Vec<Dims> = Vec::new();
    let mut i: usize = 0;
    while i < n
        invariant
            files.wf(),
            n == files.sources().len(),
            0 <= i <= n,
            imgs@.len() == n,
            gdims == decoded_dims(files.sources()),
            forall|k: int|
                0 <= k < n ==> decoded_of(files.sources()[k].bytes@) == Some(
                    ((#[trigger] imgs@[k]).width, imgs@[k].height, imgs@[k].data@),
                ),
            forall|k: int| 0 <= k < n ==> (#[trigger] imgs@[k]).wf(),
            dims@.len() == i,
            forall|k: int|
                0 <= k < i ==> (#[trigger] dims@[k]) == (Dims {
                    w: imgs@[k].width,
                    h: imgs@[k].height,
                }),
        decreases n - i,
    {
        let p = &imgs[i];
        dims.push(Dims { w: p.width, h: p.height });
        i = i + 1;
    }
    proof {
        assert(dims@ =~= gdims);
        assert(forall|k: int|
            0 <= k < dims@.len() ==> 1 <= (#[trigger] dims@[k]).w && 1 <= dims@[k].h);
    }
    let layout = match compute_layout(&dims, config) {
        Ok(l) => l,
        Err(e) => {
            return Err(e);
        },
    };
    proof {
        assert(layout.width as int == spec_canvas_width(gdims, *config));
        assert(layout.height as int == spec_canvas_height(gdims, *config));
        assert(layout.width as int * layout.height as int * 4 <= usize::MAX);
    }
    let out = compose(&imgs, &layout);
    proof {
        // The composed canvas realizes this very layout: each non-empty
        // cell holds its source's decoded image resampled to the cell.
        assert forall|i: int, cy: int, off: int|
            0 <= i < layout.cells@.len() && 0 < layout.cells@[i].w && 0 < layout.cells@[i].h && 0
                <= cy < layout.cells@[i].h && 0 <= off < layout.cells@[i].w * 4 implies out.data@[#[trigger] cell_byte(
            out.width as int,
            layout.cells@[i],
            cy,
            off,
        )] == resized_of(
            decoded_data(files.sources()[i].bytes@),
            gdims[i].w,
            gdims[i].h,
            layout.cells@[i].w,
            layout.cells@[i].h,
        )[cy * (layout.cells@[i].w * 4) + off] by {
            assert(out.data@[cell_byte(layout.width as int, layout.cells@[i], cy, off)]
                == crate::compose::composed_sample(imgs@, layout.cells@[i], i, cy, off));
            assert(imgs@[i].data@ == decoded_data(files.sources()[i].bytes@));
            assert(imgs@[i].width == gdims[i].w && imgs@[i].height == gdims[i].h);
        }
        assert(layout_matches(gdims, *config, layout));
    }
    Ok(out)
}

} // verus!
