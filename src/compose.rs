use std::sync::Arc;
use vstd::prelude::*;
use crate::raster::{alpha, Pixel, Raster, RasterView};
use vstd::arithmetic::div_mod::{lemma_fundamental_div_mod, lemma_mod_bound, lemma_multiply_divide_lt};

verus! {

/// What `image`'s RGBA blend gives for a top pixel whose alpha is neither 0
/// nor 255 (a computation in floating point).
pub uninterp spec fn partial_blend(bottom: Pixel, top: Pixel) -> Pixel;

/// Source-over of one pixel: a transparent top pixel leaves the bottom one,
/// an opaque one replaces it, anything between blends.
pub open spec fn blend_pixel(bottom: Pixel, top: Pixel) -> Pixel {
    if alpha(top) == 0 {
        bottom
    } else if alpha(top) == 255 {
        top
    } else {
        partial_blend(bottom, top)
    }
}

/// Whether pixel `i` of `base` lies under `top` when `top` is placed at the origin.
pub open spec fn in_overlap(base: RasterView, top: RasterView, i: int) -> bool {
    i % (base.width as int) < top.width && i / (base.width as int) < top.height
}

/// The pixel of `top` that lies over pixel `i` of `base`.
pub open spec fn top_pixel_at(base: RasterView, top: RasterView, i: int) -> Pixel {
    top.pixels[(i / (base.width as int)) * top.width + i % (base.width as int)]
}

/// `top` laid over `base` at the origin: the result has the size of `base`;
/// where the two overlap each pixel is blended, elsewhere `base` is kept.
pub open spec fn overlaid(base: RasterView, top: RasterView) -> RasterView {
    RasterView {
        width: base.width,
        height: base.height,
        pixels: Seq::new(
            base.pixels.len(),
            |i: int|
                if in_overlap(base, top, i) {
                    blend_pixel(base.pixels[i], top_pixel_at(base, top, i))
                } else {
                    base.pixels[i]
                },
        ),
    }
}

/// The composite of a non-empty stack of layers, bottom first: each later
/// layer is laid over the composite of those before it.
pub open spec fn composite(layers: Seq<RasterView>) -> RasterView
    recommends
        layers.len() > 0,
    decreases layers.len(),
{
    if layers.len() <= 1 {
        layers[0]
    } else {
        overlaid(composite(layers.drop_last()), layers.last())
    }
}

pub open spec fn views(images: Seq<Arc<Raster>>) -> Seq<RasterView> {
    images.map_values(|r: Arc<Raster>| r@)
}

pub open spec fn all_wf(images: Seq<Arc<Raster>>) -> bool {
    forall|i: int| 0 <= i < images.len() ==> (#[trigger] images[i]).wf()
}

/// A stack of one layer composites to that layer unchanged.
pub proof fn lemma_composite_single(a: RasterView)
    ensures
        composite(seq![a]) == a,
{
}

/// Stacking is a left fold: three layers composite to the third laid over
/// the second laid over the first.
pub proof fn lemma_composite_three(a: RasterView, b: RasterView, c: RasterView)
    ensures
        composite(seq![a, b, c]) == overlaid(overlaid(a, b), c),
{
    let s = seq![a, b, c];
    assert(s.drop_last() =~= seq![a, b]);
    assert(seq![a, b].drop_last() =~= seq![a]);
    assert(composite(seq![a]) == a);
    assert(composite(seq![a, b]) == overlaid(a, b));
    assert(composite(s) == overlaid(composite(seq![a, b]), c));
}

/// Adding a layer on top of a stack lays it over the composite of the stack.
pub proof fn lemma_composite_push(layers: Seq<RasterView>, top: RasterView)
    requires
        layers.len() > 0,
    ensures
        composite(layers.push(top)) == overlaid(composite(layers), top),
{
    assert(layers.push(top).drop_last() =~= layers);
}

/// A fully opaque layer of the same size hides whatever lies beneath it.
pub proof fn lemma_opaque_covers(base: RasterView, top: RasterView)
    requires
        base.wf(),
        top.wf(),
        base.width == top.width,
        base.height == top.height,
        top.opaque(),
    ensures
        overlaid(base, top) == top,
{
    let r = overlaid(base, top);
    let w = base.width as int;
    let h = base.height as int;
    assert forall|i: int| 0 <= i < r.pixels.len() implies r.pixels[i] == top.pixels[i] by {
        assert(w > 0) by (nonlinear_arith)
            requires
                0 <= i < w * h,
                w >= 0,
                h >= 0,
        ;
        lemma_fundamental_div_mod(i, w);
        lemma_mod_bound(i, w);
        lemma_multiply_divide_lt(i, w, h);
        assert((i / w) * w == w * (i / w)) by (nonlinear_arith);
        assert(top_pixel_at(base, top, i) == top.pixels[i]);
        assert(alpha(top.pixels[i]) == 255);
    }
    assert(r.pixels =~= top.pixels);
}

/// Order matters: two different opaque layers of one size composite to the
/// upper one, so swapping them changes the result.
pub proof fn lemma_order_matters(a: RasterView, b: RasterView)
    requires
        a.wf(),
        b.wf(),
        a.width == b.width,
        a.height == b.height,
        a.opaque(),
        b.opaque(),
        a != b,
    ensures
        composite(seq![a, b]) != composite(seq![b, a]),
{
    lemma_opaque_covers(a, b);
    lemma_opaque_covers(b, a);
    assert(seq![a, b].drop_last() =~= seq![a]);
    assert(seq![b, a].drop_last() =~= seq![b]);
    assert(composite(seq![a]) == a);
    assert(composite(seq![b]) == b);
    assert(composite(seq![a, b]) == b);
    assert(composite(seq![b, a]) == a);
}

#[derive(Clone, Copy, Debug, PartialEq, Eq, Structural)]
pub enum CombineError {
    /// There was no layer to start from.
    EmptyInput,
}

/// Relies on image::imageops::overlay at offset (0, 0) on two `RgbaImage`s:
/// it visits the min(width) x min(height) region at the origin and applies
/// `Rgba::blend` there, which returns early on a zero top alpha and copies
/// the top pixel on a full one; nothing else of the bottom image changes.
#[verifier::external_body]
fn overlay_onto(base: &mut Raster, top: &Raster)
    requires
        old(base).wf(),
        top.wf(),
    ensures
        final(base).wf(),
        final(base).width == old(base).width,
        final(base).height == old(base).height,
        forall|i: int|
            0 <= i < old(base)@.pixels.len() ==> #[trigger] final(base)@.pixels[i] == (if in_overlap(
                old(base)@,
                top@,
                i,
            ) {
                if alpha(top_pixel_at(old(base)@, top@, i)) == 0 {
                    old(base)@.pixels[i]
                } else if alpha(top_pixel_at(old(base)@, top@, i)) == 255 {
                    top_pixel_at(old(base)@, top@, i)
                } else {
                    partial_blend(old(base)@.pixels[i], top_pixel_at(old(base)@, top@, i))
                }
            } else {
                old(base)@.pixels[i]
            }),
{
    let raw: Vec<u8> = base.pixels.iter().flatten().copied().collect();
    let mut bottom = image::RgbaImage::from_raw(base.width, base.height, raw).unwrap();
    let raw_top: Vec<u8> = top.pixels.iter().flatten().copied().collect();
    let upper = image::RgbaImage::from_raw(top.width, top.height, raw_top).unwrap();
    image::imageops::overlay(&mut bottom, &upper, 0, 0);
    base.pixels = bottom.pixels().map(|p| p.0).collect();
}

/// Stacks the layers in order, bottom first, into one raster of the size of
/// the bottom layer.
pub fn combine(images: &Vec<Arc<Raster>>) -> (r: Result<Raster, CombineError>)
    requires
        all_wf(images@),
    ensures
        images@.len() == 0 ==> r == Err::<Raster, CombineError>(CombineError::EmptyInput),
        images@.len() > 0 ==> (r matches Ok(img) && img.wf() && img@ == composite(views(images@))),
{
    if images.len() == 0 {
        return Err(CombineError::EmptyInput);
    }
    let mut acc = images[0].copy_of();
    proof {
        assert(views(images@.subrange(0, 1)) =~= seq![images@[0]@]);
    }
    let mut i: usize = 1;
    while i < images.len()
        invariant
            1 <= i <= images@.len(),
            all_wf(images@),
            acc.wf(),
            acc@ == composite(views(images@.subrange(0, i as int))),
        decreases images@.len() - i,
    {
        let ghost prev = acc@;
        overlay_onto(&mut acc, &*images[i]);
        proof {
            let want = overlaid(prev, images@[i as int]@);
            assert(acc@.pixels.len() == want.pixels.len());
            assert(acc@.pixels =~= want.pixels);
            assert(acc@ =~= want);
            let next = views(images@.subrange(0, i as int + 1));
            assert(next.drop_last() =~= views(images@.subrange(0, i as int)));
            assert(next.last() == images@[i as int]@);
        }
        i += 1;
    }
    proof {
        assert(images@.subrange(0, images@.len() as int) =~= images@);
    }
    Ok(acc)
}

} // verus!
