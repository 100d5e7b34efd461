use vstd::prelude::*;
use crate::raster::{Raster, RasterView, assembled, blank_rows, paste, fragment_band, placement_ok, views, FRAGMENT_COUNT};
use crate::codec::{CANVAS_SIZE, decoded_raster, decoded_fragments, fragments_fit};

verus! {

/// `n` zero bytes.
pub open spec fn zeros(n: nat) -> Seq<u8> {
    Seq::new(n, |k: int| 0u8)
}

/// What the receiver of an image's bands holds after laying them out: the
/// first `FRAGMENT_COUNT * band_height` rows of the image, each padded with
/// zero pixels to the canvas width, then zero rows.
pub open spec fn received_picture(img: RasterView, band_height: nat) -> Seq<Seq<u8>> {
    Seq::new(
        CANVAS_SIZE as nat,
        |y: int|
            if y < FRAGMENT_COUNT * band_height {
                img.rows[y] + zeros((4 * CANVAS_SIZE - 4 * img.width) as nat)
            } else {
                zeros(4 * CANVAS_SIZE as nat)
            },
    )
}

/// The canvas after the first `k` bands were laid out.
spec fn partial_picture(img: RasterView, band_height: nat, k: nat) -> Seq<Seq<u8>> {
    Seq::new(
        CANVAS_SIZE as nat,
        |y: int|
            if y < k * band_height {
                img.rows[y] + zeros((4 * CANVAS_SIZE - 4 * img.width) as nat)
            } else {
                zeros(4 * CANVAS_SIZE as nat)
            },
    )
}

/// The bands of `img` as `fragment_image` cuts them, top band first.
pub open spec fn cut_bands(img: RasterView) -> Seq<RasterView> {
    Seq::new(
        FRAGMENT_COUNT as nat,
        |i: int| RasterView { width: img.width, height: img.height / FRAGMENT_COUNT as nat, rows: fragment_band(img, i) },
    )
}

proof fn lemma_partial(img: RasterView, k: nat)
    requires
        img.wf(),
        img.width <= CANVAS_SIZE,
        FRAGMENT_COUNT * (img.height / FRAGMENT_COUNT as nat) <= CANVAS_SIZE,
        k <= FRAGMENT_COUNT,
    ensures
        assembled(cut_bands(img), k, CANVAS_SIZE as nat, CANVAS_SIZE as nat)
            == partial_picture(img, img.height / FRAGMENT_COUNT as nat, k),
    decreases k,
{
    let fh = img.height / FRAGMENT_COUNT as nat;
    let d = cut_bands(img);
    if k == 0 {
        assert(blank_rows(CANVAS_SIZE as nat, CANVAS_SIZE as nat) =~= partial_picture(img, fh, 0));
    } else {
        let i = (k - 1) as nat;
        lemma_partial(img, i);
        let prev = assembled(d, i, CANVAS_SIZE as nat, CANVAS_SIZE as nat);
        let band = d[i as int];
        assert(band.height == fh && band.width == img.width && band.rows == fragment_band(img, i as int));
        assert(k * fh == i * fh + fh) by (nonlinear_arith)
            requires k == i + 1;
        assert(k * fh <= FRAGMENT_COUNT * fh) by (nonlinear_arith)
            requires k <= FRAGMENT_COUNT;
        assert(FRAGMENT_COUNT * fh <= img.height) by (nonlinear_arith)
            requires fh == img.height / FRAGMENT_COUNT as nat;
        let next = paste(prev, band, (i * band.height) as int);
        assert forall|y: int| 0 <= y < CANVAS_SIZE implies #[trigger] next[y] == partial_picture(img, fh, k)[y] by {
            if i * fh <= y < i * fh + fh {
                assert(band.rows[y - i * fh] == img.rows[y]);
                assert(prev[y] == zeros(4 * CANVAS_SIZE as nat));
                assert(prev[y].subrange(4 * band.width as int, prev[y].len() as int) =~= zeros(
                    (4 * CANVAS_SIZE - 4 * img.width) as nat,
                ));
            }
        }
        assert(next =~= partial_picture(img, fh, k));
    }
}

/// Cutting an image into bands and laying the bands out again gives back the
/// image: every band fits the canvas, and the canvas holds the image's first
/// `FRAGMENT_COUNT * band height` rows, padded with zero pixels, over zero rows.
pub proof fn lemma_bands_reassemble(img: RasterView)
    requires
        img.wf(),
        img.width <= CANVAS_SIZE,
        FRAGMENT_COUNT * (img.height / FRAGMENT_COUNT as nat) <= CANVAS_SIZE,
    ensures
        forall|i: int| 0 <= i < FRAGMENT_COUNT ==> placement_ok(
            #[trigger] cut_bands(img)[i],
            i,
            CANVAS_SIZE as nat,
            CANVAS_SIZE as nat,
        ),
        assembled(cut_bands(img), FRAGMENT_COUNT as nat, CANVAS_SIZE as nat, CANVAS_SIZE as nat)
            == received_picture(img, img.height / FRAGMENT_COUNT as nat),
{
    let fh = img.height / FRAGMENT_COUNT as nat;
    assert forall|i: int| 0 <= i < FRAGMENT_COUNT implies placement_ok(
        #[trigger] cut_bands(img)[i],
        i,
        CANVAS_SIZE as nat,
        CANVAS_SIZE as nat,
    ) by {
        assert(i * fh + fh <= FRAGMENT_COUNT * fh) by (nonlinear_arith)
            requires i + 1 <= FRAGMENT_COUNT;
    }
    lemma_partial(img, FRAGMENT_COUNT as nat);
    assert(partial_picture(img, fh, FRAGMENT_COUNT as nat) =~= received_picture(img, fh));
}

/// The bands that `fragment_image` returns, handed straight to
/// `reassemble_images` on a `CANVAS_SIZE` canvas, meet its requirements, and
/// the picture it returns holds the image's first `FRAGMENT_COUNT * band
/// height` rows, padded with zero pixels, over zero rows.
pub proof fn lemma_cut_then_lay_out(img: Raster, bands: Seq<Raster>)
    requires
        img@.wf(),
        img.width <= CANVAS_SIZE,
        FRAGMENT_COUNT * (img.height / FRAGMENT_COUNT) <= CANVAS_SIZE,
        bands.len() == FRAGMENT_COUNT,
        forall|i: int| 0 <= i < FRAGMENT_COUNT ==> {
            &&& (#[trigger] bands[i])@.wf()
            &&& bands[i].width == img.width
            &&& bands[i].height == img.height / FRAGMENT_COUNT
            &&& bands[i]@.rows == fragment_band(img@, i)
        },
    ensures
        forall|i: int| 0 <= i < bands.len() ==> placement_ok((#[trigger] bands[i])@, i, CANVAS_SIZE as nat, CANVAS_SIZE as nat),
        assembled(views(bands), bands.len(), CANVAS_SIZE as nat, CANVAS_SIZE as nat)
            == received_picture(img@, img@.height / FRAGMENT_COUNT as nat),
{
    assert(views(bands) =~= cut_bands(img@));
    lemma_bands_reassemble(img@);
    assert forall|i: int| 0 <= i < bands.len() implies placement_ok((#[trigger] bands[i])@, i, CANVAS_SIZE as nat, CANVAS_SIZE as nat) by {
        assert(bands[i]@ == cut_bands(img@)[i]);
    }
}

/// Sending an image's bands and laying them out again gives back the image:
/// when every received fragment decodes to the band it was cut as, the
/// fragments fit the canvas, and the canvas holds the image's first
/// `FRAGMENT_COUNT * band height` rows, padded with zero pixels, over zero rows.
pub proof fn lemma_fragments_reassemble(img: RasterView, frags: Seq<Seq<u8>>)
    requires
        img.wf(),
        img.width <= CANVAS_SIZE,
        FRAGMENT_COUNT * (img.height / FRAGMENT_COUNT as nat) <= CANVAS_SIZE,
        frags.len() == FRAGMENT_COUNT,
        forall|i: int| 0 <= i < FRAGMENT_COUNT ==> #[trigger] decoded_raster(frags[i]) == Some(RasterView {
            width: img.width,
            height: img.height / FRAGMENT_COUNT as nat,
            rows: fragment_band(img, i),
        }),
    ensures
        fragments_fit(frags),
        assembled(decoded_fragments(frags), FRAGMENT_COUNT as nat, CANVAS_SIZE as nat, CANVAS_SIZE as nat)
            == received_picture(img, img.height / FRAGMENT_COUNT as nat),
{
    assert(decoded_fragments(frags) =~= cut_bands(img));
    lemma_bands_reassemble(img);
    assert forall|i: int| 0 <= i < frags.len() implies #[trigger] decoded_raster(frags[i]) is Some by {}
    assert forall|i: int| 0 <= i < frags.len() implies placement_ok(
        #[trigger] decoded_fragments(frags)[i],
        i,
        CANVAS_SIZE as nat,
        CANVAS_SIZE as nat,
    ) by {
        assert(decoded_fragments(frags)[i] == cut_bands(img)[i]);
    }
}

} // verus!
