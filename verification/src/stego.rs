use vstd::prelude::*;
use crate::raster::{Raster, RasterView};
use crate::codec::{ResizeFilter, scaled_image, scale_image_file};

verus! {

/// A cover channel carrying the high nibble of a hidden channel in its low nibble.
pub open spec fn hide_byte(cover: u8, hidden: u8) -> u8 {
    (cover & 0xF0u8) | (hidden >> 4u8)
}

/// The hidden nibble of a channel, moved back to the high half.
pub open spec fn reveal_byte(carrier: u8) -> u8 {
    (carrier & 0x0Fu8) << 4u8
}

/// A cover row with the hidden row's colour channels embedded; alpha stays the cover's.
pub open spec fn embed_row(cover: Seq<u8>, hidden: Seq<u8>) -> Seq<u8> {
    Seq::new(cover.len(), |k: int| if k % 4 == 3 { cover[k] } else { hide_byte(cover[k], hidden[k]) })
}

/// The colour channels recovered from a carrier row; alpha becomes opaque.
pub open spec fn extract_row(carrier: Seq<u8>) -> Seq<u8> {
    Seq::new(carrier.len(), |k: int| if k % 4 == 3 { 255u8 } else { reveal_byte(carrier[k]) })
}

/// Embeds `hidden` (already of the cover's size) into `cover`, row by row.
pub fn embed_image(cover: &Raster, hidden: &Raster) -> (r: Raster)
    requires
        cover@.wf(),
        hidden@.wf(),
        hidden.width == cover.width,
        hidden.height == cover.height,
    ensures
        r@.wf(),
        r.width == cover.width,
        r.height == cover.height,
        forall|y: int| 0 <= y < cover.height ==> #[trigger] r@.rows[y] == embed_row(cover@.rows[y], hidden@.rows[y]),
{
    let mut rows: Vec<Vec<u8>> = Vec::new();
    let mut y: usize = 0;
    while y < cover.rows.len()
        invariant
            cover@.wf(),
            hidden@.wf(),
            hidden.width == cover.width,
            hidden.height == cover.height,
            y <= cover@.rows.len(),
            rows@.len() == y,
            forall|k: int| 0 <= k < y ==> (#[trigger] rows@[k])@ == embed_row(cover@.rows[k], hidden@.rows[k]),
        decreases cover@.rows.len() - y,
    {
        let crow = &cover.rows[y];
        let hrow = &hidden.rows[y];
        assert(crow@ == cover@.rows[y as int]);
        assert(hrow@ == hidden@.rows[y as int]);
        let mut out: Vec<u8> = Vec::new();
        let mut k: usize = 0;
        while k < crow.len()
            invariant
                k <= crow@.len(),
                hrow@.len() == crow@.len(),
                out@ == embed_row(crow@, hrow@).subrange(0, k as int),
            decreases crow@.len() - k,
        {
            let b = if k % 4 == 3 { crow[k] } else { (crow[k] & 0xF0u8) | (hrow[k] >> 4u8) };
            out.push(b);
            k = k + 1;
            assert(out@ =~= embed_row(crow@, hrow@).subrange(0, k as int));
        }
        assert(out@ =~= embed_row(crow@, hrow@));
        rows.push(out);
        y = y + 1;
    }
    let r = Raster { width: cover.width, height: cover.height, rows };
    assert forall|y: int| 0 <= y < r@.rows.len() implies #[trigger] r@.rows[y].len() == 4 * r@.width by {
        assert(r@.rows[y] == rows@[y]@);
    }
    r
}

/// The picture in the hidden image file scaled (Lanczos3) to the cover's
/// size, where it can be.
pub open spec fn scaled_hidden(cover: &Raster, hidden_file: Seq<u8>) -> Option<RasterView> {
    scaled_image(hidden_file, cover.width, cover.height, ResizeFilter::Lanczos3)
}

/// Hides the picture of the image file `hidden_file` inside `cover_image`:
/// the hidden picture is scaled to the cover's size and the high nibble of
/// each of its colour channels is stored in the low nibble of the cover's
/// channel. `None` where the file does not decode or its picture cannot be
/// scaled to the cover's size.
pub fn encrypt_image(cover_image: &Raster, hidden_file: &[u8]) -> (r: Option<Raster>)
    requires
        cover_image@.wf(),
    ensures
        r is Some <==> scaled_hidden(cover_image, hidden_file@) is Some,
        r matches Some(out) ==> {
            let scaled = scaled_hidden(cover_image, hidden_file@)->Some_0;
            &&& out@.wf()
            &&& out.width == cover_image.width
            &&& out.height == cover_image.height
            &&& scaled.wf()
            &&& scaled.width == cover_image.width
            &&& scaled.height == cover_image.height
            &&& forall|y: int|
                0 <= y < cover_image.height ==> #[trigger] out@.rows[y] == embed_row(cover_image@.rows[y], scaled.rows[y])
        },
{
    match scale_image_file(hidden_file, cover_image.width, cover_image.height, ResizeFilter::Lanczos3) {
        Some(scaled) => Some(embed_image(cover_image, &scaled)),
        None => None,
    }
}

/// Recovers the hidden picture from a carrier image. The cover picture is
/// consulted pixel by pixel, so it must be at least as large as the carrier.
pub fn image_decrypt(image: &Raster, cover_image: &Raster) -> (r: Raster)
    requires
        image@.wf(),
        cover_image@.wf(),
        image.width == 0 || image.height == 0 || (cover_image.width >= image.width
            && cover_image.height >= image.height),
    ensures
        r@.wf(),
        r.width == image.width,
        r.height == image.height,
        forall|y: int| 0 <= y < image.height ==> #[trigger] r@.rows[y] == extract_row(image@.rows[y]),
{
    let mut rows: Vec<Vec<u8>> = Vec::new();
    let mut y: usize = 0;
    while y < image.rows.len()
        invariant
            image@.wf(),
            y <= image@.rows.len(),
            rows@.len() == y,
            forall|k: int| 0 <= k < y ==> (#[trigger] rows@[k])@ == extract_row(image@.rows[k]),
        decreases image@.rows.len() - y,
    {
        let row = &image.rows[y];
        assert(row@ == image@.rows[y as int]);
        let mut out: Vec<u8> = Vec::new();
        let mut k: usize = 0;
        while k < row.len()
            invariant
                k <= row@.len(),
                out@ == extract_row(row@).subrange(0, k as int),
            decreases row@.len() - k,
        {
            let b = if k % 4 == 3 { 255u8 } else { (row[k] & 0x0Fu8) << 4u8 };
            out.push(b);
            k = k + 1;
            assert(out@ =~= extract_row(row@).subrange(0, k as int));
        }
        assert(out@ =~= extract_row(row@));
        rows.push(out);
        y = y + 1;
    }
    let r = Raster { width: image.width, height: image.height, rows };
    assert forall|y: int| 0 <= y < r@.rows.len() implies #[trigger] r@.rows[y].len() == 4 * r@.width by {
        assert(r@.rows[y] == rows@[y]@);
    }
    r
}

/// Revealing an embedded channel gives back the hidden channel's high nibble.
pub proof fn lemma_reveal_hide(cover: u8, hidden: u8)
    ensures
        reveal_byte(hide_byte(cover, hidden)) == hidden & 0xF0u8,
{
    assert(((((cover & 0xF0u8) | (hidden >> 4u8)) & 0x0Fu8) << 4u8) == hidden & 0xF0u8) by (bit_vector);
}

/// Embedding keeps the cover channel's high nibble, so the carrier differs from
/// the cover by less than 16 in every channel.
pub proof fn lemma_hide_keeps_cover(cover: u8, hidden: u8)
    ensures
        hide_byte(cover, hidden) & 0xF0u8 == cover & 0xF0u8,
        cover & 0xF0u8 <= hide_byte(cover, hidden) <= (cover & 0xF0u8) + 15,
        cover & 0xF0u8 <= cover <= (cover & 0xF0u8) + 15,
{
    assert((((cover & 0xF0u8) | (hidden >> 4u8)) & 0xF0u8) == cover & 0xF0u8) by (bit_vector);
    assert(cover & 0xF0u8 <= ((cover & 0xF0u8) | (hidden >> 4u8))) by (bit_vector);
    assert(((cover & 0xF0u8) | (hidden >> 4u8)) <= (cover & 0xF0u8) + 15) by (bit_vector);
    assert(cover & 0xF0u8 <= cover <= (cover & 0xF0u8) + 15) by (bit_vector);
}

/// A row with the low nibble of each colour channel cleared and opaque alpha:
/// what survives of a hidden row.
pub open spec fn mask_row(row: Seq<u8>) -> Seq<u8> {
    Seq::new(row.len(), |k: int| if k % 4 == 3 { 255u8 } else { row[k] & 0xF0u8 })
}

/// Extracting a carrier row made from `cover` and `hidden` gives the hidden
/// row's colour channels with their low nibble cleared, and opaque alpha.
pub proof fn lemma_extract_embed_row(cover: Seq<u8>, hidden: Seq<u8>)
    requires
        hidden.len() == cover.len(),
    ensures
        extract_row(embed_row(cover, hidden)) == mask_row(hidden),
{
    assert forall|k: int| 0 <= k < cover.len() && k % 4 != 3 implies #[trigger] reveal_byte(
        hide_byte(cover[k], hidden[k]),
    ) == hidden[k] & 0xF0u8 by {
        lemma_reveal_hide(cover[k], hidden[k]);
    }
    assert(extract_row(embed_row(cover, hidden)) =~= mask_row(hidden));
}

/// Decrypting what `encrypt_image` made, with the same cover, recovers the
/// hidden picture (scaled to the cover's size) up to the low nibble of each
/// colour channel: every row of the result is the masked scaled hidden row.
pub proof fn lemma_decrypt_recovers_hidden(cover: RasterView, scaled: Seq<Seq<u8>>, carrier: RasterView, extracted: RasterView)
    requires
        cover.wf(),
        scaled.len() == cover.height,
        forall|y: int| 0 <= y < cover.height ==> #[trigger] scaled[y].len() == 4 * cover.width,
        carrier.height == cover.height,
        forall|y: int| 0 <= y < cover.height ==> #[trigger] carrier.rows[y] == embed_row(cover.rows[y], scaled[y]),
        extracted.height == carrier.height,
        forall|y: int| 0 <= y < carrier.height ==> #[trigger] extracted.rows[y] == extract_row(carrier.rows[y]),
    ensures
        forall|y: int| 0 <= y < cover.height ==> #[trigger] extracted.rows[y] == mask_row(scaled[y]),
{
    assert forall|y: int| 0 <= y < cover.height implies #[trigger] extracted.rows[y] == mask_row(scaled[y]) by {
        assert(carrier.rows[y] == embed_row(cover.rows[y], scaled[y]));
        lemma_extract_embed_row(cover.rows[y], scaled[y]);
    }
}

} // verus!
