use vstd::prelude::*;
use vstd::seq_lib::lemma_flatten_concat;

verus! {

/// An RGBA image with 8 bits per channel, stored row by row; each row holds
/// `4 * width` bytes (red, green, blue, alpha for every pixel, left to right).
pub struct Raster {
    pub width: u32,
    pub height: u32,
    pub rows: Vec<Vec<u8>>,
}

/// The mathematical picture of a `Raster`.
pub struct RasterView {
    pub width: nat,
    pub height: nat,
    pub rows: Seq<Seq<u8>>,
}

impl View for Raster {
    type V = RasterView;

    open spec fn view(&self) -> RasterView {
        RasterView {
            width: self.width as nat,
            height: self.height as nat,
            rows: self.rows@.map_values(|r: Vec<u8>| r@),
        }
    }
}

impl RasterView {
    /// Every row is present and holds four bytes per pixel.
    pub open spec fn wf(self) -> bool {
        &&& self.rows.len() == self.height
        &&& forall|y: int| 0 <= y < self.rows.len() ==> #[trigger] self.rows[y].len() == 4 * self.width
    }

    /// Channel `c` of the pixel at column `x`, row `y`.
    pub open spec fn at(self, x: int, y: int, c: int) -> u8 {
        self.rows[y][4 * x + c]
    }

    /// The pixels laid out the way image codecs store them: all rows, top to bottom.
    pub open spec fn flat(self) -> Seq<u8> {
        self.rows.flatten()
    }
}

/// The rows of a flat RGBA buffer of the given width.
pub open spec fn rows_of_flat(width: nat, height: nat, data: Seq<u8>) -> Seq<Seq<u8>> {
    Seq::new(height, |y: int| data.subrange(y * (4 * width), (y + 1) * (4 * width)))
}

proof fn lemma_row_bounds(width: nat, height: nat, y: int)
    requires
        0 <= y < height,
    ensures
        0 <= y * (4 * width),
        (y + 1) * (4 * width) == y * (4 * width) + 4 * width,
        (y + 1) * (4 * width) <= height * (4 * width),
        height * (4 * width) == width * height * 4,
{
    assert(0 <= y * (4 * width)) by (nonlinear_arith)
        requires 0 <= y;
    assert((y + 1) * (4 * width) == y * (4 * width) + 4 * width) by (nonlinear_arith);
    assert((y + 1) * (4 * width) <= height * (4 * width)) by (nonlinear_arith)
        requires y + 1 <= height;
    assert(height * (4 * width) == width * height * 4) by (nonlinear_arith);
}

impl Raster {
    /// Splits a flat RGBA buffer (as codecs produce it) into rows.
    pub fn from_flat(width: u32, height: u32, data: &Vec<u8>) -> (r: Raster)
        requires
            data@.len() == width * height * 4,
        ensures
            r@.wf(),
            r.width == width,
            r.height == height,
            r@.rows == rows_of_flat(width as nat, height as nat, data@),
    {
        let ghost w4: nat = 4 * width as nat;
        let mut rows: Vec<Vec<u8>> = Vec::new();
        let mut start: usize = 0;
        let mut y: u32 = 0;
        while y < height
            invariant
                y <= height,
                w4 == 4 * width as nat,
                data@.len() == width * height * 4,
                start == y * w4,
                rows@.len() == y,
                forall|k: int| 0 <= k < y ==> #[trigger] rows@[k]@ == data@.subrange(k * w4, (k + 1) * w4),
                forall|k: int| 0 <= k < y ==> (#[trigger] rows@[k])@.len() == w4,
            decreases height - y,
        {
            proof {
                lemma_row_bounds(width as nat, height as nat, y as int);
                assert(data@.len() == data.len());
            }
            let w4u: usize = 4 * (width as usize);
            let mut row: Vec<u8> = Vec::new();
            let mut j: usize = 0;
            while j < w4u
                invariant
                    j <= w4,
                    w4 == 4 * width as nat,
                    w4u == w4,
                    data@.len() == data.len(),
                    start + w4 <= data@.len(),
                    row@ == data@.subrange(start as int, start + j),
                decreases w4 - j,
            {
                row.push(data[start + j]);
                j = j + 1;
                assert(row@ =~= data@.subrange(start as int, start + j));
            }
            rows.push(row);
            start = start + w4u;
            y = y + 1;
        }
        let r = Raster { width, height, rows };
        assert(r@.rows =~= rows_of_flat(width as nat, height as nat, data@));
        r
    }
}

/// Splitting a flattened list of equal rows into rows of that length gives
/// the rows back.
pub proof fn lemma_rows_of_flat_flatten(rows: Seq<Seq<u8>>, width: nat)
    requires
        forall|y: int| 0 <= y < rows.len() ==> #[trigger] rows[y].len() == 4 * width,
    ensures
        rows.flatten().len() == rows.len() * (4 * width),
        rows_of_flat(width, rows.len(), rows.flatten()) == rows,
    decreases rows.len(),
{
    if rows.len() == 0 {
        assert(rows_of_flat(width, 0, rows.flatten()) =~= rows);
    } else {
        let init = rows.drop_last();
        lemma_rows_of_flat_flatten(init, width);
        assert(rows =~= init.push(rows.last()));
        lemma_flatten_push(init, rows.last());
        let f = rows.flatten();
        let n = rows.len();
        assert(f.len() == n * (4 * width)) by (nonlinear_arith)
            requires f.len() == (n - 1) * (4 * width) + 4 * width;
        assert forall|y: int| 0 <= y < n implies #[trigger] rows_of_flat(width, n, f)[y] == rows[y] by {
            lemma_row_bounds(width, n, y);
            if y < n - 1 {
                lemma_row_bounds(width, (n - 1) as nat, y);
                assert(rows_of_flat(width, (n - 1) as nat, init.flatten())[y] == init[y]);
                assert(f.subrange(y * (4 * width), (y + 1) * (4 * width)) =~= init.flatten().subrange(
                    y * (4 * width),
                    (y + 1) * (4 * width),
                ));
            } else {
                assert((n - 1) * (4 * width) == init.flatten().len());
                assert(f.subrange(y * (4 * width), (y + 1) * (4 * width)) =~= rows.last());
            }
        }
        assert(rows_of_flat(width, n, f) =~= rows);
    }
}

/// The number of horizontal bands an image is cut into before it is sent.
pub const FRAGMENT_COUNT: u32 = 40;

proof fn lemma_flatten_push(rows: Seq<Seq<u8>>, row: Seq<u8>)
    ensures
        rows.push(row).flatten() == rows.flatten() + row,
{
    lemma_flatten_concat(rows, seq![row]);
    assert(rows.push(row) =~= rows + seq![row]);
    seq![row].lemma_flatten_one_element();
}

impl Raster {
    /// Clones one row.
    fn copy_row(row: &Vec<u8>) -> (r: Vec<u8>)
        ensures
            r@ == row@,
    {
        let mut r: Vec<u8> = Vec::new();
        let mut j: usize = 0;
        while j < row.len()
            invariant
                j <= row@.len(),
                r@ == row@.subrange(0, j as int),
            decreases row@.len() - j,
        {
            r.push(row[j]);
            j = j + 1;
            assert(r@ =~= row@.subrange(0, j as int));
        }
        assert(r@ =~= row@);
        r
    }

    /// The pixels as one flat buffer, rows top to bottom.
    pub fn to_flat(&self) -> (data: Vec<u8>)
        requires
            self@.wf(),
        ensures
            data@ == self@.flat(),
            data@.len() == self.width * self.height * 4,
    {
        let ghost rv = self@.rows;
        let mut data: Vec<u8> = Vec::new();
        let mut y: usize = 0;
        while y < self.rows.len()
            invariant
                self@.wf(),
                rv == self@.rows,
                y <= rv.len(),
                data@ == rv.take(y as int).flatten(),
                data@.len() == y * (4 * self.width),
            decreases rv.len() - y,
        {
            let row = &self.rows[y];
            assert(row@ == rv[y as int]);
            let ghost before = data@;
            let mut j: usize = 0;
            while j < row.len()
                invariant
                    j <= row@.len(),
                    data@ == before + row@.subrange(0, j as int),
                decreases row@.len() - j,
            {
                data.push(row[j]);
                j = j + 1;
                assert(data@ =~= before + row@.subrange(0, j as int));
            }
            proof {
                assert(row@.subrange(0, j as int) =~= row@);
                assert(rv.take(y + 1) =~= rv.take(y as int).push(rv[y as int]));
                lemma_flatten_push(rv.take(y as int), rv[y as int]);
                assert(data@.len() == (y + 1) * (4 * self.width)) by (nonlinear_arith)
                    requires data@.len() == y * (4 * self.width) + 4 * self.width;
            }
            y = y + 1;
        }
        proof {
            assert(rv.take(y as int) =~= rv);
            assert(y * (4 * self.width) == self.width * self.height * 4) by (nonlinear_arith)
                requires y == self.height;
        }
        data
    }

    /// The band of `count` full-width rows starting at row `top`.
    pub fn crop_rows(&self, top: u32, count: u32) -> (r: Raster)
        requires
            self@.wf(),
            top + count <= self.height,
        ensures
            r@.wf(),
            r.width == self.width,
            r.height == count,
            r@.rows == self@.rows.subrange(top as int, top + count),
    {
        let mut rows: Vec<Vec<u8>> = Vec::new();
        let mut k: u32 = 0;
        while k < count
            invariant
                self@.wf(),
                top + count <= self.height,
                k <= count,
                rows@.len() == k,
                forall|i: int| 0 <= i < k ==> #[trigger] rows@[i]@ == self@.rows[top + i],
            decreases count - k,
        {
            let row = Self::copy_row(&self.rows[(top + k) as usize]);
            rows.push(row);
            k = k + 1;
        }
        let r = Raster { width: self.width, height: count, rows };
        assert(r@.rows =~= self@.rows.subrange(top as int, top + count));
        r
    }
}

/// Band `i` of an image cut into `FRAGMENT_COUNT` bands of equal height
/// (`height / FRAGMENT_COUNT` rows; rows left over at the bottom belong to no band).
pub open spec fn fragment_band(img: RasterView, i: int) -> Seq<Seq<u8>> {
    let fh = img.height / (FRAGMENT_COUNT as nat);
    img.rows.subrange(i * fh, (i + 1) * fh)
}

/// Cuts an image into `FRAGMENT_COUNT` horizontal bands, top to bottom, and
/// returns them with the image's width and height.
pub fn fragment_image(img: &Raster) -> (r: (Vec<Raster>, u32, u32))
    requires
        img@.wf(),
    ensures
        r.1 == img.width,
        r.2 == img.height,
        r.0@.len() == FRAGMENT_COUNT,
        forall|i: int| 0 <= i < FRAGMENT_COUNT ==> {
            &&& (#[trigger] r.0@[i])@.wf()
            &&& r.0@[i].width == img.width
            &&& r.0@[i].height == img.height / FRAGMENT_COUNT
            &&& r.0@[i]@.rows == fragment_band(img@, i)
        },
{
    let fh: u32 = img.height / FRAGMENT_COUNT;
    let mut fragments: Vec<Raster> = Vec::new();
    let mut top: u32 = 0;
    let mut i: u32 = 0;
    while i < FRAGMENT_COUNT
        invariant
            img@.wf(),
            fh == img.height / FRAGMENT_COUNT,
            i <= FRAGMENT_COUNT,
            top == i * fh,
            fragments@.len() == i,
            forall|k: int| 0 <= k < i ==> {
                &&& (#[trigger] fragments@[k])@.wf()
                &&& fragments@[k].width == img.width
                &&& fragments@[k].height == fh
                &&& fragments@[k]@.rows == fragment_band(img@, k)
            },
        decreases FRAGMENT_COUNT - i,
    {
        proof {
            assert((i + 1) * fh == i * fh + fh) by (nonlinear_arith);
            assert((i + 1) * fh <= FRAGMENT_COUNT * fh) by (nonlinear_arith)
                requires i + 1 <= FRAGMENT_COUNT, 0 <= fh;
            assert(FRAGMENT_COUNT * fh <= img.height) by (nonlinear_arith)
                requires fh == img.height / FRAGMENT_COUNT;
        }
        let band = img.crop_rows(top, fh);
        fragments.push(band);
        top = top + fh;
        i = i + 1;
    }
    (fragments, img.width, img.height)
}

/// The views of a list of rasters.
pub open spec fn views(imgs: Seq<Raster>) -> Seq<RasterView> {
    imgs.map_values(|r: Raster| r@)
}

/// A canvas of the given size with every channel of every pixel zero.
pub open spec fn blank_rows(width: nat, height: nat) -> Seq<Seq<u8>> {
    Seq::new(height, |y: int| Seq::new(4 * width, |k: int| 0u8))
}

/// `canvas` with `img` laid over it, its top-left corner at column 0 and row
/// `top`: each covered row becomes the image's row followed by what the canvas
/// held right of the image. Rows of the image below the canvas are dropped.
pub open spec fn paste(canvas: Seq<Seq<u8>>, img: RasterView, top: int) -> Seq<Seq<u8>> {
    Seq::new(
        canvas.len(),
        |y: int|
            if top <= y < top + img.height {
                img.rows[y - top] + canvas[y].subrange(4 * img.width as int, canvas[y].len() as int)
            } else {
                canvas[y]
            },
    )
}

/// The canvas after the first `n` images were laid over a blank canvas, image
/// `i` at row `i * height_i` (its own height times its index); later images
/// cover earlier ones.
pub open spec fn assembled(imgs: Seq<RasterView>, n: nat, width: nat, height: nat) -> Seq<Seq<u8>>
    decreases n,
{
    if n == 0 {
        blank_rows(width, height)
    } else {
        let i = (n - 1) as nat;
        paste(assembled(imgs, i, width, height), imgs[i as int], (i * imgs[i as int].height) as int)
    }
}

/// Image number `i`, laid at row `i * its height`, stays inside a canvas of the
/// given size (an image without pixels is never drawn).
pub open spec fn placement_ok(img: RasterView, i: int, width: nat, height: nat) -> bool {
    img.width == 0 || img.height == 0 || (img.width <= width && i * img.height + img.height <= height)
}

/// A canvas of the given size, all channels zero.
pub fn blank_raster(width: u32, height: u32) -> (r: Raster)
    requires
        width * height * 4 <= usize::MAX,
    ensures
        r@.wf(),
        r.width == width,
        r.height == height,
        r@.rows == blank_rows(width as nat, height as nat),
{
    let mut rows: Vec<Vec<u8>> = Vec::new();
    let mut y: u32 = 0;
    while y < height
        invariant
            y <= height,
            width * height * 4 <= usize::MAX,
            rows@.len() == y,
            forall|k: int| 0 <= k < y ==> (#[trigger] rows@[k])@ == Seq::new(4 * width as nat, |j: int| 0u8),
        decreases height - y,
    {
        proof {
            assert(4 * width <= width * height * 4) by (nonlinear_arith)
                requires y < height;
        }
        let w4: usize = 4 * (width as usize);
        let mut row: Vec<u8> = Vec::new();
        let mut j: usize = 0;
        while j < w4
            invariant
                j <= w4,
                row@ == Seq::new(j as nat, |k: int| 0u8),
            decreases w4 - j,
        {
            row.push(0u8);
            j = j + 1;
            assert(row@ =~= Seq::new(j as nat, |k: int| 0u8));
        }
        rows.push(row);
        y = y + 1;
    }
    let r = Raster { width, height, rows };
    assert(r@.rows =~= blank_rows(width as nat, height as nat));
    r
}

/// `img_row` followed by the part of `canvas_row` from byte `from` on.
fn splice_row(img_row: &Vec<u8>, canvas_row: &Vec<u8>, from: usize) -> (r: Vec<u8>)
    requires
        from <= canvas_row@.len(),
    ensures
        r@ == img_row@ + canvas_row@.subrange(from as int, canvas_row@.len() as int),
{
    let mut r: Vec<u8> = Vec::new();
    let mut j: usize = 0;
    while j < img_row.len()
        invariant
            j <= img_row@.len(),
            r@ == img_row@.subrange(0, j as int),
        decreases img_row@.len() - j,
    {
        r.push(img_row[j]);
        j = j + 1;
        assert(r@ =~= img_row@.subrange(0, j as int));
    }
    assert(img_row@.subrange(0, j as int) =~= img_row@);
    let mut k: usize = from;
    while k < canvas_row.len()
        invariant
            from <= k <= canvas_row@.len(),
            r@ == img_row@ + canvas_row@.subrange(from as int, k as int),
        decreases canvas_row@.len() - k,
    {
        r.push(canvas_row[k]);
        k = k + 1;
        assert(r@ =~= img_row@ + canvas_row@.subrange(from as int, k as int));
    }
    r
}

/// Lays the images over a blank canvas of the given size, image `i` with its
/// top-left corner at column 0 and row `i * height_i`, in order.
pub fn reassemble_images(images: &Vec<Raster>, width: u32, height: u32) -> (r: Raster)
    requires
        forall|i: int| 0 <= i < images@.len() ==> (#[trigger] images@[i])@.wf(),
        forall|i: int| 0 <= i < images@.len() ==> placement_ok((#[trigger] images@[i])@, i, width as nat, height as nat),
        width * height * 4 <= usize::MAX,
    ensures
        r@.wf(),
        r.width == width,
        r.height == height,
        r@.rows == assembled(views(images@), images@.len(), width as nat, height as nat),
{
    let ghost imgs = views(images@);
    let mut canvas = blank_raster(width, height);
    let mut i: usize = 0;
    while i < images.len()
        invariant
            imgs == views(images@),
            forall|k: int| 0 <= k < images@.len() ==> (#[trigger] images@[k])@.wf(),
            forall|k: int| 0 <= k < images@.len() ==> placement_ok((#[trigger] images@[k])@, k, width as nat, height as nat),
            i <= images@.len(),
            canvas@.wf(),
            canvas.width == width,
            canvas.height == height,
            canvas@.rows == assembled(imgs, i as nat, width as nat, height as nat),
            width * height * 4 <= usize::MAX,
        decreases images@.len() - i,
    {
        let img = &images[i];
        let ghost prev = canvas@.rows;
        assert(imgs[i as int] == img@);
        assert(img@.wf());
        assert(placement_ok(img@, i as int, width as nat, height as nat));
        if img.width > 0 && img.height > 0 {
            proof {
                assert(i * img.height + img.height <= height);
                assert(i * img.height <= i * img.height + img.height);
                assert(i <= i * img.height) by (nonlinear_arith)
                    requires img.height >= 1, i >= 0;
            }
            let top: u32 = (i as u32) * img.height;
            let mut y: u32 = 0;
            while y < img.height
                invariant
                    img@.wf(),
                    0 < img.width <= width,
                    top + img.height <= height,
                    width * height * 4 <= usize::MAX,
                    top == i * img.height,
                    y <= img.height,
                    canvas@.wf(),
                    canvas.width == width,
                    canvas.height == height,
                    canvas@.rows == Seq::new(
                        prev.len(),
                        |yy: int|
                            if top <= yy < top + y {
                                img@.rows[yy - top] + prev[yy].subrange(4 * img.width as int, prev[yy].len() as int)
                            } else {
                                prev[yy]
                            },
                    ),
                    prev.len() == height,
                    forall|yy: int| 0 <= yy < prev.len() ==> #[trigger] prev[yy].len() == 4 * width,
                decreases img.height - y,
            {
                let idx: usize = (top + y) as usize;
                assert(img.rows@[y as int]@ == img@.rows[y as int]);
                assert(canvas@.rows[idx as int] == prev[idx as int]);
                assert(canvas.rows@[idx as int]@ == prev[idx as int]);
                assert(4 * width <= width * height * 4) by (nonlinear_arith)
                    requires top + y < height;
                let new_row = splice_row(&img.rows[y as usize], &canvas.rows[idx], 4 * (img.width as usize));
                let ghost before = canvas@.rows;
                canvas.rows.set(idx, new_row);
                assert(canvas@.rows =~= before.update(idx as int, new_row@));
                y = y + 1;
                assert(canvas@.rows =~= Seq::new(
                    prev.len(),
                    |yy: int|
                        if top <= yy < top + y {
                            img@.rows[yy - top] + prev[yy].subrange(4 * img.width as int, prev[yy].len() as int)
                        } else {
                            prev[yy]
                        },
                ));
            }
            assert(canvas@.rows =~= paste(prev, img@, i * img@.height));
        } else {
            assert forall|yy: int| 0 <= yy < prev.len() implies #[trigger] paste(prev, img@, i * img@.height)[yy] == prev[yy] by {
                if i * img@.height <= yy < i * img@.height + img@.height {
                    assert(img@.rows[yy - i * img@.height].len() == 0);
                    assert(img@.rows[yy - i * img@.height] + prev[yy].subrange(0, prev[yy].len() as int) =~= prev[yy]);
                }
            }
            assert(paste(prev, img@, i * img@.height) =~= prev);
        }
        i = i + 1;
    }
    canvas
}

/// A pixel as the display window takes it: `0x00RRGGBB`.
pub open spec fn pack_pixel(r: u8, g: u8, b: u8) -> u32 {
    ((r as u32) << 16u32) | ((g as u32) << 8u32) | (b as u32)
}

/// One row of RGBA bytes as display pixels.
pub open spec fn pack_row(row: Seq<u8>) -> Seq<u32> {
    Seq::new(row.len() / 4, |x: int| pack_pixel(row[4 * x], row[4 * x + 1], row[4 * x + 2]))
}

/// The pixels of an image as the display window takes them, rows top to bottom.
pub fn display_buffer(img: &Raster) -> (r: Vec<u32>)
    requires
        img@.wf(),
    ensures
        r@ == img@.rows.map_values(|row: Seq<u8>| pack_row(row)).flatten(),
{
    let ghost packed = img@.rows.map_values(|row: Seq<u8>| pack_row(row));
    let mut out: Vec<u32> = Vec::new();
    let mut y: usize = 0;
    while y < img.rows.len()
        invariant
            img@.wf(),
            packed == img@.rows.map_values(|row: Seq<u8>| pack_row(row)),
            y <= img@.rows.len(),
            out@ == packed.take(y as int).flatten(),
        decreases img@.rows.len() - y,
    {
        let row = &img.rows[y];
        assert(row@ == img@.rows[y as int]);
        let ghost before = out@;
        let mut x: usize = 0;
        while x < img.width as usize
            invariant
                x <= img.width,
                row@.len() == 4 * img.width,
                row@.len() == row.len(),
                out@ == before + pack_row(row@).subrange(0, x as int),
            decreases img.width - x,
        {
            let p: u32 = ((row[4 * x] as u32) << 16u32) | ((row[4 * x + 1] as u32) << 8u32) | (row[4 * x + 2] as u32);
            out.push(p);
            x = x + 1;
            assert(out@ =~= before + pack_row(row@).subrange(0, x as int));
        }
        proof {
            assert(pack_row(row@).subrange(0, x as int) =~= pack_row(row@));
            assert(packed.take(y + 1) =~= packed.take(y as int).push(packed[y as int]));
            lemma_flatten_push_u32(packed.take(y as int), packed[y as int]);
        }
        y = y + 1;
    }
    assert(packed.take(y as int) =~= packed);
    out
}

proof fn lemma_flatten_push_u32(rows: Seq<Seq<u32>>, row: Seq<u32>)
    ensures
        rows.push(row).flatten() == rows.flatten() + row,
{
    lemma_flatten_concat(rows, seq![row]);
    assert(rows.push(row) =~= rows + seq![row]);
    seq![row].lemma_flatten_one_element();
}

} // verus!
