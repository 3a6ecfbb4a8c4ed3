//! Captured images: trimming them to their content and putting them side by
//! side.

use crate::capture::labels::RgbaBytes;
use std::collections::HashMap;
use vstd::prelude::*;

verus! {

/// The gap between images that stand side by side.
pub const IMAGE_GAP: u32 = 24;

/// How much background is kept round the content of a capture.
pub const TRIM_PADDING: u32 = 24;

/// A row with fewer content pixels than this is background.
pub const MIN_CONTENT_PIXELS_PER_ROW: u32 = 8;

/// How many columns form a run.
pub const COLUMN_DENSITY_WINDOW: usize = 8;

/// A run of columns with fewer content pixels, eight per column, is background.
pub const MIN_CONTENT_PIXELS_PER_RUN: u64 = 64;

/// The side of the corner in which the background is sampled.
pub const BACKGROUND_SAMPLE_SIZE: u32 = 64;

/// An image of eight-bit pixels, row by row from the top, four bytes each.
#[derive(Clone, Debug)]
pub struct RgbaImage {
    pub width: u32,
    pub height: u32,
    pub data: Vec<u8>,
}

/// The pixel that stands at a place of the row-major order.
pub open spec fn pixel_at(data: Seq<u8>, place: int) -> RgbaBytes {
    RgbaBytes {
        red: data[4 * place],
        green: data[4 * place + 1],
        blue: data[4 * place + 2],
        alpha: data[4 * place + 3],
    }
}

impl RgbaImage {
    pub open spec fn well_formed(&self) -> bool {
        self.data@.len() == 4 * (self.width as int * self.height as int)
    }

    /// Whether a point lies in the image.
    pub open spec fn contains(&self, x: int, y: int) -> bool {
        0 <= x < self.width && 0 <= y < self.height
    }

    /// The pixel at a point.
    pub open spec fn pixel(&self, x: int, y: int) -> RgbaBytes {
        pixel_at(self.data@, y * self.width + x)
    }
}

/// A point comes before another in row-major order exactly if its place is less.
proof fn lemma_place(width: int, height: int, x: int, y: int)
    requires
        0 <= x < width,
        0 <= y < height,
    ensures
        0 <= y * width + x < width * height,
        y * width + width == (y + 1) * width,
{
    assert(0 <= y * width + x < width * height) by (nonlinear_arith)
        requires
            0 <= x < width,
            0 <= y < height,
    ;
    assert(y * width + width == (y + 1) * width) by (nonlinear_arith);
}

proof fn lemma_earlier_place(width: int, x: int, y: int, later_x: int, later_y: int)
    requires
        0 <= x < width,
        0 <= y,
        0 <= later_x,
        y < later_y || (y == later_y && x < later_x),
    ensures
        0 <= y * width + x < later_y * width + later_x,
{
    assert(0 <= y * width + x < later_y * width + later_x) by (nonlinear_arith)
        requires
            0 <= x < width,
            0 <= y,
            0 <= later_x,
            y < later_y || (y == later_y && x < later_x),
    ;
}

impl RgbaImage {
    /// Reads the pixel at a point.
    pub fn get_pixel(&self, x: u32, y: u32) -> (pixel: RgbaBytes)
        requires
            self.well_formed(),
            x < self.width,
            y < self.height,
        ensures
            pixel == self.pixel(x as int, y as int),
    {
        proof {
            lemma_place(self.width as int, self.height as int, x as int, y as int);
            assert(self.data.len() == self.data@.len());
            assert(0 <= y * self.width) by (nonlinear_arith)
                requires
                    0 <= y,
                    0 <= self.width,
            ;
        }
        let place: usize = y as usize * self.width as usize + x as usize;
        RgbaBytes {
            red: self.data[4 * place],
            green: self.data[4 * place + 1],
            blue: self.data[4 * place + 2],
            alpha: self.data[4 * place + 3],
        }
    }
}

fn push_pixel(data: &mut Vec<u8>, pixel: RgbaBytes)
    requires
        old(data)@.len() % 4 == 0,
    ensures
        final(data)@.len() == old(data)@.len() + 4,
        final(data)@.take(old(data)@.len() as int) == old(data)@,
        pixel_at(final(data)@, old(data)@.len() as int / 4) == pixel,
{
    data.push(pixel.red);
    data.push(pixel.green);
    data.push(pixel.blue);
    data.push(pixel.alpha);
    assert(data@.take(old(data)@.len() as int) =~= old(data)@);
}

proof fn lemma_earlier_pixels_kept(before: Seq<u8>, after: Seq<u8>, place: int)
    requires
        0 <= place,
        4 * place + 4 <= before.len() <= after.len(),
        after.take(before.len() as int) == before,
    ensures
        pixel_at(after, place) == pixel_at(before, place),
{
    assert(after.take(before.len() as int)[4 * place] == after[4 * place]);
    assert(after.take(before.len() as int)[4 * place + 1] == after[4 * place + 1]);
    assert(after.take(before.len() as int)[4 * place + 2] == after[4 * place + 2]);
    assert(after.take(before.len() as int)[4 * place + 3] == after[4 * place + 3]);
}

impl RgbaImage {
    /// An image of one colour.
    pub open spec fn is_filled(&self, width: u32, height: u32, pixel: RgbaBytes) -> bool {
        &&& self.well_formed()
        &&& self.width == width
        &&& self.height == height
        &&& forall|x: int, y: int| #[trigger] self.contains(x, y) ==> self.pixel(x, y) == pixel
    }

    /// The part of an image from a corner on.
    pub open spec fn is_crop_of(
        &self,
        source: &RgbaImage,
        left: u32,
        top: u32,
        width: u32,
        height: u32,
    ) -> bool {
        &&& self.well_formed()
        &&& self.width == width
        &&& self.height == height
        &&& forall|x: int, y: int| #[trigger]
            self.contains(x, y) ==> self.pixel(x, y) == source.pixel(left + x, top + y)
    }

    /// Makes an image of one colour.
    pub fn filled(width: u32, height: u32, pixel: RgbaBytes) -> (image: RgbaImage)
        requires
            4 * (width as int * height as int) <= usize::MAX,
        ensures
            image.is_filled(width, height, pixel),
    {
        let mut data: Vec<u8> = Vec::new();
        let mut y: u32 = 0;
        while y < height
            invariant
                y <= height,
                data@.len() == 4 * (y * width),
                forall|i: int, j: int|
                    0 <= i < width && 0 <= j < y ==> #[trigger] pixel_at(data@, j * width + i) == pixel,
            decreases height - y,
        {
            let mut x: u32 = 0;
            while x < width
                invariant
                    x <= width,
                    y < height,
                    data@.len() == 4 * (y * width + x),
                    forall|i: int, j: int|
                        0 <= i < width && 0 <= j && (j < y || (j == y && i < x)) ==> #[trigger] pixel_at(
                            data@,
                            j * width + i,
                        ) == pixel,
                decreases width - x,
            {
                let ghost before = data@;
                push_pixel(&mut data, pixel);
                assert forall|i: int, j: int|
                    0 <= i < width && 0 <= j && (j < y || (j == y && i < x + 1)) implies #[trigger] pixel_at(
                    data@,
                    j * width + i,
                ) == pixel by {
                    if j < y || i < x {
                        lemma_earlier_place(width as int, i, j, x as int, y as int);
                        assert(pixel_at(before, j * width + i) == pixel);
                        lemma_earlier_pixels_kept(before, data@, j * width + i);
                    } else {
                        assert(before.len() as int / 4 == y * width + x);
                    }
                }
                x = x + 1;
            }
            assert(y * width + width == (y + 1) * width) by (nonlinear_arith);
            y = y + 1;
        }
        let image: RgbaImage = RgbaImage { width, height, data };
        assert(height * width == width * height) by (nonlinear_arith);
        assert forall|x: int, y: int| #[trigger] image.contains(x, y) implies image.pixel(x, y)
            == pixel by {
            assert(pixel_at(image.data@, y * width + x) == pixel);
        }
        image
    }

    /// Copies the part of an image that begins at a corner.
    pub fn crop(&self, left: u32, top: u32, width: u32, height: u32) -> (image: RgbaImage)
        requires
            self.well_formed(),
            left + width <= self.width,
            top + height <= self.height,
        ensures
            image.is_crop_of(self, left, top, width, height),
    {
        let mut data: Vec<u8> = Vec::new();
        let mut y: u32 = 0;
        while y < height
            invariant
                self.well_formed(),
                left + width <= self.width,
                top + height <= self.height,
                y <= height,
                data@.len() == 4 * (y * width),
                forall|i: int, j: int|
                    0 <= i < width && 0 <= j < y ==> #[trigger] pixel_at(data@, j * width + i)
                        == self.pixel(left + i, top + j),
            decreases height - y,
        {
            let mut x: u32 = 0;
            while x < width
                invariant
                    self.well_formed(),
                    left + width <= self.width,
                    top + height <= self.height,
                    x <= width,
                    y < height,
                    data@.len() == 4 * (y * width + x),
                    forall|i: int, j: int|
                        0 <= i < width && 0 <= j && (j < y || (j == y && i < x)) ==> #[trigger] pixel_at(
                            data@,
                            j * width + i,
                        ) == self.pixel(left + i, top + j),
                decreases width - x,
            {
                let ghost before = data@;
                let pixel: RgbaBytes = self.get_pixel(left + x, top + y);
                push_pixel(&mut data, pixel);
                assert forall|i: int, j: int|
                    0 <= i < width && 0 <= j && (j < y || (j == y && i < x + 1)) implies #[trigger] pixel_at(
                    data@,
                    j * width + i,
                ) == self.pixel(left + i, top + j) by {
                    if j < y || i < x {
                        lemma_earlier_place(width as int, i, j, x as int, y as int);
                        assert(pixel_at(before, j * width + i) == self.pixel(left + i, top + j));
                        lemma_earlier_pixels_kept(before, data@, j * width + i);
                    } else {
                        assert(before.len() as int / 4 == y * width + x);
                    }
                }
                x = x + 1;
            }
            assert(y * width + width == (y + 1) * width) by (nonlinear_arith);
            y = y + 1;
        }
        let image: RgbaImage = RgbaImage { width, height, data };
        assert(height * width == width * height) by (nonlinear_arith);
        assert forall|x: int, y: int| #[trigger] image.contains(x, y) implies image.pixel(x, y)
            == self.pixel(left + x, top + y) by {
            assert(pixel_at(image.data@, y * width + x) == self.pixel(left + x, top + y));
        }
        image
    }
}

/// What `Rgba::blend` of the `image` crate makes of a pixel with another laid
/// over it.
pub uninterp spec fn blended(bottom: RgbaBytes, top: RgbaBytes) -> RgbaBytes;

/// Lays `top` over `bottom` with its corner at `x`, `y`, by
/// `image::imageops::overlay`. Pixels outside `top` stay; the others are
/// blended, where an opaque pixel of `top` replaces what is below and a fully
/// transparent one leaves it.
#[verifier::external_body]
fn overlay(bottom: RgbaImage, top: &RgbaImage, x: i64, y: i64) -> (result: RgbaImage)
    requires
        bottom.well_formed(),
        top.well_formed(),
        x >= 0,
        y >= 0,
    ensures
        result.well_formed(),
        result.width == bottom.width,
        result.height == bottom.height,
        forall|i: int, j: int| #[trigger]
            result.contains(i, j) ==> result.pixel(i, j) == if top.contains(i - x, j - y) {
                blended(bottom.pixel(i, j), top.pixel(i - x, j - y))
            } else {
                bottom.pixel(i, j)
            },
        forall|i: int, j: int| #[trigger]
            result.contains(i, j) && top.contains(i - x, j - y) && top.pixel(i - x, j - y).alpha
                == 255 ==> result.pixel(i, j) == top.pixel(i - x, j - y),
        forall|i: int, j: int| #[trigger]
            result.contains(i, j) && top.contains(i - x, j - y) && top.pixel(i - x, j - y).alpha == 0
                ==> result.pixel(i, j) == bottom.pixel(i, j),
{
    let mut below = image::RgbaImage::from_raw(bottom.width, bottom.height, bottom.data).unwrap();
    let above = image::RgbaImage::from_raw(top.width, top.height, top.data.clone()).unwrap();
    image::imageops::overlay(&mut below, &above, x, y);
    RgbaImage { width: below.width(), height: below.height(), data: below.into_raw() }
}

/// Where image `index` begins: behind the images and gaps before it.
pub open spec fn left_edge(images: Seq<RgbaImage>, index: int) -> int
    decreases index,
{
    if index <= 0 {
        0
    } else {
        left_edge(images, index - 1) + images[index - 1].width + IMAGE_GAP
    }
}

/// The width of images side by side with gaps between them.
pub open spec fn stitched_width(images: Seq<RgbaImage>) -> int {
    if images.len() == 0 {
        0
    } else {
        left_edge(images, images.len() as int) - IMAGE_GAP
    }
}

/// The height of the highest image.
pub open spec fn stitched_height(images: Seq<RgbaImage>) -> int
    decreases images.len(),
{
    if images.len() == 0 {
        0
    } else {
        let rest = stitched_height(images.drop_last());
        if images.last().height > rest {
            images.last().height as int
        } else {
            rest
        }
    }
}

/// The pixel at a point once the first `count` images have been laid down.
pub open spec fn stitched_pixel(images: Seq<RgbaImage>, count: int, x: int, y: int) -> RgbaBytes
    decreases count,
{
    if count <= 0 {
        images[0].pixel(0, 0)
    } else {
        let below = stitched_pixel(images, count - 1, x, y);
        let image = images[count - 1];
        let left = left_edge(images, count - 1);
        if image.contains(x - left, y) {
            blended(below, image.pixel(x - left, y))
        } else {
            below
        }
    }
}

/// Puts images side by side, in order, on the colour of the first one's corner.
pub fn stitch_images_horizontally(images: &Vec<RgbaImage>) -> (stitched: RgbaImage)
    requires
        forall|i: int| 0 <= i < images@.len() ==> (#[trigger] images@[i]).well_formed(),
        images@.len() > 0 ==> images@[0].width > 0 && images@[0].height > 0,
        stitched_width(images@) <= u32::MAX,
        4 * (stitched_width(images@) * stitched_height(images@)) <= usize::MAX,
    ensures
        stitched.well_formed(),
        stitched.width == stitched_width(images@),
        stitched.height == stitched_height(images@),
        forall|x: int, y: int| #[trigger]
            stitched.contains(x, y) ==> stitched.pixel(x, y) == stitched_pixel(
                images@,
                images@.len() as int,
                x,
                y,
            ),
{
    if images.len() == 0 {
        return RgbaImage { width: 0, height: 0, data: Vec::new() };
    }
    let background: RgbaBytes = images[0].get_pixel(0, 0);
    let mut edge: u64 = 0;
    let mut height: u32 = 0;
    let mut i: usize = 0;
    while i < images.len()
        invariant
            i <= images@.len(),
            stitched_width(images@) <= u32::MAX,
            edge == left_edge(images@, i as int),
            height == stitched_height(images@.take(i as int)),
        decreases images@.len() - i,
    {
        proof {
            assert(images@.take(i as int + 1).drop_last() =~= images@.take(i as int));
            lemma_left_edge_grows(images@, i as int + 1, images@.len() as int);
        }
        edge = edge + images[i].width as u64 + IMAGE_GAP as u64;
        if images[i].height > height {
            height = images[i].height;
        }
        i = i + 1;
    }
    assert(images@.take(i as int) =~= images@);
    proof {
        reveal_with_fuel(left_edge, 2);
        lemma_left_edge_grows(images@, 1, images@.len() as int);
        assert((images@.len() - 1) * IMAGE_GAP >= 0) by (nonlinear_arith)
            requires
                images@.len() >= 1,
        ;
    }
    let width: u32 = (edge - IMAGE_GAP as u64) as u32;
    let mut stitched: RgbaImage = RgbaImage::filled(width, height, background);
    let mut current_x: i64 = 0;
    let mut k: usize = 0;
    while k < images.len()
        invariant
            k <= images@.len(),
            forall|i: int| 0 <= i < images@.len() ==> (#[trigger] images@[i]).well_formed(),
            stitched_width(images@) <= u32::MAX,
            current_x == left_edge(images@, k as int),
            stitched.well_formed(),
            stitched.width == width,
            stitched.height == height,
            forall|x: int, y: int| #[trigger]
                stitched.contains(x, y) ==> stitched.pixel(x, y) == stitched_pixel(
                    images@,
                    k as int,
                    x,
                    y,
                ),
        decreases images@.len() - k,
    {
        proof {
            lemma_left_edge_grows(images@, 0, k as int);
            lemma_left_edge_grows(images@, k as int + 1, images@.len() as int);
        }
        let ghost before = stitched;
        stitched = overlay(stitched, &images[k], current_x, 0);
        assert forall|x: int, y: int| #[trigger] stitched.contains(x, y) implies stitched.pixel(x, y)
            == stitched_pixel(images@, k as int + 1, x, y) by {
            assert(before.contains(x, y));
        }
        current_x = current_x + images[k].width as i64 + IMAGE_GAP as i64;
        k = k + 1;
    }
    stitched
}

proof fn lemma_left_edge_grows(images: Seq<RgbaImage>, low: int, high: int)
    requires
        0 <= low <= high,
    ensures
        left_edge(images, low) + (high - low) * IMAGE_GAP <= left_edge(images, high),
        0 <= left_edge(images, low),
    decreases high,
{
    if low < high {
        lemma_left_edge_grows(images, low, high - 1);
        assert((high - low) * IMAGE_GAP == (high - 1 - low) * IMAGE_GAP + IMAGE_GAP)
            by (nonlinear_arith);
    } else if low > 0 {
        lemma_left_edge_grows(images, low - 1, low - 1);
    }
}

/// Images side by side do not overlap: a point of the stitched image that lies
/// in one of them shows that image's pixel where it is opaque, and a point in
/// none of them shows the background.
pub proof fn law_stitched_images_stand_apart(images: Seq<RgbaImage>, count: int, x: int, y: int)
    requires
        0 <= count <= images.len(),
    ensures
        forall|i: int|
            0 <= i < count && (#[trigger] images[i]).contains(x - left_edge(images, i), y)
                ==> stitched_pixel(images, count, x, y) == blended(
                images[0].pixel(0, 0),
                images[i].pixel(x - left_edge(images, i), y),
            ),
        (forall|i: int|
            0 <= i < count ==> !(#[trigger] images[i]).contains(x - left_edge(images, i), y))
            ==> stitched_pixel(images, count, x, y) == images[0].pixel(0, 0),
    decreases count,
{
    if count > 0 {
        law_stitched_images_stand_apart(images, count - 1, x, y);
        let last = images[count - 1];
        let left = left_edge(images, count - 1);
        if last.contains(x - left, y) {
            assert forall|i: int| 0 <= i < count - 1 implies !(#[trigger] images[i]).contains(
                x - left_edge(images, i),
                y,
            ) by {
                lemma_left_edge_grows(images, i + 1, count - 1);
                assert((count - 1 - (i + 1)) * IMAGE_GAP >= 0) by (nonlinear_arith)
                    requires
                        i + 1 <= count - 1,
                ;
            }
        }
    }
}

/// How many content pixels, those other than the background, the first `upto`
/// pixels of a row have.
pub open spec fn row_content(image: &RgbaImage, background: RgbaBytes, y: int, upto: int) -> int
    decreases upto,
{
    if upto <= 0 {
        0
    } else {
        row_content(image, background, y, upto - 1) + if image.pixel(upto - 1, y) != background {
            1int
        } else {
            0int
        }
    }
}

/// How many content pixels the first `upto` pixels of a column have.
pub open spec fn column_content(image: &RgbaImage, background: RgbaBytes, x: int, upto: int) -> int
    decreases upto,
{
    if upto <= 0 {
        0
    } else {
        column_content(image, background, x, upto - 1) + if image.pixel(x, upto - 1) != background {
            1int
        } else {
            0int
        }
    }
}

/// The number of content pixels in each row.
pub open spec fn row_counts(image: &RgbaImage, background: RgbaBytes) -> Seq<u32> {
    Seq::new(
        image.height as nat,
        |y: int| row_content(image, background, y, image.width as int) as u32,
    )
}

/// The number of content pixels in each column.
pub open spec fn column_counts(image: &RgbaImage, background: RgbaBytes) -> Seq<u32> {
    Seq::new(
        image.width as nat,
        |x: int| column_content(image, background, x, image.height as int) as u32,
    )
}

/// The content pixels of a run of columns.
pub open spec fn window_content(counts: Seq<u32>, start: int, length: int) -> int
    decreases length,
{
    if length <= 0 {
        0
    } else {
        window_content(counts, start, length - 1) + counts[start + length - 1]
    }
}

/// A run of columns that begins at `start` and is dense with content.
pub open spec fn is_dense(counts: Seq<u32>, start: int) -> bool {
    &&& 0 <= start
    &&& start + COLUMN_DENSITY_WINDOW <= counts.len()
    &&& window_content(counts, start, COLUMN_DENSITY_WINDOW as int) >= MIN_CONTENT_PIXELS_PER_RUN
}

fn run_is_dense(counts: &Vec<u32>, start: usize) -> (dense: bool)
    requires
        start + COLUMN_DENSITY_WINDOW <= counts@.len(),
    ensures
        dense == is_dense(counts@, start as int),
{
    let mut sum: u64 = 0;
    let mut i: usize = 0;
    assert(counts.len() == counts@.len());
    while i < COLUMN_DENSITY_WINDOW
        invariant
            i <= COLUMN_DENSITY_WINDOW,
            start + COLUMN_DENSITY_WINDOW <= counts@.len() <= usize::MAX,
            sum == window_content(counts@, start as int, i as int),
            sum <= i * 0xffff_ffff,
        decreases COLUMN_DENSITY_WINDOW - i,
    {
        sum = sum + counts[start + i] as u64;
        i = i + 1;
    }
    sum >= MIN_CONTENT_PIXELS_PER_RUN
}

/// The first column of the first dense run.
pub fn dense_column_start(column_counts: &Vec<u32>) -> (start: Option<usize>)
    ensures
        match start {
            Some(start) => is_dense(column_counts@, start as int) && forall|i: int|
                0 <= i < start ==> !is_dense(column_counts@, i),
            None => forall|i: int| !is_dense(column_counts@, i),
        },
{
    if column_counts.len() < COLUMN_DENSITY_WINDOW {
        return None;
    }
    let last: usize = column_counts.len() - COLUMN_DENSITY_WINDOW;
    let mut start: usize = 0;
    while start <= last
        invariant
            last + COLUMN_DENSITY_WINDOW == column_counts@.len() <= usize::MAX,
            start <= last + 1,
            forall|i: int| 0 <= i < start ==> !is_dense(column_counts@, i),
        decreases last + 1 - start,
    {
        if run_is_dense(column_counts, start) {
            return Some(start);
        }
        start = start + 1;
    }
    None
}

/// The last column of the last dense run.
pub fn dense_column_end(column_counts: &Vec<u32>) -> (end: Option<usize>)
    ensures
        match end {
            Some(end) => is_dense(column_counts@, end - COLUMN_DENSITY_WINDOW + 1) && forall|i: int|
                i > end - COLUMN_DENSITY_WINDOW + 1 ==> !is_dense(column_counts@, i),
            None => forall|i: int| !is_dense(column_counts@, i),
        },
{
    if column_counts.len() < COLUMN_DENSITY_WINDOW {
        return None;
    }
    let mut start: usize = column_counts.len() - COLUMN_DENSITY_WINDOW + 1;
    while start > 0
        invariant
            start + COLUMN_DENSITY_WINDOW <= column_counts@.len() + 1 <= usize::MAX + 1,
            forall|i: int| i >= start ==> !is_dense(column_counts@, i),
        decreases start,
    {
        start = start - 1;
        if run_is_dense(column_counts, start) {
            return Some(start + COLUMN_DENSITY_WINDOW - 1);
        }
    }
    None
}

/// The rectangle of content: from the first to the last row with enough
/// content, and from the start of the first dense run of columns to the end of
/// the last one.
pub open spec fn is_content_bounds(
    image: &RgbaImage,
    background: RgbaBytes,
    bounds: (u32, u32, u32, u32),
) -> bool {
    let rows = row_counts(image, background);
    let columns = column_counts(image, background);
    let (left, top, right, bottom) = bounds;
    &&& top <= bottom < rows.len()
    &&& rows[top as int] >= MIN_CONTENT_PIXELS_PER_ROW
    &&& rows[bottom as int] >= MIN_CONTENT_PIXELS_PER_ROW
    &&& forall|y: int|
        0 <= y < rows.len() && (y < top || y > bottom) ==> #[trigger] rows[y]
            < MIN_CONTENT_PIXELS_PER_ROW
    &&& is_dense(columns, left as int)
    &&& is_dense(columns, right - COLUMN_DENSITY_WINDOW + 1)
    &&& forall|x: int| x < left || x > right - COLUMN_DENSITY_WINDOW + 1 ==> !#[trigger] is_dense(columns, x)
}

/// An image without content: no row with enough of it or no dense run.
pub open spec fn has_no_content(image: &RgbaImage, background: RgbaBytes) -> bool {
    let rows = row_counts(image, background);
    let columns = column_counts(image, background);
    ||| forall|y: int| 0 <= y < rows.len() ==> #[trigger] rows[y] < MIN_CONTENT_PIXELS_PER_ROW
    ||| forall|x: int| !#[trigger] is_dense(columns, x)
}

fn count_rows(image: &RgbaImage, background: RgbaBytes) -> (counts: Vec<u32>)
    requires
        image.well_formed(),
    ensures
        counts@ == row_counts(image, background),
{
    let mut counts: Vec<u32> = Vec::new();
    let mut y: u32 = 0;
    while y < image.height
        invariant
            image.well_formed(),
            y <= image.height,
            counts@ == row_counts(image, background).take(y as int),
        decreases image.height - y,
    {
        let mut count: u32 = 0;
        let mut x: u32 = 0;
        while x < image.width
            invariant
                image.well_formed(),
                y < image.height,
                x <= image.width,
                count <= x,
                count == row_content(image, background, y as int, x as int),
            decreases image.width - x,
        {
            if image.get_pixel(x, y) != background {
                count = count + 1;
            }
            x = x + 1;
        }
        counts.push(count);
        y = y + 1;
        assert(counts@ =~= row_counts(image, background).take(y as int));
    }
    assert(counts@ =~= row_counts(image, background));
    counts
}

fn count_columns(image: &RgbaImage, background: RgbaBytes) -> (counts: Vec<u32>)
    requires
        image.well_formed(),
    ensures
        counts@ == column_counts(image, background),
{
    let mut counts: Vec<u32> = Vec::new();
    let mut x: u32 = 0;
    while x < image.width
        invariant
            image.well_formed(),
            x <= image.width,
            counts@ == column_counts(image, background).take(x as int),
        decreases image.width - x,
    {
        let mut count: u32 = 0;
        let mut y: u32 = 0;
        while y < image.height
            invariant
                image.well_formed(),
                x < image.width,
                y <= image.height,
                count <= y,
                count == column_content(image, background, x as int, y as int),
            decreases image.height - y,
        {
            if image.get_pixel(x, y) != background {
                count = count + 1;
            }
            y = y + 1;
        }
        counts.push(count);
        x = x + 1;
        assert(counts@ =~= column_counts(image, background).take(x as int));
    }
    assert(counts@ =~= column_counts(image, background));
    counts
}

/// Finds the rectangle of content as left, top, right and bottom, all within it.
pub fn content_bounds(image: &RgbaImage, background: RgbaBytes) -> (bounds: Option<
    (u32, u32, u32, u32),
>)
    requires
        image.well_formed(),
    ensures
        match bounds {
            Some(bounds) => is_content_bounds(image, background, bounds),
            None => has_no_content(image, background),
        },
{
    let rows: Vec<u32> = count_rows(image, background);
    let columns: Vec<u32> = count_columns(image, background);
    let mut top: usize = 0;
    while top < rows.len() && rows[top] < MIN_CONTENT_PIXELS_PER_ROW
        invariant
            top <= rows@.len(),
            forall|y: int| 0 <= y < top ==> #[trigger] rows@[y] < MIN_CONTENT_PIXELS_PER_ROW,
        decreases rows@.len() - top,
    {
        top = top + 1;
    }
    if top == rows.len() {
        return None;
    }
    let mut bottom: usize = rows.len() - 1;
    while rows[bottom] < MIN_CONTENT_PIXELS_PER_ROW
        invariant
            top <= bottom < rows@.len(),
            rows@[top as int] >= MIN_CONTENT_PIXELS_PER_ROW,
            forall|y: int|
                bottom < y < rows@.len() ==> #[trigger] rows@[y] < MIN_CONTENT_PIXELS_PER_ROW,
        decreases bottom,
    {
        bottom = bottom - 1;
    }
    match (dense_column_start(&columns), dense_column_end(&columns)) {
        (Some(left), Some(right)) => {
            assert(is_dense(columns@, left as int));
            assert(is_dense(columns@, right - COLUMN_DENSITY_WINDOW + 1));
            Some((left as u32, top as u32, right as u32, bottom as u32))
        },
        _ => None,
    }
}

/// Where the sampled corner begins, in one direction.
pub open spec fn sample_start(side: u32) -> int {
    if side > BACKGROUND_SAMPLE_SIZE {
        side - BACKGROUND_SAMPLE_SIZE
    } else {
        0
    }
}

/// How often a colour occurs in a row from the sampled corner's edge up to `x`.
pub open spec fn row_occurrences(image: &RgbaImage, color: RgbaBytes, y: int, x: int) -> int
    decreases x - sample_start(image.width),
{
    if x <= sample_start(image.width) {
        0
    } else {
        row_occurrences(image, color, y, x - 1) + if image.pixel(x - 1, y) == color {
            1int
        } else {
            0int
        }
    }
}

/// How often a colour occurs in the sampled corner above row `y`.
pub open spec fn corner_occurrences(image: &RgbaImage, color: RgbaBytes, y: int) -> int
    decreases y - sample_start(image.height),
{
    if y <= sample_start(image.height) {
        0
    } else {
        corner_occurrences(image, color, y - 1) + row_occurrences(
            image,
            color,
            y - 1,
            image.width as int,
        )
    }
}

/// A colour that occurs in the bottom right corner, and no other more often.
pub open spec fn is_background(image: &RgbaImage, color: RgbaBytes) -> bool {
    &&& corner_occurrences(image, color, image.height as int) > 0
    &&& forall|other: RgbaBytes| #[trigger]
        corner_occurrences(image, other, image.height as int) <= corner_occurrences(
            image,
            color,
            image.height as int,
        )
}

/// How often a colour occurs in the sampled corner above row `y`, and in that row
/// up to `x`.
spec fn occurrences_so_far(image: &RgbaImage, color: RgbaBytes, y: int, x: int) -> int {
    corner_occurrences(image, color, y) + row_occurrences(image, color, y, x)
}

/// The number that stands for a colour.
spec fn color_number(color: RgbaBytes) -> u32 {
    (color.red * 16_777_216 + color.green * 65_536 + color.blue * 256 + color.alpha) as u32
}

fn number_of_color(color: RgbaBytes) -> (number: u32)
    ensures
        number == color_number(color),
{
    color.red as u32 * 16_777_216 + color.green as u32 * 65_536 + color.blue as u32 * 256
        + color.alpha as u32
}

/// How often a colour was counted.
spec fn counted(counts: Map<u32, u32>, color: RgbaBytes) -> int {
    let number = color_number(color);
    if counts.contains_key(number) {
        counts[number] as int
    } else {
        0
    }
}

/// Every colour was counted as often as it was seen so far.
spec fn tallies(counts: Map<u32, u32>, image: &RgbaImage, y: int, x: int) -> bool {
    forall|color: RgbaBytes|
        #![trigger counted(counts, color)]
        #![trigger occurrences_so_far(image, color, y, x)]
        counted(counts, color) == occurrences_so_far(image, color, y, x)
}

/// Counts one more occurrence of a colour, and tells how many there are.
fn count_color(counts: &mut HashMap<u32, u32>, color: RgbaBytes) -> (count: u32)
    requires
        counted(old(counts)@, color) < u32::MAX,
    ensures
        count == counted(old(counts)@, color) + 1,
        forall|other: RgbaBytes| #[trigger]
            counted(final(counts)@, other) == counted(old(counts)@, other) + if other == color {
                1int
            } else {
                0int
            },
{
    broadcast use vstd::std_specs::hash::group_hash_axioms;

    let number: u32 = number_of_color(color);
    let count: u32 = match counts.get(&number) {
        Some(count) => *count + 1,
        None => 1,
    };
    counts.insert(number, count);
    count
}

/// The colour that occurs most often in the bottom right corner of a capture.
/// Of several that occur equally often it is any.
pub fn sample_background_color(image: &RgbaImage) -> (color: RgbaBytes)
    requires
        image.well_formed(),
        image.width > 0,
        image.height > 0,
    ensures
        is_background(image, color),
{
    broadcast use vstd::std_specs::hash::group_hash_axioms;

    let start_x: u32 = if image.width > BACKGROUND_SAMPLE_SIZE {
        image.width - BACKGROUND_SAMPLE_SIZE
    } else {
        0
    };
    let start_y: u32 = if image.height > BACKGROUND_SAMPLE_SIZE {
        image.height - BACKGROUND_SAMPLE_SIZE
    } else {
        0
    };
    let mut counts: HashMap<u32, u32> = HashMap::new();
    let mut most: u32 = 0;
    let mut color: RgbaBytes = image.get_pixel(start_x, start_y);
    let mut y: u32 = start_y;
    while y < image.height
        invariant
            image.well_formed(),
            start_x == sample_start(image.width),
            start_y == sample_start(image.height),
            start_x < image.width,
            start_y <= y <= image.height,
            image.width - start_x <= 64,
            image.height - start_y <= 64,
            most <= 64 * (y - start_y),
            y > start_y ==> most > 0,
            most == counted(counts@, color),
            forall|other: RgbaBytes| #[trigger] counted(counts@, other) <= most,
            tallies(counts@, image, y as int, start_x as int),
        decreases image.height - y,
    {
        let mut x: u32 = start_x;
        while x < image.width
            invariant
                image.well_formed(),
                start_x == sample_start(image.width),
                start_y == sample_start(image.height),
                start_x <= x <= image.width,
                start_y <= y < image.height,
                image.width - start_x <= 64,
                image.height - start_y <= 64,
                most <= 64 * (y - start_y) + (x - start_x),
                x > start_x ==> most > 0,
                most == counted(counts@, color),
                forall|other: RgbaBytes| #[trigger] counted(counts@, other) <= most,
                tallies(counts@, image, y as int, x as int),
            decreases image.width - x,
        {
            let pixel: RgbaBytes = image.get_pixel(x, y);
            let ghost before = counts@;
            let count: u32 = count_color(&mut counts, pixel);
            proof {
                assert forall|other: RgbaBytes| counted(counts@, other) == occurrences_so_far(
                    image,
                    other,
                    y as int,
                    x + 1,
                ) by {
                    assert(counted(before, other) == occurrences_so_far(
                        image,
                        other,
                        y as int,
                        x as int,
                    ));
                }
            }
            if count > most {
                most = count;
                color = pixel;
            }
            x = x + 1;
        }
        proof {
            assert forall|other: RgbaBytes| counted(counts@, other) == occurrences_so_far(
                image,
                other,
                y + 1,
                start_x as int,
            ) by {
                assert(counted(counts@, other) == occurrences_so_far(
                    image,
                    other,
                    y as int,
                    image.width as int,
                ));
            }
        }
        y = y + 1;
    }
    proof {
        let height = image.height as int;
        assert forall|other: RgbaBytes| #[trigger] corner_occurrences(image, other, height)
            <= corner_occurrences(image, color, height) by {
            assert(counted(counts@, other) == occurrences_so_far(
                image,
                other,
                height,
                start_x as int,
            ));
        }
    }
    color
}

/// The part of a capture that is kept: its content and `padding` pixels of
/// background on each side, as far as the capture goes; all of it where it has
/// no content.
pub open spec fn is_trimmed(
    trimmed: &RgbaImage,
    screenshot: &RgbaImage,
    background: RgbaBytes,
    padding: u32,
) -> bool {
    if has_no_content(screenshot, background) {
        trimmed.width == screenshot.width && trimmed.height == screenshot.height && trimmed.data@
            == screenshot.data@
    } else {
        exists|bounds: (u32, u32, u32, u32)|
            {
                let (left, top, right, bottom) = bounds;
                let left_kept = vstd::math::max(left - padding, 0);
                let top_kept = vstd::math::max(top - padding, 0);
                let right_kept = vstd::math::min(right + padding, screenshot.width - 1);
                let bottom_kept = vstd::math::min(bottom + padding, screenshot.height - 1);
                &&& #[trigger] is_content_bounds(screenshot, background, bounds)
                &&& trimmed.is_crop_of(
                    screenshot,
                    left_kept as u32,
                    top_kept as u32,
                    (right_kept - left_kept + 1) as u32,
                    (bottom_kept - top_kept + 1) as u32,
                )
            }
    }
}

/// Cuts a capture down to its content.
pub fn trim_screenshot(screenshot: &RgbaImage, padding: u32) -> (trimmed: RgbaImage)
    requires
        screenshot.well_formed(),
        screenshot.width > 0,
        screenshot.height > 0,
    ensures
        trimmed.well_formed(),
        exists|background: RgbaBytes|
            #[trigger] is_background(screenshot, background) && is_trimmed(
                &trimmed,
                screenshot,
                background,
                padding,
            ),
{
    let background: RgbaBytes = sample_background_color(screenshot);
    match content_bounds(screenshot, background) {
        Some(bounds) => {
            let (left, top, right, bottom) = bounds;
            proof {
                lemma_bounds_exclude_no_content(screenshot, background, bounds);
            }
            let left_kept: u32 = left.saturating_sub(padding);
            let top_kept: u32 = top.saturating_sub(padding);
            let mut right_kept: u32 = screenshot.width - 1;
            if padding < right_kept - right {
                right_kept = right + padding;
            }
            let mut bottom_kept: u32 = screenshot.height - 1;
            if padding < bottom_kept - bottom {
                bottom_kept = bottom + padding;
            }
            let trimmed: RgbaImage = screenshot.crop(
                left_kept,
                top_kept,
                right_kept - left_kept + 1,
                bottom_kept - top_kept + 1,
            );
            assert(is_content_bounds(screenshot, background, bounds));
            assert(is_trimmed(&trimmed, screenshot, background, padding));
            trimmed
        },
        None => {
            let trimmed: RgbaImage = screenshot.crop(0, 0, screenshot.width, screenshot.height);
            proof {
                lemma_full_crop(&trimmed, screenshot);
                assert(is_trimmed(&trimmed, screenshot, background, padding));
            }
            trimmed
        },
    }
}

proof fn lemma_bounds_exclude_no_content(
    image: &RgbaImage,
    background: RgbaBytes,
    bounds: (u32, u32, u32, u32),
)
    requires
        is_content_bounds(image, background, bounds),
    ensures
        !has_no_content(image, background),
        bounds.0 <= bounds.2 < image.width,
        bounds.1 <= bounds.3 < image.height,
{
    let rows = row_counts(image, background);
    let columns = column_counts(image, background);
    assert(rows[bounds.1 as int] >= MIN_CONTENT_PIXELS_PER_ROW);
    assert(is_dense(columns, bounds.0 as int));
    assert(is_dense(columns, bounds.2 - COLUMN_DENSITY_WINDOW + 1));
}

/// A copy of the whole image has the same bytes.
proof fn lemma_full_crop(copy: &RgbaImage, image: &RgbaImage)
    requires
        image.well_formed(),
        copy.is_crop_of(image, 0, 0, image.width, image.height),
    ensures
        copy.data@ == image.data@,
{
    let width = image.width as int;
    let height = image.height as int;
    assert forall|k: int| 0 <= k < copy.data@.len() implies copy.data@[k] == image.data@[k] by {
        let place = k / 4;
        assert(0 <= place < width * height);
        assert(width > 0) by (nonlinear_arith)
            requires
                0 <= place < width * height,
                width >= 0,
        ;
        vstd::arithmetic::div_mod::lemma_fundamental_div_mod(place, width);
        let x = place % width;
        let y = place / width;
        assert(0 <= y < height) by (nonlinear_arith)
            requires
                place == width * y + x,
                0 <= x < width,
                0 <= place < width * height,
        ;
        assert(copy.contains(x, y));
        assert(y * width + x == place) by (nonlinear_arith)
            requires
                place == width * y + x,
        ;
        assert(copy.pixel(x, y) == image.pixel(x, y));
    }
    assert(copy.data@ =~= image.data@);
}

} // verus!
