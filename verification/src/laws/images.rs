//! What images show once they are put side by side or cut down to their content.

use crate::capture::frames;
use crate::capture::frames::RgbaImage;
use crate::capture::labels::RgbaBytes;
use vstd::prelude::*;

verus! {

/// A pixel is four bytes, red first and opacity last, and pixels lie row by row.
pub proof fn law_pixels_lie_row_by_row(image: RgbaImage, x: int, y: int)
    requires
        image.well_formed(),
        0 <= x < image.width,
        0 <= y < image.height,
    ensures
        image.contains(x, y),
        image.data@.len() == 4 * (image.width * image.height),
        ({
            let place = 4 * (y * image.width + x);
            let pixel = image.pixel(x, y);
            &&& 0 <= place
            &&& place + 3 < image.data@.len()
            &&& pixel.red == image.data@[place]
            &&& pixel.green == image.data@[place + 1]
            &&& pixel.blue == image.data@[place + 2]
            &&& pixel.alpha == image.data@[place + 3]
        }),
{
    let width = image.width as int;
    let height = image.height as int;
    assert(0 <= y * width + x < width * height) by (nonlinear_arith)
        requires
            0 <= x < width,
            0 <= y < height,
    ;
}

/// An image that is put behind others stands 24 pixels right of the last, and makes the
/// whole as much wider. The whole is as high as the highest of them.
pub proof fn law_images_are_put_side_by_side(images: Seq<RgbaImage>, image: RgbaImage)
    ensures
        ({
            let more = images.push(image);
            &&& frames::stitched_width(Seq::empty()) == 0
            &&& frames::stitched_height(Seq::empty()) == 0
            &&& images.len() == 0 ==> frames::left_edge(more, 0) == 0 && frames::stitched_width(
                more,
            ) == image.width
            &&& images.len() > 0 ==> {
                &&& frames::left_edge(more, images.len() as int) == frames::stitched_width(images)
                    + 24
                &&& frames::stitched_width(more) == frames::stitched_width(images) + 24
                    + image.width
            }
            &&& frames::stitched_height(more) >= image.height
            &&& frames::stitched_height(more) >= frames::stitched_height(images)
            &&& frames::stitched_height(more) == image.height || frames::stitched_height(more)
                == frames::stitched_height(images)
        }),
{
    let more = images.push(image);
    assert(more.drop_last() =~= images);
    lemma_edges(images, image, images.len() as int);
    reveal_with_fuel(frames::left_edge, 2);
}

proof fn lemma_edges(images: Seq<RgbaImage>, image: RgbaImage, index: int)
    requires
        0 <= index <= images.len(),
    ensures
        frames::left_edge(images.push(image), index) == frames::left_edge(images, index),
    decreases index,
{
    if index > 0 {
        lemma_edges(images, image, index - 1);
    }
}

/// One where two pixels differ, nothing where they do not.
pub open spec fn one_if_other(pixel: RgbaBytes, background: RgbaBytes) -> int {
    if pixel == background {
        0
    } else {
        1
    }
}

/// Content is counted pixel by pixel: every pixel that is not of the background counts
/// once, in its row and in its column.
pub proof fn law_content_is_counted_once(
    image: RgbaImage,
    background: RgbaBytes,
    x: int,
    y: int,
)
    requires
        0 <= x,
        0 <= y,
    ensures
        frames::row_content(&image, background, y, 0) == 0,
        frames::row_content(&image, background, y, x + 1) == frames::row_content(
            &image,
            background,
            y,
            x,
        ) + one_if_other(image.pixel(x, y), background),
        frames::column_content(&image, background, x, 0) == 0,
        frames::column_content(&image, background, x, y + 1) == frames::column_content(
            &image,
            background,
            x,
            y,
        ) + one_if_other(image.pixel(x, y), background),
{
}

proof fn lemma_counts(image: RgbaImage, background: RgbaBytes, line: int, upto: int)
    requires
        0 <= upto,
    ensures
        0 <= frames::row_content(&image, background, line, upto) <= upto,
        0 <= frames::column_content(&image, background, line, upto) <= upto,
    decreases upto,
{
    if upto > 0 {
        lemma_counts(image, background, line, upto - 1);
    }
}

/// The content of eight neighbouring columns.
pub open spec fn eight_columns(image: RgbaImage, background: RgbaBytes, start: int) -> int {
    let height = image.height as int;
    frames::column_content(&image, background, start, height) + frames::column_content(
        &image,
        background,
        start + 1,
        height,
    ) + frames::column_content(&image, background, start + 2, height) + frames::column_content(
        &image,
        background,
        start + 3,
        height,
    ) + frames::column_content(&image, background, start + 4, height) + frames::column_content(
        &image,
        background,
        start + 5,
        height,
    ) + frames::column_content(&image, background, start + 6, height) + frames::column_content(
        &image,
        background,
        start + 7,
        height,
    )
}

proof fn lemma_dense(image: RgbaImage, background: RgbaBytes, start: int)
    ensures
        frames::is_dense(frames::column_counts(&image, background), start) == (0 <= start
            && start + 8 <= image.width && eight_columns(image, background, start) >= 64),
{
    let counts = frames::column_counts(&image, background);
    if 0 <= start && start + 8 <= image.width {
        assert forall|x: int| 0 <= x < image.width implies #[trigger] counts[x]
            == frames::column_content(&image, background, x, image.height as int) by {
            lemma_counts(image, background, x, image.height as int);
        }
        reveal_with_fuel(frames::window_content, 9);
        assert(counts[start] == frames::column_content(
            &image,
            background,
            start,
            image.height as int,
        ));
    }
}

/// The content of an image lies between the first and the last row that have eight
/// pixels of it, and between the first and the last eight columns that have 64.
pub proof fn law_content_lies_between_its_bounds(
    image: RgbaImage,
    background: RgbaBytes,
    bounds: (u32, u32, u32, u32),
    place: int,
)
    requires
        frames::is_content_bounds(&image, background, bounds),
    ensures
        ({
            let (left, top, right, bottom) = bounds;
            let width = image.width as int;
            &&& top <= bottom < image.height
            &&& left + 7 <= right < image.width
            &&& frames::row_content(&image, background, top as int, width) >= 8
            &&& frames::row_content(&image, background, bottom as int, width) >= 8
            &&& 0 <= place < top || bottom < place < image.height ==> frames::row_content(
                &image,
                background,
                place,
                width,
            ) < 8
            &&& eight_columns(image, background, left as int) >= 64
            &&& eight_columns(image, background, right - 7) >= 64
            &&& 0 <= place < left || right - 7 < place <= width - 8 ==> eight_columns(
                image,
                background,
                place,
            ) < 64
        }),
{
    let (left, top, right, bottom) = bounds;
    let rows = frames::row_counts(&image, background);
    let columns = frames::column_counts(&image, background);
    lemma_dense(image, background, left as int);
    lemma_dense(image, background, right - 7);
    lemma_dense(image, background, place);
    lemma_counts(image, background, top as int, image.width as int);
    lemma_counts(image, background, bottom as int, image.width as int);
    lemma_counts(image, background, place, image.width as int);
    assert(frames::is_dense(columns, right - 7));
    if 0 <= place < image.height {
        assert(rows[place] == frames::row_content(
            &image,
            background,
            place,
            image.width as int,
        ) as u32);
    }
}

/// An image has content where some row has eight pixels of it and some eight columns
/// have 64.
pub proof fn law_dense_images_have_content(
    image: RgbaImage,
    background: RgbaBytes,
    row: int,
    column: int,
)
    requires
        0 <= row < image.height,
        0 <= column <= image.width - 8,
        frames::row_content(&image, background, row, image.width as int) >= 8,
        eight_columns(image, background, column) >= 64,
    ensures
        !frames::has_no_content(&image, background),
{
    lemma_dense(image, background, column);
    lemma_counts(image, background, row, image.width as int);
    let rows = frames::row_counts(&image, background);
    assert(rows[row] >= 8);
}

/// The background is sampled in the corner at the lower right, whose sides are 64 pixels
/// or those of the image where it is smaller. Every pixel in it counts once for its own
/// colour.
pub proof fn law_the_background_is_sampled_in_a_corner(
    image: RgbaImage,
    color: RgbaBytes,
    x: int,
    y: int,
)
    requires
        0 <= x < image.width,
        0 <= y < image.height,
    ensures
        ({
            let in_row = x >= image.width - 64;
            let row = frames::row_occurrences(&image, color, y, x);
            let next = frames::row_occurrences(&image, color, y, x + 1);
            &&& in_row && image.pixel(x, y) == color ==> next == row + 1
            &&& in_row && image.pixel(x, y) != color ==> next == row
            &&& !in_row ==> next == 0 && row == 0
            &&& y >= image.height - 64 ==> frames::corner_occurrences(&image, color, y + 1)
                == frames::corner_occurrences(&image, color, y) + frames::row_occurrences(
                &image,
                color,
                y,
                image.width as int,
            )
            &&& y < image.height - 64 ==> frames::corner_occurrences(&image, color, y + 1) == 0
            &&& frames::row_occurrences(&image, color, y, 0) == 0
            &&& frames::corner_occurrences(&image, color, 0) == 0
        }),
{
}

/// A background is a colour that occurs in the corner, and no colour occurs there more
/// often.
pub proof fn law_backgrounds_are_most_frequent(
    image: RgbaImage,
    background: RgbaBytes,
    other: RgbaBytes,
)
    requires
        frames::is_background(&image, background),
    ensures
        frames::corner_occurrences(&image, background, image.height as int) > 0,
        frames::corner_occurrences(&image, other, image.height as int)
            <= frames::corner_occurrences(&image, background, image.height as int),
        exists|x: int, y: int|
            image.width - 64 <= x < image.width && image.height - 64 <= y < image.height
                && #[trigger] image.contains(x, y) && image.pixel(x, y) == background,
{
    lemma_corner(image, background, image.height as int);
}

proof fn lemma_row(image: RgbaImage, color: RgbaBytes, y: int, x: int)
    requires
        0 <= x <= image.width,
        frames::row_occurrences(&image, color, y, x) > 0,
    ensures
        exists|at: int|
            image.width - 64 <= at < x && 0 <= at && #[trigger] image.pixel(at, y) == color,
    decreases x,
{
    if x > 0 && image.pixel(x - 1, y) != color {
        lemma_row(image, color, y, x - 1);
    }
}

proof fn lemma_corner(image: RgbaImage, color: RgbaBytes, y: int)
    requires
        0 <= y <= image.height,
        frames::corner_occurrences(&image, color, y) > 0,
    ensures
        exists|at_x: int, at_y: int|
            image.width - 64 <= at_x < image.width && image.height - 64 <= at_y < image.height
                && #[trigger] image.contains(at_x, at_y) && image.pixel(at_x, at_y) == color,
    decreases y,
{
    if y > 0 {
        if frames::row_occurrences(&image, color, y - 1, image.width as int) > 0 {
            lemma_row(image, color, y - 1, image.width as int);
            let at = choose|at: int|
                image.width - 64 <= at < image.width && 0 <= at && #[trigger] image.pixel(
                    at,
                    y - 1,
                ) == color;
            assert(image.contains(at, y - 1));
        } else {
            lemma_corner(image, color, y - 1);
        }
    }
}

/// The larger of two numbers.
pub open spec fn larger(left: int, right: int) -> int {
    if left > right {
        left
    } else {
        right
    }
}

/// The smaller of two numbers.
pub open spec fn smaller(left: int, right: int) -> int {
    if left < right {
        left
    } else {
        right
    }
}

/// A trimmed capture shows the capture from some pixels left of and above its content to
/// as many right of and below it, as far as the capture goes, pixel by pixel.
pub proof fn law_trimmed_captures_keep_their_content(
    trimmed: RgbaImage,
    screenshot: RgbaImage,
    background: RgbaBytes,
    padding: u32,
)
    requires
        frames::is_trimmed(&trimmed, &screenshot, background, padding),
        !frames::has_no_content(&screenshot, background),
    ensures
        exists|bounds: (u32, u32, u32, u32)|
            {
                let left = larger(bounds.0 - padding, 0);
                let top = larger(bounds.1 - padding, 0);
                let right = smaller(bounds.2 + padding, screenshot.width - 1);
                let bottom = smaller(bounds.3 + padding, screenshot.height - 1);
                &&& #[trigger] frames::is_content_bounds(&screenshot, background, bounds)
                &&& trimmed.width == right - left + 1
                &&& trimmed.height == bottom - top + 1
                &&& forall|x: int, y: int|
                    0 <= x < trimmed.width && 0 <= y < trimmed.height ==> #[trigger] trimmed.pixel(
                        x,
                        y,
                    ) == screenshot.pixel(left + x, top + y)
            },
{
    let bounds = choose|bounds: (u32, u32, u32, u32)|
        {
            let (left, top, right, bottom) = bounds;
            let left_kept = vstd::math::max(left - padding, 0);
            let top_kept = vstd::math::max(top - padding, 0);
            let right_kept = vstd::math::min(right + padding, screenshot.width - 1);
            let bottom_kept = vstd::math::min(bottom + padding, screenshot.height - 1);
            &&& #[trigger] frames::is_content_bounds(&screenshot, background, bounds)
            &&& trimmed.is_crop_of(
                &screenshot,
                left_kept as u32,
                top_kept as u32,
                (right_kept - left_kept + 1) as u32,
                (bottom_kept - top_kept + 1) as u32,
            )
        };
    law_content_lies_between_its_bounds(screenshot, background, bounds, 0);
    let left = larger(bounds.0 - padding, 0);
    let top = larger(bounds.1 - padding, 0);
    assert forall|x: int, y: int| 0 <= x < trimmed.width && 0 <= y < trimmed.height implies
        #[trigger] trimmed.pixel(x, y) == screenshot.pixel(left + x, top + y) by {
        assert(trimmed.contains(x, y));
    }
    assert(frames::is_content_bounds(&screenshot, background, bounds));
}

/// A capture without content is kept as it is.
pub proof fn law_captures_without_content_are_kept(
    trimmed: RgbaImage,
    screenshot: RgbaImage,
    background: RgbaBytes,
    padding: u32,
)
    requires
        frames::is_trimmed(&trimmed, &screenshot, background, padding),
        frames::has_no_content(&screenshot, background),
    ensures
        trimmed.width == screenshot.width,
        trimmed.height == screenshot.height,
        trimmed.data@ == screenshot.data@,
{
}

/// A part of an image has the pixels from its corner on, and an image of one colour has
/// that everywhere.
pub proof fn law_parts_have_the_pixels_from_their_corner(
    part: RgbaImage,
    source: RgbaImage,
    left: u32,
    top: u32,
    width: u32,
    height: u32,
    color: RgbaBytes,
    x: int,
    y: int,
)
    requires
        0 <= x < width,
        0 <= y < height,
    ensures
        part.is_crop_of(&source, left, top, width, height) ==> part.width == width
            && part.height == height && part.pixel(x, y) == source.pixel(left + x, top + y),
        part.is_filled(width, height, color) ==> part.width == width && part.height == height
            && part.pixel(x, y) == color,
{
    if part.width == width && part.height == height {
        assert(part.contains(x, y));
    }
}

} // verus!
