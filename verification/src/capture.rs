//! Frame conversion: captured pixels become a downscaled, hashed RGB preview.

pub mod pictures;

use fast_image_resize::images::{Image, ImageRef};
use fast_image_resize::{FilterType, PixelType, ResizeAlg, ResizeOptions, Resizer};
use vstd::prelude::*;

use crate::state::{FramePayload, PixelGrid};
use crate::text::{debug_text, is_empty, join_texts, text_contains, trim_text};

verus! {

/// Grid resolution of the frame hash: an 8x8 grid yields its 64 bits.
pub const HASH_GRID: u32 = 8;

/// Samples taken per hash cell and axis. Cell averages are what keep the hash stable against
/// compression artifacts and sub-pixel jitter, and 4x4 samples already measure them well
/// without walking the entire preview.
pub const HASH_SAMPLES: u32 = 4;

/// Resampler of the outside crate.
#[verifier::external_type_specification]
#[verifier::external_body]
pub struct ExResizer(fast_image_resize::Resizer);

/// `Resizer::new` makes a resampler for the running machine. Nothing is claimed of it.
pub assume_specification[ fast_image_resize::Resizer::new ]() -> (r: Resizer);

/// Resampling filter of a downscale.
#[derive(Debug, Clone, Copy, PartialEq, Eq, Structural)]
pub enum ResizeFilter {
    /// Cheapest and softest.
    Bilinear,
    /// Downscaling quality close to bicubic at bilinear speed.
    Hamming,
    /// Highest quality.
    Lanczos3,
}

/// Filter of the preview downscale.
pub const PREVIEW_FILTER: ResizeFilter = ResizeFilter::Hamming;

/// Whether the preview downscale weighs colours by alpha. Captured frames are opaque and alpha
/// is dropped when packing, so the extra pass is skipped.
pub const PREVIEW_USES_ALPHA: bool = false;

/// Whether `result` is what some call of the resampler, with the given filter and treatment of
/// alpha, makes of four-channel source pixels for a preview of the given size. Different
/// machines may make different results of one source.
pub uninterp spec fn resampled_from(
    source: Seq<u8>,
    source_width: u32,
    source_height: u32,
    preview_width: u32,
    preview_height: u32,
    filter: ResizeFilter,
    use_alpha: bool,
    result: Seq<u8>,
) -> bool;

/// Resamples four-channel 8-bit pixels with `Resizer::resize`, by convolution with the given
/// filter, the colours weighed by alpha or not.
///
/// With buffers of the right size the call succeeds and keeps the size of the destination,
/// which receives the source resampled. A destination of the source's size receives a copy, and
/// a source without pixels leaves the destination as it was. The resampled values themselves
/// are left unsaid: they come from floating-point filter weights and the vector unit of the
/// machine.
#[verifier::external_body]
fn resize_rgba(
    resizer: &mut Resizer,
    source: &[u8],
    source_width: u32,
    source_height: u32,
    preview: &mut Vec<u8>,
    preview_width: u32,
    preview_height: u32,
    filter: ResizeFilter,
    use_alpha: bool,
) -> (r: Result<(), String>)
    requires
        source@.len() == source_width * source_height * 4,
        old(preview)@.len() == preview_width * preview_height * 4,
    ensures
        r is Ok,
        final(preview)@.len() == old(preview)@.len(),
        source_width > 0 && source_height > 0 ==> resampled_from(
            source@,
            source_width,
            source_height,
            preview_width,
            preview_height,
            filter,
            use_alpha,
            final(preview)@,
        ),
        source_width == preview_width && source_height == preview_height ==> final(preview)@
            == source@,
        source_width == 0 || source_height == 0 ==> final(preview)@ == old(preview)@,
{
    let kind = PixelType::U8x4;
    let pixels = ImageRef::new(source_width, source_height, source, kind).map_err(|error| error.to_string())?;
    let mut target = Image::from_slice_u8(preview_width, preview_height, preview, kind).map_err(
        |error| error.to_string(),
    )?;
    let filter = match filter {
        ResizeFilter::Bilinear => FilterType::Bilinear,
        ResizeFilter::Hamming => FilterType::Hamming,
        ResizeFilter::Lanczos3 => FilterType::Lanczos3,
    };
    let algorithm = ResizeAlg::Convolution(filter);
    let options = ResizeOptions::new().resize_alg(algorithm).use_alpha(use_alpha);
    resizer.resize(&pixels, &mut target, &options).map_err(|error| error.to_string())
}

/// Size of the preview: scaled down to fit `preview_edge` on the longest edge while
/// preserving the aspect ratio, never scaled up.
pub open spec fn preview_size(width: u32, height: u32, preview_edge: u32) -> (u32, u32) {
    if width <= preview_edge && height <= preview_edge {
        (width, height)
    } else if width >= height {
        (preview_edge, scaled_edge(height, width, preview_edge))
    } else {
        (scaled_edge(width, height, preview_edge), preview_edge)
    }
}

/// The shortest edge of a preview whose longest edge is `preview_edge`; at least one pixel.
pub open spec fn scaled_edge(shortest: u32, longest: u32, preview_edge: u32) -> u32 {
    let scaled = shortest * preview_edge / longest as int;
    if scaled < 1 {
        1
    } else {
        scaled as u32
    }
}

/// Destination size for a `width` x `height` frame: scaled down to fit `preview_edge` on the
/// longest edge while preserving the aspect ratio, never upscaled.
pub fn preview_dimensions(width: u32, height: u32, preview_edge: u32) -> (r: (u32, u32))
    ensures
        r == preview_size(width, height, preview_edge),
{
    if width <= preview_edge && height <= preview_edge {
        return (width, height);
    }
    if width >= height {
        (preview_edge, scale_edge(height, width, preview_edge))
    } else {
        (scale_edge(width, height, preview_edge), preview_edge)
    }
}

fn scale_edge(shortest: u32, longest: u32, preview_edge: u32) -> (r: u32)
    requires
        shortest <= longest,
        longest > 0,
    ensures
        r == scaled_edge(shortest, longest, preview_edge),
{
    assert(0 <= shortest * preview_edge <= 0xFFFF_FFFF * 0xFFFF_FFFF) by (nonlinear_arith)
        requires
            0 <= shortest <= 0xFFFF_FFFF,
            0 <= preview_edge <= 0xFFFF_FFFF,
    ;
    assert(shortest * preview_edge / longest as int <= preview_edge) by (nonlinear_arith)
        requires
            0 <= shortest <= longest,
            longest > 0,
            preview_edge >= 0,
    ;
    let scaled: u64 = shortest as u64 * preview_edge as u64 / longest as u64;
    if scaled < 1 {
        1
    } else {
        scaled as u32
    }
}

/// A preview fits its edge, is never larger than the frame on either axis and keeps a frame
/// that already fits. Its aspect ratio is that of the frame up to the rounding of the shorter
/// edge to whole pixels.
pub proof fn law_preview_fits_and_never_upscales(width: u32, height: u32, preview_edge: u32)
    requires
        width > 0,
        height > 0,
        preview_edge > 0,
    ensures
        ({
            let (w, h) = preview_size(width, height, preview_edge);
            &&& 0 < w <= width && 0 < h <= height
            &&& w <= preview_edge && h <= preview_edge
            &&& width <= preview_edge && height <= preview_edge ==> w == width && h == height
            &&& width > preview_edge || height > preview_edge ==> w == preview_edge || h
                == preview_edge
            &&& w > 1 && h > 1 ==> {
                let longest = if width >= height {
                    width as int
                } else {
                    height as int
                };
                -longest < width * h - height * w < longest
            }
        }),
{
    if width > preview_edge || height > preview_edge {
        if width >= height {
            lemma_scaled_edge(height, width, preview_edge);
        } else {
            lemma_scaled_edge(width, height, preview_edge);
        }
    } else {
        assert(width * height - height * width == 0) by (nonlinear_arith);
    }
}

proof fn lemma_scaled_edge(shortest: u32, longest: u32, preview_edge: u32)
    requires
        0 < shortest <= longest,
        0 < preview_edge < longest,
    ensures
        0 < scaled_edge(shortest, longest, preview_edge) <= shortest,
        scaled_edge(shortest, longest, preview_edge) <= preview_edge,
        scaled_edge(shortest, longest, preview_edge) > 1 ==> 0 <= shortest * preview_edge - longest
            * scaled_edge(shortest, longest, preview_edge) < longest,
{
    let product = shortest * preview_edge;
    let scaled = product / longest as int;
    assert(0 <= scaled <= shortest && scaled <= preview_edge) by (nonlinear_arith)
        requires
            product == shortest * preview_edge,
            scaled == product / longest as int,
            0 < shortest <= longest,
            0 < preview_edge < longest,
    ;
    vstd::arithmetic::div_mod::lemma_fundamental_div_mod(product, longest as int);
}

/// RGB bytes of RGBA (or, swapped, BGRA) pixels: the alpha channel and an incomplete last
/// pixel are dropped.
pub open spec fn packed(rgba: Seq<u8>, swap_red_blue: bool) -> Seq<u8> {
    Seq::new(
        rgba.len() / 4 * 3,
        |i: int|
            {
                let channel = i % 3;
                rgba[i / 3 * 4 + if swap_red_blue {
                    2 - channel
                } else {
                    channel
                }]
            },
    )
}

/// Packs an RGBA8 buffer into RGB8 by dropping the alpha channel.
///
/// This runs on the downsampled preview rather than on the full-resolution frame, so the
/// resampler is left to work on the four-component data it reads most efficiently.
pub fn pack_rgba_to_rgb(rgba: &[u8], rgb: &mut Vec<u8>, swap_red_blue: bool)
    ensures
        final(rgb)@ == packed(rgba@, swap_red_blue),
        final(rgb)@.len() == rgba@.len() / 4 * 3,
        forall|i: int|
            0 <= i < rgba@.len() / 4 ==> #[trigger] final(rgb)@[3 * i] == (if swap_red_blue {
                rgba@[4 * i + 2]
            } else {
                rgba@[4 * i]
            }) && final(rgb)@[3 * i + 1] == rgba@[4 * i + 1] && final(rgb)@[3 * i + 2] == (
            if swap_red_blue {
                rgba@[4 * i]
            } else {
                rgba@[4 * i + 2]
            }),
{
    rgb.clear();
    let size: usize = rgba.len();
    let count: usize = size / 4;
    rgb.reserve(count * 3);
    let mut i: usize = 0;
    while i < count
        invariant
            i <= count,
            size == rgba@.len(),
            count == size / 4,
            rgb@.len() == 3 * i,
            forall|j: int|
                0 <= j < 3 * i ==> #[trigger] rgb@[j] == packed(rgba@, swap_red_blue)[j],
        decreases count - i,
    {
        let at: usize = i * 4;
        let first: u8 = rgba[at];
        let middle: u8 = rgba[at + 1];
        let last: u8 = rgba[at + 2];
        if swap_red_blue {
            rgb.push(last);
            rgb.push(middle);
            rgb.push(first);
        } else {
            rgb.push(first);
            rgb.push(middle);
            rgb.push(last);
        }
        i = i + 1;
    }
    assert(rgb@ =~= packed(rgba@, swap_red_blue));
}

/// Frames that hold the same colours in RGBA and in BGRA order are packed into the same RGB
/// bytes.
pub proof fn law_channel_order_does_not_show(rgba: Seq<u8>, bgra: Seq<u8>)
    requires
        rgba.len() == bgra.len(),
        forall|i: int|
            0 <= i < rgba.len() / 4 ==> #[trigger] rgba[4 * i] == bgra[4 * i + 2] && rgba[4 * i + 1]
                == bgra[4 * i + 1] && rgba[4 * i + 2] == bgra[4 * i],
    ensures
        packed(rgba, false) == packed(bgra, true),
{
    assert forall|j: int| 0 <= j < packed(rgba, false).len() implies packed(rgba, false)[j]
        == packed(bgra, true)[j] by {
        let i = j / 3;
        assert(rgba[4 * i] == bgra[4 * i + 2]);
        assert(j / 3 * 4 == 4 * i);
    }
    assert(packed(rgba, false) =~= packed(bgra, true));
}

/// Position of a grid line along an axis of the given length.
pub open spec fn grid_line(index: int, length: int) -> int {
    index * length / HASH_GRID as int
}

/// Position of a sample of a cell along an axis of the given length.
pub open spec fn sample_position(cell: int, sample: int, length: int) -> int {
    grid_line(cell, length) + (grid_line(cell + 1, length) - grid_line(cell, length)) * sample
        / HASH_SAMPLES as int
}

/// Integer luminance of the pixel at `(x, y)`.
pub open spec fn luma(rgb: Seq<u8>, width: u32, height: u32, x: int, y: int) -> nat {
    let p = (PixelGrid { rgb, width, height }).pixel(x, y);
    ((2126 * p.r + 7152 * p.g + 722 * p.b) / 10_000) as nat
}

/// Luminance of one sample of a cell, both counted row by row.
pub open spec fn sample_luma(rgb: Seq<u8>, width: u32, height: u32, cell: int, sample: int) -> nat {
    luma(
        rgb,
        width,
        height,
        sample_position(cell % 8, sample % 4, width as int),
        sample_position(cell / 8, sample / 4, height as int),
    )
}

/// Sum of the first `count` samples of a cell.
pub open spec fn cell_sum(rgb: Seq<u8>, width: u32, height: u32, cell: int, count: nat) -> nat
    decreases count,
{
    if count == 0 {
        0
    } else {
        cell_sum(rgb, width, height, cell, (count - 1) as nat) + sample_luma(
            rgb,
            width,
            height,
            cell,
            count - 1,
        )
    }
}

/// Mean luminance of a cell.
pub open spec fn cell_mean(rgb: Seq<u8>, width: u32, height: u32, cell: int) -> nat {
    cell_sum(rgb, width, height, cell, 16) / 16
}

/// Sum of the first `count` cell means.
pub open spec fn grid_sum(rgb: Seq<u8>, width: u32, height: u32, count: nat) -> nat
    decreases count,
{
    if count == 0 {
        0
    } else {
        grid_sum(rgb, width, height, (count - 1) as nat) + cell_mean(rgb, width, height, count - 1)
    }
}

/// Whether a cell is at least as bright as the mean of the grid.
pub open spec fn bright_cell(rgb: Seq<u8>, width: u32, height: u32, cell: int) -> bool {
    cell_mean(rgb, width, height, cell) >= grid_sum(rgb, width, height, 64) / 64
}

/// For each cell, row by row, whether it is bright.
pub open spec fn bright_cells(rgb: Seq<u8>, width: u32, height: u32) -> Seq<bool> {
    Seq::new(64, |cell: int| bright_cell(rgb, width, height, cell))
}

/// One for a set binary digit, zero for an unset one.
pub open spec fn digit(set: bool) -> nat {
    if set {
        1
    } else {
        0
    }
}

/// Number with the given binary digits, most significant first.
pub open spec fn binary(digits: Seq<bool>) -> nat
    decreases digits.len(),
{
    if digits.len() == 0 {
        0
    } else {
        2 * binary(digits.drop_last()) + digit(digits.last())
    }
}

/// Average hash of a packed RGB preview; zero when the preview has no 8x8 grid or its buffer
/// is too short.
pub open spec fn frame_hash(rgb: Seq<u8>, width: u32, height: u32) -> nat {
    if width < HASH_GRID || height < HASH_GRID || rgb.len() < width * height * 3 {
        0
    } else {
        binary(bright_cells(rgb, width, height))
    }
}

proof fn lemma_sample_in_frame(cell: int, sample: int, length: int)
    requires
        0 <= cell < 8,
        0 <= sample < 4,
        length >= 8,
    ensures
        0 <= grid_line(cell, length) < grid_line(cell + 1, length) <= length,
        0 <= sample_position(cell, sample, length) < length,
        0 <= cell * length,
        (cell + 1) * length <= 8 * length,
        0 <= (grid_line(cell + 1, length) - grid_line(cell, length)) * sample <= 3 * length,
{
    let lo = grid_line(cell, length);
    let hi = grid_line(cell + 1, length);
    assert((cell + 1) * length == cell * length + length) by (nonlinear_arith);
    assert(0 <= cell * length <= 7 * length) by (nonlinear_arith)
        requires
            0 <= cell <= 7,
            length >= 8,
    ;
    assert(0 <= lo < hi <= length);
    let span = hi - lo;
    assert(0 <= span * sample <= 3 * span) by (nonlinear_arith)
        requires
            0 <= sample <= 3,
            span >= 1,
    ;
}

/// Position of a grid sample along an axis of the preview.
fn sample_at(cell: u32, sample: u32, length: u32) -> (r: u32)
    requires
        cell < 8,
        sample < 4,
        length >= 8,
    ensures
        r == sample_position(cell as int, sample as int, length as int),
        r < length,
{
    proof {
        lemma_sample_in_frame(cell as int, sample as int, length as int);
    }
    let low: u64 = cell as u64 * length as u64 / 8;
    let high: u64 = (cell as u64 + 1) * length as u64 / 8;
    (low + (high - low) * sample as u64 / 4) as u32
}

/// Luminance of the pixel at `(x, y)`.
fn luma_at(rgb: &[u8], width: u32, height: u32, x: u32, y: u32) -> (r: u32)
    requires
        x < width,
        y < height,
        rgb@.len() >= width * height * 3,
    ensures
        r == luma(rgb@, width, height, x as int, y as int),
        r <= 255,
{
    proof {
        crate::state::lemma_pixel_in_buffer(width as int, height as int, x as int, y as int);
    }
    let size: usize = rgb.len();
    let offset: usize = (y as usize * width as usize + x as usize) * 3;
    let red: u32 = rgb[offset] as u32;
    let green: u32 = rgb[offset + 1] as u32;
    let blue: u32 = rgb[offset + 2] as u32;
    (2126 * red + 7152 * green + 722 * blue) / 10_000
}

/// Mean luminance of a cell of the hash grid.
fn mean_of_cell(rgb: &[u8], width: u32, height: u32, cell: u32) -> (r: u32)
    requires
        cell < 64,
        width >= 8,
        height >= 8,
        rgb@.len() >= width * height * 3,
    ensures
        r == cell_mean(rgb@, width, height, cell as int),
        r <= 255,
{
    let mut sum: u32 = 0;
    let mut sample: u32 = 0;
    while sample < 16
        invariant
            cell < 64,
            width >= 8,
            height >= 8,
            rgb@.len() >= width * height * 3,
            sample <= 16,
            sum == cell_sum(rgb@, width, height, cell as int, sample as nat),
            sum <= 255 * sample,
        decreases 16 - sample,
    {
        let x: u32 = sample_at(cell % 8, sample % 4, width);
        let y: u32 = sample_at(cell / 8, sample / 4, height);
        sum = sum + luma_at(rgb, width, height, x, y);
        sample = sample + 1;
    }
    sum / 16
}

/// 64-bit average hash of a packed RGB preview: an 8x8 grid of cell-mean luminances compared
/// against the mean of the grid, most significant bit first by cell index.
///
/// The hash is taken where the pixels are and shipped with them, so consumers compare hashes
/// instead of decoding an image just to find out that nothing moved.
pub fn average_hash(rgb: &[u8], width: u32, height: u32) -> (r: u64)
    ensures
        r == frame_hash(rgb@, width, height),
{
    assert(0 <= width * height <= 0xFFFF_FFFF * 0xFFFF_FFFF) by (nonlinear_arith)
        requires
            0 <= width <= 0xFFFF_FFFF,
            0 <= height <= 0xFFFF_FFFF,
    ;
    if width < HASH_GRID || height < HASH_GRID || (rgb.len() as u128) < width as u128
        * height as u128 * 3 {
        return 0;
    }
    let mut cells: Vec<u32> = Vec::new();
    let mut sum: u32 = 0;
    let mut cell: u32 = 0;
    while cell < 64
        invariant
            width >= 8,
            height >= 8,
            rgb@.len() >= width * height * 3,
            cell <= 64,
            cells@.len() == cell,
            forall|i: int|
                0 <= i < cell ==> cells@[i] == #[trigger] cell_mean(
                    rgb@,
                    width,
                    height,
                    i,
                ),
            sum == grid_sum(rgb@, width, height, cell as nat),
            sum <= 255 * cell,
        decreases 64 - cell,
    {
        let mean: u32 = mean_of_cell(rgb, width, height, cell);
        cells.push(mean);
        sum = sum + mean;
        cell = cell + 1;
    }
    let mean: u32 = sum / 64;
    let ghost bright = bright_cells(rgb@, width, height);
    let mut hash: u64 = 0;
    let mut i: usize = 0;
    proof {
        vstd::arithmetic::power2::lemma2_to64();
    }
    while i < 64
        invariant
            i <= 64,
            cells@.len() == 64,
            forall|i: int|
                0 <= i < 64 ==> cells@[i] == #[trigger] cell_mean(
                    rgb@,
                    width,
                    height,
                    i,
                ),
            mean == grid_sum(rgb@, width, height, 64) / 64,
            bright == bright_cells(rgb@, width, height),
            hash == binary(bright.take(i as int)),
            hash < vstd::arithmetic::power2::pow2(i as nat),
        decreases 64 - i,
    {
        proof {
            vstd::arithmetic::power2::lemma2_to64();
            vstd::arithmetic::power2::lemma_pow2_unfold((i + 1) as nat);
            if i < 63 {
                vstd::arithmetic::power2::lemma_pow2_strictly_increases((i + 1) as nat, 64);
            }
            assert(cells@[i as int] == cell_mean(rgb@, width, height, i as int));
            assert(bright.take(i + 1).drop_last() =~= bright.take(i as int));
            assert(bright.take(i + 1).last() == bright_cell(rgb@, width, height, i as int));
        }
        hash = 2 * hash + if cells[i] >= mean {
            1
        } else {
            0
        };
        i = i + 1;
    }
    assert(bright.take(64) =~= bright);
    hash
}

/// The bit of the hash for a cell, counted from the most significant one, tells whether the
/// cell is at least as bright as the mean of the grid.
pub proof fn law_hash_is_most_significant_bit_first(
    rgb: Seq<u8>,
    width: u32,
    height: u32,
    cell: nat,
)
    requires
        width >= HASH_GRID,
        height >= HASH_GRID,
        rgb.len() >= width * height * 3,
        cell < 64,
    ensures
        frame_hash(rgb, width, height) / vstd::arithmetic::power2::pow2((63 - cell) as nat) % 2
            == digit(bright_cell(rgb, width, height, cell as int)),
{
    lemma_binary_digit(bright_cells(rgb, width, height), cell);
}

/// The digits of a binary number are those it was made of.
#[verifier::spinoff_prover]
proof fn lemma_binary_digit(digits: Seq<bool>, i: nat)
    requires
        i < digits.len(),
    ensures
        binary(digits) / vstd::arithmetic::power2::pow2((digits.len() - 1 - i) as nat) % 2 == digit(
            digits[i as int],
        ),
    decreases digits.len(),
{
    let before = digits.drop_last();
    if i < before.len() {
        lemma_binary_digit(before, i);
        lemma_drop_digit(binary(digits), binary(before), (before.len() - 1 - i) as nat);
    } else {
        vstd::arithmetic::power2::lemma2_to64();
        assert(binary(digits) / 1 == binary(digits));
    }
}

/// Dropping one more binary digit of a number is dropping one digit less of its half.
proof fn lemma_drop_digit(whole: nat, before: nat, shift: nat)
    requires
        2 * before <= whole <= 2 * before + 1,
    ensures
        whole / vstd::arithmetic::power2::pow2(shift + 1) == before
            / vstd::arithmetic::power2::pow2(shift),
{
    vstd::arithmetic::power2::lemma_pow2_pos(shift);
    vstd::arithmetic::power2::lemma_pow2_unfold(shift + 1);
    vstd::arithmetic::div_mod::lemma_div_denominator(
        whole as int,
        2,
        vstd::arithmetic::power2::pow2(shift) as int,
    );
    assert(whole / 2 == before);
}

/// Converts captured frames into previews.
///
/// The receiver is paced by its frame interval and reuses its working buffers.
pub struct CaptureReceiver {
    /// Destination of the downsample, still in the source's four-channel layout.
    preview_rgba: Vec<u8>,
    /// Buffer the next preview is packed into.
    rgb_scratch: Vec<u8>,
    /// Kept across frames so its internal working buffers are allocated once.
    resizer: Resizer,
    /// Minimum time between two converted frames, in nanoseconds.
    frame_interval: u128,
    /// Longest edge of the published preview.
    preview_edge: u32,
    /// When the last frame was converted, in nanoseconds on the caller's clock.
    last_processed: Option<u128>,
}

/// `bytes` cut or, with zeros, extended to a length.
pub open spec fn zero_extended(bytes: Seq<u8>, len: nat) -> Seq<u8> {
    Seq::new(
        len,
        |i: int|
            if i < bytes.len() {
                bytes[i]
            } else {
                0
            },
    )
}

/// What one captured frame turned into.
pub enum Conversion {
    /// The buffer does not hold the whole frame; there is nothing to publish.
    Incomplete,
    /// The preview to publish.
    Preview(FramePayload),
}

impl CaptureReceiver {
    /// The four-channel preview of the last converted frame.
    pub closed spec fn resampled(self) -> Seq<u8> {
        self.preview_rgba@
    }

    /// Contents of the buffer that the next preview is packed into.
    pub closed spec fn scratch(self) -> Seq<u8> {
        self.rgb_scratch@
    }

    /// Longest edge of the previews.
    pub closed spec fn edge(self) -> u32 {
        self.preview_edge
    }

    /// Minimum time between two converted frames.
    pub closed spec fn interval(self) -> u128 {
        self.frame_interval
    }

    /// When the last frame was converted.
    pub closed spec fn last(self) -> Option<u128> {
        self.last_processed
    }

    /// A receiver that has not seen a frame yet.
    pub fn new(preview_edge: u32, frame_interval: u128) -> (r: Self)
        ensures
            r.edge() == preview_edge,
            r.interval() == frame_interval,
            r.last() is None,
            r.resampled() == Seq::<u8>::empty(),
            r.scratch() == Seq::<u8>::empty(),
    {
        CaptureReceiver {
            preview_rgba: Vec::new(),
            rgb_scratch: Vec::new(),
            resizer: Resizer::new(),
            frame_interval,
            preview_edge,
            last_processed: None,
        }
    }

    /// Whether a frame that arrives at `now` is due, and if so marks it as the last one
    /// converted. A clock that steps back counts as no time elapsed.
    pub fn frame_due(&mut self, now: u128) -> (r: bool)
        ensures
            r == match old(self).last() {
                None => true,
                Some(last) => if now >= last {
                    now - last >= old(self).interval()
                } else {
                    old(self).interval() == 0
                },
            },
            final(self).last() == if r {
                Some(now)
            } else {
                old(self).last()
            },
            final(self).edge() == old(self).edge(),
            final(self).interval() == old(self).interval(),
            final(self).resampled() == old(self).resampled(),
            final(self).scratch() == old(self).scratch(),
    {
        if let Some(last) = self.last_processed {
            let elapsed: u128 = if now >= last {
                now - last
            } else {
                0
            };
            if elapsed < self.frame_interval {
                return false;
            }
        }
        self.last_processed = Some(now);
        true
    }

    /// Takes back the pixel buffer of a frame that is no longer published: the next preview is
    /// packed into it.
    pub fn reclaim(&mut self, rgb: Vec<u8>)
        ensures
            final(self).scratch() == rgb@,
            final(self).last() == old(self).last(),
            final(self).edge() == old(self).edge(),
            final(self).interval() == old(self).interval(),
            final(self).resampled() == old(self).resampled(),
    {
        self.rgb_scratch = rgb;
    }

    /// Converts one frame of four-channel pixels without row padding.
    pub fn process_frame(
        &mut self,
        pixels: &[u8],
        source_width: u32,
        source_height: u32,
        swap_red_blue: bool,
    ) -> (r: Result<Conversion, String>)
        requires
            4 * old(self).edge() <= usize::MAX,
        ensures
            final(self).last() == old(self).last(),
            final(self).edge() == old(self).edge(),
            final(self).interval() == old(self).interval(),
            r is Ok,
            r == Ok::<Conversion, String>(Conversion::Incomplete) <==> pixels@.len() < source_width
                * source_height * 4,
            r == Ok::<Conversion, String>(Conversion::Incomplete) ==> {
                &&& final(self).resampled() == old(self).resampled()
                &&& final(self).scratch() == old(self).scratch()
            },
            r matches Ok(Conversion::Preview(_)) ==> final(self).scratch() == Seq::<u8>::empty(),
            r matches Ok(Conversion::Preview(payload)) ==> {
                &&& (payload.width, payload.height) == preview_size(
                    source_width,
                    source_height,
                    old(self).edge(),
                )
                &&& payload.source_width == source_width
                &&& payload.source_height == source_height
                &&& payload.rgb@ == packed(final(self).resampled(), swap_red_blue)
                &&& payload.rgb@.len() == payload.width * payload.height * 3
                &&& payload.hash == frame_hash(payload.rgb@, payload.width, payload.height)
                &&& source_width > 0 && source_height > 0 ==> resampled_from(
                    pixels@.take(source_width * source_height * 4),
                    source_width,
                    source_height,
                    payload.width,
                    payload.height,
                    PREVIEW_FILTER,
                    PREVIEW_USES_ALPHA,
                    final(self).resampled(),
                )
                &&& source_width == 0 || source_height == 0 ==> final(self).resampled()
                    == zero_extended(
                    old(self).resampled(),
                    (payload.width * payload.height * 4) as nat,
                )
                &&& payload.width == source_width && payload.height == source_height
                    ==> final(self).resampled() == pixels@.take(source_width * source_height * 4)
            },
    {
        assert(0 <= source_width * source_height <= 0xFFFF_FFFF * 0xFFFF_FFFF) by (nonlinear_arith)
            requires
                0 <= source_width <= 0xFFFF_FFFF,
                0 <= source_height <= 0xFFFF_FFFF,
        ;
        let expected: u128 = source_width as u128 * source_height as u128 * 4;
        if (pixels.len() as u128) < expected {
            return Ok(Conversion::Incomplete);
        }
        let size: usize = pixels.len();
        let (preview_width, preview_height) = preview_dimensions(
            source_width,
            source_height,
            self.preview_edge,
        );
        proof {
            lemma_preview_len(source_width, source_height, self.preview_edge);
        }
        let expected_len: usize = expected as usize;
        let preview_len: usize = (preview_width as u128 * preview_height as u128 * 4) as usize;
        self.preview_rgba.resize(preview_len, 0);
        assert(self.preview_rgba@ =~= zero_extended(old(self).preview_rgba@, preview_len as nat));
        let source: &[u8] = vstd::slice::slice_subrange(pixels, 0, expected_len);
        let resized: Result<(), String> = resize_rgba(
            &mut self.resizer,
            source,
            source_width,
            source_height,
            &mut self.preview_rgba,
            preview_width,
            preview_height,
            PREVIEW_FILTER,
            PREVIEW_USES_ALPHA,
        );
        if let Err(error) = resized {
            return Err(error);
        }
        // Pack the preview into RGB so an encoder can consume it directly.
        let mut rgb: Vec<u8> = Vec::new();
        std::mem::swap(&mut rgb, &mut self.rgb_scratch);
        pack_rgba_to_rgb(self.preview_rgba.as_slice(), &mut rgb, swap_red_blue);
        let hash: u64 = average_hash(rgb.as_slice(), preview_width, preview_height);
        Ok(
            Conversion::Preview(
                FramePayload {
                    rgb,
                    width: preview_width,
                    height: preview_height,
                    source_width,
                    source_height,
                    hash,
                },
            ),
        )
    }
}

/// A preview has no more pixels than its frame, or is a single line along its edge.
proof fn lemma_preview_len(width: u32, height: u32, preview_edge: u32)
    ensures
        ({
            let (w, h) = preview_size(width, height, preview_edge);
            0 <= w * h && (w * h <= width * height || w * h <= preview_edge)
        }),
{
    let (w, h) = preview_size(width, height, preview_edge);
    assert(0 <= w * h) by (nonlinear_arith)
        requires
            0 <= w,
            0 <= h,
    ;
    if width > preview_edge || height > preview_edge {
        let longest = if width >= height {
            width
        } else {
            height
        };
        let shortest = if width >= height {
            height
        } else {
            width
        };
        if shortest == 0 || preview_edge == 0 {
            assert(scaled_edge(shortest, longest, preview_edge) == 1) by {
                assert(shortest * preview_edge == 0) by (nonlinear_arith)
                    requires
                        shortest == 0 || preview_edge == 0,
                ;
                vstd::arithmetic::div_mod::lemma_div_of0(longest as int);
            }
            assert(w * h == preview_edge) by (nonlinear_arith)
                requires
                    w == preview_edge && h == 1 || w == 1 && h == preview_edge,
            ;
        } else {
            lemma_scaled_edge(shortest, longest, preview_edge);
            assert(w * h <= width * height) by (nonlinear_arith)
                requires
                    0 <= w <= width,
                    0 <= h <= height,
            ;
        }
    }
}

/// Position of the first text that contains `wanted`, or the number of texts.
pub open spec fn first_containing(texts: Seq<Seq<char>>, wanted: Seq<char>) -> nat
    decreases texts.len(),
{
    if texts.len() == 0 || crate::text::contains_text(texts[0], wanted) {
        0
    } else {
        1 + first_containing(texts.skip(1), wanted)
    }
}

/// The lowercase forms of some texts.
pub open spec fn lowercase_forms(texts: Seq<Seq<char>>) -> Seq<Seq<char>> {
    texts.map_values(|text: Seq<char>| crate::text::lowercase_of(text))
}

/// Position of the first title whose lowercase form contains the lowercase form of `wanted`,
/// or the number of titles.
pub open spec fn first_match(titles: Seq<String>, wanted: Seq<char>) -> nat {
    first_containing(
        lowercase_forms(crate::text::texts_of(titles)),
        crate::text::lowercase_of(wanted),
    )
}

/// Finds the first of some texts that contains `wanted`.
pub fn find_containing(texts: &Vec<String>, wanted: &str) -> (r: Option<usize>)
    ensures
        match r {
            Some(index) => index < texts@.len() && index == first_containing(
                crate::text::texts_of(texts@),
                wanted@,
            ),
            None => first_containing(crate::text::texts_of(texts@), wanted@) == texts@.len(),
        },
        match r {
            Some(index) => crate::text::contains_text(texts@[index as int]@, wanted@),
            None => true,
        },
        forall|i: int|
            0 <= i < match r {
                Some(index) => index as int,
                None => texts@.len() as int,
            } ==> !crate::text::contains_text((#[trigger] texts@[i])@, wanted@),
{
    let mut i: usize = 0;
    let ghost all = crate::text::texts_of(texts@);
    assert(all.skip(0) =~= all);
    while i < texts.len()
        invariant
            i <= texts@.len(),
            all == crate::text::texts_of(texts@),
            first_containing(all, wanted@) == i + first_containing(all.skip(i as int), wanted@),
            forall|j: int|
                0 <= j < i ==> !crate::text::contains_text((#[trigger] texts@[j])@, wanted@),
        decreases texts@.len() - i,
    {
        assert(all.skip(i as int)[0] == texts@[i as int]@);
        if text_contains(texts[i].as_str(), wanted) {
            return Some(i);
        }
        assert(all.skip(i as int).skip(1) =~= all.skip(i + 1));
        i = i + 1;
    }
    None
}

/// Why no window is captured: the wanted title in quotes, and the open ones.
pub fn unmatched_window(quoted: &str, titles: &Vec<String>) -> (r: String)
    ensures
        r@ == unmatched_window_text(quoted@, titles@),
{
    let mut error: String = "no window matching ".to_string();
    error.append(quoted);
    error.append(" (open windows: ");
    error.append(join_texts(titles, "; ").as_str());
    error.append(")");
    error
}

/// Text of the error for a window that is not open.
pub open spec fn unmatched_window_text(quoted: Seq<char>, titles: Seq<String>) -> Seq<char> {
    "no window matching "@ + quoted + " (open windows: "@ + crate::text::joined(
        crate::text::texts_of(titles),
        "; "@,
    ) + ")"@
}

/// The window title to look for: the configured one without surrounding white space.
pub fn wanted_window(title: &str) -> (r: Result<String, String>)
    ensures
        match r {
            Ok(wanted) => wanted@ == crate::text::trimmed(title@) && wanted@.len() > 0,
            Err(error) => crate::text::trimmed(title@).len() == 0 && error@
                == "capture.target = \"window\" requires capture.window_name"@,
        },
{
    let wanted: String = trim_text(title);
    if is_empty(wanted.as_str()) {
        Err("capture.target = \"window\" requires capture.window_name".to_string())
    } else {
        Ok(wanted)
    }
}

/// The window to capture.
#[derive(Debug, Clone, Copy, PartialEq, Eq, Structural)]
pub enum WindowChoice {
    /// The window with exactly the wanted title.
    Exact,
    /// The open window at this position.
    Listed(usize),
}

/// Picks the window to capture. A window with exactly the wanted title wins; otherwise it is
/// the first open one whose title contains the text, ignoring case. The error lists the open
/// titles so a typo in the configuration can be fixed on the spot.
pub fn capture_window_by_title(wanted: &str, exact: bool, titles: &Vec<String>) -> (r: Result<
    WindowChoice,
    String,
>)
    ensures
        match r {
            Ok(WindowChoice::Exact) => exact,
            Ok(WindowChoice::Listed(index)) => !exact && index < titles@.len() && index
                == first_match(titles@, wanted@),
            Err(error) => !exact && first_match(titles@, wanted@) == titles@.len() && error@
                == unmatched_window_text(crate::text::debug_of(wanted@), titles@),
        },
        match r {
            Ok(WindowChoice::Listed(index)) => crate::text::contains_text(
                crate::text::lowercase_of(titles@[index as int]@),
                crate::text::lowercase_of(wanted@),
            ),
            _ => true,
        },
        forall|i: int|
            0 <= i < match r {
                Ok(WindowChoice::Exact) => 0,
                Ok(WindowChoice::Listed(index)) => index as int,
                Err(_) => titles@.len() as int,
            } ==> !crate::text::contains_text(
                crate::text::lowercase_of((#[trigger] titles@[i])@),
                crate::text::lowercase_of(wanted@),
            ),
{
    if exact {
        return Ok(WindowChoice::Exact);
    }
    let lowercase: String = wanted.to_lowercase();
    let mut names: Vec<String> = Vec::new();
    let mut i: usize = 0;
    while i < titles.len()
        invariant
            i <= titles@.len(),
            names@.len() == i,
            forall|j: int|
                0 <= j < i ==> (#[trigger] names@[j])@ == crate::text::lowercase_of(titles@[j]@),
        decreases titles@.len() - i,
    {
        names.push(titles[i].as_str().to_lowercase());
        i = i + 1;
    }
    assert(crate::text::texts_of(names@) =~= lowercase_forms(crate::text::texts_of(titles@)));
    match find_containing(&names, lowercase.as_str()) {
        Some(index) => {
            assert forall|i: int| 0 <= i < index implies !crate::text::contains_text(
                crate::text::lowercase_of((#[trigger] titles@[i])@),
                crate::text::lowercase_of(wanted@),
            ) by {
                assert(!crate::text::contains_text(names@[i]@, lowercase@));
            }
            Ok(WindowChoice::Listed(index))
        },
        None => {
            assert forall|i: int| 0 <= i < titles@.len() implies !crate::text::contains_text(
                crate::text::lowercase_of((#[trigger] titles@[i])@),
                crate::text::lowercase_of(wanted@),
            ) by {
                assert(!crate::text::contains_text(names@[i]@, lowercase@));
            }
            Err(unmatched_window(debug_text(wanted).as_str(), titles))
        },
    }
}

} // verus!
