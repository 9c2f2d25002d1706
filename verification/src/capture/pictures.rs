//! What previews, their hashes and the choice of a window say of their inputs.

use vstd::arithmetic::power2::pow2;
use vstd::prelude::*;

use crate::capture::{
    bright_cell, cell_mean, cell_sum, digit, first_containing, frame_hash, grid_line, grid_sum,
    law_hash_is_most_significant_bit_first, packed, preview_size, sample_luma, sample_position,
    scaled_edge,
};
use crate::state::{PixelGrid, RgbPixel};
use crate::text::contains_text;

verus! {

/// Each packed pixel has the colours of the pixel at the same place: the first three bytes of
/// its four, in reverse when red and blue are swapped. None is left out or added.
pub proof fn law_packing_keeps_each_pixel(rgba: Seq<u8>, i: int)
    requires
        0 <= i,
        4 * i + 4 <= rgba.len(),
    ensures
        3 * i + 3 <= packed(rgba, false).len(),
        3 * i + 3 <= packed(rgba, true).len(),
        packed(rgba, false)[3 * i] == rgba[4 * i],
        packed(rgba, false)[3 * i + 1] == rgba[4 * i + 1],
        packed(rgba, false)[3 * i + 2] == rgba[4 * i + 2],
        packed(rgba, true)[3 * i] == rgba[4 * i + 2],
        packed(rgba, true)[3 * i + 1] == rgba[4 * i + 1],
        packed(rgba, true)[3 * i + 2] == rgba[4 * i],
        4 * packed(rgba, false).len() <= 3 * rgba.len() < 4 * packed(rgba, false).len() + 12,
        packed(rgba, true).len() == packed(rgba, false).len(),
{
}

/// The preview's longer edge is the edge that is asked for, along the axis of the frame's own
/// longer edge. The other one is its share of it rounded down, and at least one pixel.
pub proof fn law_previews_keep_the_proportions(width: u32, height: u32, preview_edge: u32)
    requires
        width > preview_edge || height > preview_edge,
    ensures
        ({
            let (w, h) = preview_size(width, height, preview_edge);
            &&& width >= height ==> w == preview_edge && h >= 1 && (h * width <= height
                * preview_edge || h == 1) && height * preview_edge < (h + 1) * width
            &&& width < height ==> h == preview_edge && w >= 1 && (w * height <= width
                * preview_edge || w == 1) && width * preview_edge < (w + 1) * height
        }),
{
    if width >= height {
        lemma_share_of_the_edge(height, width, preview_edge);
    } else {
        lemma_share_of_the_edge(width, height, preview_edge);
    }
}

/// A share of an edge, rounded down.
proof fn lemma_share_of_the_edge(shortest: u32, longest: u32, preview_edge: u32)
    requires
        shortest <= longest,
        longest > 0,
    ensures
        ({
            let r = scaled_edge(shortest, longest, preview_edge);
            &&& r >= 1
            &&& r * longest <= shortest * preview_edge || r == 1
            &&& shortest * preview_edge < (r + 1) * longest
        }),
{
    let product = shortest * preview_edge;
    let scaled = product / longest as int;
    assert(0 <= scaled <= preview_edge && scaled * longest <= product < (scaled + 1) * longest)
        by (nonlinear_arith)
        requires
            product == shortest * preview_edge,
            scaled == product / longest as int,
            0 <= shortest <= longest,
            0 < longest,
            0 <= preview_edge,
    ;
    if scaled < 1 {
        assert((1 + 1) * longest >= (scaled + 1) * longest) by (nonlinear_arith)
            requires
                scaled < 1,
                0 < longest,
        ;
    }
}

/// Every sample of a cell lies between its grid lines.
proof fn lemma_sample_in_cell(cell: int, sample: int, length: int)
    requires
        0 <= cell < 8,
        0 <= sample < 4,
        length >= 8,
    ensures
        0 <= cell * length / 8 <= sample_position(cell, sample, length),
        sample_position(cell, sample, length) < (cell + 1) * length / 8 <= length,
{
    let low = grid_line(cell, length);
    let high = grid_line(cell + 1, length);
    assert((cell + 1) * length == cell * length + length) by (nonlinear_arith);
    assert(0 <= cell * length <= 7 * length) by (nonlinear_arith)
        requires
            0 <= cell <= 7,
            length >= 8,
    ;
    let span = high - low;
    assert(0 <= span * sample <= 3 * span) by (nonlinear_arith)
        requires
            0 <= sample <= 3,
            span >= 1,
    ;
}

/// Whether every pixel of a cell of the eight by eight grid is the same grey.
pub open spec fn painted(pixels: PixelGrid, cell: int, level: u8) -> bool {
    forall|x: int, y: int|
        cell % 8 * pixels.width / 8 <= x < (cell % 8 + 1) * pixels.width / 8 && cell / 8
            * pixels.height / 8 <= y < (cell / 8 + 1) * pixels.height / 8 ==> #[trigger]
        pixels.pixel(x, y) == (RgbPixel { r: level, g: level, b: level })
}

/// The samples of a painted cell add up to its level.
proof fn lemma_painted_sum(
    rgb: Seq<u8>,
    width: u32,
    height: u32,
    cell: int,
    level: u8,
    count: nat,
)
    requires
        0 <= cell < 64,
        width >= 8,
        height >= 8,
        painted((PixelGrid { rgb, width, height }), cell, level),
        count <= 16,
    ensures
        cell_sum(rgb, width, height, cell, count) == count * level,
    decreases count,
{
    if count > 0 {
        let sample = count - 1;
        lemma_painted_sum(rgb, width, height, cell, level, sample as nat);
        lemma_sample_in_cell(cell % 8, sample % 4, width as int);
        lemma_sample_in_cell(cell / 8, sample / 4, height as int);
        let x = sample_position(cell % 8, sample % 4, width as int);
        let y = sample_position(cell / 8, sample / 4, height as int);
        let p = (PixelGrid { rgb, width, height }).pixel(x, y);
        assert(p == (RgbPixel { r: level, g: level, b: level }));
        assert(sample_luma(rgb, width, height, cell, sample) == level);
        assert(count * level == sample * level + level) by (nonlinear_arith)
            requires
                sample == count - 1,
        ;
    }
}

/// The means of a grid painted dark and bright, added up.
proof fn lemma_painted_grid(
    rgb: Seq<u8>,
    width: u32,
    height: u32,
    pattern: Seq<bool>,
    dark: u8,
    bright: u8,
    count: nat,
)
    requires
        width >= 8,
        height >= 8,
        pattern.len() == 64,
        dark + 64 <= bright,
        forall|cell: int|
            0 <= cell < 64 ==> painted(
                (PixelGrid { rgb, width, height }),
                cell,
                if #[trigger] pattern[cell] {
                    bright
                } else {
                    dark
                },
            ),
        count <= 64,
    ensures
        count * dark <= grid_sum(rgb, width, height, count) <= count * bright,
        (exists|cell: int| 0 <= cell < count && #[trigger] pattern[cell]) ==> count * dark + 64
            <= grid_sum(rgb, width, height, count),
        forall|cell: int|
            0 <= cell < count ==> #[trigger] cell_mean(rgb, width, height, cell) == if pattern[cell] {
                bright
            } else {
                dark
            },
    decreases count,
{
    if count > 0 {
        let cell = count - 1;
        let level = if pattern[cell] {
            bright
        } else {
            dark
        };
        lemma_painted_grid(rgb, width, height, pattern, dark, bright, cell as nat);
        lemma_painted_sum(rgb, width, height, cell, level, 16);
        assert(cell_mean(rgb, width, height, cell) == level);
        assert(count * dark == cell * dark + dark) by (nonlinear_arith)
            requires
                cell == count - 1,
        ;
        assert(count * bright == cell * bright + bright) by (nonlinear_arith)
            requires
                cell == count - 1,
        ;
        if exists|c: int| 0 <= c < count && #[trigger] pattern[c] {
            let c = choose|c: int| 0 <= c < count && #[trigger] pattern[c];
            if c < cell {
                assert(exists|c: int| 0 <= c < cell && #[trigger] pattern[c]);
            }
        }
    }
}

/// A frame whose cells are painted dark and bright shows that pattern in its hash, row by row
/// from the most significant bit: the bit of a cell is set exactly where the cell is bright.
/// The two greys are at least 64 levels apart and there is a bright cell.
pub proof fn law_hashes_show_the_painted_pattern(
    rgb: Seq<u8>,
    width: u32,
    height: u32,
    pattern: Seq<bool>,
    dark: u8,
    bright: u8,
    cell: int,
)
    requires
        width >= 8,
        height >= 8,
        rgb.len() >= width * height * 3,
        pattern.len() == 64,
        pattern.contains(true),
        dark + 64 <= bright,
        forall|cell: int|
            0 <= cell < 64 ==> painted(
                (PixelGrid { rgb, width, height }),
                cell,
                if #[trigger] pattern[cell] {
                    bright
                } else {
                    dark
                },
            ),
        0 <= cell < 64,
    ensures
        frame_hash(rgb, width, height) / pow2((63 - cell) as nat) % 2 == if pattern[cell] {
            1nat
        } else {
            0nat
        },
{
    let lit = choose|lit: int| 0 <= lit < 64 && pattern[lit] == true;
    assert(pattern[lit]);
    lemma_painted_grid(rgb, width, height, pattern, dark, bright, 64);
    assert(cell_mean(rgb, width, height, cell) == if pattern[cell] {
        bright
    } else {
        dark
    });
    law_hash_is_most_significant_bit_first(rgb, width, height, cell as nat);
}

/// A frame of one grey sets every bit of its hash.
pub proof fn law_plain_frames_set_every_bit(
    rgb: Seq<u8>,
    width: u32,
    height: u32,
    level: u8,
    cell: int,
)
    requires
        width >= 8,
        height >= 8,
        rgb.len() >= width * height * 3,
        forall|cell: int|
            0 <= cell < 64 ==> #[trigger] painted(
                (PixelGrid { rgb, width, height }),
                cell,
                level,
            ),
        0 <= cell < 64,
    ensures
        frame_hash(rgb, width, height) / pow2((63 - cell) as nat) % 2 == 1,
{
    lemma_plain_grid(rgb, width, height, level, 64);
    assert(painted((PixelGrid { rgb, width, height }), cell, level));
    lemma_painted_sum(rgb, width, height, cell, level, 16);
    law_hash_is_most_significant_bit_first(rgb, width, height, cell as nat);
}

/// The means of a grid of one grey, added up.
proof fn lemma_plain_grid(rgb: Seq<u8>, width: u32, height: u32, level: u8, count: nat)
    requires
        width >= 8,
        height >= 8,
        forall|cell: int|
            0 <= cell < 64 ==> #[trigger] painted(
                (PixelGrid { rgb, width, height }),
                cell,
                level,
            ),
        count <= 64,
    ensures
        grid_sum(rgb, width, height, count) == count * level,
    decreases count,
{
    if count > 0 {
        lemma_plain_grid(rgb, width, height, level, (count - 1) as nat);
        assert(painted((PixelGrid { rgb, width, height }), count - 1, level));
        lemma_painted_sum(rgb, width, height, count - 1, level, 16);
        assert(count * level == (count - 1) * level + level) by (nonlinear_arith);
    }
}

/// A search finds a text that contains the wanted one with no such text before it, or there is
/// none at all.
pub proof fn law_searches_find_the_first_match(texts: Seq<Seq<char>>, wanted: Seq<char>)
    ensures
        first_containing(texts, wanted) <= texts.len(),
        first_containing(texts, wanted) < texts.len() ==> contains_text(
            texts[first_containing(texts, wanted) as int],
            wanted,
        ),
        forall|i: int|
            0 <= i < first_containing(texts, wanted) ==> !contains_text(
                #[trigger] texts[i],
                wanted,
            ),
    decreases texts.len(),
{
    if texts.len() > 0 && !contains_text(texts[0], wanted) {
        let rest = texts.skip(1);
        law_searches_find_the_first_match(rest, wanted);
        assert forall|i: int| 0 <= i < first_containing(texts, wanted) implies !contains_text(
            #[trigger] texts[i],
            wanted,
        ) by {
            if i > 0 {
                assert(rest[i - 1] == texts[i]);
            }
        }
    }
}

} // verus!
