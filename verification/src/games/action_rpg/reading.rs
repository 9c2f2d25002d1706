//! What a reading says of the pixels of a frame: which columns of which rows each metric comes
//! from, and which colours count.

use vstd::arithmetic::power2::pow2;
use vstd::prelude::*;
use vstd::set_lib::set_int_range;

use crate::config::AspectRatio;
use crate::games::action_rpg::{
    accepted, bar_percent, combat_strip_end, end_column, first_column, layout_in, reference_box,
    strip_count, strip_start, ActionRPG, Layout, PixelRule, BLUE_WEIGHT, GREEN_WEIGHT, RED_WEIGHT,
};
use crate::games::{GameProfile, Resolution};
use crate::rounding::{
    gap, law_layout_scales_in_proportion, law_lengths_are_divided_by_the_ratio,
    law_reference_resolution_keeps_the_layout, lemma_round_bits_gap, scaled_coordinate, single,
};
use crate::state::{GameMetrics, PixelGrid, RgbPixel};

verus! {

/// A count of accepted pixels is the number of columns whose pixel is accepted.
proof fn lemma_accepted_columns(pixels: PixelGrid, rule: PixelRule, start: int, end: int, y: int)
    ensures
        set_int_range(start, end).filter(|x: int| rule.accepts(pixels.pixel(x, y))).finite(),
        accepted(pixels, rule, start, end, y) == set_int_range(start, end).filter(
            |x: int| rule.accepts(pixels.pixel(x, y)),
        ).len(),
    decreases end - start,
{
    let lit = |x: int| rule.accepts(pixels.pixel(x, y));
    let all = set_int_range(start, end).filter(lit);
    if end <= start {
        assert(all =~= Set::<int>::empty());
    } else {
        let fewer = set_int_range(start, end - 1).filter(lit);
        lemma_accepted_columns(pixels, rule, start, end - 1, y);
        if lit(end - 1) {
            assert(all =~= fewer.insert(end - 1));
        } else {
            assert(all =~= fewer);
        }
    }
}

/// A design position within the first fifteen sixteenths of the design lies within the box it
/// is scaled to, at the pixel nearest to its share of the edge, and within the first half of
/// the design short of the far edge.
proof fn lemma_scaled_design(value: u32, length: u32, design: u32)
    requires
        16 * value <= 15 * design,
        0 < design <= 0x1000,
        0 < length < 0x40_0000,
    ensures
        ({
            let r = scaled_coordinate(value as nat, length as nat, design as nat);
            &&& r <= length
            &&& 16 * value <= 7 * design ==> r < length
            &&& 0x20_0000 * gap(r * design, value * length) <= 0x10_0000 * design + value * length
        }),
{
    let r = scaled_coordinate(value as nat, length as nat, design as nat) as int;
    law_layout_scales_in_proportion(value, length, design);
    let share = value * length;
    let whole = design * length;
    assert(16 * share <= 15 * whole) by (nonlinear_arith)
        requires
            16 * value <= 15 * design,
            share == value * length,
            whole == design * length,
    ;
    assert(2 * (r * design) <= 2 * whole + design);
    assert(r <= length) by (nonlinear_arith)
        requires
            r * design < design * length + design,
            design > 0,
    ;
    if 16 * value <= 7 * design {
        assert(16 * share <= 7 * whole) by (nonlinear_arith)
            requires
                16 * value <= 7 * design,
                share == value * length,
                whole == design * length,
        ;
        assert(whole >= design) by (nonlinear_arith)
            requires
                whole == design * length,
                length >= 1,
        ;
        assert(r < length) by (nonlinear_arith)
            requires
                r * design < design * length,
                design > 0,
        ;
    }
}

/// In every reference box, each position of the layout stands at its own place of the design:
/// the pixel nearest to its share of the box's edge, up to one part in two million. At the
/// reference resolution a frame is read right there.
pub proof fn law_layout_positions_stand_at_their_design_places(reference: Resolution)
    requires
        0 < reference.width < 0x40_0000,
        0 < reference.height < 0x40_0000,
    ensures
        ({
            let l = layout_in(reference);
            let w = reference.width as int;
            let h = reference.height as int;
            &&& l.reference == reference
            &&& 0x20_0000 * gap(l.bar_left * 1920, 830 * w) <= 0x10_0000 * 1920 + 830 * w
            &&& 0x20_0000 * gap(l.bar_right * 1920, 1124 * w) <= 0x10_0000 * 1920 + 1124 * w
            &&& 0x20_0000 * gap(l.q_icon_x * 1920, 1316 * w) <= 0x10_0000 * 1920 + 1316 * w
            &&& 0x20_0000 * gap(l.r_icon_x * 1920, 1386 * w) <= 0x10_0000 * 1920 + 1386 * w
            &&& 0x20_0000 * gap(l.f_icon_x * 1920, 1457 * w) <= 0x10_0000 * 1920 + 1457 * w
            &&& 0x20_0000 * gap(l.g_icon_x * 1920, 1539 * w) <= 0x10_0000 * 1920 + 1539 * w
            &&& 0x20_0000 * gap(l.combat_icon_x * 1920, 812 * w) <= 0x10_0000 * 1920 + 812 * w
            &&& 0x20_0000 * gap(l.stamina_bar_y * 1080, 966 * h) <= 0x10_0000 * 1080 + 966 * h
            &&& 0x20_0000 * gap(l.health_bar_y * 1080, 982 * h) <= 0x10_0000 * 1080 + 982 * h
            &&& 0x20_0000 * gap(l.ability_icon_y * 1080, 984 * h) <= 0x10_0000 * 1080 + 984 * h
            &&& 0x20_0000 * gap(l.combat_icon_y * 1080, 990 * h) <= 0x10_0000 * 1080 + 990 * h
            &&& l.bar_left < w && l.bar_right <= w
            &&& l.across(l.bar_left, reference) == l.bar_left
            &&& l.across(l.bar_right, reference) == l.bar_right
            &&& l.across(l.q_icon_x, reference) == l.q_icon_x
            &&& l.across(l.r_icon_x, reference) == l.r_icon_x
            &&& l.across(l.f_icon_x, reference) == l.f_icon_x
            &&& l.across(l.g_icon_x, reference) == l.g_icon_x
            &&& l.across(l.combat_icon_x, reference) == l.combat_icon_x
            &&& l.down(l.stamina_bar_y, reference) == l.stamina_bar_y
            &&& l.down(l.health_bar_y, reference) == l.health_bar_y
            &&& l.down(l.ability_icon_y, reference) == l.ability_icon_y
            &&& l.down(l.combat_icon_y, reference) == l.combat_icon_y
        }),
{
    let l = layout_in(reference);
    let w = reference.width;
    let h = reference.height;
    lemma_scaled_design(830, w, 1920);
    lemma_scaled_design(1124, w, 1920);
    lemma_scaled_design(1316, w, 1920);
    lemma_scaled_design(1386, w, 1920);
    lemma_scaled_design(1457, w, 1920);
    lemma_scaled_design(1539, w, 1920);
    lemma_scaled_design(812, w, 1920);
    lemma_scaled_design(966, h, 1080);
    lemma_scaled_design(982, h, 1080);
    lemma_scaled_design(984, h, 1080);
    lemma_scaled_design(990, h, 1080);
    law_reference_resolution_keeps_the_layout(l.bar_left, w);
    law_reference_resolution_keeps_the_layout(l.bar_right, w);
    law_reference_resolution_keeps_the_layout(l.q_icon_x, w);
    law_reference_resolution_keeps_the_layout(l.r_icon_x, w);
    law_reference_resolution_keeps_the_layout(l.f_icon_x, w);
    law_reference_resolution_keeps_the_layout(l.g_icon_x, w);
    law_reference_resolution_keeps_the_layout(l.combat_icon_x, w);
    law_reference_resolution_keeps_the_layout(l.stamina_bar_y, h);
    law_reference_resolution_keeps_the_layout(l.health_bar_y, h);
    law_reference_resolution_keeps_the_layout(l.ability_icon_y, h);
    law_reference_resolution_keeps_the_layout(l.combat_icon_y, h);
}

/// At any other resolution a position of the layout keeps its share of the frame's edges, up to
/// half a pixel and one part in two million.
pub proof fn law_layout_positions_keep_their_share_of_the_frame(
    layout: Layout,
    x: u32,
    y: u32,
    resolution: Resolution,
)
    requires
        layout.reference.width > 0,
        layout.reference.height > 0,
    ensures
        layout.across(x, resolution) < u32::MAX ==> 0x20_0000 * gap(
            layout.across(x, resolution) * layout.reference.width,
            x * resolution.width,
        ) <= 0x10_0000 * layout.reference.width + x * resolution.width,
        layout.down(y, resolution) < u32::MAX ==> 0x20_0000 * gap(
            layout.down(y, resolution) * layout.reference.height,
            y * resolution.height,
        ) <= 0x10_0000 * layout.reference.height + y * resolution.height,
        x <= layout.reference.width && resolution.width < 0x40_0000 ==> layout.across(x, resolution)
            <= resolution.width + 2,
        y <= layout.reference.height && resolution.height < 0x40_0000 ==> layout.down(y, resolution)
            <= resolution.height + 2,
{
    law_layout_scales_in_proportion(x, resolution.width, layout.reference.width);
    law_layout_scales_in_proportion(y, resolution.height, layout.reference.height);
    if x <= layout.reference.width && resolution.width < 0x40_0000 {
        lemma_share_of_the_edge(x as int, resolution.width as int, layout.reference.width as int);
    }
    if y <= layout.reference.height && resolution.height < 0x40_0000 {
        lemma_share_of_the_edge(y as int, resolution.height as int, layout.reference.height as int);
    }
}

/// A position within the reference box is scaled to one within the frame, but for rounding.
proof fn lemma_share_of_the_edge(value: int, to: int, from: int)
    requires
        0 <= value <= from <= u32::MAX,
        0 < from,
        0 <= to < 0x40_0000,
    ensures
        scaled_coordinate(value as nat, to as nat, from as nat) <= to + 2,
{
    law_layout_scales_in_proportion(value as u32, to as u32, from as u32);
    let r = scaled_coordinate(value as nat, to as nat, from as nat) as int;
    assert(value * to <= from * to) by (nonlinear_arith)
        requires
            0 <= value <= from,
            0 <= to,
    ;
    assert(r <= to + 2) by (nonlinear_arith)
        requires
            0x20_0000 * (r * from - value * to) <= 0x10_0000 * from + value * to,
            value * to <= from * to,
            0 <= to < 0x40_0000,
            from > 0,
    ;
}

/// A strip of a frame, centered on a column that is not far out of it, counts the accepted
/// pixels of its row that stand within half a strip of the center.
proof fn lemma_strip_columns(
    pixels: PixelGrid,
    rule: PixelRule,
    center: u32,
    half_width: u32,
    end: u32,
    y: u32,
)
    requires
        0 < pixels.width,
        half_width > 2,
        center <= pixels.width + 2,
        end <= center + half_width,
    ensures
        ({
            let columns = set_int_range(0, pixels.width as int).filter(
                |x: int|
                    center - half_width <= x < end && rule.accepts(pixels.pixel(x, y as int)),
            );
            &&& columns.finite()
            &&& strip_count(pixels, rule, strip_start(center, half_width), end, y) == if y
                < pixels.height {
                columns.len()
            } else {
                0
            }
        }),
{
    let start = strip_start(center, half_width);
    let columns = set_int_range(0, pixels.width as int).filter(
        |x: int| center - half_width <= x < end && rule.accepts(pixels.pixel(x, y as int)),
    );
    let first = first_column(pixels, start);
    let last = end_column(pixels, end);
    lemma_accepted_columns(pixels, rule, first, last, y as int);
    assert(columns =~= set_int_range(first, last).filter(
        |x: int| rule.accepts(pixels.pixel(x, y as int)),
    ));
}

/// The columns within thirty of a center.
proof fn lemma_same_columns(pixels: PixelGrid, center: u32, row: u32)
    requires
        center + 30 <= u32::MAX,
    ensures
        set_int_range(0, pixels.width as int).filter(
            |x: int|
                center - 30 <= x < center + 30 && PixelRule::LitIcon.accepts(
                    pixels.pixel(x, row as int),
                ),
        ) =~= set_int_range(0, pixels.width as int).filter(
            |x: int|
                center - 30 <= x < (center + 30) as u32 && PixelRule::LitIcon.accepts(
                    pixels.pixel(x, row as int),
                ),
        ),
{
}

/// Each ability flag depends on its own icon: it is set exactly when at least four lit pixels
/// stand in the ability row within thirty columns of that icon's place. The combat flag is set
/// exactly when at least three red pixels stand in its own row within fourteen columns of its
/// place and left of the bars.
pub proof fn law_each_flag_depends_on_its_own_icon(
    game: ActionRPG,
    reference: Resolution,
    pixels: PixelGrid,
    resolution: Resolution,
    metrics: GameMetrics,
)
    requires
        game.reads(pixels, resolution, metrics),
        game.layout() == layout_in(reference),
        0 < reference.width < 0x40_0000,
        0 < reference.height < 0x40_0000,
        0 < pixels.width < 0x40_0000,
        pixels.width == resolution.width,
        pixels.height == resolution.height,
    ensures
        ({
            let l = game.layout();
            let w = pixels.width as int;
            let row = l.down(l.ability_icon_y, resolution) as int;
            let combat_row = l.down(l.combat_icon_y, resolution) as int;
            let q = l.across(l.q_icon_x, resolution);
            let r = l.across(l.r_icon_x, resolution);
            let f = l.across(l.f_icon_x, resolution);
            let g = l.across(l.g_icon_x, resolution);
            let swords = l.across(l.combat_icon_x, resolution);
            let left = l.across(l.bar_left, resolution);
            &&& metrics.q_ready <==> row < pixels.height && set_int_range(0, w).filter(
                |x: int|
                    q - 30 <= x < q + 30 && PixelRule::LitIcon.accepts(pixels.pixel(x, row)),
            ).len() >= 4
            &&& metrics.r_ready <==> row < pixels.height && set_int_range(0, w).filter(
                |x: int|
                    r - 30 <= x < r + 30 && PixelRule::LitIcon.accepts(pixels.pixel(x, row)),
            ).len() >= 4
            &&& metrics.f_ready <==> row < pixels.height && set_int_range(0, w).filter(
                |x: int|
                    f - 30 <= x < f + 30 && PixelRule::LitIcon.accepts(pixels.pixel(x, row)),
            ).len() >= 4
            &&& metrics.g_ready <==> row < pixels.height && set_int_range(0, w).filter(
                |x: int|
                    g - 30 <= x < g + 30 && PixelRule::LitIcon.accepts(pixels.pixel(x, row)),
            ).len() >= 4
            &&& metrics.in_combat <==> combat_row < pixels.height && set_int_range(0, w).filter(
                |x: int|
                    swords - 14 <= x < swords + 14 && x < left && PixelRule::CombatRed.accepts(
                        pixels.pixel(x, combat_row),
                    ),
            ).len() >= 3
        }),
{
    let l = game.layout();
    let w = pixels.width as int;
    let row = l.down(l.ability_icon_y, resolution);
    let combat_row = l.down(l.combat_icon_y, resolution);
    let q = l.across(l.q_icon_x, resolution);
    let r = l.across(l.r_icon_x, resolution);
    let f = l.across(l.f_icon_x, resolution);
    let g = l.across(l.g_icon_x, resolution);
    let swords = l.across(l.combat_icon_x, resolution);
    let left = l.across(l.bar_left, resolution);
    lemma_scaled_design(1316, reference.width, 1920);
    lemma_scaled_design(1386, reference.width, 1920);
    lemma_scaled_design(1457, reference.width, 1920);
    lemma_scaled_design(1539, reference.width, 1920);
    lemma_scaled_design(812, reference.width, 1920);
    law_layout_positions_keep_their_share_of_the_frame(l, l.q_icon_x, 0, resolution);
    law_layout_positions_keep_their_share_of_the_frame(l, l.r_icon_x, 0, resolution);
    law_layout_positions_keep_their_share_of_the_frame(l, l.f_icon_x, 0, resolution);
    law_layout_positions_keep_their_share_of_the_frame(l, l.g_icon_x, 0, resolution);
    law_layout_positions_keep_their_share_of_the_frame(l, l.combat_icon_x, 0, resolution);
    lemma_strip_columns(pixels, PixelRule::LitIcon, q, 30, (q + 30) as u32, row);
    lemma_strip_columns(pixels, PixelRule::LitIcon, r, 30, (r + 30) as u32, row);
    lemma_strip_columns(pixels, PixelRule::LitIcon, f, 30, (f + 30) as u32, row);
    lemma_strip_columns(pixels, PixelRule::LitIcon, g, 30, (g + 30) as u32, row);
    let end = combat_strip_end(swords, left);
    lemma_strip_columns(pixels, PixelRule::CombatRed, swords, 14, end, combat_row);
    assert(set_int_range(0, w).filter(
        |x: int|
            swords - 14 <= x < swords + 14 && x < left && PixelRule::CombatRed.accepts(
                pixels.pixel(x, combat_row as int),
            ),
    ) =~= set_int_range(0, w).filter(
        |x: int|
            swords - 14 <= x < end && PixelRule::CombatRed.accepts(
                pixels.pixel(x, combat_row as int),
            ),
    ));
    lemma_same_columns(pixels, q, row);
    lemma_same_columns(pixels, r, row);
    lemma_same_columns(pixels, f, row);
    lemma_same_columns(pixels, g, row);
}

/// Fill of a bar as a share of its columns.
proof fn lemma_bar_columns(
    pixels: PixelGrid,
    rule: PixelRule,
    left: u32,
    right: u32,
    y: u32,
)
    requires
        left < pixels.width,
        right <= pixels.width,
    ensures
        ({
            let total = right - left;
            let filled = set_int_range(left as int, right as int).filter(
                |x: int| rule.accepts(pixels.pixel(x, y as int)),
            ).len();
            let percent = bar_percent(pixels, rule, left, right, y);
            &&& y < pixels.height && left < right ==> percent * total <= 100 * filled < (percent
                + 1) * total
            &&& y >= pixels.height || right <= left ==> percent == -1
        }),
{
    if y < pixels.height && left < right {
        let total = right - left;
        let matched = accepted(pixels, rule, left as int, right as int, y as int) as int;
        lemma_accepted_columns(pixels, rule, left as int, right as int, y as int);
        let percent = matched * 100 / total;
        assert(percent * total <= 100 * matched < (percent + 1) * total) by (nonlinear_arith)
            requires
                percent == matched * 100 / total,
                total > 0,
        ;
    }
}

/// Each bar is read along its own row, between the two ends of the bars: its value is the whole
/// percentage of the columns whose pixel has the bar's own fill colour, and unknown when there
/// is nothing to read.
pub proof fn law_each_bar_is_the_filled_share_of_its_own_row(
    game: ActionRPG,
    pixels: PixelGrid,
    resolution: Resolution,
    metrics: GameMetrics,
)
    requires
        game.reads(pixels, resolution, metrics),
        game.layout().across(game.layout().bar_left, resolution) < pixels.width,
        game.layout().across(game.layout().bar_right, resolution) <= pixels.width,
    ensures
        ({
            let l = game.layout();
            let left = l.across(l.bar_left, resolution);
            let right = l.across(l.bar_right, resolution);
            let total = right - left;
            let health_row = l.down(l.health_bar_y, resolution);
            let stamina_row = l.down(l.stamina_bar_y, resolution);
            let healthy = set_int_range(left as int, right as int).filter(
                |x: int| PixelRule::HealthFill.accepts(pixels.pixel(x, health_row as int)),
            ).len();
            let rested = set_int_range(left as int, right as int).filter(
                |x: int| PixelRule::StaminaFill.accepts(pixels.pixel(x, stamina_row as int)),
            ).len();
            &&& health_row < pixels.height && left < right ==> metrics.player_hp * total <= 100
                * healthy < (metrics.player_hp + 1) * total
            &&& stamina_row < pixels.height && left < right ==> metrics.stamina * total <= 100
                * rested < (metrics.stamina + 1) * total
            &&& health_row >= pixels.height || right <= left ==> metrics.player_hp == -1
            &&& stamina_row >= pixels.height || right <= left ==> metrics.stamina == -1
        }),
{
    let l = game.layout();
    let left = l.across(l.bar_left, resolution);
    let right = l.across(l.bar_right, resolution);
    lemma_bar_columns(
        pixels,
        PixelRule::HealthFill,
        left,
        right,
        l.down(l.health_bar_y, resolution),
    );
    lemma_bar_columns(
        pixels,
        PixelRule::StaminaFill,
        left,
        right,
        l.down(l.stamina_bar_y, resolution),
    );
}

/// A pixel is lit when its weighted brightness, 21.26 percent red, 71.52 percent green and 7.22
/// percent blue, is above 170, it is more than 100 blue, and its blue is above two fifths of its
/// red. At a brightness of exactly 170 the rounding decides.
pub proof fn law_lit_pixels_are_bright_and_not_amber(p: RgbPixel)
    ensures
        ({
            let brightness = 2126 * p.r + 7152 * p.g + 722 * p.b;
            &&& PixelRule::LitIcon.accepts(p) ==> brightness >= 1_700_000 && p.b > 100 && 5 * p.b
                > 2 * p.r
            &&& brightness > 1_700_000 && p.b > 100 && 5 * p.b > 2 * p.r
                ==> PixelRule::LitIcon.accepts(p)
        }),
{
    vstd::arithmetic::power2::lemma2_to64();
    let red = (RED_WEIGHT * p.r) as nat;
    let green = (GREEN_WEIGHT * p.g) as nat;
    let blue = (BLUE_WEIGHT * p.b) as nat;
    lemma_round_bits_gap(red, 24);
    lemma_round_bits_gap(green, 24);
    lemma_round_bits_gap(blue, 24);
    lemma_round_bits_gap(single(red) + single(green), 24);
    lemma_round_bits_gap(single(single(red) + single(green)) + single(blue), 24);
}

/// The fill of a health bar is red, yellow or white, the fill of a stamina bar yellow, and a lit
/// combat indicator red. A pixel of these colours keeps its colour when it gets redder.
pub proof fn law_bar_and_combat_colours(p: RgbPixel, redder: RgbPixel)
    requires
        redder.r >= p.r,
        redder.g == p.g,
        redder.b == p.b,
    ensures
        PixelRule::StaminaFill.accepts(p) ==> PixelRule::HealthFill.accepts(p),
        p.r > 150 && PixelRule::CombatRed.accepts(p) ==> PixelRule::HealthFill.accepts(p),
        PixelRule::HealthFill.accepts(p) ==> PixelRule::HealthFill.accepts(redder),
        PixelRule::StaminaFill.accepts(p) ==> PixelRule::StaminaFill.accepts(redder),
        PixelRule::CombatRed.accepts(p) ==> PixelRule::CombatRed.accepts(redder),
        p.g < 80 && p.b < 80 ==> (PixelRule::CombatRed.accepts(p) <==> p.r >= 141),
        p.g < 80 && p.b < 80 ==> (PixelRule::HealthFill.accepts(p) <==> p.r >= 151),
        p.g >= 80 || p.b >= 80 ==> !PixelRule::CombatRed.accepts(p),
        p.b < 130 && p.g >= 80 ==> (PixelRule::HealthFill.accepts(p) <==> p.r >= 171 && p.g
            >= 151),
        p.b < 130 ==> (PixelRule::StaminaFill.accepts(p) <==> p.r >= 171 && p.g >= 151),
        p.b >= 130 ==> !PixelRule::StaminaFill.accepts(p),
        p.b >= 130 ==> (PixelRule::HealthFill.accepts(p) <==> p.r >= 171 && p.g >= 171 && p.b
            >= 171),
        p.g < 80 && p.b >= 80 ==> !PixelRule::HealthFill.accepts(p),
{
}

/// The pixel that is clearly the nearest to a place of the design is the only one that is.
proof fn lemma_nearest_place(column: int, position: int, place: int, length: int, design: int)
    requires
        0 < design,
        0 <= place * length,
        0x20_0000 * gap(column * design, place * length) < 0x10_0000 * design - place * length,
        0x20_0000 * gap(position * design, place * length) <= 0x10_0000 * design + place * length,
    ensures
        column == position,
{
    assert(column == position) by (nonlinear_arith)
        requires
            0 < design,
            column * design - position * design < design,
            position * design - column * design < design,
    ;
}

/// At the reference resolution an ability is ready exactly when at least four lit pixels stand
/// in the ability row within thirty columns of the ability's own place: the column nearest to
/// 1316 of 1920 for Q, 1386 for R, 1457 for F and 1539 for G, in the row nearest to 984 of 1080.
/// A frame without a lit pixel there never reports it as ready.
pub proof fn law_ready_abilities_are_lit_at_their_own_place(
    game: ActionRPG,
    reference: Resolution,
    pixels: PixelGrid,
    metrics: GameMetrics,
    place: int,
    column: int,
    row: int,
)
    requires
        game.reads(pixels, reference, metrics),
        game.layout() == layout_in(reference),
        0 < reference.width < 0x40_0000,
        0 < reference.height < 0x40_0000,
        pixels.width == reference.width,
        pixels.height == reference.height,
        place == 1316 || place == 1386 || place == 1457 || place == 1539,
        0x20_0000 * gap(column * 1920, place * reference.width) < 0x10_0000 * 1920 - place
            * reference.width,
        0x20_0000 * gap(row * 1080, 984 * reference.height) < 0x10_0000 * 1080 - 984
            * reference.height,
    ensures
        ({
            let ready = if place == 1316 {
                metrics.q_ready
            } else if place == 1386 {
                metrics.r_ready
            } else if place == 1457 {
                metrics.f_ready
            } else {
                metrics.g_ready
            };
            let lit = set_int_range(0, pixels.width as int).filter(
                |x: int|
                    column - 30 <= x < column + 30 && PixelRule::LitIcon.accepts(
                        pixels.pixel(x, row),
                    ),
            );
            &&& ready <==> row < pixels.height && lit.len() >= 4
            &&& (forall|x: int|
                column - 30 <= x < column + 30 ==> !PixelRule::LitIcon.accepts(
                    #[trigger] pixels.pixel(x, row),
                )) ==> !ready
        }),
{
    let l = layout_in(reference);
    let w = reference.width as int;
    law_layout_positions_stand_at_their_design_places(reference);
    law_each_flag_depends_on_its_own_icon(game, reference, pixels, reference, metrics);
    lemma_nearest_place(row, l.ability_icon_y as int, 984, reference.height as int, 1080);
    if place == 1316 {
        lemma_nearest_place(column, l.q_icon_x as int, place, w, 1920);
    } else if place == 1386 {
        lemma_nearest_place(column, l.r_icon_x as int, place, w, 1920);
    } else if place == 1457 {
        lemma_nearest_place(column, l.f_icon_x as int, place, w, 1920);
    } else {
        lemma_nearest_place(column, l.g_icon_x as int, place, w, 1920);
    }
    let lit = set_int_range(0, pixels.width as int).filter(
        |x: int|
            column - 30 <= x < column + 30 && PixelRule::LitIcon.accepts(pixels.pixel(x, row)),
    );
    if forall|x: int|
        column - 30 <= x < column + 30 ==> !PixelRule::LitIcon.accepts(
            #[trigger] pixels.pixel(x, row),
        ) {
        assert(lit =~= Set::<int>::empty());
    }
}

/// At the reference resolution the health bar is read in the row nearest to 982 of 1080 and the
/// stamina bar in the one nearest to 966, both from the column nearest to 830 of 1920 up to the
/// one nearest to 1124; the combat indicator in the row nearest to 990, around the column
/// nearest to 812.
pub proof fn law_bars_and_combat_are_read_at_their_own_place(
    game: ActionRPG,
    reference: Resolution,
    pixels: PixelGrid,
    metrics: GameMetrics,
    left: int,
    right: int,
    health_row: int,
    stamina_row: int,
    swords: int,
    combat_row: int,
)
    requires
        game.reads(pixels, reference, metrics),
        game.layout() == layout_in(reference),
        0 < reference.width < 0x40_0000,
        0 < reference.height < 0x40_0000,
        pixels.width == reference.width,
        pixels.height == reference.height,
        0x20_0000 * gap(left * 1920, 830 * reference.width) < 0x10_0000 * 1920 - 830
            * reference.width,
        0x20_0000 * gap(right * 1920, 1124 * reference.width) < 0x10_0000 * 1920 - 1124
            * reference.width,
        0x20_0000 * gap(swords * 1920, 812 * reference.width) < 0x10_0000 * 1920 - 812
            * reference.width,
        0x20_0000 * gap(health_row * 1080, 982 * reference.height) < 0x10_0000 * 1080 - 982
            * reference.height,
        0x20_0000 * gap(stamina_row * 1080, 966 * reference.height) < 0x10_0000 * 1080 - 966
            * reference.height,
        0x20_0000 * gap(combat_row * 1080, 990 * reference.height) < 0x10_0000 * 1080 - 990
            * reference.height,
    ensures
        ({
            let healthy = set_int_range(left, right).filter(
                |x: int| PixelRule::HealthFill.accepts(pixels.pixel(x, health_row)),
            ).len();
            let rested = set_int_range(left, right).filter(
                |x: int| PixelRule::StaminaFill.accepts(pixels.pixel(x, stamina_row)),
            ).len();
            let red = set_int_range(0, pixels.width as int).filter(
                |x: int|
                    swords - 14 <= x < swords + 14 && x < left && PixelRule::CombatRed.accepts(
                        pixels.pixel(x, combat_row),
                    ),
            ).len();
            let total = right - left;
            &&& health_row < pixels.height && left < right ==> metrics.player_hp * total <= 100
                * healthy < (metrics.player_hp + 1) * total
            &&& stamina_row < pixels.height && left < right ==> metrics.stamina * total <= 100
                * rested < (metrics.stamina + 1) * total
            &&& health_row >= pixels.height || right <= left ==> metrics.player_hp == -1
            &&& stamina_row >= pixels.height || right <= left ==> metrics.stamina == -1
            &&& metrics.in_combat <==> combat_row < pixels.height && red >= 3
        }),
{
    let l = layout_in(reference);
    let w = reference.width as int;
    let h = reference.height as int;
    law_layout_positions_stand_at_their_design_places(reference);
    law_each_flag_depends_on_its_own_icon(game, reference, pixels, reference, metrics);
    law_each_bar_is_the_filled_share_of_its_own_row(game, pixels, reference, metrics);
    lemma_nearest_place(left, l.bar_left as int, 830, w, 1920);
    lemma_nearest_place(right, l.bar_right as int, 1124, w, 1920);
    lemma_nearest_place(swords, l.combat_icon_x as int, 812, w, 1920);
    lemma_nearest_place(health_row, l.health_bar_y as int, 982, h, 1080);
    lemma_nearest_place(stamina_row, l.stamina_bar_y as int, 966, h, 1080);
    lemma_nearest_place(combat_row, l.combat_icon_y as int, 990, h, 1080);
}

/// The reference box is as wide as the preview edge, 1024 without one, and its height times the
/// aspect ratio is the width again, up to half a pixel and a few millionths of it. It is at
/// least one pixel high. A ratio that is not a positive finite number counts as 16:9.
pub proof fn law_reference_boxes_have_the_given_shape(
    preview_edge: u32,
    aspect: AspectRatio,
    scaled: nat,
)
    requires
        0x3F00_0000 <= aspect.bits <= 0x4100_0000 ==> scaled == (0x80_0000 + aspect.bits
            % 0x80_0000) * pow2((aspect.bits / 0x80_0000 - 126) as nat),
    ensures
        ({
            let r = reference_box(preview_edge, aspect);
            &&& r.width == if preview_edge > 0 {
                preview_edge
            } else {
                1024
            }
            &&& r.height >= 1
            &&& 0x3F00_0000 <= aspect.bits <= 0x4100_0000 && 1 < r.height < u32::MAX ==> 2 * gap(
                (r.height * scaled) as int,
                r.width * 0x100_0000,
            ) <= scaled + 6 * r.width
            &&& 0x3F00_0000 <= aspect.bits <= 0x4100_0000 && r.height == 1 ==> 2 * r.width
                * 0x100_0000 <= 3 * scaled + 6 * r.width
            &&& aspect.bits == 0 || aspect.bits >= 0x7F80_0000 ==> r == reference_box(
                preview_edge,
                (AspectRatio { bits: 0x3FE3_8E39 }),
            )
        }),
{
    let r = reference_box(preview_edge, aspect);
    if 0x3F00_0000 <= aspect.bits <= 0x4100_0000 {
        law_lengths_are_divided_by_the_ratio(r.width, aspect.bits, scaled);
    }
}

} // verus!
