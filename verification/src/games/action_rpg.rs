//! Telemetry profile of an action RPG: health and stamina bars, weapon abilities and the
//! combat indicator, read off the pixels of a frame.

pub mod reading;

use vstd::prelude::*;

use crate::config::{AspectRatio, SIXTEEN_NINTHS};
use crate::games::{GameProfile, Resolution};
use crate::rounding::{divide_length, scale_coordinate, to_single};
use crate::state::{GameMetrics, PixelGrid, RgbPixel, RgbView};

verus! {

/// Width of the reference box when none is given.
pub const DEFAULT_PREVIEW_EDGE: u32 = 1024;

/// Size of the UI the layout constants below were measured on.
pub const DESIGN_WIDTH: u32 = 1920;

pub const DESIGN_HEIGHT: u32 = 1080;

/// Health and stamina bar horizontal extent, in design pixels.
///
/// The left edge sits past the crossed-swords combat icon so its red pixels never leak into
/// the bar scans.
pub const BAR_LEFT: u32 = 830;

pub const BAR_RIGHT: u32 = 1124;

/// Vertical center of the stamina bar (upper, yellow), in design pixels.
pub const STAMINA_BAR_Y: u32 = 966;

/// Scan row for the health bar (lower), in design pixels.
///
/// Sits on the top edge of the bar, above the centered HP text, so white digit glyphs cannot
/// pollute the fill scan.
pub const HEALTH_BAR_Y: u32 = 982;

/// Vertical center of the weapon ability icons, in design pixels.
pub const ABILITY_BAR_Y: u32 = 984;

/// Weapon ability icons along the bottom right, in design pixels.
///
/// The row drifts about 40 design pixels between sessions, so the centers sit between the
/// observed layouts and the sampling strips are wide enough to cover either offset.
pub const Q_ICON_X: u32 = 1316;

pub const R_ICON_X: u32 = 1386;

pub const F_ICON_X: u32 = 1457;

pub const G_ICON_X: u32 = 1539;

/// Crossed-swords combat indicator left of the health bar, in design pixels. Lit red while in
/// combat; absent or dimmed outside combat.
pub const COMBAT_ICON_X: u32 = 812;

pub const COMBAT_ICON_Y: u32 = 990;

/// Single-precision luminance weights of red (0.2126), green (0.7152) and blue (0.0722), in
/// units of `2^-27`.
pub const RED_WEIGHT: u32 = 28_534_688;

pub const GREEN_WEIGHT: u32 = 95_992_520;

pub const BLUE_WEIGHT: u32 = 9_690_520;

/// Luminance above which a pixel counts as part of a lit ability icon: 170, in units of
/// `2^-27`.
///
/// Sits above the amber cooldown squares (luminance around 160) so an on-cooldown skill never
/// reads as ready even when its overlay is bright.
pub const ABILITY_READY_LUMINANCE: u64 = 22_817_013_760;

/// Bright pixels within an icon strip required to call the ability off cooldown.
pub const ABILITY_READY_PIXELS: u32 = 4;

/// Red pixels within the combat-icon strip required to flag the in-combat state.
pub const COMBAT_ICON_PIXELS: u32 = 3;

/// Half width of the strip sampled across an ability icon, in reference pixels. Wide enough to
/// straddle the drift of the row. A smaller frame is sampled over the same number of pixels.
pub const ICON_STRIP_HALF_WIDTH: u32 = 30;

/// Half width of the strip sampled across the combat icon, in reference pixels. A smaller frame
/// is sampled over the same number of pixels. The strip ends short of the left edge of the bars
/// so health-bar fill never leaks into the count.
pub const COMBAT_STRIP_HALF_WIDTH: u32 = 14;

/// Percentage reported when a bar cannot be measured.
///
/// Deliberately negative: a failed scan must never read as 100%, or the farming loop would
/// keep fighting with a full health bar it never re-checks. Negative values are rendered as
/// `?` in the telemetry text.
pub const UNKNOWN_PERCENT: i32 = -1;

/// Layout positions inside a reference box.
#[derive(Debug, Clone, Copy, PartialEq, Eq, Structural)]
pub struct Layout {
    /// Reference box the positions are mapped through.
    pub reference: Resolution,
    pub bar_left: u32,
    pub bar_right: u32,
    pub health_bar_y: u32,
    pub stamina_bar_y: u32,
    pub ability_icon_y: u32,
    pub q_icon_x: u32,
    pub r_icon_x: u32,
    pub f_icon_x: u32,
    pub g_icon_x: u32,
    pub combat_icon_x: u32,
    pub combat_icon_y: u32,
}

/// A horizontal design position in a box of the given width.
pub open spec fn design_x(x: u32, width: u32) -> u32 {
    crate::rounding::scaled_coordinate(x as nat, width as nat, DESIGN_WIDTH as nat) as u32
}

/// A vertical design position in a box of the given height.
pub open spec fn design_y(y: u32, height: u32) -> u32 {
    crate::rounding::scaled_coordinate(y as nat, height as nat, DESIGN_HEIGHT as nat) as u32
}

/// The design layout rescaled into a reference box.
pub open spec fn layout_in(reference: Resolution) -> Layout {
    Layout {
        reference,
        bar_left: design_x(BAR_LEFT, reference.width),
        bar_right: design_x(BAR_RIGHT, reference.width),
        health_bar_y: design_y(HEALTH_BAR_Y, reference.height),
        stamina_bar_y: design_y(STAMINA_BAR_Y, reference.height),
        ability_icon_y: design_y(ABILITY_BAR_Y, reference.height),
        q_icon_x: design_x(Q_ICON_X, reference.width),
        r_icon_x: design_x(R_ICON_X, reference.width),
        f_icon_x: design_x(F_ICON_X, reference.width),
        g_icon_x: design_x(G_ICON_X, reference.width),
        combat_icon_x: design_x(COMBAT_ICON_X, reference.width),
        combat_icon_y: design_y(COMBAT_ICON_Y, reference.height),
    }
}

/// The reference box for a preview edge and an aspect ratio (width / height). A zero edge and
/// a ratio that is not a positive finite number fall back to the defaults.
pub open spec fn reference_box(preview_edge: u32, aspect: AspectRatio) -> Resolution {
    let width = if preview_edge == 0 {
        DEFAULT_PREVIEW_EDGE
    } else {
        preview_edge
    };
    let ratio = if crate::rounding::positive_single(aspect.bits as nat) {
        aspect.bits
    } else {
        SIXTEEN_NINTHS
    };
    let height = crate::rounding::divided_length(width as nat, ratio as nat);
    Resolution {
        width,
        height: if height == 0 {
            1
        } else {
            height as u32
        },
    }
}

/// Colour a scan looks for.
#[derive(Debug, Clone, Copy, PartialEq, Eq, Structural)]
pub enum PixelRule {
    /// Health bar: red when damaged, yellow or white when bright.
    HealthFill,
    /// Stamina bar: yellow.
    StaminaFill,
    /// Lit ability icon: bright, with a blue channel that keeps pace with red. The amber
    /// cooldown overlay is bright but heavily red-biased.
    LitIcon,
    /// Lit combat indicator: red.
    CombatRed,
}

/// Relative luminance of a pixel in single precision, in units of `2^-27`.
pub open spec fn luminance(p: RgbPixel) -> nat {
    crate::rounding::single(
        crate::rounding::single(
            crate::rounding::single((RED_WEIGHT * p.r) as nat) + crate::rounding::single(
                (GREEN_WEIGHT * p.g) as nat,
            ),
        ) + crate::rounding::single((BLUE_WEIGHT * p.b) as nat),
    )
}

impl PixelRule {
    /// Whether a pixel has the colour the scan looks for.
    pub open spec fn accepts(self, p: RgbPixel) -> bool {
        match self {
            PixelRule::HealthFill => {
                ||| p.r > 150 && p.g < 80 && p.b < 80
                ||| p.r > 170 && p.g > 150 && p.b < 130
                ||| p.r > 170 && p.g > 170 && p.b > 170
            },
            PixelRule::StaminaFill => p.r > 170 && p.g > 150 && p.b < 130,
            PixelRule::LitIcon => luminance(p) > ABILITY_READY_LUMINANCE && p.b > 100 && 5 * p.b > 2
                * p.r,
            PixelRule::CombatRed => p.r > 140 && p.g < 80 && p.b < 80,
        }
    }

    fn matches(self, p: RgbPixel) -> (r: bool)
        ensures
            r == self.accepts(p),
    {
        match self {
            PixelRule::HealthFill => (p.r > 150 && p.g < 80 && p.b < 80) || (p.r > 170 && p.g > 150
                && p.b < 130) || (p.r > 170 && p.g > 170 && p.b > 170),
            PixelRule::StaminaFill => p.r > 170 && p.g > 150 && p.b < 130,
            PixelRule::LitIcon => calculate_luminance(p) > ABILITY_READY_LUMINANCE && p.b > 100
                && p.b as u32 * 5 > p.r as u32 * 2,
            PixelRule::CombatRed => p.r > 140 && p.g < 80 && p.b < 80,
        }
    }
}

/// Relative luminance (perceived brightness) of a pixel, in units of `2^-27`.
fn calculate_luminance(p: RgbPixel) -> (r: u64)
    ensures
        r == luminance(p),
{
    proof {
        vstd::arithmetic::power2::lemma2_to64();
        vstd::arithmetic::power2::lemma_pow2_adds(32, 4);
        vstd::arithmetic::power2::lemma_pow2_adds(32, 5);
        vstd::arithmetic::power2::lemma_pow2_adds(32, 6);
        crate::rounding::lemma_single_range((RED_WEIGHT * p.r) as nat, 36);
        crate::rounding::lemma_single_range((GREEN_WEIGHT * p.g) as nat, 36);
        crate::rounding::lemma_single_range((BLUE_WEIGHT * p.b) as nat, 36);
    }
    let red: u128 = to_single(RED_WEIGHT as u128 * p.r as u128);
    let green: u128 = to_single(GREEN_WEIGHT as u128 * p.g as u128);
    let blue: u128 = to_single(BLUE_WEIGHT as u128 * p.b as u128);
    proof {
        crate::rounding::lemma_single_range((red + green) as nat, 37);
    }
    let warm: u128 = to_single(red + green);
    proof {
        crate::rounding::lemma_single_range((warm + blue) as nat, 38);
    }
    to_single(warm + blue) as u64
}

/// Number of pixels a rule accepts in row `y` from `start` up to but excluding `end`.
pub open spec fn accepted(pixels: PixelGrid, rule: PixelRule, start: int, end: int, y: int) -> nat
    decreases end - start,
{
    if end <= start {
        0
    } else {
        accepted(pixels, rule, start, end - 1, y) + if rule.accepts(pixels.pixel(end - 1, y)) {
            1nat
        } else {
            0nat
        }
    }
}

/// First column of a scan, clamped to the frame.
pub open spec fn first_column(pixels: PixelGrid, start: u32) -> int {
    if start >= pixels.width {
        pixels.width - 1
    } else {
        start as int
    }
}

/// Column after the last one of a scan, clamped to the frame.
pub open spec fn end_column(pixels: PixelGrid, end: u32) -> int {
    if end > pixels.width {
        pixels.width as int
    } else {
        end as int
    }
}

/// Whether a scan has no pixel to read.
pub open spec fn unreadable(pixels: PixelGrid, start: u32, end: u32, y: u32) -> bool {
    y >= pixels.height || first_column(pixels, start) >= end_column(pixels, end)
}

/// Fill of a horizontal bar in whole percent, rounded down.
pub open spec fn bar_percent(
    pixels: PixelGrid,
    rule: PixelRule,
    start: u32,
    end: u32,
    y: u32,
) -> int {
    let first = first_column(pixels, start);
    let last = end_column(pixels, end);
    if unreadable(pixels, start, end, y) {
        UNKNOWN_PERCENT as int
    } else {
        accepted(pixels, rule, first, last, y as int) as int * 100 / (last - first)
    }
}

/// Accepted pixels along a horizontal strip; none when nothing can be read.
pub open spec fn strip_count(
    pixels: PixelGrid,
    rule: PixelRule,
    start: u32,
    end: u32,
    y: u32,
) -> nat {
    if unreadable(pixels, start, end, y) {
        0
    } else {
        accepted(
            pixels,
            rule,
            first_column(pixels, start),
            end_column(pixels, end),
            y as int,
        )
    }
}

/// Left end of a strip centered on `x`.
pub open spec fn strip_start(x: u32, half_width: u32) -> u32 {
    if x < half_width {
        0
    } else {
        (x - half_width) as u32
    }
}

/// Right end of a strip centered on `x`.
pub open spec fn strip_end(x: u32, half_width: u32) -> u32 {
    if x + half_width > u32::MAX {
        u32::MAX
    } else {
        (x + half_width) as u32
    }
}

/// Whether the ability icon centered at `(x, y)` is off cooldown.
pub open spec fn ability_lit(pixels: PixelGrid, x: u32, y: u32) -> bool {
    strip_count(
        pixels,
        PixelRule::LitIcon,
        strip_start(x, ICON_STRIP_HALF_WIDTH),
        strip_end(x, ICON_STRIP_HALF_WIDTH),
        y,
    ) >= ABILITY_READY_PIXELS
}

/// Right end of the strip across the combat icon, which stops where the bars begin.
pub open spec fn combat_strip_end(x: u32, left: u32) -> u32 {
    let end = strip_end(x, COMBAT_STRIP_HALF_WIDTH);
    if end < left {
        end
    } else {
        left
    }
}

/// Whether the combat indicator centered at `(x, y)` is lit, left of bars that begin at `left`.
pub open spec fn combat_lit(pixels: PixelGrid, x: u32, y: u32, left: u32) -> bool {
    strip_count(
        pixels,
        PixelRule::CombatRed,
        strip_start(x, COMBAT_STRIP_HALF_WIDTH),
        combat_strip_end(x, left),
        y,
    ) >= COMBAT_ICON_PIXELS
}

impl Layout {
    /// A horizontal layout position in a frame of the given resolution.
    pub open spec fn across(self, x: u32, resolution: Resolution) -> u32 {
        crate::rounding::scaled_coordinate(
            x as nat,
            resolution.width as nat,
            self.reference.width as nat,
        ) as u32
    }

    /// A vertical layout position in a frame of the given resolution.
    pub open spec fn down(self, y: u32, resolution: Resolution) -> u32 {
        crate::rounding::scaled_coordinate(
            y as nat,
            resolution.height as nat,
            self.reference.height as nat,
        ) as u32
    }

    /// Whether `metrics` is what a frame shows at the layout's positions.
    pub open spec fn shows(
        self,
        pixels: PixelGrid,
        resolution: Resolution,
        metrics: GameMetrics,
    ) -> bool {
        let left = self.across(self.bar_left, resolution);
        let right = self.across(self.bar_right, resolution);
        let icons = self.down(self.ability_icon_y, resolution);
        &&& metrics.player_hp == bar_percent(
            pixels,
            PixelRule::HealthFill,
            left,
            right,
            self.down(self.health_bar_y, resolution),
        )
        &&& metrics.stamina == bar_percent(
            pixels,
            PixelRule::StaminaFill,
            left,
            right,
            self.down(self.stamina_bar_y, resolution),
        )
        &&& metrics.q_ready == ability_lit(pixels, self.across(self.q_icon_x, resolution), icons)
        &&& metrics.r_ready == ability_lit(pixels, self.across(self.r_icon_x, resolution), icons)
        &&& metrics.f_ready == ability_lit(pixels, self.across(self.f_icon_x, resolution), icons)
        &&& metrics.g_ready == ability_lit(pixels, self.across(self.g_icon_x, resolution), icons)
        &&& metrics.in_combat == combat_lit(
            pixels,
            self.across(self.combat_icon_x, resolution),
            self.down(self.combat_icon_y, resolution),
            left,
        )
        &&& metrics.location@ == Seq::<char>::empty()
    }
}

/// Action RPG telemetry profile.
///
/// Telemetry is read from the preview, whose longest edge is the configured preview edge, so
/// the UI layout is authored against that preview box instead of the desktop resolution it was
/// captured from. Frames below the preview ceiling are scaled proportionally by the
/// [`Resolution`] handed to the parser.
pub struct ActionRPG {
    layout: Layout,
}

impl Default for ActionRPG {
    fn default() -> (r: Self)
        ensures
            r.layout() == layout_in(
                reference_box(DEFAULT_PREVIEW_EDGE, (AspectRatio { bits: SIXTEEN_NINTHS })),
            ),
    {
        ActionRPG::new(DEFAULT_PREVIEW_EDGE, AspectRatio { bits: SIXTEEN_NINTHS })
    }
}

impl ActionRPG {
    #[verifier::type_invariant]
    spec fn has_reference(self) -> bool {
        self.layout.reference.width > 0 && self.layout.reference.height > 0
    }

    /// Layout positions in the reference box.
    pub closed spec fn layout(self) -> Layout {
        self.layout
    }

    /// Builds a profile whose reference box is `preview_edge` pixels wide with
    /// `reference_aspect_ratio` (width / height) aspect. Degenerate values fall back to the
    /// defaults.
    pub fn new(preview_edge: u32, reference_aspect_ratio: AspectRatio) -> (r: Self)
        ensures
            r.layout() == layout_in(reference_box(preview_edge, reference_aspect_ratio)),
    {
        let width: u32 = if preview_edge == 0 {
            DEFAULT_PREVIEW_EDGE
        } else {
            preview_edge
        };
        let ratio: u32 = if reference_aspect_ratio.bits > 0 && reference_aspect_ratio.bits
            < 0x7F80_0000 {
            reference_aspect_ratio.bits
        } else {
            SIXTEEN_NINTHS
        };
        let pixels: u32 = divide_length(width, ratio);
        let height: u32 = if pixels == 0 {
            1
        } else {
            pixels
        };
        ActionRPG {
            layout: Layout {
                reference: Resolution::new(width, height),
                bar_left: scale_coordinate(BAR_LEFT, width, DESIGN_WIDTH),
                bar_right: scale_coordinate(BAR_RIGHT, width, DESIGN_WIDTH),
                health_bar_y: scale_coordinate(HEALTH_BAR_Y, height, DESIGN_HEIGHT),
                stamina_bar_y: scale_coordinate(STAMINA_BAR_Y, height, DESIGN_HEIGHT),
                ability_icon_y: scale_coordinate(ABILITY_BAR_Y, height, DESIGN_HEIGHT),
                q_icon_x: scale_coordinate(Q_ICON_X, width, DESIGN_WIDTH),
                r_icon_x: scale_coordinate(R_ICON_X, width, DESIGN_WIDTH),
                f_icon_x: scale_coordinate(F_ICON_X, width, DESIGN_WIDTH),
                g_icon_x: scale_coordinate(G_ICON_X, width, DESIGN_WIDTH),
                combat_icon_x: scale_coordinate(COMBAT_ICON_X, width, DESIGN_WIDTH),
                combat_icon_y: scale_coordinate(COMBAT_ICON_Y, height, DESIGN_HEIGHT),
            },
        }
    }

    /// Maps an x coordinate of the layout onto `resolution`.
    fn scale_x(&self, reference_x: u32, resolution: Resolution) -> (r: u32)
        ensures
            r == self.layout().across(reference_x, resolution),
    {
        proof {
            use_type_invariant(self);
        }
        scale_coordinate(reference_x, resolution.width, self.layout.reference.width)
    }

    /// Maps a y coordinate of the layout onto `resolution`.
    fn scale_y(&self, reference_y: u32, resolution: Resolution) -> (r: u32)
        ensures
            r == self.layout().down(reference_y, resolution),
    {
        proof {
            use_type_invariant(self);
        }
        scale_coordinate(reference_y, resolution.height, self.layout.reference.height)
    }

    /// Counts the pixels a rule accepts along a horizontal strip, clamped to the frame.
    fn count_matching(pixels: &RgbView, start_x: u32, end_x: u32, y: u32, rule: PixelRule) -> (r:
        u32)
        ensures
            r == strip_count(pixels@, rule, start_x, end_x, y),
            r <= pixels@.width,
            !unreadable(pixels@, start_x, end_x, y) ==> r <= end_column(pixels@, end_x)
                - first_column(pixels@, start_x),
    {
        let width: u32 = pixels.width();
        if y >= pixels.height() {
            return 0;
        }
        let first: u32 = if start_x >= width {
            width - 1
        } else {
            start_x
        };
        let end: u32 = if end_x > width {
            width
        } else {
            end_x
        };
        if first >= end {
            return 0;
        }
        let mut matched: u32 = 0;
        let mut x: u32 = first;
        while x < end
            invariant
                first <= x <= end <= width,
                width == pixels@.width,
                matched == accepted(pixels@, rule, first as int, x as int, y as int),
                matched <= x - first,
            decreases end - x,
        {
            if rule.matches(pixels.get_pixel(x, y)) {
                matched = matched + 1;
            }
            x = x + 1;
        }
        matched
    }

    /// Fill of a horizontal bar segment in percent.
    ///
    /// Coordinates are clamped to the frame, so a bar authored for a larger layout degrades
    /// gracefully on small frames.
    fn scan_horizontal_bar(pixels: &RgbView, start_x: u32, end_x: u32, y: u32, rule: PixelRule) -> (
    r: i32)
        ensures
            r == bar_percent(pixels@, rule, start_x, end_x, y),
            UNKNOWN_PERCENT <= r <= 100,
    {
        let width: u32 = pixels.width();
        let first: u32 = if start_x >= width {
            width - 1
        } else {
            start_x
        };
        let end: u32 = if end_x > width {
            width
        } else {
            end_x
        };
        if y >= pixels.height() || first >= end {
            return UNKNOWN_PERCENT;
        }
        let matched: u64 = Self::count_matching(pixels, start_x, end_x, y, rule) as u64;
        let total: u64 = (end - first) as u64;
        let percentage: u64 = matched * 100 / total;
        assert(percentage <= 100) by (nonlinear_arith)
            requires
                percentage == matched * 100 / total as int,
                0 <= matched <= total,
                total > 0,
        ;
        percentage as i32
    }

    /// Whether the ability icon centered at `(x, y)` is off cooldown (lit).
    ///
    /// Samples a strip across the icon and counts bright pixels, so strand gaps in line-art
    /// icons or an off-center single pixel cannot flip the read.
    fn is_ability_ready(pixels: &RgbView, x: u32, y: u32) -> (r: bool)
        ensures
            r == ability_lit(pixels@, x, y),
    {
        let matched: u32 = Self::count_matching(
            pixels,
            x.saturating_sub(ICON_STRIP_HALF_WIDTH),
            x.saturating_add(ICON_STRIP_HALF_WIDTH),
            y,
            PixelRule::LitIcon,
        );
        matched >= ABILITY_READY_PIXELS
    }

    /// Whether the crossed-swords indicator beside the health bar, which begins at `left`, is lit
    /// red.
    fn is_in_combat(pixels: &RgbView, x: u32, y: u32, left: u32) -> (r: bool)
        ensures
            r == combat_lit(pixels@, x, y, left),
    {
        let reach: u32 = x.saturating_add(COMBAT_STRIP_HALF_WIDTH);
        let end: u32 = if reach < left {
            reach
        } else {
            left
        };
        let matched: u32 = Self::count_matching(
            pixels,
            x.saturating_sub(COMBAT_STRIP_HALF_WIDTH),
            end,
            y,
            PixelRule::CombatRed,
        );
        matched >= COMBAT_ICON_PIXELS
    }
}

impl GameProfile for ActionRPG {
    open spec fn reads(
        &self,
        pixels: PixelGrid,
        resolution: Resolution,
        metrics: GameMetrics,
    ) -> bool {
        self.layout().shows(pixels, resolution, metrics)
    }

    fn id(&self) -> (r: &'static str)
        ensures
            r@ == "action_rpg"@,
    {
        "action_rpg"
    }

    fn parse_telemetry(&self, pixels: &RgbView, resolution: Resolution) -> (r: GameMetrics) {
        let left: u32 = self.scale_x(self.layout.bar_left, resolution);
        let right: u32 = self.scale_x(self.layout.bar_right, resolution);

        // Bottom center; red fill when damaged, bright when full.
        let health_y: u32 = self.scale_y(self.layout.health_bar_y, resolution);
        let player_hp: i32 = Self::scan_horizontal_bar(
            pixels,
            left,
            right,
            health_y,
            PixelRule::HealthFill,
        );

        // Directly above the health bar, yellow fill.
        let stamina_y: u32 = self.scale_y(self.layout.stamina_bar_y, resolution);
        let stamina: i32 = Self::scan_horizontal_bar(
            pixels,
            left,
            right,
            stamina_y,
            PixelRule::StaminaFill,
        );

        // Bottom-right weapon ability icons.
        let ability_y: u32 = self.scale_y(self.layout.ability_icon_y, resolution);
        let q_ready: bool = Self::is_ability_ready(
            pixels,
            self.scale_x(self.layout.q_icon_x, resolution),
            ability_y,
        );
        let r_ready: bool = Self::is_ability_ready(
            pixels,
            self.scale_x(self.layout.r_icon_x, resolution),
            ability_y,
        );
        let f_ready: bool = Self::is_ability_ready(
            pixels,
            self.scale_x(self.layout.f_icon_x, resolution),
            ability_y,
        );
        let g_ready: bool = Self::is_ability_ready(
            pixels,
            self.scale_x(self.layout.g_icon_x, resolution),
            ability_y,
        );

        // Crossed-swords combat indicator left of the health bar.
        let in_combat: bool = Self::is_in_combat(
            pixels,
            self.scale_x(self.layout.combat_icon_x, resolution),
            self.scale_y(self.layout.combat_icon_y, resolution),
            left,
        );

        // The zone is not readable off the pixels.
        GameMetrics {
            player_hp,
            stamina,
            q_ready,
            r_ready,
            f_ready,
            g_ready,
            location: String::new(),
            in_combat,
        }
    }
}

/// A strip never has more accepted pixels than pixels, and has that many exactly when every
/// pixel of it is accepted.
proof fn lemma_accepted_range(pixels: PixelGrid, rule: PixelRule, start: int, end: int, y: int)
    requires
        start <= end,
    ensures
        0 <= accepted(pixels, rule, start, end, y) <= end - start,
        accepted(pixels, rule, start, end, y) == end - start <==> (forall|x: int|
            start <= x < end ==> rule.accepts(#[trigger] pixels.pixel(x, y))),
    decreases end - start,
{
    if start < end {
        lemma_accepted_range(pixels, rule, start, end - 1, y);
        if accepted(pixels, rule, start, end, y) == end - start {
            assert forall|x: int| start <= x < end implies rule.accepts(
                #[trigger] pixels.pixel(x, y),
            ) by {
                if x < end - 1 {
                    assert(accepted(pixels, rule, start, end - 1, y) == end - 1 - start);
                }
            }
        } else {
            if forall|x: int| start <= x < end ==> rule.accepts(#[trigger] pixels.pixel(x, y)) {
                assert(rule.accepts(pixels.pixel(end - 1, y)));
            }
        }
    }
}

/// A bar reads as a percentage or as unknown. It is unknown exactly when there is no pixel to
/// read, and full exactly when there are pixels to read and every one of them has the fill
/// colour: a failed scan never reads as full.
pub proof fn law_a_failed_scan_never_reads_as_full(
    pixels: PixelGrid,
    rule: PixelRule,
    start: u32,
    end: u32,
    y: u32,
)
    requires
        pixels.width > 0,
    ensures
        UNKNOWN_PERCENT <= bar_percent(pixels, rule, start, end, y) <= 100,
        bar_percent(pixels, rule, start, end, y) == UNKNOWN_PERCENT <==> unreadable(
            pixels,
            start,
            end,
            y,
        ),
        bar_percent(pixels, rule, start, end, y) == 100 <==> !unreadable(pixels, start, end, y) && (
        forall|x: int|
            first_column(pixels, start) <= x < end_column(pixels, end) ==> rule.accepts(
                #[trigger] pixels.pixel(x, y as int),
            )),
{
    if !unreadable(pixels, start, end, y) {
        let first = first_column(pixels, start);
        let last = end_column(pixels, end);
        let matched = accepted(pixels, rule, first, last, y as int) as int;
        let total = last - first;
        lemma_accepted_range(pixels, rule, first, last, y as int);
        assert(0 <= matched * 100 / total <= 100) by (nonlinear_arith)
            requires
                0 <= matched <= total,
                total > 0,
        ;
        assert(matched * 100 / total == 100 <==> matched == total) by (nonlinear_arith)
            requires
                0 <= matched <= total,
                total > 0,
        ;
    }
}

/// A strip without an accepted pixel counts none.
proof fn lemma_none_accepted(pixels: PixelGrid, rule: PixelRule, start: int, end: int, y: int)
    requires
        forall|x: int| start <= x < end ==> !rule.accepts(#[trigger] pixels.pixel(x, y)),
    ensures
        accepted(pixels, rule, start, end, y) == 0,
    decreases end - start,
{
    if start < end {
        lemma_none_accepted(pixels, rule, start, end - 1, y);
        assert(!rule.accepts(pixels.pixel(end - 1, y)));
    }
}

/// Bar fill never counts as the combat icon: in every reference box and at every resolution, a
/// frame whose red pixels all lie at or right of the left edge of the bars is not in combat.
pub proof fn law_bar_fill_is_never_the_combat_icon(
    layout: Layout,
    pixels: PixelGrid,
    resolution: Resolution,
    metrics: GameMetrics,
)
    requires
        layout.shows(pixels, resolution, metrics),
        forall|x: int, y: int|
            PixelRule::CombatRed.accepts(#[trigger] pixels.pixel(x, y)) ==> x >= layout.across(
                layout.bar_left,
                resolution,
            ),
    ensures
        !metrics.in_combat,
{
    let left = layout.across(layout.bar_left, resolution);
    let x = layout.across(layout.combat_icon_x, resolution);
    let y = layout.down(layout.combat_icon_y, resolution);
    lemma_none_accepted(
        pixels,
        PixelRule::CombatRed,
        first_column(pixels, strip_start(x, COMBAT_STRIP_HALF_WIDTH)),
        end_column(pixels, combat_strip_end(x, left)),
        y as int,
    );
}

} // verus!
