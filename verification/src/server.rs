//! Tool and prompt logic: what each call checks, sends, records and answers.

pub mod answers;
pub mod calls;

use vstd::arithmetic::power2::pow2;
use vstd::prelude::*;

use crate::config::ServerConfig;
use crate::encoding::{base64_fits, base64_of, encode_base64};
use crate::error::{internal_error, invalid_params, ErrorKind, ToolError};
use crate::games::action_rpg::{bar_percent, unreadable, PixelRule};
use crate::games::Resolution;
use crate::input::ops::{
    backend_code, hold_scancode, key_hold, scancode_supported, scroll_length, scroll_vertical,
    type_text,
};
use crate::input::{
    direction_code, key_code, key_scancode_with_lowercase, lowercase_direction_scancode, Backend,
    Button, Coordinate, Direction, InputAction,
};
use crate::rounding::{
    gap, law_positions_land_on_the_same_spot, law_same_size_keeps_positions, scale_position,
    scaled_position,
};
use crate::state::{
    encodable, history_with, jpeg_of, jpeg_refusal_text, FramePayload, GameMetrics, HeldButtons, PixelGrid,
    SessionState,
};
use crate::text::{
    ascii_lowercase, debug_of, debug_text, decimal, in_base, is_empty, lowercase_of, push_decimal,
    push_hex, push_unsigned, replace_all, replaced, same_text,
};
use crate::windmouse::Point;

verus! {

/// Arguments of `set_zone`.
pub struct SetZoneArgs {
    /// Name of the new zone or area (read from compass, minimap, or screen banner).
    pub location: String,
}

/// Arguments of `move_player`.
pub struct MovePlayerArgs {
    /// Movement direction: "forward" (W), "back" (S), "left" (A) or "right" (D).
    pub direction: String,
    /// How long to hold the movement key in milliseconds (default 500).
    pub duration_ms: Option<u64>,
}

/// Arguments of `press_key`.
pub struct PressKeyArgs {
    /// The key to press: a single character or a named key.
    pub key: String,
    /// How long to hold the key in milliseconds (default 50).
    pub duration_ms: Option<u64>,
}

/// Arguments of `input_text`.
pub struct InputTextArgs {
    /// The text to type into the focused input field (chat, search, etc.).
    pub text: String,
}

/// Arguments of `move_mouse`.
pub struct MoveMouseArgs {
    /// Target X coordinate in captured-frame pixels, or the delta of a relative move.
    pub x: i32,
    /// Target Y coordinate in captured-frame pixels, or the delta of a relative move.
    pub y: i32,
    /// If true, the coordinates are a raw delta applied to the current cursor position.
    pub relative: Option<bool>,
    /// If true (the default), an absolute move travels along a human-like path instead of
    /// jumping straight to the target.
    pub human_like: Option<bool>,
}

/// Arguments of `click_mouse`.
pub struct ClickMouseArgs {
    /// Mouse button to click: "left" (default), "right" or "middle".
    pub button: Option<String>,
    /// If true, perform a double click.
    pub double: Option<bool>,
}

/// Arguments of `hold_mouse`.
pub struct HoldMouseArgs {
    /// Mouse button to act on: "left" (default), "right" or "middle".
    pub button: Option<String>,
    /// What to do: "hold" (default: press, wait, release), "press" (keep the button held
    /// down) or "release" (release a held button).
    pub action: Option<String>,
    /// How long to hold the button in milliseconds for the "hold" action (default 50).
    pub duration_ms: Option<u64>,
}

/// Arguments of `scroll_mouse`.
pub struct ScrollMouseArgs {
    /// Scroll amount in wheel clicks; positive scrolls up, negative scrolls down.
    pub amount: i32,
}

/// Arguments of `wait`.
pub struct WaitArgs {
    /// How long to wait in milliseconds (default 500).
    pub duration_ms: Option<u64>,
    /// Optional note about what this delay is for; recorded in the session log.
    pub reason: Option<String>,
}

/// Arguments of `capture_screen`.
pub struct CaptureScreenArgs {
    /// When true, skip the wait for a change and return the latest frame immediately, even if
    /// the screen has not visibly changed.
    pub force: Option<bool>,
}

/// Arguments of `start_farm`.
pub struct StartFarmArgs {
    /// How long to farm in minutes (default 10).
    pub duration_minutes: Option<u32>,
    /// Mob type to focus on (e.g. "boar", "wolf"); empty means any nearby mob.
    pub target: Option<String>,
    /// HP percentage at which to drink a potion (default 30).
    pub potion_threshold: Option<i32>,
}

/// One block of a tool's answer.
pub enum Content {
    Text(String),
    /// Base64 data of the given media type.
    Image { data: String, mime_type: String },
}

/// Answer of a tool that ran.
pub struct ToolReply {
    /// Whether the tool itself reports a failure.
    pub is_error: bool,
    pub content: Vec<Content>,
}

impl Content {
    /// Whether the block is this text.
    pub open spec fn is_text(self, text: Seq<char>) -> bool {
        self matches Content::Text(t) && t@ == text
    }

    /// Whether the block is a JPEG image with this data.
    pub open spec fn is_jpeg(self, data: Seq<char>) -> bool {
        self matches Content::Image { data: d, mime_type } && d@ == data && mime_type@
            == "image/jpeg"@
    }
}

impl ToolReply {
    /// Whether the answer is one block of text.
    pub open spec fn says(self, is_error: bool, text: Seq<char>) -> bool {
        self.is_error == is_error && self.content@.len() == 1 && self.content@[0].is_text(text)
    }

    /// An answer of one block of text.
    pub fn text(is_error: bool, text: String) -> (r: Self)
        ensures
            r.says(is_error, text@),
    {
        let mut content: Vec<Content> = Vec::new();
        content.push(Content::Text(text));
        ToolReply { is_error, content }
    }
}

/// Input to send for a call, and the message that reports it once it is sent.
pub struct InputPlan {
    pub actions: Vec<InputAction>,
    pub message: String,
}

/// Records what a call did and answers with the same message.
pub fn report(session: &mut SessionState, message: String) -> (r: ToolReply)
    ensures
        r.says(false, message@),
        final(session).same_but_history(*old(session)),
        final(session).event_history@.len() > 0,
        final(session).event_history@ == history_with(
            old(session).event_history@,
            final(session).event_history@.last(),
        ),
        final(session).event_history@.last().action_taken@ == message@,
        final(session).event_history@.last().state_snapshot == old(session).current_metrics,
{
    session.record_event(message.clone());
    ToolReply::text(false, message)
}

/// Whole milliseconds of a call: what it asks for, or the default, up to the limit.
pub open spec fn capped_millis(requested: Option<u64>, default: u64, limit: u64) -> u64 {
    let wanted = match requested {
        Some(millis) => millis,
        None => default,
    };
    if wanted > limit {
        limit
    } else {
        wanted
    }
}

/// Milliseconds a call lasts: what it asks for, or the default, up to the limit.
pub fn cap_millis(requested: Option<u64>, default: u64, limit: u64) -> (r: u64)
    ensures
        r == capped_millis(requested, default, limit),
        r <= limit,
        requested matches Some(millis) ==> r == if millis <= limit {
            millis
        } else {
            limit
        },
        requested is None && default <= limit ==> r == default,
        requested is None && limit < default ==> r == limit,
{
    let wanted: u64 = match requested {
        Some(millis) => millis,
        None => default,
    };
    if wanted > limit {
        limit
    } else {
        wanted
    }
}

/// A requested duration is kept to the millisecond up to the limit and becomes the limit beyond
/// it, whatever the default is; without a request the default is treated the same way. A longer
/// request never lasts shorter.
pub proof fn law_durations_are_kept_up_to_the_limit(
    millis: u64,
    more: u64,
    default: u64,
    limit: u64,
)
    ensures
        millis <= limit ==> capped_millis(Some(millis), default, limit) == millis,
        limit <= millis ==> capped_millis(Some(millis), default, limit) == limit,
        default <= limit ==> capped_millis(None, default, limit) == default,
        limit <= default ==> capped_millis(None, default, limit) == limit,
        millis <= more ==> capped_millis(Some(millis), default, limit) <= capped_millis(
            Some(more),
            default,
            limit,
        ),
{
}

/// Number of binary digits in which two numbers differ.
pub open spec fn differing_bits(a: nat, b: nat) -> nat
    decreases a + b,
{
    if a == 0 && b == 0 {
        0
    } else {
        differing_bits(a / 2, b / 2) + if a % 2 != b % 2 {
            1nat
        } else {
            0nat
        }
    }
}

/// Computes the Hamming distance (number of differing bits) between two hashes: a value
/// between 0 (identical) and 64 (completely different).
pub fn calculate_hamming_distance(hash1: u64, hash2: u64) -> (r: u32)
    ensures
        r == differing_bits(hash1 as nat, hash2 as nat),
        r <= 64,
        r == vstd::set_lib::set_int_range(0, 64).filter(
            |i: int|
                (hash1 as nat) / pow2(i as nat) % 2 != (hash2 as nat) / pow2(i as nat) % 2,
        ).len(),
{
    proof {
        law_hamming_distance_counts_positions(hash1, hash2);
    }
    let mut a: u64 = hash1;
    let mut b: u64 = hash2;
    let mut count: u32 = 0;
    proof {
        vstd::arithmetic::power2::lemma2_to64();
        law_hamming_distance_is_bounded(hash1 as nat, hash2 as nat, 64);
    }
    while a > 0 || b > 0
        invariant
            differing_bits(hash1 as nat, hash2 as nat) == count + differing_bits(
                a as nat,
                b as nat,
            ),
            differing_bits(hash1 as nat, hash2 as nat) <= 64,
        decreases a + b,
    {
        let differ: bool = a % 2 != b % 2;
        a = a / 2;
        b = b / 2;
        if differ {
            count = count + 1;
        }
    }
    count
}

/// Two numbers of at most `width` binary digits differ in at most `width` of them.
pub proof fn law_hamming_distance_is_bounded(a: nat, b: nat, width: nat)
    requires
        a < vstd::arithmetic::power2::pow2(width),
        b < vstd::arithmetic::power2::pow2(width),
    ensures
        differing_bits(a, b) <= width,
    decreases width,
{
    vstd::arithmetic::power2::lemma2_to64();
    if a > 0 || b > 0 {
        vstd::arithmetic::power2::lemma_pow2_unfold(width);
        law_hamming_distance_is_bounded(a / 2, b / 2, (width - 1) as nat);
    }
}

/// The Hamming distance is zero exactly between equal numbers, and the same in both
/// directions.
pub proof fn law_hamming_distance_tells_hashes_apart(a: nat, b: nat)
    ensures
        differing_bits(a, b) == 0 <==> a == b,
        differing_bits(a, b) == differing_bits(b, a),
    decreases a + b,
{
    if a > 0 || b > 0 {
        law_hamming_distance_tells_hashes_apart(a / 2, b / 2);
    }
}

/// The Hamming distance of two numbers is never longer than the way over a third.
pub proof fn law_hamming_distance_triangle(a: nat, b: nat, c: nat)
    ensures
        differing_bits(a, c) <= differing_bits(a, b) + differing_bits(b, c),
    decreases a + b + c,
{
    if a > 0 || b > 0 || c > 0 {
        law_hamming_distance_triangle(a / 2, b / 2, c / 2);
        assert(differing_bits(0, 0) == 0);
    }
}

/// The topmost of `width + 1` binary digits counts by itself.
proof fn lemma_topmost_digit(high_a: nat, low_a: nat, high_b: nat, low_b: nat, width: nat)
    requires
        high_a < 2,
        high_b < 2,
        low_a < pow2(width),
        low_b < pow2(width),
    ensures
        differing_bits(high_a * pow2(width) + low_a, high_b * pow2(width) + low_b)
            == differing_bits(low_a, low_b) + if high_a != high_b {
            1nat
        } else {
            0nat
        },
    decreases width,
{
    vstd::arithmetic::power2::lemma2_to64();
    let a = high_a * pow2(width) + low_a;
    let b = high_b * pow2(width) + low_b;
    if width == 0 {
        assert(high_a * 1 == high_a && high_b * 1 == high_b);
        assert(differing_bits(0, 0) == 0);
        assert(differing_bits(a / 2, b / 2) == 0);
    } else {
        let half = pow2((width - 1) as nat);
        vstd::arithmetic::power2::lemma_pow2_unfold(width);
        lemma_topmost_digit(high_a, low_a / 2, high_b, low_b / 2, (width - 1) as nat);
        assert(high_a * pow2(width) == 2 * (high_a * half)) by (nonlinear_arith)
            requires
                pow2(width) == 2 * half,
        ;
        assert(high_b * pow2(width) == 2 * (high_b * half)) by (nonlinear_arith)
            requires
                pow2(width) == 2 * half,
        ;
        assert(a / 2 == high_a * half + low_a / 2 && a % 2 == low_a % 2);
        assert(b / 2 == high_b * half + low_b / 2 && b % 2 == low_b % 2);
        assert(differing_bits(0, 0) == 0);
    }
}

/// The lowest `width` binary digits differ at as many positions as the remainders do.
proof fn lemma_differing_positions(a: nat, b: nat, width: nat)
    ensures
        vstd::set_lib::set_int_range(0, width as int).filter(
            |i: int| a / pow2(i as nat) % 2 != b / pow2(i as nat) % 2,
        ).finite(),
        vstd::set_lib::set_int_range(0, width as int).filter(
            |i: int| a / pow2(i as nat) % 2 != b / pow2(i as nat) % 2,
        ).len() == differing_bits(a % pow2(width), b % pow2(width)),
    decreases width,
{
    broadcast use vstd::arithmetic::power2::lemma_pow2_pos;

    vstd::arithmetic::power2::lemma2_to64();
    let differ = |i: int| a / pow2(i as nat) % 2 != b / pow2(i as nat) % 2;
    let all = vstd::set_lib::set_int_range(0, width as int).filter(differ);
    if width == 0 {
        assert(all =~= Set::<int>::empty());
        assert(a % 1 == 0 && b % 1 == 0);
    } else {
        let below = (width - 1) as nat;
        let unit = pow2(below);
        let fewer = vstd::set_lib::set_int_range(0, below as int).filter(differ);
        lemma_differing_positions(a, b, below);
        if differ(below as int) {
            assert(all =~= fewer.insert(below as int));
        } else {
            assert(all =~= fewer);
        }
        vstd::arithmetic::power2::lemma_pow2_unfold(width);
        lemma_remainder_digits(a, unit);
        lemma_remainder_digits(b, unit);
        lemma_topmost_digit(a / unit % 2, a % unit, b / unit % 2, b % unit, below);
    }
}

/// A remainder of twice the unit is its topmost digit and a remainder of the unit.
proof fn lemma_remainder_digits(n: nat, unit: nat)
    requires
        unit > 0,
    ensures
        n % (2 * unit) == n / unit % 2 * unit + n % unit,
        n % unit < unit,
{
    vstd::arithmetic::div_mod::lemma_fundamental_div_mod(n as int, unit as int);
    vstd::arithmetic::div_mod::lemma_mod_bound(n as int, unit as int);
    let q = n / unit;
    let top = q % 2;
    let low = (top * unit + n % unit) as int;
    assert(top * unit <= unit) by (nonlinear_arith)
        requires
            top <= 1,
    ;
    assert(n == (q / 2) * (2 * unit) + low) by (nonlinear_arith)
        requires
            n == unit * q + n % unit,
            low == top * unit + n % unit,
            q == 2 * (q / 2) + top,
    ;
    vstd::arithmetic::div_mod::lemma_fundamental_div_mod_converse(
        n as int,
        (2 * unit) as int,
        (q / 2) as int,
        low,
    );
}

/// The Hamming distance of two hashes is the number of positions from 0 to 63 at which their
/// binary digits differ.
pub proof fn law_hamming_distance_counts_positions(hash1: u64, hash2: u64)
    ensures
        vstd::set_lib::set_int_range(0, 64).filter(
            |i: int|
                (hash1 as nat) / pow2(i as nat) % 2 != (hash2 as nat) / pow2(i as nat) % 2,
        ).finite(),
        differing_bits(hash1 as nat, hash2 as nat) == vstd::set_lib::set_int_range(0, 64).filter(
            |i: int|
                (hash1 as nat) / pow2(i as nat) % 2 != (hash2 as nat) / pow2(i as nat) % 2,
        ).len(),
{
    let a = hash1 as nat;
    let b = hash2 as nat;
    vstd::arithmetic::power2::lemma2_to64();
    lemma_differing_positions(a, b, 64);
    assert(a % pow2(64) == a && b % pow2(64) == b);
    assert(vstd::set_lib::set_int_range(0, 64).filter(
        |i: int| a / pow2(i as nat) % 2 != b / pow2(i as nat) % 2,
    ) =~= vstd::set_lib::set_int_range(0, 64).filter(
        |i: int| (hash1 as nat) / pow2(i as nat) % 2 != (hash2 as nat) / pow2(i as nat) % 2,
    ));
}

/// A screen whose hash has some digits flipped against the last one, anywhere among the 64,
/// counts as changed exactly when more of them are flipped than the stale distance.
pub proof fn law_a_change_is_more_flipped_digits_than_the_stale_distance(
    hash: u64,
    last: u64,
    flipped: Set<int>,
    stale_distance: u32,
)
    requires
        forall|i: int| #[trigger]
            flipped.contains(i) <==> 0 <= i < 64 && (hash as nat) / pow2(i as nat) % 2 != (
            last as nat) / pow2(i as nat) % 2,
    ensures
        visibly_changed(Some(hash), Some(last), stale_distance) <==> flipped.len()
            > stale_distance,
        visibly_changed(Some(hash), None, stale_distance),
        !visibly_changed(None, Some(last), stale_distance),
        !visibly_changed(None, None, stale_distance),
{
    law_hamming_distance_counts_positions(hash, last);
    assert(flipped =~= vstd::set_lib::set_int_range(0, 64).filter(
        |i: int| (hash as nat) / pow2(i as nat) % 2 != (last as nat) / pow2(i as nat) % 2,
    ));
}

/// Whether the published frame looks different from the last one that was handed out.
pub open spec fn visibly_changed(
    frame_hash: Option<u64>,
    last_hash: Option<u64>,
    stale_distance: u32,
) -> bool {
    match (frame_hash, last_hash) {
        (None, _) => false,
        (Some(_), None) => true,
        (Some(hash), Some(last)) => differing_bits(hash as nat, last as nat) > stale_distance,
    }
}

/// A frame that was handed out does not count as a change of the screen again, and neither
/// does one with the same hash.
pub proof fn law_a_frame_is_not_handed_out_twice(hash: u64, stale_distance: u32)
    ensures
        !visibly_changed(Some(hash), Some(hash), stale_distance),
{
    law_hamming_distance_tells_hashes_apart(hash as nat, hash as nat);
}

/// What a capture that waits for a change does next.
#[derive(Debug, Clone, Copy, PartialEq, Eq, Structural)]
pub enum WaitStep {
    /// The screen changed.
    Changed,
    /// The wait is over with the screen still static.
    TimedOut,
    /// Wait for the next frame or the deadline, then look again.
    Park,
}

/// Decides, from what is published now, whether a capture goes on waiting for a change.
///
/// A capture session that has ended never publishes again, so there is nothing to wait for.
pub fn wait_for_screen_change(
    frame_hash: Option<u64>,
    closed: bool,
    last_hash: Option<u64>,
    stale_distance: u32,
    expired: bool,
) -> (r: WaitStep)
    ensures
        r == if visibly_changed(frame_hash, last_hash, stale_distance) {
            WaitStep::Changed
        } else if closed || expired {
            WaitStep::TimedOut
        } else {
            WaitStep::Park
        },
        match (frame_hash, last_hash) {
            (Some(hash), Some(last)) => (r == WaitStep::Changed) == (vstd::set_lib::set_int_range(
                0,
                64,
            ).filter(
                |i: int| (hash as nat) / pow2(i as nat) % 2 != (last as nat) / pow2(i as nat) % 2,
            ).len() > stale_distance),
            _ => true,
        },
        frame_hash is Some && last_hash is None ==> r == WaitStep::Changed,
        frame_hash is None ==> r != WaitStep::Changed,
        r == WaitStep::TimedOut ==> closed || expired,
        r == WaitStep::Park ==> !closed && !expired,
{
    proof {
        if let (Some(hash), Some(last)) = (frame_hash, last_hash) {
            law_hamming_distance_counts_positions(hash, last);
        }
    }
    let changed: bool = match frame_hash {
        None => false,
        Some(hash) => match last_hash {
            None => true,
            Some(last) => calculate_hamming_distance(hash, last) > stale_distance,
        },
    };
    if changed {
        WaitStep::Changed
    } else if closed || expired {
        WaitStep::TimedOut
    } else {
        WaitStep::Park
    }
}

/// An ability readiness flag in telemetry text.
pub open spec fn ability_text(ready: bool) -> Seq<char> {
    if ready {
        "READY"@
    } else {
        "COOLDOWN"@
    }
}

/// Formats an ability readiness flag as READY or COOLDOWN for telemetry text.
pub fn format_ability(ready: bool) -> (r: &'static str)
    ensures
        r@ == ability_text(ready),
{
    if ready {
        "READY"
    } else {
        "COOLDOWN"
    }
}

/// A bar percentage in telemetry text.
pub open spec fn percent_text(value: i32) -> Seq<char> {
    if value < 0 {
        "?"@
    } else {
        decimal(value as int) + "%"@
    }
}

/// Formats a bar percentage for telemetry text. A negative value marks a bar that could not be
/// measured; rendering it as `?` keeps a failed scan from reading as a full bar.
pub fn format_percent(value: i32) -> (r: String)
    ensures
        r@ == percent_text(value),
{
    if value < 0 {
        "?".to_string()
    } else {
        let mut out: String = String::new();
        push_decimal(&mut out, value as i64);
        out.append("%");
        assert(out@ =~= percent_text(value));
        out
    }
}

/// A bar is rendered as unknown exactly when it could not be read, and a percentage otherwise:
/// a failed scan never shows as a full bar.
pub proof fn law_a_failed_scan_is_rendered_as_unknown(
    pixels: PixelGrid,
    rule: PixelRule,
    start: u32,
    end: u32,
    y: u32,
)
    requires
        pixels.width > 0,
    ensures
        ({
            let text = percent_text(bar_percent(pixels, rule, start, end, y) as i32);
            &&& unreadable(pixels, start, end, y) ==> text == "?"@
            &&& !unreadable(pixels, start, end, y) ==> text.len() > 1 && text.last() == '%'
        }),
{
    reveal_strlit("%");
    crate::games::action_rpg::law_a_failed_scan_never_reads_as_full(pixels, rule, start, end, y);
    if !unreadable(pixels, start, end, y) {
        let percent = bar_percent(pixels, rule, start, end, y);
        assert(in_base(percent as nat, 10).len() > 0);
    }
}

/// The zone in telemetry text.
pub open spec fn zone_text(location: Seq<char>) -> Seq<char> {
    if location.len() == 0 {
        "Unknown"@
    } else {
        location
    }
}

/// The combat flag in telemetry text.
pub open spec fn combat_text(in_combat: bool) -> Seq<char> {
    if in_combat {
        "IN"@
    } else {
        "OUT"@
    }
}

/// Telemetry as it is sent with every frame.
pub open spec fn telemetry_text(metrics: GameMetrics) -> Seq<char> {
    "[HP: "@ + percent_text(metrics.player_hp) + " | Stamina: "@ + percent_text(metrics.stamina)
        + " | Q: "@ + ability_text(metrics.q_ready) + " | R: "@ + ability_text(metrics.r_ready)
        + " | F: "@ + ability_text(metrics.f_ready) + " | G: "@ + ability_text(metrics.g_ready)
        + " | Combat: "@ + combat_text(metrics.in_combat) + " | Zone: "@ + zone_text(
        metrics.location@,
    ) + "]"@
}

/// Formats telemetry for the text that goes with a frame.
pub fn format_telemetry(metrics: &GameMetrics) -> (r: String)
    ensures
        r@ == telemetry_text(*metrics),
{
    let mut out: String = "[HP: ".to_string();
    out.append(format_percent(metrics.player_hp).as_str());
    out.append(" | Stamina: ");
    out.append(format_percent(metrics.stamina).as_str());
    out.append(" | Q: ");
    out.append(format_ability(metrics.q_ready));
    out.append(" | R: ");
    out.append(format_ability(metrics.r_ready));
    out.append(" | F: ");
    out.append(format_ability(metrics.f_ready));
    out.append(" | G: ");
    out.append(format_ability(metrics.g_ready));
    out.append(" | Combat: ");
    if metrics.in_combat {
        out.append("IN");
    } else {
        out.append("OUT");
    }
    out.append(" | Zone: ");
    if is_empty(metrics.location.as_str()) {
        out.append("Unknown");
    } else {
        out.append(metrics.location.as_str());
    }
    out.append("]");
    out
}

/// Metrics read off a frame, under the zone that the session keeps.
pub open spec fn located(metrics: GameMetrics, location: String) -> GameMetrics {
    GameMetrics {
        player_hp: metrics.player_hp,
        stamina: metrics.stamina,
        q_ready: metrics.q_ready,
        r_ready: metrics.r_ready,
        f_ready: metrics.f_ready,
        g_ready: metrics.g_ready,
        location,
        in_combat: metrics.in_combat,
    }
}

/// Takes over metrics read off a frame and, for a frame that is handed out, its hash.
///
/// The zone is not readable off the pixels, so the session keeps the one it has. The hash of a
/// frame that is not handed out is not kept: it would make every later wait start from the
/// frame that was never seen.
pub fn apply_telemetry(session: &mut SessionState, metrics: GameMetrics, shown: Option<u64>)
    ensures
        final(session).current_metrics == located(metrics, old(session).current_metrics.location),
        final(session).current_metrics.player_hp == metrics.player_hp,
        final(session).current_metrics.stamina == metrics.stamina,
        final(session).current_metrics.q_ready == metrics.q_ready,
        final(session).current_metrics.r_ready == metrics.r_ready,
        final(session).current_metrics.f_ready == metrics.f_ready,
        final(session).current_metrics.g_ready == metrics.g_ready,
        final(session).current_metrics.in_combat == metrics.in_combat,
        final(session).current_metrics.location == old(session).current_metrics.location,
        final(session).last_frame_hash == match shown {
            Some(hash) => Some(hash),
            None => old(session).last_frame_hash,
        },
        final(session).active_game == old(session).active_game,
        final(session).event_history == old(session).event_history,
{
    let location: String = session.current_metrics.location.clone();
    session.current_metrics =
    GameMetrics {
        player_hp: metrics.player_hp,
        stamina: metrics.stamina,
        q_ready: metrics.q_ready,
        r_ready: metrics.r_ready,
        f_ready: metrics.f_ready,
        g_ready: metrics.g_ready,
        location,
        in_combat: metrics.in_combat,
    };
    if let Some(hash) = shown {
        session.last_frame_hash = Some(hash);
    }
}

/// Answer to a capture whose wait ended with a static screen.
pub open spec fn unchanged_text(metrics: GameMetrics) -> Seq<char> {
    "Screen unchanged. Telemetry: "@ + telemetry_text(metrics)
        + ". Wait longer, take an action, or call with force=true for an image."@
}

/// Answers a capture whose wait ended with a static screen.
pub fn unchanged_reply(metrics: &GameMetrics) -> (r: ToolReply)
    ensures
        r.says(false, unchanged_text(*metrics)),
{
    let mut text: String = "Screen unchanged. Telemetry: ".to_string();
    text.append(format_telemetry(metrics).as_str());
    text.append(". Wait longer, take an action, or call with force=true for an image.");
    ToolReply::text(false, text)
}

/// Answers a capture with a JPEG image.
pub fn frame_reply(metrics: &GameMetrics, jpeg: &Vec<u8>) -> (r: Result<ToolReply, ToolError>)
    ensures
        match r {
            Ok(reply) => base64_fits(jpeg@.len()) && is_frame_reply(reply, *metrics, jpeg@),
            Err(error) => !base64_fits(jpeg@.len()) && error.says(
                ErrorKind::Internal,
                "preview is too large to be sent"@,
            ),
        },
{
    match encode_base64(jpeg) {
        Some(data) => {
            let mut text: String = "Frame captured. Telemetry: ".to_string();
            text.append(format_telemetry(metrics).as_str());
            let mut content: Vec<Content> = Vec::new();
            content.push(Content::Text(text));
            content.push(Content::Image { data, mime_type: "image/jpeg".to_string() });
            Ok(ToolReply { is_error: false, content })
        },
        None => Err(internal_error("preview is too large to be sent".to_string())),
    }
}

/// Whether a reply hands out a JPEG image with the telemetry read off it.
pub open spec fn is_frame_reply(reply: ToolReply, metrics: GameMetrics, jpeg: Seq<u8>) -> bool {
    &&& !reply.is_error
    &&& reply.content@.len() == 2
    &&& reply.content@[0].is_text("Frame captured. Telemetry: "@ + telemetry_text(metrics))
    &&& reply.content@[1].is_jpeg(base64_of(jpeg))
}

/// Message for a frame that cannot be encoded.
pub open spec fn encode_failure_text(width: u32, height: u32) -> Seq<char> {
    "failed to encode preview: "@ + jpeg_refusal_text(width, height)
}

/// The button names that tools take, in lower case.
pub open spec fn button_named(lower: Seq<char>) -> Option<Button> {
    if lower == "left"@ {
        Some(Button::Left)
    } else if lower == "right"@ {
        Some(Button::Right)
    } else if lower == "middle"@ {
        Some(Button::Middle)
    } else {
        None
    }
}

/// Answer to an unknown button name.
pub open spec fn invalid_button_text(lower: Seq<char>) -> Seq<char> {
    "Invalid button: "@ + lower + ". Use left/right/middle."@
}

/// The button with a name in lower case.
pub fn named_button(lower: &str) -> (r: Result<Button, ToolError>)
    ensures
        match r {
            Ok(button) => button_named(lower@) == Some(button),
            Err(error) => button_named(lower@) is None && error.says(
                ErrorKind::InvalidParams,
                invalid_button_text(lower@),
            ),
        },
{
    if same_text(lower, "left") {
        return Ok(Button::Left);
    }
    if same_text(lower, "right") {
        return Ok(Button::Right);
    }
    if same_text(lower, "middle") {
        return Ok(Button::Middle);
    }
    let mut message: String = "Invalid button: ".to_string();
    message.append(lower);
    message.append(". Use left/right/middle.");
    Err(invalid_params(message))
}

/// An optional name, or a default when it is absent.
pub open spec fn name_or(name: Option<String>, default: Seq<char>) -> Seq<char> {
    match name {
        Some(name) => name@,
        None => default,
    }
}

/// Lower case of an optional name, or of a default when it is absent.
fn lowercase_or(name: &Option<String>, default: &str) -> (r: String)
    ensures
        r@ == lowercase_of(name_or(*name, default@)),
        vstd::utf8::is_ascii_chars(name_or(*name, default@)) ==> r@ == ascii_lowercase(
            name_or(*name, default@),
        ),
{
    match name {
        Some(name) => name.as_str().to_lowercase(),
        None => default.to_lowercase(),
    }
}

/// Parses a tool's button name argument; the left button when it is absent.
pub fn parse_button(button: &Option<String>) -> (r: Result<Button, ToolError>)
    ensures
        match r {
            Ok(named) => button_named(lowercase_of(name_or(*button, "left"@))) == Some(named),
            Err(error) => button_named(lowercase_of(name_or(*button, "left"@))) is None
                && error.says(
                ErrorKind::InvalidParams,
                invalid_button_text(lowercase_of(name_or(*button, "left"@))),
            ),
        },
        *button is None ==> r == Ok::<Button, ToolError>(Button::Left),
        vstd::utf8::is_ascii_chars(name_or(*button, "left"@)) ==> lowercase_of(
            name_or(*button, "left"@),
        ) == ascii_lowercase(name_or(*button, "left"@)),
{
    let lower: String = lowercase_or(button, "left");
    proof {
        reveal_strlit("left");
        reveal_strlit("right");
        reveal_strlit("middle");
        if *button is None {
            assert(vstd::utf8::is_ascii_chars("left"@));
            assert(ascii_lowercase("left"@) =~= "left"@);
        }
    }
    named_button(lower.as_str())
}

/// A button in a message.
pub open spec fn button_text(button: Button) -> Seq<char> {
    match button {
        Button::Left => "Left"@,
        Button::Middle => "Middle"@,
        Button::Right => "Right"@,
        Button::Back => "Back"@,
        Button::Forward => "Forward"@,
        Button::ScrollUp => "ScrollUp"@,
        Button::ScrollDown => "ScrollDown"@,
        Button::ScrollLeft => "ScrollLeft"@,
        Button::ScrollRight => "ScrollRight"@,
    }
}

/// Name of a button for messages.
pub fn button_name(button: Button) -> (r: &'static str)
    ensures
        r@ == button_text(button),
{
    match button {
        Button::Left => "Left",
        Button::Middle => "Middle",
        Button::Right => "Right",
        Button::Back => "Back",
        Button::Forward => "Forward",
        Button::ScrollUp => "ScrollUp",
        Button::ScrollDown => "ScrollDown",
        Button::ScrollLeft => "ScrollLeft",
        Button::ScrollRight => "ScrollRight",
    }
}

/// Action requested by `hold_mouse`.
#[derive(Debug, Clone, Copy, PartialEq, Eq, Structural)]
pub enum HoldAction {
    /// Press, wait, release.
    Hold,
    /// Keep the button held down.
    Press,
    /// Release a held button.
    Release,
}

/// The hold actions that `hold_mouse` takes, in lower case.
pub open spec fn hold_action_named(lower: Seq<char>) -> Option<HoldAction> {
    if lower == "hold"@ {
        Some(HoldAction::Hold)
    } else if lower == "press"@ {
        Some(HoldAction::Press)
    } else if lower == "release"@ {
        Some(HoldAction::Release)
    } else {
        None
    }
}

/// Answer to an unknown hold action.
pub open spec fn invalid_action_text(lower: Seq<char>) -> Seq<char> {
    "Invalid action: "@ + lower + ". Use hold/press/release."@
}

/// The hold action with a name in lower case.
pub fn named_hold_action(lower: &str) -> (r: Result<HoldAction, ToolError>)
    ensures
        match r {
            Ok(action) => hold_action_named(lower@) == Some(action),
            Err(error) => hold_action_named(lower@) is None && error.says(
                ErrorKind::InvalidParams,
                invalid_action_text(lower@),
            ),
        },
{
    if same_text(lower, "hold") {
        return Ok(HoldAction::Hold);
    }
    if same_text(lower, "press") {
        return Ok(HoldAction::Press);
    }
    if same_text(lower, "release") {
        return Ok(HoldAction::Release);
    }
    let mut message: String = "Invalid action: ".to_string();
    message.append(lower);
    message.append(". Use hold/press/release.");
    Err(invalid_params(message))
}

/// Parses a tool's hold action argument; `Hold` when it is absent.
pub fn parse_hold_action(action: &Option<String>) -> (r: Result<HoldAction, ToolError>)
    ensures
        match r {
            Ok(named) => hold_action_named(lowercase_of(name_or(*action, "hold"@))) == Some(named),
            Err(error) => hold_action_named(lowercase_of(name_or(*action, "hold"@))) is None
                && error.says(
                ErrorKind::InvalidParams,
                invalid_action_text(lowercase_of(name_or(*action, "hold"@))),
            ),
        },
        *action is None ==> r == Ok::<HoldAction, ToolError>(HoldAction::Hold),
        vstd::utf8::is_ascii_chars(name_or(*action, "hold"@)) ==> lowercase_of(
            name_or(*action, "hold"@),
        ) == ascii_lowercase(name_or(*action, "hold"@)),
{
    let lower: String = lowercase_or(action, "hold");
    proof {
        reveal_strlit("hold");
        reveal_strlit("press");
        reveal_strlit("release");
        if *action is None {
            assert(vstd::utf8::is_ascii_chars("hold"@));
            assert(ascii_lowercase("hold"@) =~= "hold"@);
        }
    }
    named_hold_action(lower.as_str())
}

/// Answer to a scancode that the backend cannot send.
pub open spec fn unsupported_scancode_text(scancode: u16) -> Seq<char> {
    "Scancode 0x"@ + in_base(scancode as nat, 16)
        + " cannot be sent by the active input backend."@
}

/// Rejects a scancode the active input backend cannot dispatch.
///
/// The enigo backend accepts every Set 1 scancode, but the input-simulator backend works in
/// virtual-key space, so a scancode without a virtual-key equivalent is an invalid argument
/// rather than an internal failure.
pub fn ensure_scancode_supported(backend: Backend, scancode: u16) -> (r: Result<(), ToolError>)
    ensures
        match r {
            Ok(_) => backend_code(backend, scancode) is Some,
            Err(error) => backend_code(backend, scancode) is None && error.says(
                ErrorKind::InvalidParams,
                unsupported_scancode_text(scancode),
            ),
        },
{
    if scancode_supported(backend, scancode) {
        return Ok(());
    }
    let mut message: String = "Scancode 0x".to_string();
    push_hex(&mut message, scancode as u64);
    message.append(" cannot be sent by the active input backend.");
    Err(invalid_params(message))
}

/// Result of planning a key hold: the key's steps and its message, or why it cannot be sent.
pub open spec fn plans_key_hold(
    r: Result<InputPlan, ToolError>,
    backend: Backend,
    scancode: u16,
    millis: u64,
    message: Seq<char>,
) -> bool {
    match r {
        Ok(plan) => backend_code(backend, scancode) is Some && plan.actions@ == key_hold(
            backend_code(backend, scancode)->0,
            millis,
        ) && plan.message@ == message,
        Err(error) => backend_code(backend, scancode) is None && error.says(
            ErrorKind::InvalidParams,
            unsupported_scancode_text(scancode),
        ),
    }
}

fn plan_key_hold(backend: Backend, scancode: u16, millis: u64, message: String) -> (r: Result<
    InputPlan,
    ToolError,
>)
    ensures
        plans_key_hold(r, backend, scancode, millis, message@),
{
    match ensure_scancode_supported(backend, scancode) {
        Ok(_) => {},
        Err(error) => {
            return Err(error);
        },
    }
    match hold_scancode(backend, scancode, millis) {
        Ok(actions) => Ok(InputPlan { actions, message }),
        Err(error) => Err(internal_error(error)),
    }
}

/// Message after a player move.
pub open spec fn moved_text(lower: Seq<char>, millis: u64) -> Seq<char> {
    "Moved "@ + lower + " for "@ + decimal(millis as int) + " ms."@
}

/// Answer to an unknown direction.
pub open spec fn invalid_direction_text(direction: Seq<char>) -> Seq<char> {
    "Invalid direction mapping: "@ + direction + ". Use forward/back/left/right."@
}

/// Message after a key press.
pub open spec fn pressed_text(key: Seq<char>, millis: u64) -> Seq<char> {
    "Key '"@ + key + "' pressed for "@ + decimal(millis as int) + " ms."@
}

/// Answer to an unknown key.
pub open spec fn invalid_key_text(quoted: Seq<char>) -> Seq<char> {
    "Invalid key: "@ + quoted
        + ". Use a single character (e.g. \"e\", \"1\", \" \") or a named key (e.g. \"space\", \"enter\", \"escape\", \"tab\", \"f1\")."@
}

/// Rejects an unknown key, given in quotes.
pub fn invalid_key(quoted: &str) -> (r: ToolError)
    ensures
        r.says(ErrorKind::InvalidParams, invalid_key_text(quoted@)),
{
    let mut message: String = "Invalid key: ".to_string();
    message.append(quoted);
    message.append(
        ". Use a single character (e.g. \"e\", \"1\", \" \") or a named key (e.g. \"space\", \"enter\", \"escape\", \"tab\", \"f1\").",
    );
    invalid_params(message)
}

/// Message after typing a text, given in quotes.
pub fn typed_message(quoted: &str) -> (r: String)
    ensures
        r@ == "Typed text: "@ + quoted@,
{
    let mut message: String = "Typed text: ".to_string();
    message.append(quoted);
    message
}

/// Longest edges of a captured source and of its preview.
#[derive(Debug, Clone, Copy, PartialEq, Eq, Structural)]
pub struct FrameScale {
    pub source_longest: u32,
    pub preview_longest: u32,
}

/// The longer of two edges.
pub open spec fn longest(a: u32, b: u32) -> u32 {
    if a > b {
        a
    } else {
        b
    }
}

/// Scale from a frame's preview up to its source; no scaling for an empty preview.
pub open spec fn frame_scale(frame: FramePayload) -> FrameScale {
    if longest(frame.width, frame.height) == 0 {
        FrameScale { source_longest: 1, preview_longest: 1 }
    } else {
        FrameScale {
            source_longest: longest(frame.source_width, frame.source_height),
            preview_longest: longest(frame.width, frame.height),
        }
    }
}

impl FrameScale {
    /// Scale from a frame's preview up to its source. Using the source's own pixel dimensions
    /// rather than the display's keeps the mapping correct for window capture.
    pub fn of_frame(frame: &FramePayload) -> (r: Self)
        ensures
            r == frame_scale(*frame),
            r.preview_longest > 0,
            frame.width > 0 || frame.height > 0 ==> {
                &&& r.preview_longest == frame.width || r.preview_longest == frame.height
                &&& r.preview_longest >= frame.width && r.preview_longest >= frame.height
                &&& r.source_longest == frame.source_width || r.source_longest
                    == frame.source_height
                &&& r.source_longest >= frame.source_width && r.source_longest
                    >= frame.source_height
            },
            frame.width == 0 && frame.height == 0 ==> r.source_longest == r.preview_longest,
    {
        let preview_longest: u32 = if frame.width > frame.height {
            frame.width
        } else {
            frame.height
        };
        let source_longest: u32 = if frame.source_width > frame.source_height {
            frame.source_width
        } else {
            frame.source_height
        };
        if preview_longest == 0 {
            FrameScale { source_longest: 1, preview_longest: 1 }
        } else {
            FrameScale { source_longest, preview_longest }
        }
    }

    /// The native position of an image position.
    pub open spec fn native(self, x: i32, y: i32) -> Point {
        Point {
            x: scaled_position(
                x as int,
                self.source_longest as nat,
                self.preview_longest as nat,
            ) as i32,
            y: scaled_position(
                y as int,
                self.source_longest as nat,
                self.preview_longest as nat,
            ) as i32,
        }
    }
}

/// A position of a frame's preview is mapped onto the same spot of its source, along both axes:
/// scaled by the longer source edge over the longer preview edge, at most half a native pixel
/// off but for a few millionths. Only a spot at the end of the coordinate range or beyond is
/// cut off there.
pub proof fn law_image_positions_land_on_the_same_spot(frame: FramePayload, x: i32, y: i32)
    requires
        frame.width > 0 || frame.height > 0,
    ensures
        ({
            let preview: int = if frame.width > frame.height {
                frame.width as int
            } else {
                frame.height as int
            };
            let source: int = if frame.source_width > frame.source_height {
                frame.source_width as int
            } else {
                frame.source_height as int
            };
            let target = frame_scale(frame).native(x, y);
            &&& i32::MIN < target.x < i32::MAX ==> gap(target.x * preview, x * source) < preview
            &&& i32::MIN < target.y < i32::MAX ==> gap(target.y * preview, y * source) < preview
            &&& i32::MIN < target.x < i32::MAX ==> 0x10_0000 * gap(target.x * preview, x * source)
                <= 0x8_0003 * preview
            &&& i32::MIN < target.y < i32::MAX ==> 0x10_0000 * gap(target.y * preview, y * source)
                <= 0x8_0003 * preview
            &&& -0x7FFF_FFFE * preview <= x * source <= 0x7FFF_FFFE * preview ==> i32::MIN
                < target.x < i32::MAX
            &&& -0x7FFF_FFFE * preview <= y * source <= 0x7FFF_FFFE * preview ==> i32::MIN
                < target.y < i32::MAX
            &&& x * source >= 0x8000_0000 * preview ==> target.x == i32::MAX
            &&& y * source >= 0x8000_0000 * preview ==> target.y == i32::MAX
            &&& x * source <= -0x8000_0000 * preview ==> target.x == i32::MIN
            &&& y * source <= -0x8000_0000 * preview ==> target.y == i32::MIN
        }),
{
    let scale = frame_scale(frame);
    law_positions_land_on_the_same_spot(x, scale.source_longest, scale.preview_longest);
    law_positions_land_on_the_same_spot(y, scale.source_longest, scale.preview_longest);
}

/// On a preview as large as its source, and on a frame without a preview, positions stay where
/// they are.
pub proof fn law_unscaled_positions_stay_where_they_are(frame: FramePayload, x: i32, y: i32)
    requires
        ({
            ||| frame.width == frame.source_width && frame.height == frame.source_height
            ||| frame.width == frame.source_height && frame.height == frame.source_width
            ||| frame.width == 0 && frame.height == 0
        }),
    ensures
        frame_scale(frame).native(x, y) == (Point { x, y }),
{
    law_same_size_keeps_positions(x, frame_scale(frame).preview_longest);
    law_same_size_keeps_positions(y, frame_scale(frame).preview_longest);
}

/// How a mouse move is carried out.
#[derive(Debug, Clone, Copy, PartialEq, Eq, Structural)]
pub enum MoveStyle {
    /// One raw relative event: game cameras consume mickey deltas, and interpolating them
    /// would turn one look into a swing.
    Relative,
    /// A human-like path to the target.
    HumanLike,
    /// One absolute event.
    Instant,
}

/// A mouse move that was checked and scaled.
#[derive(Debug, Clone, Copy, PartialEq, Eq, Structural)]
pub struct MousePlan {
    /// The arguments of the call.
    pub requested: Point,
    /// Target in native pixels, or the delta of a relative move.
    pub target: Point,
    pub style: MoveStyle,
    /// Scale of an absolute move; one to one for a relative one.
    pub scale: FrameScale,
}

impl MousePlan {
    /// The single event of a move that is not interpolated.
    pub fn single_event(&self) -> (r: Option<InputAction>)
        ensures
            r == match self.style {
                MoveStyle::Relative => Some(
                    InputAction::MoveMouse {
                        x: self.target.x,
                        y: self.target.y,
                        coordinate: Coordinate::Rel,
                    },
                ),
                MoveStyle::Instant => Some(
                    InputAction::MoveMouse {
                        x: self.target.x,
                        y: self.target.y,
                        coordinate: Coordinate::Abs,
                    },
                ),
                MoveStyle::HumanLike => None,
            },
    {
        match self.style {
            MoveStyle::Relative => Some(
                InputAction::MoveMouse {
                    x: self.target.x,
                    y: self.target.y,
                    coordinate: Coordinate::Rel,
                },
            ),
            MoveStyle::Instant => Some(
                InputAction::MoveMouse {
                    x: self.target.x,
                    y: self.target.y,
                    coordinate: Coordinate::Abs,
                },
            ),
            MoveStyle::HumanLike => None,
        }
    }

    /// Message after the move, with the scale as text, the number of steps of an interpolated
    /// move and the cursor position that was read back.
    pub fn message(&self, scale_text: &str, steps: usize, position: Point) -> (r: String)
        ensures
            r@ == mouse_moved_text(*self, scale_text@, steps as nat, position),
    {
        let mut out: String = match self.style {
            MoveStyle::Relative => "Mouse moved by relative delta ".to_string(),
            MoveStyle::HumanLike => {
                let mut out: String = "Mouse moved along a ".to_string();
                push_unsigned(&mut out, steps as u64);
                out.append("-step WindMouse path to image ");
                out
            },
            MoveStyle::Instant => "Mouse moved to image ".to_string(),
        };
        push_point(&mut out, self.requested);
        match self.style {
            MoveStyle::Relative => {},
            _ => {
                out.append(" -> native ");
                push_point(&mut out, self.target);
                out.append(" (scale ");
                out.append(scale_text);
                out.append(")");
            },
        }
        out.append("; now at cursor ");
        push_point(&mut out, position);
        out.append(".");
        out
    }
}

/// A point in a message.
pub open spec fn point_text(point: Point) -> Seq<char> {
    "("@ + decimal(point.x as int) + ", "@ + decimal(point.y as int) + ")"@
}

/// Message after a mouse move.
pub open spec fn mouse_moved_text(
    plan: MousePlan,
    scale_text: Seq<char>,
    steps: nat,
    position: Point,
) -> Seq<char> {
    let kind = match plan.style {
        MoveStyle::Relative => "Mouse moved by relative delta "@,
        MoveStyle::HumanLike => "Mouse moved along a "@ + decimal(steps as int)
            + "-step WindMouse path to image "@,
        MoveStyle::Instant => "Mouse moved to image "@,
    };
    let opening = kind + point_text(plan.requested);
    let mapped = match plan.style {
        MoveStyle::Relative => opening,
        _ => opening + " -> native "@ + point_text(plan.target) + " (scale "@ + scale_text + ")"@,
    };
    mapped + "; now at cursor "@ + point_text(position) + "."@
}

/// Appends a point to a message.
fn push_point(out: &mut String, point: Point)
    ensures
        final(out)@ == old(out)@ + point_text(point),
{
    out.append("(");
    push_decimal(out, point.x as i64);
    out.append(", ");
    push_decimal(out, point.y as i64);
    out.append(")");
    assert(out@ =~= old(out)@ + point_text(point));
}

/// A checked `hold_mouse` call.
pub struct HoldPlan {
    pub button: Button,
    pub action: HoldAction,
    pub actions: Vec<InputAction>,
    pub message: String,
}

/// Steps of a hold action.
pub open spec fn hold_steps(button: Button, action: HoldAction, millis: u64) -> Seq<InputAction> {
    match action {
        HoldAction::Hold => seq![
            InputAction::MouseButton { button, direction: Direction::Press },
            InputAction::Sleep { millis },
            InputAction::MouseButton { button, direction: Direction::Release },
        ],
        HoldAction::Press => seq![
            InputAction::MouseButton { button, direction: Direction::Press },
        ],
        HoldAction::Release => seq![
            InputAction::MouseButton { button, direction: Direction::Release },
        ],
    }
}

/// Message after a hold action.
pub open spec fn held_text(button: Button, action: HoldAction, millis: u64) -> Seq<char> {
    match action {
        HoldAction::Hold => "Held "@ + button_text(button) + " mouse button for "@ + decimal(
            millis as int,
        ) + " ms, then released."@,
        HoldAction::Press => "Mouse button "@ + button_text(button) + " pressed (held down)."@,
        HoldAction::Release => "Mouse button "@ + button_text(button) + " released."@,
    }
}

/// Answer to pressing a button that is already held.
pub open spec fn already_held_text(button: Button) -> Seq<char> {
    "Mouse button "@ + button_text(button) + " is already held down. Release it first."@
}

/// Plans a hold action on the held buttons.
///
/// A press (or a hold, which starts with one) of a button that is already held is rejected
/// instead of silently stacking. A press is recorded before it is sent, so that a button that
/// may be down is never forgotten; a release is recorded once it was sent.
pub fn plan_hold(held: &mut HeldButtons, button: Button, action: HoldAction, millis: u64) -> (r:
    Result<HoldPlan, ToolError>)
    ensures
        ({
            let rejected = action != HoldAction::Release && old(held)@.contains(button);
            &&& final(held)@ == if rejected || action == HoldAction::Release {
                old(held)@
            } else {
                old(held)@.push(button)
            }
            &&& old(held).wf() ==> final(held).wf()
            &&& match r {
                Ok(plan) => {
                    &&& !rejected
                    &&& plan.button == button
                    &&& plan.action == action
                    &&& plan.actions@ == hold_steps(button, action, millis)
                    &&& plan.message@ == held_text(button, action, millis)
                },
                Err(error) => rejected && error.says(
                    ErrorKind::InvalidParams,
                    already_held_text(button),
                ),
            }
        }),
{
    if action != HoldAction::Release {
        if !held.press(button) {
            let mut message: String = "Mouse button ".to_string();
            message.append(button_name(button));
            message.append(" is already held down. Release it first.");
            return Err(invalid_params(message));
        }
    }
    let mut actions: Vec<InputAction> = Vec::new();
    let message: String = match action {
        HoldAction::Hold => {
            actions.push(InputAction::MouseButton { button, direction: Direction::Press });
            actions.push(InputAction::Sleep { millis });
            actions.push(InputAction::MouseButton { button, direction: Direction::Release });
            let mut message: String = "Held ".to_string();
            message.append(button_name(button));
            message.append(" mouse button for ");
            push_unsigned(&mut message, millis);
            message.append(" ms, then released.");
            message
        },
        HoldAction::Press => {
            actions.push(InputAction::MouseButton { button, direction: Direction::Press });
            let mut message: String = "Mouse button ".to_string();
            message.append(button_name(button));
            message.append(" pressed (held down).");
            message
        },
        HoldAction::Release => {
            actions.push(InputAction::MouseButton { button, direction: Direction::Release });
            let mut message: String = "Mouse button ".to_string();
            message.append(button_name(button));
            message.append(" released.");
            message
        },
    };
    assert(actions@ =~= hold_steps(button, action, millis));
    Ok(HoldPlan { button, action, actions, message })
}

/// Whether a button is down, or may be, after the first `sent` steps of a hold action: a press
/// that was not sent leaves it up, and so does a release that was.
pub open spec fn down_after(action: HoldAction, sent: nat) -> bool {
    match action {
        HoldAction::Hold => 0 < sent < 3,
        HoldAction::Press => sent > 0,
        HoldAction::Release => sent == 0,
    }
}

/// The held buttons after the first `sent` steps of a hold action.
pub open spec fn after_hold(
    held: Seq<Button>,
    button: Button,
    action: HoldAction,
    sent: nat,
) -> Seq<Button> {
    if !down_after(action, sent) && held.contains(button) {
        held.remove(crate::state::position_of(held, button))
    } else {
        held
    }
}

/// Takes note of what became of a hold action of which the first `sent` steps went through: a
/// button that is not down is not held. One whose release failed stays recorded.
pub fn finish_hold(held: &mut HeldButtons, button: Button, action: HoldAction, sent: usize)
    ensures
        final(held)@ == after_hold(old(held)@, button, action, sent as nat),
        old(held).wf() ==> final(held).wf(),
{
    let down: bool = match action {
        HoldAction::Hold => 0 < sent && sent < 3,
        HoldAction::Press => sent > 0,
        HoldAction::Release => sent == 0,
    };
    if !down {
        let was_held: bool = held.release(button);
    }
}

/// A hold that was carried out leaves the held buttons as they were, and so does a press that
/// is released again, and one that was never sent.
pub proof fn law_a_finished_hold_leaves_nothing_held(held: Seq<Button>, button: Button, millis: u64)
    requires
        !held.contains(button),
    ensures
        ({
            let recorded = held.push(button);
            let whole = |action: HoldAction| hold_steps(button, action, millis).len();
            let pressed = after_hold(
                recorded,
                button,
                HoldAction::Press,
                whole(HoldAction::Press),
            );
            &&& after_hold(recorded, button, HoldAction::Hold, whole(HoldAction::Hold)) == held
            &&& pressed == recorded
            &&& after_hold(pressed, button, HoldAction::Release, whole(HoldAction::Release)) == held
            &&& after_hold(recorded, button, HoldAction::Hold, 0) == held
            &&& after_hold(recorded, button, HoldAction::Press, 0) == held
        }),
{
    crate::state::law_release_undoes_a_press(held, button);
}

/// Releases whatever is still held when the session ends.
pub fn release_all(held: &mut HeldButtons) -> (r: Vec<InputAction>)
    ensures
        r@ == old(held)@.map_values(
            |button: Button|
                InputAction::MouseButton { button, direction: Direction::Release },
        ),
        final(held)@ == Seq::<Button>::empty(),
        final(held).wf(),
{
    let buttons: Vec<Button> = held.take_all();
    let mut actions: Vec<InputAction> = Vec::new();
    let mut i: usize = 0;
    while i < buttons.len()
        invariant
            i <= buttons@.len(),
            actions@ == buttons@.take(i as int).map_values(
                |button: Button|
                    InputAction::MouseButton { button, direction: Direction::Release },
            ),
        decreases buttons@.len() - i,
    {
        actions.push(
            InputAction::MouseButton { button: buttons[i], direction: Direction::Release },
        );
        assert(buttons@.take(i + 1) =~= buttons@.take(i as int).push(buttons@[i as int]));
        i = i + 1;
    }
    assert(buttons@.take(i as int) =~= buttons@);
    actions
}

/// Message after scrolling.
pub open spec fn scrolled_text(amount: i32) -> Seq<char> {
    let clicks = if amount < 0 {
        -amount
    } else {
        amount as int
    };
    let way = if amount >= 0 {
        "up"@
    } else {
        "down"@
    };
    "Scrolled "@ + decimal(clicks) + " clicks "@ + way + "."@
}

/// Message after waiting.
pub open spec fn waited_text(millis: u64, reason: Option<String>) -> Seq<char> {
    let opening = "Waited "@ + decimal(millis as int) + " ms"@;
    match reason {
        Some(reason) => if reason@.len() > 0 {
            opening + ": "@ + reason@ + "."@
        } else {
            opening + "."@
        },
        None => opening + "."@,
    }
}

/// The mob type of a farming prompt.
pub open spec fn farm_target(target: Option<String>) -> Seq<char> {
    match target {
        Some(target) => if target@.len() > 0 {
            target@
        } else {
            "any nearby mob"@
        },
        None => "any nearby mob"@,
    }
}

/// The potion threshold of a farming prompt, a percentage.
pub open spec fn farm_threshold(threshold: Option<i32>) -> int {
    match threshold {
        Some(threshold) => if threshold < 0 {
            0
        } else if threshold > 100 {
            100
        } else {
            threshold as int
        },
        None => 30,
    }
}

/// The minutes of a farming prompt.
pub open spec fn farm_minutes(minutes: Option<u32>) -> int {
    match minutes {
        Some(minutes) => minutes as int,
        None => 10,
    }
}

/// A farming prompt: the template with its placeholders filled in, one after the other.
pub open spec fn farm_prompt(template: Seq<char>, args: StartFarmArgs) -> Seq<char> {
    replaced(
        replaced(
            replaced(template, "{target}"@, farm_target(args.target)),
            "{duration}"@,
            decimal(farm_minutes(args.duration_minutes)),
        ),
        "{potion_threshold}"@,
        decimal(farm_threshold(args.potion_threshold)),
    )
}

/// Prompt instructions for a farming loop, from a template.
pub fn start_farm(template: &str, args: &StartFarmArgs) -> (r: String)
    ensures
        r@ == farm_prompt(template@, *args),
{
    let target: &str = match &args.target {
        Some(target) => if is_empty(target.as_str()) {
            "any nearby mob"
        } else {
            target.as_str()
        },
        None => "any nearby mob",
    };
    let mut minutes: String = String::new();
    match args.duration_minutes {
        Some(count) => push_unsigned(&mut minutes, count as u64),
        None => push_unsigned(&mut minutes, 10),
    }
    let percent: i32 = match args.potion_threshold {
        Some(threshold) => if threshold < 0 {
            0
        } else if threshold > 100 {
            100
        } else {
            threshold
        },
        None => 30,
    };
    let mut threshold: String = String::new();
    push_decimal(&mut threshold, percent as i64);
    proof {
        reveal_strlit("{target}");
        reveal_strlit("{duration}");
        reveal_strlit("{potion_threshold}");
        assert(minutes@ =~= decimal(farm_minutes(args.duration_minutes)));
        assert(threshold@ =~= decimal(farm_threshold(args.potion_threshold)));
    }
    let named: String = replace_all(template, "{target}", target);
    let timed: String = replace_all(named.as_str(), "{duration}", minutes.as_str());
    replace_all(timed.as_str(), "{potion_threshold}", threshold.as_str())
}

/// Answer to a prompt whose template cannot be read.
pub fn unreadable_template(path: &str, error: &str) -> (r: ToolError)
    ensures
        r.says(
            ErrorKind::Internal,
            "failed to read prompt instructions from "@ + path@ + ": "@ + error@,
        ),
{
    let mut message: String = "failed to read prompt instructions from ".to_string();
    message.append(path);
    message.append(": ");
    message.append(error);
    internal_error(message)
}

/// Settings shared by all tools.
#[derive(Debug, Clone, Copy)]
pub struct GameServer {
    /// Tool limits loaded from the configuration file.
    pub limits: ServerConfig,
    /// Quality of the on-demand JPEG encode, from the capture configuration.
    pub jpeg_quality: u8,
    /// Backend that the input is sent through.
    pub backend: Backend,
}

impl GameServer {
    pub fn new(limits: ServerConfig, jpeg_quality: u8, backend: Backend) -> (r: Self)
        ensures
            r.limits == limits,
            r.jpeg_quality == jpeg_quality,
            r.backend == backend,
    {
        GameServer { limits, jpeg_quality, backend }
    }

    /// Whether a capture waits for the screen to change first. A forced one returns the latest
    /// frame at once, which is the only way to inspect a screen that stays static.
    pub fn waits_for_change(&self, args: &CaptureScreenArgs) -> (r: bool)
        ensures
            r == (args.force != Some(true)),
    {
        match args.force {
            Some(force) => !force,
            None => true,
        }
    }

    /// Answers a capture from the published frame, after the wait for a change has ended or
    /// was skipped.
    ///
    /// Telemetry is read off the frame and kept in the session. The image is encoded only when
    /// it is handed out: a capture that timed out on a static screen returns text alone.
    pub fn capture_screen(
        &self,
        session: &mut SessionState,
        frame: Option<&FramePayload>,
        timed_out: bool,
    ) -> (r: Result<ToolReply, ToolError>)
        requires
            frame matches Some(f) ==> timed_out || !f.grid().complete() || f.rgb@.len() <= f.width
                * f.height * 3,
        ensures
            final(session).active_game == old(session).active_game,
            final(session).event_history == old(session).event_history,
            frame is None ==> {
                &&& *final(session) == *old(session)
                &&& r matches Ok(reply) && reply.says(
                    true,
                    "No active display buffer detected yet. Try again."@,
                )
            },
            frame matches Some(f) ==> !f.grid().complete() ==> {
                &&& *final(session) == *old(session)
                &&& r matches Ok(reply) && reply.says(
                    true,
                    "Published display frame is malformed. Try again."@,
                )
            },
            frame matches Some(f) ==> f.grid().complete() ==> {
                let metrics = final(session).current_metrics;
                &&& was_read(
                    *old(session),
                    f.grid(),
                    (Resolution { width: f.width, height: f.height }),
                    metrics,
                )
                &&& final(session).last_frame_hash == if timed_out {
                    old(session).last_frame_hash
                } else {
                    Some(f.hash)
                }
                &&& answers_capture(r, *f, self.jpeg_quality, timed_out, metrics)
            },
    {
        let frame: &FramePayload = match frame {
            Some(frame) => frame,
            None => {
                return Ok(
                    ToolReply::text(
                        true,
                        "No active display buffer detected yet. Try again.".to_string(),
                    ),
                );
            },
        };
        let metrics: GameMetrics = match frame.as_rgb_view() {
            Some(pixels) => {
                let resolution: Resolution = Resolution::new(frame.width, frame.height);
                session.active_game.parse_telemetry(&pixels, resolution)
            },
            None => {
                return Ok(
                    ToolReply::text(
                        true,
                        "Published display frame is malformed. Try again.".to_string(),
                    ),
                );
            },
        };
        let shown: Option<u64> = if timed_out {
            None
        } else {
            Some(frame.hash)
        };
        proof {
            assert(session.active_game.reads(
                frame.grid(),
                Resolution { width: frame.width, height: frame.height },
                metrics,
            ));
        }
        apply_telemetry(session, metrics, shown);
        if timed_out {
            return Ok(unchanged_reply(&session.current_metrics));
        }
        match frame.encode_jpeg(self.jpeg_quality) {
            Ok(jpeg) => frame_reply(&session.current_metrics, &jpeg),
            Err(error) => {
                let mut message: String = "failed to encode preview: ".to_string();
                message.append(error.as_str());
                Err(internal_error(message))
            },
        }
    }

    /// Updates the active zone identifier when entering a new area.
    pub fn set_zone(&self, session: &mut SessionState, args: &SetZoneArgs) -> (r: ToolReply)
        ensures
            r.says(false, "Active zone set to: "@ + args.location@ + "."@),
            final(session).current_metrics == located(
                old(session).current_metrics,
                args.location,
            ),
            final(session).current_metrics.location@ == args.location@,
            final(session).current_metrics.player_hp == old(session).current_metrics.player_hp,
            final(session).current_metrics.stamina == old(session).current_metrics.stamina,
            final(session).current_metrics.q_ready == old(session).current_metrics.q_ready,
            final(session).current_metrics.r_ready == old(session).current_metrics.r_ready,
            final(session).current_metrics.f_ready == old(session).current_metrics.f_ready,
            final(session).current_metrics.g_ready == old(session).current_metrics.g_ready,
            final(session).current_metrics.in_combat == old(session).current_metrics.in_combat,
            final(session).active_game == old(session).active_game,
            final(session).last_frame_hash == old(session).last_frame_hash,
            final(session).event_history@.len() > 0,
            final(session).event_history@ == history_with(
                old(session).event_history@,
                final(session).event_history@.last(),
            ),
            final(session).event_history@.last().action_taken@ == "Zone updated: "@
                + args.location@,
            final(session).event_history@.last().state_snapshot == final(session).current_metrics,
    {
        session.current_metrics.location = args.location.clone();
        let mut event: String = "Zone updated: ".to_string();
        event.append(args.location.as_str());
        session.record_event(event);
        let mut text: String = "Active zone set to: ".to_string();
        text.append(args.location.as_str());
        text.append(".");
        ToolReply::text(false, text)
    }

    /// Plans a player move: the movement key held for the given duration.
    pub fn move_player(&self, args: &MovePlayerArgs) -> (r: Result<InputPlan, ToolError>)
        ensures
            self.plans_player_move(r, *args, lowercase_of(args.direction@)),
            vstd::utf8::is_ascii_chars(args.direction@) ==> self.plans_player_move(
                r,
                *args,
                ascii_lowercase(args.direction@),
            ),
            r matches Ok(plan) ==> {
                let millis = plan.actions@[1]->millis;
                let limit = self.limits.max_hold_ms;
                &&& plan.actions@.len() == 3
                &&& plan.actions@[1] == (InputAction::Sleep { millis })
                &&& args.duration_ms matches Some(asked) ==> (asked <= limit ==> millis == asked)
                &&& args.duration_ms matches Some(asked) ==> (asked > limit ==> millis == limit)
                &&& args.duration_ms is None ==> (limit >= 500 ==> millis == 500)
                &&& args.duration_ms is None ==> (limit < 500 ==> millis == limit)
            },
    {
        let lower: String = args.direction.as_str().to_lowercase();
        self.move_player_lowercased(args, lower.as_str())
    }

    /// Whether `r` is the plan for a player move whose direction reads `lower` in lower case.
    pub open spec fn plans_player_move(
        self,
        r: Result<InputPlan, ToolError>,
        args: MovePlayerArgs,
        lower: Seq<char>,
    ) -> bool {
        let millis = capped_millis(args.duration_ms, 500, self.limits.max_hold_ms);
        match direction_code(lower) {
            Some(scancode) => plans_key_hold(
                r,
                self.backend,
                scancode,
                millis,
                moved_text(lower, millis),
            ),
            None => r matches Err(error) && error.says(
                ErrorKind::InvalidParams,
                invalid_direction_text(args.direction@),
            ),
        }
    }

    /// Plans a player move whose direction reads `lower` in lower case.
    pub fn move_player_lowercased(&self, args: &MovePlayerArgs, lower: &str) -> (r: Result<
        InputPlan,
        ToolError,
    >)
        ensures
            self.plans_player_move(r, *args, lower@),
    {
        match lowercase_direction_scancode(lower) {
            Some(scancode) => {
                let millis: u64 = cap_millis(args.duration_ms, 500, self.limits.max_hold_ms);
                let mut message: String = "Moved ".to_string();
                message.append(lower);
                message.append(" for ");
                push_unsigned(&mut message, millis);
                message.append(" ms.");
                plan_key_hold(self.backend, scancode, millis, message)
            },
            None => {
                let mut message: String = "Invalid direction mapping: ".to_string();
                message.append(args.direction.as_str());
                message.append(". Use forward/back/left/right.");
                Err(invalid_params(message))
            },
        }
    }

    /// Plans a key press, optionally held.
    ///
    /// The key is dispatched as a physical scancode so that game engines receive it regardless
    /// of the active keyboard layout.
    pub fn press_key(&self, args: &PressKeyArgs) -> (r: Result<InputPlan, ToolError>)
        ensures
            self.plans_key_press(r, *args, lowercase_of(args.key@)),
            vstd::utf8::is_ascii_chars(args.key@) ==> self.plans_key_press(
                r,
                *args,
                ascii_lowercase(args.key@),
            ),
            r matches Ok(plan) ==> {
                let millis = plan.actions@[1]->millis;
                let limit = self.limits.max_hold_ms;
                &&& plan.actions@.len() == 3
                &&& plan.actions@[1] == (InputAction::Sleep { millis })
                &&& args.duration_ms matches Some(asked) ==> (asked <= limit ==> millis == asked)
                &&& args.duration_ms matches Some(asked) ==> (asked > limit ==> millis == limit)
                &&& args.duration_ms is None ==> (limit >= 50 ==> millis == 50)
                &&& args.duration_ms is None ==> (limit < 50 ==> millis == limit)
            },
    {
        let lower: String = args.key.as_str().to_lowercase();
        self.press_key_lowercased(args, lower.as_str())
    }

    /// Whether `r` is the plan for pressing a key whose name reads `lower` in lower case.
    pub open spec fn plans_key_press(
        self,
        r: Result<InputPlan, ToolError>,
        args: PressKeyArgs,
        lower: Seq<char>,
    ) -> bool {
        let millis = capped_millis(args.duration_ms, 50, self.limits.max_hold_ms);
        match key_code(args.key@, lower) {
            Some(scancode) => plans_key_hold(
                r,
                self.backend,
                scancode,
                millis,
                pressed_text(args.key@, millis),
            ),
            None => r matches Err(error) && error.says(
                ErrorKind::InvalidParams,
                invalid_key_text(debug_of(args.key@)),
            ),
        }
    }

    /// Plans a key press whose name reads `lower` in lower case.
    pub fn press_key_lowercased(&self, args: &PressKeyArgs, lower: &str) -> (r: Result<
        InputPlan,
        ToolError,
    >)
        ensures
            self.plans_key_press(r, *args, lower@),
    {
        match key_scancode_with_lowercase(args.key.as_str(), lower) {
            Some(scancode) => {
                let millis: u64 = cap_millis(args.duration_ms, 50, self.limits.max_hold_ms);
                let mut message: String = "Key '".to_string();
                message.append(args.key.as_str());
                message.append("' pressed for ");
                push_unsigned(&mut message, millis);
                message.append(" ms.");
                plan_key_hold(self.backend, scancode, millis, message)
            },
            None => Err(invalid_key(debug_text(args.key.as_str()).as_str())),
        }
    }

    /// Plans typing a text into the focused input field.
    pub fn input_text(&self, args: &InputTextArgs) -> (r: Result<InputPlan, ToolError>)
        ensures
            match r {
                Ok(plan) => {
                    &&& args.text@.len() > 0
                    &&& plan.actions@.len() == 1
                    &&& plan.actions@[0] matches InputAction::Text { text } && text@ == args.text@
                    &&& plan.message@ == "Typed text: "@ + debug_of(args.text@)
                },
                Err(error) => args.text@.len() == 0 && error.says(
                    ErrorKind::InvalidParams,
                    "Text must not be empty."@,
                ),
            },
    {
        if is_empty(args.text.as_str()) {
            return Err(invalid_params("Text must not be empty.".to_string()));
        }
        let message: String = typed_message(debug_text(args.text.as_str()).as_str());
        let mut actions: Vec<InputAction> = Vec::new();
        actions.push(type_text(args.text.as_str()));
        Ok(InputPlan { actions, message })
    }

    /// Plans a mouse move.
    ///
    /// Absolute coordinates are in the captured frame's image space and are scaled up to the
    /// captured source's pixels, so a position picked off the image lands on the same physical
    /// spot. With no frame yet there is nothing to aim at, so the call fails instead of
    /// guessing. A relative move passes its raw delta through.
    pub fn move_mouse(&self, args: &MoveMouseArgs, frame: Option<&FramePayload>) -> (r: Result<
        MousePlan,
        ToolError,
    >)
        ensures
            args.relative == Some(true) ==> r == Ok::<MousePlan, ToolError>(
                MousePlan {
                    requested: Point { x: args.x, y: args.y },
                    target: Point { x: args.x, y: args.y },
                    style: MoveStyle::Relative,
                    scale: FrameScale { source_longest: 1, preview_longest: 1 },
                },
            ),
            args.relative != Some(true) ==> match frame {
                Some(f) => r == Ok::<MousePlan, ToolError>(
                    MousePlan {
                        requested: Point { x: args.x, y: args.y },
                        target: frame_scale(*f).native(args.x, args.y),
                        style: if args.human_like == Some(false) {
                            MoveStyle::Instant
                        } else {
                            MoveStyle::HumanLike
                        },
                        scale: frame_scale(*f),
                    },
                ),
                None => r matches Err(error) && error.says(
                    ErrorKind::InvalidParams,
                    "No frame captured yet; call capture_screen first."@,
                ),
            },
            r matches Ok(plan) ==> plan.requested.x == args.x && plan.requested.y == args.y,
            match (frame, r) {
                (Some(f), Ok(plan)) => args.relative == Some(true) || (f.width == 0 && f.height
                    == 0) || {
                    let preview: int = if f.width > f.height {
                        f.width as int
                    } else {
                        f.height as int
                    };
                    let source: int = if f.source_width > f.source_height {
                        f.source_width as int
                    } else {
                        f.source_height as int
                    };
                    let target = plan.target;
                    &&& i32::MIN < target.x < i32::MAX ==> gap(target.x * preview, args.x * source)
                        < preview
                    &&& i32::MIN < target.y < i32::MAX ==> gap(target.y * preview, args.y * source)
                        < preview
                    &&& -0x7FFF_FFFE * preview <= args.x * source <= 0x7FFF_FFFE * preview
                        ==> i32::MIN < target.x < i32::MAX
                    &&& -0x7FFF_FFFE * preview <= args.y * source <= 0x7FFF_FFFE * preview
                        ==> i32::MIN < target.y < i32::MAX
                },
                _ => true,
            },
    {
        proof {
            if let Some(f) = frame {
                if f.width > 0 || f.height > 0 {
                    law_image_positions_land_on_the_same_spot(*f, args.x, args.y);
                }
            }
        }
        let requested: Point = Point::new(args.x, args.y);
        if let Some(true) = args.relative {
            return Ok(
                MousePlan {
                    requested,
                    target: requested,
                    style: MoveStyle::Relative,
                    scale: FrameScale { source_longest: 1, preview_longest: 1 },
                },
            );
        }
        let scale: FrameScale = match frame {
            Some(frame) => FrameScale::of_frame(frame),
            None => {
                return Err(
                    invalid_params("No frame captured yet; call capture_screen first.".to_string()),
                );
            },
        };
        let target: Point = Point::new(
            scale_position(args.x, scale.source_longest, scale.preview_longest),
            scale_position(args.y, scale.source_longest, scale.preview_longest),
        );
        let style: MoveStyle = match args.human_like {
            Some(false) => MoveStyle::Instant,
            _ => MoveStyle::HumanLike,
        };
        Ok(MousePlan { requested, target, style, scale })
    }

    /// Plans a mouse click.
    pub fn click_mouse(&self, args: &ClickMouseArgs) -> (r: Result<InputPlan, ToolError>)
        ensures
            plans_click(r, *args, lowercase_of(name_or(args.button, "left"@))),
            vstd::utf8::is_ascii_chars(name_or(args.button, "left"@)) ==> plans_click(
                r,
                *args,
                ascii_lowercase(name_or(args.button, "left"@)),
            ),
    {
        let button: Button = match parse_button(&args.button) {
            Ok(button) => button,
            Err(error) => {
                return Err(error);
            },
        };
        let double: bool = match args.double {
            Some(double) => double,
            None => false,
        };
        Ok(plan_click(button, double))
    }

    /// Plans a hold, press or release of a mouse button.
    ///
    /// A hold keeps the button down for the given duration. A press and a release bracket a
    /// drag.
    pub fn hold_mouse(&self, held: &mut HeldButtons, args: &HoldMouseArgs) -> (r: Result<
        HoldPlan,
        ToolError,
    >)
        ensures
            old(held).wf() ==> final(held).wf(),
            r matches Ok(plan) ==> plan.action == HoldAction::Hold ==> {
                let millis = plan.actions@[1]->millis;
                let limit = self.limits.max_hold_ms;
                &&& plan.actions@.len() == 3
                &&& plan.actions@[1] == (InputAction::Sleep { millis })
                &&& args.duration_ms matches Some(asked) ==> (asked <= limit ==> millis == asked)
                &&& args.duration_ms matches Some(asked) ==> (asked > limit ==> millis == limit)
                &&& args.duration_ms is None ==> (limit >= 50 ==> millis == 50)
                &&& args.duration_ms is None ==> (limit < 50 ==> millis == limit)
            },
            vstd::utf8::is_ascii_chars(name_or(args.button, "left"@)) ==> lowercase_of(
                name_or(args.button, "left"@),
            ) == ascii_lowercase(name_or(args.button, "left"@)),
            vstd::utf8::is_ascii_chars(name_or(args.action, "hold"@)) ==> lowercase_of(
                name_or(args.action, "hold"@),
            ) == ascii_lowercase(name_or(args.action, "hold"@)),
            match (
                button_named(lowercase_of(name_or(args.button, "left"@))),
                hold_action_named(lowercase_of(name_or(args.action, "hold"@))),
            ) {
                (None, _) => {
                    &&& final(held)@ == old(held)@
                    &&& r matches Err(error) && error.says(
                        ErrorKind::InvalidParams,
                        invalid_button_text(lowercase_of(name_or(args.button, "left"@))),
                    )
                },
                (Some(_), None) => {
                    &&& final(held)@ == old(held)@
                    &&& r matches Err(error) && error.says(
                        ErrorKind::InvalidParams,
                        invalid_action_text(lowercase_of(name_or(args.action, "hold"@))),
                    )
                },
                (Some(button), Some(action)) => {
                    let rejected = action != HoldAction::Release && old(held)@.contains(button);
                    let millis = capped_millis(args.duration_ms, 50, self.limits.max_hold_ms);
                    &&& final(held)@ == if rejected || action == HoldAction::Release {
                        old(held)@
                    } else {
                        old(held)@.push(button)
                    }
                    &&& match r {
                        Ok(plan) => {
                            &&& !rejected
                            &&& plan.button == button
                            &&& plan.action == action
                            &&& plan.actions@ == hold_steps(button, action, millis)
                            &&& plan.message@ == held_text(button, action, millis)
                        },
                        Err(error) => rejected && error.says(
                            ErrorKind::InvalidParams,
                            already_held_text(button),
                        ),
                    }
                },
            },
    {
        let parsed_button: Result<Button, ToolError> = parse_button(&args.button);
        let parsed_action: Result<HoldAction, ToolError> = parse_hold_action(&args.action);
        let button: Button = match parsed_button {
            Ok(button) => button,
            Err(error) => {
                return Err(error);
            },
        };
        let action: HoldAction = match parsed_action {
            Ok(action) => action,
            Err(error) => {
                return Err(error);
            },
        };
        let millis: u64 = cap_millis(args.duration_ms, 50, self.limits.max_hold_ms);
        plan_hold(held, button, action, millis)
    }

    /// Plans scrolling the mouse wheel vertically.
    pub fn scroll_mouse(&self, args: &ScrollMouseArgs) -> (r: InputPlan)
        requires
            args.amount != i32::MIN,
        ensures
            r.actions@.len() == 1,
            r.actions@[0] matches InputAction::Scroll { length } && length == scroll_length(
                self.backend,
                args.amount as int,
            ),
            r.message@ == scrolled_text(args.amount),
    {
        let amount: i32 = args.amount;
        let mut actions: Vec<InputAction> = Vec::new();
        actions.push(scroll_vertical(self.backend, amount));
        let mut message: String = "Scrolled ".to_string();
        let clicks: i32 = if amount < 0 {
            -amount
        } else {
            amount
        };
        push_decimal(&mut message, clicks as i64);
        message.append(" clicks ");
        if amount >= 0 {
            message.append("up");
        } else {
            message.append("down");
        }
        message.append(".");
        InputPlan { actions, message }
    }

    /// Plans a wait: its duration in milliseconds and the message once it is over.
    pub fn wait(&self, args: &WaitArgs) -> (r: (u64, String))
        ensures
            r.0 == capped_millis(args.duration_ms, 500, self.limits.max_wait_ms),
            r.0 <= self.limits.max_wait_ms,
            args.duration_ms matches Some(asked) ==> (asked <= self.limits.max_wait_ms ==> r.0
                == asked),
            args.duration_ms matches Some(asked) ==> (asked > self.limits.max_wait_ms ==> r.0
                == self.limits.max_wait_ms),
            args.duration_ms is None ==> r.0 == if self.limits.max_wait_ms < 500 {
                self.limits.max_wait_ms
            } else {
                500
            },
            r.1@ == waited_text(r.0, args.reason),
    {
        let millis: u64 = cap_millis(args.duration_ms, 500, self.limits.max_wait_ms);
        let mut message: String = "Waited ".to_string();
        push_unsigned(&mut message, millis);
        message.append(" ms");
        if let Some(reason) = &args.reason {
            if !is_empty(reason.as_str()) {
                message.append(": ");
                message.append(reason.as_str());
            }
        }
        message.append(".");
        (millis, message)
    }
}

/// Whether the metrics of a session were read off a frame by its game, keeping its zone.
pub open spec fn was_read(
    session: SessionState,
    pixels: PixelGrid,
    resolution: Resolution,
    metrics: GameMetrics,
) -> bool {
    exists|read: GameMetrics|
        #[trigger] session.active_game.reads(pixels, resolution, read) && metrics == located(
            read,
            session.current_metrics.location,
        )
}

/// Whether `r` answers a capture of a complete frame with the telemetry read off it: text
/// alone for a static screen, otherwise the image, unless it cannot be encoded or sent.
pub open spec fn answers_capture(
    r: Result<ToolReply, ToolError>,
    frame: FramePayload,
    quality: u8,
    timed_out: bool,
    metrics: GameMetrics,
) -> bool {
    let jpeg = jpeg_of(
        frame.rgb@,
        frame.width,
        frame.height,
        crate::config::clamped_quality(quality),
    );
    let encoded = encodable(frame.width, frame.height);
    match r {
        Ok(reply) => if timed_out {
            reply.says(false, unchanged_text(metrics))
        } else {
            encoded && base64_fits(jpeg.len()) && is_frame_reply(reply, metrics, jpeg)
        },
        Err(error) => {
            &&& !timed_out
            &&& error.kind == ErrorKind::Internal
            &&& if encoded {
                !base64_fits(jpeg.len()) && error.message@ == "preview is too large to be sent"@
            } else {
                error.message@ == encode_failure_text(frame.width, frame.height)
            }
        },
    }
}

/// Steps of a click.
pub open spec fn click_steps(button: Button, double: bool) -> Seq<InputAction> {
    let click = InputAction::MouseButton { button, direction: Direction::Click };
    if double {
        seq![click, InputAction::Sleep { millis: 50 }, click]
    } else {
        seq![click]
    }
}

/// Message after a click.
pub open spec fn clicked_text(button: Button, double: bool) -> Seq<char> {
    let kind = if double {
        "Double"@
    } else {
        "Single"@
    };
    kind + " "@ + button_text(button) + " mouse button clicked."@
}

/// Plans a single or double click.
pub fn plan_click(button: Button, double: bool) -> (r: InputPlan)
    ensures
        r.actions@ == click_steps(button, double),
        r.message@ == clicked_text(button, double),
{
    let mut actions: Vec<InputAction> = Vec::new();
    actions.push(InputAction::MouseButton { button, direction: Direction::Click });
    let mut message: String = if double {
        actions.push(InputAction::Sleep { millis: 50 });
        actions.push(InputAction::MouseButton { button, direction: Direction::Click });
        "Double".to_string()
    } else {
        "Single".to_string()
    };
    message.append(" ");
    message.append(button_name(button));
    message.append(" mouse button clicked.");
    assert(actions@ =~= click_steps(button, double));
    InputPlan { actions, message }
}

/// Whether `r` is the plan for a click whose button reads `lower` in lower case.
pub open spec fn plans_click(
    r: Result<InputPlan, ToolError>,
    args: ClickMouseArgs,
    lower: Seq<char>,
) -> bool {
    let double = args.double == Some(true);
    match button_named(lower) {
        Some(button) => r matches Ok(plan) && plan.actions@ == click_steps(button, double)
            && plan.message@ == clicked_text(button, double),
        None => r matches Err(error) && error.says(
            ErrorKind::InvalidParams,
            invalid_button_text(lower),
        ),
    }
}

} // verus!
