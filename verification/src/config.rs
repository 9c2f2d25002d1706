//! Configuration values, their defaults and the ranges they are clamped into.

use std::time::Duration;

use vstd::prelude::*;

use crate::text::same_text;

verus! {

/// File name looked up in the working directory when no explicit path is given.
pub const DEFAULT_CONFIG_PATH: &'static str = "autorpg-mcp.toml";

/// Environment variable overriding the default config path.
pub const CONFIG_PATH_ENV: &'static str = "AUTORPG_MCP_CONFIG";

/// What `Duration::from_millis` returns for a number of milliseconds.
pub uninterp spec fn duration_of_millis(millis: u64) -> Duration;

/// `Duration::from_millis` makes the duration of that many milliseconds.
pub assume_specification[ std::time::Duration::from_millis ](millis: u64) -> (r: Duration)
    ensures
        r == duration_of_millis(millis),
;

/// A single-precision number, held as its IEEE 754 bit pattern.
#[derive(Debug, Clone, Copy, PartialEq, Eq, Structural)]
pub struct AspectRatio {
    pub bits: u32,
}

/// A double-precision number, held as its IEEE 754 bit pattern.
#[derive(Debug, Clone, Copy, PartialEq, Eq, Structural)]
pub struct SpeedMultiplier {
    pub bits: u64,
}

/// Bit pattern of the single-precision 16/9.
pub const SIXTEEN_NINTHS: u32 = 0x3FE3_8E39;

/// Bit pattern of the single-precision 0.5.
pub const SINGLE_HALF: u32 = 0x3F00_0000;

/// Bit pattern of the single-precision 8.0.
pub const SINGLE_EIGHT: u32 = 0x4100_0000;

/// Bit pattern of the double-precision 1.0.
pub const DOUBLE_ONE: u64 = 0x3FF0_0000_0000_0000;

/// Bit pattern of the double-precision 0.1.
pub const DOUBLE_TENTH: u64 = 0x3FB9_9999_9999_999A;

/// Bit pattern of the double-precision 20.0.
pub const DOUBLE_TWENTY: u64 = 0x4034_0000_0000_0000;

impl AspectRatio {
    /// Whether the pattern is a finite number.
    pub open spec fn finite(self) -> bool {
        self.bits as nat % 0x8000_0000 < 0x7F80_0000
    }
}

impl SpeedMultiplier {
    /// Whether the pattern is a finite number.
    pub open spec fn finite(self) -> bool {
        self.bits as nat % 0x8000_0000_0000_0000 < 0x7FF0_0000_0000_0000
    }
}

/// Root of the configuration.
#[derive(Debug, Clone)]
pub struct Config {
    /// Capture pipeline tuning.
    pub capture: CaptureConfig,
    /// MCP tool limits.
    pub server: ServerConfig,
    /// Game profile layout tuning.
    pub game: GameConfig,
    /// Human-like mouse movement tuning.
    pub mouse: MouseConfig,
    /// Prompt templates.
    pub prompts: PromptsConfig,
}

impl Default for Config {
    fn default() -> (r: Self)
        ensures
            r.capture.is_default(),
            r.server == ServerConfig::defaults(),
            r.game.reference_aspect_ratio.bits == SIXTEEN_NINTHS,
            r.mouse.speed_multiplier.bits == DOUBLE_ONE,
            r.mouse.step_interval_ms == 8,
            r.prompts.instructions_path@ == "ai_instructions.md"@,
    {
        Config {
            capture: CaptureConfig::default(),
            server: ServerConfig::default(),
            game: GameConfig::default(),
            mouse: MouseConfig::default(),
            prompts: PromptsConfig::default(),
        }
    }
}

/// What part of the screen the capture engine records.
#[derive(Debug, Clone, Copy, PartialEq, Eq, Structural)]
pub enum CaptureTarget {
    /// The whole primary monitor (the default).
    Monitor,
    /// A single window, selected by title via [`CaptureConfig::window_name`].
    Window,
}

/// Capture pipeline tuning.
#[derive(Debug, Clone)]
pub struct CaptureConfig {
    /// Minimum time between two frames that are actually converted, in milliseconds.
    pub frame_interval_ms: u64,
    /// Update interval hint handed to the system, in milliseconds.
    pub os_update_hint_ms: u64,
    /// Quality of the published JPEG (1-100).
    pub jpeg_quality: u8,
    /// Whether the mouse cursor is drawn into captured frames.
    pub with_cursor: bool,
    /// Longest edge of the published preview, in pixels.
    pub preview_edge: u32,
    /// What to capture: the whole primary monitor or a single window.
    pub target: CaptureTarget,
    /// Title of the window to capture when the target is a window.
    pub window_name: String,
}

impl CaptureConfig {
    /// Whether every setting has its default value.
    pub open spec fn is_default(self) -> bool {
        &&& self.frame_interval_ms == 200
        &&& self.os_update_hint_ms == 150
        &&& self.jpeg_quality == 70
        &&& self.with_cursor
        &&& self.preview_edge == 1024
        &&& self.target == CaptureTarget::Monitor
        &&& self.window_name@ == Seq::<char>::empty()
    }

    /// Pause between two converted frames: the configured interval, at least one millisecond.
    pub fn frame_interval(&self) -> (r: Duration)
        ensures
            r == duration_of_millis(at_least_one(self.frame_interval_ms)),
    {
        Duration::from_millis(one_or_more(self.frame_interval_ms))
    }

    /// Update interval hint for the system, at least one millisecond.
    pub fn os_update_hint(&self) -> (r: Duration)
        ensures
            r == duration_of_millis(at_least_one(self.os_update_hint_ms)),
    {
        Duration::from_millis(one_or_more(self.os_update_hint_ms))
    }

    /// JPEG quality clamped into the encoder's accepted 1-100 range.
    pub fn sanitized_jpeg_quality(&self) -> (r: u8)
        ensures
            r == clamped_quality(self.jpeg_quality),
    {
        clamp_quality(self.jpeg_quality)
    }

    /// Preview longest edge, at least 64: the lower bound keeps the average-hash grid and the
    /// telemetry scans meaningful.
    pub fn sanitized_preview_edge(&self) -> (r: u32)
        ensures
            r == if self.preview_edge < 64 {
                64
            } else {
                self.preview_edge
            },
    {
        if self.preview_edge < 64 {
            64
        } else {
            self.preview_edge
        }
    }

    /// Title to match the captured window against; `None` when capturing the whole monitor.
    pub fn window_title(&self) -> (r: Option<&str>)
        ensures
            match r {
                None => self.target == CaptureTarget::Monitor,
                Some(title) => self.target == CaptureTarget::Window && title@ == self.window_name@,
            },
    {
        match self.target {
            CaptureTarget::Monitor => None,
            CaptureTarget::Window => Some(self.window_name.as_str()),
        }
    }
}

impl Default for CaptureConfig {
    fn default() -> (r: Self)
        ensures
            r.is_default(),
    {
        CaptureConfig {
            frame_interval_ms: 200,
            os_update_hint_ms: 150,
            jpeg_quality: 70,
            with_cursor: true,
            preview_edge: 1024,
            target: CaptureTarget::Monitor,
            window_name: String::new(),
        }
    }
}

/// `n`, or one for zero.
pub open spec fn at_least_one(n: u64) -> u64 {
    if n == 0 {
        1
    } else {
        n
    }
}

/// `n`, or one for zero.
fn one_or_more(n: u64) -> (r: u64)
    ensures
        r == at_least_one(n),
{
    if n == 0 {
        1
    } else {
        n
    }
}

/// Quality clamped into 1 to 100.
pub open spec fn clamped_quality(quality: u8) -> u8 {
    if quality < 1 {
        1
    } else if quality > 100 {
        100
    } else {
        quality
    }
}

/// Clamps a JPEG quality into 1 to 100.
pub fn clamp_quality(quality: u8) -> (r: u8)
    ensures
        r == clamped_quality(quality),
        1 <= quality <= 100 ==> r == quality,
        quality == 0 ==> r == 1,
        quality > 100 ==> r == 100,
{
    if quality < 1 {
        1
    } else if quality > 100 {
        100
    } else {
        quality
    }
}

/// Game profile layout tuning.
#[derive(Debug, Clone, Copy)]
pub struct GameConfig {
    /// Aspect ratio (width / height) of the reference UI box game profiles author their
    /// layout against.
    pub reference_aspect_ratio: AspectRatio,
}

impl Default for GameConfig {
    fn default() -> (r: Self)
        ensures
            r.reference_aspect_ratio.bits == SIXTEEN_NINTHS,
    {
        GameConfig { reference_aspect_ratio: AspectRatio { bits: SIXTEEN_NINTHS } }
    }
}

/// The ratio clamped into 0.5 to 8; a pattern that is no finite number becomes 16/9.
///
/// Patterns of non-negative numbers are ordered like the numbers; those of negative numbers
/// have the top bit set.
pub open spec fn clamped_aspect_ratio(ratio: AspectRatio) -> AspectRatio {
    if !ratio.finite() {
        AspectRatio { bits: SIXTEEN_NINTHS }
    } else if ratio.bits >= 0x8000_0000 || ratio.bits < SINGLE_HALF {
        AspectRatio { bits: SINGLE_HALF }
    } else if ratio.bits > SINGLE_EIGHT {
        AspectRatio { bits: SINGLE_EIGHT }
    } else {
        ratio
    }
}

impl GameConfig {
    /// Aspect ratio clamped into a sane range; non-finite values fall back to 16/9.
    pub fn sanitized_reference_aspect_ratio(&self) -> (r: AspectRatio)
        ensures
            r == clamped_aspect_ratio(self.reference_aspect_ratio),
            0x3F00_0000 <= self.reference_aspect_ratio.bits <= 0x4100_0000 ==> r
                == self.reference_aspect_ratio,
    {
        let bits: u32 = self.reference_aspect_ratio.bits;
        if bits % 0x8000_0000 >= 0x7F80_0000 {
            AspectRatio { bits: SIXTEEN_NINTHS }
        } else if bits >= 0x8000_0000 || bits < SINGLE_HALF {
            AspectRatio { bits: SINGLE_HALF }
        } else if bits > SINGLE_EIGHT {
            AspectRatio { bits: SINGLE_EIGHT }
        } else {
            self.reference_aspect_ratio
        }
    }
}

/// Human-like mouse movement tuning.
#[derive(Debug, Clone, Copy)]
pub struct MouseConfig {
    /// Multiplier applied to the force constants of a simulated move.
    pub speed_multiplier: SpeedMultiplier,
    /// Base time between two cursor updates in a human-like move, in milliseconds.
    pub step_interval_ms: u64,
}

impl Default for MouseConfig {
    fn default() -> (r: Self)
        ensures
            r.speed_multiplier.bits == DOUBLE_ONE,
            r.step_interval_ms == 8,
    {
        MouseConfig { speed_multiplier: SpeedMultiplier { bits: DOUBLE_ONE }, step_interval_ms: 8 }
    }
}

/// The multiplier clamped into 0.1 to 20; a pattern that is no finite number becomes 1.
pub open spec fn clamped_speed(speed: SpeedMultiplier) -> SpeedMultiplier {
    if !speed.finite() {
        SpeedMultiplier { bits: DOUBLE_ONE }
    } else if speed.bits >= 0x8000_0000_0000_0000 || speed.bits < DOUBLE_TENTH {
        SpeedMultiplier { bits: DOUBLE_TENTH }
    } else if speed.bits > DOUBLE_TWENTY {
        SpeedMultiplier { bits: DOUBLE_TWENTY }
    } else {
        speed
    }
}

impl MouseConfig {
    /// Speed multiplier clamped into a sane range; non-finite values fall back to 1.0.
    pub fn sanitized_speed_multiplier(&self) -> (r: SpeedMultiplier)
        ensures
            r == clamped_speed(self.speed_multiplier),
            0x3FB9_9999_9999_999A <= self.speed_multiplier.bits <= 0x4034_0000_0000_0000 ==> r
                == self.speed_multiplier,
    {
        let bits: u64 = self.speed_multiplier.bits;
        if bits % 0x8000_0000_0000_0000 >= 0x7FF0_0000_0000_0000 {
            SpeedMultiplier { bits: DOUBLE_ONE }
        } else if bits >= 0x8000_0000_0000_0000 || bits < DOUBLE_TENTH {
            SpeedMultiplier { bits: DOUBLE_TENTH }
        } else if bits > DOUBLE_TWENTY {
            SpeedMultiplier { bits: DOUBLE_TWENTY }
        } else {
            self.speed_multiplier
        }
    }

    /// Step interval of at least one millisecond, so a move can never spin without pause.
    pub fn step_interval(&self) -> (r: Duration)
        ensures
            r == duration_of_millis(at_least_one(self.step_interval_ms)),
    {
        Duration::from_millis(one_or_more(self.step_interval_ms))
    }
}

/// MCP tool limits.
#[derive(Debug, Clone, Copy, PartialEq, Eq, Structural)]
pub struct ServerConfig {
    /// Maximum duration for hold-style input operations, in milliseconds.
    pub max_hold_ms: u64,
    /// Hamming distance between two frame hashes that still counts as "the screen did not
    /// move".
    pub stale_hash_distance: u32,
    /// How long a capture waits for the screen to change, in milliseconds.
    pub wait_for_change_timeout_ms: u64,
    /// Maximum duration the `wait` tool may sleep, in milliseconds.
    pub max_wait_ms: u64,
}

impl ServerConfig {
    /// The default limits.
    pub open spec fn defaults() -> ServerConfig {
        ServerConfig {
            max_hold_ms: 10_000,
            stale_hash_distance: 2,
            wait_for_change_timeout_ms: 3_000,
            max_wait_ms: 60_000,
        }
    }

    /// How long a capture waits for the screen to change.
    pub fn wait_for_change_timeout(&self) -> (r: Duration)
        ensures
            r == duration_of_millis(self.wait_for_change_timeout_ms),
    {
        Duration::from_millis(self.wait_for_change_timeout_ms)
    }

    /// Longest sleep of the `wait` tool.
    pub fn max_wait(&self) -> (r: Duration)
        ensures
            r == duration_of_millis(self.max_wait_ms),
    {
        Duration::from_millis(self.max_wait_ms)
    }
}

impl Default for ServerConfig {
    fn default() -> (r: Self)
        ensures
            r == ServerConfig::defaults(),
    {
        ServerConfig {
            max_hold_ms: 10_000,
            stale_hash_distance: 2,
            wait_for_change_timeout_ms: 3_000,
            max_wait_ms: 60_000,
        }
    }
}

/// Prompt template settings.
#[derive(Debug, Clone)]
pub struct PromptsConfig {
    /// Path to the prompt instructions template, relative to the configuration file's
    /// directory.
    pub instructions_path: String,
}

impl Default for PromptsConfig {
    fn default() -> (r: Self)
        ensures
            r.instructions_path@ == "ai_instructions.md"@,
    {
        PromptsConfig { instructions_path: "ai_instructions.md".to_string() }
    }
}

/// Resolves the configuration path: explicit CLI argument, then the value of the
/// [`CONFIG_PATH_ENV`] environment variable, then [`DEFAULT_CONFIG_PATH`].
pub fn resolve_path(explicit: Option<&str>, environment: Option<&str>) -> (r: String)
    ensures
        r@ == match (explicit, environment) {
            (Some(path), _) => path@,
            (None, Some(path)) => path@,
            (None, None) => DEFAULT_CONFIG_PATH@,
        },
{
    match explicit {
        Some(path) => path.to_string(),
        None => match environment {
            Some(path) => path.to_string(),
            None => DEFAULT_CONFIG_PATH.to_string(),
        },
    }
}

/// Directory that a prompt template's path is resolved against: none for an absolute path,
/// otherwise the directory of the configuration file, or the working directory when that file
/// has none.
pub fn instructions_directory(absolute: bool, config_directory: Option<&str>) -> (r: Option<String>)
    ensures
        match r {
            None => absolute,
            Some(directory) => !absolute && directory@ == match config_directory {
                Some(parent) => parent@,
                None => "."@,
            },
        },
{
    if absolute {
        return None;
    }
    match config_directory {
        Some(parent) => Some(parent.to_string()),
        None => Some(".".to_string()),
    }
}

/// Why a configuration that could not be loaded stops the server.
pub open spec fn load_failure_text(path: Seq<char>, error: Seq<char>) -> Seq<char> {
    "failed to load configuration from "@ + path + " (set via CLI argument or "@ + CONFIG_PATH_ENV@
        + "): "@ + error
}

/// Decides what becomes of a configuration that could not be loaded from `path`.
///
/// The default file is optional: when it is absent, the built-in defaults apply. Anything
/// else, such as a file that names an unknown key, stops the server with an error.
pub fn accept_missing_config(path: &str, absent: bool, error: &str) -> (r: Result<(), String>)
    ensures
        match r {
            Ok(_) => absent && path@ == DEFAULT_CONFIG_PATH@,
            Err(message) => !(absent && path@ == DEFAULT_CONFIG_PATH@) && message@
                == load_failure_text(path@, error@),
        },
{
    if absent && same_text(path, DEFAULT_CONFIG_PATH) {
        return Ok(());
    }
    let mut message: String = "failed to load configuration from ".to_string();
    message.append(path);
    message.append(" (set via CLI argument or ");
    message.append(CONFIG_PATH_ENV);
    message.append("): ");
    message.append(error);
    Err(message)
}

/// A sanitized aspect ratio is a positive number between 0.5 and 8, and sanitizing it again
/// changes nothing.
pub proof fn law_aspect_ratio_is_in_range(ratio: AspectRatio)
    ensures
        SINGLE_HALF <= clamped_aspect_ratio(ratio).bits <= SINGLE_EIGHT,
        crate::rounding::positive_single(clamped_aspect_ratio(ratio).bits as nat),
        clamped_aspect_ratio(clamped_aspect_ratio(ratio)) == clamped_aspect_ratio(ratio),
{
}

/// A sanitized speed multiplier lies between 0.1 and 20, and sanitizing it again changes
/// nothing.
pub proof fn law_speed_multiplier_is_in_range(speed: SpeedMultiplier)
    ensures
        DOUBLE_TENTH <= clamped_speed(speed).bits <= DOUBLE_TWENTY,
        clamped_speed(clamped_speed(speed)) == clamped_speed(speed),
{
}

/// A sanitized JPEG quality is one that the encoder accepts, and an accepted one is kept.
pub proof fn law_quality_is_in_range(quality: u8)
    ensures
        1 <= clamped_quality(quality) <= 100,
        1 <= quality <= 100 ==> clamped_quality(quality) == quality,
{
}

/// A setting within its range is kept as it is; one beyond an end of the range becomes that
/// end. The patterns of numbers from zero up are ordered like the numbers.
pub proof fn law_settings_within_their_range_are_kept(
    quality: u8,
    ratio: AspectRatio,
    speed: SpeedMultiplier,
    n: u64,
)
    ensures
        1 <= quality <= 100 ==> clamped_quality(quality) == quality,
        quality == 0 ==> clamped_quality(quality) == 1,
        quality >= 100 ==> clamped_quality(quality) == 100,
        0x3F00_0000 <= ratio.bits <= 0x4100_0000 ==> clamped_aspect_ratio(ratio) == ratio,
        ratio.bits <= 0x3F00_0000 ==> clamped_aspect_ratio(ratio).bits == 0x3F00_0000,
        0x4100_0000 <= ratio.bits < 0x7F80_0000 ==> clamped_aspect_ratio(ratio).bits
            == 0x4100_0000,
        0x8000_0000 <= ratio.bits < 0xFF80_0000 ==> clamped_aspect_ratio(ratio).bits
            == 0x3F00_0000,
        0x7F80_0000 <= ratio.bits < 0x8000_0000 || ratio.bits >= 0xFF80_0000
            ==> clamped_aspect_ratio(ratio).bits == 0x3FE3_8E39,
        0x3FB9_9999_9999_999A <= speed.bits <= 0x4034_0000_0000_0000 ==> clamped_speed(speed)
            == speed,
        speed.bits <= 0x3FB9_9999_9999_999A ==> clamped_speed(speed).bits == 0x3FB9_9999_9999_999A,
        0x4034_0000_0000_0000 <= speed.bits < 0x7FF0_0000_0000_0000 ==> clamped_speed(speed).bits
            == 0x4034_0000_0000_0000,
        0x8000_0000_0000_0000 <= speed.bits < 0xFFF0_0000_0000_0000 ==> clamped_speed(speed).bits
            == 0x3FB9_9999_9999_999A,
        0x7FF0_0000_0000_0000 <= speed.bits < 0x8000_0000_0000_0000 || speed.bits
            >= 0xFFF0_0000_0000_0000 ==> clamped_speed(speed).bits == 0x3FF0_0000_0000_0000,
        n > 0 ==> at_least_one(n) == n,
        n == 0 ==> at_least_one(n) == 1,
{
}

} // verus!
