//! Configuration defaults and sanitizers.

use std::time::Duration;

use autorpg_mcp::config::{
    accept_missing_config, instructions_directory, resolve_path, AspectRatio, CaptureConfig,
    CaptureTarget, Config, GameConfig, MouseConfig, ServerConfig, SpeedMultiplier,
};

#[test]
fn defaults_are_the_documented_ones() {
    let config = Config::default();
    assert_eq!(config.server, ServerConfig::default());
    assert_eq!(config.server.max_hold_ms, 10_000);
    assert_eq!(config.server.stale_hash_distance, 2);
    assert_eq!(config.server.wait_for_change_timeout(), Duration::from_millis(3_000));
    assert_eq!(config.server.max_wait(), Duration::from_millis(60_000));
    assert_eq!(config.prompts.instructions_path, "ai_instructions.md");
    assert_eq!(f32::from_bits(config.game.reference_aspect_ratio.bits), 16.0 / 9.0);
    assert_eq!(f64::from_bits(config.mouse.speed_multiplier.bits), 1.0);
    assert_eq!(config.mouse.step_interval(), Duration::from_millis(8));
    assert!(config.capture.window_title().is_none());
}

#[test]
fn aspect_ratios_are_clamped() {
    let sanitized = |ratio: f32| {
        let config = GameConfig {
            reference_aspect_ratio: AspectRatio { bits: ratio.to_bits() },
        };
        f32::from_bits(config.sanitized_reference_aspect_ratio().bits)
    };
    assert_eq!(sanitized(16.0 / 10.0), 1.6);
    assert_eq!(sanitized(0.1), 0.5);
    assert_eq!(sanitized(-3.0), 0.5);
    assert_eq!(sanitized(-0.0), 0.5);
    assert_eq!(sanitized(100.0), 8.0);
    assert_eq!(sanitized(f32::NAN), 16.0 / 9.0);
    assert_eq!(sanitized(f32::INFINITY), 16.0 / 9.0);
    assert_eq!(sanitized(f32::NEG_INFINITY), 16.0 / 9.0);
}

#[test]
fn speed_multipliers_are_clamped() {
    let sanitized = |speed: f64| {
        let config = MouseConfig {
            speed_multiplier: SpeedMultiplier { bits: speed.to_bits() },
            step_interval_ms: 8,
        };
        f64::from_bits(config.sanitized_speed_multiplier().bits)
    };
    assert_eq!(sanitized(4.0), 4.0);
    assert_eq!(sanitized(0.05), 0.1);
    assert_eq!(sanitized(-1.0), 0.1);
    assert_eq!(sanitized(1e9), 20.0);
    assert_eq!(sanitized(f64::NAN), 1.0);
    assert_eq!(sanitized(f64::NEG_INFINITY), 1.0);
}

#[test]
fn a_step_interval_is_never_zero() {
    let config = MouseConfig {
        speed_multiplier: SpeedMultiplier { bits: 1.0f64.to_bits() },
        step_interval_ms: 0,
    };
    assert_eq!(config.step_interval(), Duration::from_millis(1));
}

#[test]
fn capture_settings_are_sanitized() {
    let mut config = CaptureConfig::default();
    config.jpeg_quality = 0;
    assert_eq!(config.sanitized_jpeg_quality(), 1);
    config.jpeg_quality = 200;
    assert_eq!(config.sanitized_jpeg_quality(), 100);
    config.jpeg_quality = 75;
    assert_eq!(config.sanitized_jpeg_quality(), 75);
    assert_eq!(config.frame_interval(), Duration::from_millis(200));
    assert_eq!(config.os_update_hint(), Duration::from_millis(150));
    config.frame_interval_ms = 0;
    config.os_update_hint_ms = 0;
    assert_eq!(config.frame_interval(), Duration::from_millis(1));
    assert_eq!(config.os_update_hint(), Duration::from_millis(1));
    config.preview_edge = 10;
    assert_eq!(config.sanitized_preview_edge(), 64);
    config.preview_edge = 1024;
    assert_eq!(config.sanitized_preview_edge(), 1024);
    config.target = CaptureTarget::Window;
    config.window_name = "Albion".to_string();
    assert_eq!(config.window_title(), Some("Albion"));
}

#[test]
fn the_path_comes_from_the_argument_first() {
    assert_eq!(resolve_path(Some("a.toml"), Some("b.toml")), "a.toml");
    assert_eq!(resolve_path(None, Some("b.toml")), "b.toml");
    assert_eq!(resolve_path(None, None), "autorpg-mcp.toml");
}

#[test]
fn only_the_default_file_may_be_absent() {
    assert!(accept_missing_config("autorpg-mcp.toml", true, "not found").is_ok());
    assert_eq!(
        accept_missing_config("autorpg-mcp.toml", false, "unknown field `x`").unwrap_err(),
        "failed to load configuration from autorpg-mcp.toml \
         (set via CLI argument or AUTORPG_MCP_CONFIG): unknown field `x`"
    );
    assert_eq!(
        accept_missing_config("other.toml", true, "not found").unwrap_err(),
        "failed to load configuration from other.toml \
         (set via CLI argument or AUTORPG_MCP_CONFIG): not found"
    );
}

#[test]
fn templates_are_resolved_against_the_configuration() {
    assert_eq!(instructions_directory(true, Some("conf")), None);
    assert_eq!(instructions_directory(false, Some("conf")), Some("conf".to_string()));
    assert_eq!(instructions_directory(false, Some("")), Some(String::new()));
    assert_eq!(instructions_directory(false, None), Some(".".to_string()));
}
