//! Telemetry read off painted frames.

use autorpg_mcp::config::AspectRatio;
use autorpg_mcp::games::action_rpg::ActionRPG;
use autorpg_mcp::games::{GameProfile, Resolution};
use autorpg_mcp::state::{FramePayload, GameMetrics};

/// A frame painted pixel by pixel.
struct Canvas {
    frame: FramePayload,
}

impl Canvas {
    fn new(width: u32, height: u32) -> Self {
        Canvas {
            frame: FramePayload {
                rgb: vec![0; width as usize * height as usize * 3],
                width,
                height,
                source_width: width,
                source_height: height,
                hash: 0,
            },
        }
    }

    fn row(&mut self, y: u32, from: u32, to: u32, colour: [u8; 3]) {
        for x in from..to {
            let at = (y as usize * self.frame.width as usize + x as usize) * 3;
            self.frame.rgb[at..at + 3].copy_from_slice(&colour);
        }
    }

    fn read(&self, profile: &ActionRPG) -> GameMetrics {
        let view = self.frame.as_rgb_view().unwrap();
        profile.parse_telemetry(&view, Resolution::new(self.frame.width, self.frame.height))
    }
}

fn aspect(ratio: f32) -> AspectRatio {
    AspectRatio { bits: ratio.to_bits() }
}

const RED: [u8; 3] = [200, 20, 20];
const YELLOW: [u8; 3] = [200, 180, 40];
const WHITE: [u8; 3] = [220, 220, 220];
const AMBER: [u8; 3] = [255, 190, 101];

#[test]
fn bars_read_as_their_fill() {
    // In the 1024x576 reference box the bars span columns 443 to 598.
    let mut canvas = Canvas::new(1024, 576);
    canvas.row(524, 443, 443 + 78, RED);
    canvas.row(515, 443, 599, YELLOW);
    let metrics = canvas.read(&ActionRPG::default());
    assert_eq!(metrics.player_hp, 50);
    assert_eq!(metrics.stamina, 100);
    assert_eq!(metrics.location, "");
}

#[test]
fn health_accepts_bright_fills_and_stamina_only_yellow() {
    let mut canvas = Canvas::new(1024, 576);
    canvas.row(524, 443, 482, WHITE);
    canvas.row(524, 482, 521, YELLOW);
    canvas.row(515, 443, 482, WHITE);
    canvas.row(515, 482, 521, YELLOW);
    let metrics = canvas.read(&ActionRPG::default());
    assert_eq!(metrics.player_hp, 50);
    assert_eq!(metrics.stamina, 25);
}

#[test]
fn an_empty_bar_is_zero_and_an_unreadable_one_unknown() {
    let metrics = Canvas::new(1024, 576).read(&ActionRPG::default());
    assert_eq!((metrics.player_hp, metrics.stamina), (0, 0));

    // Laid out for 1024x576, but the frame ends above the bars.
    let canvas = Canvas::new(1024, 500);
    let view = canvas.frame.as_rgb_view().unwrap();
    let metrics = ActionRPG::default().parse_telemetry(&view, Resolution::new(1024, 576));
    assert_eq!((metrics.player_hp, metrics.stamina), (-1, -1));
    assert!(!metrics.q_ready && !metrics.in_combat);
}

#[test]
fn a_full_bar_needs_every_pixel() {
    let mut canvas = Canvas::new(1024, 576);
    canvas.row(524, 443, 598, RED);
    assert_eq!(canvas.read(&ActionRPG::default()).player_hp, 99);
    canvas.row(524, 598, 599, RED);
    assert_eq!(canvas.read(&ActionRPG::default()).player_hp, 100);
}

#[test]
fn abilities_need_four_lit_pixels() {
    let mut canvas = Canvas::new(1024, 576);
    // Icon centers: Q 702, R 739, F 777, G 821, row 525.
    canvas.row(525, 672, 675, WHITE);
    assert!(!canvas.read(&ActionRPG::default()).q_ready);
    canvas.row(525, 675, 676, WHITE);
    let metrics = canvas.read(&ActionRPG::default());
    assert!(metrics.q_ready);
    assert!(!metrics.r_ready && !metrics.f_ready && !metrics.g_ready);
    canvas.row(525, 815, 821, WHITE);
    let metrics = canvas.read(&ActionRPG::default());
    assert!(metrics.g_ready && !metrics.r_ready && !metrics.f_ready);
}

#[test]
fn amber_cooldown_overlays_are_not_lit() {
    let mut canvas = Canvas::new(1024, 576);
    canvas.row(525, 680, 720, [255, 190, 100]);
    assert!(!canvas.read(&ActionRPG::default()).q_ready);
    canvas.row(525, 680, 720, AMBER);
    assert!(!canvas.read(&ActionRPG::default()).q_ready);
}

#[test]
fn the_luminance_gate_is_the_single_precision_one() {
    let lit = |p: [u8; 3]| {
        0.2126f32 * p[0] as f32 + 0.7152f32 * p[1] as f32 + 0.0722f32 * p[2] as f32 > 170.0
            && p[2] > 100
            && p[2] as u32 * 5 > p[0] as u32 * 2
    };
    let profile = ActionRPG::default();
    for r in (0..=255u8).step_by(3) {
        for g in 160..=190u8 {
            for b in [100u8, 101, 121, 200] {
                let mut canvas = Canvas::new(64, 36);
                let colour = [r, g, b];
                canvas.row(33, 0, 64, colour);
                assert_eq!(canvas.read(&profile).q_ready, lit(colour), "{colour:?}");
            }
        }
    }
    // The one colour on which whole-number weights would answer otherwise.
    let mut canvas = Canvas::new(64, 36);
    canvas.row(33, 0, 64, [153, 180, 121]);
    assert_eq!(canvas.read(&profile).q_ready, lit([153, 180, 121]));
}

#[test]
fn combat_needs_three_red_pixels() {
    let mut canvas = Canvas::new(1024, 576);
    canvas.row(528, 419, 421, [150, 40, 40]);
    assert!(!canvas.read(&ActionRPG::default()).in_combat);
    canvas.row(528, 421, 422, [150, 40, 40]);
    assert!(canvas.read(&ActionRPG::default()).in_combat);
}

#[test]
fn smaller_frames_scale_the_layout() {
    let mut canvas = Canvas::new(512, 288);
    // Half of 443 and 599 round to 222 and 300, half of 524 is 262.
    canvas.row(262, 222, 300, RED);
    assert_eq!(canvas.read(&ActionRPG::default()).player_hp, 100);
}

#[test]
fn degenerate_reference_boxes_fall_back() {
    let mut canvas = Canvas::new(1024, 576);
    canvas.row(524, 443, 599, RED);
    for profile in [
        ActionRPG::new(0, aspect(16.0 / 9.0)),
        ActionRPG::new(1024, aspect(f32::NAN)),
        ActionRPG::new(1024, aspect(-1.0)),
        ActionRPG::new(1024, aspect(0.0)),
        ActionRPG::new(1024, aspect(f32::INFINITY)),
    ] {
        assert_eq!(canvas.read(&profile).player_hp, 100);
        assert_eq!(profile.id(), "action_rpg");
    }
    // A ratio that leaves no height still has a row.
    let flat = ActionRPG::new(1, aspect(1e30));
    assert_eq!(canvas.read(&flat).stamina, -1);
}

#[test]
fn bar_fill_is_never_the_combat_icon() {
    let mut canvas = Canvas::new(1024, 576);
    canvas.row(528, 443, 599, [255, 0, 0]);
    assert!(!canvas.read(&ActionRPG::default()).in_combat);
    // The icon itself is still seen beside a full bar.
    canvas.row(528, 440, 443, [255, 0, 0]);
    assert!(canvas.read(&ActionRPG::default()).in_combat);

    for edge in [64, 640, 1366, 1920] {
        let profile = ActionRPG::new(edge, aspect(16.0 / 9.0));
        let mut canvas = Canvas::new(1920, 1080);
        for y in 900..1080 {
            canvas.row(y, 870, 1124, RED);
        }
        assert!(!canvas.read(&profile).in_combat, "edge {edge}");
    }
}
