//! Tool answers, plans and rejections.

use std::collections::VecDeque;
use std::sync::Arc;

use autorpg_mcp::config::ServerConfig;
use autorpg_mcp::encoding::encode_base64;
use autorpg_mcp::error::{input_error, ErrorKind, ToolError};
use autorpg_mcp::games::action_rpg::ActionRPG;
use autorpg_mcp::input::{Backend, Button, InputAction};
use autorpg_mcp::server::{
    calculate_hamming_distance, finish_hold, format_percent, format_telemetry, release_all, report,
    start_farm, unreadable_template, wait_for_screen_change, CaptureScreenArgs, ClickMouseArgs, Content, GameServer,
    HoldAction, HoldMouseArgs, InputTextArgs, MoveMouseArgs, MovePlayerArgs, MoveStyle,
    PressKeyArgs, ScrollMouseArgs, SetZoneArgs, StartFarmArgs, ToolReply, WaitArgs, WaitStep,
};
use autorpg_mcp::state::{FramePayload, GameMetrics, HeldButtons, SessionState};
use autorpg_mcp::windmouse::Point;
use base64::Engine;

fn server() -> GameServer {
    GameServer::new(ServerConfig::default(), 70, Backend::Enigo)
}

fn session() -> SessionState {
    SessionState {
        current_metrics: GameMetrics::default(),
        active_game: Arc::new(ActionRPG::default()),
        last_frame_hash: None,
        event_history: VecDeque::new(),
    }
}

fn frame(width: u32, height: u32) -> FramePayload {
    FramePayload {
        rgb: vec![128; (width * height * 3) as usize],
        width,
        height,
        source_width: 2 * width,
        source_height: 2 * height,
        hash: 77,
    }
}

fn text_of(reply: &ToolReply) -> &str {
    match &reply.content[0] {
        Content::Text(text) => text,
        Content::Image { .. } => panic!("not a text"),
    }
}

fn rejected<T>(result: Result<T, ToolError>, kind: ErrorKind) -> String {
    match result {
        Ok(_) => panic!("accepted"),
        Err(error) => {
            assert_eq!(error.kind, kind);
            error.message
        }
    }
}

fn shown(actions: &[InputAction]) -> Vec<String> {
    actions.iter().map(|action| format!("{action:?}")).collect()
}

const TELEMETRY: &str =
    "[HP: 0% | Stamina: 0% | Q: COOLDOWN | R: COOLDOWN | F: COOLDOWN | G: COOLDOWN | Combat: OUT | Zone: Unknown]";

#[test]
fn a_capture_hands_out_the_frame_with_its_telemetry() {
    let mut session = session();
    let frame = frame(64, 36);
    let reply = server().capture_screen(&mut session, Some(&frame), false).unwrap();
    assert!(!reply.is_error);
    assert_eq!(text_of(&reply), format!("Frame captured. Telemetry: {TELEMETRY}"));
    match &reply.content[1] {
        Content::Image { data, mime_type } => {
            assert_eq!(mime_type, "image/jpeg");
            let jpeg = frame.encode_jpeg(70).unwrap();
            assert_eq!(*data, base64::engine::general_purpose::STANDARD.encode(jpeg));
        }
        Content::Text(_) => panic!("not an image"),
    }
    assert_eq!(reply.content.len(), 2);
    assert_eq!(session.last_frame_hash, Some(77));
}

#[test]
fn a_static_screen_is_answered_without_an_image() {
    let mut session = session();
    session.last_frame_hash = Some(5);
    session.current_metrics.location = "Mire".to_string();
    let reply = server().capture_screen(&mut session, Some(&frame(64, 36)), true).unwrap();
    assert_eq!(
        text_of(&reply),
        format!(
            "Screen unchanged. Telemetry: {}. Wait longer, take an action, or call with force=true for an image.",
            TELEMETRY.replace("Unknown", "Mire")
        )
    );
    assert_eq!(reply.content.len(), 1);
    assert_eq!(session.last_frame_hash, Some(5), "the hash of an unseen frame is not kept");
}

#[test]
fn captures_without_a_usable_frame_are_errors() {
    let mut session = session();
    let reply = server().capture_screen(&mut session, None, false).unwrap();
    assert!(reply.is_error);
    assert_eq!(text_of(&reply), "No active display buffer detected yet. Try again.");

    let mut short = frame(64, 36);
    short.rgb.pop();
    let reply = server().capture_screen(&mut session, Some(&short), false).unwrap();
    assert!(reply.is_error);
    assert_eq!(text_of(&reply), "Published display frame is malformed. Try again.");

    let mut empty = FramePayload::default();
    empty.rgb.push(1);
    let reply = server().capture_screen(&mut session, Some(&empty), false).unwrap();
    assert!(reply.is_error);
    assert_eq!(text_of(&reply), "Published display frame is malformed. Try again.");
    assert_eq!(session.last_frame_hash, None);
}

#[test]
fn a_frame_that_cannot_be_encoded_is_an_internal_error() {
    let mut session = session();
    let huge = frame(65_536, 1);
    let message = rejected(
        server().capture_screen(&mut session, Some(&huge), false),
        ErrorKind::Internal,
    );
    assert_eq!(
        message,
        "failed to encode preview: Format error encoding Jpeg:\nInvalid image size (65536 x 1) to \
         encode as JPEG: width and height must be >= 1 and <= 65535"
    );
}

#[test]
fn captures_keep_the_zone_and_take_over_the_rest() {
    let mut session = session();
    session.current_metrics.location = "Swamp".to_string();
    session.current_metrics.player_hp = 12;
    session.current_metrics.in_combat = true;
    server().capture_screen(&mut session, Some(&frame(64, 36)), true).unwrap();
    assert_eq!(session.current_metrics.location, "Swamp");
    assert_eq!(session.current_metrics.player_hp, 0);
    assert!(!session.current_metrics.in_combat);
}

#[test]
fn telemetry_text_names_every_value() {
    let metrics = GameMetrics {
        player_hp: 100,
        stamina: -1,
        q_ready: true,
        r_ready: false,
        f_ready: true,
        g_ready: false,
        location: "Camp".to_string(),
        in_combat: true,
    };
    assert_eq!(
        format_telemetry(&metrics),
        "[HP: 100% | Stamina: ? | Q: READY | R: COOLDOWN | F: READY | G: COOLDOWN | Combat: IN | Zone: Camp]"
    );
    assert_eq!(format_percent(-5), "?");
    assert_eq!(format_percent(7), "7%");
}

#[test]
fn hamming_distances_count_differing_bits() {
    assert_eq!(calculate_hamming_distance(0, 0), 0);
    assert_eq!(calculate_hamming_distance(u64::MAX, 0), 64);
    assert_eq!(calculate_hamming_distance(0b1010, 0b0110), 2);
    let (a, b, c) = (0x0123_4567_89AB_CDEF, 0xFEDC_BA98_7654_3210, 0xF0F0);
    assert_eq!(calculate_hamming_distance(a, b), (a ^ b).count_ones());
    assert_eq!(calculate_hamming_distance(a, b), calculate_hamming_distance(b, a));
    assert!(
        calculate_hamming_distance(a, b)
            <= calculate_hamming_distance(a, c) + calculate_hamming_distance(c, b)
    );
}

#[test]
fn a_capture_waits_until_the_screen_changes() {
    let step = |frame, closed, last, expired| wait_for_screen_change(frame, closed, last, 2, expired);
    assert_eq!(step(None, false, None, false), WaitStep::Park);
    assert_eq!(step(None, false, None, true), WaitStep::TimedOut);
    assert_eq!(step(None, true, None, false), WaitStep::TimedOut);
    assert_eq!(step(Some(9), false, None, false), WaitStep::Changed);
    assert_eq!(step(Some(9), false, Some(9), false), WaitStep::Park);
    assert_eq!(step(Some(0b11), false, Some(0), false), WaitStep::Park);
    assert_eq!(step(Some(0b111), false, Some(0), true), WaitStep::Changed);
}

#[test]
fn a_forced_capture_does_not_wait() {
    let waits = |force| server().waits_for_change(&CaptureScreenArgs { force });
    assert!(waits(None) && waits(Some(false)));
    assert!(!waits(Some(true)));
}

#[test]
fn zones_are_set_and_recorded() {
    let mut session = session();
    let args = SetZoneArgs { location: "Ashen Vale".to_string() };
    let reply = server().set_zone(&mut session, &args);
    assert_eq!(text_of(&reply), "Active zone set to: Ashen Vale.");
    let event = session.event_history.back().unwrap();
    assert_eq!(event.action_taken, "Zone updated: Ashen Vale");
    assert_eq!(event.state_snapshot.location, "Ashen Vale");
    assert_eq!(session.current_metrics.location, "Ashen Vale");
}

#[test]
fn reports_are_recorded_and_answered() {
    let mut session = session();
    let reply = report(&mut session, "Waited 5 ms.".to_string());
    assert!(!reply.is_error);
    assert_eq!(text_of(&reply), "Waited 5 ms.");
    assert_eq!(session.event_history[0].action_taken, "Waited 5 ms.");
}

fn go(direction: &str, duration_ms: Option<u64>) -> MovePlayerArgs {
    MovePlayerArgs { direction: direction.to_string(), duration_ms }
}

#[test]
fn player_moves_hold_a_movement_key() {
    let plan = server().move_player(&go("Forward", None)).unwrap_or_else(|_| panic!());
    assert_eq!(plan.message, "Moved forward for 500 ms.");
    assert_eq!(
        shown(&plan.actions),
        [
            "Raw { code: 17, direction: Press }",
            "Sleep { millis: 500 }",
            "Raw { code: 17, direction: Release }"
        ]
    );
    let plan = server().move_player(&go("left", Some(99_999))).unwrap_or_else(|_| panic!());
    assert_eq!(plan.message, "Moved left for 10000 ms.");
    assert_eq!(
        rejected(server().move_player(&go("Sideways", None)), ErrorKind::InvalidParams),
        "Invalid direction mapping: Sideways. Use forward/back/left/right."
    );
}

fn key(key: &str, duration_ms: Option<u64>) -> PressKeyArgs {
    PressKeyArgs { key: key.to_string(), duration_ms }
}

#[test]
fn key_presses_hold_a_scancode() {
    let plan = server().press_key(&key("E", None)).unwrap_or_else(|_| panic!());
    assert_eq!(plan.message, "Key 'E' pressed for 50 ms.");
    assert_eq!(plan.actions.len(), 3);
    assert_eq!(shown(&plan.actions)[0], "Raw { code: 18, direction: Press }");
    let virtual_keys = GameServer::new(ServerConfig::default(), 70, Backend::InputSimulator);
    let plan = virtual_keys.press_key(&key("E", Some(3))).unwrap_or_else(|_| panic!());
    assert_eq!(shown(&plan.actions)[2], "Raw { code: 69, direction: Release }");
    assert_eq!(
        rejected(server().press_key(&key("no \"key\"", None)), ErrorKind::InvalidParams),
        "Invalid key: \"no \\\"key\\\"\". Use a single character (e.g. \"e\", \"1\", \" \") or a named key (e.g. \"space\", \"enter\", \"escape\", \"tab\", \"f1\")."
    );
}

#[test]
fn scancodes_the_backend_cannot_send_are_invalid_arguments() {
    use_supported(Backend::Enigo, 0x37, None);
    use_supported(
        Backend::InputSimulator,
        0x37,
        Some("Scancode 0x37 cannot be sent by the active input backend."),
    );
}

fn use_supported(backend: Backend, scancode: u16, message: Option<&str>) {
    let result = autorpg_mcp::server::ensure_scancode_supported(backend, scancode);
    match message {
        None => assert!(result.is_ok()),
        Some(text) => assert_eq!(rejected(result, ErrorKind::InvalidParams), text),
    }
}

#[test]
fn text_is_typed_unless_it_is_empty() {
    let args = InputTextArgs { text: "a\nb".to_string() };
    let plan = server().input_text(&args).unwrap_or_else(|_| panic!());
    assert_eq!(plan.message, "Typed text: \"a\\nb\"");
    assert_eq!(shown(&plan.actions), ["Text { text: \"a\\nb\" }"]);
    let empty = InputTextArgs { text: String::new() };
    assert_eq!(
        rejected(server().input_text(&empty), ErrorKind::InvalidParams),
        "Text must not be empty."
    );
}

fn mouse(x: i32, y: i32, relative: Option<bool>, human_like: Option<bool>) -> MoveMouseArgs {
    MoveMouseArgs { x, y, relative, human_like }
}

#[test]
fn absolute_moves_are_scaled_to_the_source() {
    let frame = frame(64, 36);
    let plan = server()
        .move_mouse(&mouse(10, -3, None, None), Some(&frame))
        .unwrap_or_else(|_| panic!());
    assert_eq!(plan.target, Point::new(20, -6));
    assert_eq!(plan.style, MoveStyle::HumanLike);
    assert!(plan.single_event().is_none());
    assert_eq!(
        plan.message("2.000", 31, Point::new(20, -5)),
        "Mouse moved along a 31-step WindMouse path to image (10, -3) -> native (20, -6) (scale 2.000); now at cursor (20, -5)."
    );

    let plan = server()
        .move_mouse(&mouse(10, -3, Some(false), Some(false)), Some(&frame))
        .unwrap_or_else(|_| panic!());
    assert_eq!(
        format!("{:?}", plan.single_event().unwrap()),
        "MoveMouse { x: 20, y: -6, coordinate: Abs }"
    );
    assert_eq!(
        plan.message("2.000", 1, Point::new(20, -6)),
        "Mouse moved to image (10, -3) -> native (20, -6) (scale 2.000); now at cursor (20, -6)."
    );
}

#[test]
fn relative_moves_are_raw() {
    let plan = server()
        .move_mouse(&mouse(-40, 7, Some(true), None), None)
        .unwrap_or_else(|_| panic!());
    assert_eq!(plan.style, MoveStyle::Relative);
    assert_eq!(
        format!("{:?}", plan.single_event().unwrap()),
        "MoveMouse { x: -40, y: 7, coordinate: Rel }"
    );
    assert_eq!(
        plan.message("", 1, Point::new(3, 4)),
        "Mouse moved by relative delta (-40, 7); now at cursor (3, 4)."
    );
}

#[test]
fn an_absolute_move_needs_a_frame() {
    assert_eq!(
        rejected(
            server().move_mouse(&mouse(1, 1, None, None), None),
            ErrorKind::InvalidParams
        ),
        "No frame captured yet; call capture_screen first."
    );
    let empty = FramePayload::default();
    let plan = server()
        .move_mouse(&mouse(9, 8, None, None), Some(&empty))
        .unwrap_or_else(|_| panic!());
    assert_eq!(plan.target, Point::new(9, 8), "an empty preview is not scaled");
}

fn click(button: Option<&str>, double: Option<bool>) -> ClickMouseArgs {
    ClickMouseArgs { button: button.map(str::to_string), double }
}

#[test]
fn clicks_are_single_or_double() {
    let plan = server().click_mouse(&click(None, None)).unwrap_or_else(|_| panic!());
    assert_eq!(plan.message, "Single Left mouse button clicked.");
    assert_eq!(shown(&plan.actions), ["MouseButton { button: Left, direction: Click }"]);
    let plan = server().click_mouse(&click(Some("MIDDLE"), Some(true))).unwrap_or_else(|_| panic!());
    assert_eq!(plan.message, "Double Middle mouse button clicked.");
    assert_eq!(
        shown(&plan.actions),
        [
            "MouseButton { button: Middle, direction: Click }",
            "Sleep { millis: 50 }",
            "MouseButton { button: Middle, direction: Click }"
        ]
    );
    assert_eq!(
        rejected(server().click_mouse(&click(Some("Fourth"), None)), ErrorKind::InvalidParams),
        "Invalid button: fourth. Use left/right/middle."
    );
}

fn hold(button: &str, action: Option<&str>, duration_ms: Option<u64>) -> HoldMouseArgs {
    HoldMouseArgs {
        button: Some(button.to_string()),
        action: action.map(str::to_string),
        duration_ms,
    }
}

#[test]
fn holds_press_wait_and_release() {
    let mut held = HeldButtons::default();
    let plan = server()
        .hold_mouse(&mut held, &hold("right", None, Some(20_000)))
        .unwrap_or_else(|_| panic!());
    assert_eq!(plan.message, "Held Right mouse button for 10000 ms, then released.");
    assert_eq!(
        shown(&plan.actions),
        [
            "MouseButton { button: Right, direction: Press }",
            "Sleep { millis: 10000 }",
            "MouseButton { button: Right, direction: Release }"
        ]
    );
    finish_hold(&mut held, plan.button, plan.action, plan.actions.len());
    assert!(release_all(&mut held).is_empty());
}

#[test]
fn a_second_press_is_rejected_until_the_release() {
    let mut held = HeldButtons::default();
    let server = server();
    let plan = server
        .hold_mouse(&mut held, &hold("left", Some("Press"), None))
        .unwrap_or_else(|_| panic!());
    assert_eq!(plan.message, "Mouse button Left pressed (held down).");
    finish_hold(&mut held, plan.button, plan.action, plan.actions.len());
    for again in ["press", "hold"] {
        assert_eq!(
            rejected(
                server.hold_mouse(&mut held, &hold("left", Some(again), None)),
                ErrorKind::InvalidParams
            ),
            "Mouse button Left is already held down. Release it first."
        );
    }
    let plan = server
        .hold_mouse(&mut held, &hold("left", Some("release"), None))
        .unwrap_or_else(|_| panic!());
    assert_eq!(plan.message, "Mouse button Left released.");
    assert_eq!(shown(&plan.actions), ["MouseButton { button: Left, direction: Release }"]);
    finish_hold(&mut held, plan.button, plan.action, plan.actions.len());
    assert!(held.press(Button::Left));
}

#[test]
fn failed_sends_are_not_forgotten() {
    let mut held = HeldButtons::default();
    held.press(Button::Left);
    // Neither a release that failed nor a hold cut off after its press frees the button.
    finish_hold(&mut held, Button::Left, HoldAction::Release, 0);
    finish_hold(&mut held, Button::Left, HoldAction::Hold, 1);
    finish_hold(&mut held, Button::Left, HoldAction::Hold, 2);
    assert_eq!(
        shown(&release_all(&mut held)),
        ["MouseButton { button: Left, direction: Release }"]
    );
}

#[test]
fn a_press_that_failed_holds_nothing() {
    let mut held = HeldButtons::default();
    let server = server();
    for action in ["hold", "press", "hold"] {
        let plan = server
            .hold_mouse(&mut held, &hold("left", Some(action), None))
            .unwrap_or_else(|_| panic!("{action} refused"));
        finish_hold(&mut held, plan.button, plan.action, 0);
    }
    assert!(release_all(&mut held).is_empty());
}

#[test]
fn unknown_hold_arguments_are_rejected() {
    let mut held = HeldButtons::default();
    assert_eq!(
        rejected(
            server().hold_mouse(&mut held, &hold("left", Some("Grab"), None)),
            ErrorKind::InvalidParams
        ),
        "Invalid action: grab. Use hold/press/release."
    );
    assert_eq!(
        rejected(
            server().hold_mouse(&mut held, &hold("x", Some("Grab"), None)),
            ErrorKind::InvalidParams
        ),
        "Invalid button: x. Use left/right/middle."
    );
    assert!(held.take_all().is_empty());
}

#[test]
fn scrolling_is_counted_in_clicks() {
    let plan = server().scroll_mouse(&ScrollMouseArgs { amount: -4 });
    assert_eq!(plan.message, "Scrolled 4 clicks down.");
    assert_eq!(shown(&plan.actions), ["Scroll { length: 4 }"]);
    let plan = server().scroll_mouse(&ScrollMouseArgs { amount: 0 });
    assert_eq!(plan.message, "Scrolled 0 clicks up.");
}

#[test]
fn waits_are_capped_and_explained() {
    let wait = |duration_ms, reason: Option<&str>| {
        server().wait(&WaitArgs { duration_ms, reason: reason.map(str::to_string) })
    };
    assert_eq!(wait(None, None), (500, "Waited 500 ms.".to_string()));
    assert_eq!(wait(Some(90_000), Some("")), (60_000, "Waited 60000 ms.".to_string()));
    assert_eq!(
        wait(Some(0), Some("death respawn")),
        (0, "Waited 0 ms: death respawn.".to_string())
    );
}

fn farm(minutes: Option<u32>, target: Option<&str>, threshold: Option<i32>) -> StartFarmArgs {
    StartFarmArgs {
        duration_minutes: minutes,
        target: target.map(str::to_string),
        potion_threshold: threshold,
    }
}

#[test]
fn farming_prompts_fill_in_the_template() {
    let template = "Farm {target} for {duration} min, drink at {potion_threshold}%. {target}!";
    assert_eq!(
        start_farm(template, &farm(None, None, None)),
        "Farm any nearby mob for 10 min, drink at 30%. any nearby mob!"
    );
    assert_eq!(
        start_farm(template, &farm(Some(45), Some("wolf"), Some(150))),
        "Farm wolf for 45 min, drink at 100%. wolf!"
    );
    assert_eq!(
        start_farm(template, &farm(Some(0), Some(""), Some(-7))),
        "Farm any nearby mob for 0 min, drink at 0%. any nearby mob!"
    );
    // Placeholders are filled in one after the other.
    assert_eq!(
        start_farm("{target}", &farm(Some(3), Some("{duration}"), None)),
        "3"
    );
}

#[test]
fn unreadable_templates_and_input_failures_are_internal() {
    let error = unreadable_template("a/b.md", "not found");
    assert_eq!(error.kind, ErrorKind::Internal);
    assert_eq!(error.message, "failed to read prompt instructions from a/b.md: not found");
    let error = input_error("no display");
    assert_eq!(error.kind, ErrorKind::Internal);
    assert_eq!(error.message, "Input simulation failure: no display");
}

#[test]
fn base64_is_padded_standard() {
    for (bytes, text) in [
        (&b""[..], ""),
        (b"f", "Zg=="),
        (b"fo", "Zm8="),
        (b"foo", "Zm9v"),
        (b"foob", "Zm9vYg=="),
        (&[0xFB, 0xEF, 0xFF], "++//"),
    ] {
        assert_eq!(encode_base64(&bytes.to_vec()).unwrap(), text);
    }
}
