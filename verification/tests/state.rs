//! Session history, held buttons, frames and the frame buffer.

use std::collections::VecDeque;
use std::sync::Arc;

use autorpg_mcp::games::action_rpg::ActionRPG;
use autorpg_mcp::input::Button;
use autorpg_mcp::state::{
    timestamp_of, unix_timestamp, FrameBuffer, FrameLock, FramePayload, GameMetrics, HeldButtons,
    RgbPixel, SessionState, MAX_EVENT_HISTORY,
};

fn session() -> SessionState {
    SessionState {
        current_metrics: GameMetrics::default(),
        active_game: Arc::new(ActionRPG::default()),
        last_frame_hash: None,
        event_history: VecDeque::new(),
    }
}

#[test]
fn press_is_rejected_while_the_button_is_held() {
    let mut held = HeldButtons::default();
    assert!(held.press(Button::Right));
    assert!(!held.press(Button::Right), "double press must be rejected");
    assert!(held.press(Button::Left), "other buttons stay independent");
}

#[test]
fn release_clears_only_the_named_button() {
    let mut held = HeldButtons::default();
    held.press(Button::Left);
    held.press(Button::Middle);

    assert!(held.release(Button::Left));
    assert!(!held.release(Button::Left), "a second release is a no-op");
    assert_eq!(held.take_all(), vec![Button::Middle]);
}

#[test]
fn take_all_drains_the_set() {
    let mut held = HeldButtons::default();
    held.press(Button::Left);
    held.press(Button::Right);

    let mut taken = held.take_all();
    taken.sort_by_key(|button| format!("{button:?}"));
    assert_eq!(taken, vec![Button::Left, Button::Right]);
    assert!(
        held.take_all().is_empty(),
        "a second drain must release nothing twice"
    );
}

#[test]
fn releasing_undoes_a_press() {
    let mut held = HeldButtons::default();
    held.press(Button::Middle);
    held.press(Button::Left);
    held.release(Button::Left);
    assert_eq!(held.take_all(), vec![Button::Middle]);
}

#[test]
fn history_keeps_the_newest_events_in_order() {
    let mut session = session();
    for i in 0..MAX_EVENT_HISTORY as u64 + 3 {
        session.record_event_at(i, format!("event {i}"));
    }
    assert_eq!(session.event_history.len(), MAX_EVENT_HISTORY);
    assert_eq!(session.event_history[0].timestamp, 3);
    assert_eq!(session.event_history[0].action_taken, "event 3");
    let last = session.event_history.back().unwrap();
    assert_eq!(last.action_taken, "event 514");
}

#[test]
fn events_snapshot_the_metrics_of_their_moment() {
    let mut session = session();
    session.current_metrics.player_hp = 80;
    session.record_event("first".to_string());
    session.current_metrics.player_hp = 40;
    session.record_event("second".to_string());
    assert_eq!(session.event_history[0].state_snapshot.player_hp, 80);
    assert_eq!(session.event_history[1].state_snapshot.player_hp, 40);
    assert!(session.event_history[0].timestamp > 1_600_000_000);
}

#[test]
fn clocks_before_the_epoch_read_as_zero() {
    assert_eq!(timestamp_of(None), 0);
    assert_eq!(timestamp_of(Some(17)), 17);
    assert!(unix_timestamp() > 1_600_000_000);
}

fn frame(width: u32, height: u32, len: usize) -> FramePayload {
    FramePayload {
        rgb: (0..len).map(|i| i as u8).collect(),
        width,
        height,
        source_width: width,
        source_height: height,
        hash: 0,
    }
}

#[test]
fn views_need_every_pixel_of_the_frame() {
    assert!(frame(4, 2, 24).as_rgb_view().is_some());
    assert!(frame(4, 2, 23).as_rgb_view().is_none());
    assert!(frame(0, 2, 24).as_rgb_view().is_none());
    assert!(frame(4, 0, 24).as_rgb_view().is_none());
    assert!(frame(u32::MAX, u32::MAX, 24).as_rgb_view().is_none());
    assert!(FramePayload::default().as_rgb_view().is_none());
}

#[test]
fn pixels_outside_the_frame_are_black() {
    let payload = frame(4, 2, 24);
    let view = payload.as_rgb_view().unwrap();
    assert_eq!((view.width(), view.height()), (4, 2));
    assert_eq!(view.get_pixel(3, 1), RgbPixel { r: 21, g: 22, b: 23 });
    assert_eq!(view.get_pixel(0, 1), RgbPixel { r: 12, g: 13, b: 14 });
    assert_eq!(view.get_pixel(4, 0), RgbPixel { r: 0, g: 0, b: 0 });
    assert_eq!(view.get_pixel(0, 2), RgbPixel { r: 0, g: 0, b: 0 });
}

#[test]
fn jpeg_encoding_is_the_encoders_own() {
    let payload = frame(16, 8, 16 * 8 * 3);
    for (quality, used) in [(0, 1), (50, 50), (100, 100), (255, 100)] {
        let mut expected = Vec::new();
        image::codecs::jpeg::JpegEncoder::new_with_quality(&mut expected, used)
            .encode(&payload.rgb, 16, 8, image::ExtendedColorType::Rgb8)
            .unwrap();
        assert_eq!(payload.encode_jpeg(quality).unwrap(), expected);
        assert_eq!(&expected[..2], &[0xFF, 0xD8]);
    }
}

#[test]
fn frames_beyond_the_jpeg_format_are_not_encoded() {
    assert!(frame(65_535, 1, 65_535 * 3).encode_jpeg(1).is_ok());
    assert!(frame(65_536, 1, 65_536 * 3).encode_jpeg(1).is_err());
    assert!(frame(1, 65_536, 65_536 * 3).encode_jpeg(1).is_err());
    let error = frame(0, 5, 0).encode_jpeg(1).unwrap_err();
    let outside = image::codecs::jpeg::JpegEncoder::new_with_quality(Vec::new(), 1)
        .encode(&[], 0, 5, image::ExtendedColorType::Rgb8)
        .unwrap_err();
    assert_eq!(error, outside.to_string());
}

#[test]
fn the_buffer_serves_the_latest_frame_until_it_is_closed() {
    let mut buffer = FrameBuffer::default();
    assert!(buffer.latest().is_none());
    assert!(!buffer.is_closed());
    assert!(matches!(buffer.try_latest(), FrameLock::Empty));

    let first = Arc::new(frame(4, 2, 24));
    let second = Arc::new(frame(2, 2, 12));
    assert!(buffer.publish(Arc::clone(&first)).is_none());
    let previous = buffer.publish(Arc::clone(&second)).unwrap();
    assert!(Arc::ptr_eq(&previous, &first));
    assert!(Arc::ptr_eq(&buffer.latest().unwrap(), &second));
    assert!(matches!(buffer.try_latest(), FrameLock::Frame(f) if Arc::ptr_eq(&f, &second)));

    buffer.close();
    assert!(buffer.is_closed());
    assert!(buffer.latest().is_none());
    buffer.publish(first);
    assert!(!buffer.is_closed(), "publishing reopens the buffer");
}
