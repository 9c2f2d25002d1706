//! In-memory session state shared between the tools and the capture thread.

use std::collections::VecDeque;
use std::sync::Arc;

use vstd::prelude::*;

use crate::config::{clamp_quality, clamped_quality};
use crate::games::GameProfile;
use crate::input::Button;

verus! {

/// Live game metrics tracked by the session.
#[derive(Debug)]
pub struct GameMetrics {
    pub player_hp: i32,
    pub stamina: i32,
    pub q_ready: bool,
    pub r_ready: bool,
    pub f_ready: bool,
    pub g_ready: bool,
    pub location: String,
    pub in_combat: bool,
}

impl Clone for GameMetrics {
    fn clone(&self) -> (r: Self)
        ensures
            r == *self,
    {
        GameMetrics {
            player_hp: self.player_hp,
            stamina: self.stamina,
            q_ready: self.q_ready,
            r_ready: self.r_ready,
            f_ready: self.f_ready,
            g_ready: self.g_ready,
            location: self.location.clone(),
            in_combat: self.in_combat,
        }
    }
}

impl Default for GameMetrics {
    fn default() -> (r: Self)
        ensures
            r.player_hp == 0,
            r.stamina == 0,
            !r.q_ready && !r.r_ready && !r.f_ready && !r.g_ready,
            r.location@ == Seq::<char>::empty(),
            !r.in_combat,
    {
        GameMetrics {
            player_hp: 0,
            stamina: 0,
            q_ready: false,
            r_ready: false,
            f_ready: false,
            g_ready: false,
            location: String::new(),
            in_combat: false,
        }
    }
}

/// A single logged action with the metrics snapshot taken at that moment.
#[derive(Debug)]
pub struct SessionEvent {
    pub timestamp: u64,
    pub action_taken: String,
    pub state_snapshot: GameMetrics,
}

/// Full session state: current metrics plus the event history.
pub struct SessionState {
    pub current_metrics: GameMetrics,
    pub active_game: Arc<dyn GameProfile>,
    pub last_frame_hash: Option<u64>,
    pub event_history: VecDeque<SessionEvent>,
}

/// Maximum number of events retained in the session history.
/// Older events are dropped first, so the log cannot grow without bound.
pub const MAX_EVENT_HISTORY: usize = 512;

/// The history after one more event: the oldest entry makes room once the limit is reached.
pub open spec fn history_with(history: Seq<SessionEvent>, event: SessionEvent) -> Seq<
    SessionEvent,
> {
    if history.len() >= MAX_EVENT_HISTORY {
        history.skip(1).push(event)
    } else {
        history.push(event)
    }
}

impl SessionState {
    /// Whether the history is within its limit.
    pub open spec fn wf(self) -> bool {
        self.event_history@.len() <= MAX_EVENT_HISTORY
    }

    /// Whether `self` differs from `before` in its history only.
    pub open spec fn same_but_history(self, before: SessionState) -> bool {
        &&& self.current_metrics == before.current_metrics
        &&& self.active_game == before.active_game
        &&& self.last_frame_hash == before.last_frame_hash
    }

    /// Appends an event stamped with the current time, snapshotting the current metrics, and
    /// evicts the oldest entry once [`MAX_EVENT_HISTORY`] is reached.
    pub fn record_event(&mut self, action_taken: String)
        ensures
            final(self).same_but_history(*old(self)),
            final(self).event_history@.len() > 0,
            final(self).event_history@ == history_with(
                old(self).event_history@,
                (SessionEvent {
                    timestamp: final(self).event_history@.last().timestamp,
                    action_taken,
                    state_snapshot: old(self).current_metrics,
                }),
            ),
    {
        let timestamp: u64 = unix_timestamp();
        self.record_event_at(timestamp, action_taken);
    }

    /// Appends an event with the given timestamp, snapshotting the current metrics, and evicts
    /// the oldest entry once [`MAX_EVENT_HISTORY`] is reached.
    pub fn record_event_at(&mut self, timestamp: u64, action_taken: String)
        ensures
            final(self).same_but_history(*old(self)),
            final(self).event_history@ == history_with(
                old(self).event_history@,
                (SessionEvent {
                    timestamp,
                    action_taken,
                    state_snapshot: old(self).current_metrics,
                }),
            ),
    {
        if self.event_history.len() >= MAX_EVENT_HISTORY {
            let oldest: Option<SessionEvent> = self.event_history.pop_front();
            assert(self.event_history@ =~= old(self).event_history@.skip(1));
        }
        let state_snapshot: GameMetrics = self.current_metrics.clone();
        self.event_history.push_back(SessionEvent { timestamp, action_taken, state_snapshot });
    }
}

/// The history never outgrows its limit. It ends with the newest event, and what it keeps of
/// the older ones is their most recent part, in order.
pub proof fn law_history_is_bounded_and_ordered(history: Seq<SessionEvent>, event: SessionEvent)
    requires
        history.len() <= MAX_EVENT_HISTORY,
    ensures
        0 < history_with(history, event).len() <= MAX_EVENT_HISTORY,
        history_with(history, event).last() == event,
        ({
            let kept = history_with(history, event).drop_last();
            &&& kept == history.skip(history.len() - kept.len())
            &&& history.len() < MAX_EVENT_HISTORY ==> kept == history
        }),
{
    let kept = history_with(history, event).drop_last();
    assert(kept =~= history.skip(history.len() - kept.len()));
}

/// Seconds on the system clock since the UNIX epoch (`SystemTime::elapsed` of the epoch), or
/// nothing when the clock is before it. Nothing is claimed of the time.
#[verifier::external_body]
fn seconds_since_epoch() -> Option<u64> {
    match std::time::UNIX_EPOCH.elapsed() {
        Ok(elapsed) => Some(elapsed.as_secs()),
        Err(_) => None,
    }
}

/// Timestamp for what the system clock reads.
pub fn timestamp_of(clock: Option<u64>) -> (r: u64)
    ensures
        r == match clock {
            Some(seconds) => seconds,
            None => 0,
        },
{
    match clock {
        Some(seconds) => seconds,
        None => 0,
    }
}

/// Current UNIX timestamp in seconds (0 if the clock is before the epoch).
pub fn unix_timestamp() -> (r: u64) {
    timestamp_of(seconds_since_epoch())
}

/// Position of the first `button` in `held`, or its length.
pub open spec fn position_of(held: Seq<Button>, button: Button) -> int
    decreases held.len(),
{
    if held.len() == 0 || held[0] == button {
        0
    } else {
        1 + position_of(held.skip(1), button)
    }
}

/// Mouse buttons currently held down through `hold_mouse`.
///
/// Tracked for two reasons: a second press of an already-held button is rejected instead of
/// silently stacking, and whatever is still held when the session ends is released rather than
/// left stuck down.
pub struct HeldButtons {
    held: Vec<Button>,
}

impl View for HeldButtons {
    type V = Seq<Button>;

    closed spec fn view(&self) -> Seq<Button> {
        self.held@
    }
}

impl Default for HeldButtons {
    fn default() -> (r: Self)
        ensures
            r@ == Seq::<Button>::empty(),
            r.wf(),
    {
        HeldButtons { held: Vec::new() }
    }
}

impl HeldButtons {
    /// Whether no button is recorded twice.
    pub open spec fn wf(self) -> bool {
        self@.no_duplicates()
    }

    /// Position of `button` among the held ones, or their number.
    fn position(&self, button: Button) -> (r: usize)
        ensures
            r == position_of(self@, button),
            r <= self@.len(),
            r < self@.len() <==> self@.contains(button),
            r < self@.len() ==> self@[r as int] == button,
    {
        let mut i: usize = 0;
        assert(self@.skip(0) =~= self@);
        while i < self.held.len()
            invariant
                i <= self@.len(),
                self@ == self.held@,
                forall|j: int| 0 <= j < i ==> self@[j] != button,
                position_of(self@, button) == i + position_of(self@.skip(i as int), button),
            decreases self@.len() - i,
        {
            if self.held[i] == button {
                return i;
            }
            assert(self@.skip(i as int).skip(1) =~= self@.skip(i + 1));
            i = i + 1;
        }
        i
    }

    /// Records `button` as held, returning `false` when it already was.
    pub fn press(&mut self, button: Button) -> (r: bool)
        ensures
            r == !old(self)@.contains(button),
            final(self)@ == if r {
                old(self)@.push(button)
            } else {
                old(self)@
            },
            old(self).wf() ==> final(self).wf(),
    {
        if self.position(button) < self.held.len() {
            return false;
        }
        self.held.push(button);
        true
    }

    /// Clears `button` from the held set, returning whether it had been recorded.
    pub fn release(&mut self, button: Button) -> (r: bool)
        ensures
            r == old(self)@.contains(button),
            final(self)@ == if r {
                old(self)@.remove(position_of(old(self)@, button))
            } else {
                old(self)@
            },
            old(self).wf() ==> final(self).wf(),
            old(self).wf() ==> !final(self)@.contains(button),
    {
        let index: usize = self.position(button);
        if index < self.held.len() {
            let removed: Button = self.held.remove(index);
            true
        } else {
            false
        }
    }

    /// Removes and returns every held button, so the caller can release them.
    pub fn take_all(&mut self) -> (r: Vec<Button>)
        ensures
            r@ == old(self)@,
            final(self)@ == Seq::<Button>::empty(),
            final(self).wf(),
    {
        let mut all: Vec<Button> = Vec::new();
        std::mem::swap(&mut all, &mut self.held);
        all
    }
}

/// Releasing a button leaves every other held button held.
pub proof fn law_release_clears_only_the_named_button(
    held: Seq<Button>,
    button: Button,
    other: Button,
)
    requires
        held.no_duplicates(),
        held.contains(button),
        other != button,
    ensures
        held.remove(position_of(held, button)).contains(other) == held.contains(other),
{
    lemma_position_of(held, button);
    let i = position_of(held, button);
    let rest = held.remove(i);
    if held.contains(other) {
        let j = choose|j: int| 0 <= j < held.len() && held[j] == other;
        if j < i {
            assert(rest[j] == other);
        } else {
            assert(rest[j - 1] == other);
        }
    }
    if rest.contains(other) {
        let j = choose|j: int| 0 <= j < rest.len() && rest[j] == other;
        if j < i {
            assert(held[j] == other);
        } else {
            assert(held[j + 1] == other);
        }
    }
}

/// Pressing a button that is not held and releasing it again leaves the held buttons as they
/// were.
pub proof fn law_release_undoes_a_press(held: Seq<Button>, button: Button)
    requires
        !held.contains(button),
    ensures
        held.push(button).contains(button),
        held.push(button).remove(position_of(held.push(button), button)) == held,
{
    let pressed = held.push(button);
    assert(pressed[held.len() as int] == button);
    lemma_position_of(pressed, button);
    let i = position_of(pressed, button);
    if i < held.len() {
        assert(held[i] == button);
    }
    assert(pressed.remove(i) =~= held);
}

pub proof fn lemma_position_of(held: Seq<Button>, button: Button)
    requires
        held.contains(button),
    ensures
        0 <= position_of(held, button) < held.len(),
        held[position_of(held, button)] == button,
    decreases held.len(),
{
    if held[0] != button {
        let j = choose|j: int| 0 <= j < held.len() && held[j] == button;
        assert(held.skip(1)[j - 1] == button);
        lemma_position_of(held.skip(1), button);
    }
}

/// Latest captured frame shared between the capture thread and the tools.
#[derive(Debug)]
pub struct FramePayload {
    /// Tightly packed RGB8 pixels of the preview.
    pub rgb: Vec<u8>,
    pub width: u32,
    pub height: u32,
    /// Native pixel size of the captured source (monitor or window) before the preview
    /// downscale.
    pub source_width: u32,
    pub source_height: u32,
    /// Average hash of the preview, computed at publish time.
    pub hash: u64,
}

impl Default for FramePayload {
    fn default() -> (r: Self)
        ensures
            r.rgb@ == Seq::<u8>::empty(),
            r.width == 0 && r.height == 0,
            r.source_width == 0 && r.source_height == 0,
            r.hash == 0,
    {
        FramePayload {
            rgb: Vec::new(),
            width: 0,
            height: 0,
            source_width: 0,
            source_height: 0,
            hash: 0,
        }
    }
}

/// Whether the JPEG format can hold a frame of this size.
pub open spec fn encodable(width: u32, height: u32) -> bool {
    1 <= width <= 65535 && 1 <= height <= 65535
}

/// What the JPEG encoder says of a frame whose size the format cannot hold.
pub open spec fn jpeg_refusal_text(width: u32, height: u32) -> Seq<char> {
    "Format error encoding Jpeg:\nInvalid image size ("@ + crate::text::decimal(width as int)
        + " x "@ + crate::text::decimal(height as int)
        + ") to encode as JPEG: width and height must be >= 1 and <= 65535"@
}

/// What the JPEG encoder writes for RGB8 pixels of the given size at a quality of 1 to 100.
pub uninterp spec fn jpeg_of(rgb: Seq<u8>, width: u32, height: u32, quality: u8) -> Seq<u8>;

/// Encodes RGB8 pixels with `JpegEncoder::encode` of the image crate into a fresh buffer.
///
/// The encoder panics when the buffer does not hold exactly the pixels of the frame, and
/// fails exactly when an edge is zero or above 65535. Its error is handed on as the text that
/// it displays, which names the refused size.
#[verifier::external_body]
fn jpeg_encode(
    rgb: &Vec<u8>,
    width: u32,
    height: u32,
    quality: u8,
) -> (r: Result<Vec<u8>, String>)
    requires
        rgb@.len() == width * height * 3,
        1 <= quality <= 100,
    ensures
        r is Ok <==> encodable(width, height),
        r matches Ok(jpeg) ==> jpeg@ == jpeg_of(rgb@, width, height, quality),
        r matches Err(error) ==> error@ == jpeg_refusal_text(width, height),
{
    let mut jpeg = Vec::new();
    image::codecs::jpeg::JpegEncoder::new_with_quality(&mut jpeg, quality).encode(
        rgb,
        width,
        height,
        image::ExtendedColorType::Rgb8,
    ).map_err(|error| error.to_string())?;
    Ok(jpeg)
}

impl FramePayload {
    /// The preview as a frame of pixels.
    pub open spec fn grid(self) -> PixelGrid {
        PixelGrid { rgb: self.rgb@, width: self.width, height: self.height }
    }

    /// Borrows the published preview pixels as a zero-copy [`RgbView`].
    pub fn as_rgb_view(&self) -> (r: Option<RgbView<'_>>)
        ensures
            r is Some <==> self.grid().complete(),
            r matches Some(view) ==> view@ == self.grid(),
    {
        RgbView::new(self.rgb.as_slice(), self.width, self.height)
    }

    /// Encodes the preview pixels into a freshly allocated JPEG buffer. The error is the text
    /// that the encoder displays.
    pub fn encode_jpeg(&self, quality: u8) -> (r: Result<Vec<u8>, String>)
        requires
            self.rgb@.len() == self.width * self.height * 3,
        ensures
            r is Ok <==> encodable(self.width, self.height),
            r matches Ok(jpeg) ==> jpeg@ == jpeg_of(
                self.rgb@,
                self.width,
                self.height,
                clamped_quality(quality),
            ),
            r matches Err(error) ==> error@ == jpeg_refusal_text(self.width, self.height),
    {
        jpeg_encode(&self.rgb, self.width, self.height, clamp_quality(quality))
    }
}

/// A borrowed, tightly packed RGB8 pixel buffer.
#[derive(Debug, Clone, Copy)]
pub struct RgbView<'a> {
    rgb: &'a [u8],
    width: u32,
    height: u32,
}

/// An RGB pixel sampled out of an [`RgbView`].
#[derive(Debug, Clone, Copy, PartialEq, Eq, Structural)]
pub struct RgbPixel {
    pub r: u8,
    pub g: u8,
    pub b: u8,
}

/// A frame of tightly packed RGB8 pixels.
pub struct PixelGrid {
    pub rgb: Seq<u8>,
    pub width: u32,
    pub height: u32,
}

impl PixelGrid {
    /// The pixel at `(x, y)`; black outside the frame.
    pub open spec fn pixel(self, x: int, y: int) -> RgbPixel {
        if 0 <= x < self.width && 0 <= y < self.height {
            let offset = (y * self.width + x) * 3;
            RgbPixel { r: self.rgb[offset], g: self.rgb[offset + 1], b: self.rgb[offset + 2] }
        } else {
            RgbPixel { r: 0, g: 0, b: 0 }
        }
    }

    /// Whether the buffer holds every pixel of a frame with at least one pixel.
    pub open spec fn complete(self) -> bool {
        self.width > 0 && self.height > 0 && self.rgb.len() >= self.width * self.height * 3
    }
}

/// The bytes of a pixel inside the frame lie inside its buffer.
pub proof fn lemma_pixel_in_buffer(width: int, height: int, x: int, y: int)
    requires
        0 <= x < width,
        0 <= y < height,
    ensures
        0 <= (y * width + x) * 3,
        (y * width + x) * 3 + 3 <= width * height * 3,
        0 <= y * width,
        y * width + x < width * height,
{
    assert(0 <= y * width) by (nonlinear_arith)
        requires
            0 <= y,
            0 < width,
    ;
    assert(y * width + x + 1 <= width * height) by (nonlinear_arith)
        requires
            0 <= x < width,
            0 <= y < height,
    ;
}

impl<'a> View for RgbView<'a> {
    type V = PixelGrid;

    closed spec fn view(&self) -> PixelGrid {
        PixelGrid { rgb: self.rgb@, width: self.width, height: self.height }
    }
}

impl<'a> RgbView<'a> {
    #[verifier::type_invariant]
    spec fn covers(self) -> bool {
        self@.complete()
    }

    fn new(rgb: &'a [u8], width: u32, height: u32) -> (r: Option<RgbView<'a>>)
        ensures
            r is Some <==> (PixelGrid { rgb: rgb@, width, height }).complete(),
            r matches Some(view) ==> view@ == (PixelGrid { rgb: rgb@, width, height }),
    {
        assert(width * height * 3 <= 0xFFFF_FFFF * 0xFFFF_FFFF * 3) by (nonlinear_arith)
            requires
                0 <= width <= 0xFFFF_FFFF,
                0 <= height <= 0xFFFF_FFFF,
        ;
        assert(0 <= width * height) by (nonlinear_arith)
            requires
                0 <= width,
                0 <= height,
        ;
        let expected: u128 = width as u128 * height as u128 * 3;
        if width == 0 || height == 0 || (rgb.len() as u128) < expected {
            return None;
        }
        Some(RgbView { rgb, width, height })
    }

    /// Width of the viewed frame; at least one pixel.
    pub fn width(&self) -> (r: u32)
        ensures
            r == self@.width,
            r > 0,
    {
        proof {
            use_type_invariant(self);
        }
        self.width
    }

    /// Height of the viewed frame; at least one pixel.
    pub fn height(&self) -> (r: u32)
        ensures
            r == self@.height,
            r > 0,
    {
        proof {
            use_type_invariant(self);
        }
        self.height
    }

    /// Samples the pixel at `(x, y)`; out-of-bounds reads return black.
    pub fn get_pixel(&self, x: u32, y: u32) -> (r: RgbPixel)
        ensures
            r == self@.pixel(x as int, y as int),
    {
        proof {
            use_type_invariant(self);
        }
        if x >= self.width || y >= self.height {
            return RgbPixel { r: 0, g: 0, b: 0 };
        }
        proof {
            lemma_pixel_in_buffer(self.width as int, self.height as int, x as int, y as int);
        }
        let size: usize = self.rgb.len();
        let offset: usize = (y as usize * self.width as usize + x as usize) * 3;
        RgbPixel { r: self.rgb[offset], g: self.rgb[offset + 1], b: self.rgb[offset + 2] }
    }
}

/// Shares a frame with one more owner: `Arc::clone` returns a handle to the same frame.
#[verifier::external_body]
fn share(frame: &Arc<FramePayload>) -> (r: Arc<FramePayload>)
    ensures
        r == *frame,
{
    Arc::clone(frame)
}

/// Outcome of a non-blocking attempt to read the latest published frame.
pub enum FrameLock {
    /// The lock was acquired and held a frame.
    Frame(Arc<FramePayload>),
    /// The lock was acquired and no frame has been published yet.
    Empty,
    /// Another thread (the capture thread) held the lock.
    Contended,
}

impl FrameLock {
    /// Outcome of an attempt that acquired the lock.
    pub fn from_option(frame: Option<&Arc<FramePayload>>) -> (r: Self)
        ensures
            r == match frame {
                Some(frame) => FrameLock::Frame(*frame),
                None => FrameLock::Empty,
            },
    {
        match frame {
            Some(frame) => FrameLock::Frame(share(frame)),
            None => FrameLock::Empty,
        }
    }
}

/// Buffer holding the latest captured frame.
pub struct FrameBuffer {
    latest: Option<Arc<FramePayload>>,
    /// Set once the capture session has ended. Distinguishes "the capture stopped" from
    /// "the capture has not produced a frame yet", which are otherwise both an empty slot.
    closed: bool,
}

impl Default for FrameBuffer {
    fn default() -> (r: Self)
        ensures
            r.frame() is None,
            !r.ended(),
            r.wf(),
    {
        FrameBuffer { latest: None, closed: false }
    }
}

impl FrameBuffer {
    /// The published frame.
    pub closed spec fn frame(self) -> Option<Arc<FramePayload>> {
        self.latest
    }

    /// Whether the capture session has ended.
    pub closed spec fn ended(self) -> bool {
        self.closed
    }

    /// A buffer whose capture session has ended serves no frame.
    pub open spec fn wf(self) -> bool {
        self.ended() ==> self.frame() is None
    }

    /// Clones the handle to the latest published frame, if any.
    ///
    /// Returns `None` while no frame has been produced yet, or after the capture session has
    /// closed.
    pub fn latest(&self) -> (r: Option<Arc<FramePayload>>)
        ensures
            r == self.frame(),
    {
        match &self.latest {
            Some(frame) => Some(share(frame)),
            None => None,
        }
    }

    /// Outcome of reading the buffer once its lock is held.
    pub fn try_latest(&self) -> (r: FrameLock)
        ensures
            r == match self.frame() {
                Some(frame) => FrameLock::Frame(frame),
                None => FrameLock::Empty,
            },
    {
        FrameLock::from_option(self.latest.as_ref())
    }

    /// Publishes a new frame, returning the previous one.
    pub fn publish(&mut self, payload: Arc<FramePayload>) -> (r: Option<Arc<FramePayload>>)
        ensures
            r == old(self).frame(),
            final(self).frame() == Some(payload),
            !final(self).ended(),
            final(self).wf(),
    {
        let previous: Option<Arc<FramePayload>> = self.latest.take();
        self.latest = Some(payload);
        self.closed = false;
        previous
    }

    /// Marks the capture session as ended, dropping the published frame.
    pub fn close(&mut self)
        ensures
            final(self).frame() is None,
            final(self).ended(),
            final(self).wf(),
    {
        self.latest = None;
        self.closed = true;
    }

    /// Whether the capture session has ended without being restarted.
    pub fn is_closed(&self) -> (r: bool)
        ensures
            r == self.ended(),
    {
        self.closed
    }
}

/// A frame's buffer holds its pixels row by row, three bytes each: the pixel that comes `i`-th
/// in reading order has the bytes that come `i`-th, red first.
pub proof fn law_pixels_are_stored_in_reading_order(pixels: PixelGrid, i: int)
    requires
        pixels.width > 0,
        0 <= i < pixels.width * pixels.height,
    ensures
        pixels.pixel(i % pixels.width as int, i / pixels.width as int) == (RgbPixel {
            r: pixels.rgb[3 * i],
            g: pixels.rgb[3 * i + 1],
            b: pixels.rgb[3 * i + 2],
        }),
{
    let w = pixels.width as int;
    let h = pixels.height as int;
    vstd::arithmetic::div_mod::lemma_fundamental_div_mod(i, w);
    assert(0 <= i / w < h) by (nonlinear_arith)
        requires
            0 <= i < w * h,
            w > 0,
    ;
    assert(i / w * w == w * (i / w)) by (nonlinear_arith);
}

} // verus!
