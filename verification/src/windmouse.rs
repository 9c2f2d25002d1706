//! Cursor paths: from simulated velocities to the events that are sent.
//!
//! A human-like move follows a curved path whose steps come from a small physical simulation.
//! This module keeps the path such a simulation draws, turns it into absolute or relative
//! events, and decides what is sent when the time for a move runs out.

use rand::Rng;
use vstd::prelude::*;

use crate::input::{Coordinate, InputAction};

verus! {

/// Upper bound on simulated steps, so a degenerate force state can never spin forever. Far
/// beyond the step count any real screen distance needs.
pub const MAX_STEPS: usize = 4096;

/// Time budget of a single move, in nanoseconds (three seconds).
///
/// The input stays locked for the whole move, so an unbounded path would block every other
/// input tool behind it. When the budget runs out the cursor is closed onto the destination in
/// one final step.
pub const MAX_MOVE_DURATION: u128 = 3_000_000_000;

/// A cursor position in native (physical) pixel space.
#[derive(Debug, Clone, Copy, PartialEq, Eq, Structural)]
pub struct Point {
    pub x: i32,
    pub y: i32,
}

impl Point {
    pub fn new(x: i32, y: i32) -> (r: Self)
        ensures
            r == (Point { x, y }),
    {
        Point { x, y }
    }
}

/// Whether `n` is a cursor coordinate.
pub open spec fn fits(n: int) -> bool {
    i32::MIN <= n <= i32::MAX
}

/// Whether the difference of two points is one.
pub open spec fn difference_fits(from: Point, to: Point) -> bool {
    fits(to.x - from.x) && fits(to.y - from.y)
}

/// The step from one point to another.
pub open spec fn step_between(from: Point, to: Point) -> Point {
    Point { x: (to.x - from.x) as i32, y: (to.y - from.y) as i32 }
}

/// Position before the step at `i` of a path: the point before it, or where the path starts.
pub open spec fn position_before(start: Point, path: Seq<Point>, i: int) -> Point {
    if i <= 0 {
        start
    } else {
        path[i - 1]
    }
}

/// A path being drawn towards a destination.
pub struct PathBuilder {
    start: Point,
    dest: Point,
    current: Point,
    path: Vec<Point>,
    steps: usize,
}

/// Whether every point of a path differs from the position before it.
pub open spec fn keeps_moving(start: Point, path: Seq<Point>) -> bool {
    forall|i: int| 0 <= i < path.len() ==> #[trigger] path[i] != position_before(start, path, i)
}

/// Whether a path does not pass its destination before its last point.
pub open spec fn arrives_once(path: Seq<Point>, dest: Point) -> bool {
    forall|i: int| 0 <= i < path.len() - 1 ==> #[trigger] path[i] != dest
}

impl PathBuilder {
    #[verifier::type_invariant]
    spec fn consistent(self) -> bool {
        &&& self.current == position_before(self.start, self.path@, self.path@.len() as int)
        &&& self.path@.len() <= self.steps <= MAX_STEPS
        &&& self.steps > 0 ==> self.start != self.dest
        &&& keeps_moving(self.start, self.path@)
        &&& arrives_once(self.path@, self.dest)
    }

    /// Where the path starts.
    pub closed spec fn start(self) -> Point {
        self.start
    }

    /// Where the path has to end.
    pub closed spec fn dest(self) -> Point {
        self.dest
    }

    /// The positions drawn so far.
    pub closed spec fn drawn(self) -> Seq<Point> {
        self.path@
    }

    /// Number of simulated steps so far, including those that did not move the cursor.
    pub closed spec fn steps(self) -> nat {
        self.steps as nat
    }

    /// The position reached so far.
    pub open spec fn reached(self) -> Point {
        position_before(self.start(), self.drawn(), self.drawn().len() as int)
    }

    /// Whether the simulation has another step to take.
    pub open spec fn unfinished(self) -> bool {
        self.reached() != self.dest() && self.steps() < MAX_STEPS
    }

    /// An empty path from `start` to `dest`.
    pub fn new(start: Point, dest: Point) -> (r: Self)
        ensures
            r.start() == start,
            r.dest() == dest,
            r.drawn() == Seq::<Point>::empty(),
            r.steps() == 0,
    {
        PathBuilder { start, dest, current: start, path: Vec::new(), steps: 0 }
    }

    /// The position reached so far.
    pub fn position(&self) -> (r: Point)
        ensures
            r == self.reached(),
    {
        proof {
            use_type_invariant(self);
        }
        self.current
    }

    /// Whether the simulation has another step to take: the cursor is less than a pixel away
    /// from the destination only when it is there.
    pub fn running(&self) -> (r: bool)
        ensures
            r == self.unfinished(),
    {
        proof {
            use_type_invariant(self);
        }
        self.current != self.dest && self.steps < MAX_STEPS
    }

    /// Takes one step by a velocity in whole pixels. A step that does not move the cursor is
    /// counted and leaves no point.
    pub fn advance(self, dx: i32, dy: i32) -> (r: Self)
        requires
            self.unfinished(),
            fits(self.reached().x + dx),
            fits(self.reached().y + dy),
        ensures
            r.start() == self.start(),
            r.dest() == self.dest(),
            r.steps() == self.steps() + 1,
            r.drawn() == if dx == 0 && dy == 0 {
                self.drawn()
            } else {
                self.drawn().push(
                    Point {
                        x: (self.reached().x + dx) as i32,
                        y: (self.reached().y + dy) as i32,
                    },
                )
            },
    {
        proof {
            use_type_invariant(&self);
        }
        let next: Point = Point { x: self.current.x + dx, y: self.current.y + dy };
        let mut path: Vec<Point> = self.path;
        if next != self.current {
            path.push(next);
        }
        let steps: usize = self.steps + 1;
        proof {
            assert forall|i: int| 0 <= i < path@.len() implies #[trigger] path@[i]
                != position_before(self.start, path@, i) by {
                if i < self.path@.len() {
                    assert(self.path@[i] != position_before(self.start, self.path@, i));
                }
            }
        }
        PathBuilder { start: self.start, dest: self.dest, current: next, path, steps }
    }

    /// Ends the path, closing what is left to the destination so that it always lands exactly
    /// there. An empty path means that the cursor is already there.
    pub fn finish(self) -> (r: Vec<Point>)
        ensures
            r@ == if self.reached() == self.dest() {
                self.drawn()
            } else {
                self.drawn().push(self.dest())
            },
            r@.len() > 0 ==> r@.last() == self.dest(),
            r@.len() == 0 <==> self.start() == self.dest(),
            arrives_once(r@, self.dest()),
            r@.len() <= self.steps() + 1,
            self.steps() <= MAX_STEPS,
            keeps_moving(self.start(), r@),
    {
        proof {
            use_type_invariant(&self);
        }
        let mut path: Vec<Point> = self.path;
        if self.current != self.dest {
            path.push(self.dest);
            proof {
                assert forall|i: int| 0 <= i < path@.len() implies #[trigger] path@[i]
                    != position_before(self.start, path@, i) by {
                    if i < self.path@.len() {
                        assert(self.path@[i] != position_before(self.start, self.path@, i));
                    }
                }
            }
        }
        path
    }
}

/// Per-step deltas of a path measured from the origin.
pub open spec fn deltas_of(path: Seq<Point>) -> Seq<Point> {
    Seq::new(
        path.len(),
        |i: int| step_between(position_before(Point { x: 0, y: 0 }, path, i), path[i]),
    )
}

/// Whether every step of a path measured from the origin is a point.
pub open spec fn steps_fit(path: Seq<Point>) -> bool {
    forall|i: int|
        0 <= i < path.len() ==> difference_fits(
            position_before(Point { x: 0, y: 0 }, path, i),
            #[trigger] path[i],
        )
}

/// Converts a cumulative path (positions measured from the origin) into per-step deltas, so it
/// can be dispatched as relative events: a relative event moves the cursor *by* its argument,
/// not *to* it, so sending the cumulative points would make the cursor travel the sum of every
/// point and overshoot many times over.
pub fn path_to_deltas(path: &[Point]) -> (r: Vec<Point>)
    requires
        steps_fit(path@),
    ensures
        r@ == deltas_of(path@),
        r@.len() == path@.len(),
        path@.len() > 0 ==> r@[0] == path@[0],
        forall|i: int|
            1 <= i < path@.len() ==> #[trigger] r@[i].x == path@[i].x - path@[i - 1].x && r@[i].y
                == path@[i].y - path@[i - 1].y,
{
    let mut deltas: Vec<Point> = Vec::new();
    let mut previous: Point = Point::new(0, 0);
    let mut i: usize = 0;
    while i < path.len()
        invariant
            i <= path@.len(),
            steps_fit(path@),
            previous == position_before(Point { x: 0, y: 0 }, path@, i as int),
            deltas@ == deltas_of(path@).take(i as int),
        decreases path@.len() - i,
    {
        let point: Point = path[i];
        assert(difference_fits(previous, path@[i as int]));
        deltas.push(Point::new(point.x - previous.x, point.y - previous.y));
        assert(deltas_of(path@).take(i + 1) =~= deltas_of(path@).take(i as int).push(
            deltas_of(path@)[i as int],
        ));
        previous = point;
        i = i + 1;
    }
    assert(deltas_of(path@).take(i as int) =~= deltas_of(path@));
    proof {
        assert forall|i: int| 0 <= i < path@.len() implies #[trigger] difference_fits(
            position_before(Point { x: 0, y: 0 }, path@, i),
            path@[i],
        ) by {
            assert(path@[i] == path@[i]);
        }
    }
    deltas
}

/// Whether the difference of two coordinates is one.
fn difference_in_range(from: i32, to: i32) -> (r: bool)
    ensures
        r == fits(to - from),
{
    let difference: i64 = to as i64 - from as i64;
    -0x8000_0000 <= difference && difference <= 0x7FFF_FFFF
}

/// Whether a path measured from the origin can be sent as relative events that add up to
/// `delta`: neither a step of it nor what is left of `delta` after a step is out of range.
pub open spec fn sendable(path: Seq<Point>, delta: Point) -> bool {
    &&& steps_fit(path)
    &&& forall|i: int| 0 <= i < path.len() ==> difference_fits(#[trigger] path[i], delta)
}

/// Tests whether a path can be sent as relative events that add up to `delta`.
pub fn can_send(path: &[Point], delta: Point) -> (r: bool)
    ensures
        r == sendable(path@, delta),
{
    let mut previous: Point = Point::new(0, 0);
    let mut i: usize = 0;
    while i < path.len()
        invariant
            i <= path@.len(),
            previous == position_before(Point { x: 0, y: 0 }, path@, i as int),
            forall|j: int|
                0 <= j < i ==> difference_fits(
                    position_before(Point { x: 0, y: 0 }, path@, j),
                    #[trigger] path@[j],
                ) && difference_fits(path@[j], delta),
        decreases path@.len() - i,
    {
        let point: Point = path[i];
        if !difference_in_range(previous.x, point.x) || !difference_in_range(previous.y, point.y)
            || !difference_in_range(point.x, delta.x) || !difference_in_range(point.y, delta.y) {
            assert(point == path@[i as int]);
            return false;
        }
        previous = point;
        i = i + 1;
    }
    true
}

/// Sum of the x components.
pub open spec fn total_x(points: Seq<Point>) -> int
    decreases points.len(),
{
    if points.len() == 0 {
        0
    } else {
        total_x(points.drop_last()) + points.last().x
    }
}

/// Sum of the y components.
pub open spec fn total_y(points: Seq<Point>) -> int
    decreases points.len(),
{
    if points.len() == 0 {
        0
    } else {
        total_y(points.drop_last()) + points.last().y
    }
}

/// The deltas of a path sum back to its final point, and those of its beginning to the point
/// reached so far.
pub proof fn law_deltas_sum_back_to_the_path(path: Seq<Point>, count: int)
    requires
        steps_fit(path),
        0 <= count <= path.len(),
    ensures
        total_x(deltas_of(path).take(count)) == position_before(
            Point { x: 0, y: 0 },
            path,
            count,
        ).x,
        total_y(deltas_of(path).take(count)) == position_before(
            Point { x: 0, y: 0 },
            path,
            count,
        ).y,
    decreases count,
{
    let sent = deltas_of(path).take(count);
    if count > 0 {
        law_deltas_sum_back_to_the_path(path, count - 1);
        assert(sent.drop_last() =~= deltas_of(path).take(count - 1));
        assert(difference_fits(
            position_before(Point { x: 0, y: 0 }, path, count - 1),
            path[count - 1],
        ));
    }
}

/// Longest extra pause between two cursor updates, in milliseconds.
pub const MAX_STEP_JITTER: u64 = 4;

/// A random number from 0 to `max`, both included: `random_range` of the rand crate.
#[verifier::external_body]
fn random_up_to(max: u64) -> (r: u64)
    ensures
        r <= max,
{
    rand::rng().random_range(0..=max)
}

/// The base interval between two cursor updates plus an extra pause, in milliseconds, saturated
/// at the longest pause there is.
pub open spec fn jittered(step_interval_ms: u64, jitter: u64) -> u64 {
    if step_interval_ms + jitter > u64::MAX {
        u64::MAX
    } else {
        (step_interval_ms + jitter) as u64
    }
}

/// Adds an extra pause to the base interval between two cursor updates.
pub fn jittered_pause(step_interval_ms: u64, jitter: u64) -> (r: u64)
    ensures
        r == jittered(step_interval_ms, jitter),
        step_interval_ms <= u64::MAX - jitter ==> r - step_interval_ms == jitter,
        step_interval_ms > u64::MAX - jitter ==> r == u64::MAX,
{
    step_interval_ms.saturating_add(jitter)
}

/// Pause before a cursor update, in milliseconds: the base interval plus up to four, so the
/// cadence is not a perfect metronome. Which of them comes is left to chance.
pub fn step_pause(step_interval_ms: u64) -> (r: u64)
    ensures
        exists|jitter: u64|
            jitter <= MAX_STEP_JITTER && r == #[trigger] jittered(step_interval_ms, jitter),
        step_interval_ms <= r <= step_interval_ms + MAX_STEP_JITTER,
{
    jittered_pause(step_interval_ms, random_up_to(MAX_STEP_JITTER))
}

/// A cursor move in progress: a path sent one event at a time.
pub struct CursorMove {
    path: Vec<Point>,
    events: Vec<Point>,
    target: Point,
    mode: Coordinate,
    sent: usize,
    finished: bool,
}

impl CursorMove {
    #[verifier::type_invariant]
    spec fn consistent(self) -> bool {
        &&& self.sent <= self.events@.len()
        &&& self.events@ == events_for(self.mode, self.path@)
        &&& self.mode == Coordinate::Rel ==> sendable(self.path@, self.target)
        &&& self.events@.len() == self.path@.len()
    }

    /// The positions the cursor passes.
    pub closed spec fn path(self) -> Seq<Point> {
        self.path@
    }

    /// Where the move has to end, or the distance it has to cover.
    pub closed spec fn target(self) -> Point {
        self.target
    }

    /// Whether the events are positions or distances.
    pub closed spec fn mode(self) -> Coordinate {
        self.mode
    }

    /// Number of path events sent so far.
    pub closed spec fn sent(self) -> nat {
        self.sent as nat
    }

    /// Whether there is nothing more to send.
    pub closed spec fn finished(self) -> bool {
        self.finished
    }

    /// A move to `dest` along a path of absolute positions.
    pub fn move_to(path: Vec<Point>, dest: Point) -> (r: Self)
        ensures
            r.path() == path@,
            r.target() == dest,
            r.mode() == Coordinate::Abs,
            r.sent() == 0,
            !r.finished(),
    {
        let events: Vec<Point> = copy_points(&path);
        CursorMove { path, events, target: dest, mode: Coordinate::Abs, sent: 0, finished: false }
    }

    /// A move by `delta` along a path measured from the origin, sent as relative events.
    pub fn move_by(path: Vec<Point>, delta: Point) -> (r: Self)
        requires
            sendable(path@, delta),
        ensures
            r.path() == path@,
            r.target() == delta,
            r.mode() == Coordinate::Rel,
            r.sent() == 0,
            !r.finished(),
    {
        let events: Vec<Point> = path_to_deltas(path.as_slice());
        CursorMove { path, events, target: delta, mode: Coordinate::Rel, sent: 0, finished: false }
    }

    /// The next event of the move, `elapsed` nanoseconds after its start; nothing once the
    /// move is over.
    ///
    /// Events follow the path while there is time left. When the budget cuts the path short,
    /// one final event covers what is left, unless nothing is.
    pub fn next_event(&mut self, elapsed: u128) -> (r: Option<InputAction>)
        ensures
            final(self).path() == old(self).path(),
            final(self).target() == old(self).target(),
            final(self).mode() == old(self).mode(),
            ({
                let running = !old(self).finished() && elapsed < MAX_MOVE_DURATION
                    && old(self).sent() < old(self).path().len();
                &&& final(self).sent() == if running {
                    old(self).sent() + 1
                } else {
                    old(self).sent()
                }
                &&& final(self).finished() == !running
                &&& r == if running {
                    Some(
                        move_event(
                            events_for(old(self).mode(), old(self).path())[old(self).sent() as int],
                            old(self).mode(),
                        ),
                    )
                } else if old(self).finished() {
                    None
                } else {
                    match closing_event(
                        old(self).mode(),
                        old(self).path(),
                        old(self).target(),
                        old(self).sent(),
                    ) {
                        Some(point) => Some(move_event(point, old(self).mode())),
                        None => None,
                    }
                }
            }),
    {
        proof {
            use_type_invariant(&*self);
        }
        let mode: Coordinate = self.mode;
        if self.finished {
            return None;
        }
        if elapsed < MAX_MOVE_DURATION && self.sent < self.events.len() {
            let point: Point = self.events[self.sent];
            self.sent = self.sent + 1;
            return Some(InputAction::MoveMouse { x: point.x, y: point.y, coordinate: mode });
        }
        self.finished = true;
        if self.sent >= self.events.len() {
            return None;
        }
        match mode {
            Coordinate::Abs => Some(
                InputAction::MoveMouse { x: self.target.x, y: self.target.y, coordinate: mode },
            ),
            Coordinate::Rel => {
                let reached: Point = if self.sent == 0 {
                    Point::new(0, 0)
                } else {
                    self.path[self.sent - 1]
                };
                let x: i32 = self.target.x - reached.x;
                let y: i32 = self.target.y - reached.y;
                if x == 0 && y == 0 {
                    None
                } else {
                    Some(InputAction::MoveMouse { x, y, coordinate: mode })
                }
            },
        }
    }

    /// Whether there is nothing more to send. The event that ends a move is sent without a pause
    /// before it.
    pub fn is_finished(&self) -> (r: bool)
        ensures
            r == self.finished(),
    {
        self.finished
    }

    /// Number of interpolation steps of a move that is over: the path events sent, and one
    /// more when the budget cut the path short.
    pub fn steps(&self) -> (r: usize)
        requires
            self.path().len() < usize::MAX,
        ensures
            r == if self.finished() {
                steps_taken(self.path(), self.sent())
            } else {
                self.sent()
            },
    {
        proof {
            use_type_invariant(self);
        }
        if self.finished && self.sent < self.events.len() {
            self.sent + 1
        } else {
            self.sent
        }
    }
}

fn copy_points(points: &Vec<Point>) -> (r: Vec<Point>)
    ensures
        r@ == points@,
{
    let mut out: Vec<Point> = Vec::new();
    let mut i: usize = 0;
    while i < points.len()
        invariant
            i <= points@.len(),
            out@ == points@.take(i as int),
        decreases points@.len() - i,
    {
        out.push(points[i]);
        assert(points@.take(i + 1) =~= points@.take(i as int).push(points@[i as int]));
        i = i + 1;
    }
    assert(points@.take(i as int) =~= points@);
    out
}

/// The events that a path is sent as.
pub open spec fn events_for(mode: Coordinate, path: Seq<Point>) -> Seq<Point> {
    match mode {
        Coordinate::Abs => path,
        Coordinate::Rel => deltas_of(path),
    }
}

/// The input action for one event of a path.
pub open spec fn move_event(point: Point, mode: Coordinate) -> InputAction {
    InputAction::MoveMouse { x: point.x, y: point.y, coordinate: mode }
}

/// The event that closes a move after `sent` events of its path: none when the whole path was
/// sent, the destination itself for positions, and for distances what is left of the whole,
/// unless nothing is.
pub open spec fn closing_event(
    mode: Coordinate,
    path: Seq<Point>,
    target: Point,
    sent: nat,
) -> Option<Point> {
    if sent >= path.len() {
        None
    } else if mode == Coordinate::Abs {
        Some(target)
    } else {
        let left = step_between(position_before(Point { x: 0, y: 0 }, path, sent as int), target);
        if left == (Point { x: 0, y: 0 }) {
            None
        } else {
            Some(left)
        }
    }
}

/// Number of steps of a move whose budget lasted for `sent` events of its path.
pub open spec fn steps_taken(path: Seq<Point>, sent: nat) -> nat {
    if sent < path.len() {
        sent + 1
    } else {
        sent
    }
}

/// Everything that is sent when the budget lasts for `sent` events of a path.
pub open spec fn all_events(mode: Coordinate, path: Seq<Point>, target: Point, sent: nat) -> Seq<
    Point,
> {
    let events = events_for(mode, path).take(sent as int);
    match closing_event(mode, path, target, sent) {
        Some(point) => events.push(point),
        None => events,
    }
}

/// The step count of a move is the number of its events, however early the budget cuts it
/// short.
pub proof fn law_steps_count_the_events(
    mode: Coordinate,
    path: Seq<Point>,
    target: Point,
    sent: nat,
)
    requires
        mode == Coordinate::Rel ==> {
            &&& sendable(path, target)
            &&& arrives_once(path, target)
            &&& path.len() > 0 ==> target != (Point { x: 0, y: 0 })
        },
        sent <= path.len(),
    ensures
        all_events(mode, path, target, sent).len() == steps_taken(path, sent),
{
    if mode == Coordinate::Rel && 0 < sent < path.len() {
        assert(path[sent - 1] != target);
        assert(difference_fits(path[sent - 1], target));
    }
}

/// However early the budget cuts an absolute move short, its last event is the destination.
pub proof fn law_absolute_moves_land_on_the_destination(path: Seq<Point>, dest: Point, sent: nat)
    requires
        path.len() > 0,
        path.last() == dest,
        sent <= path.len(),
    ensures
        all_events(Coordinate::Abs, path, dest, sent).len() > 0,
        all_events(Coordinate::Abs, path, dest, sent).last() == dest,
{
}

/// However early the budget cuts a relative move short, its events add up to the whole
/// distance, and no more.
pub proof fn law_relative_moves_cover_the_whole_delta(path: Seq<Point>, delta: Point, sent: nat)
    requires
        sendable(path, delta),
        path.len() == 0 ==> delta == (Point { x: 0, y: 0 }),
        path.len() > 0 ==> path.last() == delta,
        sent <= path.len(),
    ensures
        total_x(all_events(Coordinate::Rel, path, delta, sent)) == delta.x,
        total_y(all_events(Coordinate::Rel, path, delta, sent)) == delta.y,
{
    law_deltas_sum_back_to_the_path(path, sent as int);
    let events = deltas_of(path).take(sent as int);
    let origin = Point { x: 0, y: 0 };
    if sent < path.len() {
        let reached = position_before(origin, path, sent as int);
        if sent > 0 {
            assert(difference_fits(path[sent - 1], delta));
        }
        let left = step_between(reached, delta);
        if left != origin {
            assert(events.push(left).drop_last() =~= events);
        }
    }
}

/// The events of an absolute move are the points of its path, in order, and those of a relative
/// one the way from each point to the next, from the origin on.
pub proof fn law_events_follow_the_path(path: Seq<Point>, target: Point, sent: nat, i: int)
    requires
        0 <= i < sent <= path.len(),
    ensures
        all_events(Coordinate::Abs, path, target, sent)[i] == path[i],
        steps_fit(path) ==> {
            let event = all_events(Coordinate::Rel, path, target, sent)[i];
            &&& i == 0 ==> event == path[0]
            &&& i > 0 ==> event.x == path[i].x - path[i - 1].x && event.y == path[i].y - path[i
                - 1].y
        },
{
    if steps_fit(path) {
        assert(difference_fits(position_before(Point { x: 0, y: 0 }, path, i), path[i]));
    }
}

/// An event carries both coordinates of its point and the kind of its move.
pub proof fn law_events_carry_their_point(point: Point, mode: Coordinate)
    ensures
        move_event(point, mode) == (InputAction::MoveMouse {
            x: point.x,
            y: point.y,
            coordinate: mode,
        }),
{
}

/// An extra pause is added to the interval to the millisecond, up to the longest pause there is.
pub proof fn law_pauses_add_up(interval: u64, jitter: u64)
    ensures
        interval + jitter <= u64::MAX ==> jittered(interval, jitter) - interval == jitter,
        interval + jitter >= u64::MAX ==> jittered(interval, jitter) == u64::MAX,
{
}

} // verus!
