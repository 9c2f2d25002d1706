//! Cursor paths and the events they are sent as.

use autorpg_mcp::input::{Coordinate, InputAction};
use autorpg_mcp::windmouse::{
    can_send, jittered_pause, path_to_deltas, step_pause, CursorMove, PathBuilder, Point,
    MAX_MOVE_DURATION, MAX_STEPS,
};

/// Draws a path with fixed forces: gravity towards the destination, a little swirl across it
/// and a velocity ceiling.
fn draw_path(start: Point, dest: Point) -> Vec<Point> {
    let (gravity, swirl, ceiling) = (9.0f64, 2.0f64, 15.0f64);
    let mut velocity = (0.0f64, 0.0f64);
    let mut builder = PathBuilder::new(start, dest);
    let mut step = 0.0f64;
    while builder.running() {
        let at = builder.position();
        let (dx, dy) = ((dest.x - at.x) as f64, (dest.y - at.y) as f64);
        let distance = dx.hypot(dy);
        let bend = if distance > 30.0 { swirl * step.sin() } else { 0.0 };
        velocity.0 += gravity * dx / distance - bend * dy / distance;
        velocity.1 += gravity * dy / distance + bend * dx / distance;
        let limit = if distance < 30.0 { (distance / 2.0).max(1.0) } else { ceiling };
        let speed = velocity.0.hypot(velocity.1);
        if speed > limit {
            velocity.0 *= limit / speed;
            velocity.1 *= limit / speed;
        }
        builder = builder.advance(velocity.0.round() as i32, velocity.1.round() as i32);
        step += 0.3;
    }
    builder.finish()
}

#[test]
fn path_ends_exactly_at_the_destination() {
    let dest = Point::new(1234, 567);
    let path = draw_path(Point::new(0, 0), dest);
    assert_eq!(path.last(), Some(&dest));
}

#[test]
fn move_already_at_the_destination_is_empty() {
    let point = Point::new(400, 300);
    assert!(draw_path(point, point).is_empty());
}

#[test]
fn every_step_that_moves_is_a_point_of_the_path() {
    let velocities = [(3, 0), (0, 0), (2, -1), (-9, 4), (0, 0), (1, 1)];
    let mut builder = PathBuilder::new(Point::new(10, 20), Point::new(500, 500));
    for (dx, dy) in velocities {
        assert!(builder.running());
        builder = builder.advance(dx, dy);
    }
    assert_eq!(builder.position(), Point::new(7, 24));
    assert_eq!(
        builder.finish(),
        vec![
            Point::new(13, 20),
            Point::new(15, 19),
            Point::new(6, 23),
            Point::new(7, 24),
            Point::new(500, 500),
        ]
    );
}

#[test]
fn a_path_arrives_once() {
    let dest = Point::new(-320, 75);
    let path = draw_path(Point::new(40, 40), dest);
    assert_eq!(path.iter().filter(|point| **point == dest).count(), 1);
}

#[test]
fn deltas_sum_back_to_the_final_path_point() {
    let path = draw_path(Point::new(0, 0), Point::new(800, -450));
    let deltas = path_to_deltas(&path);

    assert_eq!(deltas.len(), path.len());
    let total = deltas.iter().fold(Point::new(0, 0), |acc, d| {
        Point::new(acc.x + d.x, acc.y + d.y)
    });
    assert_eq!(total, path.last().copied().unwrap());
}

#[test]
fn deltas_of_a_single_point_path_match_the_point() {
    let deltas = path_to_deltas(&[Point::new(12, -7)]);
    assert_eq!(deltas, vec![Point::new(12, -7)]);
}

#[test]
fn a_simulation_that_gets_nowhere_is_cut_off_and_closed() {
    let dest = Point::new(100, 100);
    let mut builder = PathBuilder::new(Point::new(0, 0), dest);
    let mut steps = 0;
    while builder.running() {
        builder = builder.advance(0, 0);
        steps += 1;
    }
    assert_eq!(steps, MAX_STEPS);
    assert_eq!(builder.finish(), vec![dest]);
}

#[test]
fn a_path_that_arrives_is_not_closed_again() {
    let dest = Point::new(3, 4);
    let builder = PathBuilder::new(Point::new(0, 0), dest).advance(3, 0).advance(0, 4);
    assert!(!builder.running());
    assert_eq!(builder.finish(), vec![Point::new(3, 0), dest]);
}

/// Sends a move whose budget lasts for `cut` events; the points sent and the step count.
fn send(mut cursor: CursorMove, cut: usize) -> (Vec<(Point, Coordinate)>, usize) {
    let mut sent = Vec::new();
    loop {
        let elapsed = if sent.len() < cut { 0 } else { MAX_MOVE_DURATION };
        match cursor.next_event(elapsed) {
            Some(InputAction::MoveMouse { x, y, coordinate }) => {
                sent.push((Point::new(x, y), coordinate))
            }
            Some(_) => panic!("not a move"),
            None => break,
        }
    }
    assert!(cursor.next_event(0).is_none(), "nothing follows the end");
    (sent, cursor.steps())
}

#[test]
fn absolute_moves_always_land_on_the_destination() {
    let dest = Point::new(300, 200);
    let path = draw_path(Point::new(10, 10), dest);
    for cut in [0, 1, 5, path.len() - 1, path.len(), path.len() + 1] {
        let (sent, steps) = send(CursorMove::move_to(path.clone(), dest), cut);
        assert_eq!(sent.last(), Some(&(dest, Coordinate::Abs)), "cut at {cut}");
        let followed = cut.min(path.len());
        assert_eq!(sent.len(), followed + usize::from(followed < path.len()));
        assert_eq!(steps, sent.len());
    }
    let (sent, steps) = send(CursorMove::move_to(Vec::new(), dest), 9);
    assert!(sent.is_empty() && steps == 0);
}

#[test]
fn relative_moves_always_cover_the_whole_delta() {
    let delta = Point::new(-150, 90);
    let path = draw_path(Point::new(0, 0), delta);
    assert!(can_send(&path, delta));
    for cut in 0..=path.len() {
        let (sent, steps) = send(CursorMove::move_by(path.clone(), delta), cut);
        let total = sent.iter().fold(Point::new(0, 0), |acc, (d, mode)| {
            assert_eq!(*mode, Coordinate::Rel);
            Point::new(acc.x + d.x, acc.y + d.y)
        });
        assert_eq!(total, delta, "cut at {cut}");
        assert_eq!(steps, cut + usize::from(cut < path.len()));
        assert_eq!(steps, sent.len());
    }
}

#[test]
fn a_remainder_of_nothing_is_not_sent() {
    // The path passes its end before it arrives there again.
    let delta = Point::new(5, 0);
    let path = vec![delta, Point::new(6, 0), delta];
    let (sent, steps) = send(CursorMove::move_by(path, delta), 1);
    assert_eq!(sent, vec![(delta, Coordinate::Rel)]);
    assert_eq!(steps, 2);
}

#[test]
fn the_budget_is_three_seconds() {
    let dest = Point::new(2, 0);
    let path = vec![Point::new(1, 0), dest];
    let mut cursor = CursorMove::move_to(path.clone(), dest);
    let event = cursor.next_event(2_999_999_999);
    assert!(matches!(event, Some(InputAction::MoveMouse { x: 1, y: 0, .. })));
    let mut cursor = CursorMove::move_to(path, dest);
    let event = cursor.next_event(3_000_000_000);
    assert!(matches!(event, Some(InputAction::MoveMouse { x: 2, y: 0, .. })));
}

#[test]
fn paths_out_of_range_cannot_be_sent() {
    assert!(!can_send(&[Point::new(i32::MIN, 0), Point::new(1, 0)], Point::new(1, 0)));
    assert!(!can_send(&[Point::new(0, i32::MIN)], Point::new(0, 1)));
    assert!(can_send(&[Point::new(0, i32::MIN)], Point::new(0, -1)));
    assert!(can_send(&[], Point::new(i32::MAX, i32::MIN)));
}

#[test]
fn an_extra_pause_is_added_to_the_interval() {
    assert_eq!(jittered_pause(8, 0), 8);
    assert_eq!(jittered_pause(8, 3), 11);
    assert_eq!(jittered_pause(u64::MAX - 1, 4), u64::MAX);
}

#[test]
fn pauses_jitter_by_up_to_four_milliseconds() {
    let mut seen = [false; 5];
    for _ in 0..2000 {
        let pause = step_pause(8);
        assert!((8..=12).contains(&pause));
        seen[(pause - 8) as usize] = true;
    }
    assert_eq!(seen, [true; 5]);
    assert_eq!(step_pause(u64::MAX), u64::MAX);
}
