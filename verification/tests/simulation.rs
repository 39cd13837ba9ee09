use sandsnake::point::Point;
use sandsnake::scorpion::Scorpion;
use sandsnake::scorpion::SCORPION_LIFETIME_MS;
use sandsnake::snake::Snake;
use sandsnake::world::World;
use sandsnake::world::SNAKE_MOVE_SPEED_MS;

fn gated(last_move_time: u64) -> u64 {
    last_move_time + SNAKE_MOVE_SPEED_MS
}

#[test]
fn new_world_is_seeded() {
    let w = World::new(vec![Point::new(3, 4)]);
    assert_eq!(w.snakes.len(), 1);
    assert_eq!(w.snakes[0].loc, Point::new(10, 10));
    assert_eq!(w.snakes[0].facing, Point::new(0, 1));
    assert_eq!(
        w.snakes[0].tail,
        vec![Point::new(7, 10), Point::new(8, 10), Point::new(9, 10)]
    );
    assert_eq!(w.flowers, vec![Point::new(3, 4)]);
    assert!(w.scorpions.is_empty());
    assert_eq!(w.last_move_time, 0);
    assert_eq!(w.tiles.len(), 50 * 38);
}

#[test]
fn tick_moves_head_and_keeps_length() {
    let mut w = World::new(vec![]);
    let now = gated(w.last_move_time);
    w.tick(now);
    assert_eq!(w.snakes.len(), 1);
    assert_eq!(w.snakes[0].loc, Point::new(10, 11));
    assert_eq!(w.snakes[0].tail.len(), 3);
    // The old head is the newest tail segment; the oldest segment is gone.
    assert_eq!(
        w.snakes[0].tail,
        vec![Point::new(8, 10), Point::new(9, 10), Point::new(10, 10)]
    );
    assert_eq!(w.last_move_time, now + SNAKE_MOVE_SPEED_MS);
}

#[test]
fn example_scenario_flower_at_10_11() {
    // One snake at (10,10) facing (0,1), length 4; one flower at (10,11).
    let mut w = World::new(vec![Point::new(10, 11)]);
    let now = gated(w.last_move_time);
    w.tick(now);
    assert_eq!(w.snakes.len(), 1);
    assert_eq!(w.snakes[0].loc, Point::new(10, 11));
    assert!(w.flowers.is_empty());
    assert_eq!(w.snakes[0].tail.len(), 4);
    // Growth reinserts the popped oldest segment at the front.
    assert_eq!(
        w.snakes[0].tail,
        vec![
            Point::new(7, 10),
            Point::new(8, 10),
            Point::new(9, 10),
            Point::new(10, 10)
        ]
    );
}

#[test]
fn flower_elsewhere_is_kept() {
    let mut w = World::new(vec![Point::new(0, 0)]);
    w.tick(gated(w.last_move_time));
    assert_eq!(w.flowers, vec![Point::new(0, 0)]);
    assert_eq!(w.snakes[0].tail.len(), 3);
}

#[test]
fn second_tick_within_interval_changes_nothing() {
    let mut w = World::new(vec![Point::new(10, 12)]);
    let t0 = gated(w.last_move_time);
    w.tick(t0);
    let loc = w.snakes[0].loc;
    let tail = w.snakes[0].tail.clone();
    let flowers = w.flowers.clone();
    let last = w.last_move_time;
    // Less than one movement interval after the gated tick.
    w.tick(t0 + SNAKE_MOVE_SPEED_MS - 1);
    assert_eq!(w.snakes[0].loc, loc);
    assert_eq!(w.snakes[0].tail, tail);
    assert_eq!(w.flowers, flowers);
    assert_eq!(w.last_move_time, last);
}

#[test]
fn ungated_tick_is_a_no_op() {
    let mut w = World::new(vec![]);
    w.last_move_time = 100;
    w.tick(100 + SNAKE_MOVE_SPEED_MS - 1);
    assert_eq!(w.snakes[0].loc, Point::new(10, 10));
    assert_eq!(w.last_move_time, 100);
}

#[test]
fn reversing_into_own_tail_kills_the_snake() {
    let mut w = World::new(vec![]);
    // The body extends along the negative x-axis; turn straight into it.
    w.set_snake_facing(Point::new(-1, 0));
    w.tick(gated(w.last_move_time));
    assert!(w.snakes.is_empty());
}

#[test]
fn expired_scorpion_is_purged_and_cuts_nothing() {
    let mut w = World::new(vec![]);
    let now = 10_000u64;
    // On a cell the moved tail will occupy, but expired just before `now`.
    w.scorpions
        .push(Scorpion::new(Point::new(9, 10), now - SCORPION_LIFETIME_MS - 1));
    w.tick(now);
    assert!(w.scorpions.is_empty());
    assert_eq!(w.snakes.len(), 1);
    assert_eq!(w.snakes[0].tail.len(), 3);
}

#[test]
fn live_scorpion_cuts_the_tail_and_is_consumed() {
    let mut w = World::new(vec![]);
    let now = 10_000u64;
    // Live: spawned within its lifetime. Sits on (9,10), which the moved
    // tail [(8,10),(9,10),(10,10)] occupies.
    w.scorpions.push(Scorpion::new(Point::new(9, 10), now - 1));
    w.tick(now);
    assert!(w.scorpions.is_empty());
    assert_eq!(w.snakes.len(), 1);
    // The matching segment and everything behind it is discarded.
    assert_eq!(w.snakes[0].tail, vec![Point::new(10, 10)]);
    assert_eq!(w.snakes[0].loc, Point::new(10, 11));
}

#[test]
fn scorpion_off_the_tail_stays() {
    let mut w = World::new(vec![]);
    let now = 10_000u64;
    w.scorpions.push(Scorpion::new(Point::new(0, 0), now - 1));
    w.tick(now);
    assert_eq!(w.scorpions.len(), 1);
    assert_eq!(w.snakes[0].tail.len(), 3);
}

#[test]
fn scorpion_cut_and_flower_growth_combine_in_one_tick() {
    // A cut and a meal in the same step: the cut happens first, then the
    // popped segment is still reinserted at the front of what is left.
    let mut w = World::new(vec![Point::new(10, 11)]);
    let now = 10_000u64;
    w.scorpions.push(Scorpion::new(Point::new(8, 10), now - 1));
    w.tick(now);
    assert!(w.scorpions.is_empty());
    assert!(w.flowers.is_empty());
    assert_eq!(w.snakes.len(), 1);
    assert_eq!(w.snakes[0].loc, Point::new(10, 11));
    assert_eq!(
        w.snakes[0].tail,
        vec![Point::new(7, 10), Point::new(9, 10), Point::new(10, 10)]
    );
}

#[test]
fn snakes_are_processed_in_order_over_shared_flowers() {
    let mut w = World::new(vec![Point::new(10, 11)]);
    // A second snake far away moves independently.
    w.snakes.push(Snake::new(Point::new(30, 20), Point::new(1, 0), 3));
    w.tick(gated(w.last_move_time));
    assert_eq!(w.snakes.len(), 2);
    assert_eq!(w.snakes[0].tail.len(), 4); // grew on the flower
    assert_eq!(w.snakes[1].loc, Point::new(31, 20));
    assert_eq!(w.snakes[1].tail.len(), 2);
    assert!(w.flowers.is_empty());
}

#[test]
fn set_snake_facing_turns_every_snake() {
    let mut w = World::new(vec![]);
    w.snakes.push(Snake::new(Point::new(20, 20), Point::new(0, 1), 2));
    w.set_snake_facing(Point::new(1, 0));
    assert!(w.snakes.iter().all(|s| s.facing == Point::new(1, 0)));
    // Turning alone moves nothing.
    assert_eq!(w.snakes[0].loc, Point::new(10, 10));
}

#[test]
fn empty_tailed_snake_regrows_from_its_head() {
    let mut w = World::new(vec![]);
    w.snakes.clear();
    w.snakes.push(Snake {
        facing: Point::new(1, 0),
        loc: Point::new(5, 5),
        tail: vec![],
    });
    w.tick(gated(w.last_move_time));
    assert_eq!(w.snakes.len(), 1);
    assert_eq!(w.snakes[0].loc, Point::new(6, 5));
    assert_eq!(w.snakes[0].tail, vec![Point::new(5, 5)]);
}
