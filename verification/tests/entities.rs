use sandsnake::assets::asset_name;
use sandsnake::input::apply_event;
use sandsnake::input::direction_offset;
use sandsnake::input::Direction;
use sandsnake::input::InputEvent;
use sandsnake::point::Point;
use sandsnake::point::Rect;
use sandsnake::render::render_plan;
use sandsnake::render::Sprite;
use sandsnake::scorpion::Scorpion;
use sandsnake::snake::Snake;
use sandsnake::world::World;

#[test]
fn point_arithmetic() {
    let p = Point::new(3, -2);
    let q = p.shift(Point::new(-1, 5));
    assert_eq!(q, Point::new(2, 3));
    let mut r = Point::new(0, 0);
    r.translate(Point::new(7, -7));
    assert_eq!(r, Point::new(7, -7));
}

#[test]
fn point_as_rect_scales_by_the_cell_size() {
    let r = Point::new(3, 2).as_rect(16);
    assert_eq!(r, Rect { x: 48, y: 32, w: 16, h: 16 });
    let o = Point::new(-1, 0).as_rect(16);
    assert_eq!(o, Rect { x: -16, y: 0, w: 16, h: 16 });
}

#[test]
fn snake_new_builds_a_straight_tail() {
    let s = Snake::new(Point::new(10, 10), Point::new(0, 1), 4);
    assert_eq!(s.tail.len(), 3);
    assert_eq!(
        s.tail,
        vec![Point::new(7, 10), Point::new(8, 10), Point::new(9, 10)]
    );
    for len in 2..10i64 {
        let s = Snake::new(Point::new(0, 0), Point::new(1, 0), len);
        assert_eq!(s.tail.len() as i64, len - 1);
    }
}

#[test]
fn snake_construction_fails_below_length_two() {
    assert!(Snake::try_new(Point::new(0, 0), Point::new(1, 0), 1).is_none());
    assert!(Snake::try_new(Point::new(0, 0), Point::new(1, 0), 0).is_none());
    assert!(Snake::try_new(Point::new(0, 0), Point::new(1, 0), -3).is_none());
    assert!(Snake::try_new(Point::new(0, 0), Point::new(1, 0), 2).is_some());
}

#[test]
fn cut_discards_the_segment_and_everything_behind_it() {
    let mut s = Snake::new(Point::new(10, 10), Point::new(0, 1), 5);
    // tail: [(6,10),(7,10),(8,10),(9,10)]
    s.cut(Point::new(8, 10));
    assert_eq!(s.tail, vec![Point::new(9, 10)]);
    assert_eq!(s.loc, Point::new(10, 10));
    assert_eq!(s.facing, Point::new(0, 1));
}

#[test]
fn cut_at_a_missing_cell_is_a_no_op() {
    let mut s = Snake::new(Point::new(10, 10), Point::new(0, 1), 4);
    let before = s.tail.clone();
    s.cut(Point::new(0, 0));
    assert_eq!(s.tail, before);
}

#[test]
fn cut_at_the_newest_segment_empties_the_tail() {
    let mut s = Snake::new(Point::new(10, 10), Point::new(0, 1), 3);
    s.cut(Point::new(9, 10));
    assert!(s.tail.is_empty());
}

#[test]
fn cut_takes_the_first_match_from_the_tail_end() {
    let mut s = Snake {
        facing: Point::new(1, 0),
        loc: Point::new(0, 0),
        tail: vec![
            Point::new(1, 1),
            Point::new(2, 2),
            Point::new(1, 1),
            Point::new(3, 3),
        ],
    };
    s.cut(Point::new(1, 1));
    assert_eq!(
        s.tail,
        vec![Point::new(2, 2), Point::new(1, 1), Point::new(3, 3)]
    );
}

#[test]
fn scorpion_liveness_boundary() {
    let sc = Scorpion::new(Point::new(0, 0), 1000);
    assert!(sc.live(1000));
    assert!(sc.live(4999));
    assert!(!sc.live(5000));
    assert!(!sc.live(9000));
    // A clock before the spawn still counts as live.
    assert!(sc.live(0));
}

#[test]
fn direction_offsets_are_the_four_units() {
    assert_eq!(direction_offset(Direction::Up), Point::new(0, -1));
    assert_eq!(direction_offset(Direction::Down), Point::new(0, 1));
    assert_eq!(direction_offset(Direction::Left), Point::new(-1, 0));
    assert_eq!(direction_offset(Direction::Right), Point::new(1, 0));
}

#[test]
fn apply_event_quit_stops_and_changes_nothing() {
    let mut w = World::new(vec![Point::new(1, 2)]);
    let running = apply_event(&mut w, InputEvent::Quit);
    assert!(!running);
    assert_eq!(w.snakes[0].facing, Point::new(0, 1));
    assert_eq!(w.flowers, vec![Point::new(1, 2)]);
}

#[test]
fn apply_event_directional_turns_the_snakes() {
    let mut w = World::new(vec![]);
    let running = apply_event(&mut w, InputEvent::Directional(Direction::Left));
    assert!(running);
    assert_eq!(w.snakes[0].facing, Point::new(-1, 0));
    // A turn alone does not move the snake.
    assert_eq!(w.snakes[0].loc, Point::new(10, 10));
}

#[test]
fn apply_event_other_is_ignored() {
    let mut w = World::new(vec![]);
    let running = apply_event(&mut w, InputEvent::Other);
    assert!(running);
    assert_eq!(w.snakes[0].facing, Point::new(0, 1));
}

#[test]
fn render_plan_draws_tiles_flowers_then_snakes() {
    let w = World::new(vec![Point::new(5, 6)]);
    let cmds = render_plan(&w);
    // 50x38 background tiles, one flower, one head, three tail segments.
    assert_eq!(cmds.len(), 50 * 38 + 1 + 1 + 3);
    assert_eq!(cmds[0].sprite, Sprite::Sand);
    assert_eq!(cmds[0].dest, Point::new(0, 0));
    assert_eq!(cmds[37].dest, Point::new(0, 37));
    assert_eq!(cmds[38].dest, Point::new(1, 0));
    assert_eq!(cmds[1899].dest, Point::new(49, 37));
    assert_eq!(cmds[1900].sprite, Sprite::Flower);
    assert_eq!(cmds[1900].dest, Point::new(5, 6));
    assert_eq!(cmds[1901].sprite, Sprite::SnakeHead);
    assert_eq!(cmds[1901].dest, Point::new(10, 10));
    assert_eq!(cmds[1902].sprite, Sprite::SnakeTail);
    assert_eq!(cmds[1902].dest, Point::new(7, 10));
    assert_eq!(cmds[1904].dest, Point::new(9, 10));
}

#[test]
fn asset_name_strips_the_extension() {
    assert_eq!(asset_name(&b"flower.png".to_vec()), b"flower".to_vec());
    assert_eq!(asset_name(&b"snake_head.bmp".to_vec()), b"snake_head".to_vec());
    assert_eq!(asset_name(&b"a.b.c".to_vec()), b"a.b".to_vec());
}

#[test]
fn asset_name_without_extension_is_empty() {
    assert_eq!(asset_name(&b"noext".to_vec()), Vec::<u8>::new());
    assert_eq!(asset_name(&Vec::new()), Vec::<u8>::new());
}
