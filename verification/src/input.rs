//! Input events and what they do to the world: the decision half of the
//! engine loop. Polling the event source stays outside the library.

use vstd::prelude::*;
use crate::point::Point;
use crate::point::is_direction;
use crate::world::World;
use crate::world::with_facing;

verus! {

/// The four directional keys.
#[derive(Clone, Copy, PartialEq, Eq, Structural, Debug)]
pub enum Direction {
    Up,
    Down,
    Left,
    Right,
}

/// A discrete input event, as the event source hands them over: quit, one of
/// the four directional keys, or anything else (ignored).
#[derive(Clone, Copy, PartialEq, Eq, Structural, Debug)]
pub enum InputEvent {
    Quit,
    Directional(Direction),
    Other,
}

/// The unit offset each directional key maps to.
pub open spec fn direction_delta(d: Direction) -> Point {
    match d {
        Direction::Up => Point { x: 0, y: -1i64 },
        Direction::Down => Point { x: 0, y: 1 },
        Direction::Left => Point { x: -1i64, y: 0 },
        Direction::Right => Point { x: 1, y: 0 },
    }
}

pub fn direction_offset(d: Direction) -> (p: Point)
    ensures
        p == direction_delta(d),
        is_direction(p),
{
    match d {
        Direction::Up => Point::new(0, -1),
        Direction::Down => Point::new(0, 1),
        Direction::Left => Point::new(-1, 0),
        Direction::Right => Point::new(1, 0),
    }
}

/// One step of event handling: a quit event stops the engine, a directional
/// key turns every snake (the single shared control scheme), anything else
/// changes nothing. Returns whether the engine keeps running.
pub fn apply_event(world: &mut World, event: InputEvent) -> (running: bool)
    requires
        old(world)@.wf(),
    ensures
        running == !(event is Quit),
        (match event {
            InputEvent::Directional(d) => final(world)@ == with_facing(
                old(world)@,
                direction_delta(d),
            ),
            _ => final(world)@ == old(world)@,
        }),
        final(world)@.wf(),
{
    match event {
        InputEvent::Quit => false,
        InputEvent::Directional(d) => {
            let offset = direction_offset(d);
            world.set_snake_facing(offset);
            true
        },
        InputEvent::Other => true,
    }
}

} // verus!
