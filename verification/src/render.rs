//! The render plan: the exact, ordered list of draw commands one frame of
//! the world needs. Blitting the sprites is the renderer's job outside the
//! library.

use vstd::prelude::*;
use crate::point::Point;
use crate::snake::Snake;
use crate::snake::SnakeState;
use crate::world::World;
use crate::world::WorldState;
use crate::world::TILE_COLS;
use crate::world::TILE_ROWS;

verus! {

/// The logical sprites the renderer looks up by name.
#[derive(Clone, Copy, PartialEq, Eq, Structural, Debug)]
pub enum Sprite {
    Sand,
    Flower,
    SnakeHead,
    SnakeTail,
}

/// One blit: a sprite drawn at a grid cell.
#[derive(Clone, Copy, PartialEq, Eq, Structural, Debug)]
pub struct DrawCmd {
    pub sprite: Sprite,
    pub dest: Point,
}

/// The background: one sand tile per cell of the terrain grid, column by
/// column.
pub open spec fn tile_cmds() -> Seq<DrawCmd> {
    Seq::new(
        (TILE_COLS * TILE_ROWS) as nat,
        |k: int|
            DrawCmd {
                sprite: Sprite::Sand,
                dest: Point {
                    x: (k / (TILE_ROWS as int)) as i64,
                    y: (k % (TILE_ROWS as int)) as i64,
                },
            },
    )
}

/// A flower sprite at every flower's cell, in order.
pub open spec fn flower_cmds(flowers: Seq<Point>) -> Seq<DrawCmd> {
    flowers.map_values(|p: Point| DrawCmd { sprite: Sprite::Flower, dest: p })
}

/// One snake: its head sprite, then a tail sprite per body segment.
pub open spec fn snake_cmds(s: SnakeState) -> Seq<DrawCmd> {
    seq![DrawCmd { sprite: Sprite::SnakeHead, dest: s.loc }] + s.tail.map_values(
        |p: Point| DrawCmd { sprite: Sprite::SnakeTail, dest: p },
    )
}

/// All snakes, in order.
pub open spec fn snakes_cmds(snakes: Seq<SnakeState>) -> Seq<DrawCmd>
    decreases snakes.len(),
{
    if snakes.len() == 0 {
        Seq::empty()
    } else {
        snake_cmds(snakes[0]) + snakes_cmds(snakes.drop_first())
    }
}

/// A whole frame: background, then flowers, then snakes.
pub open spec fn render_cmds(w: WorldState) -> Seq<DrawCmd> {
    tile_cmds() + flower_cmds(w.flowers) + snakes_cmds(w.snakes)
}

proof fn lemma_snakes_cmds_push(snakes: Seq<SnakeState>, s: SnakeState)
    ensures
        snakes_cmds(snakes.push(s)) == snakes_cmds(snakes) + snake_cmds(s),
    decreases snakes.len(),
{
    if snakes.len() == 0 {
        assert(snakes.push(s).drop_first() =~= Seq::<SnakeState>::empty());
        assert(snake_cmds(s) + snakes_cmds(Seq::<SnakeState>::empty()) =~= snake_cmds(s));
        assert(snakes_cmds(snakes) + snake_cmds(s) =~= snake_cmds(s));
    } else {
        assert(snakes.push(s).drop_first() =~= snakes.drop_first().push(s));
        lemma_snakes_cmds_push(snakes.drop_first(), s);
        assert(snake_cmds(snakes[0]) + (snakes_cmds(snakes.drop_first()) + snake_cmds(s))
            =~= (snake_cmds(snakes[0]) + snakes_cmds(snakes.drop_first())) + snake_cmds(s));
    }
}

/// The draw commands for one frame of `world`, in draw order.
pub fn render_plan(world: &World) -> (cmds: Vec<DrawCmd>)
    ensures
        cmds@ == render_cmds(world@),
{
    let mut cmds: Vec<DrawCmd> = Vec::new();
    // Background tiles, column by column.
    let mut k: usize = 0;
    while k < TILE_COLS * TILE_ROWS
        invariant
            k <= TILE_COLS * TILE_ROWS,
            cmds@ == tile_cmds().take(k as int),
        decreases TILE_COLS * TILE_ROWS - k,
    {
        let x = k / TILE_ROWS;
        let y = k % TILE_ROWS;
        cmds.push(DrawCmd { sprite: Sprite::Sand, dest: Point::new(x as i64, y as i64) });
        k = k + 1;
        proof {
            assert(cmds@ =~= tile_cmds().take(k as int));
        }
    }
    proof {
        assert(tile_cmds().take((TILE_COLS * TILE_ROWS) as int) =~= tile_cmds());
    }
    // Flowers.
    let ghost base_f = cmds@;
    let mut i: usize = 0;
    while i < world.flowers.len()
        invariant
            i <= world.flowers@.len(),
            base_f == tile_cmds(),
            cmds@ == base_f + flower_cmds(world.flowers@.take(i as int)),
        decreases world.flowers@.len() - i,
    {
        let p = world.flowers[i];
        cmds.push(DrawCmd { sprite: Sprite::Flower, dest: p });
        i = i + 1;
        proof {
            assert(cmds@ =~= base_f + flower_cmds(world.flowers@.take(i as int)));
        }
    }
    proof {
        assert(world.flowers@.take(world.flowers@.len() as int) =~= world.flowers@);
    }
    // Snakes: head first, then every tail segment.
    let ghost base_s = cmds@;
    let ghost snakes_v = world.snakes@.map_values(|s: Snake| s@);
    let mut n: usize = 0;
    while n < world.snakes.len()
        invariant
            n <= world.snakes@.len(),
            snakes_v == world.snakes@.map_values(|s: Snake| s@),
            base_s == tile_cmds() + flower_cmds(world.flowers@),
            cmds@ == base_s + snakes_cmds(snakes_v.take(n as int)),
        decreases world.snakes@.len() - n,
    {
        let ghost before = cmds@;
        let snake = &world.snakes[n];
        cmds.push(DrawCmd { sprite: Sprite::SnakeHead, dest: snake.loc });
        let mut t: usize = 0;
        while t < snake.tail.len()
            invariant
                t <= snake.tail@.len(),
                cmds@ == before + seq![DrawCmd { sprite: Sprite::SnakeHead, dest: snake.loc }]
                    + snake.tail@.take(t as int).map_values(
                    |p: Point| DrawCmd { sprite: Sprite::SnakeTail, dest: p },
                ),
            decreases snake.tail@.len() - t,
        {
            let seg = snake.tail[t];
            cmds.push(DrawCmd { sprite: Sprite::SnakeTail, dest: seg });
            t = t + 1;
            proof {
                assert(cmds@ =~= before + seq![
                    DrawCmd { sprite: Sprite::SnakeHead, dest: snake.loc },
                ] + snake.tail@.take(t as int).map_values(
                    |p: Point| DrawCmd { sprite: Sprite::SnakeTail, dest: p },
                ));
            }
        }
        proof {
            assert(snake.tail@.take(snake.tail@.len() as int) =~= snake.tail@);
            assert(snakes_v[n as int] == snake@);
            assert(cmds@ =~= before + snake_cmds(snakes_v[n as int]));
            lemma_snakes_cmds_push(snakes_v.take(n as int), snakes_v[n as int]);
            assert(snakes_v.take(n as int).push(snakes_v[n as int]) =~= snakes_v.take(n as int + 1));
            assert(cmds@ =~= base_s + snakes_cmds(snakes_v.take(n as int + 1)));
        }
        n = n + 1;
    }
    proof {
        assert(snakes_v.take(snakes_v.len() as int) =~= snakes_v);
        assert(cmds@ =~= render_cmds(world@));
    }
    cmds
}

} // verus!
