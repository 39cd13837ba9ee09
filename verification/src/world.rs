//! The world: snakes, flowers, scorpions, the tick clock, and the one
//! discrete simulation step that drives them.

use vstd::prelude::*;
use crate::point::Point;
use crate::point::is_direction;
use crate::scorpion::Scorpion;
use crate::snake::Snake;
use crate::snake::SnakeState;
use crate::snake::initial_tail;
use crate::snake::seq_contains;
use crate::snake::find_first;
use crate::snake::cut_seq;
use crate::snake::lemma_find_first;
use crate::snake::lemma_find_first_at;

verus! {

/// The fixed movement interval, in milliseconds of the simulation clock:
/// a gated tick moves every snake at most once per interval.
pub const SNAKE_MOVE_SPEED_MS: u64 = 35;

/// Width of the terrain grid, in tiles.
pub const TILE_COLS: usize = 50;

/// Height of the terrain grid, in tiles.
pub const TILE_ROWS: usize = 38;

/// The whole simulation state. `tiles` carries render-only terrain tags and
/// takes no part in the simulation itself.
#[derive(Debug)]
pub struct World {
    pub snakes: Vec<Snake>,
    pub flowers: Vec<Point>,
    pub scorpions: Vec<Scorpion>,
    pub last_move_time: u64,
    pub tiles: Vec<i64>,
}

/// The mathematical image of a world.
#[verifier::ext_equal]
pub ghost struct WorldState {
    pub snakes: Seq<SnakeState>,
    pub flowers: Seq<Point>,
    pub scorpions: Seq<Scorpion>,
    pub last_move_time: u64,
    pub tiles: Seq<i64>,
}

impl View for World {
    type V = WorldState;

    open spec fn view(&self) -> WorldState {
        WorldState {
            snakes: self.snakes@.map_values(|s: Snake| s@),
            flowers: self.flowers@,
            scorpions: self.scorpions@,
            last_move_time: self.last_move_time,
            tiles: self.tiles@,
        }
    }
}

impl WorldState {
    /// Every snake faces one of the four unit offsets.
    pub open spec fn wf(self) -> bool {
        forall|i: int| 0 <= i < self.snakes.len() ==> is_direction((#[trigger] self.snakes[i]).facing)
    }
}

/// Advancing a snake's head by its facing must stay within the coordinate
/// type; with a unit facing this only excludes the extreme cells.
pub open spec fn can_step(s: SnakeState) -> bool {
    &&& i64::MIN <= s.loc.x + s.facing.x <= i64::MAX
    &&& i64::MIN <= s.loc.y + s.facing.y <= i64::MAX
}

/// The head cell after one move.
pub open spec fn moved(loc: Point, facing: Point) -> Point {
    Point { x: (loc.x + facing.x) as i64, y: (loc.y + facing.y) as i64 }
}

/// Steps 1-3 of a snake's tick: pop the oldest tail segment, push the old
/// head onto the tail, advance the head. Returns the stepped snake and the
/// popped segment (kept aside in case a flower grows the snake back).
pub open spec fn advance_snake(s: SnakeState) -> (SnakeState, Option<Point>) {
    if s.tail.len() > 0 {
        (
            SnakeState {
                facing: s.facing,
                loc: moved(s.loc, s.facing),
                tail: s.tail.drop_first().push(s.loc),
            },
            Some(s.tail[0]),
        )
    } else {
        (SnakeState { facing: s.facing, loc: moved(s.loc, s.facing), tail: seq![s.loc] }, None)
    }
}

/// The scorpion phase: each live scorpion whose cell some tail segment
/// occupies cuts the tail there and is consumed; the others stay, in order.
pub open spec fn scorpion_pass(tail: Seq<Point>, scorpions: Seq<Scorpion>) -> (Seq<Point>, Seq<
    Scorpion,
>)
    decreases scorpions.len(),
{
    if scorpions.len() == 0 {
        (tail, scorpions)
    } else if seq_contains(tail, scorpions[0].loc) {
        scorpion_pass(cut_seq(tail, scorpions[0].loc), scorpions.drop_first())
    } else {
        let r = scorpion_pass(tail, scorpions.drop_first());
        (r.0, seq![scorpions[0]] + r.1)
    }
}

/// The flower phase: if the new head cell holds a flower, the popped segment
/// `rem` is put back at the front of the tail (a net growth of one) and that
/// flower leaves the world.
pub open spec fn flower_pass(
    head: Point,
    rem: Option<Point>,
    tail: Seq<Point>,
    flowers: Seq<Point>,
) -> (Seq<Point>, Seq<Point>) {
    let k = find_first(flowers, head);
    if k < 0 {
        (tail, flowers)
    } else {
        let grown = if rem is Some {
            seq![rem.unwrap()] + tail
        } else {
            tail
        };
        (grown, flowers.remove(k))
    }
}

/// One snake's whole gated step: advance, scorpion cuts, flower growth, then
/// the lethal self-collision check. `None` means the snake died.
pub open spec fn step_snake(s: SnakeState, flowers: Seq<Point>, scorpions: Seq<Scorpion>) -> (
    Option<SnakeState>,
    Seq<Point>,
    Seq<Scorpion>,
) {
    let a = advance_snake(s);
    let sp = scorpion_pass(a.0.tail, scorpions);
    let fp = flower_pass(a.0.loc, a.1, sp.0, flowers);
    if seq_contains(fp.0, a.0.loc) {
        (None, fp.1, sp.1)
    } else {
        (Some(SnakeState { facing: s.facing, loc: a.0.loc, tail: fp.0 }), fp.1, sp.1)
    }
}

/// All snakes stepped in order, each seeing the flowers and scorpions its
/// predecessors left behind.
pub open spec fn step_snakes(
    snakes: Seq<SnakeState>,
    flowers: Seq<Point>,
    scorpions: Seq<Scorpion>,
) -> (Seq<SnakeState>, Seq<Point>, Seq<Scorpion>)
    decreases snakes.len(),
{
    if snakes.len() == 0 {
        (snakes, flowers, scorpions)
    } else {
        let st = step_snake(snakes[0], flowers, scorpions);
        let rest = step_snakes(snakes.drop_first(), st.1, st.2);
        let survivors = if st.0 is Some {
            seq![st.0.unwrap()] + rest.0
        } else {
            rest.0
        };
        (survivors, rest.1, rest.2)
    }
}

/// The scorpions still live at `now`, their order kept.
pub open spec fn live_scorpions(scorpions: Seq<Scorpion>, now: u64) -> Seq<Scorpion>
    decreases scorpions.len(),
{
    if scorpions.len() == 0 {
        scorpions
    } else {
        let rest = live_scorpions(scorpions.drop_first(), now);
        if scorpions[0].is_live(now) {
            seq![scorpions[0]] + rest
        } else {
            rest
        }
    }
}

/// The movement gate: a tick does real work only when a whole interval has
/// passed since `last_move_time`.
pub open spec fn gate_open(last_move_time: u64, now: u64) -> bool {
    now >= last_move_time + SNAKE_MOVE_SPEED_MS
}

/// One call of `World::tick` at time `now`: nothing before the movement
/// interval has elapsed; on a gated tick, expired scorpions are purged, every
/// snake steps, and the timer re-anchors one interval past `now`.
pub open spec fn spec_tick(w: WorldState, now: u64) -> WorldState {
    if !gate_open(w.last_move_time, now) {
        w
    } else {
        let scs = live_scorpions(w.scorpions, now);
        let st = step_snakes(w.snakes, w.flowers, scs);
        WorldState {
            snakes: st.0,
            flowers: st.1,
            scorpions: st.2,
            last_move_time: (now + SNAKE_MOVE_SPEED_MS) as u64,
            tiles: w.tiles,
        }
    }
}

/// A world with every snake turned to face `facing`, nothing else changed.
pub open spec fn with_facing(w: WorldState, facing: Point) -> WorldState {
    WorldState {
        snakes: w.snakes.map_values(
            |s: SnakeState| SnakeState { facing, loc: s.loc, tail: s.tail },
        ),
        flowers: w.flowers,
        scorpions: w.scorpions,
        last_move_time: w.last_move_time,
        tiles: w.tiles,
    }
}

/// The one snake a fresh world is seeded with.
pub open spec fn seeded_snake() -> SnakeState {
    SnakeState {
        facing: Point { x: 0, y: 1 },
        loc: Point { x: 10, y: 10 },
        tail: initial_tail(Point { x: 10, y: 10 }, 4),
    }
}

/// The mathematical image of an optional snake.
pub open spec fn opt_view(r: Option<Snake>) -> Option<SnakeState> {
    match r {
        Some(s) => Some(s@),
        None => None,
    }
}

/// Whether `p` occurs among the segments of `v`.
pub fn contains_point(v: &Vec<Point>, p: Point) -> (b: bool)
    ensures
        b == seq_contains(v@, p),
{
    let mut i: usize = 0;
    while i < v.len()
        invariant
            0 <= i <= v@.len(),
            forall|j: int| 0 <= j < i ==> v@[j] != p,
        decreases v@.len() - i,
    {
        if v[i] == p {
            return true;
        }
        i = i + 1;
    }
    false
}

/// The index of the first occurrence of `p` in `v`, if any.
pub fn find_point(v: &Vec<Point>, p: Point) -> (r: Option<usize>)
    ensures
        match r {
            Some(k) => k < v@.len() && find_first(v@, p) == k,
            None => find_first(v@, p) < 0,
        },
{
    let mut i: usize = 0;
    while i < v.len()
        invariant
            0 <= i <= v@.len(),
            forall|j: int| 0 <= j < i ==> v@[j] != p,
        decreases v@.len() - i,
    {
        if v[i] == p {
            proof {
                lemma_find_first_at(v@, p, i as int);
            }
            return Some(i);
        }
        i = i + 1;
    }
    proof {
        lemma_find_first(v@, p);
        if find_first(v@, p) >= 0 {
            assert(v@[find_first(v@, p)] == p);
        }
    }
    None
}

impl World {
    /// A fresh world: one seeded snake at (10, 10) of length 4 facing down
    /// the y-axis, the given flowers, no scorpions, a zeroed terrain grid,
    /// and the movement gate open from time zero.
    pub fn new(flowers: Vec<Point>) -> (w: World)
        ensures
            w@.snakes =~= seq![seeded_snake()],
            w@.flowers == flowers@,
            w@.scorpions == Seq::<Scorpion>::empty(),
            w.last_move_time == 0,
            w@.tiles.len() == TILE_COLS * TILE_ROWS,
            forall|i: int| 0 <= i < w@.tiles.len() ==> w@.tiles[i] == 0,
            w@.wf(),
            forall|i: int| 0 <= i < w@.snakes.len() ==> can_step(#[trigger] w@.snakes[i]),
    {
        let mut snakes: Vec<Snake> = Vec::new();
        snakes.push(Snake::new(Point::new(10, 10), Point::new(0, 1), 4));
        let mut tiles: Vec<i64> = Vec::new();
        let mut k: usize = 0;
        while k < TILE_COLS * TILE_ROWS
            invariant
                tiles@.len() == k,
                k <= TILE_COLS * TILE_ROWS,
                forall|i: int| 0 <= i < k ==> tiles@[i] == 0,
            decreases TILE_COLS * TILE_ROWS - k,
        {
            tiles.push(0);
            k = k + 1;
        }
        let w = World { snakes, flowers, scorpions: Vec::new(), last_move_time: 0, tiles };
        proof {
            assert(w@.snakes =~= seq![seeded_snake()]);
        }
        w
    }

    /// Point every snake at `facing`: one shared control scheme steers all
    /// snakes alike.
    pub fn set_snake_facing(&mut self, facing: Point)
        requires
            is_direction(facing),
        ensures
            final(self)@ == with_facing(old(self)@, facing),
            final(self)@.wf(),
    {
        let mut i: usize = 0;
        while i < self.snakes.len()
            invariant
                0 <= i <= self.snakes@.len(),
                self.snakes@.len() == old(self).snakes@.len(),
                self.flowers == old(self).flowers,
                self.scorpions == old(self).scorpions,
                self.last_move_time == old(self).last_move_time,
                self.tiles == old(self).tiles,
                forall|j: int|
                    0 <= j < i ==> (#[trigger] self.snakes@[j])@ == (SnakeState {
                        facing,
                        loc: old(self).snakes@[j]@.loc,
                        tail: old(self).snakes@[j]@.tail,
                    }),
                forall|j: int| i <= j < self.snakes@.len() ==> self.snakes@[j] == old(self).snakes@[j],
            decreases self.snakes@.len() - i,
        {
            let ghost prev = self.snakes@;
            let mut s = self.snakes.remove(i);
            s.facing = facing;
            self.snakes.insert(i, s);
            proof {
                assert(self.snakes@ =~= prev.update(i as int, s));
            }
            i = i + 1;
        }
        proof {
            assert(self@ =~~= with_facing(old(self)@, facing));
        }
    }

    /// One snake's gated step against the shared flowers and scorpions.
    /// Returns the surviving snake, or `None` on a lethal self-collision.
    fn step_one(snake: Snake, flowers: &mut Vec<Point>, scorpions: &mut Vec<Scorpion>) -> (r:
        Option<Snake>)
        requires
            is_direction(snake.facing),
            can_step(snake@),
        ensures
            ({
                let st = step_snake(snake@, old(flowers)@, old(scorpions)@);
                &&& opt_view(r) == st.0
                &&& final(flowers)@ == st.1
                &&& final(scorpions)@ == st.2
            }),
    {
        let ghost flowers0 = flowers@;
        let ghost scorpions0 = scorpions@;
        let ghost a = advance_snake(snake@);
        let mut s = snake;
        let rem: Option<Point> = if s.tail.len() > 0 {
            Some(s.tail.remove(0))
        } else {
            None
        };
        s.tail.push(s.loc);
        let f = s.facing;
        s.loc.translate(f);
        proof {
            assert(s.tail@ =~= a.0.tail);
            assert(s.loc == a.0.loc);
            assert(rem == a.1);
        }
        // Scorpion phase: each live scorpion touching the tail cuts it there
        // and is consumed.
        let ghost t1 = a.0.tail;
        let mut j: usize = 0;
        proof {
            assert(scorpions@.skip(0) =~= scorpions0);
            assert(scorpions@.take(0) + scorpion_pass(s.tail@, scorpions@.skip(0)).1
                =~= scorpion_pass(s.tail@, scorpions@.skip(0)).1);
        }
        while j < scorpions.len()
            invariant
                0 <= j <= scorpions@.len(),
                s.facing == snake.facing,
                s.loc == a.0.loc,
                scorpion_pass(t1, scorpions0).0 == scorpion_pass(
                    s.tail@,
                    scorpions@.skip(j as int),
                ).0,
                scorpion_pass(t1, scorpions0).1 == scorpions@.take(j as int) + scorpion_pass(
                    s.tail@,
                    scorpions@.skip(j as int),
                ).1,
            decreases scorpions@.len() - j,
        {
            let ghost pre_tail = s.tail@;
            let ghost pre_scs = scorpions@;
            proof {
                assert(pre_scs.skip(j as int) =~= seq![pre_scs[j as int]] + pre_scs.skip(
                    j as int + 1,
                ));
                assert(pre_scs.skip(j as int).drop_first() =~= pre_scs.skip(j as int + 1));
            }
            let sc_loc = scorpions[j].loc;
            if contains_point(&s.tail, sc_loc) {
                s.cut(sc_loc);
                scorpions.remove(j);
                proof {
                    assert(scorpions@.skip(j as int) =~= pre_scs.skip(j as int + 1));
                    assert(scorpions@.take(j as int) =~= pre_scs.take(j as int));
                }
            } else {
                j = j + 1;
                proof {
                    assert(scorpions@.take(j as int) =~= pre_scs.take(j as int - 1).push(
                        pre_scs[j as int - 1],
                    ));
                    assert(pre_scs.take(j as int - 1) + (seq![pre_scs[j as int - 1]]
                        + scorpion_pass(pre_tail, pre_scs.skip(j as int)).1) =~= scorpions@.take(
                        j as int,
                    ) + scorpion_pass(pre_tail, pre_scs.skip(j as int)).1);
                }
            }
        }
        proof {
            assert(scorpions@.skip(scorpions@.len() as int) =~= Seq::<Scorpion>::empty());
            assert(scorpions@.take(scorpions@.len() as int) =~= scorpions@);
            assert(scorpions@.take(scorpions@.len() as int) + scorpion_pass(
                s.tail@,
                scorpions@.skip(scorpions@.len() as int),
            ).1 =~= scorpions@);
            assert(scorpion_pass(t1, scorpions0).0 == s.tail@);
            assert(scorpion_pass(t1, scorpions0).1 == scorpions@);
        }
        // Flower phase: growth when the new head cell holds a flower.
        let ghost sp = scorpion_pass(t1, scorpions0);
        match find_point(flowers, s.loc) {
            Some(k) => {
                let ghost pre_tail = s.tail@;
                match rem {
                    Some(r0) => {
                        s.tail.insert(0, r0);
                        proof {
                            assert(s.tail@ =~= seq![r0] + pre_tail);
                        }
                    },
                    None => {},
                }
                flowers.remove(k);
            },
            None => {},
        }
        proof {
            let fp = flower_pass(a.0.loc, a.1, sp.0, flowers0);
            assert(s.tail@ == fp.0);
            assert(flowers@ == fp.1);
        }
        // Lethal self-collision: the snake dies when its head overlaps its
        // own tail.
        if contains_point(&s.tail, s.loc) {
            None
        } else {
            Some(s)
        }
    }

    /// One frame's simulation step at clock time `now` (in milliseconds).
    /// Below the movement gate nothing changes; on a gated tick expired
    /// scorpions are purged, every snake advances (with scorpion cuts, flower
    /// growth and the self-collision check), and the timer re-anchors one
    /// interval past `now`.
    pub fn tick(&mut self, now: u64)
        requires
            old(self)@.wf(),
            forall|i: int|
                0 <= i < old(self)@.snakes.len() ==> can_step(#[trigger] old(self)@.snakes[i]),
            now + SNAKE_MOVE_SPEED_MS <= u64::MAX,
        ensures
            final(self)@ == spec_tick(old(self)@, now),
            final(self)@.wf(),
    {
        if now >= self.last_move_time && now - self.last_move_time >= SNAKE_MOVE_SPEED_MS {
            // Purge expired scorpions once, before any collision checks.
            let ghost scs_all = self.scorpions@;
            let mut kept: Vec<Scorpion> = Vec::new();
            let mut j: usize = 0;
            proof {
                assert(scs_all.skip(0) =~= scs_all);
                assert(Seq::<Scorpion>::empty() + live_scorpions(scs_all.skip(0), now)
                    =~= live_scorpions(scs_all.skip(0), now));
            }
            while j < self.scorpions.len()
                invariant
                    0 <= j <= self.scorpions@.len(),
                    self.scorpions@ == scs_all,
                    live_scorpions(scs_all, now) == kept@ + live_scorpions(
                        scs_all.skip(j as int),
                        now,
                    ),
                decreases scs_all.len() - j,
            {
                proof {
                    assert(scs_all.skip(j as int) =~= seq![scs_all[j as int]] + scs_all.skip(
                        j as int + 1,
                    ));
                    assert(scs_all.skip(j as int).drop_first() =~= scs_all.skip(j as int + 1));
                }
                let sc = self.scorpions[j];
                let ghost pre_kept = kept@;
                if sc.live(now) {
                    kept.push(sc);
                    proof {
                        assert(pre_kept + (seq![sc] + live_scorpions(
                            scs_all.skip(j as int + 1),
                            now,
                        )) =~= kept@ + live_scorpions(scs_all.skip(j as int + 1), now));
                    }
                }
                j = j + 1;
            }
            proof {
                assert(scs_all.skip(scs_all.len() as int) =~= Seq::<Scorpion>::empty());
                assert(kept@ + live_scorpions(scs_all.skip(scs_all.len() as int), now) =~= kept@);
            }
            self.scorpions = kept;
            // Step the snakes in order over the shared flowers and scorpions.
            let mut pending: Vec<Snake> = Vec::new();
            core::mem::swap(&mut pending, &mut self.snakes);
            let ghost snakes0 = pending@.map_values(|s: Snake| s@);
            let ghost flowers0 = self.flowers@;
            let ghost scs0 = self.scorpions@;
            let ghost target = step_snakes(snakes0, flowers0, scs0);
            proof {
                assert(self.snakes@.map_values(|s: Snake| s@) =~= Seq::<SnakeState>::empty());
                assert(pending@ == old(self).snakes@);
                assert(forall|i: int|
                    0 <= i < pending@.len() ==> (#[trigger] pending@[i])@ == old(self)@.snakes[i]);
                assert(Seq::<SnakeState>::empty() + step_snakes(snakes0, flowers0, scs0).0
                    =~= step_snakes(snakes0, flowers0, scs0).0);
            }
            while pending.len() > 0
                invariant
                    forall|i: int|
                        0 <= i < pending@.len() ==> is_direction(
                            (#[trigger] pending@[i]).facing,
                        ) && can_step(pending@[i]@),
                    target.0 == self.snakes@.map_values(|s: Snake| s@) + step_snakes(
                        pending@.map_values(|s: Snake| s@),
                        self.flowers@,
                        self.scorpions@,
                    ).0,
                    target.1 == step_snakes(
                        pending@.map_values(|s: Snake| s@),
                        self.flowers@,
                        self.scorpions@,
                    ).1,
                    target.2 == step_snakes(
                        pending@.map_values(|s: Snake| s@),
                        self.flowers@,
                        self.scorpions@,
                    ).2,
                    forall|i: int|
                        0 <= i < self.snakes@.len() ==> is_direction(
                            (#[trigger] self.snakes@[i]).facing,
                        ),
                    self.last_move_time == old(self).last_move_time,
                    self.tiles == old(self).tiles,
                decreases pending@.len(),
            {
                let ghost pre_pending = pending@.map_values(|s: Snake| s@);
                let s0 = pending.remove(0);
                proof {
                    assert(pending@.map_values(|s: Snake| s@) =~= pre_pending.drop_first());
                    assert(pre_pending[0] == s0@);
                }
                let r = World::step_one(s0, &mut self.flowers, &mut self.scorpions);
                let ghost st = step_snake(s0@, flowers0, scs0);
                match r {
                    Some(sv) => {
                        let ghost pre_sn = self.snakes@.map_values(|s: Snake| s@);
                        let ghost rest = step_snakes(
                            pre_pending.drop_first(),
                            self.flowers@,
                            self.scorpions@,
                        );
                        self.snakes.push(sv);
                        proof {
                            assert(self.snakes@.map_values(|s: Snake| s@) =~= pre_sn.push(sv@));
                            assert(pre_sn + (seq![sv@] + rest.0) =~= pre_sn.push(sv@) + rest.0);
                        }
                    },
                    None => {},
                }
            }
            self.last_move_time = now + SNAKE_MOVE_SPEED_MS;
            proof {
                assert(pending@.map_values(|s: Snake| s@) =~= Seq::<SnakeState>::empty());
                assert(self@ =~~= spec_tick(old(self)@, now));
            }
        }
    }
}

} // verus!
