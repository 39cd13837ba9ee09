//! The laws of the simulation: properties of one gated step, proved once and
//! for all over the world model.

use vstd::prelude::*;
use crate::point::Point;
use crate::scorpion::Scorpion;
use crate::snake::SnakeState;
use crate::snake::seq_contains;
use crate::snake::cut_seq;
use crate::snake::find_first;
use crate::snake::lemma_find_first;
use crate::snake::lemma_find_first_at;
use crate::world::WorldState;
use crate::world::SNAKE_MOVE_SPEED_MS;
use crate::world::moved;
use crate::world::advance_snake;
use crate::world::scorpion_pass;
use crate::world::step_snake;
use crate::world::step_snakes;
use crate::world::live_scorpions;
use crate::world::gate_open;
use crate::world::spec_tick;

verus! {

/// A scorpion pass that finds no tail segment on any scorpion's cell changes
/// neither the tail nor the scorpions.
pub proof fn lemma_scorpion_pass_no_hits(tail: Seq<Point>, scorpions: Seq<Scorpion>)
    requires
        forall|j: int|
            0 <= j < scorpions.len() ==> !seq_contains(tail, (#[trigger] scorpions[j]).loc),
    ensures
        scorpion_pass(tail, scorpions).0 == tail,
        scorpion_pass(tail, scorpions).1 == scorpions,
    decreases scorpions.len(),
{
    if scorpions.len() > 0 {
        assert(forall|j: int|
            0 <= j < scorpions.drop_first().len() ==> (#[trigger] scorpions.drop_first()[j])
                == scorpions[j + 1]);
        lemma_scorpion_pass_no_hits(tail, scorpions.drop_first());
        assert(seq![scorpions[0]] + scorpions.drop_first() =~= scorpions);
    }
}

/// Tick length law: when the new head cell holds no flower and no scorpion
/// touches the moved tail, a snake that survives its step keeps its tail
/// length (the pop at the front and the push at the back cancel out).
pub proof fn lemma_step_keeps_tail_length(
    s: SnakeState,
    flowers: Seq<Point>,
    scorpions: Seq<Scorpion>,
)
    requires
        s.tail.len() > 0,
        !seq_contains(flowers, moved(s.loc, s.facing)),
        forall|j: int|
            0 <= j < scorpions.len() ==> !seq_contains(
                advance_snake(s).0.tail,
                (#[trigger] scorpions[j]).loc,
            ),
    ensures
        step_snake(s, flowers, scorpions).0 is Some ==> step_snake(
            s,
            flowers,
            scorpions,
        ).0.unwrap().tail.len() == s.tail.len(),
        step_snake(s, flowers, scorpions).1 == flowers,
{
    lemma_scorpion_pass_no_hits(advance_snake(s).0.tail, scorpions);
    lemma_find_first(flowers, moved(s.loc, s.facing));
    if find_first(flowers, moved(s.loc, s.facing)) >= 0 {
        assert(seq_contains(flowers, moved(s.loc, s.facing)));
    }
}

/// Growth law: when the head lands on the cell of exactly one flower and no
/// scorpion touches the moved tail, a surviving snake's tail grows by exactly
/// one, and that flower is no longer in the world.
pub proof fn lemma_step_growth(
    s: SnakeState,
    flowers: Seq<Point>,
    scorpions: Seq<Scorpion>,
    k: int,
)
    requires
        s.tail.len() > 0,
        0 <= k < flowers.len(),
        flowers[k] == moved(s.loc, s.facing),
        forall|j: int| 0 <= j < flowers.len() && j != k ==> flowers[j] != moved(s.loc, s.facing),
        forall|j: int|
            0 <= j < scorpions.len() ==> !seq_contains(
                advance_snake(s).0.tail,
                (#[trigger] scorpions[j]).loc,
            ),
    ensures
        step_snake(s, flowers, scorpions).0 is Some ==> step_snake(
            s,
            flowers,
            scorpions,
        ).0.unwrap().tail.len() == s.tail.len() + 1,
        !seq_contains(step_snake(s, flowers, scorpions).1, moved(s.loc, s.facing)),
        step_snake(s, flowers, scorpions).1.len() == flowers.len() - 1,
{
    lemma_scorpion_pass_no_hits(advance_snake(s).0.tail, scorpions);
    lemma_find_first_at(flowers, moved(s.loc, s.facing), k);
    let head = moved(s.loc, s.facing);
    assert forall|i: int| 0 <= i < flowers.remove(k).len() implies flowers.remove(k)[i] != head by {
        if i < k {
            assert(flowers.remove(k)[i] == flowers[i]);
        } else {
            assert(flowers.remove(k)[i] == flowers[i + 1]);
        }
    }
}

/// Self-collision law: a snake only survives a step with its head clear of
/// its own tail; one whose new head overlaps a tail segment is removed.
pub proof fn lemma_survivor_head_clear(
    s: SnakeState,
    flowers: Seq<Point>,
    scorpions: Seq<Scorpion>,
)
    ensures
        step_snake(s, flowers, scorpions).0 is Some ==> !seq_contains(
            step_snake(s, flowers, scorpions).0.unwrap().tail,
            step_snake(s, flowers, scorpions).0.unwrap().loc,
        ),
{
}

/// Gating law: after a gated tick at `t0`, a second tick less than one
/// movement interval later changes nothing at all.
pub proof fn lemma_tick_gated(w: WorldState, t0: u64, t1: u64)
    requires
        gate_open(w.last_move_time, t0),
        t0 + SNAKE_MOVE_SPEED_MS <= u64::MAX,
        t1 < t0 + SNAKE_MOVE_SPEED_MS,
    ensures
        spec_tick(spec_tick(w, t0), t1) == spec_tick(w, t0),
{
}

/// Every scorpion the purge keeps is live at `now`.
pub proof fn lemma_live_scorpions_live(scorpions: Seq<Scorpion>, now: u64)
    ensures
        forall|i: int|
            0 <= i < live_scorpions(scorpions, now).len() ==> (#[trigger] live_scorpions(
                scorpions,
                now,
            )[i]).is_live(now),
    decreases scorpions.len(),
{
    if scorpions.len() > 0 {
        lemma_live_scorpions_live(scorpions.drop_first(), now);
        let rest = live_scorpions(scorpions.drop_first(), now);
        if scorpions[0].is_live(now) {
            assert(forall|i: int|
                1 <= i < (seq![scorpions[0]] + rest).len() ==> (#[trigger] (seq![scorpions[0]]
                    + rest)[i]) == rest[i - 1]);
        }
    }
}

/// The scorpion collision pass only ever consumes scorpions: what it keeps
/// was already there.
pub proof fn lemma_scorpion_pass_subset(tail: Seq<Point>, scorpions: Seq<Scorpion>)
    ensures
        forall|sc: Scorpion| #[trigger]
            scorpion_pass(tail, scorpions).1.contains(sc) ==> scorpions.contains(sc),
    decreases scorpions.len(),
{
    if scorpions.len() > 0 {
        let rest = scorpions.drop_first();
        if seq_contains(tail, scorpions[0].loc) {
            lemma_scorpion_pass_subset(cut_seq(tail, scorpions[0].loc), rest);
        } else {
            lemma_scorpion_pass_subset(tail, rest);
        }
        assert forall|sc: Scorpion| #[trigger]
            scorpion_pass(tail, scorpions).1.contains(sc) implies scorpions.contains(sc) by {
            let kept = scorpion_pass(tail, scorpions).1;
            let i = choose|i: int| 0 <= i < kept.len() && kept[i] == sc;
            if seq_contains(tail, scorpions[0].loc) {
                assert(scorpion_pass(cut_seq(tail, scorpions[0].loc), rest).1.contains(
                    sc,
                ));
                assert(rest.contains(sc));
            } else {
                if i == 0 {
                    assert(scorpions[0] == sc);
                } else {
                    assert(scorpion_pass(tail, rest).1[i - 1] == sc);
                    assert(scorpion_pass(tail, rest).1.contains(sc));
                    assert(rest.contains(sc));
                }
            }
            if rest.contains(sc) {
                let j = choose|j: int| 0 <= j < rest.len() && rest[j] == sc;
                assert(scorpions[j + 1] == sc);
            }
        }
    }
}

/// Stepping the snakes only ever consumes scorpions.
pub proof fn lemma_step_snakes_scorpions_subset(
    snakes: Seq<SnakeState>,
    flowers: Seq<Point>,
    scorpions: Seq<Scorpion>,
)
    ensures
        forall|sc: Scorpion| #[trigger]
            step_snakes(snakes, flowers, scorpions).2.contains(sc) ==> scorpions.contains(sc),
    decreases snakes.len(),
{
    if snakes.len() > 0 {
        let st = step_snake(snakes[0], flowers, scorpions);
        lemma_scorpion_pass_subset(advance_snake(snakes[0]).0.tail, scorpions);
        lemma_step_snakes_scorpions_subset(snakes.drop_first(), st.1, st.2);
        assert forall|sc: Scorpion| #[trigger]
            step_snakes(snakes, flowers, scorpions).2.contains(sc) implies scorpions.contains(
            sc,
        ) by {
            assert(step_snakes(snakes.drop_first(), st.1, st.2).2.contains(sc));
            assert(scorpion_pass(advance_snake(snakes[0]).0.tail, scorpions).1.contains(sc));
        }
    }
}

/// Expiry law: a gated tick purges expired scorpions, so every scorpion
/// still in the world afterwards is live at `now`; one past its lifetime is
/// absent and took no part in the tick's collision checks.
pub proof fn lemma_expired_scorpions_absent(w: WorldState, now: u64)
    requires
        gate_open(w.last_move_time, now),
    ensures
        forall|sc: Scorpion| #[trigger]
            spec_tick(w, now).scorpions.contains(sc) ==> sc.is_live(now),
{
    let live = live_scorpions(w.scorpions, now);
    lemma_live_scorpions_live(w.scorpions, now);
    lemma_step_snakes_scorpions_subset(w.snakes, w.flowers, live);
    assert forall|sc: Scorpion| #[trigger]
        spec_tick(w, now).scorpions.contains(sc) implies sc.is_live(now) by {
        assert(live.contains(sc));
        let i = choose|i: int| 0 <= i < live.len() && live[i] == sc;
        assert(live[i].is_live(now));
    }
}

} // verus!
