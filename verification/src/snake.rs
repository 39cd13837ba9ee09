//! The snake: a head, a facing, and an ordered tail of body segments.

use vstd::prelude::*;
use crate::point::Point;
use crate::point::is_direction;

verus! {

/// A snake. `loc` is the head cell. `tail` holds the body segments ordered
/// from the tail end (index 0, farthest from the head) towards the head
/// (last index, the segment just behind `loc`).
#[derive(Debug)]
pub struct Snake {
    pub facing: Point,
    pub loc: Point,
    pub tail: Vec<Point>,
}

/// The mathematical image of a snake.
#[verifier::ext_equal]
pub ghost struct SnakeState {
    pub facing: Point,
    pub loc: Point,
    pub tail: Seq<Point>,
}

impl View for Snake {
    type V = SnakeState;

    open spec fn view(&self) -> SnakeState {
        SnakeState { facing: self.facing, loc: self.loc, tail: self.tail@ }
    }
}

/// Whether `p` occurs among the segments of `s`.
pub open spec fn seq_contains(s: Seq<Point>, p: Point) -> bool {
    exists|i: int| 0 <= i < s.len() && s[i] == p
}

/// The index of the first occurrence of `p` in `s`, or -1 if there is none.
pub open spec fn find_first(s: Seq<Point>, p: Point) -> int
    decreases s.len(),
{
    if s.len() == 0 {
        -1
    } else if s[0] == p {
        0
    } else if find_first(s.drop_first(), p) < 0 {
        -1
    } else {
        1 + find_first(s.drop_first(), p)
    }
}

/// The tail after a cut at `p`: everything strictly after the first segment
/// equal to `p` survives; without a match the tail is unchanged.
pub open spec fn cut_seq(s: Seq<Point>, p: Point) -> Seq<Point> {
    if find_first(s, p) < 0 {
        s
    } else {
        s.subrange(find_first(s, p) + 1, s.len() as int)
    }
}

/// `find_first` returns -1 exactly when `p` is absent, and otherwise the
/// least index holding `p`.
pub proof fn lemma_find_first(s: Seq<Point>, p: Point)
    ensures
        find_first(s, p) < 0 ==> !seq_contains(s, p),
        find_first(s, p) >= 0 ==> 0 <= find_first(s, p) < s.len() && s[find_first(s, p)] == p,
        find_first(s, p) >= 0 ==> forall|j: int| 0 <= j < find_first(s, p) ==> s[j] != p,
    decreases s.len(),
{
    if s.len() > 0 && s[0] != p {
        lemma_find_first(s.drop_first(), p);
        if find_first(s.drop_first(), p) < 0 {
            assert forall|i: int| 0 <= i < s.len() implies s[i] != p by {
                if i > 0 {
                    assert(s.drop_first()[i - 1] == s[i]);
                }
            }
        } else {
            let f = 1 + find_first(s.drop_first(), p);
            assert(s[f] == s.drop_first()[f - 1]);
            assert forall|j: int| 0 <= j < f implies s[j] != p by {
                if j > 0 {
                    assert(s.drop_first()[j - 1] == s[j]);
                }
            }
        }
    }
}

/// If `s[i] == p` and nothing before `i` equals `p`, then `i` is what
/// `find_first` returns.
pub proof fn lemma_find_first_at(s: Seq<Point>, p: Point, i: int)
    requires
        0 <= i < s.len(),
        s[i] == p,
        forall|j: int| 0 <= j < i ==> s[j] != p,
    ensures
        find_first(s, p) == i,
    decreases s.len(),
{
    if s[0] == p {
        assert(i == 0);
    } else {
        assert(s.drop_first()[i - 1] == s[i]);
        assert forall|j: int| 0 <= j < i - 1 implies s.drop_first()[j] != p by {
            assert(s.drop_first()[j] == s[j + 1]);
        }
        lemma_find_first_at(s.drop_first(), p, i - 1);
    }
}

/// The straight initial body: `length - 1` segments extending backward from
/// `loc` along the negative x-axis, the farthest segment first.
pub open spec fn initial_tail(loc: Point, length: i64) -> Seq<Point> {
    Seq::new((length - 1) as nat, |i: int| Point { x: (loc.x - (length - 1 - i)) as i64, y: loc.y })
}

impl Snake {
    /// A new snake with its head at `loc`, facing `facing`, and a straight
    /// body of `length - 1` trailing segments along the negative x-axis.
    pub fn new(loc: Point, facing: Point, length: i64) -> (s: Snake)
        requires
            length > 1,
            is_direction(facing),
            i64::MIN <= loc.x - (length - 1),
        ensures
            s.facing == facing,
            s.loc == loc,
            s.tail@ == initial_tail(loc, length),
            s.tail@.len() == length - 1,
    {
        let mut tail: Vec<Point> = Vec::new();
        let mut i: i64 = 1;
        while i < length
            invariant
                1 <= i <= length,
                length > 1,
                i64::MIN <= loc.x - (length - 1),
                tail@.len() == i - 1,
                forall|j: int| 0 <= j < i - 1 ==> tail@[j] == (Point { x: (loc.x - (i - 1 - j)) as i64, y: loc.y }),
            decreases length - i,
        {
            tail.insert(0, Point::new(loc.x - i, loc.y));
            i = i + 1;
        }
        assert(tail@ =~= initial_tail(loc, length));
        Snake { facing, loc, tail }
    }

    /// The checked constructor: `None` whenever `length` admits no body.
    pub fn try_new(loc: Point, facing: Point, length: i64) -> (r: Option<Snake>)
        requires
            is_direction(facing),
            length > 1 ==> i64::MIN <= loc.x - (length - 1),
        ensures
            r is Some <==> length > 1,
            length > 1 ==> {
                &&& r.unwrap().facing == facing
                &&& r.unwrap().loc == loc
                &&& r.unwrap().tail@ == initial_tail(loc, length)
            },
    {
        if length > 1 {
            Some(Snake::new(loc, facing, length))
        } else {
            None
        }
    }

    /// Cut the snake at the first tail segment equal to `position`: that
    /// segment and everything behind it is discarded, the rest survives with
    /// the head and facing untouched. Without a match this is a no-op.
    pub fn cut(&mut self, position: Point)
        ensures
            final(self).facing == old(self).facing,
            final(self).loc == old(self).loc,
            final(self).tail@ == cut_seq(old(self).tail@, position),
    {
        let ghost tail0 = self.tail@;
        let n = self.tail.len();
        let mut i: usize = 0;
        while i < n && !(self.tail[i] == position)
            invariant
                0 <= i <= n,
                n == self.tail@.len(),
                self.tail@ == tail0,
                self.facing == old(self).facing,
                self.loc == old(self).loc,
                forall|j: int| 0 <= j < i ==> tail0[j] != position,
            decreases n - i,
        {
            i = i + 1;
        }
        if i < n {
            proof {
                lemma_find_first_at(tail0, position, i as int);
            }
            let mut k: usize = 0;
            while k <= i
                invariant
                    0 <= k <= i + 1,
                    i < n,
                    n == tail0.len(),
                    self.tail@ == tail0.subrange(k as int, n as int),
                    self.facing == old(self).facing,
                    self.loc == old(self).loc,
                decreases i + 1 - k,
            {
                self.tail.remove(0);
                proof {
                    assert(tail0.subrange(k as int, n as int).remove(0)
                        =~= tail0.subrange(k + 1, n as int));
                }
                k = k + 1;
            }
            assert(self.tail@ == cut_seq(tail0, position));
        } else {
            proof {
                lemma_find_first(tail0, position);
                if find_first(tail0, position) >= 0 {
                    assert(tail0[find_first(tail0, position)] == position);
                }
            }
        }
    }
}

} // verus!
