//! The rules of a match as mathematics: what one turn does to the pair of
//! shapes and to the counters, what any number of turns add up to, and the
//! two shortcuts with the proof that they change nothing in the outcome.

use vstd::prelude::*;
use crate::shape::Shape;

verus! {

/// How a number of turns ended: the turns each player won and the ties.
pub struct Tally {
    pub wins1: nat,
    pub wins2: nat,
    pub ties: nat,
}

/// The two pairs from which the first player wins every further turn.
pub open spec fn is_sweep_pair(shape1: Shape, shape2: Shape) -> bool {
    shape1 == Shape::Lizard && (shape2 == Shape::Spock || shape2 == Shape::Paper)
}

/// The four pairs that follow one another in a loop of four turns.
pub open spec fn is_cycle_pair(shape1: Shape, shape2: Shape) -> bool {
    ||| (shape1 == Shape::Paper && shape2 == Shape::Paper)
    ||| (shape1 == Shape::Paper && shape2 == Shape::Spock)
    ||| (shape1 == Shape::Scissors && shape2 == Shape::Spock)
    ||| (shape1 == Shape::Lizard && shape2 == Shape::Rock)
}

/// Whether the rest of a match can be settled at once: always from a sweep
/// pair, and from a cycle pair when whole loops of four turns are left.
pub open spec fn shortcut_applies(shape1: Shape, shape2: Shape, turns_left: nat) -> bool {
    is_sweep_pair(shape1, shape2) || (is_cycle_pair(shape1, shape2) && turns_left % 4 == 0)
}

/// What a shortcut adds to the counters for `turns_left` turns: every turn
/// to the first player from a sweep pair; from a cycle pair, of every four
/// turns one to the first player, two to the second and one tie.
pub open spec fn shortcut_tally(shape1: Shape, shape2: Shape, turns_left: nat) -> Tally {
    if is_sweep_pair(shape1, shape2) {
        Tally { wins1: turns_left, wins2: 0, ties: 0 }
    } else {
        Tally { wins1: turns_left / 4, wins2: turns_left / 2, ties: turns_left / 4 }
    }
}

/// The second player's next shape: Spock, or `fallback` when the shape in
/// hand is Spock already.
pub open spec fn spock_or(shape2: Shape, fallback: Shape) -> Shape {
    if shape2 == Shape::Spock {
        fallback
    } else {
        Shape::Spock
    }
}

/// The pair of shapes after one turn played from the pair given.
pub open spec fn next_shapes(shape1: Shape, shape2: Shape) -> (Shape, Shape) {
    if shape1 == shape2 {
        (shape1.successor(), spock_or(shape2, Shape::Lizard))
    } else if shape1.dominates(shape2) {
        (shape1, spock_or(shape2, Shape::Paper))
    } else {
        (shape2.successor(), spock_or(shape2, Shape::Rock))
    }
}

/// The counters of one turn played from the pair given.
pub open spec fn turn_tally(shape1: Shape, shape2: Shape) -> Tally {
    if shape1 == shape2 {
        Tally { wins1: 0, wins2: 0, ties: 1 }
    } else if shape1.dominates(shape2) {
        Tally { wins1: 1, wins2: 0, ties: 0 }
    } else {
        Tally { wins1: 0, wins2: 1, ties: 0 }
    }
}

/// The counters of `turns` turns played one by one, with no shortcut taken.
pub open spec fn turn_by_turn(shape1: Shape, shape2: Shape, turns: nat) -> Tally
    decreases turns,
{
    if turns == 0 {
        Tally { wins1: 0, wins2: 0, ties: 0 }
    } else {
        let now = turn_tally(shape1, shape2);
        let next = next_shapes(shape1, shape2);
        let rest = turn_by_turn(next.0, next.1, (turns - 1) as nat);
        Tally {
            wins1: now.wins1 + rest.wins1,
            wins2: now.wins2 + rest.wins2,
            ties: now.ties + rest.ties,
        }
    }
}

/// The pair of shapes after `turns` turns played one by one.
pub open spec fn shapes_after(shape1: Shape, shape2: Shape, turns: nat) -> (Shape, Shape)
    decreases turns,
{
    if turns == 0 {
        (shape1, shape2)
    } else {
        let next = next_shapes(shape1, shape2);
        shapes_after(next.0, next.1, (turns - 1) as nat)
    }
}

/// The pair of shapes that the engine stops at: the first pair, `turns` turns
/// before the end, from which a shortcut applies, or the pair after the last
/// turn.
pub open spec fn resting_shapes(shape1: Shape, shape2: Shape, turns: nat) -> (Shape, Shape)
    decreases turns,
{
    if turns == 0 || shortcut_applies(shape1, shape2, turns) {
        (shape1, shape2)
    } else {
        let next = next_shapes(shape1, shape2);
        resting_shapes(next.0, next.1, (turns - 1) as nat)
    }
}

/// A sweep pair is followed by a sweep pair, so from one the first player
/// wins every turn, however many follow.
pub proof fn lemma_sweep_matches_turn_by_turn(shape1: Shape, shape2: Shape, turns_left: nat)
    requires
        is_sweep_pair(shape1, shape2),
    ensures
        is_sweep_pair(next_shapes(shape1, shape2).0, next_shapes(shape1, shape2).1),
        turn_by_turn(shape1, shape2, turns_left) == shortcut_tally(shape1, shape2, turns_left),
    decreases turns_left,
{
    if turns_left > 0 {
        let next = next_shapes(shape1, shape2);
        lemma_sweep_matches_turn_by_turn(next.0, next.1, (turns_left - 1) as nat);
    }
}

/// From a cycle pair, four turns played one by one lead back to the same
/// pair and add one win for the first player, two for the second and a tie.
pub proof fn lemma_cycle_has_period_four(shape1: Shape, shape2: Shape, turns_left: nat)
    requires
        is_cycle_pair(shape1, shape2),
        turns_left >= 4,
    ensures
        shapes_after(shape1, shape2, 4) == (shape1, shape2),
        ({
            let all = turn_by_turn(shape1, shape2, turns_left);
            let rest = turn_by_turn(shape1, shape2, (turns_left - 4) as nat);
            &&& all.wins1 == rest.wins1 + 1
            &&& all.wins2 == rest.wins2 + 2
            &&& all.ties == rest.ties + 1
        }),
{
    reveal_with_fuel(turn_by_turn, 5);
    reveal_with_fuel(shapes_after, 5);
}

/// A shortcut changes nothing in the outcome: wherever one applies, its
/// closed form adds what the same turns played one by one would add.
pub proof fn lemma_shortcut_matches_turn_by_turn(shape1: Shape, shape2: Shape, turns_left: nat)
    requires
        shortcut_applies(shape1, shape2, turns_left),
    ensures
        turn_by_turn(shape1, shape2, turns_left) == shortcut_tally(shape1, shape2, turns_left),
    decreases turns_left,
{
    if is_sweep_pair(shape1, shape2) {
        lemma_sweep_matches_turn_by_turn(shape1, shape2, turns_left);
    } else if turns_left >= 4 {
        lemma_cycle_has_period_four(shape1, shape2, turns_left);
        lemma_shortcut_matches_turn_by_turn(shape1, shape2, (turns_left - 4) as nat);
    }
}

/// Every turn is a win for one player or a tie: the three counters of any
/// number of turns add up to that number.
pub proof fn lemma_every_turn_is_counted(shape1: Shape, shape2: Shape, turns: nat)
    ensures
        ({
            let tally = turn_by_turn(shape1, shape2, turns);
            tally.wins1 + tally.wins2 + tally.ties == turns
        }),
    decreases turns,
{
    if turns > 0 {
        let next = next_shapes(shape1, shape2);
        lemma_every_turn_is_counted(next.0, next.1, (turns - 1) as nat);
    }
}

/// With turns left, either a shortcut applies, and its closed form is what
/// the turns still add, or the next turn is played and the rest follows from
/// the pair after it.
pub proof fn lemma_shortcut_or_step(shape1: Shape, shape2: Shape, turns_left: nat)
    requires
        turns_left > 0,
    ensures
        shortcut_applies(shape1, shape2, turns_left) ==> {
            &&& turn_by_turn(shape1, shape2, turns_left) == shortcut_tally(
                shape1,
                shape2,
                turns_left,
            )
            &&& resting_shapes(shape1, shape2, turns_left) == (shape1, shape2)
        },
        !shortcut_applies(shape1, shape2, turns_left) ==> {
            let next = next_shapes(shape1, shape2);
            resting_shapes(shape1, shape2, turns_left) == resting_shapes(
                next.0,
                next.1,
                (turns_left - 1) as nat,
            )
        },
{
    if shortcut_applies(shape1, shape2, turns_left) {
        lemma_shortcut_matches_turn_by_turn(shape1, shape2, turns_left);
    }
}

} // verus!
