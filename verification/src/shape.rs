//! The five hand shapes, which shape beats which, and the cycle that picks
//! the next shape.

use vstd::prelude::*;

verus! {

/// One of the five hand shapes.
#[derive(Clone, Copy, Debug, PartialEq, Eq, Structural)]
pub enum Shape {
    Rock,
    Paper,
    Scissors,
    Lizard,
    Spock,
}

impl Shape {
    /// The dominance table: every shape beats exactly two others.
    pub open spec fn dominates(self, other: Shape) -> bool {
        match (self, other) {
            (Shape::Rock, Shape::Scissors) | (Shape::Rock, Shape::Lizard) => true,
            (Shape::Paper, Shape::Rock) | (Shape::Paper, Shape::Spock) => true,
            (Shape::Scissors, Shape::Paper) | (Shape::Scissors, Shape::Lizard) => true,
            (Shape::Lizard, Shape::Paper) | (Shape::Lizard, Shape::Spock) => true,
            (Shape::Spock, Shape::Scissors) | (Shape::Spock, Shape::Rock) => true,
            _ => false,
        }
    }

    /// The shape that follows `self` in the cycle
    /// Rock, Paper, Scissors, Spock, Lizard, Rock.
    pub open spec fn successor(self) -> Shape {
        match self {
            Shape::Rock => Shape::Paper,
            Shape::Paper => Shape::Scissors,
            Shape::Scissors => Shape::Spock,
            Shape::Spock => Shape::Lizard,
            Shape::Lizard => Shape::Rock,
        }
    }

    /// `successor` applied `steps` times.
    pub open spec fn successor_iter(self, steps: nat) -> Shape
        decreases steps,
    {
        if steps == 0 {
            self
        } else {
            self.successor().successor_iter((steps - 1) as nat)
        }
    }

    /// The name of the shape, as it is written in a game line.
    pub open spec fn name(self) -> Seq<char> {
        match self {
            Shape::Rock => "Rock"@,
            Shape::Paper => "Paper"@,
            Shape::Scissors => "Scissors"@,
            Shape::Lizard => "Lizard"@,
            Shape::Spock => "Spock"@,
        }
    }

    /// The name of the shape.
    pub fn name_text(&self) -> (text: &'static str)
        ensures
            text@ == self.name(),
    {
        match self {
            Shape::Rock => "Rock",
            Shape::Paper => "Paper",
            Shape::Scissors => "Scissors",
            Shape::Lizard => "Lizard",
            Shape::Spock => "Spock",
        }
    }

    /// Whether `self` beats `other`.
    pub fn beats(&self, other: &Shape) -> (wins: bool)
        ensures
            wins == self.dominates(*other),
    {
        match (*self, *other) {
            (Shape::Rock, Shape::Scissors) | (Shape::Rock, Shape::Lizard) => true,
            (Shape::Paper, Shape::Rock) | (Shape::Paper, Shape::Spock) => true,
            (Shape::Scissors, Shape::Paper) | (Shape::Scissors, Shape::Lizard) => true,
            (Shape::Lizard, Shape::Paper) | (Shape::Lizard, Shape::Spock) => true,
            (Shape::Spock, Shape::Scissors) | (Shape::Spock, Shape::Rock) => true,
            _ => false,
        }
    }

    /// The shape a player moves to after `self`: its successor in the cycle.
    pub fn get_winner_shape(&self) -> (next: Shape)
        ensures
            next == self.successor(),
    {
        match self {
            Shape::Rock => Shape::Paper,
            Shape::Paper => Shape::Scissors,
            Shape::Scissors => Shape::Spock,
            Shape::Spock => Shape::Lizard,
            Shape::Lizard => Shape::Rock,
        }
    }
}

/// The shape that `text` names, if it names one. Names are case-sensitive and
/// must match in full.
pub open spec fn shape_named(text: Seq<char>) -> Option<Shape> {
    if text == Shape::Rock.name() {
        Some(Shape::Rock)
    } else if text == Shape::Paper.name() {
        Some(Shape::Paper)
    } else if text == Shape::Scissors.name() {
        Some(Shape::Scissors)
    } else if text == Shape::Lizard.name() {
        Some(Shape::Lizard)
    } else if text == Shape::Spock.name() {
        Some(Shape::Spock)
    } else {
        None
    }
}

/// Reads a shape from its name.
pub fn parse_shape(shape: &str) -> (parsed: Option<Shape>)
    ensures
        parsed == shape_named(shape@),
{
    if crate::utils::same_text(shape, "Rock") {
        Some(Shape::Rock)
    } else if crate::utils::same_text(shape, "Paper") {
        Some(Shape::Paper)
    } else if crate::utils::same_text(shape, "Scissors") {
        Some(Shape::Scissors)
    } else if crate::utils::same_text(shape, "Lizard") {
        Some(Shape::Lizard)
    } else if crate::utils::same_text(shape, "Spock") {
        Some(Shape::Spock)
    } else {
        None
    }
}

/// Of two different shapes exactly one beats the other, and no shape beats
/// itself.
pub proof fn lemma_dominance_is_a_tournament(a: Shape, b: Shape)
    ensures
        a != b ==> (a.dominates(b) != b.dominates(a)),
        a == b ==> !a.dominates(b) && !b.dominates(a),
{
}

/// Every shape beats exactly two shapes and loses to exactly two.
pub proof fn lemma_each_shape_beats_two(a: Shape)
    ensures
        Set::new(|b: Shape| a.dominates(b)).len() == 2,
        Set::new(|b: Shape| b.dominates(a)).len() == 2,
{
    let wins = Set::new(|b: Shape| a.dominates(b));
    let losses = Set::new(|b: Shape| b.dominates(a));
    match a {
        Shape::Rock => {
            assert(wins =~= set![Shape::Scissors, Shape::Lizard]);
            assert(losses =~= set![Shape::Paper, Shape::Spock]);
        },
        Shape::Paper => {
            assert(wins =~= set![Shape::Rock, Shape::Spock]);
            assert(losses =~= set![Shape::Scissors, Shape::Lizard]);
        },
        Shape::Scissors => {
            assert(wins =~= set![Shape::Paper, Shape::Lizard]);
            assert(losses =~= set![Shape::Rock, Shape::Spock]);
        },
        Shape::Lizard => {
            assert(wins =~= set![Shape::Paper, Shape::Spock]);
            assert(losses =~= set![Shape::Rock, Shape::Scissors]);
        },
        Shape::Spock => {
            assert(wins =~= set![Shape::Scissors, Shape::Rock]);
            assert(losses =~= set![Shape::Paper, Shape::Lizard]);
        },
    }
}

/// `successor` is one-to-one and onto.
pub proof fn lemma_successor_is_a_bijection(a: Shape, b: Shape)
    ensures
        a.successor() == b.successor() ==> a == b,
        exists|c: Shape| c.successor() == a,
{
    let before = match a {
        Shape::Rock => Shape::Lizard,
        Shape::Paper => Shape::Rock,
        Shape::Scissors => Shape::Paper,
        Shape::Spock => Shape::Scissors,
        Shape::Lizard => Shape::Spock,
    };
    assert(before.successor() == a);
}

/// `successor` runs through all five shapes in one cycle: five steps lead
/// back to the start, fewer do not, and every shape is reached on the way.
pub proof fn lemma_successor_is_one_cycle(a: Shape, b: Shape, steps: nat)
    ensures
        a.successor_iter(5) == a,
        0 < steps < 5 ==> a.successor_iter(steps) != a,
        exists|k: nat| k < 5 && a.successor_iter(k) == b,
{
    reveal_with_fuel(Shape::successor_iter, 6);
    assert(a.successor_iter(0) == b || a.successor_iter(1) == b || a.successor_iter(2) == b
        || a.successor_iter(3) == b || a.successor_iter(4) == b);
}

/// Every shape is read back from its own name.
pub proof fn lemma_name_round_trip(a: Shape)
    ensures
        shape_named(a.name()) == Some(a),
{
    reveal_strlit("Rock");
    reveal_strlit("Paper");
    reveal_strlit("Scissors");
    reveal_strlit("Lizard");
    reveal_strlit("Spock");
    assert("Rock"@.len() == 4 && "Paper"@.len() == 5 && "Scissors"@.len() == 8
        && "Lizard"@.len() == 6 && "Spock"@.len() == 5);
    assert("Paper"@[0] != "Spock"@[0]);
}

} // verus!
