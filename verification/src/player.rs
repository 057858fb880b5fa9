//! A player: a name, the shape in hand and the score so far.

use vstd::prelude::*;
use crate::shape::Shape;
use crate::utils::{decimal, decimal_text};

verus! {

/// A participant of a match. The engine changes `shape` and `score` while
/// it plays; `score` never goes down.
#[derive(Debug, PartialEq, Eq)]
pub struct Player {
    pub name: String,
    pub shape: Shape,
    pub score: u64,
}

impl Player {
    /// A player with the given name and opening shape, and no score yet.
    pub fn new(name: &str, shape: Shape) -> (player: Self)
        ensures
            player.name@ == name@,
            player.shape == shape,
            player.score == 0,
    {
        Self { name: name.to_owned(), shape, score: 0 }
    }

    /// The line that describes the player.
    pub open spec fn description(&self) -> Seq<char> {
        "Name: "@ + self.name@ + ", Shape: "@ + self.shape.name() + ", Score: "@ + decimal(
            self.score as nat,
        )
    }

    /// Writes the line that describes the player: name, shape and score.
    pub fn to_string(&self) -> (text: String)
        ensures
            text@ == self.description(),
    {
        let mut text: String = "Name: ".to_owned();
        text.append(self.name.as_str());
        text.append(", Shape: ");
        text.append(self.shape.name_text());
        text.append(", Score: ");
        text.append(decimal_text(self.score).as_str());
        text
    }
}

} // verus!
