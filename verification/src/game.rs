//! The match engine: setting a game up from a line of text, playing it with
//! the two shortcuts that end a match early, and the message that reports the
//! outcome.

use vstd::prelude::*;
use crate::player::Player;
use crate::rules::{
    lemma_every_turn_is_counted, lemma_shortcut_or_step, next_shapes, resting_shapes,
    shortcut_applies, shortcut_tally, turn_by_turn, turn_tally, Tally,
};
use crate::shape::{parse_shape, shape_named, Shape};
use crate::utils::{decimal, decimal_text, num_parse, number_in, try_num_parse};

verus! {

/// One match: the two players, the number of turns to play and the ties so
/// far.
#[derive(Debug, PartialEq, Eq)]
pub struct Game {
    pub player1: Player,
    pub player2: Player,
    pub turns: u64,
    pub ties: u64,
}

/// Why a game could not be set up from its instructions.
#[derive(Clone, Copy, Debug, PartialEq, Eq, Structural)]
pub enum GameError {
    /// A shape is missing or is none of the five names.
    InvalidShape,
    /// The number of turns is missing or denotes no number.
    InvalidNumber,
}

/// What a list of instructions asks for: the two opening shapes and the
/// number of turns, read from its first three entries. Further entries are
/// ignored.
pub open spec fn opening(instructions: Seq<Seq<char>>) -> Result<(Shape, Shape, u64), GameError> {
    if instructions.len() < 1 || shape_named(instructions[0]) is None {
        Err(GameError::InvalidShape)
    } else if instructions.len() < 2 || shape_named(instructions[1]) is None {
        Err(GameError::InvalidShape)
    } else if instructions.len() < 3 || number_in(instructions[2]) is None {
        Err(GameError::InvalidNumber)
    } else {
        Ok(
            (
                shape_named(instructions[0])->0,
                shape_named(instructions[1])->0,
                number_in(instructions[2])->0,
            ),
        )
    }
}

/// The message that reports an outcome: a tie where the two scores are
/// equal, else the name and the score of the player who leads.
pub open spec fn outcome_message(
    name1: Seq<char>,
    name2: Seq<char>,
    score1: nat,
    score2: nat,
    ties: nat,
) -> Seq<char> {
    if score1 == score2 {
        name1 + " and "@ + name2 + " tie, each winning "@ + decimal(score1)
            + " game(s) and tying "@ + decimal(ties) + " game(s)"@
    } else if score1 > score2 {
        name1 + " wins, by winning "@ + decimal(score1) + " game(s) and tying "@ + decimal(ties)
            + " game(s)"@
    } else {
        name2 + " wins, by winning "@ + decimal(score2) + " game(s) and tying "@ + decimal(ties)
            + " game(s)"@
    }
}

/// What playing the game that `game_line` describes gives: the message that
/// reports the outcome of all its turns, or what is wrong with the line.
pub open spec fn game_report(game_line: Seq<char>, name1: Seq<char>, name2: Seq<char>) -> Result<
    Seq<char>,
    GameError,
> {
    match opening(fields(game_line)) {
        Ok((shape1, shape2, turns)) => {
            let tally = turn_by_turn(shape1, shape2, turns as nat);
            Ok(outcome_message(name1, name2, tally.wins1, tally.wins2, tally.ties))
        },
        Err(error) => Err(error),
    }
}

/// The characters of each string of a list.
pub open spec fn texts(strings: Seq<String>) -> Seq<Seq<char>> {
    Seq::new(strings.len(), |i: int| strings[i]@)
}

/// The fields of `line` from `start` on, where the characters from `start`
/// up to `at` have been seen to hold no space: a field ends before each
/// space and at the end of the line.
pub open spec fn fields_from(line: Seq<char>, start: int, at: int) -> Seq<Seq<char>>
    decreases line.len() - at,
{
    if at < 0 || at >= line.len() {
        seq![line.subrange(start, line.len() as int)]
    } else if line[at] == ' ' {
        seq![line.subrange(start, at)] + fields_from(line, at + 1, at + 1)
    } else {
        fields_from(line, start, at + 1)
    }
}

/// The fields of a line: the stretches of characters between its spaces. A
/// line with `n` spaces has `n + 1` fields, some of which may be empty.
pub open spec fn fields(line: Seq<char>) -> Seq<Seq<char>> {
    fields_from(line, 0, 0)
}

/// The line that a list of fields comes from: the fields in their order,
/// with one space between each two.
pub open spec fn joined(parts: Seq<Seq<char>>) -> Seq<char>
    decreases parts.len(),
{
    if parts.len() == 0 {
        Seq::empty()
    } else if parts.len() == 1 {
        parts[0]
    } else {
        parts[0] + seq![' '] + joined(parts.skip(1))
    }
}

impl Game {
    /// Whether `tally` can be added to the counters: each sum fits in 64
    /// bits.
    pub open spec fn can_take(&self, tally: Tally) -> bool {
        &&& self.player1.score + tally.wins1 <= u64::MAX
        &&& self.player2.score + tally.wins2 <= u64::MAX
        &&& self.ties + tally.ties <= u64::MAX
    }

    /// Whether `self` is `before` with `tally` added to its counters and
    /// the pair of shapes replaced by `shapes`; names and turns are kept.
    pub open spec fn follows(&self, before: &Game, shapes: (Shape, Shape), tally: Tally) -> bool {
        &&& self.player1.name == before.player1.name
        &&& self.player2.name == before.player2.name
        &&& self.turns == before.turns
        &&& self.player1.shape == shapes.0
        &&& self.player2.shape == shapes.1
        &&& self.player1.score == before.player1.score + tally.wins1
        &&& self.player2.score == before.player2.score + tally.wins2
        &&& self.ties == before.ties + tally.ties
    }

    /// Whether `self` is a game that has not been played yet, with the
    /// players' names, the opening shapes and the number of turns given.
    pub open spec fn opens_with(
        &self,
        name1: Seq<char>,
        name2: Seq<char>,
        shape1: Shape,
        shape2: Shape,
        turns: u64,
    ) -> bool {
        &&& self.player1.name@ == name1
        &&& self.player1.shape == shape1
        &&& self.player1.score == 0
        &&& self.player2.name@ == name2
        &&& self.player2.shape == shape2
        &&& self.player2.score == 0
        &&& self.turns == turns
        &&& self.ties == 0
    }

    /// The message that reports the outcome of the game as it stands.
    pub open spec fn message(&self) -> Seq<char> {
        outcome_message(
            self.player1.name@,
            self.player2.name@,
            self.player1.score as nat,
            self.player2.score as nat,
            self.ties as nat,
        )
    }

    /// The number of turns that the counters account for.
    pub open spec fn turns_counted(&self) -> nat {
        (self.player1.score + self.player2.score + self.ties) as nat
    }

    /// Sets up a game from its instructions, or says what is wrong with
    /// them: the first shape is looked at first, the number of turns last.
    pub fn try_new(instructions: &[String], player1_name: &str, player2_name: &str) -> (made:
        Result<Self, GameError>)
        ensures
            match opening(texts(instructions@)) {
                Ok((shape1, shape2, turns)) => made is Ok && made->Ok_0.opens_with(
                    player1_name@,
                    player2_name@,
                    shape1,
                    shape2,
                    turns,
                ),
                Err(error) => made is Err && made->Err_0 == error,
            },
    {
        if instructions.len() < 1 {
            return Err(GameError::InvalidShape);
        }
        let player1_shape = match parse_shape(instructions[0].as_str()) {
            Some(shape) => shape,
            None => {
                return Err(GameError::InvalidShape);
            },
        };
        if instructions.len() < 2 {
            return Err(GameError::InvalidShape);
        }
        let player2_shape = match parse_shape(instructions[1].as_str()) {
            Some(shape) => shape,
            None => {
                return Err(GameError::InvalidShape);
            },
        };
        if instructions.len() < 3 {
            return Err(GameError::InvalidNumber);
        }
        let turns: u64 = match try_num_parse(instructions[2].as_str()) {
            Some(number) => number,
            None => {
                return Err(GameError::InvalidNumber);
            },
        };
        Ok(
            Self {
                player1: Player::new(player1_name, player1_shape),
                player2: Player::new(player2_name, player2_shape),
                turns,
                ties: 0,
            },
        )
    }

    /// Sets up a game from instructions that are in order.
    pub fn new(instructions: &[String], player1_name: &str, player2_name: &str) -> (game: Self)
        requires
            opening(texts(instructions@)) is Ok,
        ensures
            game.opens_with(
                player1_name@,
                player2_name@,
                opening(texts(instructions@))->Ok_0.0,
                opening(texts(instructions@))->Ok_0.1,
                opening(texts(instructions@))->Ok_0.2,
            ),
    {
        let player1_shape = parse_shape(instructions[0].as_str()).unwrap();
        let player2_shape = parse_shape(instructions[1].as_str()).unwrap();
        Self {
            player1: Player::new(player1_name, player1_shape),
            player2: Player::new(player2_name, player2_shape),
            turns: num_parse(instructions[2].as_str()),
            ties: 0,
        }
    }

    /// Writes the message that reports the outcome.
    pub fn to_string(&self) -> (text: String)
        ensures
            text@ == self.message(),
    {
        let mut text: String;
        if self.player1.score == self.player2.score {
            text = self.player1.name.clone();
            text.append(" and ");
            text.append(self.player2.name.as_str());
            text.append(" tie, each winning ");
            text.append(decimal_text(self.player1.score).as_str());
        } else if self.player1.score > self.player2.score {
            text = self.player1.name.clone();
            text.append(" wins, by winning ");
            text.append(decimal_text(self.player1.score).as_str());
        } else {
            text = self.player2.name.clone();
            text.append(" wins, by winning ");
            text.append(decimal_text(self.player2.score).as_str());
        }
        text.append(" game(s) and tying ");
        text.append(decimal_text(self.ties).as_str());
        text.append(" game(s)");
        text
    }

    /// Takes a shortcut if one applies with `turn_num` turns played: adds the
    /// outcome of all the turns that are left to the counters and returns
    /// `true`. Otherwise changes nothing and returns `false`.
    pub fn in_loop(&mut self, turn_num: u64) -> (settled: bool)
        requires
            turn_num <= old(self).turns,
            shortcut_applies(
                old(self).player1.shape,
                old(self).player2.shape,
                (old(self).turns - turn_num) as nat,
            ) ==> old(self).can_take(
                shortcut_tally(
                    old(self).player1.shape,
                    old(self).player2.shape,
                    (old(self).turns - turn_num) as nat,
                ),
            ),
        ensures
            settled == shortcut_applies(
                old(self).player1.shape,
                old(self).player2.shape,
                (old(self).turns - turn_num) as nat,
            ),
            !settled ==> *final(self) == *old(self),
            settled ==> final(self).follows(
                old(self),
                (old(self).player1.shape, old(self).player2.shape),
                shortcut_tally(
                    old(self).player1.shape,
                    old(self).player2.shape,
                    (old(self).turns - turn_num) as nat,
                ),
            ),
            settled ==> final(self).turns_counted() == old(self).turns_counted() + old(self).turns
                - turn_num,
    {
        let turns_left: u64 = self.turns - turn_num;
        match (self.player1.shape, self.player2.shape) {
            (Shape::Lizard, Shape::Spock) | (Shape::Lizard, Shape::Paper) => {
                self.player1.score = self.player1.score + turns_left;
                true
            },
            (Shape::Paper, Shape::Paper)
            | (Shape::Paper, Shape::Spock)
            | (Shape::Scissors, Shape::Spock)
            | (Shape::Lizard, Shape::Rock) => {
                if turns_left % 4 == 0 {
                    self.player1.score = self.player1.score + turns_left / 4;
                    self.player2.score = self.player2.score + turns_left / 2;
                    self.ties = self.ties + turns_left / 4;
                    true
                } else {
                    false
                }
            },
            _ => false,
        }
    }

    /// Plays one turn by the rules, with no shortcut. On a tie the first
    /// player moves to the successor of the shape in hand; after a loss, to
    /// the successor of the shape that won. The second player moves to Spock,
    /// or from Spock to Lizard after a tie, to Paper after a loss and to Rock
    /// after a win.
    pub fn play_turn(&mut self)
        requires
            old(self).can_take(turn_tally(old(self).player1.shape, old(self).player2.shape)),
        ensures
            final(self).follows(
                old(self),
                next_shapes(old(self).player1.shape, old(self).player2.shape),
                turn_tally(old(self).player1.shape, old(self).player2.shape),
            ),
            final(self).turns_counted() == old(self).turns_counted() + 1,
    {
        if self.player1.shape == self.player2.shape {
            self.ties = self.ties + 1;
            self.player1.shape = self.player1.shape.get_winner_shape();
            if self.player2.shape == Shape::Spock {
                self.player2.shape = Shape::Lizard;
            } else {
                self.player2.shape = Shape::Spock;
            }
        } else if self.player1.shape.beats(&self.player2.shape) {
            self.player1.score = self.player1.score + 1;
            if self.player2.shape == Shape::Spock {
                self.player2.shape = Shape::Paper;
            } else {
                self.player2.shape = Shape::Spock;
            }
        } else {
            self.player2.score = self.player2.score + 1;
            self.player1.shape = self.player2.shape.get_winner_shape();
            if self.player2.shape == Shape::Spock {
                self.player2.shape = Shape::Rock;
            } else {
                self.player2.shape = Shape::Spock;
            }
        }
    }

    /// Plays the match to its end. The counters grow by what `turns` turns
    /// played one by one add to them, so together by `turns`; the shapes are
    /// left at the pair where the engine stopped.
    pub fn run(&mut self)
        requires
            old(self).can_take(
                turn_by_turn(
                    old(self).player1.shape,
                    old(self).player2.shape,
                    old(self).turns as nat,
                ),
            ),
        ensures
            final(self).follows(
                old(self),
                resting_shapes(
                    old(self).player1.shape,
                    old(self).player2.shape,
                    old(self).turns as nat,
                ),
                turn_by_turn(
                    old(self).player1.shape,
                    old(self).player2.shape,
                    old(self).turns as nat,
                ),
            ),
            final(self).turns_counted() == old(self).turns_counted() + old(self).turns,
            final(self).player1.score >= old(self).player1.score,
            final(self).player2.score >= old(self).player2.score,
            final(self).ties >= old(self).ties,
    {
        proof {
            lemma_every_turn_is_counted(
                self.player1.shape,
                self.player2.shape,
                self.turns as nat,
            );
        }
        let mut turn_num: u64 = 0;
        while turn_num < self.turns
            invariant
                turn_num <= self.turns,
                self.turns == old(self).turns,
                self.player1.name == old(self).player1.name,
                self.player2.name == old(self).player2.name,
                old(self).can_take(
                    turn_by_turn(
                        old(self).player1.shape,
                        old(self).player2.shape,
                        old(self).turns as nat,
                    ),
                ),
                resting_shapes(
                    self.player1.shape,
                    self.player2.shape,
                    (self.turns - turn_num) as nat,
                ) == resting_shapes(
                    old(self).player1.shape,
                    old(self).player2.shape,
                    old(self).turns as nat,
                ),
                ({
                    let rest = turn_by_turn(
                        self.player1.shape,
                        self.player2.shape,
                        (self.turns - turn_num) as nat,
                    );
                    let total = turn_by_turn(
                        old(self).player1.shape,
                        old(self).player2.shape,
                        old(self).turns as nat,
                    );
                    &&& self.player1.score + rest.wins1 == old(self).player1.score + total.wins1
                    &&& self.player2.score + rest.wins2 == old(self).player2.score + total.wins2
                    &&& self.ties + rest.ties == old(self).ties + total.ties
                    &&& total.wins1 + total.wins2 + total.ties == self.turns
                }),
            decreases self.turns - turn_num,
        {
            proof {
                lemma_shortcut_or_step(
                    self.player1.shape,
                    self.player2.shape,
                    (self.turns - turn_num) as nat,
                );
            }
            if self.in_loop(turn_num) {
                return ;
            }
            self.play_turn();
            turn_num = turn_num + 1;
        }
    }
}

/// Splits `game_line` at its spaces and adds the fields, in their order, to
/// the end of `game_instructions`.
pub fn parse_game_line(game_line: &str, game_instructions: &mut Vec<String>)
    ensures
        final(game_instructions)@.len() == old(game_instructions)@.len() + fields(game_line@).len(),
        final(game_instructions)@.subrange(0, old(game_instructions)@.len() as int) == old(
            game_instructions,
        )@,
        texts(
            final(game_instructions)@.subrange(
                old(game_instructions)@.len() as int,
                final(game_instructions)@.len() as int,
            ),
        ) == fields(game_line@),
{
    let ghost before = game_instructions@;
    let len: usize = game_line.unicode_len();
    let mut start: usize = 0;
    let mut at: usize = 0;
    while at < len
        invariant
            start <= at <= len,
            len == game_line@.len(),
            before == old(game_instructions)@,
            game_instructions@.len() >= before.len(),
            game_instructions@.subrange(0, before.len() as int) == before,
            texts(game_instructions@.subrange(before.len() as int, game_instructions@.len() as int))
                + fields_from(game_line@, start as int, at as int) == fields(game_line@),
        decreases len - at,
    {
        if game_line.get_char(at) == ' ' {
            let ghost earlier = game_instructions@;
            let field = game_line.substring_char(start, at).to_owned();
            game_instructions.push(field);
            proof {
                lemma_texts_push(earlier, before.len() as int, field);
            }
            start = at + 1;
        }
        at = at + 1;
    }
    let ghost earlier = game_instructions@;
    let field = game_line.substring_char(start, len).to_owned();
    game_instructions.push(field);
    proof {
        lemma_texts_push(earlier, before.len() as int, field);
        lemma_texts_len(
            game_instructions@.subrange(before.len() as int, game_instructions@.len() as int),
        );
    }
}

/// `texts` keeps the length of a list.
proof fn lemma_texts_len(strings: Seq<String>)
    ensures
        texts(strings).len() == strings.len(),
{
}

/// The texts of a list's tail with one more string are the texts of the
/// tail and then that string's characters.
proof fn lemma_texts_push(strings: Seq<String>, from: int, last: String)
    requires
        0 <= from <= strings.len(),
    ensures
        texts(strings.push(last).subrange(from, strings.len() as int + 1)) == texts(
            strings.subrange(from, strings.len() as int),
        ) + seq![last@],
{
}

/// Plays the game that `game_line` describes, between two players of the
/// names given, and writes the message that reports its outcome.
pub fn play_game(game_line: &str, player1_name: &str, player2_name: &str) -> (report: Result<
    String,
    GameError,
>)
    ensures
        match game_report(game_line@, player1_name@, player2_name@) {
            Ok(message) => report is Ok && report->Ok_0@ == message,
            Err(error) => report is Err && report->Err_0 == error,
        },
{
    let mut game_instructions: Vec<String> = Vec::new();
    parse_game_line(game_line, &mut game_instructions);
    match Game::try_new(game_instructions.as_slice(), player1_name, player2_name) {
        Ok(mut game) => {
            proof {
                lemma_unplayed_game_can_run(game);
            }
            game.run();
            Ok(game.to_string())
        },
        Err(error) => Err(error),
    }
}

/// A game of no turns ends as it began, with nothing won and nothing tied,
/// and its message reports a tie.
pub proof fn lemma_no_turns_is_a_tie(before: Game, after: Game)
    requires
        before.turns == 0,
        before.player1.score == 0,
        before.player2.score == 0,
        before.ties == 0,
        after.follows(
            &before,
            resting_shapes(before.player1.shape, before.player2.shape, 0),
            turn_by_turn(before.player1.shape, before.player2.shape, 0),
        ),
    ensures
        after == before,
        after.message() == after.player1.name@ + " and "@ + after.player2.name@
            + " tie, each winning "@ + seq!['0'] + " game(s) and tying "@ + seq!['0']
            + " game(s)"@,
{
}

/// What `fields_from` yields is never empty, holds no space beyond those
/// between `start` and `at`, and joins to the line from `start` on.
proof fn lemma_fields_from(line: Seq<char>, start: int, at: int)
    requires
        0 <= start <= at <= line.len(),
        forall|i: int| start <= i < at ==> line[i] != ' ',
    ensures
        fields_from(line, start, at).len() >= 1,
        joined(fields_from(line, start, at)) == line.subrange(start, line.len() as int),
        forall|k: int, j: int|
            0 <= k < fields_from(line, start, at).len() && 0 <= j < fields_from(
                line,
                start,
                at,
            )[k].len() ==> (#[trigger] fields_from(line, start, at)[k][j]) != ' ',
    decreases line.len() - at,
{
    let all = fields_from(line, start, at);
    if at >= line.len() {
    } else if line[at] == ' ' {
        lemma_fields_from(line, at + 1, at + 1);
        assert(all.skip(1) =~= fields_from(line, at + 1, at + 1));
    } else {
        lemma_fields_from(line, start, at + 1);
    }
}

/// The fields of a line are what lies between its spaces: there is at least
/// one, none holds a space, and joined by single spaces they give the line
/// again.
pub proof fn lemma_fields_split_at_spaces(line: Seq<char>)
    ensures
        fields(line).len() >= 1,
        joined(fields(line)) == line,
        forall|k: int, j: int|
            0 <= k < fields(line).len() && 0 <= j < fields(line)[k].len() ==> (
            #[trigger] fields(line)[k][j]) != ' ',
{
    lemma_fields_from(line, 0, 0);
}

/// A game whose counters are at zero can be played to its end, whatever its
/// shapes and however many its turns: no counter grows beyond the number of
/// turns.
pub proof fn lemma_unplayed_game_can_run(game: Game)
    requires
        game.turns_counted() == 0,
    ensures
        game.can_take(turn_by_turn(game.player1.shape, game.player2.shape, game.turns as nat)),
{
    lemma_every_turn_is_counted(game.player1.shape, game.player2.shape, game.turns as nat);
}

/// A match that starts with nothing won and nothing tied ends with every
/// turn counted: the two scores and the ties add up to the number of turns.
pub proof fn lemma_completed_match_counts_every_turn(before: Game, after: Game)
    requires
        before.player1.score == 0,
        before.player2.score == 0,
        before.ties == 0,
        after.follows(
            &before,
            resting_shapes(before.player1.shape, before.player2.shape, before.turns as nat),
            turn_by_turn(before.player1.shape, before.player2.shape, before.turns as nat),
        ),
    ensures
        after.turns_counted() == after.turns,
{
    lemma_every_turn_is_counted(before.player1.shape, before.player2.shape, before.turns as nat);
}

} // verus!
