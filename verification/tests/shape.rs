use rpsls::shape::{parse_shape, Shape};

const ALL: [Shape; 5] = [Shape::Rock, Shape::Paper, Shape::Scissors, Shape::Lizard, Shape::Spock];

#[test]
fn shape_shape_comparison() {
    assert!(Shape::Rock.beats(&Shape::Scissors));
    assert!(Shape::Paper.beats(&Shape::Spock));
    assert!(!Shape::Paper.beats(&Shape::Scissors));
    assert_eq!(Shape::Spock, Shape::Spock);
}

#[test]
fn tests_shape_comparison() {
    assert!(Shape::Rock.beats(&Shape::Scissors));
    assert!(Shape::Paper.beats(&Shape::Spock));
    assert!(!Shape::Paper.beats(&Shape::Scissors));
    assert_eq!(Shape::Spock, Shape::Spock);
}

#[test]
fn dominance_table_is_the_documented_one() {
    let table = [
        (Shape::Rock, [Shape::Scissors, Shape::Lizard]),
        (Shape::Paper, [Shape::Rock, Shape::Spock]),
        (Shape::Scissors, [Shape::Paper, Shape::Lizard]),
        (Shape::Lizard, [Shape::Paper, Shape::Spock]),
        (Shape::Spock, [Shape::Scissors, Shape::Rock]),
    ];
    for (winner, losers) in table.iter() {
        for other in ALL.iter() {
            assert_eq!(winner.beats(other), losers.contains(other), "{:?} vs {:?}", winner, other);
        }
    }
}

#[test]
fn exactly_one_of_two_different_shapes_wins() {
    for a in ALL.iter() {
        for b in ALL.iter() {
            if a == b {
                assert!(!a.beats(b));
            } else {
                assert_ne!(a.beats(b), b.beats(a), "{:?} vs {:?}", a, b);
            }
        }
    }
}

#[test]
fn every_shape_beats_two_and_loses_to_two() {
    for a in ALL.iter() {
        assert_eq!(ALL.iter().filter(|b| a.beats(b)).count(), 2);
        assert_eq!(ALL.iter().filter(|b| b.beats(a)).count(), 2);
    }
}

#[test]
fn successor_follows_the_cycle() {
    assert_eq!(Shape::Rock.get_winner_shape(), Shape::Paper);
    assert_eq!(Shape::Paper.get_winner_shape(), Shape::Scissors);
    assert_eq!(Shape::Scissors.get_winner_shape(), Shape::Spock);
    assert_eq!(Shape::Spock.get_winner_shape(), Shape::Lizard);
    assert_eq!(Shape::Lizard.get_winner_shape(), Shape::Rock);
}

#[test]
fn successor_is_a_single_cycle_of_five() {
    for start in ALL.iter() {
        let mut seen = vec![*start];
        let mut at = start.get_winner_shape();
        while at != *start {
            assert!(!seen.contains(&at));
            seen.push(at);
            at = at.get_winner_shape();
        }
        assert_eq!(seen.len(), 5);
    }
}

#[test]
fn successor_is_one_to_one() {
    for a in ALL.iter() {
        for b in ALL.iter() {
            if a != b {
                assert_ne!(a.get_winner_shape(), b.get_winner_shape());
            }
        }
    }
}

#[test]
fn parse_shape_reads_the_five_names() {
    assert_eq!(parse_shape("Rock"), Some(Shape::Rock));
    assert_eq!(parse_shape("Paper"), Some(Shape::Paper));
    assert_eq!(parse_shape("Scissors"), Some(Shape::Scissors));
    assert_eq!(parse_shape("Lizard"), Some(Shape::Lizard));
    assert_eq!(parse_shape("Spock"), Some(Shape::Spock));
}

#[test]
fn parse_shape_is_exact_and_case_sensitive() {
    for text in ["", "rock", "ROCK", "Rock ", " Rock", "Roc", "Rocks", "Spoc", "Spöck", "Paper\n", "0"] {
        assert_eq!(parse_shape(text), None, "{:?}", text);
    }
}

#[test]
fn name_text_round_trips_through_parse_shape() {
    for shape in ALL.iter() {
        assert_eq!(parse_shape(shape.name_text()), Some(*shape));
        assert_eq!(shape.name_text(), format!("{:?}", shape));
    }
}
