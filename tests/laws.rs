use flop_texture::board::Board;
use flop_texture::calculation::{board_matches_conditions, Args};
use flop_texture::card::Card;
use flop_texture::rank::Rank;
use flop_texture::situation::{Action, Position, Positions};
use flop_texture::suit::Suit;

const RANK_CODES: [char; 13] = ['2', '3', '4', '5', '6', '7', '8', '9', 'T', 'J', 'Q', 'K', 'A'];
const SUIT_CODES: [char; 4] = ['s', 'c', 'd', 'h'];

fn all_card_texts() -> Vec<String> {
    let mut cards = Vec::new();
    for r in RANK_CODES {
        for s in SUIT_CODES {
            cards.push(format!("{}{}", r, s));
        }
    }
    cards
}

/// Every flop text with three distinct cards, each set of cards once.
fn all_flop_texts() -> Vec<String> {
    let cards = all_card_texts();
    let mut flops = Vec::new();
    for i in 0..cards.len() {
        for j in (i + 1)..cards.len() {
            for k in (j + 1)..cards.len() {
                flops.push(format!("{}{}{}", cards[k], cards[i], cards[j]));
            }
        }
    }
    flops
}

fn empty_filter() -> Args {
    Args {
        positions: Positions { ip: Position::BTN, oop: Position::BB },
        betsizes: Vec::new(),
        heights: Vec::new(),
        suits: Vec::new(),
        connections: Vec::new(),
        pair: Vec::new(),
        actions: vec![Action::Check],
    }
}

#[test]
fn every_flop_is_parsed() {
    let flops = all_flop_texts();
    assert_eq!(flops.len(), 22100);
    for flop in &flops {
        assert!(Board::try_from(flop.as_str()).is_ok(), "{}", flop);
    }
}

#[test]
fn board_text_round_trip() {
    for flop in all_flop_texts() {
        let board = Board::try_from(flop.as_str()).unwrap();
        let text = board.to_string();
        let again = Board::try_from(text.as_str()).unwrap();
        assert_eq!(again.cards, board.cards);
        assert_eq!(again.to_string(), text);
    }
}

#[test]
fn board_text_is_sorted_by_rank() {
    assert_eq!(Board::try_from("8hTs9c").unwrap().to_string(), "8h9cTs");
    assert_eq!(Board::try_from("7h4c7s").unwrap().to_string(), "4c7h7s");
    assert_eq!(Board::try_from("7s4c7h").unwrap().to_string(), "4c7s7h");
    assert_eq!(Board::try_from("AsKhTs").unwrap().to_string(), "TsKhAs");
}

#[test]
fn one_height_one_suit_pattern_one_pairing() {
    for flop in all_flop_texts() {
        let b = Board::try_from(flop.as_str()).unwrap();
        let heights = [b.is_3bw(), b.is_2bw(), b.is_1bw(), b.is_middling(), b.is_low()];
        assert_eq!(heights.iter().filter(|x| **x).count(), 1, "{}", flop);
        let suits = [b.is_rainbow(), b.is_twotone(), b.is_monotone()];
        assert_eq!(suits.iter().filter(|x| **x).count(), 1, "{}", flop);
        let pairs = [b.is_unpaired(), b.is_paired(), b.is_trips()];
        assert_eq!(pairs.iter().filter(|x| **x).count(), 1, "{}", flop);
        assert!(b.is_height(&b.height()));
        assert!(b.is_suit(&b.suit_pattern()));
        assert!(b.is_pair(&b.pairing()));
    }
}

#[test]
fn connectedness_classes_exclude_one_another() {
    let mut unclassified = 0;
    for flop in all_flop_texts() {
        let b = Board::try_from(flop.as_str()).unwrap();
        let classes = [
            b.is_any_straight_possible(),
            b.is_only_oesd_possible(),
            b.is_only_gutshot_possible(),
            b.is_disconnected(),
        ];
        let n = classes.iter().filter(|x| **x).count();
        assert!(n <= 1, "{}", flop);
        if n == 0 {
            unclassified += 1;
            assert!(b.get_highest_card().is_ace(), "{}", flop);
        }
        if b.get_highest_card().is_ace() {
            assert!(!b.is_disconnected(), "{}", flop);
        }
    }
    assert!(unclassified > 0);
}

#[test]
fn ace_high_wide_flop_is_in_no_connectedness_class() {
    let b = Board::try_from("Ac9h4h").unwrap();
    assert!(!b.is_any_straight_possible());
    assert!(!b.is_only_oesd_possible());
    assert!(!b.is_only_gutshot_possible());
    assert!(!b.is_disconnected());
}

#[test]
fn empty_filter_matches_every_board() {
    let args = empty_filter();
    for flop in all_flop_texts() {
        let b = Board::try_from(flop.as_str()).unwrap();
        assert!(board_matches_conditions(&b, &args), "{}", flop);
    }
}

#[test]
fn straight_scenario() {
    let b = Board::try_from("Ts9c8h").unwrap();
    assert!(b.is_any_straight_possible());
    assert!(b.is_normal_straight_possible());
}

#[test]
fn wheel_scenario() {
    let b = Board::try_from("As2c3h").unwrap();
    assert!(b.is_wheel_possible());
    assert!(!b.is_normal_straight_possible());
    assert!(b.is_any_straight_possible());
}

#[test]
fn oesd_scenario() {
    let b = Board::try_from("Ks2c3h").unwrap();
    assert!(b.is_only_oesd_possible());
    assert!(!b.is_any_straight_possible());
}

#[test]
fn disconnected_scenario() {
    let b = Board::try_from("Kh8h2h").unwrap();
    assert!(b.is_disconnected());
    assert_eq!(b.min_distance(), 5);
}

#[test]
fn trips_scenario() {
    let b = Board::try_from("8s8d8c").unwrap();
    assert!(b.is_trips());
    assert!(!b.is_normal_straight_possible());
}

#[test]
fn board_parse_errors() {
    for bad in ["", "AsKs", "AsKsTd ", "AsKsTdQd", "AsKsXd", "AsKsTD", "AsAsTd", "1sKsTd"] {
        let e = Board::try_from(bad).unwrap_err();
        assert_eq!(e.kind, "board");
        assert_eq!(e.input, bad);
    }
}

#[test]
fn card_text_and_parts() {
    let c = Card::try_from("Td").unwrap();
    assert_eq!(c.rank, Rank::T);
    assert_eq!(c.suit, Suit::Diamond);
    assert_eq!(c.to_string(), "Td");
    let e = Card::try_from("Tx").unwrap_err();
    assert_eq!(e.kind, "suit");
    assert_eq!(e.input, "x");
    let e = Card::try_from("1d").unwrap_err();
    assert_eq!(e.kind, "rank");
    assert_eq!(e.input, "1");
    let e = Card::try_from("Tdd").unwrap_err();
    assert_eq!(e.kind, "card");
    assert_eq!(e.message(), "error parsing card from Tdd");
}

#[test]
fn rank_codes_and_heights() {
    for (i, c) in RANK_CODES.iter().enumerate() {
        let r = Rank::try_from(*c).unwrap();
        assert_eq!(r.ordinal(), i as i32);
        assert_eq!(r.to_char(), *c);
    }
    assert_eq!(Rank::A.get_heights().len(), 2);
    assert_eq!(Rank::K.get_heights().len(), 1);
    assert_eq!(Rank::_5.get_heights().len(), 2);
    assert_eq!(Rank::_6.get_heights().len(), 1);
}
