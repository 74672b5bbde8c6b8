use flop_texture::calculation::{
    build_data_row_with_boards, build_data_rows_with_boards, get_lines, parse_line, Args, CalcError,
};
use flop_texture::fields::{parse_decimal, split_on};
use flop_texture::situation::{Action, Betsize, Position, Positions};
use flop_texture::stats::{build_data_row, StatRow};
use flop_texture::store::{file_matches_actions, is_positions_dir, is_size_dir, text_contains};
use flop_texture::texture::{BoardHeight, BoardPair, BoardSuit, Connection};

fn filter(
    heights: Vec<BoardHeight>,
    suits: Vec<BoardSuit>,
    connections: Vec<Connection>,
    pair: Vec<BoardPair>,
) -> Args {
    Args {
        positions: Positions { ip: Position::BTN, oop: Position::BB },
        betsizes: vec![Betsize::Size33, Betsize::Size75],
        heights,
        suits,
        connections,
        pair,
        actions: vec![Action::Check],
    }
}

fn lines(v: &[&str]) -> Vec<String> {
    v.iter().map(|s| s.to_string()).collect()
}

fn row(eq: u64, ev: u64, bet: u64, check: u64) -> StatRow {
    StatRow {
        size: None,
        eq: eq * 1_000_000,
        ev: ev * 1_000_000,
        bet_freq: bet * 1_000_000,
        check_freq: check * 1_000_000,
    }
}

#[test]
fn decimal_values() {
    assert_eq!(parse_decimal("60.755173"), Some(60_755_173));
    assert_eq!(parse_decimal("5"), Some(5_000_000));
    assert_eq!(parse_decimal("1.5"), Some(1_500_000));
    assert_eq!(parse_decimal("0.000001"), Some(1));
    assert_eq!(parse_decimal("1.12345678"), Some(1_123_456));
    assert_eq!(parse_decimal("999999999.999999"), Some(999_999_999_999_999));
    assert_eq!(parse_decimal("1234567890"), None);
    assert_eq!(parse_decimal("1."), None);
    assert_eq!(parse_decimal(".5"), None);
    assert_eq!(parse_decimal("-1"), None);
    assert_eq!(parse_decimal("1.2.3"), None);
    assert_eq!(parse_decimal("abc"), None);
    assert_eq!(parse_decimal(""), None);
}

#[test]
fn split_pieces() {
    assert_eq!(split_on("a\tb\t\tc", '\t'), vec!["a", "b", "", "c"]);
    assert_eq!(split_on("", '\t'), vec![""]);
    assert_eq!(split_on("\t", '\t'), vec!["", ""]);
}

#[test]
fn data_lines_skip_header_and_blank_lines() {
    let content = "Flop\tEQ\tEV\tBet\tCheck\nAsKsQs\t1\t2\t3\t4\n\n2c3c4c\t5\t6\t7\t8\n";
    assert_eq!(
        get_lines(content),
        vec!["AsKsQs\t1\t2\t3\t4", "2c3c4c\t5\t6\t7\t8"]
    );
    assert_eq!(get_lines(""), Vec::<String>::new());
}

#[test]
fn line_fields() {
    let (b, r) = parse_line("Ts9c8h\t60.5\t30\t20\t70\textra").unwrap();
    assert_eq!(b, "Ts9c8h");
    assert_eq!(r.eq, 60_500_000);
    assert_eq!(r.check_freq, 70_000_000);
    let e = parse_line("Ts9c8h\t60.5\t30\t20").unwrap_err();
    assert_eq!(e.kind, "line");
    let e = parse_line("Ts9c8h\t60.5\tx\t20\t70").unwrap_err();
    assert_eq!(e.kind, "number");
    assert_eq!(e.input, "x");
}

#[test]
fn average_of_two_rows() {
    let avg = build_data_row(&vec![row(60, 30, 20, 70), row(40, 20, 10, 50)]);
    assert_eq!(avg, row(50, 25, 15, 60));
}

#[test]
fn average_of_identical_rows() {
    let x = StatRow { size: None, eq: 12_345_678, ev: 7, bet_freq: 0, check_freq: 99_999_999 };
    for k in 1..20 {
        let rows = vec![x; k];
        assert_eq!(build_data_row(&rows), x);
    }
}

#[test]
fn average_rounds_down() {
    let avg = build_data_row(&vec![
        StatRow { size: None, eq: 1, ev: 2, bet_freq: 3, check_freq: 4 },
        StatRow { size: None, eq: 2, ev: 2, bet_freq: 4, check_freq: 4 },
    ]);
    assert_eq!(avg, StatRow { size: None, eq: 1, ev: 2, bet_freq: 3, check_freq: 4 });
}

#[test]
fn stat_row_add_and_div() {
    let sum = row(60, 30, 20, 70).add(&row(40, 20, 10, 50));
    assert_eq!(sum, row(100, 50, 30, 120));
    assert_eq!(sum.div(2), row(50, 25, 15, 60));
}

#[test]
fn summary_of_two_lines() {
    let ls = lines(&["Ts9c8h\t60\t30\t20\t70", "Kh8h2h\t40\t20\t10\t50"]);
    let args = filter(vec![], vec![], vec![], vec![]);
    let (r, boards) = build_data_row_with_boards(&ls, &args, Betsize::Size50).unwrap();
    assert_eq!(r, StatRow { size: Some(Betsize::Size50), ..row(50, 25, 15, 60) });
    assert_eq!(boards.len(), 2);
    assert_eq!(boards[0].to_string(), "8h9cTs");
    assert_eq!(boards[1].to_string(), "2h8hKh");
}

#[test]
fn summary_keeps_only_matching_boards() {
    let ls = lines(&[
        "Ts9c8h\t60\t30\t20\t70",
        "Kh8h2h\t40\t20\t10\t50",
        "Ks2c3h\t10\t10\t10\t10",
    ]);
    let args = filter(vec![], vec![BoardSuit::Montone], vec![], vec![]);
    let (r, boards) = build_data_row_with_boards(&ls, &args, Betsize::Size33).unwrap();
    assert_eq!(r, StatRow { size: Some(Betsize::Size33), ..row(40, 20, 10, 50) });
    assert_eq!(boards.len(), 1);

    let args = filter(vec![], vec![], vec![Connection::AnyStraight, Connection::OESD], vec![]);
    let (r, boards) = build_data_row_with_boards(&ls, &args, Betsize::Size33).unwrap();
    assert_eq!(r, StatRow { size: Some(Betsize::Size33), ..row(35, 20, 15, 40) });
    assert_eq!(boards.len(), 2);
}

#[test]
fn summary_of_identical_rows() {
    let ls = lines(&["Ts9c8h\t61.25\t3\t20\t70", "Kh8h2h\t61.25\t3\t20\t70", "Ks2c3h\t61.25\t3\t20\t70"]);
    let args = filter(vec![], vec![], vec![], vec![]);
    let (r, _) = build_data_row_with_boards(&ls, &args, Betsize::Size75).unwrap();
    assert_eq!(r.eq, 61_250_000);
    assert_eq!(r.ev, 3_000_000);
    assert_eq!(r.bet_freq, 20_000_000);
    assert_eq!(r.check_freq, 70_000_000);
}

#[test]
fn duplicate_board_text() {
    let ls = lines(&["Ts9c8h\t60\t30\t20\t70", "Kh8h2h\t40\t20\t10\t50", "Ts9c8h\t1\t1\t1\t1"]);
    let args = filter(vec![], vec![], vec![], vec![]);
    match build_data_row_with_boards(&ls, &args, Betsize::Size33) {
        Err(CalcError::DuplicateBoard(b)) => assert_eq!(b, "Ts9c8h"),
        other => panic!("{:?}", other),
    }
}

#[test]
fn invalid_board_text() {
    let ls = lines(&["Ts9c8h\t60\t30\t20\t70", "Kh8h8h\t40\t20\t10\t50"]);
    let args = filter(vec![], vec![], vec![], vec![]);
    assert!(matches!(
        build_data_row_with_boards(&ls, &args, Betsize::Size33),
        Err(CalcError::InvalidBoard(_))
    ));
}

#[test]
fn malformed_line() {
    let ls = lines(&["Ts9c8h\t60\t30\t20\t70", "Kh8h2h\t40\t20\t10"]);
    let args = filter(vec![], vec![], vec![], vec![]);
    assert!(matches!(
        build_data_row_with_boards(&ls, &args, Betsize::Size33),
        Err(CalcError::Parse(_))
    ));
}

#[test]
fn no_matching_boards() {
    let ls = lines(&["Ts9c8h\t60\t30\t20\t70", "Kh8h2h\t40\t20\t10\t50"]);
    let args = filter(vec![], vec![], vec![], vec![BoardPair::Trips]);
    assert!(matches!(
        build_data_row_with_boards(&ls, &args, Betsize::Size33),
        Err(CalcError::NoMatchingBoards)
    ));
    let empty: Vec<String> = Vec::new();
    assert!(matches!(
        build_data_row_with_boards(&empty, &args, Betsize::Size33),
        Err(CalcError::NoMatchingBoards)
    ));
}

#[test]
fn all_sizes_over_the_same_boards() {
    let args = filter(vec![], vec![], vec![], vec![]);
    let small = lines(&["Ts9c8h\t60\t30\t20\t70", "Kh8h2h\t40\t20\t10\t50"]);
    let large = lines(&["Kh8h2h\t30\t10\t30\t50", "9cTs8h\t50\t20\t10\t30"]);
    let (rows, boards) = build_data_rows_with_boards(&args, &vec![small, large]).unwrap();
    assert_eq!(rows.len(), 2);
    assert_eq!(rows[0], StatRow { size: Some(Betsize::Size33), ..row(50, 25, 15, 60) });
    assert_eq!(rows[1], StatRow { size: Some(Betsize::Size75), ..row(40, 15, 20, 40) });
    assert_eq!(boards.len(), 2);
}

#[test]
fn sizes_over_different_boards() {
    let args = filter(vec![], vec![], vec![], vec![]);
    let small = lines(&["Ts9c8h\t60\t30\t20\t70", "Kh8h2h\t40\t20\t10\t50"]);
    let large = lines(&["Kh8h2h\t30\t10\t30\t50", "Ks2c3h\t50\t20\t10\t30"]);
    assert!(matches!(
        build_data_rows_with_boards(&args, &vec![small, large]),
        Err(CalcError::SituationMismatch)
    ));
}

#[test]
fn output_layout_names() {
    let positions = Positions { ip: Position::BTN, oop: Position::BB };
    assert!(is_positions_dir("BTN_vs_BB", &positions));
    assert!(!is_positions_dir("CO_vs_BB", &positions));
    assert!(is_size_dir("150", &Betsize::Size150));
    assert!(!is_size_dir("15", &Betsize::Size150));
    assert!(file_matches_actions("flop_check", &vec![Action::Check]));
    assert!(file_matches_actions("x_check_bet", &vec![Action::Check, Action::Bet]));
    assert!(!file_matches_actions("flop_check_bet", &vec![Action::Check]));
    assert!(!file_matches_actions("flop_bet", &vec![Action::Check]));
    assert!(text_contains("abc", ""));
    assert!(text_contains("abc", "bc"));
    assert!(!text_contains("abc", "cb"));
    assert!(!text_contains("ab", "abc"));
}
