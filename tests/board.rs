use flop_texture::board::Board;
use flop_texture::card::Card;
use flop_texture::rank::{Rank, RankHeight};
use flop_texture::suit::Suit;

#[test]
fn test_board_try_from() {
        let board = Board::try_from("3cAh7d").unwrap();

        assert_eq!(
            board.cards,
            vec![
                Card::try_from("3c").unwrap(),
                Card::try_from("7d").unwrap(),
                Card::try_from("Ah").unwrap(),
            ]
        );

        let card1 = board.cards.iter().nth(0).unwrap();
        let card2 = board.cards.iter().nth(1).unwrap();
        let card3 = board.cards.iter().nth(2).unwrap();

        assert_eq!(card1.rank, Rank::_3);
        assert_eq!(card1.suit, Suit::Club);

        assert_eq!(card2.rank, Rank::_7);
        assert_eq!(card2.suit, Suit::Diamond);

        assert_eq!(card3.rank, Rank::A);
        assert_eq!(card3.suit, Suit::Heart);
}

#[test]
fn mod_test_num_rank_height() {
        let board = Board::try_from("7h4c7s").unwrap();
        assert_eq!(board.num_rank_height(&RankHeight::Broadway), 0);
        assert_eq!(board.num_rank_height(&RankHeight::Middling), 2);
        assert_eq!(board.num_rank_height(&RankHeight::Low), 1);

        let board = Board::try_from("AhKhTs").unwrap();
        assert_eq!(board.num_rank_height(&RankHeight::Broadway), 3);
        assert_eq!(board.num_rank_height(&RankHeight::Middling), 0);
        assert_eq!(board.num_rank_height(&RankHeight::Low), 0);

        let board = Board::try_from("3d8cJh").unwrap();
        assert_eq!(board.num_rank_height(&RankHeight::Broadway), 1);
        assert_eq!(board.num_rank_height(&RankHeight::Middling), 1);
        assert_eq!(board.num_rank_height(&RankHeight::Low), 1);

        let board = Board::try_from("JhTh2h").unwrap();
        assert_eq!(board.num_rank_height(&RankHeight::Broadway), 2);
        assert_eq!(board.num_rank_height(&RankHeight::Middling), 0);
        assert_eq!(board.num_rank_height(&RankHeight::Low), 1);
}

#[test]
fn test_board_from() {
        let board = Board::try_from("3cAh7d").unwrap();

        assert_eq!(
            board.cards,
            vec![
                Card::try_from("3c").unwrap(),
                Card::try_from("7d").unwrap(),
                Card::try_from("Ah").unwrap(),
            ]
        );
}

