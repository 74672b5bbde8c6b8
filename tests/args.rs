use flop_texture::args::parse_args;
use flop_texture::situation::{Betsize, Position};
use flop_texture::texture::{BoardHeight, BoardPair, BoardSuit, Connection};

#[test]
fn test_args() {
        let args_vec = vec![
            "-po", "BTN", "BB", "-b", "33", "75", "150", "-h", "3BW", "2BW", "-s", "M", "-c", "DC",
            "GS", "OESD", "WH", "-pa", "U",
        ]
        .into_iter()
        .map(|arg| arg.to_string())
        .collect::<Vec<String>>();

        let args = parse_args(&args_vec).unwrap();

        assert_eq!(args.positions.ip, Position::BTN);
        assert_eq!(args.positions.oop, Position::BB);

        assert_eq!(args.betsizes.len(), 3);
        assert!(args.betsizes.contains(&Betsize::Size33));
        assert!(args.betsizes.contains(&Betsize::Size75));
        assert!(args.betsizes.contains(&Betsize::Size150));

        assert_eq!(args.heights.len(), 2);
        assert!(args.heights.contains(&BoardHeight::TripleBW));
        assert!(args.heights.contains(&BoardHeight::DoubleBW));

        assert_eq!(args.suits.len(), 1);
        assert!(args.suits.contains(&BoardSuit::Montone));

        assert_eq!(args.connections.len(), 4);
        assert!(args.connections.contains(&Connection::Disconnected));
        assert!(args.connections.contains(&Connection::Gutshot));
        assert!(args.connections.contains(&Connection::OESD));
        assert!(args.connections.contains(&Connection::Wheel));

        assert_eq!(args.pair.len(), 1);
        assert!(args.pair.contains(&BoardPair::Unpaired));
}
