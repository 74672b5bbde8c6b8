use flop_texture::suit::Suit;

#[test]
fn test_suit_try_from() {
        assert_eq!(Suit::try_from('h').unwrap(), Suit::Heart);
        assert_eq!(Suit::try_from('c').unwrap(), Suit::Club);
        assert_eq!(Suit::try_from('d').unwrap(), Suit::Diamond);
        assert_eq!(Suit::try_from('s').unwrap(), Suit::Spade);
}
