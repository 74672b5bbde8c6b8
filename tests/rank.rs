use flop_texture::rank::{Rank, RankHeight};

#[test]
fn rank_test_rank_try_from() {
        assert_eq!(Rank::try_from('2').unwrap(), Rank::_2);
        assert_eq!(Rank::try_from('3').unwrap(), Rank::_3);
        assert_eq!(Rank::try_from('4').unwrap(), Rank::_4);
        assert_eq!(Rank::try_from('5').unwrap(), Rank::_5);
        assert_eq!(Rank::try_from('6').unwrap(), Rank::_6);
        assert_eq!(Rank::try_from('7').unwrap(), Rank::_7);
        assert_eq!(Rank::try_from('8').unwrap(), Rank::_8);
        assert_eq!(Rank::try_from('9').unwrap(), Rank::_9);
        assert_eq!(Rank::try_from('T').unwrap(), Rank::T);
        assert_eq!(Rank::try_from('J').unwrap(), Rank::J);
        assert_eq!(Rank::try_from('Q').unwrap(), Rank::Q);
        assert_eq!(Rank::try_from('K').unwrap(), Rank::K);
        assert_eq!(Rank::try_from('A').unwrap(), Rank::A);
}

#[test]
fn rank_test_rank_is_bw() {
        assert!(Rank::A.is_bw());
        assert!(Rank::K.is_bw());
        assert!(Rank::Q.is_bw());
        assert!(Rank::J.is_bw());
        assert!(Rank::T.is_bw());
        assert!(!Rank::_9.is_bw());
        assert!(!Rank::_8.is_bw());
        assert!(!Rank::_7.is_bw());
        assert!(!Rank::_6.is_bw());
        assert!(!Rank::_5.is_bw());
        assert!(!Rank::_4.is_bw());
        assert!(!Rank::_3.is_bw());
        assert!(!Rank::_2.is_bw());
}

#[test]
fn rank_test_rank_is_middling() {
        assert!(!Rank::A.is_middling());
        assert!(!Rank::K.is_middling());
        assert!(!Rank::Q.is_middling());
        assert!(!Rank::J.is_middling());
        assert!(!Rank::T.is_middling());
        assert!(Rank::_9.is_middling());
        assert!(Rank::_8.is_middling());
        assert!(Rank::_7.is_middling());
        assert!(!Rank::_6.is_middling());
        assert!(!Rank::_5.is_middling());
        assert!(!Rank::_4.is_middling());
        assert!(!Rank::_3.is_middling());
        assert!(!Rank::_2.is_middling());
}

#[test]
fn rank_test_rank_is_low() {
        assert!(!Rank::A.is_low());
        assert!(!Rank::K.is_low());
        assert!(!Rank::Q.is_low());
        assert!(!Rank::J.is_low());
        assert!(!Rank::T.is_low());
        assert!(!Rank::_9.is_low());
        assert!(!Rank::_8.is_low());
        assert!(!Rank::_7.is_low());
        assert!(Rank::_6.is_low());
        assert!(Rank::_5.is_low());
        assert!(Rank::_4.is_low());
        assert!(Rank::_3.is_low());
        assert!(Rank::_2.is_low());
}

#[test]
fn rank_test_is_wheel() {
        assert!(Rank::A.is_wheel());
        assert!(!Rank::K.is_wheel());
        assert!(!Rank::Q.is_wheel());
        assert!(!Rank::J.is_wheel());
        assert!(!Rank::T.is_wheel());
        assert!(!Rank::_9.is_wheel());
        assert!(!Rank::_8.is_wheel());
        assert!(!Rank::_7.is_wheel());
        assert!(!Rank::_6.is_wheel());
        assert!(Rank::_5.is_wheel());
        assert!(Rank::_4.is_wheel());
        assert!(Rank::_3.is_wheel());
        assert!(Rank::_2.is_wheel());
}

#[test]
fn rank_test_is_height() {
        assert!(Rank::A.is_height(&RankHeight::Broadway));
        assert!(!Rank::A.is_height(&RankHeight::Middling));
        assert!(!Rank::A.is_height(&RankHeight::Low));
        assert!(Rank::A.is_height(&RankHeight::Wheel));

        assert!(Rank::K.is_height(&RankHeight::Broadway));
        assert!(!Rank::K.is_height(&RankHeight::Middling));
        assert!(!Rank::K.is_height(&RankHeight::Low));
        assert!(!Rank::K.is_height(&RankHeight::Wheel));

        assert!(!Rank::_8.is_height(&RankHeight::Broadway));
        assert!(Rank::_8.is_height(&RankHeight::Middling));
        assert!(!Rank::_8.is_height(&RankHeight::Low));
        assert!(!Rank::_8.is_height(&RankHeight::Wheel));

        assert!(!Rank::_6.is_height(&RankHeight::Broadway));
        assert!(!Rank::_6.is_height(&RankHeight::Middling));
        assert!(Rank::_6.is_height(&RankHeight::Low));
        assert!(!Rank::_6.is_height(&RankHeight::Wheel));

        assert!(!Rank::_5.is_height(&RankHeight::Broadway));
        assert!(!Rank::_5.is_height(&RankHeight::Middling));
        assert!(Rank::_5.is_height(&RankHeight::Low));
        assert!(Rank::_5.is_height(&RankHeight::Wheel));
}


#[test]
fn rank_test_rank_sub() {
        assert_eq!(Rank::A - Rank::K, 1);
        assert_eq!(Rank::A - Rank::T, 4);
        assert_eq!(Rank::J - Rank::T, 1);
        assert_eq!(Rank::J - Rank::_3, 8);
        assert_eq!(Rank::_8 - Rank::_4, 4);
}
