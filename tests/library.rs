use deckofcards::cards::shuffle_with;
use deckofcards::{
    cards_of_rank, cards_of_suit, Card, CardError, Cards, Color, Deck, Decky, DisplayCard, Hand,
    Handy, Joker, Rank, SortCards, Suit,
};
use std::cmp::Ordering;
use std::collections::HashSet;

fn card(code: &str) -> Card {
    Card::from_str(code).unwrap()
}

#[test]
fn every_card_code_round_trips() {
    for c in Card::all_cards() {
        let code = c.to_str();
        assert_eq!(code.len(), 2);
        assert_eq!(Card::from_str(&code).unwrap(), c);
    }
}

#[test]
fn standard_deck_order_and_ordinals() {
    let cards = Card::all_cards();
    assert_eq!(cards.len(), 52);
    assert_eq!(cards[0], Card::new(Rank::Two, Suit::Spades));
    assert_eq!(cards[12], Card::new(Rank::Ace, Suit::Spades));
    assert_eq!(cards[13], Card::new(Rank::Two, Suit::Hearts));
    assert_eq!(cards[51], Card::new(Rank::Ace, Suit::Clubs));
    let mut seen: HashSet<usize> = HashSet::new();
    for (i, c) in cards.iter().enumerate() {
        assert_eq!(c.ordinal(), i);
        seen.insert(c.ordinal());
    }
    assert_eq!(seen.len(), 52);
    assert_eq!(Card::iterator(), cards);
}

#[test]
fn card_codes_in_any_case_and_order() {
    assert_eq!(card("as"), Card::new(Rank::Ace, Suit::Spades));
    assert_eq!(card("sa"), Card::new(Rank::Ace, Suit::Spades));
    assert_eq!(card("qh"), Card::new(Rank::Queen, Suit::Hearts));
    assert_eq!(Card::from_str("XX"), Err(CardError::InvalidFormat));
    assert_eq!(Card::from_str("ASD"), Err(CardError::InvalidFormat));
}

#[test]
fn card_name_and_suit_tests() {
    let c = Card::new(Rank::Ace, Suit::Spades);
    assert_eq!(c.name(), "Ace of Spades");
    assert_eq!(Card::new(Rank::Ten, Suit::Diamonds).name(), "Ten of Diamonds");
    assert!(c.is_spades());
    assert!(!c.is_hearts());
    assert!(card("2H").is_hearts());
    assert!(card("2C").is_clubs());
    assert!(card("2D").is_diamonds());
    assert_eq!(Suit::Hearts.to_color(), Color::Red);
    assert_eq!(Suit::Clubs.to_color(), Color::Black);
    assert_eq!(Suit::Spades.to_unicode(), '\u{2660}');
}

#[test]
fn card_comparators() {
    let ah = card("AH");
    let ad = card("AD");
    let tc = card("TC");
    assert_eq!(ah.cmp_rank(&ad), Ordering::Equal);
    assert_eq!(ah.cmp_rank_then_suit(&ad), Ordering::Less);
    assert_eq!(tc.cmp_rank_then_suit(&ah), Ordering::Less);
    assert_eq!(tc.cmp_desc_rank_then_suit(&ah), Ordering::Greater);
    assert_eq!(ah.cmp_desc_rank_then_suit(&ad), Ordering::Less);
    assert_eq!(tc.cmp_suit_then_rank(&ah), Ordering::Greater);
    assert_eq!(card("2C").cmp_suit_then_rank(&tc), Ordering::Less);
    assert_eq!(card("2C").cmp_suit_then_desc_rank(&tc), Ordering::Greater);
    assert_eq!(ah.cmp_suit_then_desc_rank(&ah), Ordering::Equal);
}

#[test]
fn new_deck_counts() {
    let d = Deck::new();
    assert_eq!(d.count(), 52);
    assert_eq!(d.undealt_count(), 52);
    assert_eq!(d.dealt_count(), 0);
    assert_eq!(d.top_card(), Some(card("AC")));
    assert_eq!(d.bottom_card(), Some(card("2S")));
}

#[test]
fn deal_one_moves_one_card() {
    let mut d = Deck::new();
    assert_eq!(d.deal_one(), Ok(card("AC")));
    assert_eq!(d.dealt_count(), 1);
    assert_eq!(d.undealt_count(), 51);
    assert_eq!(d.count(), 52);
    assert_eq!(d.dealt_cards(), &[card("AC")]);
}

#[test]
fn fifty_third_deal_is_empty_deck() {
    let mut d = Deck::new();
    for _ in 0..52 {
        assert!(d.deal_one().is_ok());
    }
    assert_eq!(d.undealt_count(), 0);
    assert_eq!(d.deal_one(), Err(CardError::EmptyDeck));
    assert_eq!(d.top_card(), None);
    assert_eq!(d.bottom_card(), None);
    assert_eq!(d.deal(5).len(), 0);
}

#[test]
fn reset_reproduces_deal_sequence() {
    let mut d = Deck::new();
    let first = d.deal(52);
    assert_eq!(d.undealt_count(), 0);
    d.reset();
    assert_eq!(d.undealt_count(), 52);
    assert_eq!(d.dealt_count(), 0);
    let second = d.deal(52);
    assert_eq!(first, second);
    d.reset();
    assert_eq!(d.cards(), Card::all_cards().as_slice());
}

#[test]
fn empty_deck_push_and_deal_to_hand() {
    let mut d: Deck<Card> = Deck::empty();
    assert_eq!(d.count(), 0);
    d.push(&[card("2S"), card("3S"), card("4S")]);
    assert_eq!(d.undealt_count(), 3);
    let mut h = Hand::new();
    assert_eq!(d.deal_to_hand(&mut h, 5), 3);
    assert_eq!(h.cards(), &[card("4S"), card("3S"), card("2S")]);
    assert_eq!(d.dealt_count(), 3);
}

#[test]
fn shuffle_keeps_the_same_cards() {
    let cards = [card("AH"), card("2C"), card("3D"), card("4S"), card("5H"), card("6C")];
    let mut d = Deck::from_cards(&cards);
    d.shuffle();
    let mut set: HashSet<Card> = HashSet::new();
    while let Ok(c) = d.deal_one() {
        set.insert(c);
    }
    let expected: HashSet<Card> = cards.iter().cloned().collect();
    assert_eq!(set, expected);
}

#[test]
fn reset_shuffle_gathers_all_cards() {
    let mut d = Deck::new();
    let _ = d.deal(20);
    d.reset_shuffle();
    assert_eq!(d.dealt_count(), 0);
    let mut h = Hand::from_cards(d.cards());
    h.sort_suit_ascending_rank();
    assert_eq!(h.cards(), Card::all_cards().as_slice());
}

#[test]
fn knuth_shuffle_with_fixed_picks() {
    let mut v = vec![card("2S"), card("3S"), card("4S")];
    shuffle_with(&mut v, &[0, 0, 0]);
    assert_eq!(v, vec![card("3S"), card("4S"), card("2S")]);
    let mut w = vec![card("2S"), card("3S"), card("4S")];
    shuffle_with(&mut w, &[0, 1, 2]);
    assert_eq!(w, vec![card("2S"), card("3S"), card("4S")]);
}

#[test]
fn sort_hand_descending_rank() {
    let mut h = Hand::from_strings(&["TC", "2C", "AH"]).unwrap();
    h.sort_descending_rank_suit();
    assert_eq!(h.cards(), &[card("AH"), card("TC"), card("2C")]);
}

#[test]
fn sort_hand_other_orders() {
    let mut h = Hand::from_strings(&["TC", "2C", "AH", "AS"]).unwrap();
    h.sort_ascending_rank_suit();
    assert_eq!(h.cards(), &[card("2C"), card("TC"), card("AS"), card("AH")]);
    h.sort_suit_descending_rank();
    assert_eq!(h.cards(), &[card("AS"), card("AH"), card("TC"), card("2C")]);
    h.sort_suit_ascending_rank();
    assert_eq!(h.cards(), &[card("AS"), card("AH"), card("2C"), card("TC")]);
}

#[test]
fn remove_card_variants() {
    let mut h = Hand::from_strings(&["QD", "KS", "3C", "KS"]).unwrap();
    assert!(h.remove_card(&card("KS")));
    assert_eq!(h.cards(), &[card("QD"), card("3C"), card("KS")]);
    let mut h = Hand::from_strings(&["QD", "KS", "3C", "KS"]).unwrap();
    h.remove_all_cards(&[card("KS")]);
    assert_eq!(h.cards(), &[card("QD"), card("3C")]);
    let mut h = Hand::from_strings(&["QD", "KS", "3C", "KS"]).unwrap();
    h.remove_cards(&[card("KS"), card("KS"), card("AS")]);
    assert_eq!(h.cards(), &[card("QD"), card("3C")]);
}

#[test]
fn remove_by_index() {
    let mut h = Hand::from_strings(&["QD", "KS", "3C"]).unwrap();
    assert_eq!(h.remove(1), Ok(card("KS")));
    assert_eq!(h.cards(), &[card("QD"), card("3C")]);
    assert_eq!(h.remove(2), Err(CardError::IndexOutOfRange));
    assert_eq!(h.len(), 2);
    h.clear();
    assert_eq!(h.len(), 0);
}

#[test]
fn combine_three_hands() {
    let h1 = Hand::from_strings(&["QD", "KS", "3C"]).unwrap();
    let h2 = Hand::from_strings(&["4H", "JD", "3C"]).unwrap();
    let h3 = Hand::from_strings(&["AS"]).unwrap();
    let mut hr = Hand::from_hand(&h1);
    hr.push_hand(&h2);
    hr.push_cards(h3.cards());
    let expected = Hand::from_strings(&["QD", "KS", "3C", "4H", "JD", "3C", "AS"]).unwrap();
    assert_eq!(hr.len(), 7);
    assert_eq!(hr.cards(), expected.cards());
}

#[test]
fn hand_from_bad_codes() {
    assert!(matches!(
        Hand::from_strings(&["QD", "ZZ"]),
        Err(CardError::InvalidFormat)
    ));
    assert_eq!(Hand::from_strings(&[]).unwrap().len(), 0);
}

#[test]
fn clone_after_partial_deal() {
    let mut d = Deck::new();
    let _ = d.deal(7);
    let d2 = d.clone();
    assert_eq!(d2.undealt_count(), d.undealt_count());
    assert_eq!(d2.dealt_count(), d.dealt_count());
    assert_eq!(d2.dealt_count(), 7);
}

#[test]
fn filters_by_rank_and_suit() {
    let cards = [card("TC"), card("2C"), card("AS"), card("AD")];
    assert_eq!(cards_of_rank(&cards, Rank::Ace), vec![card("AS"), card("AD")]);
    assert_eq!(cards_of_suit(&cards, Suit::Clubs), vec![card("TC"), card("2C")]);
    assert_eq!(cards_of_suit(&cards, Suit::Hearts), vec![]);
}

#[test]
fn rank_and_suit_codes() {
    assert_eq!(Rank::from_char('1'), Ok(Rank::Ace));
    assert_eq!(Rank::from_char('t'), Ok(Rank::Ten));
    assert_eq!(Suit::from_char('d'), Ok(Suit::Diamonds));
    assert_eq!(Rank::Queen.ordinal(), 10);
    assert_eq!(Suit::Clubs.ordinal(), 3);
    assert_eq!(Rank::Ten.code_str(), "T");
    assert_eq!(Suit::Hearts.code_str(), "H");
}

#[test]
fn joker_codes() {
    assert_eq!(Joker::from_str("BJK"), Ok(Joker { color: Color::Black }));
    assert_eq!(Joker::from_str("rjk"), Ok(Joker { color: Color::Red }));
    assert_eq!(Joker::from_str("JK"), Ok(Joker::default()));
    assert_eq!(Joker::from_str("XJK"), Err(CardError::InvalidFormat));
    assert_eq!(Joker::from_str(""), Err(CardError::InvalidFormat));
    assert_eq!(Joker::default().to_str(), "JK");
    assert_eq!(Joker::default().name(), "Joker");
}

#[test]
fn hand_codes_and_add_assign() {
    let mut h = Hand::new();
    assert_eq!(h.to_str(), "");
    h += card("AS");
    h += card("KD");
    assert_eq!(h.to_str(), "AS,KD");
    let other = Hand::from_strings(&["2C"]).unwrap();
    h += &other;
    assert_eq!(h.to_str(), "AS,KD,2C");
    assert_eq!(h.len(), 3);
}
