use rand::rngs::StdRng;
use rand::SeedableRng;
use server::deck::Deck;
use server::domain::{Camp, Card, Color, Role};
use server::player::Player;

fn player_with(buildings: &[Card]) -> Player {
    let mut p = Player::new(uuid::Uuid::nil(), "p".to_string(), Camp::Chu);
    p.set_gold(100);
    for &c in buildings {
        p.add_card(c);
        p.build(c);
    }
    p
}

#[test]
fn a_new_player_is_empty() {
    let p = Player::new_han(uuid::Uuid::nil(), "han".to_string());
    assert_eq!(p.camp(), Camp::Han);
    assert_eq!(p.get_name(), "han");
    assert_eq!(p.gold(), 0);
    assert_eq!(p.cards_len(), 0);
    assert_eq!(p.buildings_len(), 0);
    assert_eq!(p.role_option(), None);
    assert_eq!(p.score(), 0);
}

#[test]
fn building_pays_the_fee_and_moves_the_card() {
    let mut p = Player::new_chu(uuid::Uuid::nil(), "chu".to_string());
    p.set_gold(5);
    p.add_card(Card::Castle);
    p.add_card(Card::Tavern);
    p.build(Card::Castle);
    assert_eq!(p.gold(), 1);
    assert_eq!(p.cards(), &vec![Card::Tavern]);
    assert_eq!(p.buildings(), &vec![Card::Castle]);
    assert!(p.has_building(Card::Castle));
    assert_eq!(p.building_cnt(Color::Yellow), 1);
    assert_eq!(p.score(), 4);
}

#[test]
fn score_counts_colours_and_complete_cities() {
    let five = player_with(&[Card::Tavern, Card::Manor, Card::Temple, Card::Watchtower, Card::Keep]);
    assert!(five.has_all_colors());
    assert_eq!(five.extra_score(), 3);
    assert_eq!(five.score(), 1 + 3 + 1 + 1 + 3 + 3);
    let mut eight = player_with(&[
        Card::Tavern, Card::Market, Card::Docks, Card::Harbor, Card::TownHall, Card::Manor, Card::Castle, Card::Palace,
    ]);
    assert_eq!(eight.extra_score(), 2);
    eight.set_is_first_8_buildings();
    assert!(eight.is_first_8_buildings());
    assert_eq!(eight.extra_score(), 4);
    assert_eq!(eight.score(), 1 + 2 + 3 + 4 + 5 + 3 + 4 + 5 + 4);
    let wonders = player_with(&[Card::DragonGate, Card::University]);
    assert_eq!(wonders.score(), 16);
}

#[test]
fn destroy_fees_follow_the_rules() {
    let mut p = player_with(&[Card::Castle, Card::Keep]);
    assert_eq!(p.building_destroy_fee(Card::Castle), Some(3));
    assert_eq!(p.building_destroy_fee(Card::Keep), None);
    p.set_role(Role::Bishop);
    assert_eq!(p.building_destroy_fee(Card::Castle), None);
    p.unset_role();
    p.set_role(Role::Warlord);
    assert_eq!(p.building_destroy_fee(Card::Castle), None);
    p.unset_role();
    let walled = player_with(&[Card::Castle, Card::GreatWall]);
    assert_eq!(walled.building_destroy_fee(Card::Castle), Some(4));
    assert_eq!(walled.building_destroy_fee(Card::GreatWall), Some(6));
    let full = player_with(&[
        Card::Tavern, Card::Market, Card::Docks, Card::Harbor, Card::TownHall, Card::Manor, Card::Castle, Card::Palace,
    ]);
    assert_eq!(full.building_destroy_fee(Card::Castle), None);
    p.remove_building(Card::Castle);
    assert_eq!(p.buildings(), &vec![Card::Keep]);
}

#[test]
fn hands_are_searched_card_by_card() {
    let mut p = Player::new_chu(uuid::Uuid::nil(), "chu".to_string());
    p.add_card(Card::Tavern);
    p.add_card(Card::Market);
    p.add_card(Card::Tavern);
    assert!(p.has_cards(&vec![Card::Tavern, Card::Tavern]));
    assert!(!p.has_cards(&vec![Card::Tavern, Card::Tavern, Card::Tavern]));
    assert!(!p.has_cards(&vec![Card::Keep]));
    assert!(p.remove_first_card(Card::Tavern));
    assert_eq!(p.cards(), &vec![Card::Market, Card::Tavern]);
    assert!(!p.remove_first_card(Card::Keep));
    let mut deck = Deck::new(StdRng::seed_from_u64(9));
    let removed = p.remove_cards(vec![Card::Tavern], &mut deck);
    assert_eq!(removed, vec![Card::Tavern]);
    assert_eq!(deck.peek_drop(), &[Card::Tavern]);
    let drawn = p.draw_card(2, &mut deck);
    assert_eq!(drawn.len(), 2);
    assert_eq!(p.cards_len(), 3);
    assert_eq!(deck.peek_deck().len(), 64);
}

#[test]
fn choosing_keeps_one_and_discards_the_rest() {
    let mut p = Player::new_chu(uuid::Uuid::nil(), "chu".to_string());
    let mut deck = Deck::new(StdRng::seed_from_u64(9));
    let dropped = p.choose_from_2(Card::Keep, Card::Tavern, Card::Tavern, &mut deck);
    assert_eq!(dropped, Card::Keep);
    let (d0, d1) = p.choose_from_3(Card::Keep, Card::Tavern, Card::Market, Card::Tavern, &mut deck);
    assert_eq!((d0, d1), (Card::Keep, Card::Market));
    assert_eq!(p.cards(), &vec![Card::Tavern, Card::Tavern]);
    assert_eq!(deck.peek_drop(), &[Card::Keep, Card::Keep, Card::Market]);
}

#[test]
fn hand_and_city_can_be_walked_and_changed() {
    let mut p = player_with(&[Card::Castle, Card::Temple]);
    assert_eq!(p.iter_buildings().copied().collect::<Vec<_>>(), vec![Card::Castle, Card::Temple]);
    p.cards_mut().push(Card::Keep);
    assert_eq!(p.cards(), &vec![Card::Keep]);
    let old = p.replace_cards(vec![Card::Tavern, Card::Market]);
    assert_eq!(old, vec![Card::Keep]);
    assert_eq!(p.card_at(1), Card::Market);
    p.add_option_card(None);
    p.add_option_card(Some(Card::Docks));
    assert_eq!(p.cards_len(), 3);
    p.add_gold(3);
    p.sub_gold(1);
    assert_eq!(p.gold(), 100 - 4 - 1 + 3 - 1);
}
