use rand::rngs::StdRng;
use rand::SeedableRng;
use server::deck::Deck;
use server::domain::{Card, DestroyTarget, MagicianSkill, Oper, PlayerIndex, PlayerOffset, Role};
use server::fa_agents::RandomFAAgent;
use server::game::{Answer, Effect, Game, GameError, Outcome, Request};
use server::player::Player;
use server::player_indexed_vec::PlayerIndexedVec;

fn four_players() -> PlayerIndexedVec<Player> {
    PlayerIndexedVec::from4(
        Player::new_han(uuid::Uuid::nil(), "a".to_string()),
        Player::new_chu(uuid::Uuid::nil(), "b".to_string()),
        Player::new_han(uuid::Uuid::nil(), "c".to_string()),
        Player::new_chu(uuid::Uuid::nil(), "d".to_string()),
    )
}

fn six_players() -> PlayerIndexedVec<Player> {
    PlayerIndexedVec::from6(
        Player::new_han(uuid::Uuid::nil(), "a".to_string()),
        Player::new_chu(uuid::Uuid::nil(), "b".to_string()),
        Player::new_han(uuid::Uuid::nil(), "c".to_string()),
        Player::new_chu(uuid::Uuid::nil(), "d".to_string()),
        Player::new_han(uuid::Uuid::nil(), "e".to_string()),
        Player::new_chu(uuid::Uuid::nil(), "f".to_string()),
    )
}

/// What holds of every state of a game.
fn check_laws(game: &Game, num_players: usize) {
    let mut marked = 0;
    let mut roles = Vec::new();
    for i in 0..num_players {
        let p = game.player_at(PlayerIndex::from_usize(i));
        assert!(p.buildings_len() <= 8);
        let b = p.buildings();
        for x in 0..b.len() {
            for y in 0..x {
                assert_ne!(b[x], b[y]);
            }
        }
        if p.is_first_8_buildings() {
            marked += 1;
            assert_eq!(p.buildings_len(), 8);
        }
        if let Some(r) = p.role_option() {
            assert!(!roles.contains(&r));
            roles.push(r);
        }
    }
    assert!(marked <= 1);
}

/// Plays a whole game with random answers; returns the final scores and
/// the number of rounds played.
fn play(num_players: usize, seed: u64) -> ([u32; 2], u32) {
    let players = if num_players == 4 { four_players() } else { six_players() };
    let mut game = Game::new(num_players, players, StdRng::seed_from_u64(seed));
    let mut agent = RandomFAAgent::new(seed);
    let mut effects = Vec::new();
    let mut req = game.step(Answer::Start, &mut effects).unwrap();
    assert!(!game.check_total_card_number());
    for _ in 0..200_000 {
        let answer = match &req {
            Request::InitCards { choices } => {
                let mut last = Request::Wait;
                for &(actor, c0, c1) in choices.iter() {
                    let obs = game.observation(actor).clone();
                    let chosen = agent.choose_init_card(&obs, c0, c1);
                    last = game.step(Answer::InitCard { actor, chosen }, &mut effects).unwrap();
                }
                assert!(game.check_total_card_number());
                req = last;
                continue;
            },
            Request::Wait => panic!("every setup card was answered"),
            Request::Role { actor, roles } => {
                let obs = game.observation(*actor).clone();
                Answer::Role(agent.choose_role(&obs, *roles))
            },
            Request::KillTarget { actor, choices } => {
                assert!(!choices.contains(Role::Assassin));
                let obs = game.observation(*actor).clone();
                Answer::KillTarget(agent.choose_kill_target(&obs, *choices))
            },
            Request::StealTarget { actor, choices } => {
                assert!(!choices.contains(Role::Thief));
                let obs = game.observation(*actor).clone();
                Answer::StealTarget(agent.choose_steal_target(&obs, *choices))
            },
            Request::MagicTarget { actor } => {
                let obs = game.observation(*actor).clone();
                assert_eq!(obs.actor_num_cards(), game.player_at(*actor).cards_len());
                Answer::MagicTarget(agent.choose_swap_target(&obs))
            },
            Request::DestroyTarget { actor, choices } => {
                let obs = game.observation(*actor).clone();
                Answer::DestroyTarget(agent.choose_destory_target(&obs, choices))
            },
            Request::Tomb { actor, .. } => {
                let obs = game.observation(*actor).clone();
                Answer::Tomb(agent.choose_tomb(&obs, Card::Tavern))
            },
            Request::Oper { actor, choices } => {
                assert_eq!(choices[0], Oper::EndRound);
                let obs = game.observation(*actor).clone();
                Answer::Oper(agent.choose_oper(&obs, choices))
            },
            Request::From2 { actor, c0, c1 } => {
                let obs = game.observation(*actor).clone();
                Answer::From2(agent.choose_from_2(&obs, *c0, *c1))
            },
            Request::From3 { actor, c0, c1, c2 } => {
                let obs = game.observation(*actor).clone();
                Answer::From3(agent.choose_from_3(&obs, *c0, *c1, *c2))
            },
            Request::Finished { score } => {
                assert_eq!(*score, game.final_score());
                let marked = (0..num_players)
                    .filter(|i| game.player_at(PlayerIndex::from_usize(*i)).is_first_8_buildings())
                    .count();
                assert_eq!(marked, 1);
                return (*score, game.round_stats().round);
            },
        };
        let before: Vec<(u32, usize, usize)> = (0..num_players)
            .map(|i| {
                let p = game.player_at(PlayerIndex::from_usize(i));
                (p.gold(), p.cards_len(), p.buildings_len())
            })
            .collect();
        let oper = match (&answer, &req) {
            (Answer::Oper(op), Request::Oper { actor, .. }) => Some((*op, actor.value())),
            _ => None,
        };
        let recorded = effects.len();
        let expected_record = answer.clone();
        assert!(game.has_room());
        req = game.step(answer, &mut effects).unwrap();
        assert!(effects.len() > recorded);
        match (&expected_record, &effects[recorded]) {
            (Answer::Oper(op), Effect::OperResp { chosen }) => assert_eq!(op, chosen),
            (Answer::KillTarget(r), Effect::KillResp { chosen }) => assert_eq!(r, chosen),
            (Answer::StealTarget(r), Effect::StealResp { chosen }) => assert_eq!(r, chosen),
            (Answer::Role(r), Effect::ChooseRoleResp { chosen, .. }) => assert_eq!(r, chosen),
            (Answer::Tomb(b), Effect::TombResp { chosen }) => assert_eq!(b, chosen),
            (Answer::MagicTarget(_), Effect::MagicResp { .. }) => {},
            (Answer::DestroyTarget(_), Effect::DestroyResp { .. }) => {},
            (Answer::From2(c), Effect::ChooseFrom2Resp { chosen, .. }) => assert_eq!(c, chosen),
            (Answer::From3(c), Effect::ChooseFrom3Resp { chosen, .. }) => assert_eq!(c, chosen),
            _ => panic!("the answer's record comes first"),
        }
        if let Some((op, a)) = oper {
            let p = game.player_at(PlayerIndex::from_usize(a));
            match op {
                Oper::Gold(x) => assert_eq!(p.gold(), before[a].0 + x),
                Oper::BuyCard => {
                    assert_eq!(p.gold(), before[a].0 - 2);
                    assert!(p.cards_len() <= before[a].1 + 3);
                },
                Oper::SellCard(_) => {
                    assert_eq!(p.gold(), before[a].0 + 1);
                    assert_eq!(p.cards_len(), before[a].1 - 1);
                },
                Oper::Build(c) => {
                    assert_eq!(p.buildings_len(), before[a].2 + 1);
                    assert_eq!(p.gold(), before[a].0 - c.fee());
                    assert_eq!(p.cards_len(), before[a].1 - 1);
                },
                Oper::Card2Choose2 => assert!(p.cards_len() <= before[a].1 + 2),
                _ => {},
            }
        }
        check_laws(&game, num_players);
        let waits_for_cards = matches!(req, Request::From2 { .. } | Request::From3 { .. } | Request::Tomb { .. });
        assert_eq!(game.check_total_card_number(), !waits_for_cards);
        for i in 0..num_players {
            assert!(game.player_at(PlayerIndex::from_usize(i)).buildings_len() <= 8);
        }
    }
    panic!("the game did not end");
}

#[test]
fn four_player_game_runs_to_the_end() {
    for seed in 0..5 {
        let (_, rounds) = play(4, seed);
        assert!(rounds >= 1);
    }
}

#[test]
fn six_player_game_runs_to_the_end() {
    for seed in 0..5 {
        let (_, rounds) = play(6, seed);
        assert!(rounds >= 1);
    }
}

#[test]
fn a_new_game_waits_for_start() {
    let mut game = Game::new(4, four_players(), StdRng::seed_from_u64(1));
    assert_eq!(game.num_players(), 4);
    assert!(game.crown().value() < 4);
    assert_eq!(game.deck().peek_deck().len(), 66);
    assert_eq!(game.deck().peek_drop().len(), 0);
    assert!(game.check_total_card_number());
    let mut effects = Vec::new();
    let r = game.step(Answer::Role(Role::King), &mut effects);
    assert_eq!(r.unwrap_err(), GameError::UnexpectedAnswer);
    assert!(effects.is_empty());
}

#[test]
fn start_gives_gold_and_offers_two_cards_each() {
    let mut game = Game::new(4, four_players(), StdRng::seed_from_u64(2));
    let mut effects = Vec::new();
    let req = game.step(Answer::Start, &mut effects).unwrap();
    match req {
        Request::InitCards { choices } => {
            assert_eq!(choices.len(), 4);
            for (i, (actor, _, _)) in choices.iter().enumerate() {
                assert_eq!(actor.value(), i);
            }
        },
        _ => panic!("setup cards expected"),
    }
    for i in 0..4 {
        assert_eq!(game.player_at(PlayerIndex::from_usize(i)).gold(), 2);
    }
    assert_eq!(game.deck().peek_deck().len(), 58);
    assert!(matches!(effects[0], Effect::ShuffleDeck { .. }));
    assert!(matches!(effects[1], Effect::StartGame { .. }));
    let r = game.step(Answer::Start, &mut effects);
    assert_eq!(r.unwrap_err(), GameError::UnexpectedAnswer);
}

#[test]
fn setup_answers_are_checked() {
    let mut game = Game::new(4, four_players(), StdRng::seed_from_u64(3));
    let mut effects = Vec::new();
    let choices = match game.step(Answer::Start, &mut effects).unwrap() {
        Request::InitCards { choices } => choices,
        _ => panic!("setup cards expected"),
    };
    let (actor, c0, c1) = choices[0];
    let other = Card::all().into_iter().find(|c| *c != c0 && *c != c1).unwrap();
    let before = effects.len();
    let r = game.step(Answer::InitCard { actor, chosen: other }, &mut effects);
    assert_eq!(r.unwrap_err(), GameError::CardNotOffered);
    assert_eq!(effects.len(), before);
    let r = game.step(Answer::InitCard { actor: PlayerIndex::from_usize(9), chosen: c0 }, &mut effects);
    assert_eq!(r.unwrap_err(), GameError::UnexpectedAnswer);
    let r = game.step(Answer::InitCard { actor, chosen: c1 }, &mut effects).unwrap();
    assert!(matches!(r, Request::Wait));
    assert_eq!(game.player_at(actor).cards(), &vec![c1]);
    assert_eq!(game.deck().peek_drop(), &[c0]);
    let r = game.step(Answer::InitCard { actor, chosen: c1 }, &mut effects);
    assert_eq!(r.unwrap_err(), GameError::UnexpectedAnswer);
    let mut last = Request::Wait;
    for &(a, d0, _) in choices.iter().skip(1) {
        last = game.step(Answer::InitCard { actor: a, chosen: d0 }, &mut effects).unwrap();
    }
    match last {
        Request::Role { actor, roles } => {
            assert_eq!(actor, game.crown());
            assert_eq!(roles.len(), 5);
            let taken = game.round_stats().pub_drop_roles;
            assert_eq!(taken.len(), 2);
            let not_offered = Role::population().into_iter().find(|r| !roles.contains(*r)).unwrap();
            let r = game.step(Answer::Role(not_offered), &mut effects);
            assert_eq!(r.unwrap_err(), GameError::RoleNotAvailable);
        },
        _ => panic!("a role request expected"),
    }
    assert_eq!(game.round_stats().round, 1);
}

#[test]
fn outcome_by_score() {
    assert_eq!(Game::outcome([10, 3]), Outcome::ChuWins);
    assert_eq!(Game::outcome([1, 3]), Outcome::HanWins);
    assert_eq!(Game::outcome([4, 4]), Outcome::Draw);
}

#[test]
fn deck_draws_from_the_top_and_reshuffles_the_discards() {
    let mut deck = Deck::new(StdRng::seed_from_u64(5));
    assert_eq!(deck.peek_deck().len(), 66);
    let top = *deck.peek_deck().last().unwrap();
    assert_eq!(deck.take(), Some(top));
    assert_eq!(deck.peek_deck().len(), 65);
    deck.drop(top);
    assert_eq!(deck.peek_drop(), &[top]);
    for _ in 0..65 {
        assert!(deck.take().is_some());
    }
    assert_eq!(deck.peek_deck().len(), 0);
    assert_eq!(deck.take(), Some(top));
    assert_eq!(deck.peek_drop().len(), 0);
    assert_eq!(deck.take(), None);
    let shuffles = deck.take_shuffles();
    assert_eq!(shuffles.len(), 3);
    assert_eq!(shuffles[0].len(), 66);
    assert_eq!(shuffles[1], vec![top]);
    assert!(shuffles[2].is_empty());
}

#[test]
fn random_agent_stays_within_its_choices() {
    let mut agent = RandomFAAgent::new(17);
    let mut g = Game::new(4, four_players(), StdRng::seed_from_u64(4));
    let mut effects = Vec::new();
    g.step(Answer::Start, &mut effects).unwrap();
    let obs = g.observation(PlayerIndex::from_usize(0)).clone();
    let choices = vec![Oper::EndRound, Oper::Gold(2)];
    for _ in 0..20 {
        let op = agent.choose_oper(&obs, &choices);
        assert!(choices.contains(&op));
        let c = agent.choose_from_3(&obs, Card::Tavern, Card::Market, Card::Keep);
        assert!(c == Card::Tavern || c == Card::Market || c == Card::Keep);
        let t = agent.choose_destory_target(&obs, &[]);
        assert!(t.is_none());
        let t = DestroyTarget { player_offset: PlayerOffset::from_usize(1), card: Card::Temple };
        let got = agent.choose_destory_target(&obs, &[t]);
        assert!(got.is_none() || got == Some(t));
        match agent.choose_swap_target(&obs) {
            MagicianSkill::Swap(off) => assert!(off.value() >= 1 && off.value() <= 3),
            MagicianSkill::Replace(cards) => assert!(!cards.is_empty()),
            MagicianSkill::Pass => {},
        }
    }
}
