use rand::SeedableRng;
use server::domain::{AgentReqEvent, AgentRespEvent, Card, MagicianSkill, PlayerIndex, Role};
use server::fa_agents::random_fa_agent::magic_choice;
use server::game::Effect;
use server::history::{History, HistoryReqEvent};
use server::id_gen::IdGen;

#[test]
fn history_numbers_records_and_links_answers() {
    let mut h = History::new();
    let a = PlayerIndex::from_usize(0);
    let first = h.record(Effect::StartGame { init_crown: a }).unwrap();
    assert!(matches!(first, HistoryReqEvent::StartGame { id: 0, .. }));
    assert!(h.record(Effect::FirstRoleDropped).is_none());
    let req = h.record(Effect::MagicReq { actor: a, obs: dummy_obs() }).unwrap();
    assert!(matches!(req, HistoryReqEvent::MagicReq { id: 1, .. }));
    let resp = h.record(Effect::MagicResp { chosen: MagicianSkill::Pass }).unwrap();
    assert!(matches!(resp, HistoryReqEvent::MagicResp { id: 2, req_id: 1, .. }));
    assert_eq!(h.next_id(), 3);
}

#[test]
fn setup_answers_name_their_own_requests() {
    let mut h = History::new();
    let p0 = PlayerIndex::from_usize(0);
    let p1 = PlayerIndex::from_usize(1);
    h.record(Effect::InitCardReq { actor: p0, obs: dummy_obs(), c0: Card::Keep, c1: Card::Tavern });
    h.record(Effect::InitCardReq { actor: p1, obs: dummy_obs(), c0: Card::Keep, c1: Card::Tavern });
    let r1 = h
        .record(Effect::InitCardResp { actor: p1, obs: dummy_obs(), chosen: Card::Keep, drop: Card::Tavern })
        .unwrap();
    assert!(matches!(r1, HistoryReqEvent::InitCardResp { id: 2, req_id: 1, .. }));
    let r0 = h
        .record(Effect::InitCardResp { actor: p0, obs: dummy_obs(), chosen: Card::Keep, drop: Card::Tavern })
        .unwrap();
    assert!(matches!(r0, HistoryReqEvent::InitCardResp { id: 3, req_id: 0, .. }));
}

fn dummy_obs() -> server::obs::Obs {
    let players = server::player_indexed_vec::PlayerIndexedVec::from4(
        server::player::Player::new_chu(uuid::Uuid::nil(), "a".to_string()),
        server::player::Player::new_han(uuid::Uuid::nil(), "b".to_string()),
        server::player::Player::new_chu(uuid::Uuid::nil(), "c".to_string()),
        server::player::Player::new_han(uuid::Uuid::nil(), "d".to_string()),
    );
    let mut g = server::game::Game::new(4, players, rand::rngs::StdRng::seed_from_u64(0));
    let mut effects = Vec::new();
    g.step(server::game::Answer::Start, &mut effects).unwrap();
    g.observation(PlayerIndex::from_usize(0)).clone()
}

#[test]
fn id_gen_counts_up() {
    let mut g = IdGen::new();
    assert_eq!(g.gen_next(), 0);
    assert_eq!(g.gen_next(), 1);
    assert_eq!(g.gen_next(), 2);
}

#[test]
fn agent_answers_match_by_id_and_kind() {
    let req = AgentReqEvent::WaitForReady { id: 7 };
    assert_eq!(req.id(), 7);
    assert!(AgentRespEvent::WaitForReady { id: 7 }.answers(&req));
    assert!(!AgentRespEvent::WaitForReady { id: 8 }.answers(&req));
    assert!(!AgentRespEvent::Role { id: 7, chosen: Role::King }.answers(&req));
    assert_eq!(AgentRespEvent::Tomb { id: 3, chosen: true }.id(), 3);
}

#[test]
fn magician_choice_numbers_decode() {
    let obs = {
        let mut o = dummy_obs();
        o.actor_info.cards = vec![Card::Keep, Card::Tavern, Card::Market];
        o
    };
    assert!(matches!(magic_choice(0, &obs), MagicianSkill::Pass));
    match magic_choice(5, &obs) {
        MagicianSkill::Replace(cards) => assert_eq!(cards, vec![Card::Keep, Card::Market]),
        _ => panic!("a replacement expected"),
    }
    match magic_choice(8, &obs) {
        MagicianSkill::Swap(off) => assert_eq!(off.value(), 1),
        _ => panic!("a swap expected"),
    }
    match magic_choice(10, &obs) {
        MagicianSkill::Swap(off) => assert_eq!(off.value(), 3),
        _ => panic!("a swap expected"),
    }
}
