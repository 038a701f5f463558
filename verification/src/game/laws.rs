//! What holds of every well-formed game.

use vstd::prelude::*;

use crate::deck::total_cards;
use crate::domain::player_offset::spec_seat;
use crate::domain::{Card, Color, MagicianSkill, Oper, OptionRole, PlayerIndex, Role};
use crate::game::role_execution_service::{kill_targets, steal_targets};
use crate::game::{turn_began, Answer, Game, Phase, Request};
use crate::deck::top_cards;
use crate::obs::villain_seat;
use crate::game::{gold_amount, oper_allowed, oper_offer, TurnState};
use crate::player::{count_color, destroy_fee, PlayerState};

verus! {

/// Exactly one full deck of 66 cards is in play at every moment: in the
/// draw and discard piles, the hands, the cities, and the cards that wait
/// for a player's choice.
pub proof fn lemma_card_conservation(g: Game)
    requires
        g.wf(),
    ensures
        g.card_total() == total_cards(),
        total_cards() == 66,
{
    g.unfold();
}

/// Four or six players sit at the table, each at its own seat; the crown
/// is at one of them; every city holds at most eight buildings, no two
/// alike.
pub proof fn lemma_table(g: Game)
    requires
        g.wf(),
    ensures
        g.spec_n() == 4 || g.spec_n() == 6,
        g.spec_players().len() == g.spec_n(),
        g.spec_crown().spec_value() < g.spec_n(),
        forall|i: int| 0 <= i < g.spec_n() ==> (#[trigger] g.player(i)).index.spec_value() == i,
        forall|i: int| 0 <= i < g.spec_n() ==> (#[trigger] g.player(i)).buildings.len() <= 8,
        forall|i: int| 0 <= i < g.spec_n() ==> (#[trigger] g.player(i)).buildings.no_duplicates(),
{
    g.unfold();
}

/// No two players hold the same role.
pub proof fn lemma_roles_distinct(g: Game)
    requires
        g.wf(),
        !(g.spec_phase() is Halted),
    ensures
        forall|i: int, j: int|
            #![trigger g.player(i), g.player(j)]
            0 <= i < g.spec_n() && 0 <= j < g.spec_n() && i != j && g.player(i).role is Some ==> g.player(i).role
                != g.player(j).role,
{
    g.unfold();
}

/// Before the game starts, during the setup and once it is over, nobody
/// holds a role, and no observation shows one.
pub proof fn lemma_no_roles_outside_rounds(g: Game)
    requires
        g.wf(),
        g.spec_phase() is Created || g.spec_phase() is InitCards || g.spec_phase() is Finished,
    ensures
        forall|i: int| 0 <= i < g.spec_n() ==> (#[trigger] g.player(i)).role is None,
        forall|o: int| 0 <= o < g.spec_observes().len() ==> (#[trigger] g.spec_observes()[o]).actor_info.common.role is None,
{
    g.unfold();
}

/// At most one player is ever marked the first to complete eight
/// buildings, and that player's city is complete; a finished game has such
/// a player.
pub proof fn lemma_first_complete_city(g: Game)
    requires
        g.wf(),
    ensures
        forall|i: int| 0 <= i < g.spec_n() && (#[trigger] g.player(i)).first_8 ==> g.player(i).buildings.len() == 8,
        forall|i: int, j: int|
            #![trigger g.player(i), g.player(j)]
            0 <= i < g.spec_n() && 0 <= j < g.spec_n() && g.player(i).first_8 && g.player(j).first_8 ==> i == j,
        g.spec_phase() is Finished ==> exists|i: int| 0 <= i < g.spec_n() && (#[trigger] g.player(i)).first_8,
        g.spec_phase() is Finished ==> g.spec_stats().has_first_8_buildings,
{
    g.unfold();
    if g.spec_phase() is Finished {
        let i = choose|i: int| 0 <= i < g.num_players && (#[trigger] g.players@[i])@.first_8;
        assert(g.player(i).first_8);
    }
}

/// Whether roles are acting: some player's turn is under way.
pub open spec fn roles_acting(phase: Phase) -> bool {
    ||| phase is Kill
    ||| phase is Steal
    ||| phase is Magic
    ||| phase is Destroy
    ||| phase is Tomb
    ||| phase is Oper
    ||| phase is From2
    ||| phase is From3
}

/// The player whose turn is under way.
pub open spec fn phase_actor(phase: Phase) -> Option<PlayerIndex> {
    match phase {
        Phase::Kill { actor } => Some(actor),
        Phase::Steal { actor } => Some(actor),
        Phase::Magic { actor } => Some(actor),
        Phase::Destroy { actor } => Some(actor),
        Phase::Tomb { actor, .. } => Some(actor),
        Phase::Oper { actor } => Some(actor),
        Phase::From2 { actor, .. } => Some(actor),
        Phase::From3 { actor, .. } => Some(actor),
        _ => None,
    }
}

/// Roles act in their order, assassin first and warlord last: the player
/// whose turn is under way holds the role at place `next_role - 1` of the
/// acting order, and the assassin, thief, magician and warlord are asked
/// for their targets at the start of their own turns.
pub proof fn lemma_turn_order(g: Game)
    requires
        g.wf(),
    ensures
        phase_actor(g.spec_phase()) matches Some(a) ==> {
            &&& a.spec_value() < g.spec_n()
            &&& g.player(a.spec_value() as int).role matches Some(r)
            &&& r.spec_index() == g.spec_next_role() - 1
        },
        g.spec_phase() matches Phase::Kill { actor } ==> g.player(actor.spec_value() as int).role == Some(Role::Assassin),
        g.spec_phase() matches Phase::Steal { actor } ==> g.player(actor.spec_value() as int).role == Some(Role::Thief),
        g.spec_phase() matches Phase::Magic { actor } ==> g.player(actor.spec_value() as int).role == Some(Role::Magician),
        g.spec_phase() matches Phase::Destroy { actor } ==> g.player(actor.spec_value() as int).role == Some(Role::Warlord),
{
    g.unfold();
}

/// While roles act, every player holds a role; each observer sees its own
/// role, and the role of another player exactly when that role's turn has
/// begun.
pub proof fn lemma_roles_revealed_in_turn(g: Game)
    requires
        g.wf(),
        roles_acting(g.spec_phase()),
    ensures
        forall|i: int| 0 <= i < g.spec_n() ==> (#[trigger] g.player(i)).role is Some,
        forall|o: int| 0 <= o < g.spec_observes().len() ==> (#[trigger] g.spec_observes()[o]).actor_info.common.role == g.player(o).role,
        forall|o: int, k: int|
            0 <= o < g.spec_observes().len() && 0 <= k < g.spec_observes()[o].villain_infos@.len() ==> (#[trigger] g.spec_observes()[o].villain_infos@[k]).common.role == {
                let r = g.player(villain_seat(o, k, g.spec_n())).role->0;
                if r.spec_index() < g.spec_next_role() {
                    Some(r)
                } else {
                    None
                }
            },
{
    g.unfold();
}

/// While roles are chosen, the player at place `pos` of the order (the
/// crown's player first) is offered one role fewer than the one before:
/// five less `pos` with four players, who put two roles aside face up,
/// and seven less `pos` with six; no role put aside face up is offered;
/// and nobody has been killed or robbed yet this round. Four players put
/// two roles aside face up, six none; the roles picked earlier in the
/// order are held and no longer offered.
pub proof fn lemma_roles_offered(g: Game)
    requires
        g.wf(),
        g.spec_phase() is ChooseRole,
    ensures
        g.spec_roles()@.len() == (if g.spec_n() == 4 { 5int } else { 7int }) - g.spec_phase()->ChooseRole_pos,
        g.spec_roles()@.disjoint(g.spec_stats().pub_drop_roles@),
        g.spec_stats().killed == OptionRole::Empty,
        g.spec_stats().stolen == OptionRole::Empty,
        g.spec_stats().stealer is None,
        g.spec_stats().pub_drop_roles@.len() == (if g.spec_n() == 4 { 2int } else { 0int }),
        forall|i: int| 0 <= i < g.spec_phase()->ChooseRole_pos ==> {
            let p = #[trigger] crate::game::order_seat(i, g.spec_crown().spec_value() as int, g.spec_n());
            &&& g.player(p).role matches Some(r)
            &&& !g.spec_roles()@.contains(r)
        },
{
    g.unfold();
    assert forall|i: int| 0 <= i < g.spec_phase()->ChooseRole_pos implies {
        let p = #[trigger] crate::game::order_seat(i, g.spec_crown().spec_value() as int, g.spec_n());
        &&& g.player(p).role matches Some(r)
        &&& !g.spec_roles()@.contains(r)
    } by {
        assert(i < g.spec_n());
    }
}

/// While roles act, the robber recorded for the round, if any, is the
/// player who holds the thief.
pub proof fn lemma_stealer(g: Game)
    requires
        g.wf(),
        roles_acting(g.spec_phase()),
    ensures
        g.spec_stats().stealer matches Some(t) ==> t.spec_value() < g.spec_n() && g.player(t.spec_value() as int).role
            == Some(Role::Thief),
        g.spec_stats().stolen.spec_role() != Some(Role::Thief),
{
    g.unfold();
}

/// The gold a role takes: two, and one more per building of its colour:
/// yellow for the king, blue for the bishop, green for the merchant, red
/// for the warlord; the other roles take two. A player who has not taken
/// resources this turn is offered exactly that amount. (A city has at most
/// eight buildings.)
pub proof fn lemma_gold_amount(p: PlayerState, turn: TurnState, choices: Seq<Oper>)
    requires
        p.buildings.len() <= 8,
    ensures
        p.role == Some(Role::King) ==> gold_amount(p) == 2 + count_color(p.buildings, Color::Yellow),
        p.role == Some(Role::Bishop) ==> gold_amount(p) == 2 + count_color(p.buildings, Color::Blue),
        p.role == Some(Role::Merchant) ==> gold_amount(p) == 2 + count_color(p.buildings, Color::Green),
        p.role == Some(Role::Warlord) ==> gold_amount(p) == 2 + count_color(p.buildings, Color::Red),
        !(p.role == Some(Role::King) || p.role == Some(Role::Bishop) || p.role == Some(Role::Merchant) || p.role
            == Some(Role::Warlord)) ==> gold_amount(p) == 2,
        oper_offer(choices, p, turn) && !turn.got_resources ==> {
            &&& choices.contains(Oper::Gold(gold_amount(p)))
            &&& forall|x: u32| #[trigger] choices.contains(Oper::Gold(x)) ==> x == gold_amount(p)
        },
{
    crate::player::lemma_count_color_bound(p.buildings, Color::Yellow);
    crate::player::lemma_count_color_bound(p.buildings, Color::Blue);
    crate::player::lemma_count_color_bound(p.buildings, Color::Green);
    crate::player::lemma_count_color_bound(p.buildings, Color::Red);
    if oper_offer(choices, p, turn) && !turn.got_resources {
        assert(oper_allowed(p, turn, Oper::Gold(gold_amount(p))));
        assert forall|x: u32| #[trigger] choices.contains(Oper::Gold(x)) implies x == gold_amount(p) by {
            let k = choose|k: int| 0 <= k < choices.len() && choices[k] == Oper::Gold(x);
            assert(oper_allowed(p, turn, choices[k]));
        }
    }
}

/// What the player whose turn it is is offered: ending the turn always;
/// before resources are taken, three cards to keep one with the
/// observatory, two to keep both with the library, two to keep one without
/// either; each card of the hand not yet in the city and within the purse,
/// while the role's allowance of buildings this turn (three for the
/// architect, one otherwise) and the room for eight are not used up; with
/// the smithy and two gold, one purchase per turn; with the laboratory, one
/// sale per turn of any card in hand.
pub proof fn lemma_oper_offer(choices: Seq<Oper>, p: PlayerState, turn: TurnState, c: Card)
    requires
        oper_offer(choices, p, turn),
    ensures
        choices.contains(Oper::EndRound),
        choices.contains(Oper::Card3Choose1) <==> !turn.got_resources && p.buildings.contains(Card::Observatory),
        choices.contains(Oper::Card2Choose2) <==> !turn.got_resources && p.buildings.contains(Card::Library),
        choices.contains(Oper::Card2Choose1) <==> !turn.got_resources && !p.buildings.contains(Card::Observatory)
            && !p.buildings.contains(Card::Library),
        choices.contains(Oper::Build(c)) <==> {
            &&& p.cards.contains(c)
            &&& c.spec_fee() <= p.gold
            &&& !p.buildings.contains(c)
            &&& turn.has_built_times < (if p.role == Some(Role::Architect) { 3int } else { 1int })
            &&& p.buildings.len() < 8
        },
        choices.contains(Oper::BuyCard) <==> !turn.has_bought_card && p.buildings.contains(Card::Smithy) && p.gold >= 2,
        choices.contains(Oper::SellCard(c)) <==> !turn.has_sold_card && p.buildings.contains(Card::Laboratory)
            && p.cards.contains(c),
{
    assert forall|op: Oper| #[trigger] choices.contains(op) <==> oper_allowed(p, turn, op) by {
        if choices.contains(op) {
            let k = choose|k: int| 0 <= k < choices.len() && choices[k] == op;
            assert(oper_allowed(p, turn, choices[k]));
        }
    }
    assert(oper_allowed(p, turn, Oper::EndRound));
}

/// When a turn begins: the role was not killed; the king takes the crown;
/// the thief becomes the round's robber; a robbed player hands all its gold
/// to the robber (the merchant then earns its one gold); an unrobbed
/// merchant earns one gold; the architect draws two cards, as far as the
/// piles hold them; and nothing of the turn has been done yet.
pub proof fn lemma_turn_began(g: Game, h: Game, a: int)
    requires
        g.wf(),
        g.room(),
        0 <= a < g.spec_n(),
        turn_began(g, h, a),
    ensures
        ({
            let p = g.spec_players()[a]@;
            let q = h.spec_players()[a]@;
            let role = p.role->0;
            let robbed = h.spec_stats().stolen.spec_role() == Some(role) && h.spec_stats().stealer is Some;
            let t = h.spec_stats().stealer->0.spec_value() as int;
            &&& g.spec_stats().killed.spec_role() != Some(role)
            &&& role == Role::King ==> h.spec_stats().crown.spec_value() == a
            &&& role == Role::Thief ==> (h.spec_stats().stealer matches Some(x) && x.spec_value() == a)
            &&& robbed && t != a ==> h.spec_players()[t]@.gold == g.spec_players()[t]@.gold + p.gold
            &&& robbed && role != Role::Merchant ==> q.gold == 0
            &&& robbed && role == Role::Merchant ==> q.gold == 1
            &&& !robbed && role == Role::Merchant ==> q.gold == p.gold + 1 && q.cards == p.cards && q.buildings
                == p.buildings
            &&& role == Role::Architect && g.spec_deck().spec_count() >= 2 ==> q.cards.len() == p.cards.len() + 2
            &&& !h.spec_turn().got_resources && h.spec_turn().has_built_times == 0 && !h.spec_turn().has_bought_card
                && !h.spec_turn().has_sold_card
        }),
{
    let p = g.spec_players()[a]@;
    g.unfold();
    crate::game::lemma_total_gold(g.spec_players(), a, a);
    if p.role->0 == Role::King || p.role->0 == Role::Thief {
        PlayerIndex::lemma_from_usize_spec(a as usize);
    }
}

/// The library keeps both cards drawn, and the smithy buys three for two
/// gold: the drawn cards are appended to the hand, the purse and the city
/// otherwise unchanged; with enough cards in the draw pile, they are its top
/// cards, and the piles lose exactly them.
pub proof fn lemma_draw_keep(g: Game, h: Game, req: Request, op: Oper)
    requires
        g.wf(),
        g.room(),
        op == Oper::Card2Choose2 || op == Oper::BuyCard,
        g.refusal(Answer::Oper(op)) is None,
        g.accepted(h, Answer::Oper(op), req),
    ensures
        h.spec_players()[g.spec_phase()->Oper_actor.spec_value() as int]@.buildings == g.spec_players()[g.spec_phase()->Oper_actor.spec_value() as int]@.buildings,
        h.spec_players()[g.spec_phase()->Oper_actor.spec_value() as int]@.gold == (if op == Oper::BuyCard {
            g.spec_players()[g.spec_phase()->Oper_actor.spec_value() as int]@.gold - 2
        } else {
            g.spec_players()[g.spec_phase()->Oper_actor.spec_value() as int]@.gold as int
        }),
        h.spec_players()[g.spec_phase()->Oper_actor.spec_value() as int]@.cards.to_multiset().add(h.spec_deck().spec_cards())
            == g.spec_players()[g.spec_phase()->Oper_actor.spec_value() as int]@.cards.to_multiset().add(g.spec_deck().spec_cards()),
        ({
            let a = g.spec_phase()->Oper_actor.spec_value() as int;
            let d = g.spec_deck().spec_deck();
            let k: int = if op == Oper::BuyCard { 3 } else { 2 };
            d.len() >= k ==> {
                &&& h.spec_players()[a]@.cards == g.spec_players()[a]@.cards + top_cards(d, k)
                &&& h.spec_deck().spec_deck() == d.subrange(0, d.len() - k)
                &&& h.spec_deck().spec_drop() == g.spec_deck().spec_drop()
            }
        }),
{
    g.unfold();
    let a = g.spec_phase()->Oper_actor.spec_value() as int;
    let p = g.spec_players()[a]@;
    let q = h.spec_players()[a]@;
    assert(q.cards.to_multiset().add(h.spec_deck().spec_cards()) =~= h.spec_deck().spec_cards().add(q.cards.to_multiset()));
    assert(p.cards.to_multiset().add(g.spec_deck().spec_cards()) =~= g.spec_deck().spec_cards().add(p.cards.to_multiset()));
}

/// The observatory draws three: when the player whose turn it is takes
/// `Card3Choose1` with at least three cards in the piles, three cards leave
/// the piles, nobody's hand or city changes, and the player is asked which
/// of those three to keep; with the draw pile holding three, they are its
/// top three.
pub proof fn lemma_observatory(g: Game, h: Game, req: Request)
    requires
        g.wf(),
        g.room(),
        g.refusal(Answer::Oper(Oper::Card3Choose1)) is None,
        g.accepted(h, Answer::Oper(Oper::Card3Choose1), req),
        h.fits(req),
        g.spec_deck().spec_count() >= 3,
    ensures
        req matches Request::From3 { actor, c0, c1, c2 } && actor == g.spec_phase()->Oper_actor && h.spec_deck().spec_cards().insert(
            c0,
        ).insert(c1).insert(c2) == g.spec_deck().spec_cards(),
        h.spec_players() == g.spec_players(),
        g.spec_deck().spec_deck().len() >= 3 ==> {
            let d = g.spec_deck().spec_deck();
            req == (Request::From3 {
                actor: g.spec_phase()->Oper_actor,
                c0: d[d.len() - 1],
                c1: d[d.len() - 2],
                c2: d[d.len() - 3],
            })
        },
{
    g.unfold();
    let a = g.spec_phase()->Oper_actor;
    PlayerIndex::lemma_from_usize_spec(a.spec_value());
    a.lemma_eq(PlayerIndex::from_usize_spec(a.spec_value()));
}

/// The magician's replacement: the named cards go to the discard pile and
/// as many cards are drawn into the hand; hand and piles together keep
/// their cards, and with enough cards in the draw pile the discard pile
/// gains exactly the named cards and the hand gains the top cards drawn.
pub proof fn lemma_magician_replace(g: Game, h: Game, req: Request, cards: Vec<Card>)
    requires
        g.wf(),
        g.room(),
        g.refusal(Answer::MagicTarget(MagicianSkill::Replace(cards))) is None,
        g.accepted(h, Answer::MagicTarget(MagicianSkill::Replace(cards)), req),
    ensures
        ({
            let a = g.spec_phase()->Magic_actor.spec_value() as int;
            let p = g.spec_players()[a]@;
            let q = h.spec_players()[a]@;
            let d = g.spec_deck().spec_deck();
            &&& q.cards.len() == p.cards.len()
            &&& q.cards.to_multiset().add(h.spec_deck().spec_cards()) == p.cards.to_multiset().add(g.spec_deck().spec_cards())
            &&& d.len() >= cards@.len() ==> {
                &&& h.spec_deck().spec_drop() == g.spec_deck().spec_drop() + cards@
                &&& q.cards.to_multiset() == p.cards.to_multiset().sub(cards@.to_multiset()).add(
                    top_cards(d, cards@.len() as int).to_multiset(),
                )
                &&& h.spec_deck().spec_count() == g.spec_deck().spec_count()
            }
        }),
{
    broadcast use {vstd::seq_lib::group_to_multiset_ensures, vstd::multiset::group_multiset_axioms};

    g.unfold();
}

/// The assassin can name neither itself nor a role put aside face up.
pub proof fn lemma_kill_targets(pub_drop: Set<Role>, r: Role)
    ensures
        kill_targets(pub_drop).contains(r) <==> (r != Role::Assassin && !pub_drop.contains(r)),
{
}

/// The thief can name neither the assassin, nor itself, nor the killed
/// role, nor a role put aside face up.
pub proof fn lemma_steal_targets(pub_drop: Set<Role>, killed: Option<Role>, r: Role)
    ensures
        steal_targets(pub_drop, killed).contains(r) <==> (r != Role::Assassin && r != Role::Thief && killed != Some(r)
            && !pub_drop.contains(r)),
{
}

/// The warlord can destroy nothing of the bishop or of a warlord, nothing
/// in a complete city of eight, and never the keep; every other building of
/// every other player can be destroyed, for one gold less than its fee, or
/// for its full fee when it is the great wall or stands next to it.
pub proof fn lemma_destroy_fee(role: Option<Role>, buildings: Seq<Card>, c: Card)
    ensures
        role == Some(Role::Bishop) || role == Some(Role::Warlord) || buildings.len() == 8 || c == Card::Keep
            ==> destroy_fee(role, buildings, c) is None,
        destroy_fee(role, buildings, c) matches Some(f) ==> f <= c.spec_fee(),
        destroy_fee(role, buildings, c) matches Some(f) ==> (f == c.spec_fee() <==> (c == Card::GreatWall
            || buildings.contains(Card::GreatWall)) || c.spec_fee() == 0),
        destroy_fee(role, buildings, c) is None <==> (role == Some(Role::Bishop) || role == Some(Role::Warlord)
            || buildings.len() == 8 || c == Card::Keep),
        c.spec_fee() >= 1,
        !(role == Some(Role::Bishop) || role == Some(Role::Warlord) || buildings.len() == 8 || c == Card::Keep)
            ==> destroy_fee(role, buildings, c) == Some(
            if c == Card::GreatWall || buildings.contains(Card::GreatWall) {
                c.spec_fee()
            } else {
                (c.spec_fee() - 1) as u32
            },
        ),
{
}

} // verus!
