//! A player: team, purse, hand, city and the role held this round.

use uuid::Uuid;
use vstd::prelude::*;
use vstd::std_specs::iter::IteratorSpec;

use crate::deck::{top_cards, Deck};
use crate::domain::{Camp, Card, Color, PlayerIndex, Role};

verus! {

broadcast use {vstd::seq_lib::group_to_multiset_ensures, vstd::multiset::group_multiset_axioms};

/// `uuid::Uuid`, carried as an opaque player identifier.
#[verifier::external_type_specification]
#[verifier::external_body]
pub struct ExUuid(Uuid);

/// `s` without its first occurrence of `c` (unchanged when `c` is absent).
pub open spec fn remove_first(s: Seq<Card>, c: Card) -> Seq<Card>
    decreases s.len(),
{
    if s.len() == 0 {
        s
    } else if s[0] == c {
        s.drop_first()
    } else {
        seq![s[0]] + remove_first(s.drop_first(), c)
    }
}

/// `s` without any occurrence of `c`.
pub open spec fn remove_all(s: Seq<Card>, c: Card) -> Seq<Card>
    decreases s.len(),
{
    if s.len() == 0 {
        s
    } else if s.last() == c {
        remove_all(s.drop_last(), c)
    } else {
        remove_all(s.drop_last(), c).push(s.last())
    }
}

/// Number of cards of `color` in `s`.
pub open spec fn count_color(s: Seq<Card>, color: Color) -> nat
    decreases s.len(),
{
    if s.len() == 0 {
        0
    } else {
        count_color(s.drop_last(), color) + if s.last().spec_color() == color {
            1nat
        } else {
            0nat
        }
    }
}

/// Sum of the scores of the buildings `s`.
pub open spec fn sum_scores(s: Seq<Card>) -> nat
    decreases s.len(),
{
    if s.len() == 0 {
        0
    } else {
        sum_scores(s.drop_last()) + s.last().spec_score() as nat
    }
}

/// A building of `color` is among the buildings `s`.
pub open spec fn has_color(s: Seq<Card>, color: Color) -> bool {
    exists|i: int| 0 <= i < s.len() && #[trigger] s[i].spec_color() == color
}

/// Every colour occurs among the buildings `s`.
pub open spec fn has_all_colors(s: Seq<Card>) -> bool {
    &&& has_color(s, Color::Green)
    &&& has_color(s, Color::Yellow)
    &&& has_color(s, Color::Blue)
    &&& has_color(s, Color::Red)
    &&& has_color(s, Color::Purple)
}

/// Bonus points: 3 for all five colours, 2 for eight buildings, 2 more for
/// being the first to reach eight.
pub open spec fn extra_score(buildings: Seq<Card>, first_8: bool) -> nat {
    (if has_all_colors(buildings) {
        3nat
    } else {
        0nat
    }) + (if buildings.len() == 8 {
        2nat
    } else {
        0nat
    }) + (if first_8 {
        2nat
    } else {
        0nat
    })
}

/// Gold the warlord pays to destroy building `c` of a player who holds
/// `role` and owns `buildings`; `None` when it cannot be destroyed.
pub open spec fn destroy_fee(role: Option<Role>, buildings: Seq<Card>, c: Card) -> Option<u32> {
    if role == Some(Role::Bishop) || role == Some(Role::Warlord) {
        None
    } else if buildings.len() == 8 {
        None
    } else if c == Card::Keep {
        None
    } else if c == Card::GreatWall {
        Some(c.spec_fee())
    } else if buildings.contains(Card::GreatWall) {
        Some(c.spec_fee())
    } else {
        Some((c.spec_fee() - 1) as u32)
    }
}

/// A player's score: each building's points (its fee, two more for the
/// dragon gate and the university), plus three for all five colours, two
/// for eight buildings and two more for being first to eight.
pub proof fn lemma_score_parts(b: Seq<Card>, c: Card, first_8: bool)
    ensures
        sum_scores(Seq::<Card>::empty()) == 0,
        sum_scores(b.push(c)) == sum_scores(b) + c.spec_score(),
        c.spec_score() == c.spec_fee() + (if c == Card::DragonGate || c == Card::University { 2int } else { 0int }),
        extra_score(b, first_8) == (if has_all_colors(b) { 3int } else { 0int }) + (if b.len() == 8 { 2int } else { 0int }) + (
        if first_8 {
            2int
        } else {
            0int
        }),
{
    assert(b.push(c).drop_last() =~= b);
}

/// A city has all colours when each of the five colours occurs in it; a
/// building counts for its own colour only.
pub proof fn lemma_colors(b: Seq<Card>, c: Card, color: Color)
    ensures
        has_all_colors(b) <==> forall|k: Color| #[trigger] has_color(b, k),
        count_color(b.push(c), color) == count_color(b, color) + (if c.spec_color() == color { 1int } else { 0int }),
        has_color(b, color) <==> exists|i: int| 0 <= i < b.len() && b[i].spec_color() == color,
{
    assert(b.push(c).drop_last() =~= b);
    if has_all_colors(b) {
        assert forall|k: Color| #[trigger] has_color(b, k) by {
            match k {
                Color::Green => {},
                Color::Yellow => {},
                Color::Blue => {},
                Color::Red => {},
                Color::Purple => {},
            }
        }
    }
    if forall|k: Color| #[trigger] has_color(b, k) {
        assert(has_color(b, Color::Green));
        assert(has_color(b, Color::Yellow));
        assert(has_color(b, Color::Blue));
        assert(has_color(b, Color::Red));
        assert(has_color(b, Color::Purple));
    }
}

/// At most every building has a given colour.
pub proof fn lemma_count_color_bound(s: Seq<Card>, color: Color)
    ensures
        count_color(s, color) <= s.len(),
    decreases s.len(),
{
    if s.len() > 0 {
        lemma_count_color_bound(s.drop_last(), color);
    }
}

/// Removing the first occurrence of a card takes one copy out of the multiset.
pub proof fn lemma_remove_first(s: Seq<Card>, c: Card)
    ensures
        s.contains(c) ==> remove_first(s, c).to_multiset() == s.to_multiset().remove(c),
        s.contains(c) ==> remove_first(s, c).len() == s.len() - 1,
        !s.contains(c) ==> remove_first(s, c) == s,
    decreases s.len(),
{
    if s.len() > 0 {
        lemma_remove_first(s.drop_first(), c);
        if s[0] != c {
            if s.contains(c) {
                let i = choose|i: int| 0 <= i < s.len() && s[i] == c;
                assert(s.drop_first()[i - 1] == c);
            } else {
                assert(!s.drop_first().contains(c)) by {
                    if s.drop_first().contains(c) {
                        let i = choose|i: int| 0 <= i < s.drop_first().len() && s.drop_first()[i] == c;
                        assert(s[i + 1] == c);
                    }
                }
                assert(seq![s[0]] + s.drop_first() =~= s);
            }
            vstd::seq_lib::lemma_multiset_commutative(seq![s[0]], remove_first(s.drop_first(), c));
            vstd::seq_lib::lemma_multiset_commutative(seq![s[0]], s.drop_first());
            assert(seq![s[0]] + s.drop_first() =~= s);
        } else {
            vstd::seq_lib::lemma_multiset_commutative(seq![s[0]], s.drop_first());
            assert(seq![s[0]] + s.drop_first() =~= s);
        }
    }
}

/// The first occurrence of `c` is at `i`.
proof fn lemma_remove_first_at(s: Seq<Card>, c: Card, i: int)
    requires
        0 <= i < s.len(),
        s[i] == c,
        forall|j: int| 0 <= j < i ==> s[j] != c,
    ensures
        remove_first(s, c) == s.remove(i),
    decreases i,
{
    if i > 0 {
        lemma_remove_first_at(s.drop_first(), c, i - 1);
        assert(remove_first(s, c) =~= s.remove(i));
    } else {
        assert(s.drop_first() =~= s.remove(0));
    }
}

/// Removes the first copy of `c` from `v`; whether there was one.
pub fn remove_first_in(v: &mut Vec<Card>, c: Card) -> (r: bool)
    ensures
        r == old(v)@.contains(c),
        final(v)@ == remove_first(old(v)@, c),
{
    let mut i: usize = 0;
    while i < v.len()
        invariant
            i <= v.len(),
            *v == *old(v),
            forall|j: int| 0 <= j < i ==> v@[j] != c,
        decreases v.len() - i,
    {
        if v[i] == c {
            proof {
                lemma_remove_first_at(v@, c, i as int);
                assert(v@[i as int] == c);
            }
            v.remove(i);
            return true;
        }
        i = i + 1;
    }
    proof {
        lemma_remove_first(v@, c);
        assert(!v@.contains(c));
    }
    false
}

/// In a list without repeats, removing every copy of `c` removes at most
/// one card and leaves a list without repeats.
pub proof fn lemma_remove_all_distinct(s: Seq<Card>, c: Card)
    requires
        s.no_duplicates(),
    ensures
        remove_all(s, c).no_duplicates(),
        s.contains(c) ==> remove_all(s, c).len() == s.len() - 1,
        !s.contains(c) ==> remove_all(s, c) == s,
        forall|x: Card| #[trigger] remove_all(s, c).contains(x) <==> (s.contains(x) && x != c),
    decreases s.len(),
{
    if s.len() > 0 {
        let t = s.drop_last();
        assert(t.no_duplicates());
        lemma_remove_all_distinct(t, c);
        assert forall|x: Card| s.contains(x) <==> (t.contains(x) || x == s.last()) by {
            if s.contains(x) && x != s.last() {
                let k = choose|k: int| 0 <= k < s.len() && s[k] == x;
                assert(t[k] == x);
            }
            if t.contains(x) {
                let k = choose|k: int| 0 <= k < t.len() && t[k] == x;
                assert(s[k] == x);
            }
            if x == s.last() {
                assert(s[s.len() - 1] == x);
            }
        }
        assert(!t.contains(s.last())) by {
            if t.contains(s.last()) {
                let k = choose|k: int| 0 <= k < t.len() && t[k] == s.last();
                assert(s[k] == s[s.len() - 1]);
            }
        }
        if s.last() != c {
            let r = remove_all(t, c);
            assert forall|x: Card| #[trigger] r.push(s.last()).contains(x) <==> (r.contains(x) || x == s.last()) by {
                if r.push(s.last()).contains(x) && x != s.last() {
                    let k = choose|k: int| 0 <= k < r.push(s.last()).len() && r.push(s.last())[k] == x;
                    assert(r[k] == x);
                }
                if r.contains(x) {
                    let k = choose|k: int| 0 <= k < r.len() && r[k] == x;
                    assert(r.push(s.last())[k] == x);
                }
                if x == s.last() {
                    assert(r.push(s.last())[r.len() as int] == x);
                }
            }
            assert(r.push(s.last()).no_duplicates()) by {
                assert forall|i: int, j: int| 0 <= i < j < r.len() + 1 implies r.push(s.last())[i] != r.push(s.last())[j] by {
                    if j == r.len() {
                        assert(r.contains(r[i]));
                    }
                }
            }
            if !s.contains(c) {
                assert(!t.contains(c));
                assert(t.push(s.last()) =~= s);
            }
        }
    }
}

/// The state of a player as the rules see it.
pub struct PlayerState {
    pub index: PlayerIndex,
    pub uuid: Uuid,
    pub name: Seq<char>,
    pub camp: Camp,
    pub gold: u32,
    pub cards: Seq<Card>,
    pub buildings: Seq<Card>,
    pub first_8: bool,
    pub role: Option<Role>,
}

impl PlayerState {
    /// Cards in hand plus buildings.
    pub open spec fn card_count(self) -> nat {
        self.cards.len() + self.buildings.len()
    }

    pub open spec fn score(self) -> nat {
        sum_scores(self.buildings) + extra_score(self.buildings, self.first_8)
    }
}

/// A player.
pub struct Player {
    index: PlayerIndex,
    uuid: Uuid,
    name: String,
    camp: Camp,
    gold: u32,
    cards: Vec<Card>,
    buildings: Vec<Card>,
    is_first_8_buildings: bool,
    role: Option<Role>,
}

impl View for Player {
    type V = PlayerState;

    closed spec fn view(&self) -> PlayerState {
        PlayerState {
            index: self.index,
            uuid: self.uuid,
            name: self.name@,
            camp: self.camp,
            gold: self.gold,
            cards: self.cards@,
            buildings: self.buildings@,
            first_8: self.is_first_8_buildings,
            role: self.role,
        }
    }
}

impl Player {
    /// A new player of 楚.
    pub fn new_chu(uuid: Uuid, name: String) -> (r: Player)
        ensures
            r@ == Player::initial(uuid, name@, Camp::Chu),
    {
        Self::new(uuid, name, Camp::Chu)
    }

    /// A new player of 汉.
    pub fn new_han(uuid: Uuid, name: String) -> (r: Player)
        ensures
            r@ == Player::initial(uuid, name@, Camp::Han),
    {
        Self::new(uuid, name, Camp::Han)
    }

    /// A player before the game: no seat yet, no gold, no cards, no role.
    pub open spec fn initial(uuid: Uuid, name: Seq<char>, camp: Camp) -> PlayerState {
        PlayerState {
            index: PlayerIndex::invalid_spec(),
            uuid,
            name,
            camp,
            gold: 0,
            cards: Seq::empty(),
            buildings: Seq::empty(),
            first_8: false,
            role: None,
        }
    }

    /// A new player of the given camp.
    pub fn new(uuid: Uuid, name: String, camp: Camp) -> (r: Player)
        ensures
            r@ == Player::initial(uuid, name@, camp),
    {
        let r = Player {
            index: PlayerIndex::invalid(),
            uuid,
            name,
            camp,
            gold: 0,
            cards: Vec::new(),
            buildings: Vec::new(),
            is_first_8_buildings: false,
            role: None,
        };
        assert(r@ =~= Player::initial(uuid, r.name@, camp));
        r
    }

    /// The player's name.
    pub fn get_name(&self) -> (r: &str)
        ensures
            r@ == self@.name,
    {
        self.name.as_str()
    }

    /// The player's identifier.
    pub fn uuid(&self) -> (r: Uuid)
        ensures
            r == self@.uuid,
    {
        self.uuid
    }

    /// The player's camp.
    pub fn camp(&self) -> (r: Camp)
        ensures
            r == self@.camp,
    {
        self.camp
    }

    /// Gives the player a role; the player must not hold one.
    pub fn set_role(&mut self, role: Role)
        requires
            old(self)@.role is None,
        ensures
            final(self)@ == (PlayerState { role: Some(role), ..old(self)@ }),
    {
        self.role = Some(role);
    }

    /// Takes the role back; the player must hold one.
    pub fn unset_role(&mut self)
        requires
            old(self)@.role is Some,
        ensures
            final(self)@ == (PlayerState { role: None, ..old(self)@ }),
    {
        self.role = None;
    }

    /// The player's seat.
    pub fn index(&self) -> (r: PlayerIndex)
        ensures
            r == self@.index,
    {
        self.index
    }

    /// Seats the player.
    pub fn set_index(&mut self, index: PlayerIndex)
        ensures
            final(self)@ == (PlayerState { index, ..old(self)@ }),
    {
        self.index = index;
    }

    /// The role held; the player must hold one.
    pub fn role(&self) -> (r: Role)
        requires
            self@.role is Some,
        ensures
            self@.role == Some(r),
    {
        self.role.unwrap()
    }

    /// The role held, if any.
    pub fn role_option(&self) -> (r: Option<Role>)
        ensures
            r == self@.role,
    {
        self.role
    }

    /// Gold in the purse.
    pub fn gold(&self) -> (r: u32)
        ensures
            r == self@.gold,
    {
        self.gold
    }

    /// Sets the gold in the purse.
    pub fn set_gold(&mut self, gold: u32)
        ensures
            final(self)@ == (PlayerState { gold, ..old(self)@ }),
    {
        self.gold = gold;
    }

    /// Adds gold to the purse.
    pub fn add_gold(&mut self, amount: u32)
        requires
            old(self)@.gold + amount <= u32::MAX,
        ensures
            final(self)@ == (PlayerState { gold: (old(self)@.gold + amount) as u32, ..old(self)@ }),
    {
        self.gold = self.gold + amount;
    }

    /// Takes gold from the purse; there must be enough.
    pub fn sub_gold(&mut self, amount: u32)
        requires
            old(self)@.gold >= amount,
        ensures
            final(self)@ == (PlayerState { gold: (old(self)@.gold - amount) as u32, ..old(self)@ }),
    {
        self.gold = self.gold - amount;
    }

    /// Cards in hand.
    pub fn cards_len(&self) -> (r: usize)
        ensures
            r == self@.cards.len(),
    {
        self.cards.len()
    }

    /// Buildings in the city.
    pub fn buildings_len(&self) -> (r: usize)
        ensures
            r == self@.buildings.len(),
    {
        self.buildings.len()
    }

    /// Demolishes every building `c` of the city.
    pub fn remove_building(&mut self, c: Card)
        ensures
            final(self)@ == (PlayerState { buildings: remove_all(old(self)@.buildings, c), ..old(self)@ }),
    {
        let mut kept: Vec<Card> = Vec::new();
        let mut i: usize = 0;
        while i < self.buildings.len()
            invariant
                i <= self.buildings.len(),
                kept@ == remove_all(self.buildings@.take(i as int), c),
            decreases self.buildings.len() - i,
        {
            let b = self.buildings[i];
            proof {
                assert(self.buildings@.take(i + 1).drop_last() =~= self.buildings@.take(i as int));
            }
            if b != c {
                kept.push(b);
            }
            i = i + 1;
        }
        proof {
            assert(self.buildings@.take(self.buildings.len() as int) =~= self.buildings@);
        }
        self.buildings = kept;
    }

    /// The card at place `idx` of the hand.
    pub fn card_at(&self, idx: usize) -> (r: Card)
        requires
            idx < self@.cards.len(),
        ensures
            r == self@.cards[idx as int],
    {
        self.cards[idx]
    }

    /// The hand.
    pub fn cards(&self) -> (r: &Vec<Card>)
        ensures
            r@ == self@.cards,
    {
        &self.cards
    }

    /// The city.
    pub fn buildings(&self) -> (r: &Vec<Card>)
        ensures
            r@ == self@.buildings,
    {
        &self.buildings
    }

    /// The hand, for changing it.
    pub fn cards_mut(&mut self) -> (r: &mut Vec<Card>)
        ensures
            r@ == old(self)@.cards,
            final(self)@ == (PlayerState { cards: final(r)@, ..old(self)@ }),
    {
        &mut self.cards
    }

    /// The buildings of the city, one at a time.
    pub fn iter_buildings(&self) -> (r: std::slice::Iter<'_, Card>)
        ensures
            r.remaining() == self@.buildings.as_ref(),
    {
        broadcast use vstd::std_specs::slice::axiom_spec_slice_iter;

        self.buildings.as_slice().iter()
    }

    /// Replaces the hand, handing back the old one.
    pub fn replace_cards(&mut self, cards: Vec<Card>) -> (r: Vec<Card>)
        ensures
            r@ == old(self)@.cards,
            final(self)@ == (PlayerState { cards: cards@, ..old(self)@ }),
    {
        let mut cards = cards;
        std::mem::swap(&mut self.cards, &mut cards);
        cards
    }

    /// Adds a card to the hand.
    pub fn add_card(&mut self, c: Card)
        ensures
            final(self)@ == (PlayerState { cards: old(self)@.cards.push(c), ..old(self)@ }),
    {
        self.cards.push(c);
    }

    /// Adds a card to the hand, if there is one.
    pub fn add_option_card(&mut self, c: Option<Card>)
        ensures
            final(self)@ == (PlayerState {
                cards: match c {
                    Some(x) => old(self)@.cards.push(x),
                    None => old(self)@.cards,
                },
                ..old(self)@
            }),
    {
        if let Some(c) = c {
            self.cards.push(c);
        }
    }

    /// Removes the first copy of `c` from the hand; whether there was one.
    pub fn remove_first_card(&mut self, c: Card) -> (r: bool)
        ensures
            r == old(self)@.cards.contains(c),
            final(self)@ == (PlayerState { cards: remove_first(old(self)@.cards, c), ..old(self)@ }),
    {
        remove_first_in(&mut self.cards, c)
    }

    /// Whether the hand holds every card of `cards`, each as often as it
    /// occurs there.
    pub fn has_cards(&self, cards: &Vec<Card>) -> (r: bool)
        ensures
            r == cards@.to_multiset().subset_of(self@.cards.to_multiset()),
    {
        let mut rest = crate::deck::copy_cards(&self.cards);
        let mut i: usize = 0;
        while i < cards.len()
            invariant
                i <= cards.len(),
                cards@.take(i as int).to_multiset().add(rest@.to_multiset()) == self@.cards.to_multiset(),
            decreases cards.len() - i,
        {
            let c = cards[i];
            proof {
                assert(cards@.take(i + 1) =~= cards@.take(i as int).push(c));
                lemma_remove_first(rest@, c);
                vstd::seq_lib::to_multiset_contains(rest@, c);
            }
            if !remove_first_in(&mut rest, c) {
                proof {
                    vstd::seq_lib::lemma_multiset_commutative(cards@.take(i + 1), cards@.skip(i + 1));
                    assert(cards@.take(i + 1) + cards@.skip(i + 1) =~= cards@);
                    assert(cards@.to_multiset().count(c) > self@.cards.to_multiset().count(c));
                }
                return false;
            }
            i = i + 1;
        }
        proof {
            assert(cards@.take(cards.len() as int) =~= cards@);
        }
        true
    }

    /// Discards the given cards from the hand onto the discard pile, one by
    /// one; every card must be in the hand. Returns the discarded cards.
    pub fn remove_cards(&mut self, cards: Vec<Card>, deck: &mut Deck) -> (r: Vec<Card>)
        requires
            cards@.to_multiset().subset_of(old(self)@.cards.to_multiset()),
        ensures
            r@ == cards@,
            final(self)@ == (PlayerState { cards: final(self)@.cards, ..old(self)@ }),
            final(self)@.cards.to_multiset() == old(self)@.cards.to_multiset().sub(cards@.to_multiset()),
            final(self)@.cards.len() + cards@.len() == old(self)@.cards.len(),
            final(deck).spec_drop() == old(deck).spec_drop() + cards@,
            final(deck).spec_deck() == old(deck).spec_deck(),
            final(deck).spec_shuffles() == old(deck).spec_shuffles(),
    {
        let mut removed: Vec<Card> = Vec::new();
        let mut i: usize = 0;
        while i < cards.len()
            invariant
                i <= cards.len(),
                removed@ == cards@.take(i as int),
                self@ == (PlayerState { cards: self@.cards, ..old(self)@ }),
                self@.cards.to_multiset() == old(self)@.cards.to_multiset().sub(
                    cards@.take(i as int).to_multiset(),
                ),
                cards@.to_multiset().subset_of(old(self)@.cards.to_multiset()),
                self@.cards.len() + i == old(self)@.cards.len(),
                deck.spec_drop() == old(deck).spec_drop() + cards@.take(i as int),
                deck.spec_deck() == old(deck).spec_deck(),
                deck.spec_shuffles() == old(deck).spec_shuffles(),
            decreases cards.len() - i,
        {
            let c = cards[i];
            proof {
                assert(cards@.take(i + 1) =~= cards@.take(i as int).push(c));
                vstd::seq_lib::lemma_multiset_commutative(cards@.take(i + 1), cards@.skip(i + 1));
                assert(cards@.take(i + 1) + cards@.skip(i + 1) =~= cards@);
                assert(cards@.take(i + 1).to_multiset().subset_of(cards@.to_multiset()));
                assert(self@.cards.to_multiset().count(c) > 0);
                vstd::seq_lib::to_multiset_contains(self@.cards, c);
                lemma_remove_first(self@.cards, c);
            }
            let ok = self.remove_first_card(c);
            deck.drop(c);
            removed.push(c);
            i = i + 1;
            proof {
                assert(self@.cards.to_multiset() =~= old(self)@.cards.to_multiset().sub(
                    cards@.take(i as int).to_multiset(),
                ));
                assert(deck.spec_drop() =~= old(deck).spec_drop() + cards@.take(i as int));
            }
        }
        proof {
            assert(cards@.take(cards.len() as int) =~= cards@);
        }
        removed
    }

    /// Whether the city has building `c`.
    pub fn has_building(&self, c: Card) -> (r: bool)
        ensures
            r == self@.buildings.contains(c),
    {
        let mut i: usize = 0;
        while i < self.buildings.len()
            invariant
                i <= self.buildings.len(),
                forall|j: int| 0 <= j < i ==> self.buildings@[j] != c,
            decreases self.buildings.len() - i,
        {
            if self.buildings[i] == c {
                assert(self.buildings@[i as int] == c);
                return true;
            }
            i = i + 1;
        }
        false
    }

    /// Gold the warlord pays to destroy building `c` of this player; `None`
    /// when it cannot be destroyed (bishop or warlord, a complete city of
    /// eight, or the keep). The great wall makes other buildings cost their
    /// full fee instead of one less.
    pub fn building_destroy_fee(&self, c: Card) -> (r: Option<u32>)
        ensures
            r == destroy_fee(self@.role, self@.buildings, c),
    {
        let role = self.role;
        match role {
            Some(Role::Bishop) | Some(Role::Warlord) => return None,
            _ => {},
        };
        if self.buildings.len() == 8 {
            return None;
        };
        match c {
            Card::Keep => None,
            Card::GreatWall => Some(c.fee()),
            _ => {
                if self.has_building(Card::GreatWall) {
                    Some(c.fee())
                } else {
                    Some(c.fee() - 1)
                }
            },
        }
    }

    /// Number of buildings of `color` in the city.
    pub fn building_cnt(&self, color: Color) -> (r: u32)
        requires
            self@.buildings.len() <= u32::MAX,
        ensures
            r == count_color(self@.buildings, color),
            r <= self@.buildings.len(),
    {
        let mut n: u32 = 0;
        let mut i: usize = 0;
        while i < self.buildings.len()
            invariant
                i <= self.buildings.len(),
                self.buildings.len() <= u32::MAX,
                n == count_color(self.buildings@.take(i as int), color),
                n <= i,
            decreases self.buildings.len() - i,
        {
            proof {
                assert(self.buildings@.take(i + 1).drop_last() =~= self.buildings@.take(i as int));
            }
            if self.buildings[i].color() == color {
                n = n + 1;
            }
            i = i + 1;
        }
        proof {
            assert(self.buildings@.take(self.buildings.len() as int) =~= self.buildings@);
        }
        n
    }

    /// Marks the player as the first to complete eight buildings.
    pub fn set_is_first_8_buildings(&mut self)
        ensures
            final(self)@ == (PlayerState { first_8: true, ..old(self)@ }),
    {
        self.is_first_8_buildings = true;
    }

    /// Whether the city has a building of each of the five colours.
    pub fn has_all_colors(&self) -> (r: bool)
        ensures
            r == has_all_colors(self@.buildings),
    {
        let mut seen: Vec<bool> = vec![false, false, false, false, false];
        let mut i: usize = 0;
        while i < self.buildings.len()
            invariant
                i <= self.buildings.len(),
                seen@.len() == 5,
                forall|color: Color| #[trigger] seen@[color.spec_index() as int] == has_color(
                    self.buildings@.take(i as int),
                    color,
                ),
            decreases self.buildings.len() - i,
        {
            let k = self.buildings[i].color().index();
            seen.set(k, true);
            proof {
                let t = self.buildings@.take(i + 1);
                assert forall|color: Color| #[trigger] seen@[color.spec_index() as int]
                    == has_color(t, color) by {
                    if has_color(self.buildings@.take(i as int), color) {
                        let j = choose|j: int| 0 <= j < i && #[trigger] self.buildings@.take(i as int)[j].spec_color() == color;
                        assert(t[j].spec_color() == color);
                    }
                    if color.spec_index() == k {
                        assert(t[i as int].spec_color() == color);
                    } else if has_color(t, color) {
                        let j = choose|j: int| 0 <= j < i + 1 && #[trigger] t[j].spec_color() == color;
                        assert(self.buildings@.take(i as int)[j].spec_color() == color);
                    }
                }
            }
            i = i + 1;
        }
        proof {
            assert(self.buildings@.take(self.buildings.len() as int) =~= self.buildings@);
            assert(seen@[Color::Green.spec_index() as int] == has_color(self.buildings@, Color::Green));
            assert(seen@[Color::Yellow.spec_index() as int] == has_color(self.buildings@, Color::Yellow));
            assert(seen@[Color::Blue.spec_index() as int] == has_color(self.buildings@, Color::Blue));
            assert(seen@[Color::Red.spec_index() as int] == has_color(self.buildings@, Color::Red));
            assert(seen@[Color::Purple.spec_index() as int] == has_color(self.buildings@, Color::Purple));
        }
        seen[0] && seen[1] && seen[2] && seen[3] && seen[4]
    }

    /// Whether the player was the first to complete eight buildings.
    pub fn is_first_8_buildings(&self) -> (r: bool)
        ensures
            r == self@.first_8,
    {
        self.is_first_8_buildings
    }

    /// Bonus points of the city.
    pub fn extra_score(&self) -> (r: u32)
        ensures
            r == extra_score(self@.buildings, self@.first_8),
    {
        let mut value: u32 = 0;
        if self.has_all_colors() {
            value += 3;
        }
        if self.buildings.len() == 8 {
            value += 2;
        }
        if self.is_first_8_buildings {
            value += 2;
        }
        value
    }

    /// Score of the city: the buildings' points and the bonus points.
    pub fn score(&self) -> (r: u32)
        requires
            self@.buildings.len() <= 0x1000_0000,
        ensures
            r == self@.score(),
    {
        let mut score: u32 = 0;
        let mut i: usize = 0;
        while i < self.buildings.len()
            invariant
                i <= self.buildings.len(),
                self.buildings.len() <= 0x1000_0000,
                score == sum_scores(self.buildings@.take(i as int)),
                score <= 8 * i,
            decreases self.buildings.len() - i,
        {
            proof {
                assert(self.buildings@.take(i + 1).drop_last() =~= self.buildings@.take(i as int));
            }
            score += self.buildings[i].score();
            i = i + 1;
        }
        proof {
            assert(self.buildings@.take(self.buildings.len() as int) =~= self.buildings@);
        }
        score += self.extra_score();
        score
    }

    /// Keeps one of two offered cards and discards the other: `chosen` goes
    /// to the hand, and the discarded card is `c1` when `chosen` is `c0`,
    /// else `c0`. Returns the discarded card.
    pub fn choose_from_2(&mut self, c0: Card, c1: Card, chosen: Card, deck: &mut Deck) -> (r: Card)
        ensures
            r == (if chosen == c0 { c1 } else { c0 }),
            final(self)@ == (PlayerState { cards: old(self)@.cards.push(chosen), ..old(self)@ }),
            final(deck).spec_drop() == old(deck).spec_drop().push(r),
            final(deck).spec_deck() == old(deck).spec_deck(),
            final(deck).spec_shuffles() == old(deck).spec_shuffles(),
    {
        let drop = if chosen == c0 {
            c1
        } else {
            c0
        };
        self.cards.push(chosen);
        deck.drop(drop);
        drop
    }

    /// Keeps one of three offered cards and discards the other two, in
    /// order; the kept card goes to the hand. Returns the discarded cards.
    pub fn choose_from_3(&mut self, c0: Card, c1: Card, c2: Card, chosen: Card, deck: &mut Deck) -> (r: (Card, Card))
        ensures
            r == (if chosen == c0 {
                (c1, c2)
            } else if chosen == c1 {
                (c0, c2)
            } else {
                (c0, c1)
            }),
            final(self)@ == (PlayerState { cards: old(self)@.cards.push(chosen), ..old(self)@ }),
            final(deck).spec_drop() == old(deck).spec_drop().push(r.0).push(r.1),
            final(deck).spec_deck() == old(deck).spec_deck(),
            final(deck).spec_shuffles() == old(deck).spec_shuffles(),
    {
        let (drop0, drop1) = if chosen == c0 {
            (c1, c2)
        } else if chosen == c1 {
            (c0, c2)
        } else {
            (c0, c1)
        };
        self.cards.push(chosen);
        deck.drop(drop0);
        deck.drop(drop1);
        (drop0, drop1)
    }

    /// Builds `card`: the first copy leaves the hand (if there is one), the
    /// card joins the city, and its fee is paid.
    pub fn build(&mut self, card: Card)
        requires
            old(self)@.gold >= card.spec_fee(),
        ensures
            final(self)@ == (PlayerState {
                cards: remove_first(old(self)@.cards, card),
                buildings: old(self)@.buildings.push(card),
                gold: (old(self)@.gold - card.spec_fee()) as u32,
                ..old(self)@
            }),
    {
        self.remove_first_card(card);
        self.buildings.push(card);
        self.sub_gold(card.fee());
    }

    /// Draws up to `n` cards into the hand; fewer when both piles run out.
    /// Returns the cards drawn.
    pub fn draw_card(&mut self, n: usize, deck: &mut Deck) -> (r: Vec<Card>)
        ensures
            final(self)@ == (PlayerState { cards: old(self)@.cards + r@, ..old(self)@ }),
            r@.len() == if n <= old(deck).spec_count() {
                n as int
            } else {
                old(deck).spec_count() as int
            },
            final(deck).spec_cards().add(r@.to_multiset()) == old(deck).spec_cards(),
            final(deck).spec_count() + r@.len() == old(deck).spec_count(),
            old(deck).spec_deck().len() >= n ==> {
                &&& r@ == top_cards(old(deck).spec_deck(), n as int)
                &&& final(deck).spec_deck() == old(deck).spec_deck().subrange(0, old(deck).spec_deck().len() - n)
                &&& final(deck).spec_drop() == old(deck).spec_drop()
            },
    {
        let mut drawn: Vec<Card> = Vec::new();
        let mut k: usize = 0;
        while k < n
            invariant
                k <= n,
                drawn@.len() == if k <= old(deck).spec_count() {
                    k as int
                } else {
                    old(deck).spec_count() as int
                },
                self@ == (PlayerState { cards: old(self)@.cards + drawn@, ..old(self)@ }),
                deck.spec_cards().add(drawn@.to_multiset()) == old(deck).spec_cards(),
                deck.spec_count() + drawn@.len() == old(deck).spec_count(),
                old(deck).spec_deck().len() >= n ==> {
                    &&& drawn@ == top_cards(old(deck).spec_deck(), k as int)
                    &&& deck.spec_deck() == old(deck).spec_deck().subrange(0, old(deck).spec_deck().len() - k)
                    &&& deck.spec_drop() == old(deck).spec_drop()
                },
            decreases n - k,
        {
            let ghost before = deck.spec_cards();
            if let Some(c) = deck.take() {
                self.cards.push(c);
                drawn.push(c);
                proof {
                    assert(self.cards@ =~= old(self)@.cards + drawn@);
                    assert(deck.spec_cards().add(drawn@.to_multiset()) =~= old(deck).spec_cards());
                }
            }
            k = k + 1;
        }
        drawn
    }
}

} // verus!
