use rand::rngs::StdRng;
use rand::SeedableRng;
use server::player_indexed_vec::PlayerIndexedVec;
use server::bit::{clear_lowbit, lowbit, popcnt, test_bit};
use server::domain::{Camp, Card, Color, OptionOffset, OptionRole, OptionRoleOffsetPair, PlayerIndex, PlayerOffset, PlayerOffsetSet, Role, RoleSet};

#[test]
fn bit_helpers_give_exact_values() {
    assert_eq!(popcnt(0b1011), 3);
    assert_eq!(popcnt(0), 0);
    assert_eq!(lowbit(12), 4);
    assert_eq!(lowbit(0), 0);
    assert_eq!(clear_lowbit(12), 8);
    assert_eq!(clear_lowbit(0), 0);
    assert!(test_bit(5, 0));
    assert!(!test_bit(5, 1));
    assert!(test_bit(5, 2));
}

#[test]
fn lowbit_and_rest_make_the_number() {
    for s in 1..200isize {
        assert_eq!(lowbit(s) + clear_lowbit(s), s);
    }
}

#[test]
fn role_bits_round_trip() {
    let population = Role::population();
    assert_eq!(population[0], Role::Assassin);
    assert_eq!(population[7], Role::Warlord);
    for (i, r) in population.iter().enumerate() {
        assert_eq!(r.bit(), 1 << i);
        assert_eq!(Role::from_bit(r.bit()), *r);
    }
    assert_eq!(Role::King.name(), "国王");
}

#[test]
fn role_set_operations() {
    let all = RoleSet::universal();
    assert_eq!(all.len(), 8);
    assert_eq!(all.value(), 255);
    assert!(RoleSet::empty().is_empty());
    let pair = RoleSet::from_pair(Role::Thief, Role::King);
    assert_eq!(pair.len(), 2);
    assert!(pair.contains(Role::Thief));
    assert!(!pair.contains(Role::Bishop));
    let rest = all.difference(pair);
    assert_eq!(rest.len(), 6);
    assert!(!rest.contains(Role::King));
    let one = RoleSet::empty().with(Role::Merchant);
    assert_eq!(one.into_role(), Role::Merchant);
    assert_eq!(one.without(Role::Merchant).len(), 0);
    assert_eq!(RoleSet::empty().with_option(OptionRole::Empty).len(), 0);
    assert_eq!(RoleSet::empty().with_option(OptionRole::Bishop).value(), Role::Bishop.bit());
    assert_eq!(pair.union(one).len(), 3);
    assert!(RoleSet::from_value(256).is_none());
    assert!(RoleSet::from_value(-1).is_none());
    assert_eq!(RoleSet::from_value(5).unwrap().len(), 2);
}

#[test]
fn random_choose_stays_in_the_set() {
    let mut rng = StdRng::seed_from_u64(11);
    let set = RoleSet::from_pair(Role::Magician, Role::Warlord);
    for _ in 0..50 {
        let r = set.random_choose(&mut rng);
        assert!(r == Role::Magician || r == Role::Warlord);
    }
}

#[test]
fn offsets_round_trip() {
    let n = 4;
    let p = PlayerIndex::from_usize(1);
    let o = PlayerIndex::from_usize(3);
    let off = PlayerOffset::from_index(p, o, n);
    assert_eq!(off.value(), 2);
    assert_eq!(off.to_index(o, n).value(), 1);
    assert!(PlayerOffset::from_index(o, o, n).is_zero());
    for n in [4usize, 6] {
        for a in 0..n {
            for b in 0..n {
                let off = PlayerOffset::from_index(PlayerIndex::from_usize(a), PlayerIndex::from_usize(b), n);
                assert!(off.value() < n);
                assert_eq!(off.to_index(PlayerIndex::from_usize(b), n).value(), a);
            }
        }
    }
}

#[test]
fn option_offset_and_pairs() {
    assert_eq!(OptionOffset::none().get(), None);
    assert_eq!(OptionOffset::from_offset(PlayerOffset::from_usize(3)).get(), Some(3));
    assert_eq!(OptionOffset::from_option(Some(2)).get(), Some(2));
    let mut pair = OptionRoleOffsetPair::none();
    assert_eq!(pair.role(), OptionRole::Empty);
    pair.set_role(Role::Thief);
    pair.set_offset(PlayerOffset::from_usize(1));
    assert_eq!(pair.role(), OptionRole::Thief);
    assert_eq!(pair.offset().get(), Some(1));
    let set = PlayerOffsetSet::empty().with(PlayerOffset::from_usize(0)).with(PlayerOffset::from_usize(2));
    assert_eq!(set.value(), 0b101);
    assert_eq!(PlayerIndex::invalid().value(), usize::MAX);
}

#[test]
fn cards_and_camps() {
    assert_eq!(Card::Tavern.fee(), 1);
    assert_eq!(Card::Tavern.number(), 5);
    assert_eq!(Card::Tavern.color(), Color::Green);
    assert_eq!(Card::DragonGate.score(), 8);
    assert_eq!(Card::University.score(), 8);
    assert_eq!(Card::Palace.score(), 5);
    let all = Card::all();
    assert_eq!(all.len(), 28);
    let total: u32 = all.iter().map(|c| c.number()).sum();
    assert_eq!(total, 66);
    assert_eq!(Camp::Chu.index(), 0);
    assert_eq!(Camp::Han.index(), 1);
    assert_eq!(Color::Purple.index(), 4);
}

#[test]
fn player_indexed_vec_by_seat() {
    let mut v = PlayerIndexedVec::from4(10u32, 20, 30, 40);
    assert_eq!(v.len(), 4);
    assert!(!v.is_empty());
    assert_eq!(*v.get(PlayerIndex::from_usize(2)), 30);
    *v.get_mut(PlayerIndex::from_usize(1)) = 21;
    assert_eq!(v.iter().copied().collect::<Vec<_>>(), vec![10, 21, 30, 40]);
    {
        let (left, right) = v.split_at_mut(PlayerIndex::from_usize(1));
        std::mem::swap(&mut left[0], &mut right[2]);
    }
    assert_eq!(v.as_slice(), &[40, 21, 30, 10]);
    let w: PlayerIndexedVec<u32> = PlayerIndexedVec::with_len(6);
    assert_eq!(w.as_slice(), &[0, 0, 0, 0, 0, 0]);
    let mut e: PlayerIndexedVec<u32> = PlayerIndexedVec::new();
    assert!(e.is_empty());
    e.push(5);
    assert_eq!(e.len(), 1);
}

#[test]
fn seats_are_ordered_by_number() {
    let a = PlayerIndex::from_usize(1);
    let b = PlayerIndex::from_usize(3);
    assert!(a < b);
    assert_eq!(std::cmp::max(a, b), b);
}
