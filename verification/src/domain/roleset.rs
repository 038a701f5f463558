//! A set of roles, kept as a bit mask with one bit per role.

use rand::rngs::StdRng;
use vstd::prelude::*;

use crate::bit;
use crate::domain::option_role::OptionRole;
use crate::domain::role::{is_role_bit, lemma_role_bits, role_at, spec_population, Role};
use crate::rng::random_below;

verus! {

/// A set of roles. Bit `i` of `value` stands for the role with index `i`
/// in acting order.
#[derive(Clone, Copy, Debug)]
pub struct RoleSet {
    value: isize,
}

/// The roles whose bits are set in `v`.
pub open spec fn roles_of(v: isize) -> Set<Role> {
    Set::new(|r: Role| v & r.spec_bit() != 0)
}

/// The roles among the first `k` in acting order whose bits are set in `v`.
pub open spec fn roles_below(v: isize, k: nat) -> Set<Role>
    decreases k,
{
    if k == 0 {
        Set::empty()
    } else {
        let prev = roles_below(v, (k - 1) as nat);
        let r = role_at(k - 1);
        if v & r.spec_bit() != 0 {
            prev.insert(r)
        } else {
            prev
        }
    }
}

/// Number of roles among the first `k` whose bits are set in `v`.
pub open spec fn count_below(v: isize, k: nat) -> nat
    decreases k,
{
    if k == 0 {
        0
    } else {
        count_below(v, (k - 1) as nat) + if v & role_at(k - 1).spec_bit() != 0 {
            1nat
        } else {
            0nat
        }
    }
}

proof fn lemma_roles_below(v: isize, k: nat)
    requires
        k <= 8,
    ensures
        roles_below(v, k).finite(),
        roles_below(v, k).len() == count_below(v, k),
        forall|r: Role|
            #[trigger] roles_below(v, k).contains(r) <==> (r.spec_index() < k && v & r.spec_bit()
                != 0),
    decreases k,
{
    lemma_role_bits();
    if k > 0 {
        lemma_roles_below(v, (k - 1) as nat);
        let r = role_at(k - 1);
        assert(r.spec_index() == k - 1);
        assert(!roles_below(v, (k - 1) as nat).contains(r));
    }
}

/// For a mask of the eight role bits, the role set is finite and its size
/// is the number of one bits of the mask.
pub proof fn lemma_roles_of(v: isize)
    requires
        0 <= v < 256,
    ensures
        roles_of(v).finite(),
        roles_of(v).len() == bit::ones(v as usize as nat),
        roles_of(v).len() <= 8,
{
    lemma_roles_below(v, 8);
    lemma_role_bits();
    assert(roles_of(v) =~= roles_below(v, 8));
    assert({
        &&& (v & 1 != 0) == (v % 2 == 1)
        &&& (v & 2 != 0) == ((v / 2) % 2 == 1)
        &&& (v & 4 != 0) == ((v / 4) % 2 == 1)
        &&& (v & 8 != 0) == ((v / 8) % 2 == 1)
        &&& (v & 16 != 0) == ((v / 16) % 2 == 1)
        &&& (v & 32 != 0) == ((v / 32) % 2 == 1)
        &&& (v & 64 != 0) == ((v / 64) % 2 == 1)
        &&& (v & 128 != 0) == ((v / 128) % 2 == 1)
    }) by (bit_vector)
        requires
            0 <= v < 256,
    ;
    let x = v as usize as nat;
    assert(x == v);
    reveal_with_fuel(bit::ones, 10);
    assert(x / 2 / 2 == x / 4);
    assert(x / 4 / 2 == x / 8);
    assert(x / 8 / 2 == x / 16);
    assert(x / 16 / 2 == x / 32);
    assert(x / 32 / 2 == x / 64);
    assert(x / 64 / 2 == x / 128);
    assert(x / 128 / 2 == 0);
    reveal_with_fuel(count_below, 9);
}

/// Any mask stands for a finite set of at most eight roles.
pub proof fn lemma_roles_of_finite(v: isize)
    ensures
        roles_of(v).finite(),
        roles_of(v).len() <= 8,
{
    lemma_roles_below(v, 8);
    lemma_count_below_le(v, 8);
    assert(roles_of(v) =~= roles_below(v, 8));
}

proof fn lemma_count_below_le(v: isize, k: nat)
    ensures
        count_below(v, k) <= k,
    decreases k,
{
    if k > 0 {
        lemma_count_below_le(v, (k - 1) as nat);
    }
}

impl View for RoleSet {
    type V = Set<Role>;

    closed spec fn view(&self) -> Set<Role> {
        roles_of(self.value)
    }
}

impl RoleSet {
    /// Only the eight role bits may be set.
    #[verifier::type_invariant]
    pub closed spec fn inv(self) -> bool {
        0 <= self.value < 256
    }

    /// The bit mask, as stored.
    pub closed spec fn spec_value(self) -> isize {
        self.value
    }

    proof fn lemma_basics(self)
        requires
            self.inv(),
        ensures
            self@.finite(),
            self@.len() <= 8,
            self@.len() == bit::ones(self.value as usize as nat),
    {
        lemma_roles_of(self.value);
    }

    /// Every role set is finite and has at most eight roles.
    pub proof fn lemma_finite(self)
        ensures
            self@.finite(),
            self@.len() <= 8,
    {
        lemma_roles_of_finite(self.value);
    }

    /// The empty set.
    pub fn empty() -> (r: RoleSet)
        ensures
            r@ == Set::<Role>::empty(),
    {
        let r = RoleSet { value: 0 };
        assert forall|x: Role| !r@.contains(x) by {
            let b = x.spec_bit();
            assert(0isize & b == 0) by (bit_vector);
        }
        assert(r@ =~= Set::<Role>::empty());
        r
    }

    /// All eight roles.
    pub fn universal() -> (r: RoleSet)
        ensures
            r@ == Set::<Role>::full(),
    {
        let r = RoleSet { value: 0xff };
        assert forall|x: Role| r@.contains(x) by {
            let b = x.spec_bit();
            lemma_role_bits();
            assert(is_role_bit(b) ==> 255isize & b != 0) by (bit_vector);
        }
        assert(r@ =~= Set::<Role>::full());
        r
    }

    /// The set of two roles.
    pub fn from_pair(r0: Role, r1: Role) -> (r: RoleSet)
        ensures
            r@ == set![r0, r1],
    {
        let b0 = r0.bit();
        let b1 = r1.bit();
        let value = b0 | b1;
        proof {
            lemma_role_bits();
            assert(is_role_bit(b0) && is_role_bit(b1) ==> 0 <= b0 | b1 < 256) by (bit_vector);
            assert forall|x: Role| #[trigger] roles_of(value).contains(x) == (x == r0 || x == r1) by {
                let c = x.spec_bit();
                assert(is_role_bit(b0) && is_role_bit(b1) && is_role_bit(c) ==> (((b0 | b1) & c
                    != 0) == (c == b0 || c == b1))) by (bit_vector);
            }
            assert(roles_of(value) =~= set![r0, r1]);
        }
        RoleSet { value }
    }

    /// Rebuilds a set from its bit mask; `None` when bits other than the
    /// eight role bits are set.
    pub fn from_value(value: isize) -> (r: Option<RoleSet>)
        ensures
            r is Some <==> 0 <= value < 256,
            r matches Some(s) ==> s.spec_value() == value && s@ == roles_of(value),
    {
        if 0 <= value && value < 256 {
            Some(RoleSet { value })
        } else {
            None
        }
    }

    /// The bit mask.
    pub fn value(&self) -> (r: isize)
        ensures
            r == self.spec_value(),
            0 <= r < 256,
            self@ == roles_of(r),
    {
        proof {
            use_type_invariant(self);
        }
        self.value
    }

    /// Whether the role is in the set.
    pub fn contains(self, role: Role) -> (r: bool)
        ensures
            r == self@.contains(role),
    {
        (self.value & role.bit()) != 0
    }

    /// Number of roles in the set.
    pub fn len(&self) -> (r: usize)
        ensures
            r == self@.len(),
            r <= 8,
    {
        proof {
            use_type_invariant(self);
            self.lemma_basics();
        }
        bit::popcnt(self.value) as usize
    }

    /// Whether the set is empty.
    pub fn is_empty(&self) -> (r: bool)
        ensures
            r == (self@ == Set::<Role>::empty()),
    {
        proof {
            use_type_invariant(self);
            self.lemma_basics();
            if self.value != 0 {
                let v = self.value;
                assert(0 < v < 256 ==> (v & 1 != 0 || v & 2 != 0 || v & 4 != 0 || v & 8 != 0 || v
                    & 16 != 0 || v & 32 != 0 || v & 64 != 0 || v & 128 != 0)) by (bit_vector);
                if v & 1 != 0 {
                    assert(self@.contains(Role::Assassin));
                } else if v & 2 != 0 {
                    assert(self@.contains(Role::Thief));
                } else if v & 4 != 0 {
                    assert(self@.contains(Role::Magician));
                } else if v & 8 != 0 {
                    assert(self@.contains(Role::King));
                } else if v & 16 != 0 {
                    assert(self@.contains(Role::Bishop));
                } else if v & 32 != 0 {
                    assert(self@.contains(Role::Merchant));
                } else if v & 64 != 0 {
                    assert(self@.contains(Role::Architect));
                } else {
                    assert(self@.contains(Role::Warlord));
                }
            } else {
                assert forall|x: Role| !self@.contains(x) by {
                    let b = x.spec_bit();
                    assert(0isize & b == 0) by (bit_vector);
                }
                assert(self@ =~= Set::<Role>::empty());
            }
        }
        self.value == 0
    }
}


/// Facts about the lowest set bit of a non-empty mask of role bits.
proof fn lemma_lowest_role_bit(s: isize, b: isize)
    requires
        0 < s < 256,
        bit::is_lowest_set_bit(s, b),
    ensures
        is_role_bit(b),
        0 <= s - b < 256,
        roles_of(s).contains(Role::from_bit_spec(b)),
        roles_of((s - b) as isize) == roles_of(s).remove(Role::from_bit_spec(b)),
{
    assert(0 < s < 256 && b != 0 && b & ((b - 1) as isize) == 0 && s & b == b ==> is_role_bit(b)
        && 0 <= s - b < 256) by (bit_vector);
    lemma_role_bits();
    let r = Role::from_bit_spec(b);
    assert(r.spec_bit() == b);
    assert forall|x: Role| #[trigger] roles_of((s - b) as isize).contains(x) == roles_of(s).remove(
        r,
    ).contains(x) by {
        let c = x.spec_bit();
        assert(is_role_bit(c) && 0 < s < 256 && b != 0 && b & ((b - 1) as isize) == 0 && s & b == b
            && s & ((b - 1) as isize) == 0 ==> ((((s - b) as isize) & c != 0) == (s & c != 0 && c
            != b))) by (bit_vector);
    }
    assert(roles_of((s - b) as isize) =~= roles_of(s).remove(r));
}

/// Facts about masks built by `|` and `& !` from masks of role bits.
proof fn lemma_mask_ops(a: isize, b: isize)
    requires
        0 <= a < 256,
        0 <= b < 256,
    ensures
        0 <= a | b < 256,
        0 <= a & !b < 256,
        roles_of(a | b) == roles_of(a).union(roles_of(b)),
        roles_of(a & !b) == roles_of(a).difference(roles_of(b)),
{
    assert(0 <= a < 256 && 0 <= b < 256 ==> 0 <= a | b < 256 && 0 <= a & !b < 256) by (bit_vector);
    lemma_role_bits();
    assert forall|x: Role| #[trigger] roles_of(a | b).contains(x) == roles_of(a).union(
        roles_of(b),
    ).contains(x) by {
        let c = x.spec_bit();
        assert(((a | b) & c != 0) == (a & c != 0 || b & c != 0)) by (bit_vector);
    }
    assert forall|x: Role| #[trigger] roles_of(a & !b).contains(x) == roles_of(a).difference(
        roles_of(b),
    ).contains(x) by {
        let c = x.spec_bit();
        assert(is_role_bit(c) ==> (((a & !b) & c != 0) == (a & c != 0 && !(b & c != 0))))
            by (bit_vector);
    }
    assert(roles_of(a | b) =~= roles_of(a).union(roles_of(b)));
    assert(roles_of(a & !b) =~= roles_of(a).difference(roles_of(b)));
}

/// The mask of one role stands for the set of that role.
proof fn lemma_single(r: Role)
    ensures
        roles_of(r.spec_bit()) == set![r],
        0 <= r.spec_bit() < 256,
{
    lemma_role_bits();
    let b = r.spec_bit();
    assert forall|x: Role| #[trigger] roles_of(b).contains(x) == (x == r) by {
        let c = x.spec_bit();
        assert(is_role_bit(b) && is_role_bit(c) ==> ((b & c != 0) == (b == c))) by (bit_vector);
    }
    assert(roles_of(b) =~= set![r]);
}

/// A set of exactly one role has that role's bit as its mask.
proof fn lemma_singleton_mask(v: isize, r: Role)
    requires
        0 <= v < 256,
        roles_of(v) == set![r],
    ensures
        v == r.spec_bit(),
{
    lemma_role_bits();
    let c = r.spec_bit();
    assert(roles_of(v).contains(r));
    assert(!roles_of(v).contains(Role::Assassin) || r == Role::Assassin);
    assert(!roles_of(v).contains(Role::Thief) || r == Role::Thief);
    assert(!roles_of(v).contains(Role::Magician) || r == Role::Magician);
    assert(!roles_of(v).contains(Role::King) || r == Role::King);
    assert(!roles_of(v).contains(Role::Bishop) || r == Role::Bishop);
    assert(!roles_of(v).contains(Role::Merchant) || r == Role::Merchant);
    assert(!roles_of(v).contains(Role::Architect) || r == Role::Architect);
    assert(!roles_of(v).contains(Role::Warlord) || r == Role::Warlord);
    assert(0 <= v < 256 && is_role_bit(c) && v & c != 0 && (c != 1 ==> v & 1 == 0) && (c != 2 ==> v
        & 2 == 0) && (c != 4 ==> v & 4 == 0) && (c != 8 ==> v & 8 == 0) && (c != 16 ==> v & 16
        == 0) && (c != 32 ==> v & 32 == 0) && (c != 64 ==> v & 64 == 0) && (c != 128 ==> v & 128
        == 0) ==> v == c) by (bit_vector);
}

impl RoleSet {
    /// The set with `role` added.
    pub fn with(self, role: Role) -> (r: RoleSet)
        ensures
            r@ == self@.insert(role),
    {
        proof {
            use_type_invariant(self);
            lemma_single(role);
            lemma_mask_ops(self.value, role.spec_bit());
            assert(self@.union(set![role]) =~= self@.insert(role));
        }
        RoleSet { value: self.value | role.bit() }
    }

    /// The set with the role of the slot added, if the slot holds one.
    pub fn with_option(self, role: OptionRole) -> (r: RoleSet)
        ensures
            r@ == match role.spec_role() {
                Some(x) => self@.insert(x),
                None => self@,
            },
    {
        match role.role() {
            Some(x) => self.with(x),
            None => self,
        }
    }

    /// The union of two sets.
    pub fn union(self, other: RoleSet) -> (r: RoleSet)
        ensures
            r@ == self@.union(other@),
    {
        proof {
            use_type_invariant(self);
            use_type_invariant(other);
            lemma_mask_ops(self.value, other.value);
        }
        RoleSet { value: self.value | other.value }
    }

    /// The set with `role` removed.
    pub fn without(self, role: Role) -> (r: RoleSet)
        ensures
            r@ == self@.remove(role),
    {
        proof {
            use_type_invariant(self);
            lemma_single(role);
            lemma_mask_ops(self.value, role.spec_bit());
            assert(self@.difference(set![role]) =~= self@.remove(role));
        }
        RoleSet { value: self.value & !role.bit() }
    }

    /// The roles of `self` that are not in `other`.
    pub fn difference(self, other: RoleSet) -> (r: RoleSet)
        ensures
            r@ == self@.difference(other@),
    {
        proof {
            use_type_invariant(self);
            use_type_invariant(other);
            lemma_mask_ops(self.value, other.value);
        }
        RoleSet { value: self.value & !other.value }
    }

    /// The one role of a set that holds exactly one.
    pub fn into_role(self) -> (r: Role)
        requires
            self@.len() == 1,
        ensures
            self@ == set![r],
    {
        proof {
            use_type_invariant(self);
            lemma_roles_of_finite(self.value);
            let x = self@.choose();
            assert(self@.contains(x));
            assert(self@.remove(x).len() == 0);
            assert(self@.remove(x) =~= Set::<Role>::empty());
            assert(self@ =~= set![x]);
            lemma_singleton_mask(self.value, x);
            lemma_role_bits();
        }
        Role::from_bit(self.value)
    }

    /// The role at place `index` when the set is walked from the lowest
    /// bit up: clears the lowest bit `index` times and names the next one.
    fn nth(&self, index: usize) -> (r: Role)
        requires
            index < self@.len(),
        ensures
            self@.contains(r),
    {
        proof {
            use_type_invariant(self);
            lemma_roles_of_finite(self.value);
        }
        let mut s = self.value;
        let mut i: usize = 0;
        while i < index
            invariant
                0 <= s < 256,
                i <= index,
                index < self@.len(),
                self@ == roles_of(self.value),
                roles_of(s).subset_of(self@),
                roles_of(s).len() == self@.len() - i,
                roles_of(s).finite(),
            decreases index - i,
        {
            proof {
                if s == 0 {
                    assert forall|x: Role| !roles_of(s).contains(x) by {
                        let c = x.spec_bit();
                        assert(0isize & c == 0) by (bit_vector);
                    }
                    assert(roles_of(s) =~= Set::<Role>::empty());
                }
            }
            let t = bit::clear_lowbit(s);
            proof {
                lemma_lowest_role_bit(s, (s - t) as isize);
                assert((s - ((s - t) as isize)) as isize == t);
            }
            s = t;
            i = i + 1;
        }
        proof {
            if s == 0 {
                assert forall|x: Role| !roles_of(s).contains(x) by {
                    let c = x.spec_bit();
                    assert(0isize & c == 0) by (bit_vector);
                }
                assert(roles_of(s) =~= Set::<Role>::empty());
            }
        }
        let b = bit::lowbit(s);
        proof {
            lemma_lowest_role_bit(s, b);
        }
        Role::from_bit(b)
    }

    /// A role of the set picked by the generator; the set must not be empty.
    pub fn random_choose(&self, rng: &mut StdRng) -> (r: Role)
        requires
            self@.len() > 0,
        ensures
            self@.contains(r),
    {
        let cnt = self.len();
        let index = random_below(rng, cnt);
        self.nth(index)
    }
}

} // verus!
