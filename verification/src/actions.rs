//! The capabilities of a lemming: a set over walk, dig and bridge, kept as bit
//! flags. Any combination is allowed; falling is not a capability and is
//! never switched off.

use vstd::prelude::*;

verus! {

/// One capability.
#[derive(Clone, Copy, Debug, PartialEq, Eq, Structural)]
pub enum Action {
    Walk,
    Dig,
    Bridge,
}

/// The flag of walking.
pub const WALK: u32 = 0x01;

/// The flag of digging.
pub const DIG: u32 = 0x02;

/// The flag of bridging.
pub const BRIDGE: u32 = 0x04;

/// Every flag that has a meaning.
pub const ALL: u32 = 0x07;

impl Action {
    /// The flag that stands for this capability.
    pub open spec fn flag(self) -> u32 {
        match self {
            Action::Walk => WALK,
            Action::Dig => DIG,
            Action::Bridge => BRIDGE,
        }
    }

    #[verifier::when_used_as_spec(flag)]
    pub fn bit(self) -> (bit: u32)
        ensures
            bit == self.flag(),
    {
        match self {
            Action::Walk => WALK,
            Action::Dig => DIG,
            Action::Bridge => BRIDGE,
        }
    }
}

/// A set of capabilities. Its view is the set of the actions it holds.
#[derive(Clone, Copy, Debug, PartialEq, Eq, Structural)]
pub struct Actions {
    bits: u32,
}

impl View for Actions {
    type V = Set<Action>;

    closed spec fn view(&self) -> Set<Action> {
        Set::new(|a: Action| self.bits & a.flag() != 0)
    }
}

impl Actions {
    #[verifier::type_invariant]
    spec fn known_flags_only(self) -> bool {
        self.bits & !ALL == 0
    }

    /// Whether the set holds `action`.
    pub open spec fn has(self, action: Action) -> bool {
        self@.contains(action)
    }

    /// The flags of the set as a number: the sum of the flags of its actions.
    pub closed spec fn spec_bits(&self) -> u32 {
        self.bits
    }

    /// The set that holds no action.
    pub fn empty() -> (set: Actions)
        ensures
            set@ == Set::<Action>::empty(),
            set.spec_bits() == 0,
    {
        assert(0u32 & !ALL == 0 && 0u32 & WALK == 0 && 0u32 & DIG == 0 && 0u32 & BRIDGE == 0)
            by (bit_vector);
        let set = Actions { bits: 0 };
        assert(set@ =~= Set::<Action>::empty());
        set
    }

    /// The set that holds `action` and nothing else.
    pub fn only(action: Action) -> (set: Actions)
        ensures
            set@ == Set::<Action>::empty().insert(action),
            set.spec_bits() == action.flag(),
    {
        assert(WALK & !ALL == 0 && DIG & !ALL == 0 && BRIDGE & !ALL == 0 && WALK & WALK != 0
            && WALK & DIG == 0 && WALK & BRIDGE == 0 && DIG & WALK == 0 && DIG & DIG != 0 && DIG
            & BRIDGE == 0 && BRIDGE & WALK == 0 && BRIDGE & DIG == 0 && BRIDGE & BRIDGE != 0)
            by (bit_vector);
        let set = Actions { bits: action.bit() };
        assert(set@ =~= Set::<Action>::empty().insert(action));
        set
    }

    /// The set that the known flags of `bits` describe; other bits are
    /// dropped.
    pub fn from_bits_truncate(bits: u32) -> (set: Actions)
        ensures
            forall|a: Action| set.has(a) == (bits & a.flag() != 0),
            set.spec_bits() == bits & ALL,
    {
        let kept = bits & ALL;
        assert(kept & !ALL == 0 && (kept & WALK != 0) == (bits & WALK != 0) && (kept & DIG != 0)
            == (bits & DIG != 0) && (kept & BRIDGE != 0) == (bits & BRIDGE != 0)) by (bit_vector)
            requires
                kept == bits & ALL,
        ;
        Actions { bits: kept }
    }

    /// The flags of the set.
    #[verifier::when_used_as_spec(spec_bits)]
    pub fn bits(&self) -> (bits: u32)
        ensures
            bits == self.spec_bits(),
            bits <= ALL,
            forall|a: Action| self.has(a) == (bits & a.flag() != 0),
    {
        proof {
            use_type_invariant(self);
            let b = self.bits;
            assert(b <= ALL) by (bit_vector)
                requires
                    b & !ALL == 0,
            ;
        }
        self.bits
    }

    /// Whether every action of `other` is in this set.
    pub fn contains(&self, other: Actions) -> (all: bool)
        ensures
            all == other@.subset_of(self@),
    {
        proof {
            use_type_invariant(self);
            use_type_invariant(other);
            let a = self.bits;
            let b = other.bits;
            lemma_flags(a);
            lemma_flags(b);
            assert((a & b == b) <==> ((b & WALK != 0 ==> a & WALK != 0) && (b & DIG != 0 ==> a
                & DIG != 0) && (b & BRIDGE != 0 ==> a & BRIDGE != 0))) by (bit_vector)
                requires
                    a & !ALL == 0,
                    b & !ALL == 0,
            ;
            if a & b == b {
                assert forall|x: Action| other@.contains(x) implies self@.contains(x) by {
                    lemma_flags(a);
                }
            } else {
                let witness = if b & WALK != 0 && a & WALK == 0 {
                    Action::Walk
                } else if b & DIG != 0 && a & DIG == 0 {
                    Action::Dig
                } else {
                    Action::Bridge
                };
                assert(other@.contains(witness) && !self@.contains(witness));
            }
        }
        self.bits & other.bits == other.bits
    }

    /// Adds the actions of `other`.
    pub fn insert(&mut self, other: Actions)
        ensures
            final(self)@ == old(self)@.union(other@),
            final(self).spec_bits() == old(self).spec_bits() | other.spec_bits(),
    {
        proof {
            use_type_invariant(&*self);
            use_type_invariant(other);
        }
        let ghost a = self.bits;
        let ghost b = other.bits;
        proof {
            assert((a | b) & !ALL == 0 && ((a | b) & WALK != 0) == (a & WALK != 0 || b & WALK
                != 0) && ((a | b) & DIG != 0) == (a & DIG != 0 || b & DIG != 0) && ((a | b)
                & BRIDGE != 0) == (a & BRIDGE != 0 || b & BRIDGE != 0)) by (bit_vector)
                requires
                    a & !ALL == 0,
                    b & !ALL == 0,
            ;
        }
        self.bits = self.bits | other.bits;
        proof {
            lemma_flags(a);
            lemma_flags(b);
            lemma_flags(a | b);
            assert(self@ =~= old(self)@.union(other@));
        }
    }

    /// Takes the actions of `other` out.
    pub fn remove(&mut self, other: Actions)
        ensures
            final(self)@ == old(self)@.difference(other@),
            final(self).spec_bits() == old(self).spec_bits() & !other.spec_bits(),
    {
        proof {
            use_type_invariant(&*self);
            use_type_invariant(other);
        }
        let ghost a = self.bits;
        let ghost b = other.bits;
        proof {
            assert((a & !b) & !ALL == 0 && ((a & !b) & WALK != 0) == (a & WALK != 0 && b & WALK
                == 0) && ((a & !b) & DIG != 0) == (a & DIG != 0 && b & DIG == 0) && ((a & !b)
                & BRIDGE != 0) == (a & BRIDGE != 0 && b & BRIDGE == 0)) by (bit_vector)
                requires
                    a & !ALL == 0,
                    b & !ALL == 0,
            ;
        }
        self.bits = self.bits & !other.bits;
        proof {
            lemma_flags(a);
            lemma_flags(b);
            lemma_flags(a & !b);
            assert(self@ =~= old(self)@.difference(other@));
        }
    }
}

/// Membership of each action in the set of flags `bits`, spelled out flag by
/// flag.
proof fn lemma_flags(bits: u32)
    ensures
        forall|a: Action|
            (Actions { bits })@.contains(a) == (bits & #[trigger] a.flag() != 0),
        (Actions { bits })@.contains(Action::Walk) == (bits & WALK != 0),
        (Actions { bits })@.contains(Action::Dig) == (bits & DIG != 0),
        (Actions { bits })@.contains(Action::Bridge) == (bits & BRIDGE != 0),
{
}

} // verus!
