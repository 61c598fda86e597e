//! The set of decoration keywords found in a style string.

use vstd::prelude::*;

verus! {

/// A decoration that a keyword of a style string asks for.
#[derive(Clone, Copy, Debug, PartialEq, Eq)]
pub enum DecorationFlag {
    Box,
    Overline,
    Underline,
}

/// The one decoration that a set of flags amounts to.
#[derive(Clone, Copy, Debug, PartialEq, Eq)]
pub enum DecorationKind {
    Box,
    Underline,
    Overline,
    Underoverline,
    NoDecoration,
}

/// A set of decoration flags, one bit for each.
#[derive(Clone, Copy, Debug, PartialEq, Eq)]
pub struct DecorationAttributes {
    bits: u8,
}

/// The bit that stands for a flag.
pub open spec fn flag_bit(flag: DecorationFlag) -> u8 {
    match flag {
        DecorationFlag::Box => 1u8,
        DecorationFlag::Overline => 2u8,
        DecorationFlag::Underline => 4u8,
    }
}

/// The decoration that a set of flags amounts to. A line above and a line
/// below make one decoration. A box takes the lines in: where a box is asked
/// for, the lines asked for with it add nothing.
pub open spec fn decoration_kind(flags: Set<DecorationFlag>) -> DecorationKind {
    if flags.contains(DecorationFlag::Box) {
        DecorationKind::Box
    } else if flags.contains(DecorationFlag::Overline) && flags.contains(
        DecorationFlag::Underline,
    ) {
        DecorationKind::Underoverline
    } else if flags.contains(DecorationFlag::Overline) {
        DecorationKind::Overline
    } else if flags.contains(DecorationFlag::Underline) {
        DecorationKind::Underline
    } else {
        DecorationKind::NoDecoration
    }
}

impl DecorationFlag {
    /// The bit that stands for the flag in a set.
    pub fn bit(self) -> (bit: u8)
        ensures
            bit == flag_bit(self),
    {
        match self {
            DecorationFlag::Box => 1,
            DecorationFlag::Overline => 2,
            DecorationFlag::Underline => 4,
        }
    }
}

impl View for DecorationAttributes {
    type V = Set<DecorationFlag>;

    /// The flags whose bits are set.
    closed spec fn view(&self) -> Set<DecorationFlag> {
        Set::new(|flag: DecorationFlag| self.bits & flag_bit(flag) != 0)
    }
}

impl DecorationAttributes {
    /// No bit is set but those of the three flags.
    #[verifier::type_invariant]
    spec fn known_bits(self) -> bool {
        self.bits < 8
    }

    /// The empty set.
    pub fn new() -> (attributes: DecorationAttributes)
        ensures
            attributes@ == Set::<DecorationFlag>::empty(),
    {
        let attributes = DecorationAttributes { bits: 0 };
        proof {
            assert(0u8 & 1u8 == 0 && 0u8 & 2u8 == 0 && 0u8 & 4u8 == 0) by (bit_vector);
            assert(attributes@ =~= Set::<DecorationFlag>::empty());
        }
        attributes
    }

    /// The bits of the set: 1 for a box, 2 for a line above, 4 for a line
    /// below.
    pub fn bits(&self) -> (bits: u8)
        ensures
            bits < 8,
            self@.contains(DecorationFlag::Box) <==> bits & 1 != 0,
            self@.contains(DecorationFlag::Overline) <==> bits & 2 != 0,
            self@.contains(DecorationFlag::Underline) <==> bits & 4 != 0,
    {
        proof {
            use_type_invariant(self);
        }
        self.bits
    }

    /// The set with `flag` added.
    pub fn insert(self, flag: DecorationFlag) -> (attributes: DecorationAttributes)
        ensures
            attributes@ == self@.insert(flag),
    {
        proof {
            use_type_invariant(self);
        }
        let bit = flag.bit();
        let old_bits = self.bits;
        let bits = old_bits | bit;
        proof {
            assert(old_bits < 8 && (bit == 1 || bit == 2 || bit == 4) ==> (old_bits | bit) < 8
                && ((old_bits | bit) & 1 != 0 <==> bit == 1 || old_bits & 1 != 0) && ((old_bits
                | bit) & 2 != 0 <==> bit == 2 || old_bits & 2 != 0) && ((old_bits | bit) & 4 != 0
                <==> bit == 4 || old_bits & 4 != 0)) by (bit_vector);
        }
        let attributes = DecorationAttributes { bits };
        proof {
            assert(attributes@ =~= self@.insert(flag));
        }
        attributes
    }

    /// Whether the flag is in the set.
    pub fn contains(&self, flag: DecorationFlag) -> (b: bool)
        ensures
            b == self@.contains(flag),
    {
        self.bits & flag.bit() != 0
    }

    /// Whether no flag is in the set.
    pub fn is_empty(&self) -> (b: bool)
        ensures
            b == (self@ == Set::<DecorationFlag>::empty()),
    {
        let bits = self.bits;
        proof {
            use_type_invariant(self);
            assert(bits < 8 ==> (bits == 0 <==> bits & 1 == 0 && bits & 2 == 0 && bits & 4 == 0))
                by (bit_vector);
            if bits == 0 {
                assert(self@ =~= Set::<DecorationFlag>::empty());
            } else {
                assert(self@.contains(DecorationFlag::Box) || self@.contains(
                    DecorationFlag::Overline,
                ) || self@.contains(DecorationFlag::Underline));
            }
        }
        bits == 0
    }

    /// The one decoration that the set amounts to.
    pub fn kind(&self) -> (kind: DecorationKind)
        ensures
            kind == decoration_kind(self@),
    {
        if self.contains(DecorationFlag::Box) {
            DecorationKind::Box
        } else if self.contains(DecorationFlag::Overline) {
            if self.contains(DecorationFlag::Underline) {
                DecorationKind::Underoverline
            } else {
                DecorationKind::Overline
            }
        } else if self.contains(DecorationFlag::Underline) {
            DecorationKind::Underline
        } else {
            DecorationKind::NoDecoration
        }
    }
}

} // verus!
