//! Negotiation flags of the trust authority, as a set of bits.
//!
//! The bits have the values that the platform's authorization services give
//! them, so that a set can be handed to the platform as it is.

use vstd::prelude::*;

verus! {

/// Placeholder for "no option": the platform's defaults apply.
pub const DEFAULTS: u32 = 0;

/// The user may be asked for credentials.
pub const INTERACTION_ALLOWED: u32 = 1;

/// The authority may extend the grant to the rights that are asked for.
pub const EXTEND_RIGHTS: u32 = 2;

/// The authority may grant some of the rights and refuse others.
pub const PARTIAL_RIGHTS: u32 = 4;

/// The rights are revoked when the context is freed.
pub const DESTROY_RIGHTS: u32 = 8;

/// The rights are authorized before their first use.
pub const PREAUTHORIZE: u32 = 16;

/// Every bit that has a meaning.
pub const ALL: u32 = 31;

/// A set of negotiation flags.
#[derive(Clone, Copy, Debug, PartialEq, Eq, Structural)]
pub struct Flags {
    bits: u32,
}

impl View for Flags {
    type V = u32;

    closed spec fn view(&self) -> u32 {
        self.bits
    }
}

/// `set` holds every bit of `part`.
pub open spec fn holds(set: u32, part: u32) -> bool {
    set & part == part
}

impl Flags {
    /// The set with exactly the meaningful bits of `bits`.
    pub fn from_bits_truncate(bits: u32) -> (r: Flags)
        ensures
            r@ == bits & ALL,
    {
        Flags { bits: bits & ALL }
    }

    /// The empty set.
    pub fn defaults() -> (r: Flags)
        ensures
            r@ == DEFAULTS,
    {
        Flags { bits: DEFAULTS }
    }

    /// The bits of the set.
    pub fn bits(&self) -> (r: u32)
        ensures
            r == self@,
    {
        self.bits
    }

    /// Whether every flag of `other` is in the set.
    pub fn contains(&self, other: Flags) -> (r: bool)
        ensures
            r == holds(self@, other@),
    {
        self.bits & other.bits == other.bits
    }

    /// The flags that are in either set.
    pub fn union(self, other: Flags) -> (r: Flags)
        ensures
            r@ == self@ | other@,
    {
        Flags { bits: self.bits | other.bits }
    }

    /// The policy under which the administrative right is negotiated: the
    /// platform's defaults, with a prompt allowed, the right authorized ahead
    /// of its use, and the grant extended to what was asked for.
    pub fn acquire_policy() -> (r: Flags)
        ensures
            r@ == acquire_policy_bits(),
    {
        let policy = Flags::defaults()
            .union(Flags::from_bits_truncate(INTERACTION_ALLOWED))
            .union(Flags::from_bits_truncate(PREAUTHORIZE))
            .union(Flags::from_bits_truncate(EXTEND_RIGHTS));
        proof {
            assert(((((0u32 | (1u32 & 31u32)) | (16u32 & 31u32)) | (2u32 & 31u32))) == 19u32)
                by (bit_vector);
        }
        policy
    }

    /// The options under which the privileged process is launched: none.
    pub fn spawn_policy() -> (r: Flags)
        ensures
            r@ == DEFAULTS,
    {
        Flags::defaults()
    }
}

/// The bits of the negotiation policy.
pub open spec fn acquire_policy_bits() -> u32 {
    19
}

/// The negotiation policy allows a prompt, authorizes ahead and extends the
/// grant; it neither accepts a partial grant nor revokes rights.
pub proof fn law_acquire_policy_is_minimal()
    ensures
        acquire_policy_bits() == DEFAULTS | INTERACTION_ALLOWED | PREAUTHORIZE | EXTEND_RIGHTS,
        holds(acquire_policy_bits(), INTERACTION_ALLOWED),
        holds(acquire_policy_bits(), PREAUTHORIZE),
        holds(acquire_policy_bits(), EXTEND_RIGHTS),
        !holds(acquire_policy_bits(), PARTIAL_RIGHTS),
        !holds(acquire_policy_bits(), DESTROY_RIGHTS),
{
    assert(0u32 | 1u32 | 16u32 | 2u32 == 19u32) by (bit_vector);
    assert(19u32 & 1u32 == 1u32) by (bit_vector);
    assert(19u32 & 16u32 == 16u32) by (bit_vector);
    assert(19u32 & 2u32 == 2u32) by (bit_vector);
    assert(19u32 & 4u32 != 4u32) by (bit_vector);
    assert(19u32 & 8u32 != 8u32) by (bit_vector);
}

/// A union holds a flag set exactly when it holds all of its bits; for a
/// single flag that is when one of the two sides holds it.
pub proof fn law_union_holds(a: u32, b: u32, part: u32)
    ensures
        holds(a, part) || holds(b, part) ==> holds(a | b, part),
        holds(a | b, a),
        holds(a | b, b),
        holds(a, DEFAULTS),
{
    assert((a & part == part || b & part == part) ==> (a | b) & part == part) by (bit_vector);
    assert((a | b) & a == a) by (bit_vector);
    assert((a | b) & b == b) by (bit_vector);
    assert(a & 0u32 == 0u32) by (bit_vector);
}

} // verus!
