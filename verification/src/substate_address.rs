//! Addresses of substates: points on the 256-bit ring that committees divide among themselves.
use crate::uint::{lemma_u256_view_injective, U256};
use vstd::prelude::*;

verus! {

/// The address of a substate, read as a 256-bit number.
#[derive(Clone, Copy, Debug, PartialEq, Eq, Structural, Hash)]
pub struct SubstateAddress {
    value: U256,
}

impl View for SubstateAddress {
    type V = nat;

    /// The number that the address names.
    closed spec fn view(&self) -> nat {
        self.value@
    }
}

impl SubstateAddress {
    /// The address 0.
    pub fn zero() -> (r: SubstateAddress)
        ensures
            r@ == 0,
    {
        SubstateAddress { value: U256::zero() }
    }

    /// The address that the number `x` names.
    pub fn from_u256(x: U256) -> (r: SubstateAddress)
        ensures
            r@ == x@,
    {
        SubstateAddress { value: x }
    }

    /// The number that this address names.
    pub fn to_u256(&self) -> (r: U256)
        ensures
            r@ == self@,
    {
        self.value
    }
}

/// Reading back the number of an address made from a number gives that number: where `a` was
/// made from `x` (`a@ == x@`) and `y` was read from `a` (`y@ == a@`), `y` is `x`.
pub proof fn law_address_roundtrip(x: U256, a: SubstateAddress, y: U256)
    requires
        a@ == x@,
        y@ == a@,
    ensures
        y == x,
{
    lemma_u256_view_injective(x, y);
}

/// Addresses that name the same number are the same address.
pub proof fn lemma_substate_address_injective(a: SubstateAddress, b: SubstateAddress)
    requires
        a@ == b@,
    ensures
        a == b,
{
    lemma_u256_view_injective(a.value, b.value);
}

} // verus!
