use vstd::prelude::*;

verus! {

/// Why a call could not be generated.
#[derive(Clone, Copy, Debug, PartialEq, Eq, Structural)]
pub enum GenError {
    /// No registered contract exposes any function.
    NoEligibleContract,
    /// The chosen contract has no targeted function and no state-changing function.
    NoEligibleFunction,
    /// Every sender drawn was excluded.
    NoEligibleSender,
    /// The address a call was directed at is not in the registry.
    UnregisteredTarget,
}

/// A 20-byte account or contract address.
#[derive(Clone, Copy, Debug, PartialEq, Eq, Hash)]
pub struct Address {
    pub bytes: [u8; 20],
}

impl View for Address {
    type V = Seq<u8>;

    open spec fn view(&self) -> Seq<u8> {
        self.bytes@
    }
}

/// Whether some address of `s` has the bytes `a`.
pub open spec fn contains_addr(s: Seq<Address>, a: Seq<u8>) -> bool {
    exists|i: int| 0 <= i < s.len() && s[i]@ == a
}

impl Address {
    pub fn new(bytes: [u8; 20]) -> (r: Address)
        ensures
            r@ == bytes@,
    {
        Address { bytes }
    }

    /// Byte-wise equality of two addresses.
    pub fn same(&self, other: &Address) -> (r: bool)
        ensures
            r == (self@ == other@),
    {
        let mut i: usize = 0;
        while i < 20
            invariant
                i <= 20,
                self@.len() == 20,
                other@.len() == 20,
                forall|j: int| 0 <= j < i ==> self@[j] == other@[j],
            decreases 20 - i,
        {
            if self.bytes[i] != other.bytes[i] {
                return false;
            }
            i += 1;
        }
        assert(self@ =~= other@);
        true
    }
}

/// Whether `a` occurs in `s`.
pub fn addr_member(s: &Vec<Address>, a: &Address) -> (r: bool)
    ensures
        r == contains_addr(s@, a@),
{
    let mut i: usize = 0;
    while i < s.len()
        invariant
            i <= s@.len(),
            forall|j: int| 0 <= j < i ==> s@[j]@ != a@,
        decreases s@.len() - i,
    {
        if s[i].same(a) {
            return true;
        }
        i += 1;
    }
    false
}

} // verus!
