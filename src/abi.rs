use vstd::prelude::*;

verus! {

/// The parameter types for which calldata is synthesized; each is encoded as one
/// 32-byte word.
#[derive(Clone, Copy, Debug, PartialEq, Eq, Structural)]
pub enum ParamType {
    Address,
    Bool,
    Uint256,
    Int256,
    Bytes32,
}

/// How a function may touch contract state.
#[derive(Clone, Copy, Debug, PartialEq, Eq, Structural)]
pub enum StateMutability {
    Pure,
    View,
    NonPayable,
    Payable,
}

/// Functions that may change state: neither pure nor view.
pub open spec fn is_mutating(m: StateMutability) -> bool {
    m != StateMutability::Pure && m != StateMutability::View
}

/// A function of a contract: its canonical signature such as `setValue(uint256)`, its
/// 4-byte selector, its parameter types and its mutability.
#[derive(Clone, Debug)]
pub struct FunctionDesc {
    pub signature: String,
    pub selector: [u8; 4],
    pub inputs: Vec<ParamType>,
    pub mutability: StateMutability,
}

/// Keccak-256 digest of the UTF-8 bytes of a text.
pub uninterp spec fn keccak_of_text(s: Seq<char>) -> Seq<u8>;

/// The selector of a signature: the first four bytes of its Keccak-256 digest.
pub open spec fn selector_of(signature: Seq<char>) -> Seq<u8> {
    keccak_of_text(signature).take(4)
}

/// Relies on alloy_primitives::keccak256: the 32-byte Keccak-256 digest of the input,
/// a function of the bytes alone.
#[verifier::external_body]
fn keccak_text(s: &str) -> (r: [u8; 32])
    ensures
        r@ == keccak_of_text(s@),
{
    alloy_primitives::keccak256(s.as_bytes()).0
}

impl FunctionDesc {
    /// A function descriptor whose selector is computed from its signature.
    pub fn new(signature: String, inputs: Vec<ParamType>, mutability: StateMutability) -> (r:
        FunctionDesc)
        ensures
            r.signature@ == signature@,
            r.selector@ == selector_of(signature@),
            r.inputs@ == inputs@,
            r.mutability == mutability,
    {
        let digest = keccak_text(signature.as_str());
        let selector: [u8; 4] = [digest[0], digest[1], digest[2], digest[3]];
        assert(selector@ =~= keccak_of_text(signature@).take(4));
        FunctionDesc { signature, selector, inputs, mutability }
    }
}

} // verus!
