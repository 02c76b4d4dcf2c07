use vstd::prelude::*;
use crate::abi::{is_mutating, FunctionDesc};
use crate::select::pick_index;
use crate::types::{Address, GenError};

verus! {

/// A deployed contract: its address, the functions of its ABI, and the functions that
/// were explicitly targeted (empty: every state-changing function of the ABI is).
#[derive(Clone, Debug)]
pub struct ContractEntry {
    pub address: Address,
    pub abi: Vec<FunctionDesc>,
    pub targeted_functions: Vec<FunctionDesc>,
}

/// The contracts known to a run, in order of registration; addresses are unique.
#[derive(Debug)]
pub struct ContractRegistry {
    pub entries: Vec<ContractEntry>,
}

/// No two entries share an address.
pub open spec fn unique_addresses(s: Seq<ContractEntry>) -> bool {
    forall|i: int, j: int|
        0 <= i < s.len() && 0 <= j < s.len() && i != j ==> s[i].address@ != s[j].address@
}

/// A contract may be picked when its ABI exposes at least one function.
pub open spec fn eligible_contract(c: ContractEntry) -> bool {
    c.abi@.len() > 0
}

/// Positions of the eligible contracts, in order.
pub open spec fn eligible_positions(s: Seq<ContractEntry>) -> Seq<int>
    decreases s.len(),
{
    if s.len() == 0 {
        Seq::empty()
    } else {
        let p = eligible_positions(s.drop_last());
        if eligible_contract(s.last()) {
            p.push(s.len() - 1)
        } else {
            p
        }
    }
}

/// Positions of the state-changing functions, in order.
pub open spec fn mutating_positions(s: Seq<FunctionDesc>) -> Seq<int>
    decreases s.len(),
{
    if s.len() == 0 {
        Seq::empty()
    } else {
        let p = mutating_positions(s.drop_last());
        if is_mutating(s.last().mutability) {
            p.push(s.len() - 1)
        } else {
            p
        }
    }
}

/// The position of the contract picked by `draw`: uniform among the eligible ones.
pub open spec fn contract_choice(s: Seq<ContractEntry>, draw: u64) -> Option<int> {
    let p = eligible_positions(s);
    if p.len() == 0 {
        None
    } else {
        Some(p[(draw as int) % p.len() as int])
    }
}

/// The function picked by `draw`: uniform among the targeted ones if there are any,
/// else uniform among the state-changing functions of the ABI.
pub open spec fn function_choice(abi: Seq<FunctionDesc>, targeted: Seq<FunctionDesc>, draw: u64)
    -> Option<FunctionDesc> {
    if targeted.len() > 0 {
        Some(targeted[(draw as int) % targeted.len() as int])
    } else {
        let p = mutating_positions(abi);
        if p.len() == 0 {
            None
        } else {
            Some(abi[p[(draw as int) % p.len() as int]])
        }
    }
}

/// Whether `i` is the first position of an entry registered under `a`.
pub open spec fn first_position(s: Seq<ContractEntry>, a: Seq<u8>, i: int) -> bool {
    &&& 0 <= i < s.len()
    &&& s[i].address@ == a
    &&& forall|j: int| 0 <= j < i ==> s[j].address@ != a
}

/// The first position of an entry registered under `a`, if any.
pub open spec fn position_of(s: Seq<ContractEntry>, a: Seq<u8>) -> Option<int> {
    if exists|i: int| first_position(s, a, i) {
        Some(choose|i: int| first_position(s, a, i))
    } else {
        None
    }
}

pub(crate) proof fn lemma_positions_bounded(s: Seq<ContractEntry>)
    ensures
        forall|k: int|
            0 <= k < eligible_positions(s).len() ==> 0 <= #[trigger] eligible_positions(s)[k]
                < s.len(),
    decreases s.len(),
{
    if s.len() > 0 {
        lemma_positions_bounded(s.drop_last());
        let p = eligible_positions(s.drop_last());
        assert forall|k: int| 0 <= k < eligible_positions(s).len() implies 0 <= #[trigger] eligible_positions(s)[k]
            < s.len() by {
            if k < p.len() {
                assert(0 <= p[k] < s.len() - 1);
            }
        }
    }
}

pub(crate) proof fn lemma_mutating_bounded(s: Seq<FunctionDesc>)
    ensures
        forall|k: int|
            0 <= k < mutating_positions(s).len() ==> 0 <= #[trigger] mutating_positions(s)[k]
                < s.len(),
    decreases s.len(),
{
    if s.len() > 0 {
        lemma_mutating_bounded(s.drop_last());
        let p = mutating_positions(s.drop_last());
        assert forall|k: int| 0 <= k < mutating_positions(s).len() implies 0 <= #[trigger] mutating_positions(s)[k]
            < s.len() by {
            if k < p.len() {
                assert(0 <= p[k] < s.len() - 1);
            }
        }
    }
}

pub(crate) proof fn lemma_mutating_sound(s: Seq<FunctionDesc>)
    ensures
        forall|k: int|
            0 <= k < mutating_positions(s).len() ==> is_mutating(
                s[#[trigger] mutating_positions(s)[k]].mutability,
            ),
    decreases s.len(),
{
    if s.len() > 0 {
        lemma_mutating_sound(s.drop_last());
        lemma_mutating_bounded(s.drop_last());
        let p = mutating_positions(s.drop_last());
        assert forall|k: int| 0 <= k < mutating_positions(s).len() implies is_mutating(
            s[#[trigger] mutating_positions(s)[k]].mutability,
        ) by {
            if k < p.len() {
                assert(s[p[k]] == s.drop_last()[p[k]]);
            }
        }
    }
}

pub(crate) proof fn lemma_eligible_nonempty(s: Seq<ContractEntry>, i: int)
    requires
        0 <= i < s.len(),
        eligible_contract(s[i]),
    ensures
        eligible_positions(s).len() > 0,
    decreases s.len(),
{
    if i < s.len() - 1 {
        lemma_eligible_nonempty(s.drop_last(), i);
    }
}

pub(crate) proof fn lemma_mutating_nonempty(s: Seq<FunctionDesc>, i: int)
    requires
        0 <= i < s.len(),
        is_mutating(s[i].mutability),
    ensures
        mutating_positions(s).len() > 0,
    decreases s.len(),
{
    if i < s.len() - 1 {
        lemma_mutating_nonempty(s.drop_last(), i);
    }
}

/// Positions of the eligible contracts of `s`.
fn collect_eligible(s: &Vec<ContractEntry>) -> (r: Vec<usize>)
    ensures
        r@.len() == eligible_positions(s@).len(),
        forall|k: int| 0 <= k < r@.len() ==> r@[k] as int == eligible_positions(s@)[k],
{
    let mut r: Vec<usize> = Vec::new();
    let mut i: usize = 0;
    while i < s.len()
        invariant
            i <= s@.len(),
            r@.len() == eligible_positions(s@.take(i as int)).len(),
            forall|k: int|
                0 <= k < r@.len() ==> r@[k] as int == eligible_positions(s@.take(i as int))[k],
        decreases s@.len() - i,
    {
        assert(s@.take(i as int + 1).drop_last() =~= s@.take(i as int));
        if s[i].abi.len() > 0 {
            r.push(i);
        }
        i += 1;
    }
    assert(s@.take(s@.len() as int) =~= s@);
    r
}

/// Positions of the state-changing functions of `s`.
fn collect_mutating(s: &Vec<FunctionDesc>) -> (r: Vec<usize>)
    ensures
        r@.len() == mutating_positions(s@).len(),
        forall|k: int| 0 <= k < r@.len() ==> r@[k] as int == mutating_positions(s@)[k],
{
    let mut r: Vec<usize> = Vec::new();
    let mut i: usize = 0;
    while i < s.len()
        invariant
            i <= s@.len(),
            r@.len() == mutating_positions(s@.take(i as int)).len(),
            forall|k: int|
                0 <= k < r@.len() ==> r@[k] as int == mutating_positions(s@.take(i as int))[k],
        decreases s@.len() - i,
    {
        assert(s@.take(i as int + 1).drop_last() =~= s@.take(i as int));
        let m = s[i].mutability;
        if m != crate::abi::StateMutability::Pure && m != crate::abi::StateMutability::View {
            r.push(i);
        }
        i += 1;
    }
    assert(s@.take(s@.len() as int) =~= s@);
    r
}

impl ContractRegistry {
    pub fn new() -> (r: ContractRegistry)
        ensures
            r.entries@.len() == 0,
    {
        ContractRegistry { entries: Vec::new() }
    }

    /// The position of the entry registered under `a`.
    pub fn find(&self, a: &Address) -> (r: Option<usize>)
        ensures
            match r {
                Some(i) => i < self.entries@.len() && position_of(self.entries@, a@) == Some(
                    i as int,
                ),
                None => position_of(self.entries@, a@) is None && forall|j: int|
                    0 <= j < self.entries@.len() ==> self.entries@[j].address@ != a@,
            },
    {
        let mut i: usize = 0;
        while i < self.entries.len()
            invariant
                i <= self.entries@.len(),
                forall|j: int| 0 <= j < i ==> self.entries@[j].address@ != a@,
            decreases self.entries@.len() - i,
        {
            if self.entries[i].address.same(a) {
                assert(first_position(self.entries@, a@, i as int));
                proof {
                    let c = choose|c: int| first_position(self.entries@, a@, c);
                    assert(!(c < i as int));
                    assert(!(c > i as int));
                }
                return Some(i);
            }
            i += 1;
        }
        assert(forall|c: int| !first_position(self.entries@, a@, c));
        None
    }

    /// Registers a newly deployed contract. An address that is already registered keeps
    /// its entry, and the call returns false.
    pub fn insert(&mut self, entry: ContractEntry) -> (r: bool)
        ensures
            r == (position_of(old(self).entries@, entry.address@) is None),
            r ==> final(self).entries@ == old(self).entries@.push(entry),
            !r ==> final(self).entries@ == old(self).entries@,
            unique_addresses(old(self).entries@) ==> unique_addresses(final(self).entries@),
    {
        match self.find(&entry.address) {
            Some(_) => false,
            None => {
                self.entries.push(entry);
                true
            },
        }
    }
}

/// Uniform choice of a contract among those whose ABI exposes a function; returns its
/// position in the registry.
pub fn select_random_contract(registry: &ContractRegistry, draw: u64) -> (r: Result<
    usize,
    GenError,
>)
    ensures
        match contract_choice(registry.entries@, draw) {
            None => r == Err::<usize, GenError>(GenError::NoEligibleContract),
            Some(i) => r matches Ok(k) && k as int == i && i < registry.entries@.len(),
        },
{
    proof {
        lemma_positions_bounded(registry.entries@);
    }
    let positions = collect_eligible(&registry.entries);
    if positions.len() == 0 {
        return Err(GenError::NoEligibleContract);
    }
    let k = pick_index(positions.len(), draw);
    Ok(positions[k])
}

/// Choice of the function to call: uniform among `targeted_functions` when it is not
/// empty, else uniform among the state-changing functions of `abi`.
pub fn select_random_function<'a>(
    abi: &'a Vec<FunctionDesc>,
    targeted_functions: &'a Vec<FunctionDesc>,
    draw: u64,
) -> (r: Result<&'a FunctionDesc, GenError>)
    ensures
        match function_choice(abi@, targeted_functions@, draw) {
            None => r == Err::<&FunctionDesc, GenError>(GenError::NoEligibleFunction),
            Some(f) => r matches Ok(g) && *g == f,
        },
{
    if targeted_functions.len() > 0 {
        let k = pick_index(targeted_functions.len(), draw);
        return Ok(&targeted_functions[k]);
    }
    proof {
        lemma_mutating_bounded(abi@);
    }
    let positions = collect_mutating(abi);
    if positions.len() == 0 {
        return Err(GenError::NoEligibleFunction);
    }
    let k = pick_index(positions.len(), draw);
    Ok(&abi[positions[k]])
}

} // verus!
