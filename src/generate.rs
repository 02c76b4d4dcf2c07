use vstd::prelude::*;
use crate::calldata::{calldata_for, fuzz_contract_with_calldata, ParamDraw};
use crate::dictionary::{CalldataDictionary, CalldataEntry, TypedWord, ValueDictionary};
use crate::registry::{
    contract_choice, function_choice, position_of, select_random_contract,
    select_random_function, ContractEntry, ContractRegistry,
};
use crate::select::choose_first;
use crate::sender::{select_random_sender, sender_choice, SenderDraw, SenderFilters};
use crate::types::{Address, GenError};

verus! {

/// One generated call: who sends it, which contract it targets, and its calldata.
#[derive(Clone, Debug)]
pub struct Call {
    pub sender: Address,
    pub target: Address,
    pub calldata: Vec<u8>,
}

impl View for Call {
    type V = (Seq<u8>, Seq<u8>, Seq<u8>);

    open spec fn view(&self) -> (Seq<u8>, Seq<u8>, Seq<u8>) {
        (self.sender@, self.target@, self.calldata@)
    }
}

/// The random numbers behind one call.
#[derive(Clone, Debug)]
pub struct CallDraws {
    /// Picks the supplied target (80 of 100) or a registered contract, for overrides.
    pub target: u64,
    /// Picks the contract among the eligible ones.
    pub contract: u64,
    /// Picks the function among the eligible ones of the contract.
    pub function: u64,
    /// Picks the sender among the targeted senders.
    pub targeted_sender: u64,
    /// Sender candidates, tried in order, when no sender is targeted.
    pub senders: Vec<SenderDraw>,
    /// Picks the source of the parameter values.
    pub calldata_mode: u64,
    /// One per parameter.
    pub params: Vec<ParamDraw>,
}

/// The call made from the draws, or why none can be: contract, then function, then
/// sender, then calldata for the function.
pub open spec fn call_outcome(
    entries: Seq<ContractEntry>,
    targeted: Seq<Address>,
    excluded: Seq<Address>,
    vdict: Seq<TypedWord>,
    cdict: Seq<CalldataEntry>,
    dictionary_weight: u32,
    d: CallDraws,
) -> Result<(Seq<u8>, Seq<u8>, Seq<u8>), GenError> {
    match contract_choice(entries, d.contract) {
        None => Err(GenError::NoEligibleContract),
        Some(ci) => match function_choice(
            entries[ci].abi@,
            entries[ci].targeted_functions@,
            d.function,
        ) {
            None => Err(GenError::NoEligibleFunction),
            Some(f) => match sender_choice(
                targeted,
                excluded,
                vdict,
                dictionary_weight,
                d.targeted_sender,
                d.senders@,
            ) {
                None => Err(GenError::NoEligibleSender),
                Some(s) => Ok(
                    (s, entries[ci].address@, calldata_for(f, cdict, vdict, d.calldata_mode, d.params@)),
                ),
            },
        },
    }
}

/// The contract an override call goes to: the supplied address for 80 of every 100
/// target draws, else a registered contract picked as for an ordinary call.
pub open spec fn override_target(
    entries: Seq<ContractEntry>,
    supplied: Seq<u8>,
    target_draw: u64,
    contract_draw: u64,
) -> Result<int, GenError> {
    if (target_draw as int) % 100 < 80 {
        match position_of(entries, supplied) {
            Some(i) => Ok(i),
            None => Err(GenError::UnregisteredTarget),
        }
    } else {
        match contract_choice(entries, contract_draw) {
            Some(i) => Ok(i),
            None => Err(GenError::NoEligibleContract),
        }
    }
}

/// The target and calldata of an override call, or why there is none.
pub open spec fn override_outcome(
    entries: Seq<ContractEntry>,
    supplied: Seq<u8>,
    vdict: Seq<TypedWord>,
    cdict: Seq<CalldataEntry>,
    d: CallDraws,
) -> Result<(Seq<u8>, Seq<u8>), GenError> {
    match override_target(entries, supplied, d.target, d.contract) {
        Err(e) => Err(e),
        Ok(i) => match function_choice(entries[i].abi@, entries[i].targeted_functions@, d.function) {
            None => Err(GenError::NoEligibleFunction),
            Some(f) => Ok(
                (entries[i].address@, calldata_for(f, cdict, vdict, d.calldata_mode, d.params@)),
            ),
        },
    }
}

/// Generates one call from the current state of the registry and dictionaries.
pub fn generate_call(
    fuzz_state: &ValueDictionary,
    senders: &SenderFilters,
    contracts: &ContractRegistry,
    dictionary_weight: u32,
    calldata_fuzz_config: &CalldataDictionary,
    draws: &CallDraws,
) -> (r: Result<Call, GenError>)
    requires
        dictionary_weight <= 100,
    ensures
        match r {
            Ok(c) => call_outcome(
                contracts.entries@,
                senders.targeted@,
                senders.excluded@,
                fuzz_state.values@,
                calldata_fuzz_config.entries@,
                dictionary_weight,
                *draws,
            ) == Ok::<(Seq<u8>, Seq<u8>, Seq<u8>), GenError>(c@),
            Err(e) => call_outcome(
                contracts.entries@,
                senders.targeted@,
                senders.excluded@,
                fuzz_state.values@,
                calldata_fuzz_config.entries@,
                dictionary_weight,
                *draws,
            ) == Err::<(Seq<u8>, Seq<u8>, Seq<u8>), GenError>(e),
        },
{
    let ci = match select_random_contract(contracts, draws.contract) {
        Ok(i) => i,
        Err(e) => return Err(e),
    };
    let entry = &contracts.entries[ci];
    let func = match select_random_function(&entry.abi, &entry.targeted_functions, draws.function) {
        Ok(f) => f,
        Err(e) => return Err(e),
    };
    let sender = match select_random_sender(
        senders,
        fuzz_state,
        dictionary_weight,
        draws.targeted_sender,
        &draws.senders,
    ) {
        Ok(s) => s,
        Err(e) => return Err(e),
    };
    let (target, calldata) = fuzz_contract_with_calldata(
        fuzz_state,
        calldata_fuzz_config,
        entry.address,
        func,
        draws.calldata_mode,
        &draws.params,
    );
    Ok(Call { sender, target, calldata })
}

/// The first call of a sequence; later ones are generated as the state evolves.
pub fn invariant_strat(
    fuzz_state: &ValueDictionary,
    senders: &SenderFilters,
    contracts: &ContractRegistry,
    dictionary_weight: u32,
    calldata_fuzz_config: &CalldataDictionary,
    draws: &CallDraws,
) -> (r: Result<Vec<Call>, GenError>)
    requires
        dictionary_weight <= 100,
    ensures
        match r {
            Ok(v) => v@.len() == 1 && call_outcome(
                contracts.entries@,
                senders.targeted@,
                senders.excluded@,
                fuzz_state.values@,
                calldata_fuzz_config.entries@,
                dictionary_weight,
                *draws,
            ) == Ok::<(Seq<u8>, Seq<u8>, Seq<u8>), GenError>(v@[0]@),
            Err(e) => call_outcome(
                contracts.entries@,
                senders.targeted@,
                senders.excluded@,
                fuzz_state.values@,
                calldata_fuzz_config.entries@,
                dictionary_weight,
                *draws,
            ) == Err::<(Seq<u8>, Seq<u8>, Seq<u8>), GenError>(e),
        },
{
    match generate_call(
        fuzz_state,
        senders,
        contracts,
        dictionary_weight,
        calldata_fuzz_config,
        draws,
    ) {
        Ok(c) => {
            let mut v: Vec<Call> = Vec::new();
            v.push(c);
            Ok(v)
        },
        Err(e) => Err(e),
    }
}

/// Generates the target and calldata of a call that mostly goes to the supplied
/// address `target` and sometimes to another registered contract.
pub fn override_call_strat(
    fuzz_state: &ValueDictionary,
    contracts: &ContractRegistry,
    target: &Address,
    calldata_fuzz_config: &CalldataDictionary,
    draws: &CallDraws,
) -> (r: Result<(Address, Vec<u8>), GenError>)
    ensures
        match r {
            Ok(c) => override_outcome(
                contracts.entries@,
                target@,
                fuzz_state.values@,
                calldata_fuzz_config.entries@,
                *draws,
            ) == Ok::<(Seq<u8>, Seq<u8>), GenError>((c.0@, c.1@)),
            Err(e) => override_outcome(
                contracts.entries@,
                target@,
                fuzz_state.values@,
                calldata_fuzz_config.entries@,
                *draws,
            ) == Err::<(Seq<u8>, Seq<u8>), GenError>(e),
        },
{
    let ci = if choose_first(80, 20, draws.target) {
        match contracts.find(target) {
            Some(i) => i,
            None => return Err(GenError::UnregisteredTarget),
        }
    } else {
        match select_random_contract(contracts, draws.contract) {
            Ok(i) => i,
            Err(e) => return Err(e),
        }
    };
    let entry = &contracts.entries[ci];
    let func = match select_random_function(&entry.abi, &entry.targeted_functions, draws.function) {
        Ok(f) => f,
        Err(e) => return Err(e),
    };
    let out = fuzz_contract_with_calldata(
        fuzz_state,
        calldata_fuzz_config,
        entry.address,
        func,
        draws.calldata_mode,
        &draws.params,
    );
    Ok(out)
}

} // verus!
