use alloy_dyn_abi::DynSolType;
use invariant_fuzz::abi::{FunctionDesc, ParamType, StateMutability};
use invariant_fuzz::calldata::{fuzz_contract_with_calldata, ParamDraw};
use invariant_fuzz::dictionary::{CalldataDictionary, ValueDictionary};
use invariant_fuzz::generate::{generate_call, invariant_strat, override_call_strat, CallDraws};
use invariant_fuzz::registry::{
    select_random_contract, select_random_function, ContractEntry, ContractRegistry,
};
use invariant_fuzz::select::{choose_first, pick_index, weighted_select};
use invariant_fuzz::sender::{select_random_sender, SenderDraw, SenderFilters};
use invariant_fuzz::types::{Address, GenError};

fn addr(b: u8) -> Address {
    Address::new([b; 20])
}

fn func(sig: &str, inputs: Vec<ParamType>, m: StateMutability) -> FunctionDesc {
    FunctionDesc::new(sig.to_string(), inputs, m)
}

fn counter_abi() -> Vec<FunctionDesc> {
    vec![
        func("increment()", vec![], StateMutability::NonPayable),
        func("setValue(uint256)", vec![ParamType::Uint256], StateMutability::NonPayable),
        func("number()", vec![], StateMutability::View),
    ]
}

fn counter_registry(a: Address) -> ContractRegistry {
    let mut reg = ContractRegistry::new();
    assert!(reg.insert(ContractEntry { address: a, abi: counter_abi(), targeted_functions: vec![] }));
    reg
}

fn no_filters() -> SenderFilters {
    SenderFilters { targeted: vec![], excluded: vec![] }
}

// A simple deterministic generator of draws for repeated trials.
fn mix(seed: u64) -> u64 {
    let mut x = seed.wrapping_mul(0x9E37_79B9_7F4A_7C15).wrapping_add(0x2545_F491_4F6C_DD1D);
    x ^= x >> 31;
    x = x.wrapping_mul(0xBF58_476D_1CE4_E5B9);
    x ^ (x >> 29)
}

fn draws(seed: u64, n_senders: usize) -> CallDraws {
    let senders = (0..n_senders as u64)
        .map(|k| {
            let r = mix(seed * 131 + k);
            SenderDraw { source: mix(r), pick: mix(r + 1), random: [(r % 251) as u8; 20] }
        })
        .collect();
    let params = (0..4u64)
        .map(|k| ParamDraw { pick: mix(seed + 17 * k), random: [(mix(seed + k) % 256) as u8; 32] })
        .collect();
    CallDraws {
        target: mix(seed + 1),
        contract: mix(seed + 2),
        function: mix(seed + 3),
        targeted_sender: mix(seed + 4),
        senders,
        calldata_mode: mix(seed + 5),
        params,
    }
}

#[test]
fn weighted_select_follows_shares() {
    let w = vec![3u32, 0, 5, 2];
    assert_eq!(weighted_select(&w, 0), 0);
    assert_eq!(weighted_select(&w, 2), 0);
    assert_eq!(weighted_select(&w, 3), 2);
    assert_eq!(weighted_select(&w, 7), 2);
    assert_eq!(weighted_select(&w, 8), 3);
    assert_eq!(weighted_select(&w, 19), 3);
    assert_eq!(weighted_select(&w, 20), 0);
}

#[test]
fn choose_first_splits_by_weight() {
    assert!(choose_first(80, 20, 79));
    assert!(!choose_first(80, 20, 80));
    assert!(!choose_first(0, 100, 0));
    assert!(choose_first(100, 0, 99));
    assert_eq!(pick_index(3, 10), 1);
}

#[test]
fn selector_is_computed_from_signature() {
    let f = func("increment()", vec![], StateMutability::NonPayable);
    assert_eq!(f.selector, [0xd0, 0x9d, 0xe0, 0x8a]);
    let g = func("setValue(uint256)", vec![ParamType::Uint256], StateMutability::NonPayable);
    let h = alloy_primitives::keccak256("setValue(uint256)");
    assert_eq!(g.selector, [h[0], h[1], h[2], h[3]]);
}

#[test]
fn contract_selection_skips_empty_abis() {
    let mut reg = ContractRegistry::new();
    assert_eq!(select_random_contract(&reg, 5), Err(GenError::NoEligibleContract));
    reg.insert(ContractEntry { address: addr(1), abi: vec![], targeted_functions: vec![] });
    assert_eq!(select_random_contract(&reg, 5), Err(GenError::NoEligibleContract));
    reg.insert(ContractEntry { address: addr(2), abi: counter_abi(), targeted_functions: vec![] });
    assert!(!reg.insert(ContractEntry { address: addr(2), abi: vec![], targeted_functions: vec![] }));
    for d in 0..10 {
        assert_eq!(select_random_contract(&reg, d), Ok(1));
    }
    assert_eq!(reg.find(&addr(2)), Some(1));
    assert_eq!(reg.find(&addr(3)), None);
}

#[test]
fn function_selection_prefers_targets_and_skips_views() {
    let abi = counter_abi();
    let none = vec![];
    for d in 0..20 {
        let f = select_random_function(&abi, &none, d).unwrap();
        assert_ne!(f.signature, "number()");
    }
    let targeted = vec![abi[2].clone()];
    assert_eq!(select_random_function(&abi, &targeted, 7).unwrap().signature, "number()");
    let views = vec![abi[2].clone()];
    assert_eq!(select_random_function(&views, &none, 0).err(), Some(GenError::NoEligibleFunction));
}

#[test]
fn targeted_sender_takes_precedence_over_exclusion() {
    let beef = addr(0xbe);
    let filters = SenderFilters { targeted: vec![beef], excluded: vec![beef] };
    let reg = counter_registry(addr(0xaa));
    let vd = ValueDictionary::new();
    let cd = CalldataDictionary::new();
    for seed in 0..500 {
        for w in [0u32, 40, 100] {
            let call = generate_call(&vd, &filters, &reg, w, &cd, &draws(seed, 3)).unwrap();
            assert_eq!(call.sender.bytes, beef.bytes);
        }
    }
}

#[test]
fn targeted_senders_are_the_only_senders() {
    let filters = SenderFilters { targeted: vec![addr(1), addr(2), addr(3)], excluded: vec![] };
    let reg = counter_registry(addr(0xaa));
    let mut vd = ValueDictionary::new();
    vd.insert(ParamType::Address, [9u8; 32]);
    let cd = CalldataDictionary::new();
    for seed in 0..300 {
        let call = generate_call(&vd, &filters, &reg, 100, &cd, &draws(seed, 2)).unwrap();
        assert!(filters.targeted.iter().any(|t| t.bytes == call.sender.bytes));
    }
}

#[test]
fn excluded_senders_are_never_generated() {
    let excluded: Vec<Address> = (0..40u8).map(|b| addr(b * 5)).collect();
    let filters = SenderFilters { targeted: vec![], excluded: excluded.clone() };
    let reg = counter_registry(addr(0xaa));
    let mut vd = ValueDictionary::new();
    let mut w = [0u8; 32];
    w[12..].copy_from_slice(&[11u8; 20]);
    vd.insert(ParamType::Address, w);
    let cd = CalldataDictionary::new();
    let mut made = 0;
    for seed in 0..10_000 {
        if let Ok(call) = generate_call(&vd, &filters, &reg, 50, &cd, &draws(seed, 4)) {
            made += 1;
            assert!(!excluded.iter().any(|e| e.bytes == call.sender.bytes));
        }
    }
    assert!(made > 9_000);
}

#[test]
fn all_senders_excluded_is_an_error() {
    let filters = SenderFilters { targeted: vec![], excluded: vec![addr(7)] };
    let vd = ValueDictionary::new();
    let d = vec![SenderDraw { source: 0, pick: 0, random: [7; 20] }];
    assert_eq!(select_random_sender(&filters, &vd, 0, 0, &d), Err(GenError::NoEligibleSender));
    assert_eq!(select_random_sender(&filters, &vd, 0, 0, &vec![]), Err(GenError::NoEligibleSender));
    let d2 = vec![d[0], SenderDraw { source: 0, pick: 0, random: [8; 20] }];
    assert_eq!(select_random_sender(&filters, &vd, 0, 0, &d2).unwrap().bytes, [8; 20]);
}

#[test]
fn dictionary_weight_moves_senders_to_the_dictionary() {
    let mut vd = ValueDictionary::new();
    let mut w = [0u8; 32];
    w[12..].copy_from_slice(&[0x42u8; 20]);
    vd.insert(ParamType::Address, w);
    let filters = no_filters();
    let count = |weight: u32| {
        (0..2_000u64)
            .filter(|s| {
                let d = vec![SenderDraw { source: mix(*s), pick: 0, random: [1; 20] }];
                select_random_sender(&filters, &vd, weight, 0, &d).unwrap().bytes == [0x42; 20]
            })
            .count()
    };
    let (c0, c50, c100) = (count(0), count(50), count(100));
    assert_eq!(c0, 0);
    assert!(c0 < c50 && c50 < c100);
    assert_eq!(c100, 2_000);
}

#[test]
fn counter_scenario_targets_counter_functions() {
    let a = addr(0xaa);
    let reg = counter_registry(a);
    let vd = ValueDictionary::new();
    let cd = CalldataDictionary::new();
    let inc = func("increment()", vec![], StateMutability::NonPayable).selector;
    let set = func("setValue(uint256)", vec![], StateMutability::NonPayable).selector;
    for seed in 0..1_000 {
        let call = generate_call(&vd, &no_filters(), &reg, 0, &cd, &draws(seed, 1)).unwrap();
        assert_eq!(call.target.bytes, a.bytes);
        assert_eq!(call.sender.bytes.len(), 20);
        let sel = [call.calldata[0], call.calldata[1], call.calldata[2], call.calldata[3]];
        assert!(sel == inc || sel == set);
        if sel == inc {
            assert_eq!(call.calldata.len(), 4);
        } else {
            assert_eq!(call.calldata.len(), 36);
        }
    }
}

#[test]
fn calldata_round_trips_through_abi_decoding() {
    let inputs = vec![
        ParamType::Address,
        ParamType::Bool,
        ParamType::Uint256,
        ParamType::Int256,
        ParamType::Bytes32,
    ];
    let f = func("f(address,bool,uint256,int256,bytes32)", inputs, StateMutability::Payable);
    let ty = DynSolType::Tuple(vec![
        DynSolType::Address,
        DynSolType::Bool,
        DynSolType::Uint(256),
        DynSolType::Int(256),
        DynSolType::FixedBytes(32),
    ]);
    let mut vd = ValueDictionary::new();
    vd.insert(ParamType::Bool, [0xff; 32]);
    let mut cd = CalldataDictionary::new();
    cd.insert(f.selector, 0, [0xee; 32]);
    for seed in 0..300 {
        let params: Vec<ParamDraw> = (0..5u64)
            .map(|k| ParamDraw { pick: mix(seed + k), random: [(mix(seed * 7 + k) % 256) as u8; 32] })
            .collect();
        let (target, data) = fuzz_contract_with_calldata(&vd, &cd, addr(3), &f, mix(seed), &params);
        assert_eq!(target.bytes, [3; 20]);
        assert_eq!(data.len(), 4 + 32 * 5);
        assert_eq!(&data[..4], &f.selector);
        let decoded = ty.abi_decode_params(&data[4..]).unwrap();
        assert_eq!(decoded.abi_encode_params(), data[4..].to_vec());
    }
}

#[test]
fn calldata_uses_dictionaries_and_coerces_words() {
    let f = func("g(bool,address)", vec![ParamType::Bool, ParamType::Address], StateMutability::NonPayable);
    let mut cd = CalldataDictionary::new();
    cd.insert(f.selector, 0, [0x03; 32]);
    let mut vd = ValueDictionary::new();
    vd.insert(ParamType::Address, [0x11; 32]);
    let params = vec![ParamDraw { pick: 0, random: [0x20; 32] }, ParamDraw { pick: 0, random: [0x30; 32] }];
    // Mode draw 0 takes the calldata dictionary: position 0 has a candidate, position 1 none.
    let (_, data) = fuzz_contract_with_calldata(&vd, &cd, addr(1), &f, 0, &params);
    let mut expected = f.selector.to_vec();
    expected.extend_from_slice(&[0u8; 31]);
    expected.push(1);
    expected.extend_from_slice(&[0u8; 12]);
    expected.extend_from_slice(&[0x30u8; 20]);
    assert_eq!(data, expected);
    // Mode draw 60 takes the value dictionary: no bool observed, one address observed.
    let (_, data) = fuzz_contract_with_calldata(&vd, &cd, addr(1), &f, 60, &params);
    let mut expected = f.selector.to_vec();
    expected.extend_from_slice(&[0u8; 31]);
    expected.push(0);
    expected.extend_from_slice(&[0u8; 12]);
    expected.extend_from_slice(&[0x11u8; 20]);
    assert_eq!(data, expected);
}

#[test]
fn override_goes_to_supplied_target_four_times_in_five() {
    let mut reg = counter_registry(addr(0xaa));
    reg.insert(ContractEntry { address: addr(0xbb), abi: counter_abi(), targeted_functions: vec![] });
    reg.insert(ContractEntry { address: addr(0xcc), abi: counter_abi(), targeted_functions: vec![] });
    let vd = ValueDictionary::new();
    let cd = CalldataDictionary::new();
    let supplied = addr(0xaa);
    let mut hits = 0;
    for t in 0..10_000u64 {
        let mut d = draws(t, 0);
        d.target = t;
        d.contract = mix(t) | 1;
        let (target, _) = override_call_strat(&vd, &reg, &supplied, &cd, &d).unwrap();
        if target.bytes == supplied.bytes {
            hits += 1;
        }
    }
    // Every other draw picks among all three contracts, a third of which is the supplied one.
    assert!(hits >= 8_000 && hits < 8_000 + 2_000 / 2);
    let mut d = draws(1, 0);
    d.target = 5;
    assert_eq!(override_call_strat(&vd, &reg, &addr(0xdd), &cd, &d).err(), Some(GenError::UnregisteredTarget));
}

#[test]
fn empty_registry_fails_every_generation() {
    let reg = ContractRegistry::new();
    let vd = ValueDictionary::new();
    let cd = CalldataDictionary::new();
    assert_eq!(
        generate_call(&vd, &no_filters(), &reg, 10, &cd, &draws(1, 1)).err(),
        Some(GenError::NoEligibleContract)
    );
    assert_eq!(
        invariant_strat(&vd, &no_filters(), &reg, 10, &cd, &draws(1, 1)).err(),
        Some(GenError::NoEligibleContract)
    );
    let reg = counter_registry(addr(4));
    assert_eq!(invariant_strat(&vd, &no_filters(), &reg, 10, &cd, &draws(1, 1)).unwrap().len(), 1);
}
