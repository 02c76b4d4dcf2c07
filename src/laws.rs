use vstd::prelude::*;
use crate::abi::{is_mutating, FunctionDesc, ParamType};
use crate::calldata::{
    calldata_for, coerce, concat_words, draw_random, param_pool, param_word, param_words,
    use_calldata_dictionary, valid_word, ParamDraw,
};
use crate::dictionary::{CalldataEntry, TypedWord};
use crate::generate::{call_outcome, override_target, CallDraws};
use crate::registry::{
    contract_choice, eligible_contract, function_choice, lemma_eligible_nonempty,
    lemma_mutating_bounded, lemma_mutating_nonempty, lemma_mutating_sound,
    lemma_positions_bounded, mutating_positions, position_of, ContractEntry,
};
use crate::sender::{from_dictionary, lemma_sender_choice_allowed, sender_choice};
use crate::types::{contains_addr, Address, GenError};

verus! {

/// Whether `f` may be called on `c`: one of its targeted functions, or, when none is
/// targeted, a state-changing function of its ABI.
pub open spec fn callable_on(c: ContractEntry, f: FunctionDesc) -> bool {
    ||| c.targeted_functions@.contains(f)
    ||| (c.targeted_functions@.len() == 0 && c.abi@.contains(f) && is_mutating(f.mutability))
}

proof fn lemma_function_choice_callable(c: ContractEntry, draw: u64)
    ensures
        function_choice(c.abi@, c.targeted_functions@, draw) matches Some(f) ==> callable_on(c, f),
{
    lemma_mutating_bounded(c.abi@);
    lemma_mutating_sound(c.abi@);
    let t = c.targeted_functions@;
    if t.len() > 0 {
        let k = (draw as int) % t.len() as int;
        assert(t[k] == t[k]);
    } else {
        let p = mutating_positions(c.abi@);
        if p.len() > 0 {
            let k = (draw as int) % p.len() as int;
            assert(c.abi@[p[k]] == c.abi@[p[k]]);
        }
    }
}

/// A generated call targets a registered contract, and its calldata starts with the
/// selector of a function that may be called on that contract.
pub proof fn law_call_targets_callable_function(
    entries: Seq<ContractEntry>,
    targeted: Seq<Address>,
    excluded: Seq<Address>,
    vdict: Seq<TypedWord>,
    cdict: Seq<CalldataEntry>,
    dictionary_weight: u32,
    d: CallDraws,
)
    ensures
        call_outcome(entries, targeted, excluded, vdict, cdict, dictionary_weight, d) matches Ok(
            c,
        ) ==> exists|ci: int, f: FunctionDesc|
            0 <= ci < entries.len() && entries[ci].address@ == c.1 && callable_on(entries[ci], f)
                && c.2.take(4) == f.selector@,
{
    lemma_positions_bounded(entries);
    if let Some(ci) = contract_choice(entries, d.contract) {
        let c = entries[ci];
        lemma_function_choice_callable(c, d.function);
        if let Some(f) = function_choice(c.abi@, c.targeted_functions@, d.function) {
            let data = calldata_for(f, cdict, vdict, d.calldata_mode, d.params@);
            assert(data.take(4) =~= f.selector@);
        }
    }
}

/// A call is generated whenever a contract offers a callable function, every contract
/// that can be picked offers one, and a sender can be found: some are targeted, or none
/// is excluded and at least one sender draw is supplied.
pub proof fn law_call_generated_when_callable(
    entries: Seq<ContractEntry>,
    targeted: Seq<Address>,
    excluded: Seq<Address>,
    vdict: Seq<TypedWord>,
    cdict: Seq<CalldataEntry>,
    dictionary_weight: u32,
    d: CallDraws,
)
    requires
        exists|i: int| 0 <= i < entries.len() && #[trigger] eligible_contract(entries[i]),
        forall|i: int|
            0 <= i < entries.len() && #[trigger] eligible_contract(entries[i]) ==> (
            entries[i].targeted_functions@.len() > 0 || exists|j: int|
                0 <= j < entries[i].abi@.len() && is_mutating(entries[i].abi@[j].mutability)),
        targeted.len() > 0 || (excluded.len() == 0 && d.senders@.len() > 0),
    ensures
        call_outcome(entries, targeted, excluded, vdict, cdict, dictionary_weight, d) is Ok,
{
    let i = choose|i: int| 0 <= i < entries.len() && #[trigger] eligible_contract(entries[i]);
    lemma_eligible_nonempty(entries, i);
    lemma_positions_bounded(entries);
    let ci = contract_choice(entries, d.contract).unwrap();
    let p = crate::registry::eligible_positions(entries);
    assert(ci == p[(d.contract as int) % p.len() as int]);
    lemma_eligible_sound(entries);
    assert(eligible_contract(entries[ci]));
    let c = entries[ci];
    if c.targeted_functions@.len() == 0 {
        let j = choose|j: int| 0 <= j < c.abi@.len() && is_mutating(c.abi@[j].mutability);
        lemma_mutating_nonempty(c.abi@, j);
    }
    if targeted.len() == 0 {
        let cands = Seq::new(
            d.senders@.len(),
            |k: int| crate::sender::sender_candidate(vdict, dictionary_weight, d.senders@[k]),
        );
        assert(!contains_addr(excluded, cands[0]));
        assert(sender_choice(targeted, excluded, vdict, dictionary_weight, d.targeted_sender, d.senders@)
            == Some(cands[0]));
    }
}

proof fn lemma_eligible_sound(s: Seq<ContractEntry>)
    ensures
        forall|k: int|
            0 <= k < crate::registry::eligible_positions(s).len() ==> eligible_contract(
                s[#[trigger] crate::registry::eligible_positions(s)[k]],
            ),
    decreases s.len(),
{
    if s.len() > 0 {
        lemma_eligible_sound(s.drop_last());
        lemma_positions_bounded(s.drop_last());
        let p = crate::registry::eligible_positions(s.drop_last());
        assert forall|k: int| 0 <= k < crate::registry::eligible_positions(s).len() implies eligible_contract(
            s[#[trigger] crate::registry::eligible_positions(s)[k]],
        ) by {
            if k < p.len() {
                assert(s[p[k]] == s.drop_last()[p[k]]);
            }
        }
    }
}

/// With targeted senders, every generated sender is one of them, whatever the
/// dictionary weight.
pub proof fn law_sender_from_targeted(
    entries: Seq<ContractEntry>,
    targeted: Seq<Address>,
    excluded: Seq<Address>,
    vdict: Seq<TypedWord>,
    cdict: Seq<CalldataEntry>,
    dictionary_weight: u32,
    d: CallDraws,
)
    requires
        targeted.len() > 0,
    ensures
        call_outcome(entries, targeted, excluded, vdict, cdict, dictionary_weight, d) matches Ok(
            c,
        ) ==> contains_addr(targeted, c.0),
{
    let k = (d.targeted_sender as int) % targeted.len() as int;
    assert(targeted[k]@ == targeted[k]@);
}

/// Without targeted senders, no generated sender is excluded.
pub proof fn law_sender_not_excluded(
    entries: Seq<ContractEntry>,
    targeted: Seq<Address>,
    excluded: Seq<Address>,
    vdict: Seq<TypedWord>,
    cdict: Seq<CalldataEntry>,
    dictionary_weight: u32,
    d: CallDraws,
)
    requires
        targeted.len() == 0,
    ensures
        call_outcome(entries, targeted, excluded, vdict, cdict, dictionary_weight, d) matches Ok(
            c,
        ) ==> !contains_addr(excluded, c.0),
{
    lemma_sender_choice_allowed(
        targeted,
        excluded,
        vdict,
        dictionary_weight,
        d.targeted_sender,
        d.senders@,
    );
}

proof fn lemma_coerce_valid(t: ParamType, w: Seq<u8>)
    requires
        w.len() == 32,
    ensures
        valid_word(t, coerce(t, w)),
{
}

proof fn lemma_concat_words(ws: Seq<Seq<u8>>)
    requires
        forall|i: int| 0 <= i < ws.len() ==> (#[trigger] ws[i]).len() == 32,
    ensures
        concat_words(ws).len() == 32 * ws.len(),
        forall|i: int|
            0 <= i < ws.len() ==> concat_words(ws).subrange(32 * i, 32 * i + 32) == #[trigger] ws[i],
    decreases ws.len(),
{
    if ws.len() > 0 {
        let init = ws.drop_last();
        lemma_concat_words(init);
        let c = concat_words(ws);
        assert(c == concat_words(init) + ws.last());
        assert forall|i: int| 0 <= i < ws.len() implies c.subrange(32 * i, 32 * i + 32)
            == #[trigger] ws[i] by {
            if i < ws.len() - 1 {
                assert(c.subrange(32 * i, 32 * i + 32) =~= concat_words(init).subrange(
                    32 * i,
                    32 * i + 32,
                ));
                assert(init[i] == ws[i]);
            } else {
                assert(c.subrange(32 * i, 32 * i + 32) =~= ws.last());
            }
        }
    }
}

/// Calldata is the function's selector followed by one word per parameter, each a valid
/// encoding of a value of the parameter's type, so it decodes against the parameters.
pub proof fn law_calldata_decodes(
    f: FunctionDesc,
    cdict: Seq<CalldataEntry>,
    vdict: Seq<TypedWord>,
    mode_draw: u64,
    draws: Seq<ParamDraw>,
)
    ensures
        calldata_for(f, cdict, vdict, mode_draw, draws).len() == 4 + 32 * f.inputs@.len(),
        calldata_for(f, cdict, vdict, mode_draw, draws).take(4) == f.selector@,
        forall|i: int|
            0 <= i < f.inputs@.len() ==> valid_word(
                f.inputs@[i],
                #[trigger] calldata_for(f, cdict, vdict, mode_draw, draws).subrange(
                    4 + 32 * i,
                    36 + 32 * i,
                ),
            ),
{
    let ws = param_words(f, cdict, vdict, mode_draw, draws);
    let u = use_calldata_dictionary(mode_draw);
    assert forall|i: int| 0 <= i < ws.len() implies (#[trigger] ws[i]).len() == 32
        && valid_word(f.inputs@[i], ws[i]) by {
        let pool = param_pool(f, i, cdict, vdict, u);
        let src = if pool.len() > 0 {
            pool[(crate::calldata::draw_pick(draws, i) as int) % pool.len() as int]@
        } else {
            draw_random(draws, i)
        };
        assert(src.len() == 32);
        lemma_coerce_valid(f.inputs@[i], src);
        assert(ws[i] == param_word(f, i, cdict, vdict, u, draws));
    }
    lemma_concat_words(ws);
    let c = calldata_for(f, cdict, vdict, mode_draw, draws);
    let body = concat_words(ws);
    assert(c.take(4) =~= f.selector@);
    assert forall|i: int| 0 <= i < f.inputs@.len() implies valid_word(
        f.inputs@[i],
        #[trigger] c.subrange(4 + 32 * i, 36 + 32 * i),
    ) by {
        assert(c.subrange(4 + 32 * i, 36 + 32 * i) =~= body.subrange(32 * i, 32 * i + 32));
        assert(body.subrange(32 * i, 32 * i + 32) == ws[i]);
    }
}

/// A larger dictionary weight sends every draw that went to the dictionary there
/// still, and possibly more: none at weight 0, all at weight 100.
pub proof fn law_dictionary_weight_monotone(w1: u32, w2: u32, source: u64)
    requires
        w1 <= w2 <= 100,
    ensures
        from_dictionary(w1, source) ==> from_dictionary(w2, source),
        !from_dictionary(0, source),
        from_dictionary(100, source),
{
}

/// A supplied target that is registered is chosen exactly for the target draws whose
/// remainder modulo 100 is below 80; the other draws pick a contract as an ordinary call
/// does.
pub proof fn law_override_split(
    entries: Seq<ContractEntry>,
    supplied: Seq<u8>,
    target_draw: u64,
    contract_draw: u64,
)
    requires
        position_of(entries, supplied) is Some,
    ensures
        (target_draw as int) % 100 < 80 ==> override_target(
            entries,
            supplied,
            target_draw,
            contract_draw,
        ) == Ok::<int, GenError>(position_of(entries, supplied).unwrap()),
        (target_draw as int) % 100 >= 80 ==> match contract_choice(entries, contract_draw) {
            Some(i) => override_target(entries, supplied, target_draw, contract_draw) == Ok::<
                int,
                GenError,
            >(i),
            None => override_target(entries, supplied, target_draw, contract_draw) == Err::<
                int,
                GenError,
            >(GenError::NoEligibleContract),
        },
{
}

/// How many of the target draws `start`, ..., `start + n - 1` take the supplied side of
/// the split (remainder modulo 100 below 80) and so send an override call to the
/// supplied target.
pub open spec fn supplied_count(
    entries: Seq<ContractEntry>,
    supplied: Seq<u8>,
    contract_draw: u64,
    start: u64,
    n: nat,
) -> nat
    decreases n,
{
    if n == 0 {
        0
    } else {
        let t = start as int + n - 1;
        supplied_count(entries, supplied, contract_draw, start, (n - 1) as nat) + if t <= u64::MAX
            && override_target(entries, supplied, t as u64, contract_draw) == Ok::<int, GenError>(
            position_of(entries, supplied).unwrap(),
        ) && (t % 100) < 80 {
            1nat
        } else {
            0nat
        }
    }
}

proof fn lemma_block_count(
    entries: Seq<ContractEntry>,
    supplied: Seq<u8>,
    contract_draw: u64,
    k: u64,
    n: nat,
)
    requires
        position_of(entries, supplied) is Some,
        100 * (k as int) + 100 <= u64::MAX,
        n <= 100,
    ensures
        supplied_count(entries, supplied, contract_draw, (100 * k) as u64, n) == if n <= 80 {
            n
        } else {
            80
        },
    decreases n,
{
    if n > 0 {
        lemma_block_count(entries, supplied, contract_draw, k, (n - 1) as nat);
        let j = n - 1;
        let t = 100 * (k as int) + j;
        assert(t % 100 == j) by (nonlinear_arith)
            requires
                t == 100 * (k as int) + j,
                0 <= j < 100,
                k >= 0,
        ;
        assert((100 * k) as u64 as int + n - 1 == t);
        law_override_split(entries, supplied, t as u64, contract_draw);
    }
}

/// Of every block of 100 consecutive target draws starting at a multiple of 100,
/// exactly 80 take the supplied side and send an override call to a registered
/// supplied target; the other 20 pick among the eligible contracts.
pub proof fn law_override_share(
    entries: Seq<ContractEntry>,
    supplied: Seq<u8>,
    contract_draw: u64,
    k: u64,
)
    requires
        position_of(entries, supplied) is Some,
        100 * (k as int) + 100 <= u64::MAX,
    ensures
        supplied_count(entries, supplied, contract_draw, (100 * k) as u64, 100) == 80,
{
    lemma_block_count(entries, supplied, contract_draw, k, 100);
}

} // verus!
