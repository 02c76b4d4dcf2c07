use vstd::prelude::*;
use crate::abi::ParamType;
use crate::dictionary::{value_pool, TypedWord, ValueDictionary};
use crate::select::{choose_first, pick_index};
use crate::types::{addr_member, contains_addr, Address, GenError};

verus! {

/// The run's sender configuration: when `targeted` is not empty, senders come from it
/// alone and `excluded` is not consulted; otherwise no sender in `excluded` is used.
#[derive(Clone, Debug)]
pub struct SenderFilters {
    pub targeted: Vec<Address>,
    pub excluded: Vec<Address>,
}

/// The random numbers behind one sender candidate: which source it comes from, which
/// observed address it takes, and the bytes of a uniformly random address.
#[derive(Clone, Copy, Debug)]
pub struct SenderDraw {
    pub source: u64,
    pub pick: u64,
    pub random: [u8; 20],
}

/// The address held in the low 20 bytes of an ABI word.
pub open spec fn word_address(w: Seq<u8>) -> Seq<u8> {
    w.subrange(12, 32)
}

/// Whether a draw takes the dictionary side of the mix weighted
/// `(100 - dictionary_weight, dictionary_weight)`.
pub open spec fn from_dictionary(dictionary_weight: u32, source: u64) -> bool {
    (source as int) % 100 >= 100 - dictionary_weight
}

/// The sender proposed by one draw: an observed address when the dictionary side is
/// drawn and the corpus holds one, else the draw's random address.
pub open spec fn sender_candidate(dict: Seq<TypedWord>, dictionary_weight: u32, d: SenderDraw) -> Seq<
    u8,
> {
    let pool = value_pool(dict, ParamType::Address);
    if from_dictionary(dictionary_weight, d.source) && pool.len() > 0 {
        word_address(pool[(d.pick as int) % pool.len() as int]@)
    } else {
        d.random@
    }
}

/// The first candidate that is not excluded.
pub open spec fn first_allowed(excluded: Seq<Address>, cands: Seq<Seq<u8>>) -> Option<Seq<u8>>
    decreases cands.len(),
{
    if cands.len() == 0 {
        None
    } else if !contains_addr(excluded, cands[0]) {
        Some(cands[0])
    } else {
        first_allowed(excluded, cands.drop_first())
    }
}

/// The sender chosen by the draws: uniform among the targeted senders when there are
/// any; else the first drawn candidate that is not excluded.
pub open spec fn sender_choice(
    targeted: Seq<Address>,
    excluded: Seq<Address>,
    dict: Seq<TypedWord>,
    dictionary_weight: u32,
    targeted_pick: u64,
    draws: Seq<SenderDraw>,
) -> Option<Seq<u8>> {
    if targeted.len() > 0 {
        Some(targeted[(targeted_pick as int) % targeted.len() as int]@)
    } else {
        first_allowed(
            excluded,
            Seq::new(draws.len(), |k: int| sender_candidate(dict, dictionary_weight, draws[k])),
        )
    }
}

proof fn lemma_first_allowed_sound(excluded: Seq<Address>, cands: Seq<Seq<u8>>)
    ensures
        first_allowed(excluded, cands) matches Some(a) ==> !contains_addr(excluded, a) && exists|
            k: int,
        |
            0 <= k < cands.len() && cands[k] == a,
    decreases cands.len(),
{
    if cands.len() > 0 && contains_addr(excluded, cands[0]) {
        lemma_first_allowed_sound(excluded, cands.drop_first());
        if let Some(a) = first_allowed(excluded, cands) {
            let k = choose|k: int| 0 <= k < cands.drop_first().len() && cands.drop_first()[k] == a;
            assert(cands[k + 1] == a);
        }
    } else if cands.len() > 0 {
        assert(cands[0] == cands[0]);
    }
}

/// Without targeted senders, the sender chosen by the draws is not excluded and is one
/// of the drawn candidates.
pub proof fn lemma_sender_choice_allowed(
    targeted: Seq<Address>,
    excluded: Seq<Address>,
    dict: Seq<TypedWord>,
    dictionary_weight: u32,
    targeted_pick: u64,
    draws: Seq<SenderDraw>,
)
    requires
        targeted.len() == 0,
    ensures
        sender_choice(targeted, excluded, dict, dictionary_weight, targeted_pick, draws) matches Some(
            a,
        ) ==> !contains_addr(excluded, a) && exists|k: int|
            0 <= k < draws.len() && sender_candidate(dict, dictionary_weight, draws[k]) == a,
{
    let cands = Seq::new(draws.len(), |k: int| sender_candidate(dict, dictionary_weight, draws[k]));
    lemma_first_allowed_sound(excluded, cands);
}

/// The address held in the low 20 bytes of a word.
fn address_of_word(w: &[u8; 32]) -> (r: Address)
    ensures
        r@ == word_address(w@),
{
    let mut bytes: [u8; 20] = [0u8; 20];
    let mut i: usize = 0;
    while i < 20
        invariant
            i <= 20,
            bytes@.len() == 20,
            w@.len() == 32,
            forall|j: int| 0 <= j < i ==> bytes@[j] == w@[j + 12],
        decreases 20 - i,
    {
        bytes[i] = w[i + 12];
        i += 1;
    }
    assert(bytes@ =~= word_address(w@));
    Address { bytes }
}

/// The sender proposed by one draw.
fn candidate(pool: &Vec<[u8; 32]>, dictionary_weight: u32, d: &SenderDraw) -> (r: Address)
    requires
        dictionary_weight <= 100,
    ensures
        pool@.len() > 0 && from_dictionary(dictionary_weight, d.source) ==> r@ == word_address(
            pool@[(d.pick as int) % pool@.len() as int]@,
        ),
        !(pool@.len() > 0 && from_dictionary(dictionary_weight, d.source)) ==> r@ == d.random@,
{
    let uniform = choose_first(100 - dictionary_weight, dictionary_weight, d.source);
    if !uniform && pool.len() > 0 {
        let k = pick_index(pool.len(), d.pick);
        address_of_word(&pool[k])
    } else {
        Address { bytes: d.random }
    }
}

/// Chooses the sender of a call. With targeted senders, one of them picked by
/// `targeted_pick`; otherwise each draw in turn proposes a random or an observed address
/// (mixed by `dictionary_weight`, out of 100) and the first one not excluded is taken.
/// When every draw is excluded the result is `NoEligibleSender`.
pub fn select_random_sender(
    filters: &SenderFilters,
    dict: &ValueDictionary,
    dictionary_weight: u32,
    targeted_pick: u64,
    draws: &Vec<SenderDraw>,
) -> (r: Result<Address, GenError>)
    requires
        dictionary_weight <= 100,
    ensures
        match sender_choice(
            filters.targeted@,
            filters.excluded@,
            dict.values@,
            dictionary_weight,
            targeted_pick,
            draws@,
        ) {
            Some(a) => r matches Ok(s) && s@ == a,
            None => r == Err::<Address, GenError>(GenError::NoEligibleSender),
        },
{
    if filters.targeted.len() > 0 {
        let k = pick_index(filters.targeted.len(), targeted_pick);
        return Ok(filters.targeted[k]);
    }
    let pool = dict.pool(ParamType::Address);
    let ghost cands = Seq::new(
        draws@.len(),
        |k: int| sender_candidate(dict.values@, dictionary_weight, draws@[k]),
    );
    assert(cands.skip(0) =~= cands);
    assert(sender_choice(
        filters.targeted@,
        filters.excluded@,
        dict.values@,
        dictionary_weight,
        targeted_pick,
        draws@,
    ) == first_allowed(filters.excluded@, cands));
    let mut i: usize = 0;
    while i < draws.len()
        invariant
            i <= draws@.len(),
            dictionary_weight <= 100,
            pool@ == value_pool(dict.values@, ParamType::Address),
            cands.len() == draws@.len(),
            forall|k: int|
                0 <= k < draws@.len() ==> cands[k] == sender_candidate(
                    dict.values@,
                    dictionary_weight,
                    #[trigger] draws@[k],
                ),
            filters.targeted@.len() == 0,
            sender_choice(
                filters.targeted@,
                filters.excluded@,
                dict.values@,
                dictionary_weight,
                targeted_pick,
                draws@,
            ) == first_allowed(filters.excluded@, cands),
            first_allowed(filters.excluded@, cands) == first_allowed(
                filters.excluded@,
                cands.skip(i as int),
            ),
        decreases draws@.len() - i,
    {
        let c = candidate(&pool, dictionary_weight, &draws[i]);
        assert(cands.skip(i as int)[0] == cands[i as int]);
        assert(c@ == cands[i as int]);
        if !addr_member(&filters.excluded, &c) {
            assert(first_allowed(filters.excluded@, cands.skip(i as int)) == Some(c@));
            return Ok(c);
        }
        assert(cands.skip(i as int).drop_first() =~= cands.skip(i as int + 1));
        i += 1;
    }
    assert(cands.skip(i as int).len() == 0);
    Err(GenError::NoEligibleSender)
}

} // verus!
