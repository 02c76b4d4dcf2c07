use vstd::prelude::*;
use crate::abi::{FunctionDesc, ParamType};
use crate::dictionary::{
    calldata_pool, value_pool, CalldataDictionary, CalldataEntry, TypedWord, ValueDictionary,
};
use crate::select::{choose_first, pick_index};
use crate::types::Address;

verus! {

/// The random numbers behind one parameter: which candidate it takes, and the bytes of
/// a uniformly random word.
#[derive(Clone, Copy, Debug)]
pub struct ParamDraw {
    pub pick: u64,
    pub random: [u8; 32],
}

/// A word made valid for type `t`: an address keeps its low 20 bytes, a boolean the
/// low bit of its last byte; the other types take any word as it is.
pub open spec fn coerce(t: ParamType, w: Seq<u8>) -> Seq<u8> {
    match t {
        ParamType::Address => Seq::new(32, |i: int| if i < 12 { 0u8 } else { w[i] }),
        ParamType::Bool => Seq::new(32, |i: int| if i < 31 { 0u8 } else { (w[31] % 2) as u8 }),
        _ => w,
    }
}

/// A 32-byte word that decodes as a value of type `t`.
pub open spec fn valid_word(t: ParamType, w: Seq<u8>) -> bool {
    &&& w.len() == 32
    &&& match t {
        ParamType::Address => forall|i: int| 0 <= i < 12 ==> w[i] == 0,
        ParamType::Bool => (forall|i: int| 0 <= i < 31 ==> w[i] == 0) && w[31] <= 1,
        _ => true,
    }
}

/// The candidate pick for parameter `i`; zero where no draw was supplied.
pub open spec fn draw_pick(draws: Seq<ParamDraw>, i: int) -> u64 {
    if i < draws.len() {
        draws[i].pick
    } else {
        0
    }
}

/// The random word for parameter `i`; all zero where no draw was supplied.
pub open spec fn draw_random(draws: Seq<ParamDraw>, i: int) -> Seq<u8> {
    if i < draws.len() {
        draws[i].random@
    } else {
        Seq::new(32, |j: int| 0u8)
    }
}

/// The dictionary-biased side is taken for 60 of every 100 mode draws, the corpus side
/// for the other 40.
pub open spec fn use_calldata_dictionary(mode_draw: u64) -> bool {
    (mode_draw as int) % 100 < 60
}

/// The candidates for parameter `i` of `f`: those sampled for that function and
/// position, or the observed values of the parameter's type.
pub open spec fn param_pool(
    f: FunctionDesc,
    i: int,
    cdict: Seq<CalldataEntry>,
    vdict: Seq<TypedWord>,
    use_calldata: bool,
) -> Seq<[u8; 32]> {
    if use_calldata {
        calldata_pool(cdict, f.selector@, i)
    } else {
        value_pool(vdict, f.inputs@[i])
    }
}

/// The word synthesized for parameter `i` of `f`: a candidate when there is one, else
/// the random word, made valid for the parameter's type.
pub open spec fn param_word(
    f: FunctionDesc,
    i: int,
    cdict: Seq<CalldataEntry>,
    vdict: Seq<TypedWord>,
    use_calldata: bool,
    draws: Seq<ParamDraw>,
) -> Seq<u8> {
    let pool = param_pool(f, i, cdict, vdict, use_calldata);
    coerce(
        f.inputs@[i],
        if pool.len() > 0 {
            pool[(draw_pick(draws, i) as int) % pool.len() as int]@
        } else {
            draw_random(draws, i)
        },
    )
}

/// Words laid end to end.
pub open spec fn concat_words(ws: Seq<Seq<u8>>) -> Seq<u8>
    decreases ws.len(),
{
    if ws.len() == 0 {
        Seq::empty()
    } else {
        concat_words(ws.drop_last()) + ws.last()
    }
}

/// The words of all parameters of `f`.
pub open spec fn param_words(
    f: FunctionDesc,
    cdict: Seq<CalldataEntry>,
    vdict: Seq<TypedWord>,
    mode_draw: u64,
    draws: Seq<ParamDraw>,
) -> Seq<Seq<u8>> {
    Seq::new(
        f.inputs@.len(),
        |i: int| param_word(f, i, cdict, vdict, use_calldata_dictionary(mode_draw), draws),
    )
}

/// The calldata for `f`: its selector followed by the ABI encoding of its parameters,
/// one word each.
pub open spec fn calldata_for(
    f: FunctionDesc,
    cdict: Seq<CalldataEntry>,
    vdict: Seq<TypedWord>,
    mode_draw: u64,
    draws: Seq<ParamDraw>,
) -> Seq<u8> {
    f.selector@ + concat_words(param_words(f, cdict, vdict, mode_draw, draws))
}

/// Appends the word `w` made valid for type `t`.
fn push_word(out: &mut Vec<u8>, t: ParamType, w: &[u8; 32])
    ensures
        final(out)@ == old(out)@ + coerce(t, w@),
{
    let ghost start = out@;
    let ghost c = coerce(t, w@);
    assert(c.len() == 32);
    let mut j: usize = 0;
    while j < 32
        invariant
            j <= 32,
            w@.len() == 32,
            c == coerce(t, w@),
            c.len() == 32,
            out@ == start + c.take(j as int),
        decreases 32 - j,
    {
        let b: u8 = match t {
            ParamType::Address => if j < 12 {
                0
            } else {
                w[j]
            },
            ParamType::Bool => if j < 31 {
                0
            } else {
                w[31] % 2
            },
            _ => w[j],
        };
        assert(b == c[j as int]);
        out.push(b);
        assert(c.take(j as int + 1) =~= c.take(j as int).push(c[j as int]));
        j += 1;
    }
    assert(c.take(32) =~= c);
}

/// Synthesizes calldata for `func` and pairs it with `contract`. The mode draw takes the
/// sampled candidates of the calldata dictionary (60 of 100) or the observed values of
/// the value dictionary (40 of 100); each parameter takes a candidate picked by its draw,
/// or its random word when there is none, made valid for its type.
pub fn fuzz_contract_with_calldata(
    fuzz_state: &ValueDictionary,
    calldata_fuzz_config: &CalldataDictionary,
    contract: Address,
    func: &FunctionDesc,
    mode_draw: u64,
    draws: &Vec<ParamDraw>,
) -> (r: (Address, Vec<u8>))
    ensures
        r.0@ == contract@,
        r.1@ == calldata_for(
            *func,
            calldata_fuzz_config.entries@,
            fuzz_state.values@,
            mode_draw,
            draws@,
        ),
{
    let use_calldata = choose_first(60, 40, mode_draw);
    let ghost words = param_words(
        *func,
        calldata_fuzz_config.entries@,
        fuzz_state.values@,
        mode_draw,
        draws@,
    );
    let mut out: Vec<u8> = Vec::new();
    let mut j: usize = 0;
    while j < 4
        invariant
            j <= 4,
            func.selector@.len() == 4,
            out@ == func.selector@.take(j as int),
        decreases 4 - j,
    {
        out.push(func.selector[j]);
        assert(func.selector@.take(j as int + 1) =~= func.selector@.take(j as int).push(
            func.selector@[j as int],
        ));
        j += 1;
    }
    assert(func.selector@.take(4) =~= func.selector@);
    assert(words.take(0) =~= Seq::<Seq<u8>>::empty());
    assert(out@ =~= func.selector@ + concat_words(words.take(0)));
    let mut i: usize = 0;
    while i < func.inputs.len()
        invariant
            i <= func.inputs@.len(),
            use_calldata == use_calldata_dictionary(mode_draw),
            words == param_words(
                *func,
                calldata_fuzz_config.entries@,
                fuzz_state.values@,
                mode_draw,
                draws@,
            ),
            out@ == func.selector@ + concat_words(words.take(i as int)),
        decreases func.inputs@.len() - i,
    {
        let t = func.inputs[i];
        let pool = if use_calldata {
            calldata_fuzz_config.pool(&func.selector, i)
        } else {
            fuzz_state.pool(t)
        };
        let (pick, random): (u64, [u8; 32]) = if i < draws.len() {
            (draws[i].pick, draws[i].random)
        } else {
            (0, [0u8; 32])
        };
        assert(random@ == draw_random(draws@, i as int));
        let w: [u8; 32] = if pool.len() > 0 {
            let k = pick_index(pool.len(), pick);
            pool[k]
        } else {
            random
        };
        push_word(&mut out, t, &w);
        assert(words.take(i as int + 1).drop_last() =~= words.take(i as int));
        assert(words[i as int] == coerce(t, w@));
        assert(out@ =~= func.selector@ + concat_words(words.take(i as int + 1)));
        i += 1;
    }
    assert(words.take(func.inputs@.len() as int) =~= words);
    (contract, out)
}

} // verus!
