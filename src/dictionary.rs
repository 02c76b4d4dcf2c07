use vstd::prelude::*;
use crate::abi::ParamType;

verus! {

/// A previously observed value, as one ABI word, with the type it was observed as.
#[derive(Clone, Copy, Debug)]
pub struct TypedWord {
    pub ty: ParamType,
    pub word: [u8; 32],
}

/// The corpus of values observed during a run, in order of observation.
#[derive(Clone, Debug)]
pub struct ValueDictionary {
    pub values: Vec<TypedWord>,
}

/// A candidate value for one parameter of the function with the given selector.
#[derive(Clone, Copy, Debug)]
pub struct CalldataEntry {
    pub selector: [u8; 4],
    pub position: usize,
    pub word: [u8; 32],
}

/// Candidate argument values sampled from chain state, keyed by function and position.
#[derive(Clone, Debug)]
pub struct CalldataDictionary {
    pub entries: Vec<CalldataEntry>,
}

/// The observed words of type `t`, in order.
pub open spec fn value_pool(s: Seq<TypedWord>, t: ParamType) -> Seq<[u8; 32]>
    decreases s.len(),
{
    if s.len() == 0 {
        Seq::empty()
    } else {
        let p = value_pool(s.drop_last(), t);
        if s.last().ty == t {
            p.push(s.last().word)
        } else {
            p
        }
    }
}

/// The candidate words for parameter `position` of the function with selector `sel`.
pub open spec fn calldata_pool(s: Seq<CalldataEntry>, sel: Seq<u8>, position: int) -> Seq<
    [u8; 32],
>
    decreases s.len(),
{
    if s.len() == 0 {
        Seq::empty()
    } else {
        let p = calldata_pool(s.drop_last(), sel, position);
        if s.last().selector@ == sel && s.last().position == position {
            p.push(s.last().word)
        } else {
            p
        }
    }
}

fn same_selector(a: &[u8; 4], b: &[u8; 4]) -> (r: bool)
    ensures
        r == (a@ == b@),
{
    let r = a[0] == b[0] && a[1] == b[1] && a[2] == b[2] && a[3] == b[3];
    if r {
        assert(a@ =~= b@);
    }
    r
}

impl ValueDictionary {
    pub fn new() -> (r: ValueDictionary)
        ensures
            r.values@.len() == 0,
    {
        ValueDictionary { values: Vec::new() }
    }

    /// Records an observed value.
    pub fn insert(&mut self, ty: ParamType, word: [u8; 32])
        ensures
            final(self).values@ == old(self).values@.push(TypedWord { ty, word }),
    {
        self.values.push(TypedWord { ty, word });
    }

    /// The observed words of type `t`.
    pub fn pool(&self, t: ParamType) -> (r: Vec<[u8; 32]>)
        ensures
            r@ == value_pool(self.values@, t),
    {
        let mut r: Vec<[u8; 32]> = Vec::new();
        let mut i: usize = 0;
        while i < self.values.len()
            invariant
                i <= self.values@.len(),
                r@ == value_pool(self.values@.take(i as int), t),
            decreases self.values@.len() - i,
        {
            assert(self.values@.take(i as int + 1).drop_last() =~= self.values@.take(i as int));
            let v = self.values[i];
            if v.ty == t {
                r.push(v.word);
            }
            i += 1;
        }
        assert(self.values@.take(self.values@.len() as int) =~= self.values@);
        r
    }
}

impl CalldataDictionary {
    pub fn new() -> (r: CalldataDictionary)
        ensures
            r.entries@.len() == 0,
    {
        CalldataDictionary { entries: Vec::new() }
    }

    /// Adds a candidate word for parameter `position` of the function with `selector`.
    pub fn insert(&mut self, selector: [u8; 4], position: usize, word: [u8; 32])
        ensures
            final(self).entries@ == old(self).entries@.push(
                CalldataEntry { selector, position, word },
            ),
    {
        self.entries.push(CalldataEntry { selector, position, word });
    }

    /// The candidate words for parameter `position` of the function with `selector`.
    pub fn pool(&self, selector: &[u8; 4], position: usize) -> (r: Vec<[u8; 32]>)
        ensures
            r@ == calldata_pool(self.entries@, selector@, position as int),
    {
        let mut r: Vec<[u8; 32]> = Vec::new();
        let mut i: usize = 0;
        while i < self.entries.len()
            invariant
                i <= self.entries@.len(),
                r@ == calldata_pool(self.entries@.take(i as int), selector@, position as int),
            decreases self.entries@.len() - i,
        {
            assert(self.entries@.take(i as int + 1).drop_last() =~= self.entries@.take(i as int));
            let e = self.entries[i];
            if same_selector(&e.selector, selector) && e.position == position {
                r.push(e.word);
            }
            i += 1;
        }
        assert(self.entries@.take(self.entries@.len() as int) =~= self.entries@);
        r
    }
}

} // verus!
