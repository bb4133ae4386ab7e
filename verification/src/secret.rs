//! The hidden answer of a session, and its generation from a palette.

use vstd::prelude::*;

use itertools::Itertools;
use rand::seq::IteratorRandom;

use crate::symbols::{pairwise_distinct, has_duplicate, Palette, Symbol};
use crate::Error;

verus! {

/// `sel` names distinct positions of `pool`, and `v` is `pool` read at those
/// positions, in order.
pub open spec fn selection_of(v: Seq<Symbol>, pool: Seq<Symbol>, sel: Seq<int>) -> bool {
    &&& sel.len() == v.len()
    &&& (forall|i: int| 0 <= i < sel.len() ==> 0 <= #[trigger] sel[i] < pool.len())
    &&& (forall|i: int| 0 <= i < sel.len() ==> v[i] == pool[#[trigger] sel[i]])
    &&& (forall|i: int, j: int| 0 <= i < j < sel.len() ==> sel[i] != sel[j])
}

/// Relies on `itertools::Itertools::permutations` and
/// `rand::seq::IteratorRandom::choose`: `permutations(count)` yields every
/// arrangement of `count` elements taken at pairwise-distinct positions of
/// the input (a single empty arrangement when `count` is zero, nothing at
/// all when `count` exceeds the input's length), and `choose` draws one
/// element of the iterator at random, returning `None` exactly when the
/// iterator is empty.
#[verifier::external_body]
fn random_arrangement(pool: &Vec<Symbol>, count: usize) -> (r: Option<Vec<Symbol>>)
    ensures
        r is Some <==> count <= pool@.len(),
        r matches Some(v) ==> v@.len() == count && (exists|sel: Seq<int>|
            selection_of(v@, pool@, sel)),
{
    pool.iter().cloned().permutations(count).choose(&mut rand::rng())
}

/// Reading a duplicate-free pool at distinct positions yields a
/// duplicate-free sequence of pool members.
pub proof fn lemma_selection_distinct(v: Seq<Symbol>, pool: Seq<Symbol>, sel: Seq<int>)
    requires
        selection_of(v, pool, sel),
        pairwise_distinct(pool),
    ensures
        pairwise_distinct(v),
        forall|i: int| 0 <= i < v.len() ==> pool.contains(#[trigger] v[i]),
{
    assert forall|i: int, j: int| 0 <= i < j < v.len() implies v[i] != v[j] by {
        if sel[i] < sel[j] {
            assert(pool[sel[i]] != pool[sel[j]]);
        } else {
            assert(pool[sel[j]] != pool[sel[i]]);
        }
    }
    assert forall|i: int| 0 <= i < v.len() implies pool.contains(#[trigger] v[i]) by {
        assert(pool[sel[i]] == v[i]);
    }
}

/// The hidden target sequence: an ordered, duplicate-free arrangement of
/// symbols, created once per session and immutable afterwards.
#[derive(Debug)]
pub struct Secret {
    pub pins: Vec<Symbol>,
}

impl View for Secret {
    type V = Seq<Symbol>;

    open spec fn view(&self) -> Seq<Symbol> {
        self.pins@
    }
}

impl Secret {
    /// No symbol is repeated.
    pub open spec fn wf(&self) -> bool {
        pairwise_distinct(self@)
    }

    /// Wraps an explicitly given sequence, rejecting one with a repeated
    /// symbol.
    pub fn new(pins: Vec<Symbol>) -> (r: Option<Secret>)
        ensures
            r is Some <==> pairwise_distinct(pins@),
            r matches Some(s) ==> s@ == pins@ && s.wf(),
    {
        if has_duplicate(&pins) {
            None
        } else {
            Some(Secret { pins })
        }
    }

    pub fn len(&self) -> (n: usize)
        ensures
            n == self@.len(),
    {
        self.pins.len()
    }

    /// Draws one duplicate-free arrangement of `length` palette symbols at
    /// random. Fails exactly when the palette holds fewer than `length`
    /// distinct symbols.
    pub fn generate(palette: &Palette, length: usize) -> (r: Result<Secret, Error>)
        requires
            palette.wf(),
        ensures
            r is Ok <==> length <= palette@.len(),
            r matches Ok(s) ==> {
                &&& s.wf()
                &&& s@.len() == length
                &&& forall|i: int| 0 <= i < length ==> palette@.contains(#[trigger] s@[i])
            },
            r matches Err(e) ==> e == (Error::GenerationError {
                length,
                palette_size: palette@.len() as usize,
            }),
    {
        match random_arrangement(&palette.symbols, length) {
            Some(v) => {
                proof {
                    let sel = choose|sel: Seq<int>| selection_of(v@, palette@, sel);
                    lemma_selection_distinct(v@, palette@, sel);
                }
                Ok(Secret { pins: v })
            },
            None => Err(Error::GenerationError { length, palette_size: palette.symbols.len() }),
        }
    }
}

} // verus!
