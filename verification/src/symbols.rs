//! Symbols (the "pins" of the puzzle) and palettes of symbols.

use vstd::prelude::*;

verus! {

/// One value from the palette. Identity matters only for equality; the
/// numeric id exists so that the rendering layer can map each symbol to
/// whatever concrete representation it likes.
#[derive(Clone, Copy, PartialEq, Eq, Structural, Debug)]
pub struct Symbol {
    pub id: u32,
}

impl Symbol {
    pub fn new(id: u32) -> (s: Symbol)
        ensures
            s.id == id,
    {
        Symbol { id }
    }
}

/// No element of the sequence occurs twice.
pub open spec fn pairwise_distinct(s: Seq<Symbol>) -> bool {
    forall|i: int, j: int| 0 <= i < j < s.len() ==> s[i] != s[j]
}

/// Decides whether the sequence holds the symbol.
pub fn vec_contains(v: &Vec<Symbol>, s: Symbol) -> (r: bool)
    ensures
        r == v@.contains(s),
{
    let mut i: usize = 0;
    while i < v.len()
        invariant
            i <= v.len(),
            forall|j: int| 0 <= j < i ==> v@[j] != s,
        decreases v.len() - i,
    {
        if v[i].id == s.id {
            assert(v@[i as int] == s);
            return true;
        }
        i = i + 1;
    }
    false
}

/// Decides whether some symbol occurs twice in the sequence.
pub fn has_duplicate(v: &Vec<Symbol>) -> (r: bool)
    ensures
        r == !pairwise_distinct(v@),
{
    let mut i: usize = 0;
    while i < v.len()
        invariant
            i <= v.len(),
            forall|a: int, b: int| 0 <= a < b < i ==> v@[a] != v@[b],
        decreases v.len() - i,
    {
        let mut j: usize = 0;
        while j < i
            invariant
                j <= i < v.len(),
                forall|a: int| 0 <= a < j ==> v@[a] != v@[i as int],
            decreases i - j,
        {
            if v[j].id == v[i].id {
                assert(v@[j as int] == v@[i as int]);
                return true;
            }
            j = j + 1;
        }
        i = i + 1;
    }
    false
}

/// A finite set of symbols, duplicate-free by construction.
#[derive(Debug)]
pub struct Palette {
    pub symbols: Vec<Symbol>,
}

impl View for Palette {
    type V = Seq<Symbol>;

    open spec fn view(&self) -> Seq<Symbol> {
        self.symbols@
    }
}

impl Palette {
    pub open spec fn wf(&self) -> bool {
        pairwise_distinct(self@)
    }

    pub fn new() -> (p: Palette)
        ensures
            p.wf(),
            p@.len() == 0,
    {
        Palette { symbols: Vec::new() }
    }

    pub fn len(&self) -> (n: usize)
        ensures
            n == self@.len(),
    {
        self.symbols.len()
    }

    pub fn contains(&self, s: Symbol) -> (r: bool)
        ensures
            r == self@.contains(s),
    {
        vec_contains(&self.symbols, s)
    }

    /// Adds a symbol unless it is already present, keeping the palette
    /// duplicate-free.
    pub fn insert(&mut self, s: Symbol)
        requires
            old(self).wf(),
        ensures
            final(self).wf(),
            old(self)@.contains(s) ==> final(self)@ == old(self)@,
            !old(self)@.contains(s) ==> final(self)@ == old(self)@.push(s),
            final(self)@.contains(s),
    {
        if !self.contains(s) {
            self.symbols.push(s);
            assert(self@.last() == s);
            assert(forall|i: int| 0 <= i < old(self)@.len() ==> self@[i] == old(self)@[i]);
        }
    }
}

} // verus!
