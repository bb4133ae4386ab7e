//! The interactive guess-assembly state machine.
//!
//! One turn's guess is accumulated from two independently-arriving selection
//! events, "position chosen" and "symbol chosen", in either order. While at
//! most one of the two is pending, nothing is placed; as soon as the
//! complementary event arrives, the pair is committed into the placement map
//! and both pending slots are cleared. Re-issuing the selection that is
//! already pending is a no-op re-affirmation, not a toggle.

use vstd::prelude::*;

use crate::symbols::{pairwise_distinct, Symbol};

verus! {

/// The mathematical state of a builder: the placement map under
/// construction and the two pending selection channels.
#[verifier::ext_equal]
pub ghost struct BuilderModel {
    pub slots: Seq<Option<Symbol>>,
    pub pending_pos: Option<int>,
    pub pending_sym: Option<Symbol>,
}

/// No symbol value occupies two positions of the placement map.
pub open spec fn no_duplicate_placement(slots: Seq<Option<Symbol>>) -> bool {
    forall|i: int, j: int|
        0 <= i < j < slots.len() && slots[i] is Some && slots[j] is Some ==> slots[i]->0
            != slots[j]->0
}

/// A well-formed builder: a duplicate-free placement map, a pending
/// position inside the board, and never both channels pending at once.
pub open spec fn builder_inv(m: BuilderModel) -> bool {
    &&& no_duplicate_placement(m.slots)
    &&& (m.pending_pos matches Some(p) ==> 0 <= p < m.slots.len())
    &&& !(m.pending_pos is Some && m.pending_sym is Some)
}

/// The commit algorithm on the placement map: `sym` is assigned to `pos`,
/// and removed from any other position it occupied before.
pub open spec fn committed_slots(slots: Seq<Option<Symbol>>, pos: int, sym: Symbol) -> Seq<
    Option<Symbol>,
> {
    Seq::new(
        slots.len(),
        |i: int|
            if i == pos {
                Some(sym)
            } else if slots[i] == Some(sym) {
                None
            } else {
                slots[i]
            },
    )
}

/// The transition taken by a "position chosen" event: it commits with a
/// pending symbol, and otherwise merely (re)places the pending position.
pub open spec fn select_position_step(m: BuilderModel, pos: int) -> BuilderModel {
    match m.pending_sym {
        Some(sym) => BuilderModel {
            slots: committed_slots(m.slots, pos, sym),
            pending_pos: None,
            pending_sym: None,
        },
        None => BuilderModel { pending_pos: Some(pos), ..m },
    }
}

/// The transition taken by a "symbol chosen" event, symmetric to
/// `select_position_step`.
pub open spec fn select_symbol_step(m: BuilderModel, sym: Symbol) -> BuilderModel {
    match m.pending_pos {
        Some(pos) => BuilderModel {
            slots: committed_slots(m.slots, pos, sym),
            pending_pos: None,
            pending_sym: None,
        },
        None => BuilderModel { pending_sym: Some(sym), ..m },
    }
}

/// Every position of the placement map is filled.
pub open spec fn slots_complete(slots: Seq<Option<Symbol>>) -> bool {
    forall|i: int| 0 <= i < slots.len() ==> slots[i] is Some
}

/// Every position of the placement map is empty.
pub open spec fn slots_all_empty(slots: Seq<Option<Symbol>>) -> bool {
    forall|i: int| 0 <= i < slots.len() ==> slots[i] is None
}

/// The guess read out of a complete placement map.
pub open spec fn completed_guess(slots: Seq<Option<Symbol>>) -> Seq<Symbol> {
    Seq::new(slots.len(), |i: int| slots[i]->0)
}

/// The commit algorithm preserves the one-symbol-one-position invariant.
pub proof fn lemma_commit_no_duplicate(slots: Seq<Option<Symbol>>, pos: int, sym: Symbol)
    requires
        no_duplicate_placement(slots),
        0 <= pos < slots.len(),
    ensures
        no_duplicate_placement(committed_slots(slots, pos, sym)),
{
    let out = committed_slots(slots, pos, sym);
    assert forall|i: int, j: int|
        0 <= i < j < out.len() && out[i] is Some && out[j] is Some implies out[i]->0
        != out[j]->0 by {
        if i == pos {
            assert(out[j] == slots[j] && slots[j] != Some(sym));
        } else if j == pos {
            assert(out[i] == slots[i] && slots[i] != Some(sym));
        } else {
            assert(out[i] == slots[i] && out[j] == slots[j]);
        }
    }
}

/// After any sequence of selection events, no symbol value ever occupies two
/// positions of the placement map: a "position chosen" event preserves the
/// builder invariant.
pub proof fn lemma_select_position_preserves_inv(m: BuilderModel, pos: int)
    requires
        builder_inv(m),
        0 <= pos < m.slots.len(),
    ensures
        builder_inv(select_position_step(m, pos)),
{
    match m.pending_sym {
        Some(sym) => lemma_commit_no_duplicate(m.slots, pos, sym),
        None => (),
    }
}

/// A "symbol chosen" event preserves the builder invariant as well, so the
/// invariant holds after any interleaving of the two events.
pub proof fn lemma_select_symbol_preserves_inv(m: BuilderModel, sym: Symbol)
    requires
        builder_inv(m),
    ensures
        builder_inv(select_symbol_step(m, sym)),
{
    match m.pending_pos {
        Some(pos) => lemma_commit_no_duplicate(m.slots, pos, sym),
        None => (),
    }
}

/// Commit is order-independent: from a builder with nothing pending,
/// choosing a position and then a symbol ends in exactly the same state as
/// choosing the same symbol and then the same position.
pub proof fn lemma_commit_order_independent(m: BuilderModel, pos: int, sym: Symbol)
    requires
        m.pending_pos is None,
        m.pending_sym is None,
    ensures
        select_symbol_step(select_position_step(m, pos), sym) == select_position_step(
            select_symbol_step(m, sym),
            pos,
        ),
{
    assert(select_symbol_step(select_position_step(m, pos), sym) =~= select_position_step(
        select_symbol_step(m, sym),
        pos,
    ));
}

/// A complete, duplicate-free placement map reads out as a duplicate-free
/// guess.
pub proof fn lemma_completed_guess_distinct(slots: Seq<Option<Symbol>>)
    requires
        no_duplicate_placement(slots),
        slots_complete(slots),
    ensures
        pairwise_distinct(completed_guess(slots)),
        completed_guess(slots).len() == slots.len(),
{
}

/// Assembles one turn's guess from the two selection channels while
/// maintaining the one-symbol-per-position invariant.
#[derive(Debug)]
pub struct GuessBuilder {
    pub slots: Vec<Option<Symbol>>,
    pub pending_pos: Option<usize>,
    pub pending_sym: Option<Symbol>,
}

impl View for GuessBuilder {
    type V = BuilderModel;

    open spec fn view(&self) -> BuilderModel {
        BuilderModel {
            slots: self.slots@,
            pending_pos: match self.pending_pos {
                Some(p) => Some(p as int),
                None => None,
            },
            pending_sym: self.pending_sym,
        }
    }
}

impl GuessBuilder {
    pub open spec fn wf(&self) -> bool {
        builder_inv(self@)
    }

    /// An all-empty builder for a board of `length` positions.
    pub fn new(length: usize) -> (b: GuessBuilder)
        ensures
            b.wf(),
            b@.slots.len() == length,
            slots_all_empty(b@.slots),
            b@.pending_pos is None,
            b@.pending_sym is None,
    {
        let mut slots: Vec<Option<Symbol>> = Vec::new();
        let mut i: usize = 0;
        while i < length
            invariant
                i <= length,
                slots@.len() == i,
                forall|j: int| 0 <= j < i ==> slots@[j] is None,
            decreases length - i,
        {
            slots.push(None);
            i = i + 1;
        }
        GuessBuilder { slots, pending_pos: None, pending_sym: None }
    }

    pub fn len(&self) -> (n: usize)
        ensures
            n == self@.slots.len(),
    {
        self.slots.len()
    }

    /// The commit algorithm: assign `sym` to `pos`, removing `sym` from any
    /// other position it occupied.
    fn commit(&mut self, pos: usize, sym: Symbol)
        requires
            pos < old(self)@.slots.len(),
        ensures
            final(self)@.slots == committed_slots(old(self)@.slots, pos as int, sym),
            final(self).pending_pos == old(self).pending_pos,
            final(self).pending_sym == old(self).pending_sym,
    {
        let mut i: usize = 0;
        while i < self.slots.len()
            invariant
                i <= self.slots.len(),
                pos < self.slots.len(),
                self.slots.len() == old(self).slots.len(),
                self.pending_pos == old(self).pending_pos,
                self.pending_sym == old(self).pending_sym,
                forall|j: int|
                    0 <= j < i ==> self.slots@[j] == committed_slots(
                        old(self)@.slots,
                        pos as int,
                        sym,
                    )[j],
                forall|j: int| i <= j < self.slots@.len() ==> self.slots@[j] == old(self)@.slots[j],
            decreases self.slots.len() - i,
        {
            if i == pos {
                self.slots.set(i, Some(sym));
            } else {
                let keep = match self.slots[i] {
                    Some(s) => s.id != sym.id,
                    None => true,
                };
                if !keep {
                    self.slots.set(i, None);
                }
            }
            i = i + 1;
        }
        assert(self.slots@ =~= committed_slots(old(self)@.slots, pos as int, sym));
    }

    /// Records `index` as the pending position; if a symbol is already
    /// pending, immediately commits the pair and clears both channels.
    /// Re-selecting the position already pending changes nothing.
    pub fn select_position(&mut self, index: usize)
        requires
            old(self).wf(),
            index < old(self)@.slots.len(),
        ensures
            final(self).wf(),
            final(self)@ == select_position_step(old(self)@, index as int),
    {
        proof {
            lemma_select_position_preserves_inv(self@, index as int);
        }
        match self.pending_sym {
            Some(sym) => {
                self.commit(index, sym);
                self.pending_pos = None;
                self.pending_sym = None;
            },
            None => {
                self.pending_pos = Some(index);
            },
        }
    }

    /// Records `symbol` as the pending symbol; if a position is already
    /// pending, immediately commits the pair and clears both channels.
    /// Re-selecting the symbol already pending changes nothing.
    pub fn select_symbol(&mut self, symbol: Symbol)
        requires
            old(self).wf(),
        ensures
            final(self).wf(),
            final(self)@ == select_symbol_step(old(self)@, symbol),
    {
        proof {
            lemma_select_symbol_preserves_inv(self@, symbol);
        }
        match self.pending_pos {
            Some(pos) => {
                self.commit(pos, symbol);
                self.pending_pos = None;
                self.pending_sym = None;
            },
            None => {
                self.pending_sym = Some(symbol);
            },
        }
    }

    /// Forces both pending channels empty without committing anything.
    pub fn clear_pending(&mut self)
        ensures
            final(self)@.slots == old(self)@.slots,
            final(self)@.pending_pos is None,
            final(self)@.pending_sym is None,
            old(self).wf() ==> final(self).wf(),
    {
        self.pending_pos = None;
        self.pending_sym = None;
    }

    /// True when every position holds a symbol: the signal that the guess
    /// may be offered for confirmation.
    pub fn is_complete(&self) -> (r: bool)
        ensures
            r == slots_complete(self@.slots),
    {
        let mut i: usize = 0;
        while i < self.slots.len()
            invariant
                i <= self.slots.len(),
                forall|j: int| 0 <= j < i ==> self.slots@[j] is Some,
            decreases self.slots.len() - i,
        {
            if self.slots[i].is_none() {
                return false;
            }
            i = i + 1;
        }
        true
    }

    /// The current placement map, empty slots included, for external
    /// display. A pure read.
    pub fn snapshot(&self) -> (r: Vec<Option<Symbol>>)
        ensures
            r@ == self@.slots,
    {
        let mut out: Vec<Option<Symbol>> = Vec::new();
        let mut i: usize = 0;
        while i < self.slots.len()
            invariant
                i <= self.slots.len(),
                out@.len() == i,
                forall|j: int| 0 <= j < i ==> out@[j] == self.slots@[j],
            decreases self.slots.len() - i,
        {
            out.push(self.slots[i]);
            i = i + 1;
        }
        assert(out@ =~= self@.slots);
        out
    }

    /// Reads the finished guess out of a complete placement map.
    pub fn guess(&self) -> (g: Vec<Symbol>)
        requires
            slots_complete(self@.slots),
        ensures
            g@ == completed_guess(self@.slots),
            g@.len() == self@.slots.len(),
    {
        let mut out: Vec<Symbol> = Vec::new();
        let mut i: usize = 0;
        while i < self.slots.len()
            invariant
                i <= self.slots.len(),
                slots_complete(self@.slots),
                out@.len() == i,
                forall|j: int| 0 <= j < i ==> out@[j] == completed_guess(self@.slots)[j],
            decreases self.slots.len() - i,
        {
            match self.slots[i] {
                Some(s) => out.push(s),
                None => {
                    proof {
                        assert(false);
                    }
                },
            }
            i = i + 1;
        }
        assert(out@ =~= completed_guess(self@.slots));
        out
    }

    /// Returns the builder to an all-empty placement map with nothing
    /// pending, for the start of a new turn.
    pub fn reset(&mut self)
        ensures
            final(self).wf(),
            final(self)@.slots.len() == old(self)@.slots.len(),
            slots_all_empty(final(self)@.slots),
            final(self)@.pending_pos is None,
            final(self)@.pending_sym is None,
    {
        let mut i: usize = 0;
        while i < self.slots.len()
            invariant
                i <= self.slots.len(),
                self.slots.len() == old(self).slots.len(),
                forall|j: int| 0 <= j < i ==> self.slots@[j] is None,
            decreases self.slots.len() - i,
        {
            self.slots.set(i, None);
            i = i + 1;
        }
        self.pending_pos = None;
        self.pending_sym = None;
    }
}

} // verus!
