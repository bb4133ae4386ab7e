//! The guess-assembly state machine: commit order independence, the
//! idempotent re-affirmation edge case, and the one-symbol-one-position
//! invariant.

use mastermind::builder::GuessBuilder;
use mastermind::symbols::Symbol;

fn sym(id: u32) -> Symbol {
    Symbol::new(id)
}

#[test]
fn commit_is_order_independent() {
    let mut a = GuessBuilder::new(4);
    a.select_position(0);
    a.select_symbol(sym(5));

    let mut b = GuessBuilder::new(4);
    b.select_symbol(sym(5));
    b.select_position(0);

    assert_eq!(a.snapshot(), b.snapshot());
    assert_eq!(a.snapshot(), vec![Some(sym(5)), None, None, None]);
}

#[test]
fn repeated_selection_is_a_no_op_not_a_toggle() {
    let mut b = GuessBuilder::new(4);
    b.select_position(2);
    // Re-issuing the identical pending selection commits nothing and clears
    // nothing.
    b.select_position(2);
    assert_eq!(b.snapshot(), vec![None, None, None, None]);
    // The pending position is still armed: the complementary event commits.
    b.select_symbol(sym(1));
    assert_eq!(b.snapshot(), vec![None, None, Some(sym(1)), None]);

    let mut c = GuessBuilder::new(4);
    c.select_symbol(sym(9));
    c.select_symbol(sym(9));
    assert_eq!(c.snapshot(), vec![None, None, None, None]);
    c.select_position(1);
    assert_eq!(c.snapshot(), vec![None, Some(sym(9)), None, None]);
}

#[test]
fn replacing_a_pending_selection_before_commit() {
    let mut b = GuessBuilder::new(3);
    b.select_position(0);
    // A different position simply replaces the pending choice.
    b.select_position(2);
    b.select_symbol(sym(4));
    assert_eq!(b.snapshot(), vec![None, None, Some(sym(4))]);
}

#[test]
fn no_symbol_ever_occupies_two_positions() {
    let mut b = GuessBuilder::new(4);
    b.select_position(0);
    b.select_symbol(sym(7));
    assert_eq!(b.snapshot(), vec![Some(sym(7)), None, None, None]);
    // Committing the same symbol elsewhere removes it from its old slot.
    b.select_position(3);
    b.select_symbol(sym(7));
    assert_eq!(b.snapshot(), vec![None, None, None, Some(sym(7))]);
    // Overwriting a slot with a new symbol keeps the map duplicate-free.
    b.select_position(3);
    b.select_symbol(sym(2));
    assert_eq!(b.snapshot(), vec![None, None, None, Some(sym(2))]);
}

#[test]
fn clear_pending_cancels_without_committing() {
    let mut b = GuessBuilder::new(2);
    b.select_position(1);
    b.clear_pending();
    b.select_symbol(sym(3));
    // The cleared position is gone, so the symbol is merely pending.
    assert_eq!(b.snapshot(), vec![None, None]);
    assert!(!b.is_complete());
}

#[test]
fn completeness_and_reset() {
    let mut b = GuessBuilder::new(2);
    assert!(!b.is_complete());
    b.select_position(0);
    b.select_symbol(sym(1));
    assert!(!b.is_complete());
    b.select_position(1);
    b.select_symbol(sym(2));
    assert!(b.is_complete());
    assert_eq!(b.guess(), vec![sym(1), sym(2)]);
    b.reset();
    assert!(!b.is_complete());
    assert_eq!(b.snapshot(), vec![None, None]);
}
