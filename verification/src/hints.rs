//! Per-symbol outcome classification and the canonical ordering of hint rows.

use vstd::prelude::*;

verus! {

/// The outcome recorded for one guessed symbol. The fixed relative order
/// `Blow < Hit < Miss` is used only for the canonical, position-hiding
/// ordering of a returned row, never for gameplay comparison.
#[derive(Clone, Copy, PartialEq, Eq, Structural, Debug)]
pub enum Hint {
    /// The symbol exists in the secret, but at a different position.
    Blow,
    /// The symbol matches the secret at the same position.
    Hit,
    /// The symbol does not exist anywhere in the secret.
    Miss,
}

/// The fixed rank of a hint in the canonical output order.
pub open spec fn hint_rank(h: Hint) -> int {
    match h {
        Hint::Blow => 0,
        Hint::Hit => 1,
        Hint::Miss => 2,
    }
}

/// The row is sorted ascending by the canonical hint order.
pub open spec fn hints_sorted(row: Seq<Hint>) -> bool {
    forall|i: int, j: int| 0 <= i < j < row.len() ==> hint_rank(row[i]) <= hint_rank(row[j])
}

/// How many entries of the row equal `h`.
pub open spec fn count_hint(row: Seq<Hint>, h: Hint) -> nat
    decreases row.len(),
{
    if row.len() == 0 {
        0
    } else {
        count_hint(row.drop_last(), h) + (if row.last() == h {
            1nat
        } else {
            0nat
        })
    }
}

/// `n` copies of the hint `h`.
pub open spec fn repeat_hint(h: Hint, n: nat) -> Seq<Hint> {
    Seq::new(n, |i: int| h)
}

pub proof fn lemma_count_push(row: Seq<Hint>, x: Hint, h: Hint)
    ensures
        count_hint(row.push(x), h) == count_hint(row, h) + (if x == h {
            1nat
        } else {
            0nat
        }),
{
    assert(row.push(x).drop_last() =~= row);
}

/// The three per-variant counts partition the row.
pub proof fn lemma_count_partition(row: Seq<Hint>)
    ensures
        count_hint(row, Hint::Blow) + count_hint(row, Hint::Hit) + count_hint(row, Hint::Miss)
            == row.len(),
    decreases row.len(),
{
    if row.len() > 0 {
        lemma_count_partition(row.drop_last());
    }
}

pub proof fn lemma_count_repeat(h: Hint, n: nat, h2: Hint)
    ensures
        count_hint(repeat_hint(h, n), h2) == if h == h2 {
            n
        } else {
            0nat
        },
    decreases n,
{
    if n > 0 {
        assert(repeat_hint(h, n).drop_last() =~= repeat_hint(h, (n - 1) as nat));
        lemma_count_repeat(h, (n - 1) as nat, h2);
    }
}

/// Counting distributes over concatenation.
pub proof fn lemma_count_concat(a: Seq<Hint>, b: Seq<Hint>, h: Hint)
    ensures
        count_hint(a + b, h) == count_hint(a, h) + count_hint(b, h),
    decreases b.len(),
{
    if b.len() == 0 {
        assert(a + b =~= a);
    } else {
        assert((a + b).drop_last() =~= a + b.drop_last());
        lemma_count_concat(a, b.drop_last(), h);
    }
}

/// A row that holds only one kind of hint, `h` repeated, is counted as such.
pub proof fn lemma_all_same_count(row: Seq<Hint>, h: Hint)
    requires
        forall|i: int| 0 <= i < row.len() ==> row[i] == h,
    ensures
        count_hint(row, h) == row.len(),
        forall|h2: Hint| h2 != h ==> count_hint(row, h2) == 0,
    decreases row.len(),
{
    if row.len() > 0 {
        lemma_all_same_count(row.drop_last(), h);
        assert(row.last() == h);
        assert forall|h2: Hint| h2 != h implies count_hint(row, h2) == 0 by {
            assert(count_hint(row, h2) == count_hint(row.drop_last(), h2));
        }
    }
}

} // verus!
