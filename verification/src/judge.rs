//! Guess evaluation: scoring a candidate sequence against the secret.

use vstd::prelude::*;

use crate::hints::{count_hint, hint_rank, hints_sorted, lemma_all_same_count, lemma_count_concat,
    lemma_count_partition, lemma_count_push, lemma_count_repeat, repeat_hint, Hint};
use crate::secret::Secret;
use crate::symbols::{has_duplicate, pairwise_distinct, vec_contains, Symbol};
use crate::InvalidGuess;

verus! {

/// The outcome at index `i` of the guess: a positional match is a `Hit`, a
/// symbol present anywhere else in the secret is a `Blow`, an absent one a
/// `Miss`. Each secret position backs at most one guess position's `Hit` or
/// `Blow`, which is automatic here because a secret never repeats a symbol.
pub open spec fn hint_at(secret: Seq<Symbol>, guess: Seq<Symbol>, i: int) -> Hint {
    if secret[i] == guess[i] {
        Hint::Hit
    } else if secret.contains(guess[i]) {
        Hint::Blow
    } else {
        Hint::Miss
    }
}

/// The row of outcomes in positional order, one per guess position.
pub open spec fn hint_row(secret: Seq<Symbol>, guess: Seq<Symbol>) -> Seq<Hint> {
    Seq::new(guess.len(), |i: int| hint_at(secret, guess, i))
}

/// The canonical, position-hiding form of the row: the same outcomes
/// re-ordered ascending by `Blow < Hit < Miss`, so a caller learns counts,
/// not positions.
pub open spec fn sorted_row(secret: Seq<Symbol>, guess: Seq<Symbol>) -> Seq<Hint> {
    let row = hint_row(secret, guess);
    repeat_hint(Hint::Blow, count_hint(row, Hint::Blow)) + repeat_hint(
        Hint::Hit,
        count_hint(row, Hint::Hit),
    ) + repeat_hint(Hint::Miss, count_hint(row, Hint::Miss))
}

/// How many guess positions hold a symbol that appears anywhere in the
/// secret.
pub open spec fn present_count(secret: Seq<Symbol>, guess: Seq<Symbol>) -> nat
    decreases guess.len(),
{
    if guess.len() == 0 {
        0
    } else {
        present_count(secret, guess.drop_last()) + (if secret.contains(guess.last()) {
            1nat
        } else {
            0nat
        })
    }
}

/// The canonical row is emitted sorted ascending by the fixed hint order,
/// and holds one hint per guess position.
pub proof fn lemma_sorted_row_sorted(secret: Seq<Symbol>, guess: Seq<Symbol>)
    ensures
        hints_sorted(sorted_row(secret, guess)),
        sorted_row(secret, guess).len() == guess.len(),
{
    let row = hint_row(secret, guess);
    lemma_count_partition(row);
    let nb = count_hint(row, Hint::Blow);
    let nh = count_hint(row, Hint::Hit);
    let nm = count_hint(row, Hint::Miss);
    let out = sorted_row(secret, guess);
    assert forall|i: int, j: int| 0 <= i < j < out.len() implies hint_rank(out[i]) <= hint_rank(
        out[j],
    ) by {
        assert(hint_rank(out[i]) == if i < nb {
            0int
        } else if i < nb + nh {
            1int
        } else {
            2int
        });
        assert(hint_rank(out[j]) == if j < nb {
            0int
        } else if j < nb + nh {
            1int
        } else {
            2int
        });
    }
}

proof fn lemma_hit_blow_present(secret: Seq<Symbol>, guess: Seq<Symbol>)
    requires
        guess.len() <= secret.len(),
    ensures
        count_hint(hint_row(secret, guess), Hint::Hit) + count_hint(
            hint_row(secret, guess),
            Hint::Blow,
        ) == present_count(secret, guess),
        present_count(secret, guess) <= guess.len(),
    decreases guess.len(),
{
    if guess.len() > 0 {
        let row = hint_row(secret, guess);
        let prev = hint_row(secret, guess.drop_last());
        lemma_hit_blow_present(secret, guess.drop_last());
        assert(row.drop_last() =~= prev);
        let last = guess.last();
        if secret.contains(last) {
            assert(row.last() == Hint::Hit || row.last() == Hint::Blow);
        } else {
            assert(secret[guess.len() - 1] != last);
            assert(row.last() == Hint::Miss);
        }
    }
}

/// The re-sorted row has the same per-variant counts as the positional one:
/// canonical re-ordering loses positions, never outcomes.
pub proof fn lemma_sorted_row_counts(secret: Seq<Symbol>, guess: Seq<Symbol>)
    ensures
        forall|h: Hint| #[trigger] count_hint(sorted_row(secret, guess), h) == count_hint(
            hint_row(secret, guess),
            h,
        ),
{
    let row = hint_row(secret, guess);
    let blows = repeat_hint(Hint::Blow, count_hint(row, Hint::Blow));
    let hits = repeat_hint(Hint::Hit, count_hint(row, Hint::Hit));
    let misses = repeat_hint(Hint::Miss, count_hint(row, Hint::Miss));
    assert forall|h: Hint| #[trigger] count_hint(sorted_row(secret, guess), h) == count_hint(
        row,
        h,
    ) by {
        lemma_count_concat(blows + hits, misses, h);
        lemma_count_concat(blows, hits, h);
        lemma_count_repeat(Hint::Blow, count_hint(row, Hint::Blow), h);
        lemma_count_repeat(Hint::Hit, count_hint(row, Hint::Hit), h);
        lemma_count_repeat(Hint::Miss, count_hint(row, Hint::Miss), h);
    }
}

/// The defining soundness property of the evaluator: the emitted row holds
/// exactly one hint per guess position, and its `Hit`s and `Blow`s together
/// count exactly the guess symbols that appear anywhere in the secret,
/// never more than the row's length.
pub proof fn lemma_judge_soundness(secret: Seq<Symbol>, guess: Seq<Symbol>)
    requires
        secret.len() == guess.len(),
        pairwise_distinct(secret),
        pairwise_distinct(guess),
    ensures
        sorted_row(secret, guess).len() == guess.len(),
        count_hint(sorted_row(secret, guess), Hint::Hit) + count_hint(
            sorted_row(secret, guess),
            Hint::Blow,
        ) == present_count(secret, guess),
        present_count(secret, guess) <= guess.len(),
{
    lemma_sorted_row_sorted(secret, guess);
    lemma_sorted_row_counts(secret, guess);
    lemma_hit_blow_present(secret, guess);
}

/// Judging a valid secret against itself yields its length in `Hit`s and
/// nothing else.
pub proof fn lemma_judge_self(secret: Seq<Symbol>)
    requires
        pairwise_distinct(secret),
    ensures
        sorted_row(secret, secret) == repeat_hint(Hint::Hit, secret.len()),
{
    let row = hint_row(secret, secret);
    assert(forall|i: int| 0 <= i < row.len() ==> row[i] == Hint::Hit);
    lemma_all_same_count(row, Hint::Hit);
    assert(sorted_row(secret, secret) =~= repeat_hint(Hint::Hit, secret.len()));
}

impl Secret {
    /// Scores a guess of the secret's length: the canonical row of one hint
    /// per position, sorted ascending by `Blow < Hit < Miss`.
    pub fn score(&self, guess: &Vec<Symbol>) -> (row: Vec<Hint>)
        requires
            guess@.len() == self@.len(),
        ensures
            row@ == sorted_row(self@, guess@),
            hints_sorted(row@),
            row@.len() == guess@.len(),
    {
        let ghost srow = hint_row(self@, guess@);
        let mut nb: usize = 0;
        let mut nh: usize = 0;
        let mut nm: usize = 0;
        let mut i: usize = 0;
        while i < guess.len()
            invariant
                i <= guess.len(),
                guess@.len() == self@.len(),
                srow == hint_row(self@, guess@),
                nb == count_hint(srow.take(i as int), Hint::Blow),
                nh == count_hint(srow.take(i as int), Hint::Hit),
                nm == count_hint(srow.take(i as int), Hint::Miss),
                nb + nh + nm == i,
            decreases guess.len() - i,
        {
            let h: Hint = if self.pins[i] == guess[i] {
                Hint::Hit
            } else if vec_contains(&self.pins, guess[i]) {
                Hint::Blow
            } else {
                Hint::Miss
            };
            proof {
                assert(h == srow[i as int]);
                assert(srow.take(i + 1) =~= srow.take(i as int).push(srow[i as int]));
                lemma_count_push(srow.take(i as int), srow[i as int], Hint::Blow);
                lemma_count_push(srow.take(i as int), srow[i as int], Hint::Hit);
                lemma_count_push(srow.take(i as int), srow[i as int], Hint::Miss);
            }
            match h {
                Hint::Blow => nb = nb + 1,
                Hint::Hit => nh = nh + 1,
                Hint::Miss => nm = nm + 1,
            }
            i = i + 1;
        }
        proof {
            assert(srow.take(guess.len() as int) =~= srow);
        }
        let mut row: Vec<Hint> = Vec::new();
        let mut k: usize = 0;
        while k < nb
            invariant
                k <= nb,
                row@ == repeat_hint(Hint::Blow, k as nat),
            decreases nb - k,
        {
            row.push(Hint::Blow);
            k = k + 1;
        }
        k = 0;
        while k < nh
            invariant
                k <= nh,
                row@ == repeat_hint(Hint::Blow, nb as nat) + repeat_hint(Hint::Hit, k as nat),
            decreases nh - k,
        {
            row.push(Hint::Hit);
            k = k + 1;
        }
        k = 0;
        while k < nm
            invariant
                k <= nm,
                row@ == repeat_hint(Hint::Blow, nb as nat) + repeat_hint(Hint::Hit, nh as nat)
                    + repeat_hint(Hint::Miss, k as nat),
            decreases nm - k,
        {
            row.push(Hint::Miss);
            k = k + 1;
        }
        proof {
            lemma_sorted_row_sorted(self@, guess@);
        }
        row
    }

    /// Scores a candidate sequence against the secret. A guess of the wrong
    /// length is rejected first, one with a repeated symbol second; a valid
    /// guess yields the canonical sorted row.
    pub fn judge(&self, guess: &Vec<Symbol>) -> (r: Result<Vec<Hint>, InvalidGuess>)
        ensures
            r is Ok <==> guess@.len() == self@.len() && pairwise_distinct(guess@),
            match r {
                Ok(row) => {
                    &&& row@ == sorted_row(self@, guess@)
                    &&& hints_sorted(row@)
                    &&& row@.len() == guess@.len()
                },
                Err(InvalidGuess::WrongLength) => guess@.len() != self@.len(),
                Err(InvalidGuess::DuplicateSymbol) => guess@.len() == self@.len()
                    && !pairwise_distinct(guess@),
            },
    {
        if guess.len() != self.pins.len() {
            return Err(InvalidGuess::WrongLength);
        }
        if has_duplicate(guess) {
            return Err(InvalidGuess::DuplicateSymbol);
        }
        Ok(self.score(guess))
    }
}

} // verus!
