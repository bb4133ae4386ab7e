//! The game-level state machine: repeated turns of build, confirm,
//! evaluate and record, until the secret is found, attempts run out, or the
//! player aborts.

use vstd::prelude::*;

use crate::builder::{builder_inv, completed_guess, lemma_completed_guess_distinct,
    select_position_step, select_symbol_step, slots_all_empty, slots_complete, GuessBuilder};
use crate::hints::Hint;
use crate::judge::sorted_row;
use crate::secret::Secret;
use crate::symbols::{pairwise_distinct, Palette, Symbol};
use crate::Error;

verus! {

/// The phase of a session. `Won`, `Lost` and `Aborted` are terminal: no
/// further selection or confirmation events are accepted there.
#[derive(Clone, Copy, PartialEq, Eq, Structural, Debug)]
pub enum TurnState {
    /// The current turn's guess is still being assembled.
    AwaitingGuess,
    /// The builder is complete; the player may confirm, keep editing, or
    /// decline.
    AwaitingConfirmation,
    Won,
    Lost,
    Aborted,
}

/// One confirmed turn: the guess as submitted together with the canonical
/// row it earned. Appended once per confirmed turn, never changed or
/// reordered afterwards.
#[derive(Debug)]
pub struct HistoryEntry {
    pub guess: Vec<Symbol>,
    pub hints: Vec<Hint>,
}

/// A recorded entry holds a valid guess of the secret's length and exactly
/// the row the evaluator assigns that guess.
pub open spec fn entry_wf(e: HistoryEntry, secret: Seq<Symbol>) -> bool {
    &&& e.guess@.len() == secret.len()
    &&& pairwise_distinct(e.guess@)
    &&& e.hints@ == sorted_row(secret, e.guess@)
}

/// Every entry of the row is a `Hit`: the mark of a winning guess.
pub open spec fn all_hits(row: Seq<Hint>) -> bool {
    forall|i: int| 0 <= i < row.len() ==> row[i] == Hint::Hit
}

fn row_all_hits(row: &Vec<Hint>) -> (r: bool)
    ensures
        r == all_hits(row@),
{
    let mut i: usize = 0;
    while i < row.len()
        invariant
            i <= row.len(),
            forall|j: int| 0 <= j < i ==> row@[j] == Hint::Hit,
        decreases row.len() - i,
    {
        match row[i] {
            Hint::Hit => (),
            _ => {
                return false;
            },
        }
        i = i + 1;
    }
    true
}

fn clone_hints(row: &Vec<Hint>) -> (r: Vec<Hint>)
    ensures
        r@ == row@,
{
    let mut out: Vec<Hint> = Vec::new();
    let mut i: usize = 0;
    while i < row.len()
        invariant
            i <= row.len(),
            out@.len() == i,
            forall|j: int| 0 <= j < i ==> out@[j] == row@[j],
        decreases row.len() - i,
    {
        out.push(row[i]);
        i = i + 1;
    }
    assert(out@ =~= row@);
    out
}

/// One complete game, from secret generation to a terminal outcome. The
/// secret, the builder of the current turn and the history are owned
/// exclusively by the session; the rendering layer only reads snapshots.
#[derive(Debug)]
pub struct Session {
    pub secret: Secret,
    pub builder: GuessBuilder,
    pub history: Vec<HistoryEntry>,
    pub state: TurnState,
    pub turn: usize,
    pub max_turns: usize,
}

impl Session {
    pub open spec fn wf(&self) -> bool {
        &&& self.secret.wf()
        &&& builder_inv(self.builder@)
        &&& self.builder@.slots.len() == self.secret@.len()
        &&& 1 <= self.turn <= self.max_turns
        &&& (self.state is AwaitingConfirmation ==> slots_complete(self.builder@.slots))
        &&& (forall|i: int|
            0 <= i < self.history@.len() ==> entry_wf(#[trigger] self.history@[i], self.secret@))
    }

    /// Selection and confirmation events are routed only in the two
    /// non-terminal states.
    pub open spec fn accepting_events(&self) -> bool {
        self.state is AwaitingGuess || self.state is AwaitingConfirmation
    }

    /// Starts a session over an explicitly given secret, at turn one with an
    /// empty board and an empty history.
    pub fn new(secret: Secret, max_turns: usize) -> (s: Session)
        requires
            secret.wf(),
            max_turns >= 1,
        ensures
            s.wf(),
            s.secret@ == secret@,
            s.state is AwaitingGuess,
            s.turn == 1,
            s.max_turns == max_turns,
            s.history@.len() == 0,
            s.builder@.slots.len() == secret@.len(),
            slots_all_empty(s.builder@.slots),
            s.builder@.pending_pos is None,
            s.builder@.pending_sym is None,
    {
        let length = secret.len();
        Session {
            secret,
            builder: GuessBuilder::new(length),
            history: Vec::new(),
            state: TurnState::AwaitingGuess,
            turn: 1,
            max_turns,
        }
    }

    /// Starts a new game: draws a secret of `length` distinct palette
    /// symbols at random and opens turn one. Fails exactly when the palette
    /// holds fewer than `length` distinct symbols.
    pub fn new_game(palette: &Palette, length: usize, max_turns: usize) -> (r: Result<
        Session,
        Error,
    >)
        requires
            palette.wf(),
            max_turns >= 1,
        ensures
            r is Ok <==> length <= palette@.len(),
            r matches Ok(s) ==> {
                &&& s.wf()
                &&& s.secret@.len() == length
                &&& forall|i: int| 0 <= i < length ==> palette@.contains(#[trigger] s.secret@[i])
                &&& s.state is AwaitingGuess
                &&& s.turn == 1
                &&& s.max_turns == max_turns
                &&& s.history@.len() == 0
            },
            r matches Err(e) ==> e == (Error::GenerationError {
                length,
                palette_size: palette@.len() as usize,
            }),
    {
        match Secret::generate(palette, length) {
            Ok(secret) => Ok(Session::new(secret, max_turns)),
            Err(e) => Err(e),
        }
    }

    /// Routes a "position chosen" event into the active builder. In a
    /// terminal state the event is not accepted and nothing changes. The new
    /// state is returned.
    pub fn on_position_selected(&mut self, index: usize) -> (r: TurnState)
        requires
            old(self).wf(),
            index < old(self).secret@.len(),
        ensures
            final(self).wf(),
            r == final(self).state,
            final(self).secret@ == old(self).secret@,
            final(self).history@ == old(self).history@,
            final(self).turn == old(self).turn,
            final(self).max_turns == old(self).max_turns,
            !old(self).accepting_events() ==> *final(self) == *old(self),
            old(self).accepting_events() ==> {
                let stepped = select_position_step(old(self).builder@, index as int);
                &&& final(self).builder@ == stepped
                &&& final(self).state == (if slots_complete(stepped.slots) {
                    TurnState::AwaitingConfirmation
                } else {
                    TurnState::AwaitingGuess
                })
            },
    {
        match self.state {
            TurnState::AwaitingGuess | TurnState::AwaitingConfirmation => {
                self.builder.select_position(index);
                if self.builder.is_complete() {
                    self.state = TurnState::AwaitingConfirmation;
                } else {
                    self.state = TurnState::AwaitingGuess;
                }
            },
            _ => (),
        }
        self.state
    }

    /// Routes a "symbol chosen" event into the active builder, symmetric to
    /// `on_position_selected`.
    pub fn on_symbol_selected(&mut self, symbol: Symbol) -> (r: TurnState)
        requires
            old(self).wf(),
        ensures
            final(self).wf(),
            r == final(self).state,
            final(self).secret@ == old(self).secret@,
            final(self).history@ == old(self).history@,
            final(self).turn == old(self).turn,
            final(self).max_turns == old(self).max_turns,
            !old(self).accepting_events() ==> *final(self) == *old(self),
            old(self).accepting_events() ==> {
                let stepped = select_symbol_step(old(self).builder@, symbol);
                &&& final(self).builder@ == stepped
                &&& final(self).state == (if slots_complete(stepped.slots) {
                    TurnState::AwaitingConfirmation
                } else {
                    TurnState::AwaitingGuess
                })
            },
    {
        match self.state {
            TurnState::AwaitingGuess | TurnState::AwaitingConfirmation => {
                self.builder.select_symbol(symbol);
                if self.builder.is_complete() {
                    self.state = TurnState::AwaitingConfirmation;
                } else {
                    self.state = TurnState::AwaitingGuess;
                }
            },
            _ => (),
        }
        self.state
    }

    /// Accepts the player's confirmation of a complete guess: the guess is
    /// scored against the secret, the turn is recorded, and the session
    /// moves to `Won`, `Lost`, or the next turn with a fresh builder. In any
    /// other state nothing happens. Returns the new state and, when a guess
    /// was evaluated, its canonical row.
    pub fn on_confirm(&mut self) -> (r: (TurnState, Option<Vec<Hint>>))
        requires
            old(self).wf(),
        ensures
            final(self).wf(),
            r.0 == final(self).state,
            final(self).secret@ == old(self).secret@,
            final(self).max_turns == old(self).max_turns,
            final(self).builder@.slots.len() == old(self).builder@.slots.len(),
            old(self).state !is AwaitingConfirmation ==> *final(self) == *old(self) && r.1 is None,
            old(self).state is AwaitingConfirmation ==> {
                let g = completed_guess(old(self).builder@.slots);
                let row = sorted_row(old(self).secret@, g);
                &&& r.1 matches Some(h) && h@ == row
                &&& final(self).history@.len() == old(self).history@.len() + 1
                &&& final(self).history@.take(old(self).history@.len() as int) == old(
                    self,
                ).history@
                &&& final(self).history@.last().guess@ == g
                &&& final(self).history@.last().hints@ == row
                &&& (all_hits(row) ==> final(self).state is Won)
                &&& (!all_hits(row) && old(self).turn == old(self).max_turns ==> final(self).state
                    is Lost)
                &&& (!all_hits(row) && old(self).turn < old(self).max_turns ==> {
                    &&& final(self).state is AwaitingGuess
                    &&& final(self).turn == old(self).turn + 1
                    &&& slots_all_empty(final(self).builder@.slots)
                    &&& final(self).builder@.pending_pos is None
                    &&& final(self).builder@.pending_sym is None
                })
                &&& (all_hits(row) || old(self).turn == old(self).max_turns ==> final(self).turn
                    == old(self).turn && final(self).builder@ == old(self).builder@)
            },
    {
        match self.state {
            TurnState::AwaitingConfirmation => (),
            _ => {
                return (self.state, None);
            },
        }
        let g = self.builder.guess();
        proof {
            lemma_completed_guess_distinct(self.builder@.slots);
        }
        let row = self.secret.score(&g);
        let won = row_all_hits(&row);
        let returned = clone_hints(&row);
        self.history.push(HistoryEntry { guess: g, hints: row });
        if won {
            self.state = TurnState::Won;
        } else if self.turn == self.max_turns {
            self.state = TurnState::Lost;
        } else {
            self.turn = self.turn + 1;
            self.builder.reset();
            self.state = TurnState::AwaitingGuess;
        }
        (self.state, Some(returned))
    }

    /// Declines a pending confirmation: the session returns to editing the
    /// still-complete guess, with the builder intact. In any other state
    /// nothing happens.
    pub fn on_decline(&mut self) -> (r: TurnState)
        requires
            old(self).wf(),
        ensures
            final(self).wf(),
            r == final(self).state,
            final(self).secret@ == old(self).secret@,
            final(self).builder@ == old(self).builder@,
            final(self).history@ == old(self).history@,
            final(self).turn == old(self).turn,
            final(self).max_turns == old(self).max_turns,
            old(self).state is AwaitingConfirmation ==> final(self).state is AwaitingGuess,
            old(self).state !is AwaitingConfirmation ==> *final(self) == *old(self),
    {
        match self.state {
            TurnState::AwaitingConfirmation => {
                self.state = TurnState::AwaitingGuess;
            },
            _ => (),
        }
        self.state
    }

    /// An abort signal, valid from every non-terminal state: the session
    /// moves to `Aborted` at once, discarding the turn in progress but
    /// preserving the history already recorded. In a terminal state nothing
    /// happens.
    pub fn on_abort(&mut self) -> (r: TurnState)
        requires
            old(self).wf(),
        ensures
            final(self).wf(),
            r == final(self).state,
            final(self).secret@ == old(self).secret@,
            final(self).history@ == old(self).history@,
            final(self).turn == old(self).turn,
            final(self).max_turns == old(self).max_turns,
            final(self).builder@.slots.len() == old(self).builder@.slots.len(),
            old(self).accepting_events() ==> final(self).state is Aborted,
            !old(self).accepting_events() ==> *final(self) == *old(self),
    {
        match self.state {
            TurnState::AwaitingGuess | TurnState::AwaitingConfirmation => {
                self.builder.reset();
                self.state = TurnState::Aborted;
            },
            _ => (),
        }
        self.state
    }

    pub fn state(&self) -> (r: TurnState)
        ensures
            r == self.state,
    {
        self.state
    }

    pub fn turn(&self) -> (r: usize)
        ensures
            r == self.turn,
    {
        self.turn
    }

    pub fn max_turns(&self) -> (r: usize)
        ensures
            r == self.max_turns,
    {
        self.max_turns
    }

    /// The current placement map, empty slots included, for display. A pure
    /// read.
    pub fn current_placement_snapshot(&self) -> (r: Vec<Option<Symbol>>)
        ensures
            r@ == self.builder@.slots,
    {
        self.builder.snapshot()
    }

    /// The confirmed turns recorded so far, in order. A pure read.
    pub fn history(&self) -> (r: &Vec<HistoryEntry>)
        ensures
            r@ == self.history@,
    {
        &self.history
    }
}

} // verus!
