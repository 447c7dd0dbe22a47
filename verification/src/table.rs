//! The action/goto table: states, actions, and the lookup function.

use vstd::prelude::*;

use crate::derivation::{DerivationView, ReduceDerivation};

verus! {

/// What the table tells the engine to do for one (state, symbol) pair.
#[derive(Debug)]
pub enum Action {
    /// Push the lookahead (or, as a goto, the reduced node) and move to the
    /// given state.
    Shift(usize),
    /// Replace the production's right-hand side on the stack by its left-hand
    /// symbol.
    Reduce(ReduceDerivation),
    /// The input matches the grammar's start production.
    Accept,
    /// An explicitly recorded rejection.
    Error,
}

/// The mathematical value of an action.
pub enum ActionView {
    Shift(int),
    Reduce(DerivationView),
    Accept,
    Error,
}

impl View for Action {
    type V = ActionView;

    open spec fn view(&self) -> ActionView {
        match self {
            Action::Shift(s) => ActionView::Shift(*s as int),
            Action::Reduce(d) => ActionView::Reduce(d@),
            Action::Accept => ActionView::Accept,
            Action::Error => ActionView::Error,
        }
    }
}

/// One row of the table: the actions of one parser state, keyed by symbol.
/// A lookup finds the first entry with the given symbol.
pub struct State {
    pub actions: Vec<(String, Action)>,
}

/// The mathematical value of a row: symbol/action pairs in order.
pub type RowView = Seq<(Seq<char>, ActionView)>;

impl View for State {
    type V = RowView;

    open spec fn view(&self) -> RowView {
        Seq::new(self.actions@.len(), |i: int| (self.actions@[i].0@, self.actions@[i].1@))
    }
}

impl State {
    pub fn new() -> (s: Self)
        ensures
            s@ == Seq::<(Seq<char>, ActionView)>::empty(),
    {
        let s = State { actions: Vec::new() };
        proof {
            assert(s@ =~= Seq::<(Seq<char>, ActionView)>::empty());
        }
        s
    }

    /// Record `action` for `symbol` in this row.
    pub fn add(&mut self, symbol: String, action: Action)
        ensures
            final(self)@ == old(self)@.push((symbol@, action@)),
    {
        let ghost a = action@;
        self.actions.push((symbol, action));
        proof {
            assert(final(self)@ =~= old(self)@.push((symbol@, a)));
        }
    }
}

/// The action of `row` for `sym`: the first entry with that symbol, if any.
pub open spec fn row_action(row: RowView, sym: Seq<char>) -> Option<ActionView>
    decreases row.len(),
{
    if row.len() == 0 {
        None
    } else if row[0].0 == sym {
        Some(row[0].1)
    } else {
        row_action(row.subrange(1, row.len() as int), sym)
    }
}

/// The mathematical value of an action table: its rows, in order.
pub type TableView = Seq<RowView>;

/// The action of the table for `(state, sym)`; `None` when the state is not a
/// row of the table or its row has no entry for `sym`.
pub open spec fn table_action(t: TableView, state: int, sym: Seq<char>) -> Option<ActionView> {
    if 0 <= state < t.len() {
        row_action(t[state], sym)
    } else {
        None
    }
}

/// Idempotent table lookups: `get_action` is a pure function — its result is
/// a function of the table value, the state and the symbol alone, so two
/// lookups with identical arguments yield identical results, and a lookup
/// never changes the table.
pub proof fn lemma_get_action_pure(
    t: TableView,
    state: int,
    sym: Seq<char>,
    r1: Option<ActionView>,
    r2: Option<ActionView>,
)
    requires
        r1 == table_action(t, state, sym),
        r2 == table_action(t, state, sym),
    ensures
        r1 == r2,
{
}

/// The action/goto table: an ordered sequence of state rows. Row 0 is the
/// initial state. Goto transitions are encoded as ordinary `Shift` actions
/// keyed by nonterminal symbols.
pub struct ActionTable {
    pub states: Vec<State>,
}

impl View for ActionTable {
    type V = TableView;

    open spec fn view(&self) -> TableView {
        Seq::new(self.states@.len(), |i: int| self.states@[i]@)
    }
}

impl ActionTable {
    /// Look up the action for `(state, symbol)`. A pure lookup: the result is
    /// a function of the table value and the arguments alone, and the table is
    /// not changed. Absence of an entry is `None`, distinct from the `Error`
    /// variant.
    pub fn get_action(&self, state: usize, symbol: &str) -> (r: Option<&Action>)
        requires
            state < self@.len(),
        ensures
            match r {
                Some(a) => table_action(self@, state as int, symbol@) == Some(a@),
                None => table_action(self@, state as int, symbol@) == None::<ActionView>,
            },
    {
        let symbol_owned = symbol.to_owned();
        let row = &self.states[state];
        proof {
            assert(row@.subrange(0, row@.len() as int) =~= row@);
        }
        let mut i: usize = 0;
        while i < row.actions.len()
            invariant
                i <= row.actions@.len(),
                *row == self.states@[state as int],
                state < self@.len(),
                symbol_owned@ == symbol@,
                row_action(row@.subrange(i as int, row@.len() as int), symbol@)
                    == row_action(row@, symbol@),
            decreases row.actions@.len() - i,
        {
            proof {
                assert(row@[i as int].0 == row.actions@[i as int].0@);
            }
            if row.actions[i].0 == symbol_owned {
                proof {
                    let sub = row@.subrange(i as int, row@.len() as int);
                    assert(sub[0] == row@[i as int]);
                    assert(row_action(sub, symbol@) == Some(row@[i as int].1));
                }
                return Some(&row.actions[i].1);
            }
            proof {
                let sub = row@.subrange(i as int, row@.len() as int);
                assert(sub[0] == row@[i as int]);
                assert(sub.subrange(1, sub.len() as int)
                    =~= row@.subrange(i as int + 1, row@.len() as int));
            }
            i = i + 1;
        }
        proof {
            let sub = row@.subrange(i as int, row@.len() as int);
            assert(sub =~= Seq::<(Seq<char>, ActionView)>::empty());
        }
        None
    }
}

} // verus!
