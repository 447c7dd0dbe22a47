//! The parsing engine: drives a state/value stack against the action table and
//! handler registry to consume a token sequence and produce one parse tree.

use vstd::prelude::*;

use crate::derivation::{DerivationView, ReduceDerivation};
use crate::handler::{find_handler, registry_action, registry_view, string_views, Handler};
use crate::machine::{
    dummy_start_sym, init_cfg, lemma_row_action_member, lemma_run_absorbs, machine_halts, run,
    step, Cfg, ErrorView, Outcome,
};
use crate::table::{table_action, Action, ActionTable, ActionView, TableView};
use crate::tree::{leaf_view, node_view, nodes_view, NodeView, ParsingTreeNode, Token};
use crate::DUMMY_START_SYMBOL;

verus! {

/// A pair of a parse tree node and the parser state it was pushed at.
pub struct NodePair(pub ParsingTreeNode, pub usize);

impl NodePair {
    pub fn new(node: ParsingTreeNode, state: usize) -> (p: Self)
        ensures
            p.0 == node,
            p.1 == state,
    {
        NodePair(node, state)
    }
}

/// Why a parse was aborted. Lookup misses and explicit error cells report the
/// user's input; the other variants report a configuration defect of the
/// table/registry pairing.
#[derive(Debug)]
pub enum ParseError {
    /// No action is defined for the current state and lookahead symbol.
    LookupMiss { state: usize, symbol: String },
    /// The table cell for the current state and lookahead is `Error`.
    ExplicitError { state: usize, symbol: String },
    /// A reduce action names a derivation with no registered handler.
    MissingHandler { derivation: ReduceDerivation },
    /// A reduction needs more stack entries than the stack holds.
    StackUnderflow,
    /// After a reduction, the goto lookup did not yield a shift action.
    GotoInconsistency,
    /// The tokens ran out before the table accepted.
    TokenExhaustion,
}

impl View for ParseError {
    type V = ErrorView;

    open spec fn view(&self) -> ErrorView {
        match self {
            ParseError::LookupMiss { state, symbol } => ErrorView::LookupMiss {
                state: *state as int,
                symbol: symbol@,
            },
            ParseError::ExplicitError { state, symbol } => ErrorView::ExplicitError {
                state: *state as int,
                symbol: symbol@,
            },
            ParseError::MissingHandler { derivation } => ErrorView::MissingHandler {
                derivation: derivation@,
            },
            ParseError::StackUnderflow => ErrorView::StackUnderflow,
            ParseError::GotoInconsistency => ErrorView::GotoInconsistency,
            ParseError::TokenExhaustion => ErrorView::TokenExhaustion,
        }
    }
}

/// The leaf values the given tokens describe themselves as, in order.
pub open spec fn token_views<T: Token>(tokens: Seq<T>) -> Seq<NodeView> {
    Seq::new(tokens.len(), |i: int| leaf_view(tokens[i].spec_symbol_type(), tokens[i].spec_data()))
}

/// The values of a sequence of stack pairs, in order.
pub open spec fn stack_view(s: Seq<NodePair>) -> Seq<(NodeView, int)> {
    Seq::new(s.len(), |i: int| (node_view(s[i].0), s[i].1 as int))
}

/// Whether every derivation that appears in a reduce action of the table has
/// a registered handler.
pub open spec fn registry_covers<H: Handler>(
    t: TableView,
    hs: Seq<(DerivationView, H)>,
) -> bool {
    forall|s: int, i: int|
        0 <= s < t.len() && 0 <= i < t[s].len() ==> ((#[trigger] t[s][i]).1 matches
            ActionView::Reduce(d) ==> registry_action(hs, d) is Some)
}

/// A registry that covers its table rules out one whole failure kind: no run
/// of the machine over them ever fails with a missing handler, so a parser
/// that passed `validate` reports that defect never — at any step count, on
/// any token sequence.
pub proof fn lemma_validated_never_misses_handler<H: Handler>(
    t: TableView,
    hs: Seq<(DerivationView, H)>,
    tokens: Seq<NodeView>,
    n: nat,
)
    requires
        registry_covers(t, hs),
    ensures
        !(run(t, hs, tokens, n) matches Outcome::Failed(
            ErrorView::MissingHandler { derivation: _ },
        )),
    decreases n,
{
    if n > 0 {
        lemma_validated_never_misses_handler(t, hs, tokens, (n - 1) as nat);
        let prev = run(t, hs, tokens, (n - 1) as nat);
        if let Outcome::Running(c) = prev {
            if c.stack.len() > 0 && 0 <= c.idx < tokens.len() {
                let sym = tokens[c.idx].symbol_type;
                let s = c.stack.last().1;
                if let Some(ActionView::Reduce(d)) = table_action(t, s, sym) {
                    lemma_row_action_member(t[s], sym, ActionView::Reduce(d));
                    assert(registry_action(hs, d) is Some);
                }
            }
        }
    }
}

/// The parsing engine: an action table together with the handler registry for
/// the grammar's derivations.
pub struct RParser<H: Handler> {
    action_table: ActionTable,
    handlers: Vec<(ReduceDerivation, H)>,
}

impl<H: Handler> View for RParser<H> {
    type V = (TableView, Seq<(DerivationView, H)>);

    closed spec fn view(&self) -> Self::V {
        (self.action_table@, registry_view(self.handlers@))
    }
}

impl<H: Handler> RParser<H> {
    /// Assemble an engine from a ready-made table and registry.
    pub fn from_parts(action_table: ActionTable, handlers: Vec<(ReduceDerivation, H)>) -> (p: Self)
        ensures
            p@ == (action_table@, registry_view(handlers@)),
    {
        RParser { action_table, handlers }
    }

    /// Check eagerly that every derivation named by a reduce action of the
    /// table has a registered handler, so that a missing-handler
    /// configuration defect surfaces at startup rather than mid-parse.
    pub fn validate(&self) -> (r: bool)
        ensures
            r == registry_covers(self@.0, self@.1),
    {
        let ghost t = self@.0;
        let ghost hs = self@.1;
        let mut s: usize = 0;
        while s < self.action_table.states.len()
            invariant
                t == self@.0,
                hs == self@.1,
                s <= t.len(),
                forall|si: int, i: int|
                    0 <= si < s && 0 <= i < t[si].len() ==> ((#[trigger] t[si][i]).1 matches
                        ActionView::Reduce(d) ==> registry_action(hs, d) is Some),
            decreases t.len() - s,
        {
            let row = &self.action_table.states[s];
            let mut i: usize = 0;
            while i < row.actions.len()
                invariant
                    t == self@.0,
                    hs == self@.1,
                    s < t.len(),
                    i <= row.actions@.len(),
                    *row == self.action_table.states@[s as int],
                    t[s as int] == row@,
                    forall|si: int, j: int|
                        0 <= si < s && 0 <= j < t[si].len() ==> ((#[trigger] t[si][j]).1 matches
                            ActionView::Reduce(d) ==> registry_action(hs, d) is Some),
                    forall|j: int|
                        0 <= j < i ==> ((#[trigger] row@[j]).1 matches ActionView::Reduce(d)
                            ==> registry_action(hs, d) is Some),
                decreases row.actions@.len() - i,
            {
                proof {
                    assert(row@[i as int] == (row.actions@[i as int].0@, row.actions@[i as int].1@));
                }
                match &row.actions[i].1 {
                    Action::Reduce(d) => {
                        if find_handler(&self.handlers, d).is_none() {
                            proof {
                                assert((t[s as int][i as int]).1 == ActionView::Reduce(d@));
                                assert(!registry_covers(t, hs));
                            }
                            return false;
                        }
                    },
                    _ => {},
                }
                i = i + 1;
            }
            s = s + 1;
        }
        true
    }

    /// Do shift-reduce parsing: consume `tokens` left to right against the
    /// action table, reducing through the registered handlers, until the table
    /// accepts or the parse fails.
    ///
    /// The result is exactly the outcome the abstract machine (`machine::run`)
    /// reaches on this table, registry and token sequence: on success the
    /// parse tree it accepts with, on failure the error it fails with. No
    /// partial tree is returned on failure.
    ///
    /// The machine must reach an outcome on this input: on a malformed table
    /// whose reduction cycles never consume a token nor shrink the stack, no
    /// engine could return at all.
    pub fn parse<T: Token>(&self, tokens: Vec<T>) -> (r: Result<ParsingTreeNode, ParseError>)
        requires
            machine_halts(self@.0, self@.1, token_views(tokens@)),
        ensures
            match r {
                Ok(node) => exists|n: nat|
                    run(self@.0, self@.1, token_views(tokens@), n) == Outcome::Accepted(
                        node_view(node),
                    ),
                Err(e) => exists|n: nat|
                    run(self@.0, self@.1, token_views(tokens@), n) == Outcome::Failed(e@),
            },
    {
        let ghost t = self@.0;
        let ghost hs = self@.1;
        let ghost toks = token_views(tokens@);
        let ghost halt_step: nat = choose|n: nat| !(#[trigger] run(t, hs, toks, n) is Running);

        let dummy: String = DUMMY_START_SYMBOL.to_owned();
        let mut stack: Vec<NodePair> = Vec::new();
        stack.push(NodePair(ParsingTreeNode::build(dummy.clone(), String::new(), Vec::new()), 0));
        let mut shift_index: usize = 0;
        let ghost mut steps: nat = 0;

        proof {
            assert(nodes_view(Seq::<ParsingTreeNode>::empty()) =~= Seq::<NodeView>::empty());
            assert(node_view(stack@[0].0) =~= leaf_view(dummy_start_sym(), Seq::empty()));
            assert(stack_view(stack@) =~= init_cfg().stack);
            assert(Cfg { stack: stack_view(stack@), idx: shift_index as int } =~= init_cfg());
        }

        loop
            invariant
                stack@.len() >= 1,
                shift_index <= tokens@.len(),
                dummy@ == dummy_start_sym(),
                t == self@.0,
                hs == self@.1,
                toks == token_views(tokens@),
                run(t, hs, toks, steps) == Outcome::Running(
                    Cfg { stack: stack_view(stack@), idx: shift_index as int },
                ),
                !(run(t, hs, toks, halt_step) is Running),
            decreases halt_step - steps,
        {
            let ghost cfg = Cfg { stack: stack_view(stack@), idx: shift_index as int };
            proof {
                if steps >= halt_step {
                    lemma_run_absorbs(t, hs, toks, halt_step, steps);
                    assert(false);
                }
                assert(run(t, hs, toks, steps + 1) == step(t, hs, toks, cfg));
            }

            if shift_index >= tokens.len() {
                proof {
                    assert(step(t, hs, toks, cfg) == Outcome::Failed(ErrorView::TokenExhaustion));
                }
                return Err(ParseError::TokenExhaustion);
            }
            let token_node = tokens[shift_index].to_tree_node();
            proof {
                assert(toks[shift_index as int] == node_view(token_node));
            }

            let top_state: usize = stack[stack.len() - 1].1;
            proof {
                assert(cfg.stack.last() == (node_view(stack@[stack@.len() - 1].0), top_state as int));
            }

            if top_state >= self.action_table.states.len() {
                proof {
                    assert(step(t, hs, toks, cfg) == Outcome::Failed(
                        ErrorView::LookupMiss {
                            state: top_state as int,
                            symbol: toks[shift_index as int].symbol_type,
                        },
                    ));
                }
                return Err(ParseError::LookupMiss {
                    state: top_state,
                    symbol: token_node.symbol_type,
                });
            }

            let action = self.action_table.get_action(top_state, token_node.symbol_type.as_str());

            match action {
                Some(Action::Shift(next_state)) => {
                    let next_state: usize = *next_state;
                    stack.push(NodePair(token_node, next_state));
                    shift_index = shift_index + 1;
                    proof {
                        assert(stack_view(stack@) =~= cfg.stack.push(
                            (toks[cfg.idx], next_state as int),
                        ));
                        steps = steps + 1;
                        assert(Cfg { stack: stack_view(stack@), idx: shift_index as int }
                            =~= Cfg { stack: cfg.stack.push((toks[cfg.idx], next_state as int)), idx: cfg.idx + 1 });
                    }
                },
                Some(Action::Reduce(derivation)) => {
                    let k = derivation.right.len();
                    proof {
                        assert(derivation@.right.len() == k);
                    }
                    if stack.len() < k {
                        proof {
                            assert(step(t, hs, toks, cfg) == Outcome::Failed(
                                ErrorView::StackUnderflow,
                            ));
                        }
                        return Err(ParseError::StackUnderflow);
                    }
                    let handler = match find_handler(&self.handlers, derivation) {
                        Some(h) => h,
                        None => {
                            proof {
                                assert(step(t, hs, toks, cfg) == Outcome::Failed(
                                    ErrorView::MissingHandler { derivation: derivation@ },
                                ));
                            }
                            return Err(ParseError::MissingHandler {
                                derivation: derivation.duplicate(),
                            });
                        },
                    };

                    let ghost popped = cfg.stack.subrange(
                        cfg.stack.len() - k,
                        cfg.stack.len() as int,
                    );
                    let ghost rest = cfg.stack.subrange(0, cfg.stack.len() - k);
                    let ghost spec_children = Seq::new(k as nat, |i: int| popped[i].0);
                    let ghost spec_datas = Seq::new(k as nat, |i: int| popped[i].0.data);

                    let split_at = stack.len() - k;
                    let mut tail = stack.split_off(split_at);
                    let ghost orig_tail = tail@;
                    proof {
                        assert(stack_view(stack@) =~= rest);
                        assert forall|i: int| 0 <= i < k implies (node_view(orig_tail[i].0),
                            orig_tail[i].1 as int) == popped[i] by {
                            assert(popped[i] == cfg.stack[cfg.stack.len() - k + i]);
                        }
                    }

                    let mut children: Vec<ParsingTreeNode> = Vec::new();
                    let mut datas: Vec<String> = Vec::new();
                    while tail.len() > 0
                        invariant
                            orig_tail.len() == k,
                            children@.len() + tail@.len() == k,
                            datas@.len() == children@.len(),
                            tail@ == orig_tail.subrange(children@.len() as int, k as int),
                            forall|j: int|
                                0 <= j < children@.len() ==> children@[j] == orig_tail[j].0,
                            forall|j: int|
                                0 <= j < datas@.len() ==> datas@[j]@ == orig_tail[j].0.data@,
                        decreases tail@.len(),
                    {
                        let ghost done = children@.len() as int;
                        let np = tail.remove(0);
                        proof {
                            assert(np == orig_tail[done]);
                            assert(tail@ =~= orig_tail.subrange(done + 1, k as int));
                        }
                        datas.push(np.0.data.clone());
                        children.push(np.0);
                    }

                    proof {
                        assert(nodes_view(children@) =~= spec_children);
                        assert(string_views(datas@) =~= spec_datas);
                    }

                    let value = handler.call(datas);
                    let node = ParsingTreeNode::build(derivation.left.clone(), value, children);
                    let ghost spec_node = NodeView {
                        symbol_type: derivation@.left,
                        data: handler.spec_call(spec_datas),
                        children: spec_children,
                    };
                    proof {
                        assert(node_view(node) =~= spec_node);
                    }

                    if derivation.left == dummy {
                        stack.push(NodePair(node, 0));
                        proof {
                            assert(stack_view(stack@) =~= rest.push((spec_node, 0int)));
                            steps = steps + 1;
                            assert(Cfg { stack: stack_view(stack@), idx: shift_index as int }
                                =~= Cfg { stack: rest.push((spec_node, 0int)), idx: cfg.idx });
                        }
                    } else {
                        if stack.len() == 0 {
                            proof {
                                assert(rest.len() == 0);
                                assert(step(t, hs, toks, cfg) == Outcome::Failed(
                                    ErrorView::StackUnderflow,
                                ));
                            }
                            return Err(ParseError::StackUnderflow);
                        }
                        let goto_state: usize = stack[stack.len() - 1].1;
                        proof {
                            assert(rest.last() == (node_view(stack@[stack@.len() - 1].0),
                                goto_state as int));
                        }
                        if goto_state >= self.action_table.states.len() {
                            proof {
                                assert(step(t, hs, toks, cfg) == Outcome::Failed(
                                    ErrorView::GotoInconsistency,
                                ));
                            }
                            return Err(ParseError::GotoInconsistency);
                        }
                        match self.action_table.get_action(goto_state, derivation.left.as_str()) {
                            Some(Action::Shift(next_state)) => {
                                let next_state: usize = *next_state;
                                stack.push(NodePair(node, next_state));
                                proof {
                                    assert(stack_view(stack@) =~= rest.push(
                                        (spec_node, next_state as int),
                                    ));
                                    steps = steps + 1;
                                    assert(Cfg { stack: stack_view(stack@), idx: shift_index as int }
                                        =~= Cfg { stack: rest.push((spec_node, next_state as int)), idx: cfg.idx });
                                }
                            },
                            _ => {
                                proof {
                                    assert(step(t, hs, toks, cfg) == Outcome::Failed(
                                        ErrorView::GotoInconsistency,
                                    ));
                                }
                                return Err(ParseError::GotoInconsistency);
                            },
                        }
                    }
                },
                Some(Action::Accept) => {
                    let top = stack.pop().unwrap();
                    proof {
                        assert(step(t, hs, toks, cfg) == Outcome::Accepted(node_view(top.0)));
                    }
                    return Ok(top.0);
                },
                Some(Action::Error) => {
                    proof {
                        assert(step(t, hs, toks, cfg) == Outcome::Failed(
                            ErrorView::ExplicitError {
                                state: top_state as int,
                                symbol: toks[shift_index as int].symbol_type,
                            },
                        ));
                    }
                    return Err(ParseError::ExplicitError {
                        state: top_state,
                        symbol: token_node.symbol_type,
                    });
                },
                None => {
                    proof {
                        assert(step(t, hs, toks, cfg) == Outcome::Failed(
                            ErrorView::LookupMiss {
                                state: top_state as int,
                                symbol: toks[shift_index as int].symbol_type,
                            },
                        ));
                    }
                    return Err(ParseError::LookupMiss {
                        state: top_state,
                        symbol: token_node.symbol_type,
                    });
                },
            }
        }
    }
}

} // verus!
