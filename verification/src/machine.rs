//! The abstract shift-reduce machine.
//!
//! The engine's behaviour is specified by a step function over configurations:
//! a stack of (node value, state) pairs and the index of the next unconsumed
//! token. `run` iterates the step function from the initial configuration;
//! accepted and failed outcomes are absorbing. The executable engine in
//! `engine` is proved to return exactly what `run` reaches.

use vstd::prelude::*;

use crate::derivation::DerivationView;
use crate::handler::{registry_action, Handler};
use crate::table::{row_action, table_action, ActionView, RowView, TableView};
use crate::tree::{leaf_view, NodeView};

verus! {

/// The reasons a parse fails, at the specification level.
pub enum ErrorView {
    /// No action is defined for the current state and lookahead symbol.
    LookupMiss { state: int, symbol: Seq<char> },
    /// The table cell for the current state and lookahead is `Error`.
    ExplicitError { state: int, symbol: Seq<char> },
    /// A reduce action names a derivation with no registered handler.
    MissingHandler { derivation: DerivationView },
    /// A reduction needs more stack entries than the stack holds: the
    /// right-hand side is longer than the stack, or, for a reduction of a
    /// symbol other than the synthetic start symbol, no entry remains beneath
    /// the popped ones to read the goto state from.
    StackUnderflow,
    /// After a reduction, the goto lookup did not yield a shift action.
    GotoInconsistency,
    /// The tokens ran out before the table accepted.
    TokenExhaustion,
}

/// A machine configuration: the working stack of (node value, state) pairs,
/// bottom first, and the index of the next unconsumed token.
#[verifier::ext_equal]
pub struct Cfg {
    pub stack: Seq<(NodeView, int)>,
    pub idx: int,
}

/// What the machine has come to: still running, accepted with a parse tree, or
/// failed.
pub enum Outcome {
    Running(Cfg),
    Accepted(NodeView),
    Failed(ErrorView),
}

/// The value of the synthetic start symbol's name.
pub open spec fn dummy_start_sym() -> Seq<char> {
    crate::DUMMY_START_SYMBOL@
}

/// The initial configuration: one synthetic node for the start symbol with
/// empty data, at state 0, with no token consumed.
pub open spec fn init_cfg() -> Cfg {
    Cfg { stack: seq![(leaf_view(dummy_start_sym(), Seq::empty()), 0int)], idx: 0 }
}

/// The outcome of a reduction by `d` at configuration `c`: pop one entry per
/// right-hand symbol, fold their data through the registered handler, and push
/// the new node — at state 0 for the synthetic start symbol, else at the state
/// the goto lookup yields.
pub open spec fn reduce_outcome<H: Handler>(
    t: TableView,
    hs: Seq<(DerivationView, H)>,
    c: Cfg,
    d: DerivationView,
) -> Outcome {
    let k = d.right.len() as int;
    if c.stack.len() < k {
        Outcome::Failed(ErrorView::StackUnderflow)
    } else {
        match registry_action(hs, d) {
            None => Outcome::Failed(ErrorView::MissingHandler { derivation: d }),
            Some(h) => {
                let popped = c.stack.subrange(c.stack.len() - k, c.stack.len() as int);
                let rest = c.stack.subrange(0, c.stack.len() - k);
                let children = Seq::new(k as nat, |i: int| popped[i].0);
                let datas = Seq::new(k as nat, |i: int| popped[i].0.data);
                let node = NodeView { symbol_type: d.left, data: h.spec_call(datas), children };
                if d.left == dummy_start_sym() {
                    Outcome::Running(Cfg { stack: rest.push((node, 0)), idx: c.idx })
                } else if rest.len() == 0 {
                    Outcome::Failed(ErrorView::StackUnderflow)
                } else {
                    match table_action(t, rest.last().1, d.left) {
                        Some(ActionView::Shift(s2)) => Outcome::Running(
                            Cfg { stack: rest.push((node, s2)), idx: c.idx },
                        ),
                        _ => Outcome::Failed(ErrorView::GotoInconsistency),
                    }
                }
            },
        }
    }
}

/// One step of the machine at configuration `c`, reading the next token's
/// symbol and the action the table gives for it.
pub open spec fn step<H: Handler>(
    t: TableView,
    hs: Seq<(DerivationView, H)>,
    tokens: Seq<NodeView>,
    c: Cfg,
) -> Outcome {
    if c.stack.len() == 0 {
        Outcome::Failed(ErrorView::StackUnderflow)
    } else if !(0 <= c.idx < tokens.len()) {
        Outcome::Failed(ErrorView::TokenExhaustion)
    } else {
        let tok = tokens[c.idx];
        let s = c.stack.last().1;
        match table_action(t, s, tok.symbol_type) {
            None => Outcome::Failed(ErrorView::LookupMiss { state: s, symbol: tok.symbol_type }),
            Some(ActionView::Shift(s2)) => Outcome::Running(
                Cfg { stack: c.stack.push((tok, s2)), idx: c.idx + 1 },
            ),
            Some(ActionView::Reduce(d)) => reduce_outcome(t, hs, c, d),
            Some(ActionView::Accept) => Outcome::Accepted(c.stack.last().0),
            Some(ActionView::Error) => Outcome::Failed(
                ErrorView::ExplicitError { state: s, symbol: tok.symbol_type },
            ),
        }
    }
}

/// The machine after `n` steps from the initial configuration. Accepted and
/// failed outcomes are absorbing.
pub open spec fn run<H: Handler>(
    t: TableView,
    hs: Seq<(DerivationView, H)>,
    tokens: Seq<NodeView>,
    n: nat,
) -> Outcome
    decreases n,
{
    if n == 0 {
        Outcome::Running(init_cfg())
    } else {
        let prev = run(t, hs, tokens, (n - 1) as nat);
        match prev {
            Outcome::Running(c) => step(t, hs, tokens, c),
            _ => prev,
        }
    }
}

/// Whether the machine reaches an accepted or failed outcome on this table,
/// registry and token sequence. Every table that consumes a token or shrinks
/// the stack on each cycle halts; a malformed table can fail this (for
/// example, one whose reductions of an empty right-hand side feed their own
/// goto states forever).
pub open spec fn machine_halts<H: Handler>(
    t: TableView,
    hs: Seq<(DerivationView, H)>,
    tokens: Seq<NodeView>,
) -> bool {
    exists|n: nat| !(#[trigger] run(t, hs, tokens, n) is Running)
}

/// Once the machine has accepted or failed, later steps return the same
/// outcome.
pub proof fn lemma_run_absorbs<H: Handler>(
    t: TableView,
    hs: Seq<(DerivationView, H)>,
    tokens: Seq<NodeView>,
    n: nat,
    m: nat,
)
    requires
        n <= m,
        !(run(t, hs, tokens, n) is Running),
    ensures
        run(t, hs, tokens, m) == run(t, hs, tokens, n),
    decreases m,
{
    if n < m {
        lemma_run_absorbs(t, hs, tokens, n, (m - 1) as nat);
    }
}

/// Determinism: for a fixed action table, handler registry and token sequence,
/// the machine settles on a single outcome — whenever two step counts both
/// reach a terminal (accepted or failed) outcome, the outcomes are one and the
/// same tree or error. Repeated parses therefore produce structurally
/// identical results.
pub proof fn lemma_determinism<H: Handler>(
    t: TableView,
    hs: Seq<(DerivationView, H)>,
    tokens: Seq<NodeView>,
    n1: nat,
    n2: nat,
)
    requires
        !(run(t, hs, tokens, n1) is Running),
        !(run(t, hs, tokens, n2) is Running),
    ensures
        run(t, hs, tokens, n1) == run(t, hs, tokens, n2),
{
    if n1 <= n2 {
        lemma_run_absorbs(t, hs, tokens, n1, n2);
    } else {
        lemma_run_absorbs(t, hs, tokens, n2, n1);
    }
}

/// Determinism, stated on parse results: whatever trees two runs of the
/// machine accept with — as `RParser::parse` ensures of its `Ok` results —
/// are one and the same value: same symbols, same child order, same
/// synthesized data.
pub proof fn lemma_accepted_unique<H: Handler>(
    t: TableView,
    hs: Seq<(DerivationView, H)>,
    tokens: Seq<NodeView>,
    n1: NodeView,
    n2: NodeView,
)
    requires
        exists|k: nat| run(t, hs, tokens, k) == Outcome::Accepted(n1),
        exists|k: nat| run(t, hs, tokens, k) == Outcome::Accepted(n2),
    ensures
        n1 == n2,
{
    let k1 = choose|k: nat| run(t, hs, tokens, k) == Outcome::Accepted(n1);
    let k2 = choose|k: nat| run(t, hs, tokens, k) == Outcome::Accepted(n2);
    lemma_determinism(t, hs, tokens, k1, k2);
}

/// Stack balance: a reduction of a derivation with right-hand-side length `k`
/// pops `k` entries and pushes one, so the stack depth changes by exactly
/// `1 - k` — for the synthetic-start reduction, which pushes at fixed state 0,
/// as for every other.
pub proof fn lemma_stack_balance<H: Handler>(
    t: TableView,
    hs: Seq<(DerivationView, H)>,
    tokens: Seq<NodeView>,
    c: Cfg,
    d: DerivationView,
    c2: Cfg,
)
    requires
        c.stack.len() > 0,
        0 <= c.idx < tokens.len(),
        table_action(t, c.stack.last().1, tokens[c.idx].symbol_type) == Some(
            ActionView::Reduce(d),
        ),
        step(t, hs, tokens, c) == Outcome::Running(c2),
    ensures
        c2.stack.len() == c.stack.len() - d.right.len() + 1,
{
}

/// The data of a node's leaf descendants, concatenated left to right. A node
/// without children contributes its own data.
pub open spec fn leaf_data(n: NodeView) -> Seq<char>
    decreases n,
{
    if n.children.len() == 0 {
        n.data
    } else {
        leaves_data(n.children)
    }
}

/// The leaf data of a sequence of nodes, concatenated left to right.
pub open spec fn leaves_data(s: Seq<NodeView>) -> Seq<char>
    decreases s,
{
    if s.len() == 0 {
        Seq::empty()
    } else {
        leaf_data(s[0]) + leaves_data(s.subrange(1, s.len() as int))
    }
}

/// The leaf data of the nodes on a stack, bottom to top.
pub open spec fn stack_leaves(stack: Seq<(NodeView, int)>) -> Seq<char>
    decreases stack.len(),
{
    if stack.len() == 0 {
        Seq::empty()
    } else {
        leaf_data(stack[0].0) + stack_leaves(stack.subrange(1, stack.len() as int))
    }
}

/// The data of the first `idx` tokens, concatenated in order.
pub open spec fn consumed_data(tokens: Seq<NodeView>, idx: int) -> Seq<char>
    decreases idx,
{
    if idx <= 0 {
        Seq::empty()
    } else {
        consumed_data(tokens, idx - 1) + tokens[idx - 1].data
    }
}

/// Whether the table holds no reduce action over an empty right-hand side.
pub open spec fn no_empty_reduce(t: TableView) -> bool {
    forall|s: int, i: int|
        0 <= s < t.len() && 0 <= i < t[s].len() ==> ((#[trigger] t[s][i]).1 matches
            ActionView::Reduce(d) ==> d.right.len() > 0)
}

proof fn lemma_stack_leaves_concat(a: Seq<(NodeView, int)>, b: Seq<(NodeView, int)>)
    ensures
        stack_leaves(a + b) == stack_leaves(a) + stack_leaves(b),
    decreases a.len(),
{
    if a.len() == 0 {
        assert(a + b =~= b);
        assert(stack_leaves(a) + stack_leaves(b) =~= stack_leaves(b));
    } else {
        let ab = a + b;
        assert(ab[0] == a[0]);
        assert(ab.subrange(1, ab.len() as int) =~= a.subrange(1, a.len() as int) + b);
        lemma_stack_leaves_concat(a.subrange(1, a.len() as int), b);
        assert(leaf_data(a[0].0) + (stack_leaves(a.subrange(1, a.len() as int))
            + stack_leaves(b)) =~= (leaf_data(a[0].0) + stack_leaves(
            a.subrange(1, a.len() as int),
        )) + stack_leaves(b));
    }
}

proof fn lemma_stack_leaves_push(s: Seq<(NodeView, int)>, p: (NodeView, int))
    ensures
        stack_leaves(s.push(p)) == stack_leaves(s) + leaf_data(p.0),
{
    assert(s.push(p) =~= s + seq![p]);
    lemma_stack_leaves_concat(s, seq![p]);
    assert(seq![p].subrange(1, 1) =~= Seq::<(NodeView, int)>::empty());
    assert(stack_leaves(Seq::<(NodeView, int)>::empty()) == Seq::<char>::empty());
    assert(stack_leaves(seq![p]) =~= leaf_data(p.0));
}

proof fn lemma_leaves_of_pairs(popped: Seq<(NodeView, int)>)
    ensures
        leaves_data(Seq::new(popped.len(), |i: int| popped[i].0)) == stack_leaves(popped),
    decreases popped.len(),
{
    let cs = Seq::new(popped.len(), |i: int| popped[i].0);
    if popped.len() > 0 {
        let rest = popped.subrange(1, popped.len() as int);
        assert(cs[0] == popped[0].0);
        assert(cs.subrange(1, cs.len() as int) =~= Seq::new(rest.len(), |i: int| rest[i].0));
        lemma_leaves_of_pairs(rest);
    }
}

/// A successful row lookup returns an entry of the row.
pub proof fn lemma_row_action_member(row: RowView, sym: Seq<char>, a: ActionView)
    requires
        row_action(row, sym) == Some(a),
    ensures
        exists|i: int| 0 <= i < row.len() && #[trigger] row[i] == (sym, a),
    decreases row.len(),
{
    if row.len() > 0 {
        if row[0].0 == sym {
            assert(row[0] == (sym, a));
        } else {
            let sub = row.subrange(1, row.len() as int);
            lemma_row_action_member(sub, sym, a);
            let i = choose|i: int| 0 <= i < sub.len() && #[trigger] sub[i] == (sym, a);
            assert(row[i + 1] == (sym, a));
        }
    }
}

/// In a table with no empty-right-hand-side reduce action, every reduce the
/// table yields has a nonempty right-hand side.
pub proof fn lemma_reduce_nonempty(t: TableView, s: int, sym: Seq<char>, d: DerivationView)
    requires
        no_empty_reduce(t),
        table_action(t, s, sym) == Some(ActionView::Reduce(d)),
    ensures
        d.right.len() > 0,
{
    lemma_row_action_member(t[s], sym, ActionView::Reduce(d));
    let i = choose|i: int| 0 <= i < t[s].len() && #[trigger] t[s][i] == (sym, ActionView::Reduce(d));
    assert(0 <= s < t.len());
    assert(t[s][i].1 matches ActionView::Reduce(dd) ==> dd.right.len() > 0);
}

/// Left-to-right reconstruction: at every configuration the machine reaches,
/// concatenating the data of the leaf descendants of the stack's nodes,
/// bottom to top and left to right, reproduces the data of the tokens
/// consumed so far. In particular the leaf descendants of a reduced node
/// reproduce, in order, exactly the tokens consumed to build that subtree.
///
/// The tokens must be leaves (as the token capability promises), and the
/// table must reduce no empty right-hand side: a reduction over no symbols
/// builds a childless node whose own data — the handler's output — would
/// stand in for no token at all.
pub proof fn lemma_leaf_reconstruction<H: Handler>(
    t: TableView,
    hs: Seq<(DerivationView, H)>,
    tokens: Seq<NodeView>,
    n: nat,
    c: Cfg,
)
    requires
        forall|i: int| 0 <= i < tokens.len() ==> (#[trigger] tokens[i]).children.len() == 0,
        no_empty_reduce(t),
        run(t, hs, tokens, n) == Outcome::Running(c),
    ensures
        0 <= c.idx <= tokens.len(),
        stack_leaves(c.stack) == consumed_data(tokens, c.idx),
    decreases n,
{
    if n == 0 {
        assert(c == init_cfg());
        assert(c.stack.subrange(1, c.stack.len() as int) =~= Seq::<(NodeView, int)>::empty());
        assert(stack_leaves(Seq::<(NodeView, int)>::empty()) == Seq::<char>::empty());
        assert(leaf_data(c.stack[0].0) == Seq::<char>::empty());
        assert(stack_leaves(c.stack) =~= Seq::<char>::empty());
    } else {
        let prev = run(t, hs, tokens, (n - 1) as nat);
        assert(prev is Running);
        if let Outcome::Running(cp) = prev {
            lemma_leaf_reconstruction(t, hs, tokens, (n - 1) as nat, cp);
            let tok = tokens[cp.idx];
            let s = cp.stack.last().1;
            match table_action(t, s, tok.symbol_type) {
                Some(ActionView::Shift(s2)) => {
                    assert(c.stack == cp.stack.push((tok, s2)));
                    assert(c.idx == cp.idx + 1);
                    lemma_stack_leaves_push(cp.stack, (tok, s2));
                    assert(leaf_data(tok) == tok.data);
                },
                Some(ActionView::Reduce(d)) => {
                    lemma_reduce_nonempty(t, s, tok.symbol_type, d);
                    let k = d.right.len() as int;
                    if let Some(h) = registry_action(hs, d) {
                        let popped = cp.stack.subrange(cp.stack.len() - k, cp.stack.len() as int);
                        let rest = cp.stack.subrange(0, cp.stack.len() - k);
                        let children = Seq::new(k as nat, |i: int| popped[i].0);
                        let datas = Seq::new(k as nat, |i: int| popped[i].0.data);
                        let node = NodeView {
                            symbol_type: d.left,
                            data: h.spec_call(datas),
                            children,
                        };
                        assert(cp.stack =~= rest + popped);
                        lemma_stack_leaves_concat(rest, popped);
                        lemma_leaves_of_pairs(popped);
                        assert(leaf_data(node) == stack_leaves(popped));
                        assert(c.idx == cp.idx);
                        if d.left == dummy_start_sym() {
                            assert(c.stack == rest.push((node, 0int)));
                            lemma_stack_leaves_push(rest, (node, 0int));
                        } else {
                            if let Some(ActionView::Shift(s2)) = table_action(
                                t,
                                rest.last().1,
                                d.left,
                            ) {
                                assert(c.stack == rest.push((node, s2)));
                                lemma_stack_leaves_push(rest, (node, s2));
                            } else {
                                assert(false);
                            }
                        }
                    } else {
                        assert(false);
                    }
                },
                _ => {
                    assert(false);
                },
            }
        }
    }
}

/// Tree shape: the node a reduction by `d` pushes carries `d`'s left symbol
/// and has exactly one child per right-hand symbol — the popped nodes, in
/// original left-to-right order. When the popped nodes' symbols match the
/// right-hand side (as they do under a table consistent with its grammar),
/// each child's symbol equals the right-hand symbol at its position.
pub proof fn lemma_tree_shape<H: Handler>(
    t: TableView,
    hs: Seq<(DerivationView, H)>,
    tokens: Seq<NodeView>,
    c: Cfg,
    d: DerivationView,
    c2: Cfg,
)
    requires
        c.stack.len() > 0,
        0 <= c.idx < tokens.len(),
        table_action(t, c.stack.last().1, tokens[c.idx].symbol_type) == Some(
            ActionView::Reduce(d),
        ),
        step(t, hs, tokens, c) == Outcome::Running(c2),
    ensures
        c2.stack.len() > 0,
        c2.stack.last().0.symbol_type == d.left,
        c2.stack.last().0.children.len() == d.right.len(),
        forall|i: int|
            0 <= i < d.right.len() ==> c2.stack.last().0.children[i] == c.stack[c.stack.len()
                - d.right.len() + i].0,
        (forall|i: int|
            0 <= i < d.right.len() ==> c.stack[c.stack.len() - d.right.len() + i].0.symbol_type
                == d.right[i]) ==> (forall|i: int|
            0 <= i < d.right.len() ==> c2.stack.last().0.children[i].symbol_type == d.right[i]),
{
}

} // verus!

