//! An example instantiation: sums and products of integers.
//!
//! The grammar has tokens `int`, `+`, `*`, `(`, `)` and the end marker, with
//! productions `E -> T`, `E -> T + E`, `T -> int`, `T -> int * T`,
//! `T -> ( E )` and the synthetic start production. Handlers synthesize the
//! decimal value of the parsed expression where they compute, and pass values
//! through elsewhere.

use vstd::prelude::*;
use vstd::string::StringExecFns;

use crate::derivation::{DerivationView, ReduceDerivation};
use crate::engine::RParser;
use crate::handler::{registry_view, string_views, Handler};
use crate::numtext::{i64_to_string, parse_i64, spec_i64_string, spec_parse_i64};
use crate::table::{Action, ActionTable, ActionView, State, TableView};
use crate::{DUMMY_START_SYMBOL, END_SYMBOL};

verus! {

/// The semantic actions of the arithmetic grammar.
#[derive(Clone, Copy, Debug)]
pub enum ArithHandler {
    /// Hand the first child value through unchanged.
    PassFirst,
    /// Hand the middle of three child values through unchanged.
    Middle,
    /// Concatenate three child values.
    ConcatThree,
    /// Multiply the first and third child values, read and written as decimal
    /// `i64` text; the empty string where a value does not parse or the
    /// product does not fit.
    Multiply,
}

/// What `Multiply` synthesizes from its child values.
pub open spec fn spec_multiply(vals: Seq<Seq<char>>) -> Seq<char> {
    if vals.len() >= 3 {
        match (spec_parse_i64(vals[0]), spec_parse_i64(vals[2])) {
            (Some(a), Some(b)) => if i64::MIN <= a * b <= i64::MAX {
                spec_i64_string(a * b)
            } else {
                Seq::empty()
            },
            _ => Seq::empty(),
        }
    } else {
        Seq::empty()
    }
}

impl Handler for ArithHandler {
    open spec fn spec_call(&self, vals: Seq<Seq<char>>) -> Seq<char> {
        match self {
            ArithHandler::PassFirst => if vals.len() >= 1 {
                vals[0]
            } else {
                Seq::empty()
            },
            ArithHandler::Middle => if vals.len() >= 3 {
                vals[1]
            } else {
                Seq::empty()
            },
            ArithHandler::ConcatThree => if vals.len() >= 3 {
                vals[0] + vals[1] + vals[2]
            } else {
                Seq::empty()
            },
            ArithHandler::Multiply => spec_multiply(vals),
        }
    }

    fn call(&self, vals: Vec<String>) -> (r: String)
        ensures
            r@ == self.spec_call(string_views(vals@)),
    {
        match self {
            ArithHandler::PassFirst => {
                if vals.len() >= 1 {
                    vals[0].clone()
                } else {
                    String::new()
                }
            },
            ArithHandler::Middle => {
                if vals.len() >= 3 {
                    vals[1].clone()
                } else {
                    String::new()
                }
            },
            ArithHandler::ConcatThree => {
                if vals.len() >= 3 {
                    let mut s = vals[0].clone();
                    s.append(vals[1].as_str());
                    s.append(vals[2].as_str());
                    s
                } else {
                    String::new()
                }
            },
            ArithHandler::Multiply => {
                if vals.len() >= 3 {
                    match (parse_i64(&vals[0]), parse_i64(&vals[2])) {
                        (Some(a), Some(b)) => match a.checked_mul(b) {
                            Some(p) => i64_to_string(p),
                            None => String::new(),
                        },
                        _ => String::new(),
                    }
                } else {
                    String::new()
                }
            },
        }
    }
}

/// The production `T -> int`.
pub open spec fn d_t_int() -> DerivationView {
    DerivationView { left: "T"@, right: seq!["int"@] }
}

/// The production `T -> int * T`.
pub open spec fn d_t_mul() -> DerivationView {
    DerivationView { left: "T"@, right: seq!["int"@, "*"@, "T"@] }
}

/// The production `T -> ( E )`.
pub open spec fn d_t_paren() -> DerivationView {
    DerivationView { left: "T"@, right: seq!["("@, "E"@, ")"@] }
}

/// The production `E -> T`.
pub open spec fn d_e_t() -> DerivationView {
    DerivationView { left: "E"@, right: seq!["T"@] }
}

/// The production `E -> T + E`.
pub open spec fn d_e_plus() -> DerivationView {
    DerivationView { left: "E"@, right: seq!["T"@, "+"@, "E"@] }
}

/// The synthetic start production.
pub open spec fn d_start() -> DerivationView {
    DerivationView { left: DUMMY_START_SYMBOL@, right: seq!["E"@] }
}

/// The hardcoded action/goto table of the arithmetic grammar.
pub open spec fn arith_table() -> TableView {
    seq![
        seq![
            ("E"@, ActionView::Shift(10)),
            (END_SYMBOL@, ActionView::Accept),
            ("("@, ActionView::Shift(5)),
            ("int"@, ActionView::Shift(3)),
            ("T"@, ActionView::Shift(1)),
        ],
        seq![
            (END_SYMBOL@, ActionView::Reduce(d_e_t())),
            ("+"@, ActionView::Shift(2)),
            (")"@, ActionView::Reduce(d_e_t())),
        ],
        seq![
            ("T"@, ActionView::Shift(1)),
            ("E"@, ActionView::Shift(9)),
            ("("@, ActionView::Shift(5)),
            ("int"@, ActionView::Shift(3)),
        ],
        seq![
            ("+"@, ActionView::Reduce(d_t_int())),
            (")"@, ActionView::Reduce(d_t_int())),
            (END_SYMBOL@, ActionView::Reduce(d_t_int())),
            ("*"@, ActionView::Shift(4)),
        ],
        seq![
            ("int"@, ActionView::Shift(3)),
            ("("@, ActionView::Shift(5)),
            ("T"@, ActionView::Shift(8)),
        ],
        seq![
            ("E"@, ActionView::Shift(6)),
            ("("@, ActionView::Shift(5)),
            ("int"@, ActionView::Shift(3)),
            ("T"@, ActionView::Shift(1)),
        ],
        seq![(")"@, ActionView::Shift(7))],
        seq![
            (END_SYMBOL@, ActionView::Reduce(d_t_paren())),
            (")"@, ActionView::Reduce(d_t_paren())),
            ("+"@, ActionView::Reduce(d_t_paren())),
        ],
        seq![
            (END_SYMBOL@, ActionView::Reduce(d_t_mul())),
            ("+"@, ActionView::Reduce(d_t_mul())),
            (")"@, ActionView::Reduce(d_t_mul())),
        ],
        seq![
            (")"@, ActionView::Reduce(d_e_plus())),
            (END_SYMBOL@, ActionView::Reduce(d_e_plus())),
        ],
        seq![(END_SYMBOL@, ActionView::Reduce(d_start()))],
    ]
}

/// The handler registry of the arithmetic grammar.
pub open spec fn arith_registry() -> Seq<(DerivationView, ArithHandler)> {
    seq![
        (d_t_int(), ArithHandler::PassFirst),
        (d_t_mul(), ArithHandler::Multiply),
        (d_e_t(), ArithHandler::PassFirst),
        (d_t_paren(), ArithHandler::Middle),
        (d_e_plus(), ArithHandler::ConcatThree),
        (d_start(), ArithHandler::PassFirst),
    ]
}

/// Every reduce action of the arithmetic table has a nonempty right-hand
/// side, so the leaf-reconstruction law applies to parses over it.
pub proof fn lemma_arith_table_no_empty_reduce()
    ensures
        crate::machine::no_empty_reduce(arith_table()),
{
    let t = arith_table();
    assert forall|s: int, i: int| 0 <= s < t.len() && 0 <= i < t[s].len() implies ((#[trigger] t[s][i]).1
        matches ActionView::Reduce(d) ==> d.right.len() > 0) by {
        assert(t.len() == 11);
    }
}

/// Build a derivation with one right-hand symbol.
fn deriv1(left: &str, r0: &str) -> (d: ReduceDerivation)
    ensures
        d@ == (DerivationView { left: left@, right: seq![r0@] }),
{
    let mut right: Vec<String> = Vec::new();
    right.push(r0.to_owned());
    let d = ReduceDerivation::build(left.to_owned(), right);
    proof {
        assert(d@.right =~= seq![r0@]);
        assert(d@ =~= DerivationView { left: left@, right: seq![r0@] });
    }
    d
}

/// Build a derivation with three right-hand symbols.
fn deriv3(left: &str, r0: &str, r1: &str, r2: &str) -> (d: ReduceDerivation)
    ensures
        d@ == (DerivationView { left: left@, right: seq![r0@, r1@, r2@] }),
{
    let mut right: Vec<String> = Vec::new();
    right.push(r0.to_owned());
    right.push(r1.to_owned());
    right.push(r2.to_owned());
    let d = ReduceDerivation::build(left.to_owned(), right);
    proof {
        assert(d@.right =~= seq![r0@, r1@, r2@]);
        assert(d@ =~= DerivationView { left: left@, right: seq![r0@, r1@, r2@] });
    }
    d
}

impl RParser<ArithHandler> {
    /// The example engine: the hardcoded table for sums and products of
    /// integers, with the handlers of its derivations.
    pub fn new() -> (p: Self)
        ensures
            p@.0 == arith_table(),
            p@.1 == arith_registry(),
    {
        let mut states: Vec<State> = Vec::new();

        let mut s0 = State::new();
        s0.add("E".to_owned(), Action::Shift(10));
        s0.add(END_SYMBOL.to_owned(), Action::Accept);
        s0.add("(".to_owned(), Action::Shift(5));
        s0.add("int".to_owned(), Action::Shift(3));
        s0.add("T".to_owned(), Action::Shift(1));
        proof {
            assert(s0@ =~~= arith_table()[0]);
        }
        states.push(s0);

        let mut s1 = State::new();
        s1.add(END_SYMBOL.to_owned(), Action::Reduce(deriv1("E", "T")));
        s1.add("+".to_owned(), Action::Shift(2));
        s1.add(")".to_owned(), Action::Reduce(deriv1("E", "T")));
        proof {
            assert(s1@ =~~= arith_table()[1]);
        }
        states.push(s1);

        let mut s2 = State::new();
        s2.add("T".to_owned(), Action::Shift(1));
        s2.add("E".to_owned(), Action::Shift(9));
        s2.add("(".to_owned(), Action::Shift(5));
        s2.add("int".to_owned(), Action::Shift(3));
        proof {
            assert(s2@ =~~= arith_table()[2]);
        }
        states.push(s2);

        let mut s3 = State::new();
        s3.add("+".to_owned(), Action::Reduce(deriv1("T", "int")));
        s3.add(")".to_owned(), Action::Reduce(deriv1("T", "int")));
        s3.add(END_SYMBOL.to_owned(), Action::Reduce(deriv1("T", "int")));
        s3.add("*".to_owned(), Action::Shift(4));
        proof {
            assert(s3@ =~~= arith_table()[3]);
        }
        states.push(s3);

        let mut s4 = State::new();
        s4.add("int".to_owned(), Action::Shift(3));
        s4.add("(".to_owned(), Action::Shift(5));
        s4.add("T".to_owned(), Action::Shift(8));
        proof {
            assert(s4@ =~~= arith_table()[4]);
        }
        states.push(s4);

        let mut s5 = State::new();
        s5.add("E".to_owned(), Action::Shift(6));
        s5.add("(".to_owned(), Action::Shift(5));
        s5.add("int".to_owned(), Action::Shift(3));
        s5.add("T".to_owned(), Action::Shift(1));
        proof {
            assert(s5@ =~~= arith_table()[5]);
        }
        states.push(s5);

        let mut s6 = State::new();
        s6.add(")".to_owned(), Action::Shift(7));
        proof {
            assert(s6@ =~~= arith_table()[6]);
        }
        states.push(s6);

        let mut s7 = State::new();
        s7.add(END_SYMBOL.to_owned(), Action::Reduce(deriv3("T", "(", "E", ")")));
        s7.add(")".to_owned(), Action::Reduce(deriv3("T", "(", "E", ")")));
        s7.add("+".to_owned(), Action::Reduce(deriv3("T", "(", "E", ")")));
        proof {
            assert(s7@ =~~= arith_table()[7]);
        }
        states.push(s7);

        let mut s8 = State::new();
        s8.add(END_SYMBOL.to_owned(), Action::Reduce(deriv3("T", "int", "*", "T")));
        s8.add("+".to_owned(), Action::Reduce(deriv3("T", "int", "*", "T")));
        s8.add(")".to_owned(), Action::Reduce(deriv3("T", "int", "*", "T")));
        proof {
            assert(s8@ =~~= arith_table()[8]);
        }
        states.push(s8);

        let mut s9 = State::new();
        s9.add(")".to_owned(), Action::Reduce(deriv3("E", "T", "+", "E")));
        s9.add(END_SYMBOL.to_owned(), Action::Reduce(deriv3("E", "T", "+", "E")));
        proof {
            assert(s9@ =~~= arith_table()[9]);
        }
        states.push(s9);

        let mut s10 = State::new();
        s10.add(END_SYMBOL.to_owned(), Action::Reduce(deriv1(DUMMY_START_SYMBOL, "E")));
        proof {
            assert(s10@ =~~= arith_table()[10]);
        }
        states.push(s10);

        let table = ActionTable { states };
        proof {
            assert(table@ =~~= arith_table());
        }

        let mut handlers: Vec<(ReduceDerivation, ArithHandler)> = Vec::new();
        handlers.push((deriv1("T", "int"), ArithHandler::PassFirst));
        handlers.push((deriv3("T", "int", "*", "T"), ArithHandler::Multiply));
        handlers.push((deriv1("E", "T"), ArithHandler::PassFirst));
        handlers.push((deriv3("T", "(", "E", ")"), ArithHandler::Middle));
        handlers.push((deriv3("E", "T", "+", "E"), ArithHandler::ConcatThree));
        handlers.push((deriv1(DUMMY_START_SYMBOL, "E"), ArithHandler::PassFirst));
        proof {
            assert(registry_view(handlers@) =~~= arith_registry());
        }

        RParser::from_parts(table, handlers)
    }
}

} // verus!
