use rparser::arith::ArithHandler;
use rparser::derivation::ReduceDerivation;
use rparser::engine::{ParseError, RParser};
use rparser::table::{Action, ActionTable, State};
use rparser::tree::{ParsingTreeNode, SymbolToken, Token};
use rparser::{DUMMY_START_SYMBOL, END_SYMBOL};

fn tok(symbol_type: &str, data: &str) -> SymbolToken {
    SymbolToken { symbol_type: symbol_type.to_owned(), data: data.to_owned() }
}

fn int_tok(data: &str) -> SymbolToken {
    tok("int", data)
}

fn end_tok() -> SymbolToken {
    tok(END_SYMBOL, "")
}

fn trees_equal(a: &ParsingTreeNode, b: &ParsingTreeNode) -> bool {
    if a.symbol_type != b.symbol_type || a.data != b.data || a.children.len() != b.children.len() {
        return false;
    }
    a.children.iter().zip(b.children.iter()).all(|(x, y)| trees_equal(x, y))
}

fn leaf_data(n: &ParsingTreeNode, out: &mut String) {
    if n.children.is_empty() {
        out.push_str(&n.data);
    } else {
        for c in &n.children {
            leaf_data(c, out);
        }
    }
}

#[test]
fn single_int() {
    let parser = RParser::<ArithHandler>::new();
    let tree = parser.parse(vec![int_tok("2"), end_tok()]).unwrap();
    assert_eq!(tree.symbol_type, DUMMY_START_SYMBOL);
    assert_eq!(tree.data, "2");
}

#[test]
fn product_reduces_once() {
    let parser = RParser::<ArithHandler>::new();
    let tree = parser.parse(vec![int_tok("2"), tok("*", "*"), int_tok("3"), end_tok()]).unwrap();
    assert_eq!(tree.data, "6");
    // The reduction `T -> int * T` fired exactly once: one T node with the
    // three right-hand children.
    let e = &tree.children[0];
    assert_eq!(e.symbol_type, "E");
    let t = &e.children[0];
    assert_eq!(t.symbol_type, "T");
    assert_eq!(t.children.len(), 3);
    assert_eq!(t.children[0].symbol_type, "int");
    assert_eq!(t.children[1].symbol_type, "*");
    assert_eq!(t.children[2].symbol_type, "T");
    assert_eq!(t.data, "6");
}

#[test]
fn sum_passes_values_in_order() {
    let parser = RParser::<ArithHandler>::new();
    let tree = parser.parse(vec![int_tok("2"), tok("+", "+"), int_tok("3"), end_tok()]).unwrap();
    // Exactly one reduce of `E -> T + E` occurred, with popped data
    // ["2", "+", "3"] in that order; its handler concatenates them.
    assert_eq!(tree.data, "2+3");
    let e = &tree.children[0];
    assert_eq!(e.symbol_type, "E");
    assert_eq!(e.children.len(), 3);
    assert_eq!(e.children[0].symbol_type, "T");
    assert_eq!(e.children[0].data, "2");
    assert_eq!(e.children[1].symbol_type, "+");
    assert_eq!(e.children[1].data, "+");
    assert_eq!(e.children[2].symbol_type, "E");
    assert_eq!(e.children[2].data, "3");
}

#[test]
fn parentheses_add_one_layer() {
    let parser = RParser::<ArithHandler>::new();
    let tree = parser.parse(
        vec![tok("(", "("), int_tok("4"), tok(")", ")"), end_tok()],
    ).unwrap();
    assert_eq!(tree.data, "4");
    // `T -> ( E )` fired: one extra internal node layer around the inner E.
    let e = &tree.children[0];
    assert_eq!(e.symbol_type, "E");
    let t = &e.children[0];
    assert_eq!(t.symbol_type, "T");
    assert_eq!(t.children.len(), 3);
    assert_eq!(t.children[0].symbol_type, "(");
    assert_eq!(t.children[1].symbol_type, "E");
    assert_eq!(t.children[2].symbol_type, ")");
}

#[test]
fn truncated_input_reports_exhaustion() {
    let parser = RParser::<ArithHandler>::new();
    let r = parser.parse(vec![int_tok("2"), tok("+", "+")]);
    assert!(matches!(r, Err(ParseError::TokenExhaustion)));
}

#[test]
fn empty_input_reports_exhaustion() {
    let parser = RParser::<ArithHandler>::new();
    let r = parser.parse(Vec::<SymbolToken>::new());
    assert!(matches!(r, Err(ParseError::TokenExhaustion)));
}

#[test]
fn explicit_error_cell_fails_immediately() {
    let mut s0 = State::new();
    s0.add("x".to_owned(), Action::Error);
    let table = ActionTable { states: vec![s0] };
    let parser: RParser<ArithHandler> = RParser::from_parts(table, Vec::new());
    match parser.parse(vec![tok("x", "x")]) {
        Err(ParseError::ExplicitError { state, symbol }) => {
            assert_eq!(state, 0);
            assert_eq!(symbol, "x");
        },
        other => panic!("expected an explicit error, got {:?}", other.map(|n| n.data)),
    }
}

#[test]
fn lookup_miss_reports_state_and_symbol() {
    let parser = RParser::<ArithHandler>::new();
    match parser.parse(vec![tok("zzz", "?")]) {
        Err(ParseError::LookupMiss { state, symbol }) => {
            assert_eq!(state, 0);
            assert_eq!(symbol, "zzz");
        },
        other => panic!("expected a lookup miss, got {:?}", other.map(|n| n.data)),
    }
}

#[test]
fn missing_handler_reports_derivation() {
    let mut s0 = State::new();
    s0.add(
        "a".to_owned(),
        Action::Reduce(ReduceDerivation::build("X".to_owned(), vec!["a".to_owned()])),
    );
    let table = ActionTable { states: vec![s0] };
    let parser: RParser<ArithHandler> = RParser::from_parts(table, Vec::new());
    match parser.parse(vec![tok("a", "a")]) {
        Err(ParseError::MissingHandler { derivation }) => {
            assert_eq!(derivation.left, "X");
            assert_eq!(derivation.right, vec!["a".to_owned()]);
        },
        other => panic!("expected a missing handler, got {:?}", other.map(|n| n.data)),
    }
}

#[test]
fn reduction_past_stack_bottom_underflows() {
    let mut s0 = State::new();
    s0.add(
        "a".to_owned(),
        Action::Reduce(ReduceDerivation::build(
            "X".to_owned(),
            vec!["a".to_owned(), "b".to_owned()],
        )),
    );
    let table = ActionTable { states: vec![s0] };
    let parser: RParser<ArithHandler> = RParser::from_parts(table, Vec::new());
    let r = parser.parse(vec![tok("a", "a")]);
    assert!(matches!(r, Err(ParseError::StackUnderflow)));
}

#[test]
fn goto_without_shift_is_inconsistent() {
    let mut s0 = State::new();
    s0.add("a".to_owned(), Action::Shift(1));
    let mut s1 = State::new();
    s1.add(
        "b".to_owned(),
        Action::Reduce(ReduceDerivation::build("B".to_owned(), vec!["a".to_owned()])),
    );
    let table = ActionTable { states: vec![s0, s1] };
    let handlers = vec![(
        ReduceDerivation::build("B".to_owned(), vec!["a".to_owned()]),
        ArithHandler::PassFirst,
    )];
    let parser = RParser::from_parts(table, handlers);
    let r = parser.parse(vec![tok("a", "a"), tok("b", "b")]);
    assert!(matches!(r, Err(ParseError::GotoInconsistency)));
}

#[test]
fn get_action_is_pure() {
    let mut s0 = State::new();
    s0.add("int".to_owned(), Action::Shift(3));
    let table = ActionTable { states: vec![s0] };
    let first = matches!(table.get_action(0, "int"), Some(Action::Shift(3)));
    let second = matches!(table.get_action(0, "int"), Some(Action::Shift(3)));
    assert!(first && second);
    assert!(table.get_action(0, "nope").is_none());
}

#[test]
fn repeated_parses_build_identical_trees() {
    let tokens = vec![int_tok("2"), tok("+", "+"), int_tok("3"), end_tok()];
    let t1 = RParser::<ArithHandler>::new().parse(tokens.clone()).unwrap();
    let t2 = RParser::<ArithHandler>::new().parse(tokens).unwrap();
    assert!(trees_equal(&t1, &t2));
}

#[test]
fn leaves_reproduce_consumed_data() {
    let parser = RParser::<ArithHandler>::new();
    let tree = parser.parse(
        vec![int_tok("2"), tok("*", "*"), tok("(", "("), int_tok("3"), tok(")", ")"), end_tok()],
    ).unwrap();
    // The end marker is never shifted; every other token's data appears, in
    // order, at the leaves.
    let mut got = String::new();
    leaf_data(&tree, &mut got);
    assert_eq!(got, "2*(3)");
}

#[test]
fn negative_factor_multiplies() {
    let parser = RParser::<ArithHandler>::new();
    let tree = parser.parse(
        vec![int_tok("-2"), tok("*", "*"), int_tok("3"), end_tok()],
    ).unwrap();
    assert_eq!(tree.data, "-6");
}

#[test]
fn overflowing_product_synthesizes_empty() {
    let parser = RParser::<ArithHandler>::new();
    let tree = parser.parse(
        vec![int_tok("9223372036854775807"), tok("*", "*"), int_tok("2"), end_tok()],
    ).unwrap();
    assert_eq!(tree.data, "");
}

#[test]
fn unparsable_factor_synthesizes_empty() {
    let parser = RParser::<ArithHandler>::new();
    let tree = parser.parse(
        vec![int_tok("abc"), tok("*", "*"), int_tok("3"), end_tok()],
    ).unwrap();
    assert_eq!(tree.data, "");
}

#[test]
fn nested_products_associate_right() {
    let parser = RParser::<ArithHandler>::new();
    let tree = parser.parse(
        vec![int_tok("2"), tok("*", "*"), int_tok("3"), tok("*", "*"), int_tok("4"), end_tok()],
    ).unwrap();
    assert_eq!(tree.data, "24");
}

#[test]
fn arith_registry_covers_its_table() {
    let parser = RParser::<ArithHandler>::new();
    assert!(parser.validate());
}

#[test]
fn validation_spots_missing_handler() {
    let mut s0 = State::new();
    s0.add(
        "a".to_owned(),
        Action::Reduce(ReduceDerivation::build("X".to_owned(), vec!["a".to_owned()])),
    );
    let table = ActionTable { states: vec![s0] };
    let parser: RParser<ArithHandler> = RParser::from_parts(table, Vec::new());
    assert!(!parser.validate());
}

#[test]
fn doubly_nested_parentheses() {
    let parser = RParser::<ArithHandler>::new();
    let tree = parser.parse(
        vec![
            tok("(", "("),
            tok("(", "("),
            int_tok("5"),
            tok(")", ")"),
            tok(")", ")"),
            end_tok(),
        ],
    ).unwrap();
    assert_eq!(tree.data, "5");
}

#[test]
fn sums_associate_right() {
    let parser = RParser::<ArithHandler>::new();
    let tree = parser.parse(
        vec![int_tok("2"), tok("+", "+"), int_tok("3"), tok("+", "+"), int_tok("4"), end_tok()],
    ).unwrap();
    assert_eq!(tree.data, "2+3+4");
}

#[test]
fn token_describes_itself_as_leaf() {
    let t = tok("int", "17");
    let n = t.to_tree_node();
    assert_eq!(n.symbol_type, "int");
    assert_eq!(n.data, "17");
    assert!(n.children.is_empty());
}

#[test]
fn derivations_compare_structurally() {
    let a = ReduceDerivation::build("E".to_owned(), vec!["T".to_owned(), "+".to_owned()]);
    let b = ReduceDerivation::build("E".to_owned(), vec!["T".to_owned(), "+".to_owned()]);
    let c = ReduceDerivation::build("E".to_owned(), vec!["+".to_owned(), "T".to_owned()]);
    let d = ReduceDerivation::build("T".to_owned(), vec!["T".to_owned(), "+".to_owned()]);
    assert!(a == b);
    assert!(a != c);
    assert!(a != d);
}

#[test]
fn build_assembles_node() {
    let leaf = ParsingTreeNode::build("int".to_owned(), "5".to_owned(), Vec::new());
    let node = ParsingTreeNode::build("T".to_owned(), "5".to_owned(), vec![leaf]);
    assert_eq!(node.symbol_type, "T");
    assert_eq!(node.data, "5");
    assert_eq!(node.children.len(), 1);
    assert_eq!(node.children[0].symbol_type, "int");
}
