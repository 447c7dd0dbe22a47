//! Parse tree nodes and the token capability.

use vstd::prelude::*;

verus! {

/// One grammar symbol occurrence with its synthesized (or literal) value and
/// its children, in original left-to-right order.
///
/// Leaf nodes (from shifted tokens) have empty children and literal data;
/// internal nodes (from reductions) have children equal to the matched
/// right-hand-side nodes and data equal to the handler's synthesized value.
pub struct ParsingTreeNode {
    pub symbol_type: String,
    pub data: String,
    pub children: Vec<ParsingTreeNode>,
}

/// The mathematical value of a parse tree node: its symbol, its data, and the
/// values of its children, in order.
#[verifier::ext_equal]
pub struct NodeView {
    pub symbol_type: Seq<char>,
    pub data: Seq<char>,
    pub children: Seq<NodeView>,
}

/// The value of an executable node.
pub open spec fn node_view(n: ParsingTreeNode) -> NodeView
    decreases n,
{
    NodeView {
        symbol_type: n.symbol_type@,
        data: n.data@,
        children: children_views(n.children@),
    }
}

/// The values of a sequence of executable nodes, in order.
pub open spec fn children_views(s: Seq<ParsingTreeNode>) -> Seq<NodeView>
    decreases s,
{
    if s.len() == 0 {
        Seq::empty()
    } else {
        children_views(s.subrange(0, s.len() - 1)).push(node_view(s[s.len() - 1]))
    }
}

/// The values of a sequence of executable nodes, stated pointwise.
pub open spec fn nodes_view(s: Seq<ParsingTreeNode>) -> Seq<NodeView> {
    Seq::new(s.len(), |i: int| node_view(s[i]))
}

/// `children_views` lists exactly the value of each node, in order.
pub proof fn lemma_children_views(s: Seq<ParsingTreeNode>)
    ensures
        children_views(s) == nodes_view(s),
    decreases s.len(),
{
    if s.len() > 0 {
        lemma_children_views(s.subrange(0, s.len() - 1));
        assert(children_views(s) =~= nodes_view(s));
    } else {
        assert(children_views(s) =~= nodes_view(s));
    }
}

/// The value of a leaf node carrying a token's symbol type and literal data.
pub open spec fn leaf_view(symbol_type: Seq<char>, data: Seq<char>) -> NodeView {
    NodeView { symbol_type, data, children: Seq::empty() }
}

impl ParsingTreeNode {
    pub fn build(symbol_type: String, data: String, children: Vec<ParsingTreeNode>) -> (n: Self)
        ensures
            node_view(n) == (NodeView {
                symbol_type: symbol_type@,
                data: data@,
                children: nodes_view(children@),
            }),
    {
        proof {
            lemma_children_views(children@);
        }
        ParsingTreeNode { symbol_type, data, children }
    }
}

/// The token capability: any value that can describe itself as one leaf parse
/// tree node giving its symbol type and literal data.
pub trait Token: Clone {
    /// The symbol type the token will report.
    spec fn spec_symbol_type(&self) -> Seq<char>;

    /// The literal data the token will report.
    spec fn spec_data(&self) -> Seq<char>;

    /// Produce the leaf node describing this token.
    fn to_tree_node(&self) -> (n: ParsingTreeNode)
        ensures
            node_view(n) == leaf_view(self.spec_symbol_type(), self.spec_data()),
    ;
}

/// A ready-made token: a symbol type together with its literal data.
#[derive(Clone)]
pub struct SymbolToken {
    pub symbol_type: String,
    pub data: String,
}

impl Token for SymbolToken {
    open spec fn spec_symbol_type(&self) -> Seq<char> {
        self.symbol_type@
    }

    open spec fn spec_data(&self) -> Seq<char> {
        self.data@
    }

    fn to_tree_node(&self) -> (n: ParsingTreeNode)
        ensures
            node_view(n) == leaf_view(self.spec_symbol_type(), self.spec_data()),
    {
        let n = ParsingTreeNode {
            symbol_type: self.symbol_type.clone(),
            data: self.data.clone(),
            children: Vec::new(),
        };
        proof {
            assert(node_view(n).children =~= Seq::<NodeView>::empty());
            assert(node_view(n) == leaf_view(self.spec_symbol_type(), self.spec_data()));
        }
        n
    }
}

} // verus!
