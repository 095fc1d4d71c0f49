//! The syntax tree: each node holds one token value and the ordered
//! sequence of children it owns exclusively; the tree has no sharing and
//! no cycles, and is never mutated once built.

use vstd::prelude::*;

use crate::token::{Token, TokenModel};

verus! {

/// Ghost counterpart of a syntax-tree node.
pub struct NodeModel {
    pub val: TokenModel,
    pub children: Seq<NodeModel>,
}

/// One element of the hierarchical program representation produced by
/// parsing: a token value and the node's children, in source order.
pub struct AstNode {
    pub val: Token,
    pub children: Vec<AstNode>,
}

/// The ghost tree that an `AstNode` stands for.
pub open spec fn node_model(n: AstNode) -> NodeModel
    decreases n,
{
    NodeModel { val: n.val@, children: nodes_model(n.children@) }
}

/// The ghost forest that a sequence of nodes stands for.
pub open spec fn nodes_model(ns: Seq<AstNode>) -> Seq<NodeModel>
    decreases ns,
{
    if ns.len() == 0 {
        Seq::empty()
    } else {
        nodes_model(ns.drop_last()).push(node_model(ns.last()))
    }
}

/// `nodes_model` is the element-wise image of `node_model`.
pub proof fn lemma_nodes_model(ns: Seq<AstNode>)
    ensures
        nodes_model(ns).len() == ns.len(),
        forall|i: int| 0 <= i < ns.len() ==> nodes_model(ns)[i] == node_model(#[trigger] ns[i]),
    decreases ns.len(),
{
    if ns.len() > 0 {
        lemma_nodes_model(ns.drop_last());
        assert(forall|i: int| 0 <= i < ns.len() - 1 ==> ns.drop_last()[i] == #[trigger] ns[i]);
    }
}

impl View for AstNode {
    type V = NodeModel;

    open spec fn view(&self) -> NodeModel {
        node_model(*self)
    }
}

impl DeepView for AstNode {
    type V = NodeModel;

    open spec fn deep_view(&self) -> NodeModel {
        self.view()
    }
}

impl AstNode {
    /// A leaf node: the given token value and no children.
    pub fn new_empty(val: Token) -> (r: AstNode)
        ensures
            r@ == (NodeModel { val: val@, children: Seq::<NodeModel>::empty() }),
    {
        AstNode { val, children: Vec::new() }
    }

    /// A node holding the given token value and children.
    pub fn new(val: Token, children: Vec<AstNode>) -> (r: AstNode)
        ensures
            r@ == (NodeModel { val: val@, children: children.deep_view() }),
    {
        let ghost cs = children@;
        let r = AstNode { val, children };
        proof {
            lemma_nodes_model(cs);
            assert(r@.children =~= r.children.deep_view());
        }
        r
    }
}

} // verus!
