//! Nodes: the untyped syntax tree that the parser builds.

use vstd::prelude::*;
use std::collections::VecDeque;
use vstd::std_specs::vecdeque::VecDequeAdditionalSpecFns;
use crate::token::{Token, TokenView};

verus! {

/// A node of the syntax tree: a token, or a list of nodes.
#[derive(Debug, PartialEq)]
pub enum Node {
    Leaf { token: Token },
    List { elements: VecDeque<Node> },
}

/// The mathematical model of a [`Node`].
pub enum NodeView {
    Leaf { token: TokenView },
    List { elements: Seq<NodeView> },
}

/// The model of a node.
pub open spec fn node_view(node: Node) -> NodeView
    decreases node,
{
    match node {
        Node::Leaf { token } => NodeView::Leaf { token: token@ },
        Node::List { elements } => NodeView::List {
            elements: Seq::new(
                elements.len() as nat,
                |i: int|
                    if 0 <= i < elements.len() {
                        node_view(elements[i])
                    } else {
                        NodeView::List { elements: Seq::empty() }
                    },
            ),
        },
    }
}

/// The models of the nodes of a sequence, in order.
pub open spec fn nodes_view(nodes: Seq<Node>) -> Seq<NodeView> {
    Seq::new(nodes.len(), |i: int| node_view(nodes[i]))
}

/// Whether no leaf under `node` holds a parenthesis. The nodes that the
/// parser builds are so.
pub open spec fn node_well_formed(node: NodeView) -> bool
    decreases node,
{
    match node {
        NodeView::Leaf { token } => !(token is LeftParen) && !(token is RightParen),
        NodeView::List { elements } => forall|i: int|
            0 <= i < elements.len() ==> node_well_formed(#[trigger] elements[i]),
    }
}

/// Whether no leaf under any of `nodes` holds a parenthesis.
pub open spec fn nodes_well_formed(nodes: Seq<NodeView>) -> bool {
    forall|i: int| 0 <= i < nodes.len() ==> node_well_formed(#[trigger] nodes[i])
}

/// The tokens that spell `node`: a leaf is its token, a list its elements
/// between parentheses.
pub open spec fn flatten_node(node: NodeView) -> Seq<TokenView>
    decreases node, 0nat,
{
    match node {
        NodeView::Leaf { token } => seq![token],
        NodeView::List { elements } => seq![TokenView::LeftParen] + flatten_nodes(elements)
            + seq![TokenView::RightParen],
    }
}

/// The tokens that spell `nodes`, one after the other.
pub open spec fn flatten_nodes(nodes: Seq<NodeView>) -> Seq<TokenView>
    decreases nodes, 1nat,
{
    if nodes.len() == 0 {
        Seq::empty()
    } else {
        flatten_node(nodes[0]) + flatten_nodes(nodes.drop_first())
    }
}

impl View for Node {
    type V = NodeView;

    open spec fn view(&self) -> NodeView {
        node_view(*self)
    }
}

impl Node {
    /// Whether no leaf under the node holds a parenthesis.
    pub fn is_well_formed(&self) -> (well_formed: bool)
        ensures
            well_formed == node_well_formed(self@),
        decreases self,
    {
        match self {
            Node::Leaf { token } => match token {
                Token::LeftParen | Token::RightParen => false,
                _ => true,
            },
            Node::List { elements } => {
                let ghost models = self@->elements;
                let mut i: usize = 0;
                while i < elements.len()
                    invariant
                        i <= elements.len(),
                        *self == (Node::List { elements: *elements }),
                        self@ is List,
                        models == self@->elements,
                        models.len() == elements.len(),
                        forall|k: int| 0 <= k < elements.len() ==> models[k] == elements@[k]@,
                        forall|k: int| 0 <= k < i ==> node_well_formed(#[trigger] models[k]),
                    decreases elements.len() - i,
                {
                    if !elements[i].is_well_formed() {
                        assert(!node_well_formed(self@->elements[i as int]));
                        return false;
                    }
                    i = i + 1;
                }
                true
            },
        }
    }
}

/// Whether no leaf under any of the nodes holds a parenthesis.
pub fn are_well_formed(nodes: &Vec<Node>) -> (well_formed: bool)
    ensures
        well_formed == nodes_well_formed(nodes_view(nodes@)),
{
    let mut i: usize = 0;
    while i < nodes.len()
        invariant
            i <= nodes.len(),
            forall|k: int| 0 <= k < i ==> node_well_formed(#[trigger] nodes_view(nodes@)[k]),
        decreases nodes.len() - i,
    {
        if !nodes[i].is_well_formed() {
            assert(!node_well_formed(nodes_view(nodes@)[i as int]));
            return false;
        }
        i = i + 1;
    }
    true
}

} // verus!
