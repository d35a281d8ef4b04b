use vstd::prelude::*;
use crate::lexer::token::{Token, TokenView};

verus! {

/// A leaf or an inner node of an expression tree. Each node owns the token that it was
/// made from.
#[derive(Debug)]
pub enum Node<'a> {
    Identifier(Token, String),
    NumberNode(Token),
    BinOpNode(&'a Node<'a>, &'a Node<'a>, Token),
}

/// The mathematical value of a [`Node`].
pub ghost enum NodeView {
    Identifier(TokenView, Seq<char>),
    NumberNode(TokenView),
    BinOpNode(Box<NodeView>, Box<NodeView>, TokenView),
}

impl NodeView {
    /// The token that the node was made from.
    pub open spec fn token(self) -> TokenView {
        match self {
            NodeView::Identifier(token, _) => token,
            NodeView::NumberNode(token) => token,
            NodeView::BinOpNode(_, _, token) => token,
        }
    }
}

impl<'a> Node<'a> {
    /// The value of the node, part by part.
    pub open spec fn model(&self) -> NodeView
        decreases self,
    {
        match self {
            Node::Identifier(token, name) => NodeView::Identifier(token@, name@),
            Node::NumberNode(token) => NodeView::NumberNode(token@),
            Node::BinOpNode(left, right, token) => NodeView::BinOpNode(
                Box::new(left.model()),
                Box::new(right.model()),
                token@,
            ),
        }
    }
}

impl<'a> View for Node<'a> {
    type V = NodeView;

    open spec fn view(&self) -> NodeView {
        self.model()
    }
}

impl<'a> Clone for Node<'a> {
    fn clone(&self) -> (copy: Self)
        ensures
            copy == *self,
    {
        match self {
            Node::Identifier(token, name) => Node::Identifier(token.clone(), name.clone()),
            Node::NumberNode(token) => Node::NumberNode(token.clone()),
            Node::BinOpNode(left, right, token) => Node::BinOpNode(left, right, token.clone()),
        }
    }
}

/// The literal of the token that the node was made from.
pub fn token_literal(node: &Node) -> (literal: String)
    ensures
        literal@ == node@.token().literal,
{
    match node {
        Node::Identifier(token, _) => token.literal.clone(),
        Node::NumberNode(token) => token.literal.clone(),
        Node::BinOpNode(_, _, token) => token.literal.clone(),
    }
}

} // verus!
