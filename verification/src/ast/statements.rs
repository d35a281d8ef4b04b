use vstd::prelude::*;
use super::expressions::{ExprView, Expression};
use super::node::{Node, NodeView};
use crate::lexer::token::{Token, TokenView};

verus! {

/// A statement: so far only the assignment, with its `=` token, the name that is
/// assigned to, and the value.
#[derive(Debug)]
pub enum Statement<'a> {
    Assign(Token, Node<'a>, Expression<'a>),
}

/// The mathematical value of a [`Statement`].
pub ghost enum StatementView {
    Assign(TokenView, NodeView, ExprView),
}

impl<'a> View for Statement<'a> {
    type V = StatementView;

    open spec fn view(&self) -> StatementView {
        match self {
            Statement::Assign(token, target, value) => StatementView::Assign(
                token@,
                target@,
                value@,
            ),
        }
    }
}

} // verus!
