use vstd::prelude::*;
use super::node::{Node, NodeView};
use crate::lexer::token::{Token, TokenView};

verus! {

/// What the parser yields for one statement. An expression owns its token and its
/// parts.
#[derive(Debug)]
pub enum Expression<'a> {
    /// The `=` token, the name that is assigned to, and the value.
    Assign(Token, Node<'a>, Box<Expression<'a>>),
    /// The token of an integer literal, and its value.
    Value(Token, i32),
    /// The `return` token and the expression that is returned.
    Return(Token, Box<Expression<'a>>),
    /// The token of a name that stands alone, and the name.
    Identifier(Token, Node<'a>),
}

/// The mathematical value of an [`Expression`].
pub ghost enum ExprView {
    Assign(TokenView, NodeView, Box<ExprView>),
    Value(TokenView, i32),
    Return(TokenView, Box<ExprView>),
    Identifier(TokenView, NodeView),
}

impl ExprView {
    /// The token that the expression was made from.
    pub open spec fn token(self) -> TokenView {
        match self {
            ExprView::Assign(token, _, _) => token,
            ExprView::Value(token, _) => token,
            ExprView::Return(token, _) => token,
            ExprView::Identifier(token, _) => token,
        }
    }

    /// The expression as source text. An assignment and a `return` end their line.
    pub open spec fn rendered(self) -> Seq<char>
        decreases self,
    {
        match self {
            ExprView::Assign(token, target, value) => match target {
                NodeView::Identifier(_, name) => name + " "@ + token.literal + " "@
                    + value.rendered() + "\n"@,
                _ => "[INVALID ASSIGN EXPRESSION]"@,
            },
            ExprView::Value(token, _) => token.literal,
            ExprView::Return(token, value) => token.literal + " "@ + value.rendered() + "\n"@,
            ExprView::Identifier(token, _) => token.literal,
        }
    }
}

impl<'a> Expression<'a> {
    /// The value of the expression, part by part.
    pub open spec fn model(&self) -> ExprView
        decreases self,
    {
        match self {
            Expression::Assign(token, target, value) => ExprView::Assign(
                token@,
                target@,
                Box::new(value.model()),
            ),
            Expression::Value(token, value) => ExprView::Value(token@, *value),
            Expression::Return(token, value) => ExprView::Return(
                token@,
                Box::new(value.model()),
            ),
            Expression::Identifier(token, name) => ExprView::Identifier(token@, name@),
        }
    }
}

impl<'a> View for Expression<'a> {
    type V = ExprView;

    open spec fn view(&self) -> ExprView {
        self.model()
    }
}

impl<'a> Clone for Expression<'a> {
    fn clone(&self) -> (copy: Self)
        ensures
            copy == *self,
        decreases self,
    {
        match self {
            Expression::Assign(token, target, value) => Expression::Assign(
                token.clone(),
                target.clone(),
                Box::new((**value).clone()),
            ),
            Expression::Value(token, value) => Expression::Value(token.clone(), *value),
            Expression::Return(token, value) => Expression::Return(
                token.clone(),
                Box::new((**value).clone()),
            ),
            Expression::Identifier(token, name) => Expression::Identifier(
                token.clone(),
                name.clone(),
            ),
        }
    }
}

impl<'a> Expression<'a> {
    /// The literal of the token that the expression was made from.
    pub fn token_literal(&self) -> (literal: String)
        ensures
            literal@ == self@.token().literal,
    {
        match self {
            Expression::Assign(token, _, _) => token.literal.clone(),
            Expression::Value(token, _) => token.literal.clone(),
            Expression::Return(token, _) => token.literal.clone(),
            Expression::Identifier(token, _) => token.literal.clone(),
        }
    }

    /// The expression as source text.
    pub fn to_s(&self) -> (text: String)
        ensures
            text@ == self@.rendered(),
        decreases self,
    {
        match self {
            Expression::Assign(token, ident, expr) => {
                match ident {
                    Node::Identifier(_, name) => {
                        let mut text = name.clone();
                        text.append(" ");
                        text.append(token.literal.as_str());
                        text.append(" ");
                        let value = expr.to_s();
                        text.append(value.as_str());
                        text.append("\n");
                        text
                    },
                    _ => String::from_str("[INVALID ASSIGN EXPRESSION]"),
                }
            },
            Expression::Value(token, _) => token.literal.clone(),
            Expression::Return(token, expr) => {
                let mut text = token.literal.clone();
                text.append(" ");
                let value = expr.to_s();
                text.append(value.as_str());
                text.append("\n");
                text
            },
            Expression::Identifier(token, _) => token.literal.clone(),
        }
    }
}

} // verus!
