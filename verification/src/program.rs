//! The program: the expressions of a source text, in the order of the source.

use vstd::prelude::*;
use crate::ast::expressions::{ExprView, Expression};

verus! {

/// The text of a list of expressions: their texts one after the other.
pub open spec fn rendered_all(expressions: Seq<ExprView>) -> Seq<char>
    decreases expressions.len(),
{
    if expressions.len() == 0 {
        Seq::empty()
    } else {
        rendered_all(expressions.drop_last()) + expressions.last().rendered()
    }
}

/// An ordered list of expressions that only grows at its end.
pub struct Program<'a> {
    expressions: Vec<Expression<'a>>,
}

impl<'a> View for Program<'a> {
    type V = Seq<ExprView>;

    closed spec fn view(&self) -> Seq<ExprView> {
        self.expressions@.map_values(|e: Expression<'a>| e@)
    }
}

impl<'a> Program<'a> {
    /// The empty program.
    pub fn new() -> (program: Program<'a>)
        ensures
            program@ == Seq::<ExprView>::empty(),
    {
        Program { expressions: Vec::new() }
    }

    /// Appends an expression.
    pub fn push(&mut self, expression: Expression<'a>)
        ensures
            final(self)@ == old(self)@.push(expression@),
    {
        self.expressions.push(expression);
    }

    /// The number of expressions.
    pub fn len(&self) -> (n: usize)
        ensures
            n == self@.len(),
    {
        self.expressions.len()
    }

    /// The expression at `index`, if there is one.
    pub fn get(&self, index: usize) -> (expression: Option<&Expression<'a>>)
        ensures
            expression is Some <==> index < self@.len(),
            expression is Some ==> expression.unwrap()@ == self@[index as int],
    {
        if index < self.expressions.len() {
            Some(&self.expressions[index])
        } else {
            None
        }
    }

    /// The program as source text.
    pub fn to_s(&self) -> (text: String)
        ensures
            text@ == rendered_all(self@),
    {
        let mut string = String::new();
        let mut i: usize = 0;
        while i < self.expressions.len()
            invariant
                i <= self.expressions.len(),
                string@ == rendered_all(self@.take(i as int)),
            decreases self.expressions.len() - i,
        {
            let expr = self.expressions[i].to_s();
            string.append(expr.as_str());
            proof {
                let next = self@.take(i + 1);
                assert(next.drop_last() == self@.take(i as int));
            }
            i += 1;
        }
        assert(self@.take(i as int) == self@);
        string
    }
}

} // verus!
