//! Expressions: the typed syntax tree, and the values it evaluates to.

use vstd::prelude::*;
use crate::environment::{environment_view, Environment};
use crate::token::{Number, NumberView};

verus! {

/// A name that stands for what it is bound to.
#[derive(Debug, Clone, PartialEq, Eq, Hash)]
pub struct Identifier {
    pub name: String,
}

/// The name of a formal argument of a lambda.
#[derive(Debug, Clone, PartialEq)]
pub struct Parameter {
    pub name: String,
}

/// The built-in procedures.
#[derive(Debug, Clone, Copy, PartialEq, Eq)]
pub enum Primitive {
    Addition,
    Subtraction,
    Multiplication,
    Division,
    Remainder,
    Equals,
    LessThan,
    Car,
    Cdr,
    IsEmptyList,
}

/// An expression. What is evaluated and what evaluation comes to are of
/// this one type.
#[derive(Debug, PartialEq)]
pub enum Expression {
    String { value: String },
    Number { value: Number },
    Quotation { text_of_quotation: String },
    Identifier(Identifier),
    Assignment { variable: Identifier, value: Box<Expression> },
    Definition { variable: Identifier, value: Box<Expression> },
    True,
    False,
    If { predicate: Box<Expression>, consequent: Box<Expression>, alternative: Box<Expression> },
    And { operands: Vec<Expression> },
    Or { operands: Vec<Expression> },
    Lambda { parameters: Vec<Parameter>, body: Box<Expression> },
    Begin { sequence: Vec<Expression> },
    Application { procedure: Box<Expression>, arguments: Vec<Expression> },
    Cons { first: Box<Expression>, rest: Box<Expression> },
    EmptyList,
    /// A keyword in a place where it heads no list.
    LisrInternalObject { name: String },
    /// A procedure made by a lambda, with a copy of the environment in
    /// which it was made: it reads these bindings, and changes to the
    /// environment it came from do not reach it.
    CompoundProcedure {
        parameters: Vec<Parameter>,
        body: Box<Expression>,
        environment: Box<Environment>,
    },
    PrimitiveProcedure { procedure: Primitive },
}

/// The mathematical model of an [`Expression`].
pub enum ExpressionView {
    String { value: Seq<char> },
    Number { value: NumberView },
    Quotation { text_of_quotation: Seq<char> },
    Identifier { name: Seq<char> },
    Assignment { variable: Seq<char>, value: Box<ExpressionView> },
    Definition { variable: Seq<char>, value: Box<ExpressionView> },
    True,
    False,
    If { predicate: Box<ExpressionView>, consequent: Box<ExpressionView>, alternative: Box<ExpressionView> },
    And { operands: Seq<ExpressionView> },
    Or { operands: Seq<ExpressionView> },
    Lambda { parameters: Seq<Seq<char>>, body: Box<ExpressionView> },
    Begin { sequence: Seq<ExpressionView> },
    Application { procedure: Box<ExpressionView>, arguments: Seq<ExpressionView> },
    Cons { first: Box<ExpressionView>, rest: Box<ExpressionView> },
    EmptyList,
    LisrInternalObject { name: Seq<char> },
    CompoundProcedure { parameters: Seq<Seq<char>>, body: Box<ExpressionView>, environment: Map<Seq<char>, ExpressionView> },
    PrimitiveProcedure { procedure: Primitive },
}

/// The names of the parameters, in order.
pub open spec fn names_of(parameters: Seq<Parameter>) -> Seq<Seq<char>> {
    Seq::new(parameters.len(), |i: int| parameters[i].name@)
}

/// The models of the expressions, in order.
pub open spec fn views_of(expressions: Seq<Expression>) -> Seq<ExpressionView>
    decreases expressions,
{
    Seq::new(
        expressions.len(),
        |i: int|
            if 0 <= i < expressions.len() {
                expression_view(expressions[i])
            } else {
                ExpressionView::EmptyList
            },
    )
}

/// The model of an expression.
pub open spec fn expression_view(expression: Expression) -> ExpressionView
    decreases expression,
{
    match expression {
        Expression::String { value } => ExpressionView::String { value: value@ },
        Expression::Number { value } => ExpressionView::Number { value: value@ },
        Expression::Quotation { text_of_quotation } => ExpressionView::Quotation {
            text_of_quotation: text_of_quotation@,
        },
        Expression::Identifier(identifier) => ExpressionView::Identifier { name: identifier.name@ },
        Expression::Assignment { variable, value } => ExpressionView::Assignment {
            variable: variable.name@,
            value: Box::new(expression_view(*value)),
        },
        Expression::Definition { variable, value } => ExpressionView::Definition {
            variable: variable.name@,
            value: Box::new(expression_view(*value)),
        },
        Expression::True => ExpressionView::True,
        Expression::False => ExpressionView::False,
        Expression::If { predicate, consequent, alternative } => ExpressionView::If {
            predicate: Box::new(expression_view(*predicate)),
            consequent: Box::new(expression_view(*consequent)),
            alternative: Box::new(expression_view(*alternative)),
        },
        Expression::And { operands } => ExpressionView::And { operands: views_of(operands@) },
        Expression::Or { operands } => ExpressionView::Or { operands: views_of(operands@) },
        Expression::Lambda { parameters, body } => ExpressionView::Lambda {
            parameters: names_of(parameters@),
            body: Box::new(expression_view(*body)),
        },
        Expression::Begin { sequence } => ExpressionView::Begin { sequence: views_of(sequence@) },
        Expression::Application { procedure, arguments } => ExpressionView::Application {
            procedure: Box::new(expression_view(*procedure)),
            arguments: views_of(arguments@),
        },
        Expression::Cons { first, rest } => ExpressionView::Cons {
            first: Box::new(expression_view(*first)),
            rest: Box::new(expression_view(*rest)),
        },
        Expression::EmptyList => ExpressionView::EmptyList,
        Expression::LisrInternalObject { name } => ExpressionView::LisrInternalObject { name: name@ },
        Expression::CompoundProcedure { parameters, body, environment } => {
            ExpressionView::CompoundProcedure {
                parameters: names_of(parameters@),
                body: Box::new(expression_view(*body)),
                environment: environment_view(*environment),
            }
        },
        Expression::PrimitiveProcedure { procedure } => ExpressionView::PrimitiveProcedure { procedure },
    }
}

impl View for Expression {
    type V = ExpressionView;

    open spec fn view(&self) -> ExpressionView {
        expression_view(*self)
    }
}

impl Parameter {
    /// An independent copy of the parameter.
    pub fn duplicate(&self) -> (copy: Parameter)
        ensures
            copy.name@ == self.name@,
    {
        Parameter { name: self.name.clone() }
    }
}

impl Identifier {
    /// An independent copy of the identifier.
    pub fn duplicate(&self) -> (copy: Identifier)
        ensures
            copy.name@ == self.name@,
    {
        Identifier { name: self.name.clone() }
    }
}

/// Independent copies of the given parameters, in order.
pub fn duplicate_parameters(parameters: &Vec<Parameter>) -> (copies: Vec<Parameter>)
    ensures
        names_of(copies@) == names_of(parameters@),
{
    let mut copies: Vec<Parameter> = Vec::new();
    let mut i: usize = 0;
    while i < parameters.len()
        invariant
            i <= parameters.len(),
            copies.len() == i,
            forall|k: int| 0 <= k < i ==> copies[k].name@ == parameters[k].name@,
        decreases parameters.len() - i,
    {
        copies.push(parameters[i].duplicate());
        i = i + 1;
    }
    assert(names_of(copies@) =~= names_of(parameters@));
    copies
}

/// Independent copies of the given expressions, in order.
pub fn duplicate_all(expressions: &Vec<Expression>) -> (copies: Vec<Expression>)
    ensures
        views_of(copies@) == views_of(expressions@),
    decreases expressions,
{
    let mut copies: Vec<Expression> = Vec::new();
    let mut i: usize = 0;
    while i < expressions.len()
        invariant
            i <= expressions.len(),
            copies.len() == i,
            forall|k: int| 0 <= k < i ==> copies[k]@ == expressions[k]@,
        decreases expressions.len() - i,
    {
        copies.push(expressions[i].duplicate());
        i = i + 1;
    }
    assert(views_of(copies@) =~= views_of(expressions@));
    copies
}

impl Expression {
    /// An independent copy of the expression.
    pub fn duplicate(&self) -> (copy: Expression)
        ensures
            copy@ == self@,
        decreases self,
    {
        match self {
            Expression::String { value } => Expression::String { value: value.clone() },
            Expression::Number { value } => Expression::Number { value: value.duplicate() },
            Expression::Quotation { text_of_quotation } => Expression::Quotation {
                text_of_quotation: text_of_quotation.clone(),
            },
            Expression::Identifier(identifier) => Expression::Identifier(identifier.duplicate()),
            Expression::Assignment { variable, value } => Expression::Assignment {
                variable: variable.duplicate(),
                value: Box::new(value.duplicate()),
            },
            Expression::Definition { variable, value } => Expression::Definition {
                variable: variable.duplicate(),
                value: Box::new(value.duplicate()),
            },
            Expression::True => Expression::True,
            Expression::False => Expression::False,
            Expression::If { predicate, consequent, alternative } => Expression::If {
                predicate: Box::new(predicate.duplicate()),
                consequent: Box::new(consequent.duplicate()),
                alternative: Box::new(alternative.duplicate()),
            },
            Expression::And { operands } => Expression::And { operands: duplicate_all(operands) },
            Expression::Or { operands } => Expression::Or { operands: duplicate_all(operands) },
            Expression::Lambda { parameters, body } => Expression::Lambda {
                parameters: duplicate_parameters(parameters),
                body: Box::new(body.duplicate()),
            },
            Expression::Begin { sequence } => Expression::Begin { sequence: duplicate_all(sequence) },
            Expression::Application { procedure, arguments } => Expression::Application {
                procedure: Box::new(procedure.duplicate()),
                arguments: duplicate_all(arguments),
            },
            Expression::Cons { first, rest } => Expression::Cons {
                first: Box::new(first.duplicate()),
                rest: Box::new(rest.duplicate()),
            },
            Expression::EmptyList => Expression::EmptyList,
            Expression::LisrInternalObject { name } => Expression::LisrInternalObject {
                name: name.clone(),
            },
            Expression::CompoundProcedure { parameters, body, environment } => {
                Expression::CompoundProcedure {
                    parameters: duplicate_parameters(parameters),
                    body: Box::new(body.duplicate()),
                    environment: Box::new(environment.duplicate()),
                }
            },
            Expression::PrimitiveProcedure { procedure } => Expression::PrimitiveProcedure {
                procedure: *procedure,
            },
        }
    }
}

impl Clone for Expression {
    fn clone(&self) -> (copy: Self)
        ensures
            copy@ == self@,
    {
        self.duplicate()
    }
}

} // verus!
