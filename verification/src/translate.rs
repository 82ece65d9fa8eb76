//! The translator: from nodes to expressions.
//!
//! A leaf becomes the literal or the identifier that its token spells. A
//! list becomes the special form that its first element names, or else an
//! application of its first element to the others; the empty list stands
//! for itself.

use vstd::prelude::*;
use std::collections::VecDeque;
use vstd::std_specs::vecdeque::VecDequeAdditionalSpecFns;
use crate::expression::{
    names_of, views_of, Expression, ExpressionView, Identifier, Parameter,
};
use crate::node::{node_view, node_well_formed, nodes_view, nodes_well_formed, Node, NodeView};
use crate::parse::LisrParseError;
use crate::token::{Token, TokenView};

verus! {

/// The object that stands for a keyword where it is no head of a list.
pub open spec fn internal_object(name: Seq<char>) -> Result<ExpressionView, LisrParseError> {
    Ok(ExpressionView::LisrInternalObject { name })
}

/// The expression that a leaf stands for. Of a parenthesis, which is no
/// leaf, nothing is said.
pub open spec fn translate_leaf_model(token: TokenView) -> Result<ExpressionView, LisrParseError>
    recommends
        !(token is LeftParen) && !(token is RightParen),
{
    match token {
        TokenView::String { value } => Ok(ExpressionView::String { value }),
        TokenView::Number { value } => Ok(ExpressionView::Number { value }),
        TokenView::Quotation { text_of_quotation } => Ok(
            ExpressionView::Quotation { text_of_quotation },
        ),
        TokenView::Identifier { name } => Ok(ExpressionView::Identifier { name }),
        TokenView::SetBang => internal_object("set!"@),
        TokenView::Define => internal_object("define"@),
        TokenView::True => Ok(ExpressionView::True),
        TokenView::False => Ok(ExpressionView::False),
        TokenView::If => internal_object("if"@),
        TokenView::And => internal_object("and"@),
        TokenView::Or => internal_object("or"@),
        TokenView::Lambda => internal_object("lambda"@),
        TokenView::Begin => internal_object("begin"@),
        TokenView::Cons => internal_object("cons"@),
        TokenView::LeftParen => arbitrary(),
        TokenView::RightParen => arbitrary(),
    }
}

/// The names of the parameters that `parameters` spell: each has to be an
/// identifier.
pub open spec fn translate_parameters_model(parameters: Seq<NodeView>) -> Result<
    Seq<Seq<char>>,
    LisrParseError,
>
    decreases parameters.len(),
{
    if parameters.len() == 0 {
        Ok(Seq::empty())
    } else {
        match parameters[0] {
            NodeView::Leaf { token: TokenView::Identifier { name } } => {
                match translate_parameters_model(parameters.drop_first()) {
                    Ok(others) => Ok(seq![name] + others),
                    Err(error) => Err(error),
                }
            },
            _ => Err(LisrParseError::UnexpectedExpressionForLambdaParameter),
        }
    }
}

/// The expression that a node stands for.
pub open spec fn translate_node_model(node: NodeView) -> Result<ExpressionView, LisrParseError>
    decreases node, 0nat,
{
    match node {
        NodeView::Leaf { token } => translate_leaf_model(token),
        NodeView::List { elements } => translate_list_model(elements),
    }
}

/// The expressions that the nodes stand for, in order, or the first error.
pub open spec fn translate_model(nodes: Seq<NodeView>) -> Result<
    Seq<ExpressionView>,
    LisrParseError,
>
    decreases nodes, 0nat,
{
    if nodes.len() == 0 {
        Ok(Seq::empty())
    } else {
        match translate_node_model(nodes[0]) {
            Ok(first) => match translate_model(nodes.drop_first()) {
                Ok(others) => Ok(seq![first] + others),
                Err(error) => Err(error),
            },
            Err(error) => Err(error),
        }
    }
}

/// The application of the first of `elements` to the others.
pub open spec fn create_application_model(elements: Seq<NodeView>) -> Result<
    ExpressionView,
    LisrParseError,
>
    recommends
        elements.len() > 0,
    decreases elements, 1nat,
{
    if elements.len() == 0 {
        Ok(ExpressionView::EmptyList)
    } else {
        match translate_node_model(elements[0]) {
            Ok(procedure) => match translate_model(elements.drop_first()) {
                Ok(arguments) => Ok(
                    ExpressionView::Application { procedure: Box::new(procedure), arguments },
                ),
                Err(error) => Err(error),
            },
            Err(error) => Err(error),
        }
    }
}

/// `(set! variable value)`: exactly an identifier and a value.
pub open spec fn create_assignment_model(arguments: Seq<NodeView>) -> Result<
    ExpressionView,
    LisrParseError,
>
    decreases arguments, 1nat,
{
    if arguments.len() != 2 {
        Err(LisrParseError::AssignmentRequiresOneVariableAndOneValue)
    } else {
        match arguments[0] {
            NodeView::Leaf { token: TokenView::Identifier { name } } => {
                match translate_node_model(arguments[1]) {
                    Ok(value) => Ok(
                        ExpressionView::Assignment { variable: name, value: Box::new(value) },
                    ),
                    Err(error) => Err(error),
                }
            },
            _ => Err(LisrParseError::AssignmentRequiresOneVariableAndOneValue),
        }
    }
}

/// `(lambda (parameters...) body)`, given the parameters and the body.
pub open spec fn create_lambda_model(parameters: Seq<NodeView>, body: NodeView) -> Result<
    ExpressionView,
    LisrParseError,
>
    decreases body, 1nat,
{
    match translate_parameters_model(parameters) {
        Ok(parameters) => match translate_node_model(body) {
            Ok(body) => Ok(ExpressionView::Lambda { parameters, body: Box::new(body) }),
            Err(error) => Err(error),
        },
        Err(error) => Err(error),
    }
}

/// `(define variable value)`, or `(define (name parameters...) body)`,
/// which binds `name` to the lambda of those parameters and that body. What
/// follows the second operand is passed over.
pub open spec fn create_definition_model(arguments: Seq<NodeView>) -> Result<
    ExpressionView,
    LisrParseError,
>
    decreases arguments, 1nat,
{
    if arguments.len() < 2 {
        Err(LisrParseError::DefinitionRequiresVariableAndBody)
    } else {
        match arguments[0] {
            NodeView::Leaf { token: TokenView::Identifier { name } } => {
                match translate_node_model(arguments[1]) {
                    Ok(value) => Ok(
                        ExpressionView::Definition { variable: name, value: Box::new(value) },
                    ),
                    Err(error) => Err(error),
                }
            },
            NodeView::List { elements } => {
                if elements.len() == 0 {
                    Err(LisrParseError::VariableRequiredInThisContext)
                } else {
                    match elements[0] {
                        NodeView::Leaf { token: TokenView::Identifier { name } } => {
                            match create_lambda_model(elements.drop_first(), arguments[1]) {
                                Ok(lambda) => Ok(
                                    ExpressionView::Definition {
                                        variable: name,
                                        value: Box::new(lambda),
                                    },
                                ),
                                Err(error) => Err(error),
                            }
                        },
                        _ => Err(LisrParseError::VariableRequiredInThisContext),
                    }
                }
            },
            _ => Err(LisrParseError::VariableRequiredInThisContext),
        }
    }
}

/// `(if predicate consequent alternative)`: exactly three operands.
pub open spec fn create_if_model(arguments: Seq<NodeView>) -> Result<
    ExpressionView,
    LisrParseError,
>
    decreases arguments, 1nat,
{
    if arguments.len() != 3 {
        Err(LisrParseError::IfRequiresPredicateConsequentAndAlternative)
    } else {
        match translate_node_model(arguments[0]) {
            Ok(predicate) => match translate_node_model(arguments[1]) {
                Ok(consequent) => match translate_node_model(arguments[2]) {
                    Ok(alternative) => Ok(
                        ExpressionView::If {
                            predicate: Box::new(predicate),
                            consequent: Box::new(consequent),
                            alternative: Box::new(alternative),
                        },
                    ),
                    Err(error) => Err(error),
                },
                Err(error) => Err(error),
            },
            Err(error) => Err(error),
        }
    }
}

/// `(cons first rest)`: exactly two operands.
pub open spec fn create_cons_model(arguments: Seq<NodeView>) -> Result<
    ExpressionView,
    LisrParseError,
>
    decreases arguments, 1nat,
{
    if arguments.len() != 2 {
        Err(LisrParseError::ConsRequiresTwoArguments)
    } else {
        match translate_node_model(arguments[0]) {
            Ok(first) => match translate_node_model(arguments[1]) {
                Ok(rest) => Ok(
                    ExpressionView::Cons { first: Box::new(first), rest: Box::new(rest) },
                ),
                Err(error) => Err(error),
            },
            Err(error) => Err(error),
        }
    }
}

/// The expression that a list of the given elements stands for.
pub open spec fn translate_list_model(elements: Seq<NodeView>) -> Result<
    ExpressionView,
    LisrParseError,
>
    decreases elements, 2nat,
{
    if elements.len() == 0 {
        Ok(ExpressionView::EmptyList)
    } else {
        let rest = elements.drop_first();
        match elements[0] {
            NodeView::Leaf { token } => match token {
                TokenView::String { .. }
                | TokenView::Number { .. }
                | TokenView::Quotation { .. }
                | TokenView::True
                | TokenView::False => Err(LisrParseError::ObjectNotInvokable),
                TokenView::Identifier { .. } => create_application_model(elements),
                TokenView::SetBang => create_assignment_model(rest),
                TokenView::Define => create_definition_model(rest),
                TokenView::If => create_if_model(rest),
                TokenView::And => match translate_model(rest) {
                    Ok(operands) => Ok(ExpressionView::And { operands }),
                    Err(error) => Err(error),
                },
                TokenView::Or => match translate_model(rest) {
                    Ok(operands) => Ok(ExpressionView::Or { operands }),
                    Err(error) => Err(error),
                },
                TokenView::Lambda => if rest.len() >= 2 && rest[0] is List {
                    create_lambda_model(rest[0]->elements, rest[1])
                } else {
                    Err(LisrParseError::LambdaRequiresParameterListAndBody)
                },
                TokenView::Begin => match translate_model(rest) {
                    Ok(sequence) => Ok(ExpressionView::Begin { sequence }),
                    Err(error) => Err(error),
                },
                TokenView::Cons => create_cons_model(rest),
                TokenView::LeftParen => arbitrary(),
                TokenView::RightParen => arbitrary(),
            },
            NodeView::List { .. } => create_application_model(elements),
        }
    }
}

/// The model of what translating comes to.
pub open spec fn translated_view(result: Result<Expression, LisrParseError>) -> Result<
    ExpressionView,
    LisrParseError,
> {
    match result {
        Ok(expression) => Ok(expression@),
        Err(error) => Err(error),
    }
}

/// The model of what translating several nodes comes to.
pub open spec fn translated_all_view(result: Result<Vec<Expression>, LisrParseError>) -> Result<
    Seq<ExpressionView>,
    LisrParseError,
> {
    match result {
        Ok(expressions) => Ok(views_of(expressions@)),
        Err(error) => Err(error),
    }
}

/// The model of a list is made of the models of its elements.
proof fn lemma_list_view(elements: VecDeque<Node>)
    ensures
        node_view(Node::List { elements }) == (NodeView::List { elements: nodes_view(elements@) }),
{
    assert(node_view(Node::List { elements })->elements =~= nodes_view(elements@));
}

/// The object that stands for a keyword where it is no head of a list.
fn create_internal_object(name: &str) -> (result: Result<Expression, LisrParseError>)
    ensures
        translated_view(result) == internal_object(name@),
{
    Ok(Expression::LisrInternalObject { name: String::from_str(name) })
}

fn translate_quotation(text_of_quotation: String) -> (result: Result<Expression, LisrParseError>)
    ensures
        translated_view(result) == Ok::<ExpressionView, LisrParseError>(
            ExpressionView::Quotation { text_of_quotation: text_of_quotation@ },
        ),
{
    // A quotation stays the text that it is.
    Ok(Expression::Quotation { text_of_quotation })
}

fn translate_leaf(token: &Token) -> (result: Result<Expression, LisrParseError>)
    requires
        !(token@ is LeftParen) && !(token@ is RightParen),
    ensures
        translated_view(result) == translate_leaf_model(token@),
{
    match token {
        Token::String { value } => Ok(Expression::String { value: value.clone() }),
        Token::Number { value } => Ok(Expression::Number { value: value.duplicate() }),
        Token::Quotation { text_of_quotation } => translate_quotation(text_of_quotation.clone()),
        Token::Identifier { name } => Ok(
            Expression::Identifier(Identifier { name: name.clone() }),
        ),
        Token::SetBang => create_internal_object("set!"),
        Token::Define => create_internal_object("define"),
        Token::True => Ok(Expression::True),
        Token::False => Ok(Expression::False),
        Token::If => create_internal_object("if"),
        Token::And => create_internal_object("and"),
        Token::Or => create_internal_object("or"),
        Token::Lambda => create_internal_object("lambda"),
        Token::Begin => create_internal_object("begin"),
        Token::Cons => create_internal_object("cons"),
        Token::LeftParen | Token::RightParen => {
            proof {
                assert(false);
            }
            Ok(Expression::EmptyList)
        },
    }
}

fn translate_parameters(parameters: &VecDeque<Node>, from: usize) -> (result: Result<
    Vec<Parameter>,
    LisrParseError,
>)
    requires
        from <= parameters.len(),
    ensures
        match result {
            Ok(names) => translate_parameters_model(
                nodes_view(parameters@).subrange(from as int, parameters.len() as int),
            ) == Ok::<Seq<Seq<char>>, LisrParseError>(names_of(names@)),
            Err(error) => translate_parameters_model(
                nodes_view(parameters@).subrange(from as int, parameters.len() as int),
            ) == Err::<Seq<Seq<char>>, LisrParseError>(error),
        },
{
    let ghost all = nodes_view(parameters@);
    let ghost end = parameters.len() as int;
    let mut names: Vec<Parameter> = Vec::new();
    let mut i: usize = from;
    proof {
        let whole = translate_parameters_model(all.subrange(from as int, end));
        if whole is Ok {
            assert(names_of(names@) + whole->Ok_0 =~= whole->Ok_0);
        }
    }
    while i < parameters.len()
        invariant
            from <= i <= parameters.len(),
            all == nodes_view(parameters@),
            end == parameters.len(),
            translate_parameters_model(all.subrange(from as int, end)) == (
            match translate_parameters_model(all.subrange(i as int, end)) {
                Ok(others) => Ok(names_of(names@) + others),
                Err(error) => Err(error),
            }),
        decreases parameters.len() - i,
    {
        let ghost before = names_of(names@);
        proof {
            let here = all.subrange(i as int, end);
            assert(here[0] == all[i as int]);
            assert(here.drop_first() == all.subrange(i + 1, end));
        }
        match &parameters[i] {
            Node::Leaf { token: Token::Identifier { name } } => {
                names.push(Parameter { name: name.clone() });
                proof {
                    assert(names_of(names@) =~= before + seq![name@]);
                    let rest = translate_parameters_model(all.subrange(i + 1, end));
                    if rest is Ok {
                        assert(before + (seq![name@] + rest->Ok_0) =~= (before + seq![name@])
                            + rest->Ok_0);
                    }
                }
            },
            _ => {
                return Err(LisrParseError::UnexpectedExpressionForLambdaParameter);
            },
        }
        i = i + 1;
    }
    proof {
        assert(all.subrange(i as int, end).len() == 0);
        assert(names_of(names@) + Seq::<Seq<char>>::empty() =~= names_of(names@));
    }
    Ok(names)
}

fn translate_node(node: &Node) -> (result: Result<Expression, LisrParseError>)
    requires
        node_well_formed(node@),
    ensures
        translated_view(result) == translate_node_model(node@),
    decreases node, 0nat,
{
    match node {
        Node::Leaf { token } => translate_leaf(token),
        Node::List { elements } => {
            proof {
                lemma_list_view(*elements);
            }
            translate_list(elements)
        },
    }
}

/// Translates the elements from `from` on, in order.
fn translate_rest(elements: &VecDeque<Node>, from: usize) -> (result: Result<
    Vec<Expression>,
    LisrParseError,
>)
    requires
        from <= elements.len(),
        nodes_well_formed(nodes_view(elements@)),
    ensures
        translated_all_view(result) == translate_model(
            nodes_view(elements@).subrange(from as int, elements.len() as int),
        ),
    decreases elements, 0nat,
{
    let ghost all = nodes_view(elements@);
    let ghost end = elements.len() as int;
    let mut expressions: Vec<Expression> = Vec::new();
    let mut i: usize = from;
    proof {
        let whole = translate_model(all.subrange(from as int, end));
        if whole is Ok {
            assert(views_of(expressions@) + whole->Ok_0 =~= whole->Ok_0);
        }
    }
    while i < elements.len()
        invariant
            from <= i <= elements.len(),
            all == nodes_view(elements@),
            end == elements.len(),
            nodes_well_formed(all),
            translate_model(all.subrange(from as int, end)) == (match translate_model(
                all.subrange(i as int, end),
            ) {
                Ok(others) => Ok(views_of(expressions@) + others),
                Err(error) => Err(error),
            }),
        decreases elements.len() - i,
    {
        let ghost before = views_of(expressions@);
        proof {
            let here = all.subrange(i as int, end);
            assert(here[0] == all[i as int]);
            assert(here.drop_first() == all.subrange(i + 1, end));
            assert(node_well_formed(all[i as int]));
        }
        match translate_node(&elements[i]) {
            Ok(expression) => {
                expressions.push(expression);
                proof {
                    assert(views_of(expressions@) =~= before + seq![expression@]);
                    let rest = translate_model(all.subrange(i + 1, end));
                    if rest is Ok {
                        assert(before + (seq![expression@] + rest->Ok_0) =~= (before
                            + seq![expression@]) + rest->Ok_0);
                    }
                }
            },
            Err(error) => {
                return Err(error);
            },
        }
        i = i + 1;
    }
    proof {
        assert(all.subrange(i as int, end).len() == 0);
        assert(views_of(expressions@) + Seq::<ExpressionView>::empty() =~= views_of(
            expressions@,
        ));
    }
    Ok(expressions)
}

fn create_application(elements: &VecDeque<Node>) -> (result: Result<
    Expression,
    LisrParseError,
>)
    requires
        elements.len() > 0,
        nodes_well_formed(nodes_view(elements@)),
    ensures
        translated_view(result) == create_application_model(nodes_view(elements@)),
    decreases elements, 1nat,
{
    assert(node_well_formed(nodes_view(elements@)[0]));
    let procedure = match translate_node(&elements[0]) {
        Ok(procedure) => procedure,
        Err(error) => {
            return Err(error);
        },
    };
    let arguments = match translate_rest(elements, 1) {
        Ok(arguments) => arguments,
        Err(error) => {
            return Err(error);
        },
    };
    Ok(Expression::Application { procedure: Box::new(procedure), arguments })
}

fn create_assignment(elements: &VecDeque<Node>) -> (result: Result<Expression, LisrParseError>)
    requires
        elements.len() > 0,
        nodes_well_formed(nodes_view(elements@)),
    ensures
        translated_view(result) == create_assignment_model(nodes_view(elements@).drop_first()),
    decreases elements, 1nat,
{
    if elements.len() != 3 {
        // An assignment takes a variable and a value, no less and no more.
        return Err(LisrParseError::AssignmentRequiresOneVariableAndOneValue);
    }
    assert(node_well_formed(nodes_view(elements@)[2]));
    match &elements[1] {
        Node::Leaf { token: Token::Identifier { name } } => {
            match translate_node(&elements[2]) {
                Ok(value) => Ok(
                    Expression::Assignment {
                        variable: Identifier { name: name.clone() },
                        value: Box::new(value),
                    },
                ),
                Err(error) => Err(error),
            }
        },
        _ => Err(LisrParseError::AssignmentRequiresOneVariableAndOneValue),
    }
}

fn create_lambda(parameters: &VecDeque<Node>, from: usize, body: &Node) -> (result: Result<
    Expression,
    LisrParseError,
>)
    requires
        from <= parameters.len(),
        node_well_formed(body@),
    ensures
        translated_view(result) == create_lambda_model(
            nodes_view(parameters@).subrange(from as int, parameters.len() as int),
            body@,
        ),
    decreases body, 1nat,
{
    let parameters = match translate_parameters(parameters, from) {
        Ok(parameters) => parameters,
        Err(error) => {
            return Err(error);
        },
    };
    match translate_node(body) {
        Ok(body) => Ok(Expression::Lambda { parameters, body: Box::new(body) }),
        Err(error) => Err(error),
    }
}

fn create_definition(elements: &VecDeque<Node>) -> (result: Result<Expression, LisrParseError>)
    requires
        elements.len() > 0,
        nodes_well_formed(nodes_view(elements@)),
    ensures
        translated_view(result) == create_definition_model(nodes_view(elements@).drop_first()),
    decreases elements, 1nat,
{
    if elements.len() < 3 {
        return Err(LisrParseError::DefinitionRequiresVariableAndBody);
    }
    assert(node_well_formed(nodes_view(elements@)[2]));
    match &elements[1] {
        // The definition of a variable.
        Node::Leaf { token: Token::Identifier { name } } => {
            match translate_node(&elements[2]) {
                Ok(value) => Ok(
                    Expression::Definition {
                        variable: Identifier { name: name.clone() },
                        value: Box::new(value),
                    },
                ),
                Err(error) => Err(error),
            }
        },
        // The definition of a function.
        Node::List { elements: signature } => {
            proof {
                lemma_list_view(*signature);
            }
            if signature.len() == 0 {
                return Err(LisrParseError::VariableRequiredInThisContext);
            }
            match &signature[0] {
                Node::Leaf { token: Token::Identifier { name } } => {
                    assert(nodes_view(signature@).drop_first() == nodes_view(signature@).subrange(
                        1,
                        signature.len() as int,
                    ));
                    match create_lambda(signature, 1, &elements[2]) {
                        Ok(lambda) => Ok(
                            Expression::Definition {
                                variable: Identifier { name: name.clone() },
                                value: Box::new(lambda),
                            },
                        ),
                        Err(error) => Err(error),
                    }
                },
                _ => Err(LisrParseError::VariableRequiredInThisContext),
            }
        },
        _ => Err(LisrParseError::VariableRequiredInThisContext),
    }
}

fn create_if(elements: &VecDeque<Node>) -> (result: Result<Expression, LisrParseError>)
    requires
        elements.len() > 0,
        nodes_well_formed(nodes_view(elements@)),
    ensures
        translated_view(result) == create_if_model(nodes_view(elements@).drop_first()),
    decreases elements, 1nat,
{
    if elements.len() != 4 {
        // An if takes a predicate, a consequent and an alternative, no less
        // and no more.
        return Err(LisrParseError::IfRequiresPredicateConsequentAndAlternative);
    }
    assert(node_well_formed(nodes_view(elements@)[1]));
    assert(node_well_formed(nodes_view(elements@)[2]));
    assert(node_well_formed(nodes_view(elements@)[3]));
    let predicate = match translate_node(&elements[1]) {
        Ok(predicate) => predicate,
        Err(error) => {
            return Err(error);
        },
    };
    let consequent = match translate_node(&elements[2]) {
        Ok(consequent) => consequent,
        Err(error) => {
            return Err(error);
        },
    };
    let alternative = match translate_node(&elements[3]) {
        Ok(alternative) => alternative,
        Err(error) => {
            return Err(error);
        },
    };
    Ok(
        Expression::If {
            predicate: Box::new(predicate),
            consequent: Box::new(consequent),
            alternative: Box::new(alternative),
        },
    )
}

fn create_and(elements: &VecDeque<Node>) -> (result: Result<Expression, LisrParseError>)
    requires
        elements.len() > 0,
        nodes_well_formed(nodes_view(elements@)),
    ensures
        translated_view(result) == (match translate_model(nodes_view(elements@).drop_first()) {
            Ok(operands) => Ok(ExpressionView::And { operands }),
            Err(error) => Err(error),
        }),
    decreases elements, 1nat,
{
    match translate_rest(elements, 1) {
        Ok(operands) => Ok(Expression::And { operands }),
        Err(error) => Err(error),
    }
}

fn create_or(elements: &VecDeque<Node>) -> (result: Result<Expression, LisrParseError>)
    requires
        elements.len() > 0,
        nodes_well_formed(nodes_view(elements@)),
    ensures
        translated_view(result) == (match translate_model(nodes_view(elements@).drop_first()) {
            Ok(operands) => Ok(ExpressionView::Or { operands }),
            Err(error) => Err(error),
        }),
    decreases elements, 1nat,
{
    match translate_rest(elements, 1) {
        Ok(operands) => Ok(Expression::Or { operands }),
        Err(error) => Err(error),
    }
}

fn create_begin(elements: &VecDeque<Node>) -> (result: Result<Expression, LisrParseError>)
    requires
        elements.len() > 0,
        nodes_well_formed(nodes_view(elements@)),
    ensures
        translated_view(result) == (match translate_model(nodes_view(elements@).drop_first()) {
            Ok(sequence) => Ok(ExpressionView::Begin { sequence }),
            Err(error) => Err(error),
        }),
    decreases elements, 1nat,
{
    match translate_rest(elements, 1) {
        Ok(sequence) => Ok(Expression::Begin { sequence }),
        Err(error) => Err(error),
    }
}

fn create_cons(elements: &VecDeque<Node>) -> (result: Result<Expression, LisrParseError>)
    requires
        elements.len() > 0,
        nodes_well_formed(nodes_view(elements@)),
    ensures
        translated_view(result) == create_cons_model(nodes_view(elements@).drop_first()),
    decreases elements, 1nat,
{
    if elements.len() != 3 {
        return Err(LisrParseError::ConsRequiresTwoArguments);
    }
    assert(node_well_formed(nodes_view(elements@)[1]));
    assert(node_well_formed(nodes_view(elements@)[2]));
    let first = match translate_node(&elements[1]) {
        Ok(first) => first,
        Err(error) => {
            return Err(error);
        },
    };
    match translate_node(&elements[2]) {
        Ok(rest) => Ok(Expression::Cons { first: Box::new(first), rest: Box::new(rest) }),
        Err(error) => Err(error),
    }
}

fn translate_list(elements: &VecDeque<Node>) -> (result: Result<Expression, LisrParseError>)
    requires
        nodes_well_formed(nodes_view(elements@)),
    ensures
        translated_view(result) == translate_list_model(nodes_view(elements@)),
    decreases elements, 2nat,
{
    if elements.len() == 0 {
        // The empty list stands for itself.
        return Ok(Expression::EmptyList);
    }
    assert(node_well_formed(nodes_view(elements@)[0]));
    assert(nodes_view(elements@).drop_first() == nodes_view(elements@).subrange(
        1,
        elements.len() as int,
    ));
    match &elements[0] {
        Node::Leaf { token } => match token {
            Token::String { .. }
            | Token::Number { .. }
            | Token::Quotation { .. }
            | Token::True
            | Token::False => Err(LisrParseError::ObjectNotInvokable),
            Token::Identifier { .. } => create_application(elements),
            Token::SetBang => create_assignment(elements),
            Token::Define => create_definition(elements),
            Token::If => create_if(elements),
            Token::And => create_and(elements),
            Token::Or => create_or(elements),
            Token::Lambda => {
                if elements.len() < 3 {
                    return Err(LisrParseError::LambdaRequiresParameterListAndBody);
                }
                assert(node_well_formed(nodes_view(elements@)[2]));
                match &elements[1] {
                    Node::List { elements: parameters } => {
                        proof {
                            lemma_list_view(*parameters);
                            assert(nodes_view(parameters@).subrange(0, parameters.len() as int)
                                == nodes_view(parameters@));
                        }
                        create_lambda(parameters, 0, &elements[2])
                    },
                    _ => Err(LisrParseError::LambdaRequiresParameterListAndBody),
                }
            },
            Token::Begin => create_begin(elements),
            Token::Cons => create_cons(elements),
            Token::LeftParen | Token::RightParen => {
                proof {
                    assert(false);
                }
                Ok(Expression::EmptyList)
            },
        },
        // A list in the first place is a procedure to apply.
        Node::List { .. } => create_application(elements),
    }
}

/// Translates nodes into the expressions that they stand for.
///
/// No leaf may hold a parenthesis. The nodes that the parser builds are so.
pub fn translate(nodes: Vec<Node>) -> (result: Result<Vec<Expression>, LisrParseError>)
    requires
        nodes_well_formed(nodes_view(nodes@)),
    ensures
        translated_all_view(result) == translate_model(nodes_view(nodes@)),
{
    let ghost all = nodes_view(nodes@);
    let ghost end = nodes.len() as int;
    let mut expressions: Vec<Expression> = Vec::new();
    let mut i: usize = 0;
    proof {
        assert(all.subrange(0, end) == all);
        let whole = translate_model(all);
        if whole is Ok {
            assert(views_of(expressions@) + whole->Ok_0 =~= whole->Ok_0);
        }
    }
    while i < nodes.len()
        invariant
            i <= nodes.len(),
            all == nodes_view(nodes@),
            end == nodes.len(),
            nodes_well_formed(all),
            translate_model(all) == (match translate_model(all.subrange(i as int, end)) {
                Ok(others) => Ok(views_of(expressions@) + others),
                Err(error) => Err(error),
            }),
        decreases nodes.len() - i,
    {
        let ghost before = views_of(expressions@);
        proof {
            let here = all.subrange(i as int, end);
            assert(here[0] == all[i as int]);
            assert(here.drop_first() == all.subrange(i + 1, end));
            assert(node_well_formed(all[i as int]));
        }
        match translate_node(&nodes[i]) {
            Ok(expression) => {
                expressions.push(expression);
                proof {
                    assert(views_of(expressions@) =~= before + seq![expression@]);
                    let rest = translate_model(all.subrange(i + 1, end));
                    if rest is Ok {
                        assert(before + (seq![expression@] + rest->Ok_0) =~= (before
                            + seq![expression@]) + rest->Ok_0);
                    }
                }
            },
            Err(error) => {
                return Err(error);
            },
        }
        i = i + 1;
    }
    proof {
        assert(all.subrange(i as int, end).len() == 0);
        assert(views_of(expressions@) + Seq::<ExpressionView>::empty() =~= views_of(
            expressions@,
        ));
    }
    Ok(expressions)
}

} // verus!
