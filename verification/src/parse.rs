//! The parser: from tokens to nodes.
//!
//! The grammar:
//!
//! ```text
//! node <- list | leaf
//! list <- "(" { node } ")"
//! leaf <- any token but a parenthesis
//! ```

use vstd::prelude::*;
use std::collections::VecDeque;
use crate::node::{
    flatten_node, flatten_nodes, node_view, node_well_formed, nodes_view, nodes_well_formed, Node,
    NodeView,
};
use crate::token::{tokens_view, Token, TokenView};

verus! {

/// What can be wrong with the tokens of a program, and with the nodes that
/// are made of them.
#[derive(Debug, Clone, Copy, PartialEq, Eq, Structural)]
pub enum LisrParseError {
    UnexpectedRightParentheses,
    UnclosedList,
    ObjectNotInvokable,
    VariableRequiredInThisContext,
    AssignmentRequiresOneVariableAndOneValue,
    IfRequiresPredicateConsequentAndAlternative,
    LambdaRequiresParameterListAndBody,
    UnexpectedExpressionForLambdaParameter,
    DefinitionRequiresVariableAndBody,
    ConsRequiresTwoArguments,
}

/// The node that starts at `from`, and the place after it.
pub open spec fn parse_list_model(tokens: Seq<TokenView>, from: int) -> Result<
    (NodeView, int),
    LisrParseError,
>
    recommends
        0 <= from < tokens.len(),
    decreases tokens.len() - from, 0nat,
{
    if !(0 <= from < tokens.len()) {
        Err(LisrParseError::UnclosedList)
    } else {
        match tokens[from] {
            TokenView::LeftParen => match parse_list_elements_model(tokens, from + 1) {
                Ok((elements, next)) => Ok((NodeView::List { elements }, next)),
                Err(error) => Err(error),
            },
            TokenView::RightParen => Err(LisrParseError::UnexpectedRightParentheses),
            token => Ok((NodeView::Leaf { token }, from + 1)),
        }
    }
}

/// The nodes from `from` up to the right parenthesis that closes the list
/// they stand in, and the place after that parenthesis.
pub open spec fn parse_list_elements_model(tokens: Seq<TokenView>, from: int) -> Result<
    (Seq<NodeView>, int),
    LisrParseError,
>
    decreases tokens.len() - from, 1nat,
{
    if !(0 <= from < tokens.len()) {
        Err(LisrParseError::UnclosedList)
    } else if tokens[from] is RightParen {
        Ok((Seq::empty(), from + 1))
    } else {
        match parse_list_model(tokens, from) {
            Ok((node, next)) => if from < next <= tokens.len() {
                match parse_list_elements_model(tokens, next) {
                    Ok((others, end)) => Ok((seq![node] + others, end)),
                    Err(error) => Err(error),
                }
            } else {
                // A node holds a token at least, and no more than there are: this
                // is never the case.
                Err(LisrParseError::UnclosedList)
            },
            Err(error) => Err(error),
        }
    }
}

/// A node that was parsed ends after the place where it starts, within the
/// tokens; so do the elements of a list.
pub proof fn lemma_parse_advances(tokens: Seq<TokenView>, from: int)
    requires
        0 <= from,
    ensures
        parse_list_model(tokens, from) is Ok ==> from < parse_list_model(tokens, from)->Ok_0.1
            <= tokens.len(),
        parse_list_elements_model(tokens, from) is Ok ==> from < parse_list_elements_model(
            tokens,
            from,
        )->Ok_0.1 <= tokens.len(),
    decreases tokens.len() - from,
{
    if from < tokens.len() {
        lemma_parse_advances(tokens, from + 1);
        if !(tokens[from] is RightParen) && parse_list_model(tokens, from) is Ok {
            let next = parse_list_model(tokens, from)->Ok_0.1;
            if tokens[from] is LeftParen {
                assert(next == parse_list_elements_model(tokens, from + 1)->Ok_0.1);
            }
            lemma_parse_advances(tokens, next);
        }
    }
}

/// The nodes from `from` to the end of the tokens.
pub open spec fn parse_model(tokens: Seq<TokenView>, from: int) -> Result<
    Seq<NodeView>,
    LisrParseError,
>
    decreases tokens.len() - from,
{
    if !(0 <= from < tokens.len()) {
        Ok(Seq::empty())
    } else {
        match parse_list_model(tokens, from) {
            Ok((node, next)) => {
                proof {
                    lemma_parse_advances(tokens, from);
                }
                match parse_model(tokens, next) {
                    Ok(others) => Ok(seq![node] + others),
                    Err(error) => Err(error),
                }
            },
            Err(error) => Err(error),
        }
    }
}

/// No leaf of a node that was parsed holds a parenthesis.
pub proof fn lemma_parse_list_well_formed(tokens: Seq<TokenView>, from: int)
    requires
        0 <= from,
    ensures
        parse_list_model(tokens, from) is Ok ==> node_well_formed(
            parse_list_model(tokens, from)->Ok_0.0,
        ),
        parse_list_elements_model(tokens, from) is Ok ==> nodes_well_formed(
            parse_list_elements_model(tokens, from)->Ok_0.0,
        ),
    decreases tokens.len() - from,
{
    if from < tokens.len() {
        lemma_parse_list_well_formed(tokens, from + 1);
        lemma_parse_advances(tokens, from);
        if !(tokens[from] is RightParen) && parse_list_model(tokens, from) is Ok {
            let (node, next) = parse_list_model(tokens, from)->Ok_0;
            lemma_parse_list_well_formed(tokens, next);
            if parse_list_elements_model(tokens, from) is Ok {
                let others = parse_list_elements_model(tokens, next)->Ok_0.0;
                let all = parse_list_elements_model(tokens, from)->Ok_0.0;
                assert(all == seq![node] + others);
                assert forall|i: int| 0 <= i < all.len() implies node_well_formed(
                    #[trigger] all[i],
                ) by {
                    if i > 0 {
                        assert(all[i] == others[i - 1]);
                    }
                }
            }
        }
    }
}

/// No leaf of the nodes of a program that was parsed holds a parenthesis.
pub proof fn lemma_parse_well_formed(tokens: Seq<TokenView>, from: int)
    requires
        0 <= from,
    ensures
        parse_model(tokens, from) is Ok ==> nodes_well_formed(parse_model(tokens, from)->Ok_0),
    decreases tokens.len() - from,
{
    if from < tokens.len() && parse_list_model(tokens, from) is Ok {
        let (node, next) = parse_list_model(tokens, from)->Ok_0;
        lemma_parse_advances(tokens, from);
        lemma_parse_list_well_formed(tokens, from);
        lemma_parse_well_formed(tokens, next);
        if parse_model(tokens, from) is Ok {
            let others = parse_model(tokens, next)->Ok_0;
            let all = parse_model(tokens, from)->Ok_0;
            assert(all == seq![node] + others);
            assert forall|i: int| 0 <= i < all.len() implies node_well_formed(
                #[trigger] all[i],
            ) by {
                if i > 0 {
                    assert(all[i] == others[i - 1]);
                }
            }
        }
    }
}

/// The model of what parsing one node comes to.
pub open spec fn parsed_node_view(result: Result<(Node, usize), LisrParseError>) -> Result<
    (NodeView, int),
    LisrParseError,
> {
    match result {
        Ok((node, next)) => Ok((node@, next as int)),
        Err(error) => Err(error),
    }
}

/// The model of what parsing the elements of a list comes to.
pub open spec fn parsed_elements_view(
    result: Result<(VecDeque<Node>, usize), LisrParseError>,
) -> Result<(Seq<NodeView>, int), LisrParseError> {
    match result {
        Ok((elements, next)) => Ok((nodes_view(elements@), next as int)),
        Err(error) => Err(error),
    }
}

/// The model of what parsing comes to.
pub open spec fn parse_result_view(result: Result<Vec<Node>, LisrParseError>) -> Result<
    Seq<NodeView>,
    LisrParseError,
> {
    match result {
        Ok(nodes) => Ok(nodes_view(nodes@)),
        Err(error) => Err(error),
    }
}

fn parse_list(tokens: &Vec<Token>, from: usize) -> (result: Result<(Node, usize), LisrParseError>)
    requires
        from < tokens.len(),
    ensures
        parsed_node_view(result) == parse_list_model(tokens_view(tokens@), from as int),
    decreases tokens.len() - from, 0nat,
{
    match &tokens[from] {
        Token::LeftParen => {
            match parse_list_elements(tokens, from + 1) {
                Ok((elements, next)) => {
                    let node = Node::List { elements };
                    assert(node@->elements =~= nodes_view(elements@));
                    Ok((node, next))
                },
                Err(error) => Err(error),
            }
        },
        Token::RightParen => Err(LisrParseError::UnexpectedRightParentheses),
        token => Ok((Node::Leaf { token: token.duplicate() }, from + 1)),
    }
}

fn parse_list_elements(tokens: &Vec<Token>, from: usize) -> (result: Result<
    (VecDeque<Node>, usize),
    LisrParseError,
>)
    requires
        from <= tokens.len(),
    ensures
        parsed_elements_view(result) == parse_list_elements_model(
            tokens_view(tokens@),
            from as int,
        ),
    decreases tokens.len() - from, 1nat,
{
    let mut elements: VecDeque<Node> = VecDeque::new();
    let mut position: usize = from;
    let ghost model = tokens_view(tokens@);
    proof {
        assert(nodes_view(elements@) =~= Seq::<NodeView>::empty());
    }
    while position < tokens.len()
        invariant
            from <= position <= tokens.len(),
            model == tokens_view(tokens@),
            parse_list_elements_model(model, from as int) == (match parse_list_elements_model(
                model,
                position as int,
            ) {
                Ok((others, end)) => Ok((nodes_view(elements@) + others, end)),
                Err(error) => Err(error),
            }),
        decreases tokens.len() - position,
    {
        let ghost before = nodes_view(elements@);
        if let Token::RightParen = &tokens[position] {
            proof {
                assert(before + Seq::<NodeView>::empty() =~= before);
            }
            return Ok((elements, position + 1));
        }
        proof {
            lemma_parse_advances(model, position as int);
        }
        match parse_list(tokens, position) {
            Ok((node, next)) => {
                elements.push_back(node);
                proof {
                    assert(nodes_view(elements@) =~= before + seq![node@]);
                    let rest = parse_list_elements_model(model, next as int);
                    if rest is Ok {
                        assert(before + (seq![node@] + rest->Ok_0.0) =~= (before + seq![node@])
                            + rest->Ok_0.0);
                    }
                }
                position = next;
            },
            Err(error) => {
                return Err(error);
            },
        }
    }
    Err(LisrParseError::UnclosedList)
}

/// Parses tokens into the nodes that they spell.
pub fn parse(tokens: Vec<Token>) -> (result: Result<Vec<Node>, LisrParseError>)
    ensures
        parse_result_view(result) == parse_model(tokens_view(tokens@), 0),
        result is Ok ==> nodes_well_formed(nodes_view(result->Ok_0@)),
        result is Ok ==> flatten_nodes(nodes_view(result->Ok_0@)) == tokens_view(tokens@),
{
    proof {
        let model = tokens_view(tokens@);
        lemma_parse_well_formed(model, 0);
        if parse_model(model, 0) is Ok {
            law_parse_flattens(model, 0);
            assert(model.subrange(0, model.len() as int) == model);
        }
    }
    let mut nodes: Vec<Node> = Vec::new();
    let mut position: usize = 0;
    let ghost model = tokens_view(tokens@);
    proof {
        assert(nodes_view(nodes@) =~= Seq::<NodeView>::empty());
        if parse_model(model, 0) is Ok {
            assert(Seq::<NodeView>::empty() + parse_model(model, 0)->Ok_0 =~= parse_model(
                model,
                0,
            )->Ok_0);
        }
    }
    while position < tokens.len()
        invariant
            position <= tokens.len(),
            model == tokens_view(tokens@),
            parse_model(model, 0) == (match parse_model(model, position as int) {
                Ok(others) => Ok(nodes_view(nodes@) + others),
                Err(error) => Err(error),
            }),
        decreases tokens.len() - position,
    {
        let ghost before = nodes_view(nodes@);
        proof {
            lemma_parse_advances(model, position as int);
        }
        match parse_list(&tokens, position) {
            Ok((node, next)) => {
                nodes.push(node);
                proof {
                    assert(nodes_view(nodes@) =~= before + seq![node@]);
                    let rest = parse_model(model, next as int);
                    if rest is Ok {
                        assert(before + (seq![node@] + rest->Ok_0) =~= (before + seq![node@])
                            + rest->Ok_0);
                    }
                }
                position = next;
            },
            Err(error) => {
                return Err(error);
            },
        }
    }
    proof {
        assert(nodes_view(nodes@) + Seq::<NodeView>::empty() =~= nodes_view(nodes@));
    }
    Ok(nodes)
}

/// A node that was parsed spells the tokens that it was parsed from; the
/// elements of a list spell the tokens up to the parenthesis that closes it.
pub proof fn lemma_parse_list_flattens(tokens: Seq<TokenView>, from: int)
    requires
        0 <= from,
    ensures
        parse_list_model(tokens, from) is Ok ==> flatten_node(
            parse_list_model(tokens, from)->Ok_0.0,
        ) == tokens.subrange(from, parse_list_model(tokens, from)->Ok_0.1),
        parse_list_elements_model(tokens, from) is Ok ==> flatten_nodes(
            parse_list_elements_model(tokens, from)->Ok_0.0,
        ) + seq![TokenView::RightParen] == tokens.subrange(
            from,
            parse_list_elements_model(tokens, from)->Ok_0.1,
        ),
    decreases tokens.len() - from,
{
    if from < tokens.len() {
        lemma_parse_list_flattens(tokens, from + 1);
        lemma_parse_advances(tokens, from);
        lemma_parse_advances(tokens, from + 1);
        if tokens[from] is RightParen {
            assert(flatten_nodes(Seq::<NodeView>::empty()) + seq![TokenView::RightParen]
                =~= tokens.subrange(from, from + 1));
        } else if parse_list_model(tokens, from) is Ok {
            let (node, next) = parse_list_model(tokens, from)->Ok_0;
            if tokens[from] is LeftParen {
                let elements = parse_list_elements_model(tokens, from + 1)->Ok_0.0;
                assert(flatten_node(node) =~= seq![TokenView::LeftParen] + (flatten_nodes(elements)
                    + seq![TokenView::RightParen]));
                assert(seq![TokenView::LeftParen] + tokens.subrange(from + 1, next)
                    =~= tokens.subrange(from, next));
            } else {
                assert(flatten_node(node) =~= tokens.subrange(from, next));
            }
            lemma_parse_list_flattens(tokens, next);
            lemma_parse_advances(tokens, next);
            if parse_list_elements_model(tokens, from) is Ok {
                let (others, end) = parse_list_elements_model(tokens, next)->Ok_0;
                let all = parse_list_elements_model(tokens, from)->Ok_0.0;
                assert(all == seq![node] + others);
                assert(all[0] == node);
                assert(all.drop_first() =~= others);
                assert(flatten_nodes(all) + seq![TokenView::RightParen] =~= flatten_node(node) + (
                flatten_nodes(others) + seq![TokenView::RightParen]));
                assert(tokens.subrange(from, next) + tokens.subrange(next, end)
                    =~= tokens.subrange(from, end));
            }
        }
    }
}

/// The nodes of a program spell its tokens: parsing loses no token, adds
/// none and keeps their order.
pub proof fn law_parse_flattens(tokens: Seq<TokenView>, from: int)
    requires
        0 <= from <= tokens.len(),
        parse_model(tokens, from) is Ok,
    ensures
        flatten_nodes(parse_model(tokens, from)->Ok_0) == tokens.subrange(
            from,
            tokens.len() as int,
        ),
    decreases tokens.len() - from,
{
    if from < tokens.len() {
        let (node, next) = parse_list_model(tokens, from)->Ok_0;
        lemma_parse_advances(tokens, from);
        lemma_parse_list_flattens(tokens, from);
        law_parse_flattens(tokens, next);
        let others = parse_model(tokens, next)->Ok_0;
        let all = parse_model(tokens, from)->Ok_0;
        assert(all == seq![node] + others);
        assert(all[0] == node);
        assert(all.drop_first() =~= others);
        assert(tokens.subrange(from, next) + tokens.subrange(next, tokens.len() as int)
            =~= tokens.subrange(from, tokens.len() as int));
    } else {
        assert(tokens.subrange(from, tokens.len() as int) =~= Seq::<TokenView>::empty());
    }
}

/// Where the tokens from `from` on start with the spelling of a node,
/// that node is parsed there.
pub proof fn lemma_parse_node_of_flattened(tokens: Seq<TokenView>, from: int, node: NodeView)
    requires
        0 <= from,
        node_well_formed(node),
        from + flatten_node(node).len() <= tokens.len(),
        tokens.subrange(from, from + flatten_node(node).len()) == flatten_node(node),
    ensures
        parse_list_model(tokens, from) == Ok::<(NodeView, int), LisrParseError>(
            (node, from + flatten_node(node).len()),
        ),
    decreases node, 0nat,
{
    let spelled = flatten_node(node);
    assert(tokens[from] == tokens.subrange(from, from + spelled.len())[0]);
    match node {
        NodeView::Leaf { token } => {},
        NodeView::List { elements } => {
            let within = flatten_nodes(elements);
            assert(spelled.len() == within.len() + 2);
            assert(tokens.subrange(from + 1, from + 1 + within.len() + 1) =~= within
                + seq![TokenView::RightParen]) by {
                assert forall|i: int| 0 <= i < within.len() + 1 implies tokens.subrange(
                    from + 1,
                    from + 1 + within.len() + 1,
                )[i] == (within + seq![TokenView::RightParen])[i] by {
                    assert(tokens[from + 1 + i] == tokens.subrange(from, from + spelled.len())[i
                        + 1]);
                }
            }
            assert(nodes_well_formed(elements));
            lemma_parse_elements_of_flattened(tokens, from + 1, elements);
        },
    }
}

/// Where the tokens from `from` on start with the spelling of some nodes
/// and a right parenthesis, those nodes are parsed as the elements of a list.
pub proof fn lemma_parse_elements_of_flattened(
    tokens: Seq<TokenView>,
    from: int,
    elements: Seq<NodeView>,
)
    requires
        0 <= from,
        nodes_well_formed(elements),
        from + flatten_nodes(elements).len() + 1 <= tokens.len(),
        tokens.subrange(from, from + flatten_nodes(elements).len() + 1) == flatten_nodes(elements)
            + seq![TokenView::RightParen],
    ensures
        parse_list_elements_model(tokens, from) == Ok::<(Seq<NodeView>, int), LisrParseError>(
            (elements, from + flatten_nodes(elements).len() + 1),
        ),
    decreases elements, 1nat,
{
    let spelled = flatten_nodes(elements) + seq![TokenView::RightParen];
    assert(tokens[from] == tokens.subrange(from, from + spelled.len())[0]);
    if elements.len() > 0 {
        let first = elements[0];
        let others = elements.drop_first();
        let head = flatten_node(first);
        let tail = flatten_nodes(others);
        assert(node_well_formed(first));
        assert forall|i: int| 0 <= i < others.len() implies node_well_formed(#[trigger] others[i]) by {
            assert(others[i] == elements[i + 1]);
        }
        lemma_flatten_node_starts(first);
        assert(spelled[0] == head[0]);
        assert(tokens.subrange(from, from + head.len()) =~= head) by {
            assert forall|i: int| 0 <= i < head.len() implies tokens.subrange(
                from,
                from + head.len(),
            )[i] == head[i] by {
                assert(tokens[from + i] == tokens.subrange(from, from + spelled.len())[i]);
            }
        }
        lemma_parse_node_of_flattened(tokens, from, first);
        let next = from + head.len();
        assert(tokens.subrange(next, next + tail.len() + 1) =~= tail + seq![
            TokenView::RightParen,
        ]) by {
            assert forall|i: int| 0 <= i < tail.len() + 1 implies tokens.subrange(
                next,
                next + tail.len() + 1,
            )[i] == (tail + seq![TokenView::RightParen])[i] by {
                assert(tokens[next + i] == tokens.subrange(from, from + spelled.len())[head.len()
                    + i]);
            }
        }
        lemma_parse_elements_of_flattened(tokens, next, others);
        assert(seq![first] + others =~= elements);
    } else {
        assert(elements =~= Seq::<NodeView>::empty());
    }
}

/// The spelling of a well-formed node holds a token at least, and does
/// not start with a right parenthesis.
pub proof fn lemma_flatten_node_starts(node: NodeView)
    requires
        node_well_formed(node),
    ensures
        flatten_node(node).len() > 0,
        !(flatten_node(node)[0] is RightParen),
{
}

/// Parsing undoes spelling: the tokens that spell well-formed nodes parse
/// into those very nodes. With the law before, the nodes of a program are
/// the one sequence of well-formed nodes that spells its tokens.
pub proof fn law_parse_of_flattened(nodes: Seq<NodeView>)
    requires
        nodes_well_formed(nodes),
    ensures
        parse_model(flatten_nodes(nodes), 0) == Ok::<Seq<NodeView>, LisrParseError>(nodes),
{
    let tokens = flatten_nodes(nodes);
    assert(tokens.subrange(0, tokens.len() as int) =~= tokens);
    lemma_parse_of_flattened_from(tokens, 0, nodes);
}

/// Where the tokens from `from` on spell well-formed nodes, those are
/// parsed there.
proof fn lemma_parse_of_flattened_from(tokens: Seq<TokenView>, from: int, nodes: Seq<NodeView>)
    requires
        0 <= from <= tokens.len(),
        nodes_well_formed(nodes),
        tokens.subrange(from, tokens.len() as int) == flatten_nodes(nodes),
    ensures
        parse_model(tokens, from) == Ok::<Seq<NodeView>, LisrParseError>(nodes),
    decreases nodes.len(),
{
    if nodes.len() == 0 {
        assert(tokens.subrange(from, tokens.len() as int).len() == 0);
        assert(nodes =~= Seq::<NodeView>::empty());
    } else {
        let first = nodes[0];
        let others = nodes.drop_first();
        let head = flatten_node(first);
        let tail = flatten_nodes(others);
        let rest = tokens.subrange(from, tokens.len() as int);
        assert(node_well_formed(first));
        assert forall|i: int| 0 <= i < others.len() implies node_well_formed(#[trigger] others[i]) by {
            assert(others[i] == nodes[i + 1]);
        }
        lemma_flatten_node_starts(first);
        assert(rest.len() == head.len() + tail.len());
        assert(tokens.subrange(from, from + head.len()) =~= head) by {
            assert forall|i: int| 0 <= i < head.len() implies tokens.subrange(
                from,
                from + head.len(),
            )[i] == head[i] by {
                assert(tokens[from + i] == rest[i]);
            }
        }
        lemma_parse_node_of_flattened(tokens, from, first);
        let next = from + head.len();
        assert(tokens.subrange(next, tokens.len() as int) =~= tail) by {
            assert forall|i: int| 0 <= i < tail.len() implies tokens.subrange(
                next,
                tokens.len() as int,
            )[i] == tail[i] by {
                assert(tokens[next + i] == rest[head.len() + i]);
            }
        }
        lemma_parse_of_flattened_from(tokens, next, others);
        assert(seq![first] + others =~= nodes);
    }
}

/// How many more left than right parentheses there are among the first
/// `upto` tokens.
pub open spec fn depth(tokens: Seq<TokenView>, upto: int) -> int
    decreases upto,
{
    if upto <= 0 || upto > tokens.len() {
        0
    } else if tokens[upto - 1] is LeftParen {
        depth(tokens, upto - 1) + 1
    } else if tokens[upto - 1] is RightParen {
        depth(tokens, upto - 1) - 1
    } else {
        depth(tokens, upto - 1)
    }
}

/// Whether the parentheses of the first `upto` tokens never close more
/// than was opened, from `from` on.
pub open spec fn never_below(tokens: Seq<TokenView>, from: int, upto: int, level: int) -> bool {
    forall|p: int| from <= p <= upto ==> #[trigger] depth(tokens, p) >= level
}

/// A node that is parsed leaves the depth as it found it and never goes
/// below that; the elements of a list end one level below. A node fails
/// with a right parenthesis in its first place, or at the end of the tokens
/// without having gone below; elements fail at the end of the tokens only.
pub proof fn lemma_parse_list_depth(tokens: Seq<TokenView>, from: int)
    requires
        0 <= from <= tokens.len(),
    ensures
        match parse_list_model(tokens, from) {
            Ok((_, next)) => depth(tokens, next) == depth(tokens, from) && never_below(
                tokens,
                from,
                next,
                depth(tokens, from),
            ),
            Err(error) => (from < tokens.len() && tokens[from] is RightParen && error
                == LisrParseError::UnexpectedRightParentheses) || (error
                == LisrParseError::UnclosedList && never_below(
                tokens,
                from,
                tokens.len() as int,
                depth(tokens, from),
            ) && never_below(tokens, from + 1, tokens.len() as int, depth(tokens, from) + 1)),
        },
        match parse_list_elements_model(tokens, from) {
            Ok((_, next)) => depth(tokens, next) == depth(tokens, from) - 1 && never_below(
                tokens,
                from,
                next - 1,
                depth(tokens, from),
            ),
            Err(error) => error == LisrParseError::UnclosedList && never_below(
                tokens,
                from,
                tokens.len() as int,
                depth(tokens, from),
            ),
        },
    decreases tokens.len() - from,
{
    if from < tokens.len() {
        lemma_parse_list_depth(tokens, from + 1);
        lemma_parse_advances(tokens, from);
        lemma_parse_advances(tokens, from + 1);
        let level = depth(tokens, from);
        assert(depth(tokens, from + 1) == level + (if tokens[from] is LeftParen {
            1int
        } else if tokens[from] is RightParen {
            -1int
        } else {
            0int
        }));
        if !(tokens[from] is RightParen) {
            match parse_list_model(tokens, from) {
                Ok((_, next)) => {
                    lemma_parse_list_depth(tokens, next);
                },
                Err(_) => {},
            }
        }
    }
}

/// Parsing fails where the parentheses do not match, and only there: with
/// `UnexpectedRightParentheses` where, somewhere, more have closed than were
/// opened; with `UnclosedList` where that is nowhere so and more were opened
/// than have closed in the end. It succeeds where neither is the case.
pub proof fn law_parse_errors(tokens: Seq<TokenView>)
    ensures
        match parse_model(tokens, 0) {
            Ok(_) => never_below(tokens, 0, tokens.len() as int, 0) && depth(
                tokens,
                tokens.len() as int,
            ) == 0,
            Err(error) => (error == LisrParseError::UnexpectedRightParentheses && !never_below(
                tokens,
                0,
                tokens.len() as int,
                0,
            )) || (error == LisrParseError::UnclosedList && never_below(
                tokens,
                0,
                tokens.len() as int,
                0,
            ) && depth(tokens, tokens.len() as int) > 0),
        },
{
    lemma_parse_depth_from(tokens, 0);
}

/// The same, from a place between two nodes of the program on.
proof fn lemma_parse_depth_from(tokens: Seq<TokenView>, from: int)
    requires
        0 <= from <= tokens.len(),
        depth(tokens, from) == 0,
        never_below(tokens, 0, from, 0),
    ensures
        match parse_model(tokens, from) {
            Ok(_) => never_below(tokens, 0, tokens.len() as int, 0) && depth(
                tokens,
                tokens.len() as int,
            ) == 0,
            Err(error) => (error == LisrParseError::UnexpectedRightParentheses && !never_below(
                tokens,
                0,
                tokens.len() as int,
                0,
            )) || (error == LisrParseError::UnclosedList && never_below(
                tokens,
                0,
                tokens.len() as int,
                0,
            ) && depth(tokens, tokens.len() as int) > 0),
        },
    decreases tokens.len() - from,
{
    if from < tokens.len() {
        lemma_parse_list_depth(tokens, from);
        lemma_parse_advances(tokens, from);
        match parse_list_model(tokens, from) {
            Ok((_, next)) => {
                lemma_parse_depth_from(tokens, next);
            },
            Err(error) => {
                if error == LisrParseError::UnexpectedRightParentheses {
                    assert(depth(tokens, from + 1) == -1);
                } else {
                    assert(depth(tokens, tokens.len() as int) >= 1);
                }
            },
        }
    }
}

} // verus!
