//! The syntax builder: a recursive-descent parser over the filtered token
//! stream. Each grammar production is a pure function from a cursor
//! position to the node built and the next cursor position, or to the
//! `SyntaxError` naming the expected construct and what stood there.
//!
//! The grammar, one statement per top-level loop iteration:
//!
//! - `let` ident [`:` type-ident] `=` expr `;` — node `LetToken`, children
//!   `[ident, type?, expr]`;
//! - `if` expr block [`else` (block | if-stmt)] — node `IfToken`, children
//!   `[cond, then, else?]`; an `else` binds to the nearest preceding `if`;
//! - `while` expr block — node `WhileToken`, children `[cond, body]`;
//! - `fn` ident `(` params `)` [`->` type-ident] block — node `FnToken`,
//!   children `[ident, params, arrow?, block]`, the parameter list a
//!   `LeftParen` node of `ident` nodes (each with an optional type child),
//!   the return type a `RightArrow` node with one `ident` child;
//! - `return` [expr] `;` — node `ReturnToken` with zero or one child;
//! - block `{ stmt* }` — node `LeftBrace`;
//! - expressions with conventional precedence (`||`, `&&`, `==` `!=`,
//!   `<` `>` `<=` `>=`, `+` `-`, `*` `/`, unary `-` `&`, then primary), a
//!   binary node holding its operator token and two children in source
//!   order, ties at equal precedence associating left to right. A primary
//!   is an identifier, a literal, `( expr )`, an array `[ expr* ]` (a
//!   `LeftBracket` node), or a call `ident ( expr* )` (a `LeftParen` node
//!   whose first child is the callee). The token set has no list
//!   separator, so expression lists are juxtaposed, each element parsed
//!   greedily.

use vstd::prelude::*;

use crate::ast::{AstNode, NodeModel};
use crate::token::{copy_token, Expected, SyntaxError, SyntaxErrorModel, Token, TokenModel};

verus! {

/// Outcome of parsing one construct: the node built and the position just
/// after it, or the error that stopped the parse.
pub enum ParseStep {
    Parsed(NodeModel, int),
    Failed(SyntaxErrorModel),
}

/// Outcome of parsing a list of constructs.
pub enum ListStep {
    ParsedList(Seq<NodeModel>, int),
    FailedList(SyntaxErrorModel),
}

/// The error reported when `exp` was required at position `i`: it names
/// the token found there, or `None` when the stream ended too early.
pub open spec fn spec_err(t: Seq<TokenModel>, i: int, exp: Expected) -> SyntaxErrorModel {
    SyntaxErrorModel {
        expected: exp,
        found: if 0 <= i < t.len() {
            Some(t[i])
        } else {
            None
        },
        position: i,
    }
}

/// A leaf node holding one token value.
pub open spec fn spec_leaf(v: TokenModel) -> NodeModel {
    NodeModel { val: v, children: Seq::empty() }
}

/// A primary expression: identifier, call, literal, parenthesized
/// expression, or array literal.
#[verifier::opaque]
pub open spec fn spec_parse_primary(t: Seq<TokenModel>, i: int) -> ParseStep
    decreases t.len() - i, 0int,
{
    if !(0 <= i < t.len()) {
        ParseStep::Failed(spec_err(t, i, Expected::Expression))
    } else {
        match t[i] {
            TokenModel::ID(_) => if i + 1 < t.len() && t[i + 1] is LeftParen {
                match spec_parse_expr_list(t, i + 2, true) {
                    ListStep::ParsedList(args, j) => ParseStep::Parsed(
                        NodeModel { val: TokenModel::LeftParen, children: seq![spec_leaf(t[i])] + args },
                        j,
                    ),
                    ListStep::FailedList(e) => ParseStep::Failed(e),
                }
            } else {
                ParseStep::Parsed(spec_leaf(t[i]), i + 1)
            },
            TokenModel::Literal(_) => ParseStep::Parsed(spec_leaf(t[i]), i + 1),
            TokenModel::LeftParen => match spec_parse_expr(t, i + 1) {
                ParseStep::Parsed(e, j) => if j < t.len() && t[j] is RightParen {
                    ParseStep::Parsed(e, j + 1)
                } else {
                    ParseStep::Failed(spec_err(t, j, Expected::ClosingParen))
                },
                f => f,
            },
            TokenModel::LeftBracket => match spec_parse_expr_list(t, i + 1, false) {
                ListStep::ParsedList(es, j) => ParseStep::Parsed(
                    NodeModel { val: TokenModel::LeftBracket, children: es },
                    j,
                ),
                ListStep::FailedList(e) => ParseStep::Failed(e),
            },
            _ => ParseStep::Failed(spec_err(t, i, Expected::Expression)),
        }
    }
}

/// Expressions juxtaposed up to the closing bracket — `)` when
/// `close_paren`, else `]` — which is consumed.
#[verifier::opaque]
pub open spec fn spec_parse_expr_list(t: Seq<TokenModel>, i: int, close_paren: bool) -> ListStep
    decreases t.len() - i, 8int,
{
    let exp = if close_paren {
        Expected::ClosingParen
    } else {
        Expected::ClosingBracket
    };
    if !(0 <= i < t.len()) {
        ListStep::FailedList(spec_err(t, i, exp))
    } else if (close_paren && t[i] is RightParen) || (!close_paren && t[i] is RightBracket) {
        ListStep::ParsedList(Seq::empty(), i + 1)
    } else {
        match spec_parse_expr(t, i) {
            ParseStep::Parsed(e, j) => if i < j <= t.len() {
                match spec_parse_expr_list(t, j, close_paren) {
                    ListStep::ParsedList(es, k) => ListStep::ParsedList(seq![e] + es, k),
                    f => f,
                }
            } else {
                ListStep::ParsedList(seq![e], j)
            },
            ParseStep::Failed(e) => ListStep::FailedList(e),
        }
    }
}

/// A unary expression: prefix `-` or `&` applied to a unary expression,
/// or a primary.
#[verifier::opaque]
pub open spec fn spec_parse_unary(t: Seq<TokenModel>, i: int) -> ParseStep
    decreases t.len() - i, 1int,
{
    if 0 <= i < t.len() && (t[i] is Dash || t[i] is Ampersand) {
        match spec_parse_unary(t, i + 1) {
            ParseStep::Parsed(e, j) => ParseStep::Parsed(
                NodeModel { val: t[i], children: seq![e] },
                j,
            ),
            f => f,
        }
    } else {
        spec_parse_primary(t, i)
    }
}

/// Is `t[j]` a binary operator of the given precedence level? The levels,
/// low to high: boolean or, boolean and, equality, relational, additive,
/// multiplicative.
pub open spec fn is_level_op(level: int, v: TokenModel) -> bool {
    if level == 0 {
        v is OrOperation
    } else if level == 1 {
        v is AndOperation
    } else if level == 2 {
        v is EqComparator || v is NeqComparator
    } else if level == 3 {
        v is LeComparator || v is GeComparator || v is LeqComparator || v is GeqComparator
    } else if level == 4 {
        v is Plus || v is Dash
    } else {
        v is Asterisk || v is Slash
    }
}

/// A multiplicative expression: unary expressions joined by `*` or `/`,
/// associating left.
#[verifier::opaque]
pub open spec fn spec_parse_mul(t: Seq<TokenModel>, i: int) -> ParseStep
    decreases t.len() - i, 2int,
{
    if !(0 <= i < t.len()) {
        ParseStep::Failed(spec_err(t, i, Expected::Expression))
    } else {
        match spec_parse_unary(t, i) {
            ParseStep::Parsed(left, j) => if i < j <= t.len() {
                spec_parse_mul_tail(t, j, left)
            } else {
                ParseStep::Parsed(left, j)
            },
            f => f,
        }
    }
}

#[verifier::opaque]
pub open spec fn spec_parse_mul_tail(t: Seq<TokenModel>, j: int, left: NodeModel) -> ParseStep
    decreases t.len() - j, 0int,
{
    if 0 <= j < t.len() && is_level_op(5, t[j]) {
        match spec_parse_unary(t, j + 1) {
            ParseStep::Parsed(right, k) => if j < k <= t.len() {
                spec_parse_mul_tail(t, k, NodeModel { val: t[j], children: seq![left, right] })
            } else {
                ParseStep::Parsed(NodeModel { val: t[j], children: seq![left, right] }, k)
            },
            f => f,
        }
    } else {
        ParseStep::Parsed(left, j)
    }
}

/// An additive expression: multiplicative expressions joined by `+` or
/// `-`, associating left.
#[verifier::opaque]
pub open spec fn spec_parse_add(t: Seq<TokenModel>, i: int) -> ParseStep
    decreases t.len() - i, 3int,
{
    if !(0 <= i < t.len()) {
        ParseStep::Failed(spec_err(t, i, Expected::Expression))
    } else {
        match spec_parse_mul(t, i) {
            ParseStep::Parsed(left, j) => if i < j <= t.len() {
                spec_parse_add_tail(t, j, left)
            } else {
                ParseStep::Parsed(left, j)
            },
            f => f,
        }
    }
}

#[verifier::opaque]
pub open spec fn spec_parse_add_tail(t: Seq<TokenModel>, j: int, left: NodeModel) -> ParseStep
    decreases t.len() - j, 0int,
{
    if 0 <= j < t.len() && is_level_op(4, t[j]) {
        match spec_parse_mul(t, j + 1) {
            ParseStep::Parsed(right, k) => if j < k <= t.len() {
                spec_parse_add_tail(t, k, NodeModel { val: t[j], children: seq![left, right] })
            } else {
                ParseStep::Parsed(NodeModel { val: t[j], children: seq![left, right] }, k)
            },
            f => f,
        }
    } else {
        ParseStep::Parsed(left, j)
    }
}

/// A relational expression: additive expressions joined by `<` `>` `<=`
/// `>=`, associating left.
#[verifier::opaque]
pub open spec fn spec_parse_rel(t: Seq<TokenModel>, i: int) -> ParseStep
    decreases t.len() - i, 4int,
{
    if !(0 <= i < t.len()) {
        ParseStep::Failed(spec_err(t, i, Expected::Expression))
    } else {
        match spec_parse_add(t, i) {
            ParseStep::Parsed(left, j) => if i < j <= t.len() {
                spec_parse_rel_tail(t, j, left)
            } else {
                ParseStep::Parsed(left, j)
            },
            f => f,
        }
    }
}

#[verifier::opaque]
pub open spec fn spec_parse_rel_tail(t: Seq<TokenModel>, j: int, left: NodeModel) -> ParseStep
    decreases t.len() - j, 0int,
{
    if 0 <= j < t.len() && is_level_op(3, t[j]) {
        match spec_parse_add(t, j + 1) {
            ParseStep::Parsed(right, k) => if j < k <= t.len() {
                spec_parse_rel_tail(t, k, NodeModel { val: t[j], children: seq![left, right] })
            } else {
                ParseStep::Parsed(NodeModel { val: t[j], children: seq![left, right] }, k)
            },
            f => f,
        }
    } else {
        ParseStep::Parsed(left, j)
    }
}

/// An equality expression: relational expressions joined by `==` or `!=`,
/// associating left.
#[verifier::opaque]
pub open spec fn spec_parse_eq(t: Seq<TokenModel>, i: int) -> ParseStep
    decreases t.len() - i, 5int,
{
    if !(0 <= i < t.len()) {
        ParseStep::Failed(spec_err(t, i, Expected::Expression))
    } else {
        match spec_parse_rel(t, i) {
            ParseStep::Parsed(left, j) => if i < j <= t.len() {
                spec_parse_eq_tail(t, j, left)
            } else {
                ParseStep::Parsed(left, j)
            },
            f => f,
        }
    }
}

#[verifier::opaque]
pub open spec fn spec_parse_eq_tail(t: Seq<TokenModel>, j: int, left: NodeModel) -> ParseStep
    decreases t.len() - j, 0int,
{
    if 0 <= j < t.len() && is_level_op(2, t[j]) {
        match spec_parse_rel(t, j + 1) {
            ParseStep::Parsed(right, k) => if j < k <= t.len() {
                spec_parse_eq_tail(t, k, NodeModel { val: t[j], children: seq![left, right] })
            } else {
                ParseStep::Parsed(NodeModel { val: t[j], children: seq![left, right] }, k)
            },
            f => f,
        }
    } else {
        ParseStep::Parsed(left, j)
    }
}

/// A boolean-and expression: equality expressions joined by `&&`,
/// associating left.
#[verifier::opaque]
pub open spec fn spec_parse_and(t: Seq<TokenModel>, i: int) -> ParseStep
    decreases t.len() - i, 6int,
{
    if !(0 <= i < t.len()) {
        ParseStep::Failed(spec_err(t, i, Expected::Expression))
    } else {
        match spec_parse_eq(t, i) {
            ParseStep::Parsed(left, j) => if i < j <= t.len() {
                spec_parse_and_tail(t, j, left)
            } else {
                ParseStep::Parsed(left, j)
            },
            f => f,
        }
    }
}

#[verifier::opaque]
pub open spec fn spec_parse_and_tail(t: Seq<TokenModel>, j: int, left: NodeModel) -> ParseStep
    decreases t.len() - j, 0int,
{
    if 0 <= j < t.len() && is_level_op(1, t[j]) {
        match spec_parse_eq(t, j + 1) {
            ParseStep::Parsed(right, k) => if j < k <= t.len() {
                spec_parse_and_tail(t, k, NodeModel { val: t[j], children: seq![left, right] })
            } else {
                ParseStep::Parsed(NodeModel { val: t[j], children: seq![left, right] }, k)
            },
            f => f,
        }
    } else {
        ParseStep::Parsed(left, j)
    }
}

/// A full expression: boolean-and expressions joined by `||`, associating
/// left — the lowest-precedence level.
#[verifier::opaque]
pub open spec fn spec_parse_expr(t: Seq<TokenModel>, i: int) -> ParseStep
    decreases t.len() - i, 7int,
{
    if !(0 <= i < t.len()) {
        ParseStep::Failed(spec_err(t, i, Expected::Expression))
    } else {
        match spec_parse_and(t, i) {
            ParseStep::Parsed(left, j) => if i < j <= t.len() {
                spec_parse_expr_tail(t, j, left)
            } else {
                ParseStep::Parsed(left, j)
            },
            f => f,
        }
    }
}

#[verifier::opaque]
pub open spec fn spec_parse_expr_tail(t: Seq<TokenModel>, j: int, left: NodeModel) -> ParseStep
    decreases t.len() - j, 0int,
{
    if 0 <= j < t.len() && is_level_op(0, t[j]) {
        match spec_parse_and(t, j + 1) {
            ParseStep::Parsed(right, k) => if j < k <= t.len() {
                spec_parse_expr_tail(t, k, NodeModel { val: t[j], children: seq![left, right] })
            } else {
                ParseStep::Parsed(NodeModel { val: t[j], children: seq![left, right] }, k)
            },
            f => f,
        }
    } else {
        ParseStep::Parsed(left, j)
    }
}

/// A `let` statement: `let` identifier [`:` type-identifier] `=`
/// expression `;`. `i` stands on the `let` keyword.
#[verifier::opaque]
pub open spec fn spec_parse_let(t: Seq<TokenModel>, i: int) -> ParseStep
    decreases t.len() - i, 9int,
{
    if !(0 <= i && i + 1 < t.len() && t[i + 1] is ID) {
        ParseStep::Failed(spec_err(t, i + 1, Expected::Identifier))
    } else if i + 2 < t.len() && t[i + 2] is Colon {
        if i + 3 < t.len() && t[i + 3] is ID {
            if i + 4 < t.len() && t[i + 4] is Equal {
                spec_parse_let_tail(t, i + 5, seq![spec_leaf(t[i + 1]), spec_leaf(t[i + 3])])
            } else {
                ParseStep::Failed(spec_err(t, i + 4, Expected::EqualSign))
            }
        } else {
            ParseStep::Failed(spec_err(t, i + 3, Expected::TypeName))
        }
    } else if i + 2 < t.len() && t[i + 2] is Equal {
        spec_parse_let_tail(t, i + 3, seq![spec_leaf(t[i + 1])])
    } else {
        ParseStep::Failed(spec_err(t, i + 2, Expected::EqualSign))
    }
}

/// The value and terminator of a `let` statement: `e` stands just after
/// the `=`, `pre` holds the children already built.
#[verifier::opaque]
pub open spec fn spec_parse_let_tail(t: Seq<TokenModel>, e: int, pre: Seq<NodeModel>) -> ParseStep
    decreases t.len() - e, 8int,
{
    match spec_parse_expr(t, e) {
        ParseStep::Parsed(v, j) => if j < t.len() && t[j] is Semicolon {
            ParseStep::Parsed(NodeModel { val: TokenModel::LetToken, children: pre.push(v) }, j + 1)
        } else {
            ParseStep::Failed(spec_err(t, j, Expected::Semicolon))
        },
        f => f,
    }
}

/// A block: `{ stmt* }`, a `LeftBrace` node whose children are the
/// contained statements.
#[verifier::opaque]
pub open spec fn spec_parse_block(t: Seq<TokenModel>, i: int) -> ParseStep
    decreases t.len() - i, 9int,
{
    if !(0 <= i < t.len() && t[i] is LeftBrace) {
        ParseStep::Failed(spec_err(t, i, Expected::Block))
    } else {
        match spec_parse_stmt_list(t, i + 1) {
            ListStep::ParsedList(ss, j) => if j < t.len() && t[j] is RightBrace {
                ParseStep::Parsed(NodeModel { val: TokenModel::LeftBrace, children: ss }, j + 1)
            } else {
                ParseStep::Failed(spec_err(t, j, Expected::ClosingBrace))
            },
            ListStep::FailedList(e) => ParseStep::Failed(e),
        }
    }
}

/// An `if` statement: `if` expression block, then optionally `else`
/// followed by a block or by another `if` statement — the `else` binds to
/// the nearest preceding unmatched `if`. `i` stands on the `if` keyword.
#[verifier::opaque]
pub open spec fn spec_parse_if(t: Seq<TokenModel>, i: int) -> ParseStep
    decreases t.len() - i, 9int,
{
    if i < 0 {
        ParseStep::Failed(spec_err(t, i, Expected::Statement))
    } else {
        match spec_parse_expr(t, i + 1) {
            ParseStep::Parsed(cond, j) => if i < j <= t.len() {
                match spec_parse_block(t, j) {
                    ParseStep::Parsed(thenb, k) => if j < k <= t.len() {
                        if k < t.len() && t[k] is ElseToken {
                            if k + 1 < t.len() && t[k + 1] is IfToken {
                                match spec_parse_if(t, k + 1) {
                                    ParseStep::Parsed(elseb, m) => ParseStep::Parsed(
                                        NodeModel {
                                            val: TokenModel::IfToken,
                                            children: seq![cond, thenb, elseb],
                                        },
                                        m,
                                    ),
                                    f => f,
                                }
                            } else {
                                match spec_parse_block(t, k + 1) {
                                    ParseStep::Parsed(elseb, m) => ParseStep::Parsed(
                                        NodeModel {
                                            val: TokenModel::IfToken,
                                            children: seq![cond, thenb, elseb],
                                        },
                                        m,
                                    ),
                                    f => f,
                                }
                            }
                        } else {
                            ParseStep::Parsed(
                                NodeModel { val: TokenModel::IfToken, children: seq![cond, thenb] },
                                k,
                            )
                        }
                    } else {
                        ParseStep::Parsed(
                            NodeModel { val: TokenModel::IfToken, children: seq![cond, thenb] },
                            k,
                        )
                    },
                    f => f,
                }
            } else {
                ParseStep::Failed(spec_err(t, j, Expected::Block))
            },
            f => f,
        }
    }
}

/// A `while` statement: `while` expression block. `i` stands on the
/// `while` keyword.
#[verifier::opaque]
pub open spec fn spec_parse_while(t: Seq<TokenModel>, i: int) -> ParseStep
    decreases t.len() - i, 9int,
{
    if i < 0 {
        ParseStep::Failed(spec_err(t, i, Expected::Statement))
    } else {
        match spec_parse_expr(t, i + 1) {
            ParseStep::Parsed(cond, j) => if i < j <= t.len() {
                match spec_parse_block(t, j) {
                    ParseStep::Parsed(body, k) => ParseStep::Parsed(
                        NodeModel { val: TokenModel::WhileToken, children: seq![cond, body] },
                        k,
                    ),
                    f => f,
                }
            } else {
                ParseStep::Failed(spec_err(t, j, Expected::Block))
            },
            f => f,
        }
    }
}

/// A `return` statement: `return` [expression] `;`. `i` stands on the
/// `return` keyword.
#[verifier::opaque]
pub open spec fn spec_parse_return(t: Seq<TokenModel>, i: int) -> ParseStep
    decreases t.len() - i, 9int,
{
    if i < 0 {
        ParseStep::Failed(spec_err(t, i, Expected::Statement))
    } else if i + 1 < t.len() && t[i + 1] is Semicolon {
        ParseStep::Parsed(NodeModel { val: TokenModel::ReturnToken, children: Seq::empty() }, i + 2)
    } else {
        match spec_parse_expr(t, i + 1) {
            ParseStep::Parsed(v, j) => if j < t.len() && t[j] is Semicolon {
                ParseStep::Parsed(
                    NodeModel { val: TokenModel::ReturnToken, children: seq![v] },
                    j + 1,
                )
            } else {
                ParseStep::Failed(spec_err(t, j, Expected::Semicolon))
            },
            f => f,
        }
    }
}

/// A parameter list, from just after the opening parenthesis up to and
/// including the closing one: identifiers, each with an optional
/// `:` type-identifier child.
#[verifier::opaque]
pub open spec fn spec_parse_params(t: Seq<TokenModel>, i: int) -> ListStep
    decreases t.len() - i, 0int,
{
    if !(0 <= i < t.len()) {
        ListStep::FailedList(spec_err(t, i, Expected::Parameter))
    } else if t[i] is RightParen {
        ListStep::ParsedList(Seq::empty(), i + 1)
    } else if t[i] is ID {
        if i + 1 < t.len() && t[i + 1] is Colon {
            if i + 2 < t.len() && t[i + 2] is ID {
                match spec_parse_params(t, i + 3) {
                    ListStep::ParsedList(ps, j) => ListStep::ParsedList(
                        seq![
                            NodeModel { val: t[i], children: seq![spec_leaf(t[i + 2])] },
                        ] + ps,
                        j,
                    ),
                    f => f,
                }
            } else {
                ListStep::FailedList(spec_err(t, i + 2, Expected::TypeName))
            }
        } else {
            match spec_parse_params(t, i + 1) {
                ListStep::ParsedList(ps, j) => ListStep::ParsedList(seq![spec_leaf(t[i])] + ps, j),
                f => f,
            }
        }
    } else {
        ListStep::FailedList(spec_err(t, i, Expected::Parameter))
    }
}

/// An `fn` declaration: `fn` identifier `(` params `)` [`->`
/// type-identifier] block. `i` stands on the `fn` keyword.
#[verifier::opaque]
pub open spec fn spec_parse_fn(t: Seq<TokenModel>, i: int) -> ParseStep
    decreases t.len() - i, 9int,
{
    if !(0 <= i && i + 1 < t.len() && t[i + 1] is ID) {
        ParseStep::Failed(spec_err(t, i + 1, Expected::Identifier))
    } else if !(i + 2 < t.len() && t[i + 2] is LeftParen) {
        ParseStep::Failed(spec_err(t, i + 2, Expected::OpeningParen))
    } else {
        match spec_parse_params(t, i + 3) {
            ListStep::ParsedList(ps, j) => {
                let name = spec_leaf(t[i + 1]);
                let params = NodeModel { val: TokenModel::LeftParen, children: ps };
                if i < j <= t.len() {
                    if j < t.len() && t[j] is RightArrow {
                        if j + 1 < t.len() && t[j + 1] is ID {
                            let ret = NodeModel {
                                val: TokenModel::RightArrow,
                                children: seq![spec_leaf(t[j + 1])],
                            };
                            match spec_parse_block(t, j + 2) {
                                ParseStep::Parsed(body, m) => ParseStep::Parsed(
                                    NodeModel {
                                        val: TokenModel::FnToken,
                                        children: seq![name, params, ret, body],
                                    },
                                    m,
                                ),
                                f => f,
                            }
                        } else {
                            ParseStep::Failed(spec_err(t, j + 1, Expected::TypeName))
                        }
                    } else {
                        match spec_parse_block(t, j) {
                            ParseStep::Parsed(body, m) => ParseStep::Parsed(
                                NodeModel {
                                    val: TokenModel::FnToken,
                                    children: seq![name, params, body],
                                },
                                m,
                            ),
                            f => f,
                        }
                    }
                } else {
                    ParseStep::Failed(spec_err(t, j, Expected::Block))
                }
            },
            ListStep::FailedList(e) => ParseStep::Failed(e),
        }
    }
}

/// One statement, dispatched on its leading token.
#[verifier::opaque]
pub open spec fn spec_parse_stmt(t: Seq<TokenModel>, i: int) -> ParseStep
    decreases t.len() - i, 10int,
{
    if !(0 <= i < t.len()) {
        ParseStep::Failed(spec_err(t, i, Expected::Statement))
    } else {
        match t[i] {
            TokenModel::LetToken => spec_parse_let(t, i),
            TokenModel::IfToken => spec_parse_if(t, i),
            TokenModel::WhileToken => spec_parse_while(t, i),
            TokenModel::FnToken => spec_parse_fn(t, i),
            TokenModel::ReturnToken => spec_parse_return(t, i),
            TokenModel::LeftBrace => spec_parse_block(t, i),
            _ => ParseStep::Failed(spec_err(t, i, Expected::Statement)),
        }
    }
}

/// Statements, one after another, up to a closing brace or the end of the
/// stream (neither consumed).
#[verifier::opaque]
pub open spec fn spec_parse_stmt_list(t: Seq<TokenModel>, i: int) -> ListStep
    decreases t.len() - i, 11int,
{
    if !(0 <= i < t.len()) || t[i] is RightBrace {
        ListStep::ParsedList(Seq::empty(), i)
    } else {
        match spec_parse_stmt(t, i) {
            ParseStep::Parsed(n, j) => if i < j <= t.len() {
                match spec_parse_stmt_list(t, j) {
                    ListStep::ParsedList(ss, k) => ListStep::ParsedList(seq![n] + ss, k),
                    f => f,
                }
            } else {
                ListStep::ParsedList(seq![n], j)
            },
            ParseStep::Failed(e) => ListStep::FailedList(e),
        }
    }
}

/// The whole program: top-level statements until the stream is exhausted,
/// gathered under a synthetic root that carries an end-of-line token.
#[verifier::opaque]
pub open spec fn spec_parse_program(t: Seq<TokenModel>) -> ParseStep {
    match spec_parse_stmt_list(t, 0) {
        ListStep::ParsedList(ss, j) => if j == t.len() {
            ParseStep::Parsed(NodeModel { val: TokenModel::EOL, children: ss }, j)
        } else {
            ParseStep::Failed(spec_err(t, j, Expected::Statement))
        },
        ListStep::FailedList(e) => ParseStep::Failed(e),
    }
}

/// The token at `position + lookahead`, or `None` when the stream is too
/// short for that.
pub fn token_lookahead<'a>(
    tokens: &'a Vec<Token>,
    position: &'a usize,
    lookahead: usize,
) -> (r: Option<&'a Token>)
    ensures
        r matches Some(t) ==> *position + lookahead < tokens@.len() && *t == tokens@[*position
            + lookahead],
        r is None ==> *position + lookahead >= tokens@.len(),
{
    if *position >= tokens.len() || lookahead >= tokens.len() - *position {
        None
    } else {
        Some(&tokens[*position + lookahead])
    }
}

/// The token at `position + lookahead`, or the `SyntaxError` that reports
/// the stream ending before the token the grammar still needed.
pub fn token_expected_lookahead<'a>(
    tokens: &'a Vec<Token>,
    position: &'a usize,
    lookahead: usize,
) -> (r: Result<&'a Token, SyntaxError>)
    ensures
        r matches Ok(t) ==> *position + lookahead < tokens@.len() && *t == tokens@[*position
            + lookahead],
        r matches Err(e) ==> *position + lookahead >= tokens@.len() && e@ == (SyntaxErrorModel {
            expected: Expected::AnotherToken,
            found: None,
            position: *position as int,
        }),
{
    match token_lookahead(tokens, position, lookahead) {
        Some(t) => Ok(t),
        None => Err(
            SyntaxError { expected: Expected::AnotherToken, found: None, position: *position },
        ),
    }
}

/// The error for `exp` missing at position `i` of the stream.
fn syntax_err(toks: &Vec<Token>, i: usize, exp: Expected) -> (r: SyntaxError)
    ensures
        r@ == spec_err(toks.deep_view(), i as int, exp),
{
    let found = if i < toks.len() {
        Some(copy_token(&toks[i]))
    } else {
        None
    };
    SyntaxError { expected: exp, found, position: i }
}

/// A leaf node holding a copy of the token at `i`.
fn leaf(toks: &Vec<Token>, i: usize) -> (r: AstNode)
    requires
        i < toks@.len(),
    ensures
        r@ == spec_leaf(toks.deep_view()[i as int]),
{
    AstNode::new_empty(copy_token(&toks[i]))
}

/// A binary node: the operator token over its two operands.
fn node2(op: Token, l: AstNode, rt: AstNode) -> (r: AstNode)
    ensures
        r@ == (NodeModel { val: op@, children: seq![l@, rt@] }),
{
    let ghost lm = l@;
    let ghost rm = rt@;
    let mut cs: Vec<AstNode> = Vec::new();
    cs.push(l);
    cs.push(rt);
    proof {
        assert(cs.deep_view() =~= seq![lm, rm]);
    }
    AstNode::new(op, cs)
}

#[verifier::rlimit(100)]
#[verifier::spinoff_prover]
fn parse_primary(toks: &Vec<Token>, i: usize) -> (r: Result<(AstNode, usize), SyntaxError>)
    requires
        i <= toks@.len(),
    ensures
        r matches Ok(p) ==> spec_parse_primary(toks.deep_view(), i as int) == ParseStep::Parsed(
            p.0@,
            p.1 as int,
        ) && i < p.1 <= toks@.len(),
        r matches Err(e) ==> spec_parse_primary(toks.deep_view(), i as int) == ParseStep::Failed(
            e@,
        ),
    decreases toks@.len() - i, 0int,
{
    proof {
        reveal(spec_parse_primary);
    }
    let n = toks.len();
    if i >= n {
        return Err(syntax_err(toks, i, Expected::Expression));
    }
    match &toks[i] {
        Token::ID(_) => {
            let is_call = n - i > 1 && (match &toks[i + 1] {
                Token::LeftParen => true,
                _ => false,
            });
            if is_call {
                match parse_expr_list(toks, i + 2, true) {
                    Ok((args, j)) => {
                        let ghost am = args.deep_view();
                        let mut cs: Vec<AstNode> = Vec::new();
                        cs.push(leaf(toks, i));
                        let mut rest = args;
                        cs.append(&mut rest);
                        proof {
                            assert(cs.deep_view() =~= seq![
                                spec_leaf(toks.deep_view()[i as int]),
                            ] + am);
                        }
                        Ok((AstNode::new(Token::LeftParen, cs), j))
                    },
                    Err(e) => Err(e),
                }
            } else {
                Ok((leaf(toks, i), i + 1))
            }
        },
        Token::Literal(_) => Ok((leaf(toks, i), i + 1)),
        Token::LeftParen => {
            match parse_expr(toks, i + 1) {
                Ok((e, j)) => {
                    let closed = j < n && (match &toks[j] {
                        Token::RightParen => true,
                        _ => false,
                    });
                    if closed {
                        Ok((e, j + 1))
                    } else {
                        Err(syntax_err(toks, j, Expected::ClosingParen))
                    }
                },
                Err(e) => Err(e),
            }
        },
        Token::LeftBracket => {
            match parse_expr_list(toks, i + 1, false) {
                Ok((es, j)) => Ok((AstNode::new(Token::LeftBracket, es), j)),
                Err(e) => Err(e),
            }
        },
        _ => Err(syntax_err(toks, i, Expected::Expression)),
    }
}

#[verifier::rlimit(100)]
#[verifier::spinoff_prover]
fn parse_expr_list(toks: &Vec<Token>, i: usize, close_paren: bool) -> (r: Result<
    (Vec<AstNode>, usize),
    SyntaxError,
>)
    requires
        i <= toks@.len(),
    ensures
        r matches Ok(p) ==> spec_parse_expr_list(toks.deep_view(), i as int, close_paren)
            == ListStep::ParsedList(p.0.deep_view(), p.1 as int) && i < p.1 <= toks@.len(),
        r matches Err(e) ==> spec_parse_expr_list(toks.deep_view(), i as int, close_paren)
            == ListStep::FailedList(e@),
    decreases toks@.len() - i, 8int,
{
    proof {
        reveal(spec_parse_expr_list);
    }
    let exp = if close_paren {
        Expected::ClosingParen
    } else {
        Expected::ClosingBracket
    };
    if i >= toks.len() {
        return Err(syntax_err(toks, i, exp));
    }
    let is_close = match &toks[i] {
        Token::RightParen => close_paren,
        Token::RightBracket => !close_paren,
        _ => false,
    };
    if is_close {
        let empty: Vec<AstNode> = Vec::new();
        proof {
            assert(empty.deep_view() =~= Seq::<NodeModel>::empty());
        }
        return Ok((empty, i + 1));
    }
    match parse_expr(toks, i) {
        Ok((e, j)) => {
            match parse_expr_list(toks, j, close_paren) {
                Ok((es, k)) => {
                    let ghost em = e@;
                    let ghost esm = es.deep_view();
                    let mut out = es;
                    out.insert(0, e);
                    proof {
                        assert(out.deep_view() =~= seq![em] + esm);
                    }
                    Ok((out, k))
                },
                Err(er) => Err(er),
            }
        },
        Err(er) => Err(er),
    }
}

#[verifier::rlimit(100)]
#[verifier::spinoff_prover]
fn parse_unary(toks: &Vec<Token>, i: usize) -> (r: Result<(AstNode, usize), SyntaxError>)
    requires
        i <= toks@.len(),
    ensures
        r matches Ok(p) ==> spec_parse_unary(toks.deep_view(), i as int) == ParseStep::Parsed(
            p.0@,
            p.1 as int,
        ) && i < p.1 <= toks@.len(),
        r matches Err(e) ==> spec_parse_unary(toks.deep_view(), i as int) == ParseStep::Failed(e@),
    decreases toks@.len() - i, 1int,
{
    proof {
        reveal(spec_parse_unary);
    }
    let prefixed = i < toks.len() && (match &toks[i] {
        Token::Dash | Token::Ampersand => true,
        _ => false,
    });
    if prefixed {
        let op = copy_token(&toks[i]);
        match parse_unary(toks, i + 1) {
            Ok((e, j)) => {
                let ghost em = e@;
                let mut cs: Vec<AstNode> = Vec::new();
                cs.push(e);
                proof {
                    assert(cs.deep_view() =~= seq![em]);
                }
                Ok((AstNode::new(op, cs), j))
            },
            Err(e) => Err(e),
        }
    } else {
        parse_primary(toks, i)
    }
}

#[verifier::rlimit(100)]
#[verifier::spinoff_prover]
fn parse_mul(toks: &Vec<Token>, i: usize) -> (r: Result<(AstNode, usize), SyntaxError>)
    requires
        i <= toks@.len(),
    ensures
        r matches Ok(p) ==> spec_parse_mul(toks.deep_view(), i as int) == ParseStep::Parsed(
            p.0@,
            p.1 as int,
        ) && i < p.1 <= toks@.len(),
        r matches Err(e) ==> spec_parse_mul(toks.deep_view(), i as int) == ParseStep::Failed(e@),
    decreases toks@.len() - i, 2int,
{
    proof {
        reveal(spec_parse_mul);
    }
    if i >= toks.len() {
        return Err(syntax_err(toks, i, Expected::Expression));
    }
    match parse_unary(toks, i) {
        Ok((left, j)) => parse_mul_tail(toks, j, left),
        Err(e) => Err(e),
    }
}

#[verifier::rlimit(100)]
#[verifier::spinoff_prover]
fn parse_mul_tail(toks: &Vec<Token>, j: usize, left: AstNode) -> (r: Result<
    (AstNode, usize),
    SyntaxError,
>)
    requires
        j <= toks@.len(),
    ensures
        r matches Ok(p) ==> spec_parse_mul_tail(toks.deep_view(), j as int, left@)
            == ParseStep::Parsed(p.0@, p.1 as int) && j <= p.1 <= toks@.len(),
        r matches Err(e) ==> spec_parse_mul_tail(toks.deep_view(), j as int, left@)
            == ParseStep::Failed(e@),
    decreases toks@.len() - j, 0int,
{
    proof {
        reveal(spec_parse_mul_tail);
    }
    let at_op = j < toks.len() && (match &toks[j] {
        Token::Asterisk | Token::Slash => true,
        _ => false,
    });
    if at_op {
        let op = copy_token(&toks[j]);
        match parse_unary(toks, j + 1) {
            Ok((right, k)) => parse_mul_tail(toks, k, node2(op, left, right)),
            Err(e) => Err(e),
        }
    } else {
        Ok((left, j))
    }
}

#[verifier::rlimit(100)]
#[verifier::spinoff_prover]
fn parse_add(toks: &Vec<Token>, i: usize) -> (r: Result<(AstNode, usize), SyntaxError>)
    requires
        i <= toks@.len(),
    ensures
        r matches Ok(p) ==> spec_parse_add(toks.deep_view(), i as int) == ParseStep::Parsed(
            p.0@,
            p.1 as int,
        ) && i < p.1 <= toks@.len(),
        r matches Err(e) ==> spec_parse_add(toks.deep_view(), i as int) == ParseStep::Failed(e@),
    decreases toks@.len() - i, 3int,
{
    proof {
        reveal(spec_parse_add);
    }
    if i >= toks.len() {
        return Err(syntax_err(toks, i, Expected::Expression));
    }
    match parse_mul(toks, i) {
        Ok((left, j)) => parse_add_tail(toks, j, left),
        Err(e) => Err(e),
    }
}

#[verifier::rlimit(100)]
#[verifier::spinoff_prover]
fn parse_add_tail(toks: &Vec<Token>, j: usize, left: AstNode) -> (r: Result<
    (AstNode, usize),
    SyntaxError,
>)
    requires
        j <= toks@.len(),
    ensures
        r matches Ok(p) ==> spec_parse_add_tail(toks.deep_view(), j as int, left@)
            == ParseStep::Parsed(p.0@, p.1 as int) && j <= p.1 <= toks@.len(),
        r matches Err(e) ==> spec_parse_add_tail(toks.deep_view(), j as int, left@)
            == ParseStep::Failed(e@),
    decreases toks@.len() - j, 0int,
{
    proof {
        reveal(spec_parse_add_tail);
    }
    let at_op = j < toks.len() && (match &toks[j] {
        Token::Plus | Token::Dash => true,
        _ => false,
    });
    if at_op {
        let op = copy_token(&toks[j]);
        match parse_mul(toks, j + 1) {
            Ok((right, k)) => parse_add_tail(toks, k, node2(op, left, right)),
            Err(e) => Err(e),
        }
    } else {
        Ok((left, j))
    }
}

#[verifier::rlimit(100)]
#[verifier::spinoff_prover]
fn parse_rel(toks: &Vec<Token>, i: usize) -> (r: Result<(AstNode, usize), SyntaxError>)
    requires
        i <= toks@.len(),
    ensures
        r matches Ok(p) ==> spec_parse_rel(toks.deep_view(), i as int) == ParseStep::Parsed(
            p.0@,
            p.1 as int,
        ) && i < p.1 <= toks@.len(),
        r matches Err(e) ==> spec_parse_rel(toks.deep_view(), i as int) == ParseStep::Failed(e@),
    decreases toks@.len() - i, 4int,
{
    proof {
        reveal(spec_parse_rel);
    }
    if i >= toks.len() {
        return Err(syntax_err(toks, i, Expected::Expression));
    }
    match parse_add(toks, i) {
        Ok((left, j)) => parse_rel_tail(toks, j, left),
        Err(e) => Err(e),
    }
}

#[verifier::rlimit(100)]
#[verifier::spinoff_prover]
fn parse_rel_tail(toks: &Vec<Token>, j: usize, left: AstNode) -> (r: Result<
    (AstNode, usize),
    SyntaxError,
>)
    requires
        j <= toks@.len(),
    ensures
        r matches Ok(p) ==> spec_parse_rel_tail(toks.deep_view(), j as int, left@)
            == ParseStep::Parsed(p.0@, p.1 as int) && j <= p.1 <= toks@.len(),
        r matches Err(e) ==> spec_parse_rel_tail(toks.deep_view(), j as int, left@)
            == ParseStep::Failed(e@),
    decreases toks@.len() - j, 0int,
{
    proof {
        reveal(spec_parse_rel_tail);
    }
    let at_op = j < toks.len() && (match &toks[j] {
        Token::LeComparator | Token::GeComparator | Token::LeqComparator | Token::GeqComparator =>
            true,
        _ => false,
    });
    if at_op {
        let op = copy_token(&toks[j]);
        match parse_add(toks, j + 1) {
            Ok((right, k)) => parse_rel_tail(toks, k, node2(op, left, right)),
            Err(e) => Err(e),
        }
    } else {
        Ok((left, j))
    }
}

#[verifier::rlimit(100)]
#[verifier::spinoff_prover]
fn parse_eq(toks: &Vec<Token>, i: usize) -> (r: Result<(AstNode, usize), SyntaxError>)
    requires
        i <= toks@.len(),
    ensures
        r matches Ok(p) ==> spec_parse_eq(toks.deep_view(), i as int) == ParseStep::Parsed(
            p.0@,
            p.1 as int,
        ) && i < p.1 <= toks@.len(),
        r matches Err(e) ==> spec_parse_eq(toks.deep_view(), i as int) == ParseStep::Failed(e@),
    decreases toks@.len() - i, 5int,
{
    proof {
        reveal(spec_parse_eq);
    }
    if i >= toks.len() {
        return Err(syntax_err(toks, i, Expected::Expression));
    }
    match parse_rel(toks, i) {
        Ok((left, j)) => parse_eq_tail(toks, j, left),
        Err(e) => Err(e),
    }
}

#[verifier::rlimit(100)]
#[verifier::spinoff_prover]
fn parse_eq_tail(toks: &Vec<Token>, j: usize, left: AstNode) -> (r: Result<
    (AstNode, usize),
    SyntaxError,
>)
    requires
        j <= toks@.len(),
    ensures
        r matches Ok(p) ==> spec_parse_eq_tail(toks.deep_view(), j as int, left@)
            == ParseStep::Parsed(p.0@, p.1 as int) && j <= p.1 <= toks@.len(),
        r matches Err(e) ==> spec_parse_eq_tail(toks.deep_view(), j as int, left@)
            == ParseStep::Failed(e@),
    decreases toks@.len() - j, 0int,
{
    proof {
        reveal(spec_parse_eq_tail);
    }
    let at_op = j < toks.len() && (match &toks[j] {
        Token::EqComparator | Token::NeqComparator => true,
        _ => false,
    });
    if at_op {
        let op = copy_token(&toks[j]);
        match parse_rel(toks, j + 1) {
            Ok((right, k)) => parse_eq_tail(toks, k, node2(op, left, right)),
            Err(e) => Err(e),
        }
    } else {
        Ok((left, j))
    }
}

#[verifier::rlimit(100)]
#[verifier::spinoff_prover]
fn parse_and(toks: &Vec<Token>, i: usize) -> (r: Result<(AstNode, usize), SyntaxError>)
    requires
        i <= toks@.len(),
    ensures
        r matches Ok(p) ==> spec_parse_and(toks.deep_view(), i as int) == ParseStep::Parsed(
            p.0@,
            p.1 as int,
        ) && i < p.1 <= toks@.len(),
        r matches Err(e) ==> spec_parse_and(toks.deep_view(), i as int) == ParseStep::Failed(e@),
    decreases toks@.len() - i, 6int,
{
    proof {
        reveal(spec_parse_and);
    }
    if i >= toks.len() {
        return Err(syntax_err(toks, i, Expected::Expression));
    }
    match parse_eq(toks, i) {
        Ok((left, j)) => parse_and_tail(toks, j, left),
        Err(e) => Err(e),
    }
}

#[verifier::rlimit(100)]
#[verifier::spinoff_prover]
fn parse_and_tail(toks: &Vec<Token>, j: usize, left: AstNode) -> (r: Result<
    (AstNode, usize),
    SyntaxError,
>)
    requires
        j <= toks@.len(),
    ensures
        r matches Ok(p) ==> spec_parse_and_tail(toks.deep_view(), j as int, left@)
            == ParseStep::Parsed(p.0@, p.1 as int) && j <= p.1 <= toks@.len(),
        r matches Err(e) ==> spec_parse_and_tail(toks.deep_view(), j as int, left@)
            == ParseStep::Failed(e@),
    decreases toks@.len() - j, 0int,
{
    proof {
        reveal(spec_parse_and_tail);
    }
    let at_op = j < toks.len() && (match &toks[j] {
        Token::AndOperation => true,
        _ => false,
    });
    if at_op {
        let op = copy_token(&toks[j]);
        match parse_eq(toks, j + 1) {
            Ok((right, k)) => parse_and_tail(toks, k, node2(op, left, right)),
            Err(e) => Err(e),
        }
    } else {
        Ok((left, j))
    }
}

#[verifier::rlimit(100)]
#[verifier::spinoff_prover]
fn parse_expr(toks: &Vec<Token>, i: usize) -> (r: Result<(AstNode, usize), SyntaxError>)
    requires
        i <= toks@.len(),
    ensures
        r matches Ok(p) ==> spec_parse_expr(toks.deep_view(), i as int) == ParseStep::Parsed(
            p.0@,
            p.1 as int,
        ) && i < p.1 <= toks@.len(),
        r matches Err(e) ==> spec_parse_expr(toks.deep_view(), i as int) == ParseStep::Failed(e@),
    decreases toks@.len() - i, 7int,
{
    proof {
        reveal(spec_parse_expr);
    }
    if i >= toks.len() {
        return Err(syntax_err(toks, i, Expected::Expression));
    }
    match parse_and(toks, i) {
        Ok((left, j)) => parse_expr_tail(toks, j, left),
        Err(e) => Err(e),
    }
}

#[verifier::rlimit(100)]
#[verifier::spinoff_prover]
fn parse_expr_tail(toks: &Vec<Token>, j: usize, left: AstNode) -> (r: Result<
    (AstNode, usize),
    SyntaxError,
>)
    requires
        j <= toks@.len(),
    ensures
        r matches Ok(p) ==> spec_parse_expr_tail(toks.deep_view(), j as int, left@)
            == ParseStep::Parsed(p.0@, p.1 as int) && j <= p.1 <= toks@.len(),
        r matches Err(e) ==> spec_parse_expr_tail(toks.deep_view(), j as int, left@)
            == ParseStep::Failed(e@),
    decreases toks@.len() - j, 0int,
{
    proof {
        reveal(spec_parse_expr_tail);
    }
    let at_op = j < toks.len() && (match &toks[j] {
        Token::OrOperation => true,
        _ => false,
    });
    if at_op {
        let op = copy_token(&toks[j]);
        match parse_and(toks, j + 1) {
            Ok((right, k)) => parse_expr_tail(toks, k, node2(op, left, right)),
            Err(e) => Err(e),
        }
    } else {
        Ok((left, j))
    }
}

#[verifier::rlimit(100)]
#[verifier::spinoff_prover]
fn parse_let_tail(toks: &Vec<Token>, e: usize, pre: Vec<AstNode>) -> (r: Result<
    (AstNode, usize),
    SyntaxError,
>)
    requires
        e <= toks@.len(),
    ensures
        r matches Ok(p) ==> spec_parse_let_tail(toks.deep_view(), e as int, pre.deep_view())
            == ParseStep::Parsed(p.0@, p.1 as int) && e < p.1 <= toks@.len(),
        r matches Err(er) ==> spec_parse_let_tail(toks.deep_view(), e as int, pre.deep_view())
            == ParseStep::Failed(er@),
    decreases toks@.len() - e, 8int,
{
    proof {
        reveal(spec_parse_let_tail);
    }
    let ghost prem = pre.deep_view();
    match parse_expr(toks, e) {
        Ok((v, j)) => {
            let terminated = j < toks.len() && (match &toks[j] {
                Token::Semicolon => true,
                _ => false,
            });
            if terminated {
                let ghost vm = v@;
                let mut cs = pre;
                cs.push(v);
                proof {
                    assert(cs.deep_view() =~= prem.push(vm));
                }
                Ok((AstNode::new(Token::LetToken, cs), j + 1))
            } else {
                Err(syntax_err(toks, j, Expected::Semicolon))
            }
        },
        Err(er) => Err(er),
    }
}

#[verifier::rlimit(100)]
#[verifier::spinoff_prover]
fn parse_let(toks: &Vec<Token>, i: usize) -> (r: Result<(AstNode, usize), SyntaxError>)
    requires
        i < toks@.len(),
        toks@.len() < usize::MAX,
    ensures
        r matches Ok(p) ==> spec_parse_let(toks.deep_view(), i as int) == ParseStep::Parsed(
            p.0@,
            p.1 as int,
        ) && i < p.1 <= toks@.len(),
        r matches Err(e) ==> spec_parse_let(toks.deep_view(), i as int) == ParseStep::Failed(e@),
    decreases toks@.len() - i, 9int,
{
    proof {
        reveal(spec_parse_let);
    }
    let n = toks.len();
    let has_id = n - i > 1 && (match &toks[i + 1] {
        Token::ID(_) => true,
        _ => false,
    });
    if !has_id {
        return Err(syntax_err(toks, i + 1, Expected::Identifier));
    }
    let annotated = n - i > 2 && (match &toks[i + 2] {
        Token::Colon => true,
        _ => false,
    });
    if annotated {
        let has_type = n - i > 3 && (match &toks[i + 3] {
            Token::ID(_) => true,
            _ => false,
        });
        if !has_type {
            return Err(syntax_err(toks, i + 3, Expected::TypeName));
        }
        let has_eq = n - i > 4 && (match &toks[i + 4] {
            Token::Equal => true,
            _ => false,
        });
        if !has_eq {
            return Err(syntax_err(toks, i + 4, Expected::EqualSign));
        }
        let mut pre: Vec<AstNode> = Vec::new();
        pre.push(leaf(toks, i + 1));
        pre.push(leaf(toks, i + 3));
        proof {
            assert(pre.deep_view() =~= seq![
                spec_leaf(toks.deep_view()[i + 1]),
                spec_leaf(toks.deep_view()[i + 3]),
            ]);
        }
        parse_let_tail(toks, i + 5, pre)
    } else {
        let has_eq = n - i > 2 && (match &toks[i + 2] {
            Token::Equal => true,
            _ => false,
        });
        if !has_eq {
            return Err(syntax_err(toks, i + 2, Expected::EqualSign));
        }
        let mut pre: Vec<AstNode> = Vec::new();
        pre.push(leaf(toks, i + 1));
        proof {
            assert(pre.deep_view() =~= seq![spec_leaf(toks.deep_view()[i + 1])]);
        }
        parse_let_tail(toks, i + 3, pre)
    }
}

#[verifier::rlimit(100)]
#[verifier::spinoff_prover]
fn parse_block(toks: &Vec<Token>, i: usize) -> (r: Result<(AstNode, usize), SyntaxError>)
    requires
        i <= toks@.len(),
        toks@.len() < usize::MAX,
    ensures
        r matches Ok(p) ==> spec_parse_block(toks.deep_view(), i as int) == ParseStep::Parsed(
            p.0@,
            p.1 as int,
        ) && i < p.1 <= toks@.len(),
        r matches Err(e) ==> spec_parse_block(toks.deep_view(), i as int) == ParseStep::Failed(e@),
    decreases toks@.len() - i, 9int,
{
    proof {
        reveal(spec_parse_block);
    }
    let opened = i < toks.len() && (match &toks[i] {
        Token::LeftBrace => true,
        _ => false,
    });
    if !opened {
        return Err(syntax_err(toks, i, Expected::Block));
    }
    match parse_stmt_list(toks, i + 1) {
        Ok((ss, j)) => {
            let closed = j < toks.len() && (match &toks[j] {
                Token::RightBrace => true,
                _ => false,
            });
            if closed {
                Ok((AstNode::new(Token::LeftBrace, ss), j + 1))
            } else {
                Err(syntax_err(toks, j, Expected::ClosingBrace))
            }
        },
        Err(e) => Err(e),
    }
}

#[verifier::rlimit(100)]
#[verifier::spinoff_prover]
fn parse_if(toks: &Vec<Token>, i: usize) -> (r: Result<(AstNode, usize), SyntaxError>)
    requires
        i < toks@.len(),
        toks@.len() < usize::MAX,
    ensures
        r matches Ok(p) ==> spec_parse_if(toks.deep_view(), i as int) == ParseStep::Parsed(
            p.0@,
            p.1 as int,
        ) && i < p.1 <= toks@.len(),
        r matches Err(e) ==> spec_parse_if(toks.deep_view(), i as int) == ParseStep::Failed(e@),
    decreases toks@.len() - i, 9int,
{
    proof {
        reveal(spec_parse_if);
    }
    match parse_expr(toks, i + 1) {
        Ok((cond, j)) => {
            match parse_block(toks, j) {
                Ok((thenb, k)) => {
                    let has_else = k < toks.len() && (match &toks[k] {
                        Token::ElseToken => true,
                        _ => false,
                    });
                    if has_else {
                        let else_if = k + 1 < toks.len() && (match &toks[k + 1] {
                            Token::IfToken => true,
                            _ => false,
                        });
                        let else_part = if else_if {
                            parse_if(toks, k + 1)
                        } else {
                            parse_block(toks, k + 1)
                        };
                        match else_part {
                            Ok((elseb, m)) => {
                                let ghost cm = cond@;
                                let ghost tm = thenb@;
                                let ghost em = elseb@;
                                let mut cs: Vec<AstNode> = Vec::new();
                                cs.push(cond);
                                cs.push(thenb);
                                cs.push(elseb);
                                proof {
                                    assert(cs.deep_view() =~= seq![cm, tm, em]);
                                }
                                Ok((AstNode::new(Token::IfToken, cs), m))
                            },
                            Err(e) => Err(e),
                        }
                    } else {
                        let ghost cm = cond@;
                        let ghost tm = thenb@;
                        let mut cs: Vec<AstNode> = Vec::new();
                        cs.push(cond);
                        cs.push(thenb);
                        proof {
                            assert(cs.deep_view() =~= seq![cm, tm]);
                        }
                        Ok((AstNode::new(Token::IfToken, cs), k))
                    }
                },
                Err(e) => Err(e),
            }
        },
        Err(e) => Err(e),
    }
}

#[verifier::rlimit(100)]
#[verifier::spinoff_prover]
fn parse_while(toks: &Vec<Token>, i: usize) -> (r: Result<(AstNode, usize), SyntaxError>)
    requires
        i < toks@.len(),
        toks@.len() < usize::MAX,
    ensures
        r matches Ok(p) ==> spec_parse_while(toks.deep_view(), i as int) == ParseStep::Parsed(
            p.0@,
            p.1 as int,
        ) && i < p.1 <= toks@.len(),
        r matches Err(e) ==> spec_parse_while(toks.deep_view(), i as int) == ParseStep::Failed(e@),
    decreases toks@.len() - i, 9int,
{
    proof {
        reveal(spec_parse_while);
    }
    match parse_expr(toks, i + 1) {
        Ok((cond, j)) => {
            match parse_block(toks, j) {
                Ok((body, k)) => {
                    let ghost cm = cond@;
                    let ghost bm = body@;
                    let mut cs: Vec<AstNode> = Vec::new();
                    cs.push(cond);
                    cs.push(body);
                    proof {
                        assert(cs.deep_view() =~= seq![cm, bm]);
                    }
                    Ok((AstNode::new(Token::WhileToken, cs), k))
                },
                Err(e) => Err(e),
            }
        },
        Err(e) => Err(e),
    }
}

#[verifier::rlimit(100)]
#[verifier::spinoff_prover]
fn parse_return(toks: &Vec<Token>, i: usize) -> (r: Result<(AstNode, usize), SyntaxError>)
    requires
        i < toks@.len(),
    ensures
        r matches Ok(p) ==> spec_parse_return(toks.deep_view(), i as int) == ParseStep::Parsed(
            p.0@,
            p.1 as int,
        ) && i < p.1 <= toks@.len(),
        r matches Err(e) ==> spec_parse_return(toks.deep_view(), i as int) == ParseStep::Failed(
            e@,
        ),
    decreases toks@.len() - i, 9int,
{
    proof {
        reveal(spec_parse_return);
    }
    let n = toks.len();
    let bare = n - i > 1 && (match &toks[i + 1] {
        Token::Semicolon => true,
        _ => false,
    });
    if bare {
        return Ok((AstNode::new_empty(Token::ReturnToken), i + 2));
    }
    match parse_expr(toks, i + 1) {
        Ok((v, j)) => {
            let terminated = j < n && (match &toks[j] {
                Token::Semicolon => true,
                _ => false,
            });
            if terminated {
                let ghost vm = v@;
                let mut cs: Vec<AstNode> = Vec::new();
                cs.push(v);
                proof {
                    assert(cs.deep_view() =~= seq![vm]);
                }
                Ok((AstNode::new(Token::ReturnToken, cs), j + 1))
            } else {
                Err(syntax_err(toks, j, Expected::Semicolon))
            }
        },
        Err(e) => Err(e),
    }
}

#[verifier::rlimit(100)]
#[verifier::spinoff_prover]
fn parse_params(toks: &Vec<Token>, i: usize) -> (r: Result<(Vec<AstNode>, usize), SyntaxError>)
    requires
        i <= toks@.len(),
    ensures
        r matches Ok(p) ==> spec_parse_params(toks.deep_view(), i as int) == ListStep::ParsedList(
            p.0.deep_view(),
            p.1 as int,
        ) && i < p.1 <= toks@.len(),
        r matches Err(e) ==> spec_parse_params(toks.deep_view(), i as int) == ListStep::FailedList(
            e@,
        ),
    decreases toks@.len() - i, 0int,
{
    proof {
        reveal(spec_parse_params);
    }
    let n = toks.len();
    if i >= n {
        return Err(syntax_err(toks, i, Expected::Parameter));
    }
    match &toks[i] {
        Token::RightParen => {
            let empty: Vec<AstNode> = Vec::new();
            proof {
                assert(empty.deep_view() =~= Seq::<NodeModel>::empty());
            }
            Ok((empty, i + 1))
        },
        Token::ID(_) => {
            let annotated = n - i > 1 && (match &toks[i + 1] {
                Token::Colon => true,
                _ => false,
            });
            if annotated {
                let has_type = n - i > 2 && (match &toks[i + 2] {
                    Token::ID(_) => true,
                    _ => false,
                });
                if !has_type {
                    return Err(syntax_err(toks, i + 2, Expected::TypeName));
                }
                match parse_params(toks, i + 3) {
                    Ok((ps, j)) => {
                        let ghost psm = ps.deep_view();
                        let mut ty: Vec<AstNode> = Vec::new();
                        ty.push(leaf(toks, i + 2));
                        proof {
                            assert(ty.deep_view() =~= seq![spec_leaf(toks.deep_view()[i + 2])]);
                        }
                        let param = AstNode::new(copy_token(&toks[i]), ty);
                        let ghost pm = param@;
                        let mut out = ps;
                        out.insert(0, param);
                        proof {
                            assert(out.deep_view() =~= seq![pm] + psm);
                        }
                        Ok((out, j))
                    },
                    Err(e) => Err(e),
                }
            } else {
                match parse_params(toks, i + 1) {
                    Ok((ps, j)) => {
                        let ghost psm = ps.deep_view();
                        let param = leaf(toks, i);
                        let ghost pm = param@;
                        let mut out = ps;
                        out.insert(0, param);
                        proof {
                            assert(out.deep_view() =~= seq![pm] + psm);
                        }
                        Ok((out, j))
                    },
                    Err(e) => Err(e),
                }
            }
        },
        _ => Err(syntax_err(toks, i, Expected::Parameter)),
    }
}

#[verifier::rlimit(100)]
#[verifier::spinoff_prover]
fn parse_fn(toks: &Vec<Token>, i: usize) -> (r: Result<(AstNode, usize), SyntaxError>)
    requires
        i < toks@.len(),
        toks@.len() < usize::MAX,
    ensures
        r matches Ok(p) ==> spec_parse_fn(toks.deep_view(), i as int) == ParseStep::Parsed(
            p.0@,
            p.1 as int,
        ) && i < p.1 <= toks@.len(),
        r matches Err(e) ==> spec_parse_fn(toks.deep_view(), i as int) == ParseStep::Failed(e@),
    decreases toks@.len() - i, 9int,
{
    proof {
        reveal(spec_parse_fn);
    }
    let n = toks.len();
    let has_name = n - i > 1 && (match &toks[i + 1] {
        Token::ID(_) => true,
        _ => false,
    });
    if !has_name {
        return Err(syntax_err(toks, i + 1, Expected::Identifier));
    }
    let has_paren = n - i > 2 && (match &toks[i + 2] {
        Token::LeftParen => true,
        _ => false,
    });
    if !has_paren {
        return Err(syntax_err(toks, i + 2, Expected::OpeningParen));
    }
    match parse_params(toks, i + 3) {
        Ok((ps, j)) => {
            let name = leaf(toks, i + 1);
            let params = AstNode::new(Token::LeftParen, ps);
            let has_arrow = j < n && (match &toks[j] {
                Token::RightArrow => true,
                _ => false,
            });
            if has_arrow {
                let has_type = j + 1 < n && (match &toks[j + 1] {
                    Token::ID(_) => true,
                    _ => false,
                });
                if !has_type {
                    return Err(syntax_err(toks, j + 1, Expected::TypeName));
                }
                let mut rt: Vec<AstNode> = Vec::new();
                rt.push(leaf(toks, j + 1));
                proof {
                    assert(rt.deep_view() =~= seq![spec_leaf(toks.deep_view()[j + 1])]);
                }
                let ret = AstNode::new(Token::RightArrow, rt);
                match parse_block(toks, j + 2) {
                    Ok((body, m)) => {
                        let ghost nm = name@;
                        let ghost psm = params@;
                        let ghost rm = ret@;
                        let ghost bm = body@;
                        let mut cs: Vec<AstNode> = Vec::new();
                        cs.push(name);
                        cs.push(params);
                        cs.push(ret);
                        cs.push(body);
                        proof {
                            assert(cs.deep_view() =~= seq![nm, psm, rm, bm]);
                        }
                        Ok((AstNode::new(Token::FnToken, cs), m))
                    },
                    Err(e) => Err(e),
                }
            } else {
                match parse_block(toks, j) {
                    Ok((body, m)) => {
                        let ghost nm = name@;
                        let ghost psm = params@;
                        let ghost bm = body@;
                        let mut cs: Vec<AstNode> = Vec::new();
                        cs.push(name);
                        cs.push(params);
                        cs.push(body);
                        proof {
                            assert(cs.deep_view() =~= seq![nm, psm, bm]);
                        }
                        Ok((AstNode::new(Token::FnToken, cs), m))
                    },
                    Err(e) => Err(e),
                }
            }
        },
        Err(e) => Err(e),
    }
}

#[verifier::rlimit(100)]
#[verifier::spinoff_prover]
fn parse_stmt(toks: &Vec<Token>, i: usize) -> (r: Result<(AstNode, usize), SyntaxError>)
    requires
        i <= toks@.len(),
        toks@.len() < usize::MAX,
    ensures
        r matches Ok(p) ==> spec_parse_stmt(toks.deep_view(), i as int) == ParseStep::Parsed(
            p.0@,
            p.1 as int,
        ) && i < p.1 <= toks@.len(),
        r matches Err(e) ==> spec_parse_stmt(toks.deep_view(), i as int) == ParseStep::Failed(e@),
    decreases toks@.len() - i, 10int,
{
    proof {
        reveal(spec_parse_stmt);
    }
    if i >= toks.len() {
        return Err(syntax_err(toks, i, Expected::Statement));
    }
    match &toks[i] {
        Token::LetToken => parse_let(toks, i),
        Token::IfToken => parse_if(toks, i),
        Token::WhileToken => parse_while(toks, i),
        Token::FnToken => parse_fn(toks, i),
        Token::ReturnToken => parse_return(toks, i),
        Token::LeftBrace => parse_block(toks, i),
        _ => Err(syntax_err(toks, i, Expected::Statement)),
    }
}

#[verifier::rlimit(100)]
#[verifier::spinoff_prover]
fn parse_stmt_list(toks: &Vec<Token>, i: usize) -> (r: Result<(Vec<AstNode>, usize), SyntaxError>)
    requires
        i <= toks@.len(),
        toks@.len() < usize::MAX,
    ensures
        r matches Ok(p) ==> spec_parse_stmt_list(toks.deep_view(), i as int)
            == ListStep::ParsedList(p.0.deep_view(), p.1 as int) && i <= p.1 <= toks@.len(),
        r matches Err(e) ==> spec_parse_stmt_list(toks.deep_view(), i as int)
            == ListStep::FailedList(e@),
    decreases toks@.len() - i, 11int,
{
    proof {
        reveal(spec_parse_stmt_list);
    }
    let stop = i >= toks.len() || (match &toks[i] {
        Token::RightBrace => true,
        _ => false,
    });
    if stop {
        let empty: Vec<AstNode> = Vec::new();
        proof {
            assert(empty.deep_view() =~= Seq::<NodeModel>::empty());
        }
        return Ok((empty, i));
    }
    match parse_stmt(toks, i) {
        Ok((node, j)) => {
            match parse_stmt_list(toks, j) {
                Ok((ss, k)) => {
                    let ghost nm = node@;
                    let ghost ssm = ss.deep_view();
                    let mut out = ss;
                    out.insert(0, node);
                    proof {
                        assert(out.deep_view() =~= seq![nm] + ssm);
                    }
                    Ok((out, k))
                },
                Err(e) => Err(e),
            }
        },
        Err(e) => Err(e),
    }
}

/// Parses a filtered token stream into the program's root node, whose
/// children are the top-level statements in source order; or fails with
/// the `SyntaxError` naming the expected construct and the token at which
/// it was expected. A single error aborts the whole parse: no partial
/// tree is returned.
#[verifier::rlimit(100)]
#[verifier::spinoff_prover]
pub fn parse_to_ast(tokens: Vec<Token>) -> (r: Result<AstNode, SyntaxError>)
    requires
        tokens@.len() < usize::MAX,
    ensures
        r matches Ok(root) ==> spec_parse_program(tokens.deep_view()) == ParseStep::Parsed(
            root@,
            tokens.deep_view().len() as int,
        ),
        r matches Err(e) ==> spec_parse_program(tokens.deep_view()) == ParseStep::Failed(e@),
{
    proof {
        reveal(spec_parse_program);
    }
    match parse_stmt_list(&tokens, 0) {
        Ok((ss, j)) => {
            if j == tokens.len() {
                Ok(AstNode::new(Token::EOL, ss))
            } else {
                Err(syntax_err(&tokens, j, Expected::Statement))
            }
        },
        Err(e) => Err(e),
    }
}

} // verus!
