use pilcrow::ast::AstNode;
use pilcrow::lexer::{filter_tokens, tokenise};
use pilcrow::parser::{parse_to_ast, token_expected_lookahead, token_lookahead};
use pilcrow::token::{Expected, Token};

fn parse(input: &str) -> Result<AstNode, pilcrow::token::SyntaxError> {
    let raw = tokenise(input).expect("input should tokenize");
    parse_to_ast(filter_tokens(raw))
}

fn parse_err(input: &str) -> pilcrow::token::SyntaxError {
    match parse(input) {
        Err(e) => e,
        Ok(_) => panic!("expected a syntax error"),
    }
}

fn same_tree(a: &AstNode, b: &AstNode) -> bool {
    a.val == b.val && a.children.len() == b.children.len()
        && a.children.iter().zip(b.children.iter()).all(|(x, y)| same_tree(x, y))
}

#[test]
fn missing_equal_fails_with_a_local_error() {
    // "let x" has no `=` and no terminator: the parse fails, naming the
    // missing construct, and no partial tree is returned.
    let e = parse_err("let x");
    assert_eq!(e.expected, Expected::EqualSign);
    assert_eq!(e.found, None);
    assert_eq!(e.position, 2);
}

#[test]
fn simple_let_builds_let_id_literal() {
    let root = parse("let x = 5;").unwrap();
    assert_eq!(root.val, Token::EOL);
    assert_eq!(root.children.len(), 1);
    let letn = &root.children[0];
    assert_eq!(letn.val, Token::LetToken);
    assert_eq!(letn.children.len(), 2);
    assert_eq!(letn.children[0].val, Token::ID("x".to_string()));
    assert!(letn.children[0].children.is_empty());
    assert_eq!(letn.children[1].val, Token::Literal("5".to_string()));
    assert!(letn.children[1].children.is_empty());
}

#[test]
fn let_with_type_annotation_keeps_the_type_child() {
    let root = parse("let x: int = 5;").unwrap();
    let letn = &root.children[0];
    assert_eq!(letn.children.len(), 3);
    assert_eq!(letn.children[0].val, Token::ID("x".to_string()));
    assert_eq!(letn.children[1].val, Token::ID("int".to_string()));
    assert_eq!(letn.children[2].val, Token::Literal("5".to_string()));
}

#[test]
fn if_else_builds_condition_then_and_else_blocks() {
    let root = parse("if a < b { return a; } else { return b; }").unwrap();
    assert_eq!(root.children.len(), 1);
    let ifn = &root.children[0];
    assert_eq!(ifn.val, Token::IfToken);
    assert_eq!(ifn.children.len(), 3);
    let cond = &ifn.children[0];
    assert_eq!(cond.val, Token::LeComparator);
    assert_eq!(cond.children[0].val, Token::ID("a".to_string()));
    assert_eq!(cond.children[1].val, Token::ID("b".to_string()));
    let thenb = &ifn.children[1];
    assert_eq!(thenb.val, Token::LeftBrace);
    assert_eq!(thenb.children.len(), 1);
    assert_eq!(thenb.children[0].val, Token::ReturnToken);
    assert_eq!(thenb.children[0].children[0].val, Token::ID("a".to_string()));
    let elseb = &ifn.children[2];
    assert_eq!(elseb.val, Token::LeftBrace);
    assert_eq!(elseb.children[0].val, Token::ReturnToken);
    assert_eq!(elseb.children[0].children[0].val, Token::ID("b".to_string()));
}

#[test]
fn else_binds_to_the_nearest_if() {
    let root = parse("if a { } else if b { } else { }").unwrap();
    let outer = &root.children[0];
    assert_eq!(outer.val, Token::IfToken);
    assert_eq!(outer.children.len(), 3);
    let inner = &outer.children[2];
    assert_eq!(inner.val, Token::IfToken);
    assert_eq!(inner.children.len(), 3);
    assert_eq!(inner.children[2].val, Token::LeftBrace);
}

#[test]
fn comment_does_not_change_the_tree() {
    let with = parse("let x = 1; // note").unwrap();
    let without = parse("let x = 1;").unwrap();
    assert!(same_tree(&with, &without));
}

#[test]
fn while_builds_condition_and_body() {
    let root = parse("while a < 3 { let b = 1; }").unwrap();
    let w = &root.children[0];
    assert_eq!(w.val, Token::WhileToken);
    assert_eq!(w.children.len(), 2);
    assert_eq!(w.children[0].val, Token::LeComparator);
    assert_eq!(w.children[1].val, Token::LeftBrace);
    assert_eq!(w.children[1].children[0].val, Token::LetToken);
}

#[test]
fn fn_declaration_builds_name_params_arrow_and_body() {
    let root = parse("fn f(a: int) -> int { return a; }").unwrap();
    let f = &root.children[0];
    assert_eq!(f.val, Token::FnToken);
    assert_eq!(f.children.len(), 4);
    assert_eq!(f.children[0].val, Token::ID("f".to_string()));
    let params = &f.children[1];
    assert_eq!(params.val, Token::LeftParen);
    assert_eq!(params.children.len(), 1);
    assert_eq!(params.children[0].val, Token::ID("a".to_string()));
    assert_eq!(params.children[0].children[0].val, Token::ID("int".to_string()));
    let arrow = &f.children[2];
    assert_eq!(arrow.val, Token::RightArrow);
    assert_eq!(arrow.children[0].val, Token::ID("int".to_string()));
    assert_eq!(f.children[3].val, Token::LeftBrace);
}

#[test]
fn fn_without_return_type_has_three_children() {
    let root = parse("fn g() { }").unwrap();
    let f = &root.children[0];
    assert_eq!(f.val, Token::FnToken);
    assert_eq!(f.children.len(), 3);
    assert_eq!(f.children[1].val, Token::LeftParen);
    assert!(f.children[1].children.is_empty());
    assert_eq!(f.children[2].val, Token::LeftBrace);
}

#[test]
fn precedence_binds_multiplication_tighter() {
    let root = parse("let y = 1 + 2 * 3;").unwrap();
    let letn = &root.children[0];
    let plus = &letn.children[1];
    assert_eq!(plus.val, Token::Plus);
    assert_eq!(plus.children[0].val, Token::Literal("1".to_string()));
    let mul = &plus.children[1];
    assert_eq!(mul.val, Token::Asterisk);
    assert_eq!(mul.children[0].val, Token::Literal("2".to_string()));
    assert_eq!(mul.children[1].val, Token::Literal("3".to_string()));
}

#[test]
fn equal_precedence_associates_left() {
    let root = parse("let z = 1 - 2 - 3;").unwrap();
    let outer = &root.children[0].children[1];
    assert_eq!(outer.val, Token::Dash);
    let inner = &outer.children[0];
    assert_eq!(inner.val, Token::Dash);
    assert_eq!(inner.children[0].val, Token::Literal("1".to_string()));
    assert_eq!(inner.children[1].val, Token::Literal("2".to_string()));
    assert_eq!(outer.children[1].val, Token::Literal("3".to_string()));
}

#[test]
fn boolean_operators_have_lowest_precedence() {
    let root = parse("let b = x < 1 && y;").unwrap();
    let and = &root.children[0].children[1];
    assert_eq!(and.val, Token::AndOperation);
    assert_eq!(and.children[0].val, Token::LeComparator);
    assert_eq!(and.children[1].val, Token::ID("y".to_string()));
}

#[test]
fn parenthesized_expression_is_transparent() {
    let root = parse("let y = (1 + 2) * 3;").unwrap();
    let mul = &root.children[0].children[1];
    assert_eq!(mul.val, Token::Asterisk);
    assert_eq!(mul.children[0].val, Token::Plus);
}

#[test]
fn unary_operators_nest() {
    let root = parse("let y = -&x;").unwrap();
    let neg = &root.children[0].children[1];
    assert_eq!(neg.val, Token::Dash);
    let amp = &neg.children[0];
    assert_eq!(amp.val, Token::Ampersand);
    assert_eq!(amp.children[0].val, Token::ID("x".to_string()));
}

#[test]
fn array_literal_and_call_build_their_nodes() {
    let root = parse("let v = [1 2 3];").unwrap();
    let arr = &root.children[0].children[1];
    assert_eq!(arr.val, Token::LeftBracket);
    assert_eq!(arr.children.len(), 3);
    assert_eq!(arr.children[2].val, Token::Literal("3".to_string()));

    let root2 = parse("let w = f(1 x);").unwrap();
    let call = &root2.children[0].children[1];
    assert_eq!(call.val, Token::LeftParen);
    assert_eq!(call.children.len(), 3);
    assert_eq!(call.children[0].val, Token::ID("f".to_string()));
    assert_eq!(call.children[1].val, Token::Literal("1".to_string()));
    assert_eq!(call.children[2].val, Token::ID("x".to_string()));
}

#[test]
fn bare_return_has_no_child() {
    let root = parse("return;").unwrap();
    let r = &root.children[0];
    assert_eq!(r.val, Token::ReturnToken);
    assert!(r.children.is_empty());
}

#[test]
fn empty_input_parses_to_an_empty_root() {
    let root = parse("").unwrap();
    assert_eq!(root.val, Token::EOL);
    assert!(root.children.is_empty());
}

#[test]
fn unclosed_block_reports_the_missing_brace() {
    let e = parse_err("{ let x = 1;");
    assert_eq!(e.expected, Expected::ClosingBrace);
    assert_eq!(e.found, None);
}

#[test]
fn missing_semicolon_is_reported() {
    let e = parse_err("return 5");
    assert_eq!(e.expected, Expected::Semicolon);
    assert_eq!(e.found, None);
}

#[test]
fn stray_token_is_not_a_statement() {
    let e = parse_err("+");
    assert_eq!(e.expected, Expected::Statement);
    assert_eq!(e.found, Some(Token::Plus));
    assert_eq!(e.position, 0);
}

#[test]
fn lookahead_returns_the_requested_token() {
    let toks = vec![Token::LetToken, Token::ID("x".to_string()), Token::Equal];
    let pos: usize = 0;
    assert_eq!(token_lookahead(&toks, &pos, 1), Some(&Token::ID("x".to_string())));
    assert_eq!(token_lookahead(&toks, &pos, 3), None);
    assert_eq!(
        token_expected_lookahead(&toks, &pos, 2),
        Ok(&Token::Equal)
    );
    let e = token_expected_lookahead(&toks, &pos, 5).unwrap_err();
    assert_eq!(e.expected, Expected::AnotherToken);
    assert_eq!(e.found, None);
    assert_eq!(e.position, 0);
}

#[test]
fn ast_node_constructors_build_leaves_and_parents() {
    let leaf = AstNode::new_empty(Token::ID("x".to_string()));
    assert_eq!(leaf.val, Token::ID("x".to_string()));
    assert!(leaf.children.is_empty());
    let parent = AstNode::new(Token::LetToken, vec![leaf]);
    assert_eq!(parent.val, Token::LetToken);
    assert_eq!(parent.children.len(), 1);
}
