use pilcrow::catalog::all_tokens;
use pilcrow::lexer::{filter_tokens, tokenise};
use pilcrow::token::Token;

fn lex(input: &str) -> Vec<Token> {
    tokenise(input).expect("input should tokenize")
}

#[test]
fn single_fixed_tokens_stay_whole() {
    // Each fixed spelling is one token, never split into shorter pieces.
    assert_eq!(lex("<="), vec![Token::EOL, Token::LeqComparator]);
    assert_eq!(lex(">="), vec![Token::EOL, Token::GeqComparator]);
    assert_eq!(lex("=="), vec![Token::EOL, Token::EqComparator]);
    assert_eq!(lex("!="), vec![Token::EOL, Token::NeqComparator]);
    assert_eq!(lex("&&"), vec![Token::EOL, Token::AndOperation]);
    assert_eq!(lex("||"), vec![Token::EOL, Token::OrOperation]);
    assert_eq!(lex("->"), vec![Token::EOL, Token::RightArrow]);
    assert_eq!(lex("{"), vec![Token::EOL, Token::LeftBrace]);
    assert_eq!(lex(";"), vec![Token::EOL, Token::Semicolon]);
    assert_eq!(lex("return"), vec![Token::EOL, Token::ReturnToken]);
    assert_eq!(lex("while"), vec![Token::EOL, Token::WhileToken]);
    assert_eq!(lex("//"), vec![Token::EOL, Token::Comment("//".to_string())]);
}

#[test]
fn keyword_boundary_makes_one_identifier() {
    assert_eq!(lex("iffy"), vec![Token::EOL, Token::ID("iffy".to_string())]);
    assert_eq!(lex("lety"), vec![Token::EOL, Token::ID("lety".to_string())]);
    assert_eq!(lex("ifx"), vec![Token::EOL, Token::ID("ifx".to_string())]);
    assert_eq!(lex("if_"), vec![Token::EOL, Token::ID("if_".to_string())]);
    assert_eq!(lex("return2"), vec![Token::EOL, Token::ID("return2".to_string())]);
}

#[test]
fn keyword_before_boundary_is_a_keyword() {
    assert_eq!(
        lex("if x"),
        vec![
            Token::EOL,
            Token::IfToken,
            Token::Space,
            Token::ID("x".to_string()),
        ]
    );
}

#[test]
fn whitespace_runs_coalesce_to_one_space() {
    let one = lex("a b");
    let three = lex("a   b");
    let tabs = lex("a \t  b");
    let expected = vec![
        Token::EOL,
        Token::ID("a".to_string()),
        Token::Space,
        Token::ID("b".to_string()),
    ];
    assert_eq!(one, expected);
    assert_eq!(three, expected);
    assert_eq!(tabs, expected);
}

#[test]
fn no_two_adjacent_space_tokens() {
    let toks = lex("a  b\n  c   \t d");
    for w in toks.windows(2) {
        assert!(!(w[0] == Token::Space && w[1] == Token::Space));
    }
}

#[test]
fn simple_let_statement_tokens() {
    let raw = lex("let x = 5;");
    assert_eq!(
        raw,
        vec![
            Token::EOL,
            Token::LetToken,
            Token::Space,
            Token::ID("x".to_string()),
            Token::Space,
            Token::Equal,
            Token::Space,
            Token::Literal("5".to_string()),
            Token::Semicolon,
        ]
    );
    let filtered = filter_tokens(raw);
    assert_eq!(
        filtered,
        vec![
            Token::LetToken,
            Token::ID("x".to_string()),
            Token::Equal,
            Token::Literal("5".to_string()),
            Token::Semicolon,
        ]
    );
}

#[test]
fn comment_is_a_distinct_token_and_filtered_out() {
    let raw = lex("let x = 1; // note");
    assert!(raw.contains(&Token::Comment("// note".to_string())));
    let filtered = filter_tokens(raw);
    assert_eq!(
        filtered,
        vec![
            Token::LetToken,
            Token::ID("x".to_string()),
            Token::Equal,
            Token::Literal("1".to_string()),
            Token::Semicolon,
        ]
    );
}

#[test]
fn comment_stops_before_the_line_end() {
    assert_eq!(
        lex("// c\nx"),
        vec![
            Token::EOL,
            Token::Comment("// c".to_string()),
            Token::EOL,
            Token::ID("x".to_string()),
        ]
    );
}

#[test]
fn string_literals_keep_their_exact_text() {
    assert_eq!(
        lex("\"hi there\""),
        vec![Token::EOL, Token::Literal("\"hi there\"".to_string())]
    );
    // A backslash escapes the next character, a quote included.
    assert_eq!(
        lex("\"a\\\"b\""),
        vec![Token::EOL, Token::Literal("\"a\\\"b\"".to_string())]
    );
}

#[test]
fn carriage_return_line_feed_is_one_eol() {
    assert_eq!(lex("\r\n"), vec![Token::EOL, Token::EOL]);
}

#[test]
fn unrecognized_character_is_a_lex_error() {
    let e = tokenise("ab #").unwrap_err();
    assert_eq!(e.position, 3);
    assert_eq!(e.character, '#');
}

#[test]
fn lone_bang_is_a_lex_error() {
    let e = tokenise("!").unwrap_err();
    assert_eq!(e.position, 0);
    assert_eq!(e.character, '!');
}

#[test]
fn unterminated_string_is_a_lex_error() {
    let e = tokenise("x \"abc").unwrap_err();
    assert_eq!(e.position, 2);
    assert_eq!(e.character, '"');
}

#[test]
fn concatenated_recognizable_pieces_lex_totally() {
    // Concatenations of recognizable pieces, covering every category:
    // the lexer never fails and never drops input.
    let program = "fn f(a: T) -> T { return a; }\nlet x = [1 2];\n// done\nx <= 5 && f(x) != 2";
    assert!(tokenise(program).is_ok());
    // Pieces that merge across their boundary still lex totally.
    assert_eq!(lex("<="), vec![Token::EOL, Token::LeqComparator]);
    assert_eq!(
        lex("<=="),
        vec![Token::EOL, Token::LeqComparator, Token::Equal]
    );
    assert_eq!(
        lex("///x"),
        vec![Token::EOL, Token::Comment("///x".to_string())]
    );
}

#[test]
fn catalog_lists_every_entry_once() {
    let cat = all_tokens();
    assert_eq!(cat.len(), 37);
    assert!(cat.contains(&Token::LeqComparator));
    assert!(!cat.contains(&Token::Space));
}

#[test]
fn catalog_entries_expose_pattern_and_literal() {
    assert_eq!(
        Token::LeqComparator.to_regex_and_literal(),
        ("^<=".to_string(), "<=".to_string())
    );
    assert_eq!(
        Token::LeftBrace.to_regex_and_literal(),
        ("^\\{".to_string(), "{".to_string())
    );
    assert_eq!(Token::IfToken.to_regex_and_literal().1, "if".to_string());
    // The catch-all entries carry an empty spelling, so every fixed
    // spelling outranks them.
    assert_eq!(Token::ID(String::new()).to_regex_and_literal().1, String::new());
    assert_eq!(Token::Literal(String::new()).to_regex_and_literal().1, String::new());
}

#[test]
fn longest_literal_wins_over_prefix() {
    // "<" has a shorter spelling than "<=": at the same position the
    // longer spelling is selected.
    assert_eq!(lex("<"), vec![Token::EOL, Token::LeComparator]);
    assert_eq!(lex("< ="), vec![
        Token::EOL,
        Token::LeComparator,
        Token::Space,
        Token::Equal,
    ]);
    assert_eq!(lex("<="), vec![Token::EOL, Token::LeqComparator]);
}

#[test]
fn digits_lex_as_literals_not_identifiers() {
    assert_eq!(lex("5"), vec![Token::EOL, Token::Literal("5".to_string())]);
    assert_eq!(
        lex("5x"),
        vec![
            Token::EOL,
            Token::Literal("5".to_string()),
            Token::ID("x".to_string()),
        ]
    );
    assert_eq!(lex("x5"), vec![Token::EOL, Token::ID("x5".to_string())]);
}
