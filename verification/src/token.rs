//! The token data model: every lexical category of the language, its ghost
//! counterpart used in specifications, and the typed errors of the front end.

use vstd::prelude::*;

verus! {

/// A classified minimal lexical unit of source text.
///
/// Most variants are bare markers (punctuation, operators, keywords and
/// layout); `Comment`, `ID` and `Literal` carry the exact matched text.
/// Tokens are immutable once produced and equality is structural.
#[derive(Debug, Clone, PartialEq, Eq)]
pub enum Token {
    // Structural and statement punctuation.
    LeftBrace,
    RightBrace,
    LeftBracket,
    RightBracket,
    LeftParen,
    RightParen,
    Semicolon,
    Colon,
    Period,
    RightArrow,
    // A line comment, stored with its full text (terminator excluded).
    Comment(String),
    // Comparators and boolean operators.
    LeqComparator,
    GeqComparator,
    LeComparator,
    GeComparator,
    EqComparator,
    NeqComparator,
    AndOperation,
    OrOperation,
    // Single-character operators.
    Equal,
    Asterisk,
    Ampersand,
    Dash,
    Slash,
    QuestionMark,
    Plus,
    Pipe,
    // Keywords.
    IfToken,
    ElseToken,
    WhileToken,
    InToken,
    FnToken,
    ReturnToken,
    LetToken,
    // Payload-carrying catch-alls: identifiers and literals.
    ID(String),
    Literal(String),
    // Layout.
    EOL,
    Space,
}

/// Ghost counterpart of `Token`: payloads appear as character sequences, so
/// contracts can speak of the matched text directly.
pub enum TokenModel {
    LeftBrace,
    RightBrace,
    LeftBracket,
    RightBracket,
    LeftParen,
    RightParen,
    Semicolon,
    Colon,
    Period,
    RightArrow,
    Comment(Seq<char>),
    LeqComparator,
    GeqComparator,
    LeComparator,
    GeComparator,
    EqComparator,
    NeqComparator,
    AndOperation,
    OrOperation,
    Equal,
    Asterisk,
    Ampersand,
    Dash,
    Slash,
    QuestionMark,
    Plus,
    Pipe,
    IfToken,
    ElseToken,
    WhileToken,
    InToken,
    FnToken,
    ReturnToken,
    LetToken,
    ID(Seq<char>),
    Literal(Seq<char>),
    EOL,
    Space,
}

impl View for Token {
    type V = TokenModel;

    open spec fn view(&self) -> TokenModel {
        match self {
            Token::LeftBrace => TokenModel::LeftBrace,
            Token::RightBrace => TokenModel::RightBrace,
            Token::LeftBracket => TokenModel::LeftBracket,
            Token::RightBracket => TokenModel::RightBracket,
            Token::LeftParen => TokenModel::LeftParen,
            Token::RightParen => TokenModel::RightParen,
            Token::Semicolon => TokenModel::Semicolon,
            Token::Colon => TokenModel::Colon,
            Token::Period => TokenModel::Period,
            Token::RightArrow => TokenModel::RightArrow,
            Token::Comment(s) => TokenModel::Comment(s@),
            Token::LeqComparator => TokenModel::LeqComparator,
            Token::GeqComparator => TokenModel::GeqComparator,
            Token::LeComparator => TokenModel::LeComparator,
            Token::GeComparator => TokenModel::GeComparator,
            Token::EqComparator => TokenModel::EqComparator,
            Token::NeqComparator => TokenModel::NeqComparator,
            Token::AndOperation => TokenModel::AndOperation,
            Token::OrOperation => TokenModel::OrOperation,
            Token::Equal => TokenModel::Equal,
            Token::Asterisk => TokenModel::Asterisk,
            Token::Ampersand => TokenModel::Ampersand,
            Token::Dash => TokenModel::Dash,
            Token::Slash => TokenModel::Slash,
            Token::QuestionMark => TokenModel::QuestionMark,
            Token::Plus => TokenModel::Plus,
            Token::Pipe => TokenModel::Pipe,
            Token::IfToken => TokenModel::IfToken,
            Token::ElseToken => TokenModel::ElseToken,
            Token::WhileToken => TokenModel::WhileToken,
            Token::InToken => TokenModel::InToken,
            Token::FnToken => TokenModel::FnToken,
            Token::ReturnToken => TokenModel::ReturnToken,
            Token::LetToken => TokenModel::LetToken,
            Token::ID(s) => TokenModel::ID(s@),
            Token::Literal(s) => TokenModel::Literal(s@),
            Token::EOL => TokenModel::EOL,
            Token::Space => TokenModel::Space,
        }
    }
}

impl DeepView for Token {
    type V = TokenModel;

    open spec fn deep_view(&self) -> TokenModel {
        self.view()
    }
}

/// An owned copy of a token, equal to the original in every contract.
/// (The derived `Clone` carries no specification, so the parser uses this.)
pub fn copy_token(t: &Token) -> (r: Token)
    ensures
        r@ == t@,
{
    match t {
        Token::LeftBrace => Token::LeftBrace,
        Token::RightBrace => Token::RightBrace,
        Token::LeftBracket => Token::LeftBracket,
        Token::RightBracket => Token::RightBracket,
        Token::LeftParen => Token::LeftParen,
        Token::RightParen => Token::RightParen,
        Token::Semicolon => Token::Semicolon,
        Token::Colon => Token::Colon,
        Token::Period => Token::Period,
        Token::RightArrow => Token::RightArrow,
        Token::Comment(s) => Token::Comment(s.clone()),
        Token::LeqComparator => Token::LeqComparator,
        Token::GeqComparator => Token::GeqComparator,
        Token::LeComparator => Token::LeComparator,
        Token::GeComparator => Token::GeComparator,
        Token::EqComparator => Token::EqComparator,
        Token::NeqComparator => Token::NeqComparator,
        Token::AndOperation => Token::AndOperation,
        Token::OrOperation => Token::OrOperation,
        Token::Equal => Token::Equal,
        Token::Asterisk => Token::Asterisk,
        Token::Ampersand => Token::Ampersand,
        Token::Dash => Token::Dash,
        Token::Slash => Token::Slash,
        Token::QuestionMark => Token::QuestionMark,
        Token::Plus => Token::Plus,
        Token::Pipe => Token::Pipe,
        Token::IfToken => Token::IfToken,
        Token::ElseToken => Token::ElseToken,
        Token::WhileToken => Token::WhileToken,
        Token::InToken => Token::InToken,
        Token::FnToken => Token::FnToken,
        Token::ReturnToken => Token::ReturnToken,
        Token::LetToken => Token::LetToken,
        Token::ID(s) => Token::ID(s.clone()),
        Token::Literal(s) => Token::Literal(s.clone()),
        Token::EOL => Token::EOL,
        Token::Space => Token::Space,
    }
}

/// A layout token separates meaningful tokens but carries no grammatical
/// role; the parser consumes a stream with these removed.
pub open spec fn is_layout(t: TokenModel) -> bool {
    t is Space || t is EOL || t is Comment
}

/// Failure of the lexer: no catalog pattern matched. `position` is the length
/// of the already-consumed prefix, in characters, and `character` is the
/// offending character found there.
#[derive(Debug, Clone, PartialEq, Eq)]
pub struct LexError {
    pub position: usize,
    pub character: char,
}

/// The construct the parser was waiting for when it failed.
#[derive(Debug, Clone, Copy, PartialEq, Eq, Structural)]
pub enum Expected {
    Identifier,
    TypeName,
    EqualSign,
    Semicolon,
    Expression,
    Statement,
    Block,
    Parameter,
    OpeningParen,
    ClosingParen,
    ClosingBrace,
    ClosingBracket,
    AnotherToken,
}

/// Failure of the parser: the grammar required `expected` at token index
/// `position` of the filtered stream, but `found` stood there (`None` when
/// the stream ended too early).
#[derive(Debug, Clone, PartialEq, Eq)]
pub struct SyntaxError {
    pub expected: Expected,
    pub found: Option<Token>,
    pub position: usize,
}

/// Ghost counterpart of `SyntaxError`.
pub struct SyntaxErrorModel {
    pub expected: Expected,
    pub found: Option<TokenModel>,
    pub position: int,
}

impl View for SyntaxError {
    type V = SyntaxErrorModel;

    open spec fn view(&self) -> SyntaxErrorModel {
        SyntaxErrorModel {
            expected: self.expected,
            found: match self.found {
                Some(t) => Some(t@),
                None => None,
            },
            position: self.position as int,
        }
    }
}

} // verus!
