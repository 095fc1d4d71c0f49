//! The token catalog: every recognizable lexical unit together with its
//! anchored recognition rule and its canonical literal spelling.
//!
//! The recognition rules are given as spec functions over the unconsumed
//! remainder of the source (`entry_matches` / `entry_len`); the canonical
//! spelling (`token_literal`) breaks ties between overlapping rules — the
//! longer spelling wins. `Token::to_regex_and_literal` exposes the same
//! catalog entry textually, as an anchored pattern and the spelling.

use vstd::prelude::*;
use vstd::string::StringExecFns;

use crate::token::{Token, TokenModel};

verus! {

/// Horizontal space: coalesced into a single `Space` token by the lexer.
pub open spec fn is_space_char(c: char) -> bool {
    c == ' ' || c == '\t'
}

pub open spec fn is_digit_char(c: char) -> bool {
    '0' <= c && c <= '9'
}

pub open spec fn is_letter_char(c: char) -> bool {
    ('a' <= c && c <= 'z') || ('A' <= c && c <= 'Z')
}

/// Characters that may continue an identifier, and that may not follow a
/// keyword spelling.
pub open spec fn is_word_char(c: char) -> bool {
    is_letter_char(c) || is_digit_char(c) || c == '_'
}

/// Characters that may open an identifier. A digit opens a literal instead.
pub open spec fn is_ident_start_char(c: char) -> bool {
    is_letter_char(c) || c == '_'
}

/// The word `w` stands verbatim at position `i` of `s`.
pub open spec fn head_matches(s: Seq<char>, i: int, w: Seq<char>) -> bool {
    0 <= i && i + w.len() <= s.len() && s.subrange(i, i + w.len()) == w
}

/// The word `w` stands at `i` and the character after it (if any) cannot
/// continue an identifier, so the spelling is a whole word of the source.
pub open spec fn keyword_matches(s: Seq<char>, i: int, w: Seq<char>) -> bool {
    head_matches(s, i, w) && (i + w.len() == s.len() || !is_word_char(s[i + w.len()]))
}

/// First position at or after `i` that does not hold horizontal space.
pub open spec fn space_run_end(s: Seq<char>, i: int) -> int
    decreases s.len() - i,
{
    if 0 <= i < s.len() && is_space_char(s[i]) {
        space_run_end(s, i + 1)
    } else {
        i
    }
}

/// First position at or after `i` that does not hold a word character.
pub open spec fn word_run_end(s: Seq<char>, i: int) -> int
    decreases s.len() - i,
{
    if 0 <= i < s.len() && is_word_char(s[i]) {
        word_run_end(s, i + 1)
    } else {
        i
    }
}

/// First position at or after `i` that does not hold a digit.
pub open spec fn digit_run_end(s: Seq<char>, i: int) -> int
    decreases s.len() - i,
{
    if 0 <= i < s.len() && is_digit_char(s[i]) {
        digit_run_end(s, i + 1)
    } else {
        i
    }
}

/// First position at or after `i` that ends a line (carriage return,
/// line feed, or the end of the input).
pub open spec fn line_end(s: Seq<char>, i: int) -> int
    decreases s.len() - i,
{
    if 0 <= i < s.len() && s[i] != '\n' && s[i] != '\r' {
        line_end(s, i + 1)
    } else {
        i
    }
}

/// Scans the body of a string literal from `i` (just after the opening
/// quote). Returns the position just after the closing quote, or `None`
/// when the literal is unterminated. A backslash escapes the character
/// after it.
pub open spec fn string_body_end(s: Seq<char>, i: int) -> Option<int>
    decreases s.len() - i,
{
    if i < 0 || i >= s.len() {
        None
    } else if s[i] == '"' {
        Some(i + 1)
    } else if s[i] == '\\' {
        if i + 1 < s.len() {
            string_body_end(s, i + 2)
        } else {
            None
        }
    } else {
        string_body_end(s, i + 1)
    }
}

pub proof fn lemma_space_run_end(s: Seq<char>, i: int)
    requires
        0 <= i <= s.len(),
    ensures
        i <= space_run_end(s, i) <= s.len(),
        forall|k: int| i <= k < space_run_end(s, i) ==> is_space_char(#[trigger] s[k]),
        space_run_end(s, i) < s.len() ==> !is_space_char(s[space_run_end(s, i)]),
    decreases s.len() - i,
{
    if i < s.len() && is_space_char(s[i]) {
        lemma_space_run_end(s, i + 1);
    }
}

pub proof fn lemma_word_run_end(s: Seq<char>, i: int)
    requires
        0 <= i <= s.len(),
    ensures
        i <= word_run_end(s, i) <= s.len(),
        forall|k: int| i <= k < word_run_end(s, i) ==> is_word_char(#[trigger] s[k]),
        word_run_end(s, i) < s.len() ==> !is_word_char(s[word_run_end(s, i)]),
    decreases s.len() - i,
{
    if i < s.len() && is_word_char(s[i]) {
        lemma_word_run_end(s, i + 1);
    }
}

pub proof fn lemma_digit_run_end(s: Seq<char>, i: int)
    requires
        0 <= i <= s.len(),
    ensures
        i <= digit_run_end(s, i) <= s.len(),
        forall|k: int| i <= k < digit_run_end(s, i) ==> is_digit_char(#[trigger] s[k]),
        digit_run_end(s, i) < s.len() ==> !is_digit_char(s[digit_run_end(s, i)]),
    decreases s.len() - i,
{
    if i < s.len() && is_digit_char(s[i]) {
        lemma_digit_run_end(s, i + 1);
    }
}

pub proof fn lemma_line_end(s: Seq<char>, i: int)
    requires
        0 <= i <= s.len(),
    ensures
        i <= line_end(s, i) <= s.len(),
        forall|k: int| i <= k < line_end(s, i) ==> #[trigger] s[k] != '\n' && s[k] != '\r',
        line_end(s, i) < s.len() ==> s[line_end(s, i)] == '\n' || s[line_end(s, i)] == '\r',
    decreases s.len() - i,
{
    if i < s.len() && s[i] != '\n' && s[i] != '\r' {
        lemma_line_end(s, i + 1);
    }
}

pub proof fn lemma_string_body_end(s: Seq<char>, i: int)
    requires
        0 <= i <= s.len(),
    ensures
        string_body_end(s, i) matches Some(j) ==> i < j <= s.len() && s[j - 1] == '"',
    decreases s.len() - i,
{
    if i < s.len() {
        if s[i] == '\\' {
            if i + 1 < s.len() {
                lemma_string_body_end(s, i + 2);
            }
        } else if s[i] != '"' {
            lemma_string_body_end(s, i + 1);
        }
    }
}

/// The canonical spelling of a catalog entry, used only to break ties when
/// several recognition rules match at the same position: the entry with the
/// longest spelling wins. The catch-all entries (identifier, literal) carry
/// an empty spelling, so every fixed spelling outranks them; the end-of-line
/// entry carries a one-character stand-in weight.
pub open spec fn token_literal(e: TokenModel) -> Seq<char> {
    match e {
        TokenModel::LeftBrace => "{"@,
        TokenModel::RightBrace => "}"@,
        TokenModel::LeftBracket => "["@,
        TokenModel::RightBracket => "]"@,
        TokenModel::LeftParen => "("@,
        TokenModel::RightParen => ")"@,
        TokenModel::Semicolon => ";"@,
        TokenModel::Colon => ":"@,
        TokenModel::Period => "."@,
        TokenModel::RightArrow => "->"@,
        TokenModel::Comment(_) => "//"@,
        TokenModel::LeqComparator => "<="@,
        TokenModel::GeqComparator => ">="@,
        TokenModel::LeComparator => "<"@,
        TokenModel::GeComparator => ">"@,
        TokenModel::EqComparator => "=="@,
        TokenModel::NeqComparator => "!="@,
        TokenModel::AndOperation => "&&"@,
        TokenModel::OrOperation => "||"@,
        TokenModel::Equal => "="@,
        TokenModel::Asterisk => "*"@,
        TokenModel::Ampersand => "&"@,
        TokenModel::Dash => "-"@,
        TokenModel::Slash => "/"@,
        TokenModel::QuestionMark => "?"@,
        TokenModel::Plus => "+"@,
        TokenModel::Pipe => "|"@,
        TokenModel::IfToken => "if"@,
        TokenModel::ElseToken => "else"@,
        TokenModel::WhileToken => "while"@,
        TokenModel::InToken => "in"@,
        TokenModel::FnToken => "fn"@,
        TokenModel::ReturnToken => "return"@,
        TokenModel::LetToken => "let"@,
        TokenModel::ID(_) => Seq::empty(),
        TokenModel::Literal(_) => Seq::empty(),
        TokenModel::EOL => " "@,
        TokenModel::Space => " "@,
    }
}

/// The priority weight of a catalog entry: the length of its canonical
/// spelling.
pub open spec fn entry_priority(e: TokenModel) -> nat {
    token_literal(e).len()
}

/// The textual form of a catalog entry's anchored recognition rule.
pub open spec fn token_pattern(e: TokenModel) -> Seq<char> {
    match e {
        TokenModel::LeftBrace => "^\\{"@,
        TokenModel::RightBrace => "^\\}"@,
        TokenModel::LeftBracket => "^\\["@,
        TokenModel::RightBracket => "^\\]"@,
        TokenModel::LeftParen => "^\\("@,
        TokenModel::RightParen => "^\\)"@,
        TokenModel::Semicolon => "^;"@,
        TokenModel::Colon => "^:"@,
        TokenModel::Period => "^\\."@,
        TokenModel::RightArrow => "^->"@,
        TokenModel::Comment(_) => "^//[^\\r\\n]*"@,
        TokenModel::LeqComparator => "^<="@,
        TokenModel::GeqComparator => "^>="@,
        TokenModel::LeComparator => "^<"@,
        TokenModel::GeComparator => "^>"@,
        TokenModel::EqComparator => "^=="@,
        TokenModel::NeqComparator => "^!="@,
        TokenModel::AndOperation => "^&&"@,
        TokenModel::OrOperation => "^\\|\\|"@,
        TokenModel::Equal => "^="@,
        TokenModel::Asterisk => "^\\*"@,
        TokenModel::Ampersand => "^&"@,
        TokenModel::Dash => "^-"@,
        TokenModel::Slash => "^/"@,
        TokenModel::QuestionMark => "^\\?"@,
        TokenModel::Plus => "^\\+"@,
        TokenModel::Pipe => "^\\|"@,
        TokenModel::IfToken => "^if\\b"@,
        TokenModel::ElseToken => "^else\\b"@,
        TokenModel::WhileToken => "^while\\b"@,
        TokenModel::InToken => "^in\\b"@,
        TokenModel::FnToken => "^fn\\b"@,
        TokenModel::ReturnToken => "^return\\b"@,
        TokenModel::LetToken => "^let\\b"@,
        TokenModel::ID(_) => "^[a-zA-Z_][a-zA-Z0-9_]*"@,
        TokenModel::Literal(_) => "^(?:\"(?:[^\\\\\"]|\\\\(?s:.))*\"|[0-9]+)"@,
        TokenModel::EOL => "^\\r?\\n"@,
        TokenModel::Space => "^[ \\t]+"@,
    }
}

/// Whether the catalog entry `e` matches at position `i` of `s`. Every rule
/// is anchored: it speaks only of the characters from `i` on. The payload of
/// a payload-carrying entry is irrelevant here; the entry stands for its
/// whole category.
pub open spec fn entry_matches(e: TokenModel, s: Seq<char>, i: int) -> bool {
    match e {
        TokenModel::Comment(_) => head_matches(s, i, "//"@),
        TokenModel::IfToken => keyword_matches(s, i, "if"@),
        TokenModel::ElseToken => keyword_matches(s, i, "else"@),
        TokenModel::WhileToken => keyword_matches(s, i, "while"@),
        TokenModel::InToken => keyword_matches(s, i, "in"@),
        TokenModel::FnToken => keyword_matches(s, i, "fn"@),
        TokenModel::ReturnToken => keyword_matches(s, i, "return"@),
        TokenModel::LetToken => keyword_matches(s, i, "let"@),
        TokenModel::ID(_) => 0 <= i < s.len() && is_ident_start_char(s[i]),
        TokenModel::Literal(_) => 0 <= i < s.len() && (is_digit_char(s[i]) || (s[i] == '"'
            && string_body_end(s, i + 1) is Some)),
        TokenModel::EOL => 0 <= i && ((i < s.len() && s[i] == '\n') || (i + 1 < s.len() && s[i]
            == '\r' && s[i + 1] == '\n')),
        TokenModel::Space => 0 <= i < s.len() && is_space_char(s[i]),
        _ => head_matches(s, i, token_literal(e)),
    }
}

/// How many characters the catalog entry `e` consumes when it matches at
/// position `i` of `s`: fixed entries consume their spelling, the
/// variable-length entries re-scan the remainder with their full rule.
pub open spec fn entry_len(e: TokenModel, s: Seq<char>, i: int) -> int
    recommends
        entry_matches(e, s, i),
{
    match e {
        TokenModel::Comment(_) => line_end(s, i) - i,
        TokenModel::ID(_) => word_run_end(s, i) - i,
        TokenModel::Literal(_) => if 0 <= i < s.len() && is_digit_char(s[i]) {
            digit_run_end(s, i) - i
        } else {
            match string_body_end(s, i + 1) {
                Some(j) => j - i,
                None => 0,
            }
        },
        TokenModel::EOL => if 0 <= i < s.len() && s[i] == '\n' {
            1
        } else {
            2
        },
        TokenModel::Space => space_run_end(s, i) - i,
        _ => token_literal(e).len() as int,
    }
}

/// The fixed catalog, one representative entry per lexical category, in the
/// order the catalog is enumerated. The `Space` category is not listed: the
/// lexer coalesces horizontal space before consulting the catalog.
pub open spec fn spec_catalog() -> Seq<TokenModel> {
    seq![
        TokenModel::LeftBrace,
        TokenModel::RightBrace,
        TokenModel::LeftBracket,
        TokenModel::RightBracket,
        TokenModel::LeftParen,
        TokenModel::RightParen,
        TokenModel::Semicolon,
        TokenModel::Colon,
        TokenModel::Period,
        TokenModel::RightArrow,
        TokenModel::Comment(Seq::empty()),
        TokenModel::LeqComparator,
        TokenModel::GeqComparator,
        TokenModel::LeComparator,
        TokenModel::GeComparator,
        TokenModel::EqComparator,
        TokenModel::NeqComparator,
        TokenModel::AndOperation,
        TokenModel::OrOperation,
        TokenModel::Equal,
        TokenModel::Asterisk,
        TokenModel::Ampersand,
        TokenModel::Dash,
        TokenModel::Slash,
        TokenModel::QuestionMark,
        TokenModel::Plus,
        TokenModel::Pipe,
        TokenModel::IfToken,
        TokenModel::ElseToken,
        TokenModel::WhileToken,
        TokenModel::InToken,
        TokenModel::FnToken,
        TokenModel::ReturnToken,
        TokenModel::LetToken,
        TokenModel::ID(Seq::empty()),
        TokenModel::Literal(Seq::empty()),
        TokenModel::EOL,
    ]
}

/// Every catalog entry, one representative token per lexical category.
pub fn all_tokens() -> (r: Vec<Token>)
    ensures
        r.deep_view() == spec_catalog(),
{
    let mut r: Vec<Token> = Vec::new();
    r.push(Token::LeftBrace);
    r.push(Token::RightBrace);
    r.push(Token::LeftBracket);
    r.push(Token::RightBracket);
    r.push(Token::LeftParen);
    r.push(Token::RightParen);
    r.push(Token::Semicolon);
    r.push(Token::Colon);
    r.push(Token::Period);
    r.push(Token::RightArrow);
    r.push(Token::Comment(String::new()));
    r.push(Token::LeqComparator);
    r.push(Token::GeqComparator);
    r.push(Token::LeComparator);
    r.push(Token::GeComparator);
    r.push(Token::EqComparator);
    r.push(Token::NeqComparator);
    r.push(Token::AndOperation);
    r.push(Token::OrOperation);
    r.push(Token::Equal);
    r.push(Token::Asterisk);
    r.push(Token::Ampersand);
    r.push(Token::Dash);
    r.push(Token::Slash);
    r.push(Token::QuestionMark);
    r.push(Token::Plus);
    r.push(Token::Pipe);
    r.push(Token::IfToken);
    r.push(Token::ElseToken);
    r.push(Token::WhileToken);
    r.push(Token::InToken);
    r.push(Token::FnToken);
    r.push(Token::ReturnToken);
    r.push(Token::LetToken);
    r.push(Token::ID(String::new()));
    r.push(Token::Literal(String::new()));
    r.push(Token::EOL);
    proof {
        assert(r.deep_view() =~= spec_catalog());
    }
    r
}

impl Token {
    /// The catalog entry for this token's category, textually: an anchored
    /// recognition pattern and the canonical literal spelling used for
    /// priority tie-breaking.
    pub fn to_regex_and_literal(&self) -> (r: (String, String))
        ensures
            r.0@ == token_pattern(self@),
            r.1@ == token_literal(self@),
    {
        match self {
            Token::LeftBrace => (String::from_str("^\\{"), String::from_str("{")),
            Token::RightBrace => (String::from_str("^\\}"), String::from_str("}")),
            Token::LeftBracket => (String::from_str("^\\["), String::from_str("[")),
            Token::RightBracket => (String::from_str("^\\]"), String::from_str("]")),
            Token::LeftParen => (String::from_str("^\\("), String::from_str("(")),
            Token::RightParen => (String::from_str("^\\)"), String::from_str(")")),
            Token::Semicolon => (String::from_str("^;"), String::from_str(";")),
            Token::Colon => (String::from_str("^:"), String::from_str(":")),
            Token::Period => (String::from_str("^\\."), String::from_str(".")),
            Token::RightArrow => (String::from_str("^->"), String::from_str("->")),
            Token::Comment(_) => (String::from_str("^//[^\\r\\n]*"), String::from_str("//")),
            Token::LeqComparator => (String::from_str("^<="), String::from_str("<=")),
            Token::GeqComparator => (String::from_str("^>="), String::from_str(">=")),
            Token::LeComparator => (String::from_str("^<"), String::from_str("<")),
            Token::GeComparator => (String::from_str("^>"), String::from_str(">")),
            Token::EqComparator => (String::from_str("^=="), String::from_str("==")),
            Token::NeqComparator => (String::from_str("^!="), String::from_str("!=")),
            Token::AndOperation => (String::from_str("^&&"), String::from_str("&&")),
            Token::OrOperation => (String::from_str("^\\|\\|"), String::from_str("||")),
            Token::Equal => (String::from_str("^="), String::from_str("=")),
            Token::Asterisk => (String::from_str("^\\*"), String::from_str("*")),
            Token::Ampersand => (String::from_str("^&"), String::from_str("&")),
            Token::Dash => (String::from_str("^-"), String::from_str("-")),
            Token::Slash => (String::from_str("^/"), String::from_str("/")),
            Token::QuestionMark => (String::from_str("^\\?"), String::from_str("?")),
            Token::Plus => (String::from_str("^\\+"), String::from_str("+")),
            Token::Pipe => (String::from_str("^\\|"), String::from_str("|")),
            Token::IfToken => (String::from_str("^if\\b"), String::from_str("if")),
            Token::ElseToken => (String::from_str("^else\\b"), String::from_str("else")),
            Token::WhileToken => (String::from_str("^while\\b"), String::from_str("while")),
            Token::InToken => (String::from_str("^in\\b"), String::from_str("in")),
            Token::FnToken => (String::from_str("^fn\\b"), String::from_str("fn")),
            Token::ReturnToken => (String::from_str("^return\\b"), String::from_str("return")),
            Token::LetToken => (String::from_str("^let\\b"), String::from_str("let")),
            Token::ID(_) => (String::from_str("^[a-zA-Z_][a-zA-Z0-9_]*"), String::new()),
            Token::Literal(_) => (
                String::from_str("^(?:\"(?:[^\\\\\"]|\\\\(?s:.))*\"|[0-9]+)"),
                String::new(),
            ),
            Token::EOL => (String::from_str("^\\r?\\n"), String::from_str(" ")),
            Token::Space => (String::from_str("^[ \\t]+"), String::from_str(" ")),
        }
    }
}

} // verus!
