//! The lexer: a single left-to-right pass that turns source text into the
//! ordered token sequence, selecting at every position the catalog entry
//! with the longest canonical spelling among those that match.
//!
//! `spec_lex_from` is the mathematical definition of that pass; `tokenise`
//! is the executable lexer, proved to return exactly what the definition
//! says, or the `LexError` the definition places.

use vstd::prelude::*;
use vstd::string::StrSliceExecFns;
use vstd::string::StringExecFns;

use crate::catalog::{
    digit_run_end, is_digit_char, is_ident_start_char, is_space_char, is_word_char, head_matches,
    keyword_matches, lemma_digit_run_end, lemma_line_end, lemma_space_run_end,
    lemma_string_body_end, lemma_word_run_end, line_end, space_run_end, string_body_end,
    word_run_end,
};
use crate::token::{is_layout, LexError, Token, TokenModel};

verus! {

/// The next token at position `i` of `s` (never a `Space`: runs of
/// horizontal space are consumed before the catalog is consulted), together
/// with the number of characters it consumes; `None` when no catalog entry
/// matches at `i`. Where several entries match, the one with the longest
/// canonical spelling is taken, which gives keywords priority over the
/// identifier catch-all and two-character operators priority over their
/// one-character prefixes.
pub open spec fn spec_step_at(s: Seq<char>, i: int) -> Option<(TokenModel, int)>
    recommends
        0 <= i < s.len(),
        !is_space_char(s[i]),
{
    let c = s[i];
    if c == '{' {
        Some((TokenModel::LeftBrace, 1int))
    } else if c == '}' {
        Some((TokenModel::RightBrace, 1int))
    } else if c == '[' {
        Some((TokenModel::LeftBracket, 1int))
    } else if c == ']' {
        Some((TokenModel::RightBracket, 1int))
    } else if c == '(' {
        Some((TokenModel::LeftParen, 1int))
    } else if c == ')' {
        Some((TokenModel::RightParen, 1int))
    } else if c == ';' {
        Some((TokenModel::Semicolon, 1int))
    } else if c == ':' {
        Some((TokenModel::Colon, 1int))
    } else if c == '.' {
        Some((TokenModel::Period, 1int))
    } else if c == '?' {
        Some((TokenModel::QuestionMark, 1int))
    } else if c == '+' {
        Some((TokenModel::Plus, 1int))
    } else if c == '*' {
        Some((TokenModel::Asterisk, 1int))
    } else if c == '-' {
        if i + 1 < s.len() && s[i + 1] == '>' {
            Some((TokenModel::RightArrow, 2int))
        } else {
            Some((TokenModel::Dash, 1int))
        }
    } else if c == '<' {
        if i + 1 < s.len() && s[i + 1] == '=' {
            Some((TokenModel::LeqComparator, 2int))
        } else {
            Some((TokenModel::LeComparator, 1int))
        }
    } else if c == '>' {
        if i + 1 < s.len() && s[i + 1] == '=' {
            Some((TokenModel::GeqComparator, 2int))
        } else {
            Some((TokenModel::GeComparator, 1int))
        }
    } else if c == '=' {
        if i + 1 < s.len() && s[i + 1] == '=' {
            Some((TokenModel::EqComparator, 2int))
        } else {
            Some((TokenModel::Equal, 1int))
        }
    } else if c == '!' {
        if i + 1 < s.len() && s[i + 1] == '=' {
            Some((TokenModel::NeqComparator, 2int))
        } else {
            None
        }
    } else if c == '&' {
        if i + 1 < s.len() && s[i + 1] == '&' {
            Some((TokenModel::AndOperation, 2int))
        } else {
            Some((TokenModel::Ampersand, 1int))
        }
    } else if c == '|' {
        if i + 1 < s.len() && s[i + 1] == '|' {
            Some((TokenModel::OrOperation, 2int))
        } else {
            Some((TokenModel::Pipe, 1int))
        }
    } else if c == '/' {
        if i + 1 < s.len() && s[i + 1] == '/' {
            let j = line_end(s, i);
            Some((TokenModel::Comment(s.subrange(i, j)), j - i))
        } else {
            Some((TokenModel::Slash, 1int))
        }
    } else if c == '\n' {
        Some((TokenModel::EOL, 1int))
    } else if c == '\r' {
        if i + 1 < s.len() && s[i + 1] == '\n' {
            Some((TokenModel::EOL, 2int))
        } else {
            None
        }
    } else if c == '"' {
        match string_body_end(s, i + 1) {
            Some(j) => Some((TokenModel::Literal(s.subrange(i, j)), j - i)),
            None => None,
        }
    } else if is_digit_char(c) {
        let j = digit_run_end(s, i);
        Some((TokenModel::Literal(s.subrange(i, j)), j - i))
    } else if is_ident_start_char(c) {
        if keyword_matches(s, i, "if"@) {
            Some((TokenModel::IfToken, 2int))
        } else if keyword_matches(s, i, "else"@) {
            Some((TokenModel::ElseToken, 4int))
        } else if keyword_matches(s, i, "while"@) {
            Some((TokenModel::WhileToken, 5int))
        } else if keyword_matches(s, i, "in"@) {
            Some((TokenModel::InToken, 2int))
        } else if keyword_matches(s, i, "fn"@) {
            Some((TokenModel::FnToken, 2int))
        } else if keyword_matches(s, i, "return"@) {
            Some((TokenModel::ReturnToken, 6int))
        } else if keyword_matches(s, i, "let"@) {
            Some((TokenModel::LetToken, 3int))
        } else {
            let j = word_run_end(s, i);
            Some((TokenModel::ID(s.subrange(i, j)), j - i))
        }
    } else {
        None
    }
}

/// A step always consumes at least one character and never runs past the
/// end of the input.
pub proof fn lemma_spec_step_at_bounds(s: Seq<char>, i: int)
    requires
        0 <= i < s.len(),
    ensures
        spec_step_at(s, i) matches Some(p) ==> 1 <= p.1 && i + p.1 <= s.len(),
{
    reveal_strlit("if");
    reveal_strlit("else");
    reveal_strlit("while");
    reveal_strlit("in");
    reveal_strlit("fn");
    reveal_strlit("return");
    reveal_strlit("let");
    let c = s[i];
    if c == '/' && i + 1 < s.len() && s[i + 1] == '/' {
        lemma_line_end(s, i);
        assert(line_end(s, i) > i);
    }
    if c == '"' {
        lemma_string_body_end(s, i + 1);
    }
    if is_digit_char(c) {
        lemma_digit_run_end(s, i);
        assert(digit_run_end(s, i) > i);
    }
    if is_ident_start_char(c) {
        lemma_word_run_end(s, i);
        assert(word_run_end(s, i) > i);
    }
}

/// What lexing the whole remainder yields: the token sequence, or the
/// position where no catalog entry matched.
pub enum LexOutcome {
    Lexed(Seq<TokenModel>),
    NoMatch(int),
}

/// Prefixes already-produced tokens onto the outcome of lexing a remainder.
pub open spec fn lex_prepend(pre: Seq<TokenModel>, o: LexOutcome) -> LexOutcome {
    match o {
        LexOutcome::Lexed(ts) => LexOutcome::Lexed(pre + ts),
        LexOutcome::NoMatch(p) => LexOutcome::NoMatch(p),
    }
}

/// The token sequence of `s` from position `i` on: a run of horizontal
/// space becomes exactly one `Space` token however long it is, and any
/// other position yields what `spec_step_at` selects there.
pub open spec fn spec_lex_from(s: Seq<char>, i: int) -> LexOutcome
    recommends
        0 <= i <= s.len(),
    decreases s.len() - i,
        via spec_lex_from_dec
{
    if !(0 <= i < s.len()) {
        LexOutcome::Lexed(Seq::empty())
    } else if is_space_char(s[i]) {
        lex_prepend(seq![TokenModel::Space], spec_lex_from(s, space_run_end(s, i)))
    } else {
        match spec_step_at(s, i) {
            Some(p) => lex_prepend(seq![p.0], spec_lex_from(s, i + p.1)),
            None => LexOutcome::NoMatch(i),
        }
    }
}

#[via_fn]
proof fn spec_lex_from_dec(s: Seq<char>, i: int) {
    if 0 <= i < s.len() {
        if is_space_char(s[i]) {
            lemma_space_run_end(s, i);
        } else {
            lemma_spec_step_at_bounds(s, i);
        }
    }
}

fn exec_is_space(c: char) -> (b: bool)
    ensures
        b == is_space_char(c),
{
    c == ' ' || c == '\t'
}

fn exec_is_digit(c: char) -> (b: bool)
    ensures
        b == is_digit_char(c),
{
    '0' <= c && c <= '9'
}

fn exec_is_word(c: char) -> (b: bool)
    ensures
        b == is_word_char(c),
{
    ('a' <= c && c <= 'z') || ('A' <= c && c <= 'Z') || ('0' <= c && c <= '9') || c == '_'
}

fn exec_is_ident_start(c: char) -> (b: bool)
    ensures
        b == is_ident_start_char(c),
{
    ('a' <= c && c <= 'z') || ('A' <= c && c <= 'Z') || c == '_'
}

fn exec_space_run_end(txt: &str, i: usize) -> (j: usize)
    requires
        i <= txt@.len(),
    ensures
        j == space_run_end(txt@, i as int),
    decreases txt@.len() - i,
{
    if i < txt.unicode_len() {
        if exec_is_space(txt.get_char(i)) {
            return exec_space_run_end(txt, i + 1);
        }
    }
    i
}

fn exec_word_run_end(txt: &str, i: usize) -> (j: usize)
    requires
        i <= txt@.len(),
    ensures
        j == word_run_end(txt@, i as int),
    decreases txt@.len() - i,
{
    if i < txt.unicode_len() {
        if exec_is_word(txt.get_char(i)) {
            return exec_word_run_end(txt, i + 1);
        }
    }
    i
}

fn exec_digit_run_end(txt: &str, i: usize) -> (j: usize)
    requires
        i <= txt@.len(),
    ensures
        j == digit_run_end(txt@, i as int),
    decreases txt@.len() - i,
{
    if i < txt.unicode_len() {
        if exec_is_digit(txt.get_char(i)) {
            return exec_digit_run_end(txt, i + 1);
        }
    }
    i
}

fn exec_line_end(txt: &str, i: usize) -> (j: usize)
    requires
        i <= txt@.len(),
    ensures
        j == line_end(txt@, i as int),
    decreases txt@.len() - i,
{
    if i < txt.unicode_len() {
        let c = txt.get_char(i);
        if c != '\n' && c != '\r' {
            return exec_line_end(txt, i + 1);
        }
    }
    i
}

fn exec_string_body_end(txt: &str, i: usize) -> (r: Option<usize>)
    requires
        i <= txt@.len(),
    ensures
        match r {
            Some(j) => string_body_end(txt@, i as int) == Some(j as int) && i < j <= txt@.len(),
            None => string_body_end(txt@, i as int) is None,
        },
    decreases txt@.len() - i,
{
    if i >= txt.unicode_len() {
        return None;
    }
    let c = txt.get_char(i);
    if c == '"' {
        Some(i + 1)
    } else if c == '\\' {
        if i + 1 < txt.unicode_len() {
            exec_string_body_end(txt, i + 2)
        } else {
            None
        }
    } else {
        exec_string_body_end(txt, i + 1)
    }
}

/// Does the word `w` stand verbatim at position `i` of `txt`?
fn exec_head_matches(txt: &str, i: usize, w: &str) -> (b: bool)
    requires
        i <= txt@.len(),
    ensures
        b == head_matches(txt@, i as int, w@),
{
    let n = txt.unicode_len();
    let wn = w.unicode_len();
    if wn > n - i {
        return false;
    }
    let mut k: usize = 0;
    while k < wn
        invariant
            i + wn <= n,
            n == txt@.len(),
            wn == w@.len(),
            k <= wn,
            forall|m: int| 0 <= m < k ==> txt@[i + m] == w@[m],
        decreases wn - k,
    {
        if txt.get_char(i + k) != w.get_char(k) {
            proof {
                assert(txt@.subrange(i as int, i + wn) != w@) by {
                    assert(txt@.subrange(i as int, i + wn)[k as int] != w@[k as int]);
                }
            }
            return false;
        }
        k += 1;
    }
    proof {
        assert(txt@.subrange(i as int, i + wn) =~= w@);
    }
    true
}

/// Does the keyword spelled `w` match at position `i` of `txt`, with the
/// following character unable to continue an identifier?
fn exec_keyword_matches(txt: &str, i: usize, w: &str) -> (b: bool)
    requires
        i <= txt@.len(),
    ensures
        b == keyword_matches(txt@, i as int, w@),
{
    let n = txt.unicode_len();
    if !exec_head_matches(txt, i, w) {
        return false;
    }
    let j = i + w.unicode_len();
    if j == n {
        true
    } else {
        !exec_is_word(txt.get_char(j))
    }
}

/// Copies the characters `from .. to` of `txt` into an owned payload.
fn payload(txt: &str, from: usize, to: usize) -> (r: String)
    requires
        from <= to <= txt@.len(),
    ensures
        r@ == txt@.subrange(from as int, to as int),
{
    String::from_str(txt.substring_char(from, to))
}

/// The executable counterpart of `spec_step_at`: the next token at `i` and
/// how many characters it consumes, or `None` when no catalog entry matches.
fn next_token(txt: &str, i: usize) -> (r: Option<(Token, usize)>)
    requires
        i < txt@.len(),
        !is_space_char(txt@[i as int]),
    ensures
        match r {
            Some(p) => spec_step_at(txt@, i as int) == Some((p.0@, p.1 as int)) && 1 <= p.1 && i
                + p.1 <= txt@.len(),
            None => spec_step_at(txt@, i as int) is None,
        },
{
    let n = txt.unicode_len();
    let c = txt.get_char(i);
    if c == '{' {
        Some((Token::LeftBrace, 1))
    } else if c == '}' {
        Some((Token::RightBrace, 1))
    } else if c == '[' {
        Some((Token::LeftBracket, 1))
    } else if c == ']' {
        Some((Token::RightBracket, 1))
    } else if c == '(' {
        Some((Token::LeftParen, 1))
    } else if c == ')' {
        Some((Token::RightParen, 1))
    } else if c == ';' {
        Some((Token::Semicolon, 1))
    } else if c == ':' {
        Some((Token::Colon, 1))
    } else if c == '.' {
        Some((Token::Period, 1))
    } else if c == '?' {
        Some((Token::QuestionMark, 1))
    } else if c == '+' {
        Some((Token::Plus, 1))
    } else if c == '*' {
        Some((Token::Asterisk, 1))
    } else if c == '-' {
        if i + 1 < n && txt.get_char(i + 1) == '>' {
            Some((Token::RightArrow, 2))
        } else {
            Some((Token::Dash, 1))
        }
    } else if c == '<' {
        if i + 1 < n && txt.get_char(i + 1) == '=' {
            Some((Token::LeqComparator, 2))
        } else {
            Some((Token::LeComparator, 1))
        }
    } else if c == '>' {
        if i + 1 < n && txt.get_char(i + 1) == '=' {
            Some((Token::GeqComparator, 2))
        } else {
            Some((Token::GeComparator, 1))
        }
    } else if c == '=' {
        if i + 1 < n && txt.get_char(i + 1) == '=' {
            Some((Token::EqComparator, 2))
        } else {
            Some((Token::Equal, 1))
        }
    } else if c == '!' {
        if i + 1 < n && txt.get_char(i + 1) == '=' {
            Some((Token::NeqComparator, 2))
        } else {
            None
        }
    } else if c == '&' {
        if i + 1 < n && txt.get_char(i + 1) == '&' {
            Some((Token::AndOperation, 2))
        } else {
            Some((Token::Ampersand, 1))
        }
    } else if c == '|' {
        if i + 1 < n && txt.get_char(i + 1) == '|' {
            Some((Token::OrOperation, 2))
        } else {
            Some((Token::Pipe, 1))
        }
    } else if c == '/' {
        if i + 1 < n && txt.get_char(i + 1) == '/' {
            proof {
                lemma_line_end(txt@, i as int);
            }
            let j = exec_line_end(txt, i);
            Some((Token::Comment(payload(txt, i, j)), j - i))
        } else {
            Some((Token::Slash, 1))
        }
    } else if c == '\n' {
        Some((Token::EOL, 1))
    } else if c == '\r' {
        if i + 1 < n && txt.get_char(i + 1) == '\n' {
            Some((Token::EOL, 2))
        } else {
            None
        }
    } else if c == '"' {
        match exec_string_body_end(txt, i + 1) {
            Some(j) => Some((Token::Literal(payload(txt, i, j)), j - i)),
            None => None,
        }
    } else if exec_is_digit(c) {
        proof {
            lemma_digit_run_end(txt@, i as int);
        }
        let j = exec_digit_run_end(txt, i);
        Some((Token::Literal(payload(txt, i, j)), j - i))
    } else if exec_is_ident_start(c) {
        if exec_keyword_matches(txt, i, "if") {
            proof {
                reveal_strlit("if");
            }
            Some((Token::IfToken, 2))
        } else if exec_keyword_matches(txt, i, "else") {
            proof {
                reveal_strlit("else");
            }
            Some((Token::ElseToken, 4))
        } else if exec_keyword_matches(txt, i, "while") {
            proof {
                reveal_strlit("while");
            }
            Some((Token::WhileToken, 5))
        } else if exec_keyword_matches(txt, i, "in") {
            proof {
                reveal_strlit("in");
            }
            Some((Token::InToken, 2))
        } else if exec_keyword_matches(txt, i, "fn") {
            proof {
                reveal_strlit("fn");
            }
            Some((Token::FnToken, 2))
        } else if exec_keyword_matches(txt, i, "return") {
            proof {
                reveal_strlit("return");
            }
            Some((Token::ReturnToken, 6))
        } else if exec_keyword_matches(txt, i, "let") {
            proof {
                reveal_strlit("let");
            }
            Some((Token::LetToken, 3))
        } else {
            proof {
                lemma_word_run_end(txt@, i as int);
            }
            let j = exec_word_run_end(txt, i);
            Some((Token::ID(payload(txt, i, j)), j - i))
        }
    } else {
        None
    }
}

/// Tokenizes the whole source text, left to right, with no backtracking:
/// a run of horizontal space becomes one `Space` token, every other
/// position yields the longest-spelling catalog match, and a single leading
/// end-of-line token marks the start of the program. On the first position
/// where no catalog entry matches, the lexer fails with a `LexError` naming
/// that position and the character standing there; it never drops input.
pub fn tokenise(txt: &str) -> (r: Result<Vec<Token>, LexError>)
    ensures
        r matches Ok(v) ==> (spec_lex_from(txt@, 0) matches LexOutcome::Lexed(ts) && v.deep_view()
            == seq![TokenModel::EOL] + ts),
        r matches Err(e) ==> spec_lex_from(txt@, 0) == LexOutcome::NoMatch(e.position as int) && 0
            <= e.position < txt@.len() && e.character == txt@[e.position as int],
{
    let n = txt.unicode_len();
    let mut body: Vec<Token> = Vec::new();
    let mut cur: usize = 0;
    while cur < n
        invariant
            n == txt@.len(),
            cur <= n,
            spec_lex_from(txt@, 0) == lex_prepend(body.deep_view(), spec_lex_from(txt@, cur as int)),
        decreases n - cur,
    {
        let ghost prev = body.deep_view();
        let c = txt.get_char(cur);
        if exec_is_space(c) {
            proof {
                lemma_space_run_end(txt@, cur as int);
            }
            body.push(Token::Space);
            cur = exec_space_run_end(txt, cur);
            proof {
                assert(body.deep_view() =~= prev.push(TokenModel::Space));
                assert(prev + (seq![TokenModel::Space] + spec_lex_tokens(txt@, cur as int))
                    =~= body.deep_view() + spec_lex_tokens(txt@, cur as int));
            }
        } else {
            match next_token(txt, cur) {
                Some(p) => {
                    let (t, len) = p;
                    let ghost tm = t@;
                    body.push(t);
                    cur = cur + len;
                    proof {
                        assert(body.deep_view() =~= prev.push(tm));
                        assert(prev + (seq![tm] + spec_lex_tokens(txt@, cur as int))
                            =~= body.deep_view() + spec_lex_tokens(txt@, cur as int));
                    }
                },
                None => {
                    return Err(LexError { position: cur, character: c });
                },
            }
        }
    }
    let mut out: Vec<Token> = Vec::new();
    out.push(Token::EOL);
    out.append(&mut body);
    proof {
        assert(out.deep_view() =~= seq![TokenModel::EOL] + spec_lex_tokens(txt@, 0));
    }
    Ok(out)
}

/// The token sequence that `spec_lex_from` yields when it succeeds.
pub open spec fn spec_lex_tokens(s: Seq<char>, i: int) -> Seq<TokenModel> {
    match spec_lex_from(s, i) {
        LexOutcome::Lexed(ts) => ts,
        LexOutcome::NoMatch(_) => Seq::empty(),
    }
}

/// The parser's input: the token sequence with the layout tokens removed,
/// every other token kept in order.
pub open spec fn spec_filter_layout(ts: Seq<TokenModel>) -> Seq<TokenModel>
    decreases ts.len(),
{
    if ts.len() == 0 {
        Seq::empty()
    } else {
        let rest = spec_filter_layout(ts.drop_last());
        if is_layout(ts.last()) {
            rest
        } else {
            rest.push(ts.last())
        }
    }
}

/// Filtering distributes over appending one token at the back.
pub proof fn lemma_filter_layout_push(s: Seq<TokenModel>, e: TokenModel)
    ensures
        spec_filter_layout(s.push(e)) == if is_layout(e) {
            spec_filter_layout(s)
        } else {
            spec_filter_layout(s).push(e)
        },
{
    assert(s.push(e).drop_last() =~= s);
    assert(s.push(e).last() == e);
}

/// Removes the layout tokens (space runs, end-of-line marks, comments) from
/// a token sequence, keeping every other token in order: the stream the
/// parser consumes.
pub fn filter_tokens(tokens: Vec<Token>) -> (r: Vec<Token>)
    ensures
        r.deep_view() == spec_filter_layout(tokens.deep_view()),
{
    let ghost orig = tokens.deep_view();
    let mut rest = tokens;
    let mut out: Vec<Token> = Vec::new();
    let ghost mut done: int = 0;
    proof {
        assert(rest.deep_view() =~= orig.skip(0));
        assert(orig.take(0) =~= Seq::<TokenModel>::empty());
    }
    while rest.len() > 0
        invariant
            0 <= done <= orig.len(),
            rest.deep_view() == orig.skip(done),
            out.deep_view() == spec_filter_layout(orig.take(done)),
        decreases rest.len(),
    {
        let ghost pre = rest.deep_view();
        let ghost out_prev = out.deep_view();
        let t = rest.remove(0);
        proof {
            assert(pre.len() == rest@.len() + 1);
            assert(t@ == pre[0]);
            assert(pre[0] == orig[done]);
            assert(rest.deep_view() =~= pre.skip(1));
            assert(pre.skip(1) =~= orig.skip(done + 1));
        }
        let keep = match &t {
            Token::Space => false,
            Token::EOL => false,
            Token::Comment(_) => false,
            _ => true,
        };
        proof {
            assert(keep == !is_layout(t@));
            assert(orig.take(done + 1) =~= orig.take(done).push(orig[done]));
            lemma_filter_layout_push(orig.take(done), orig[done]);
            done = done + 1;
        }
        if keep {
            out.push(t);
            proof {
                assert(out.deep_view() =~= out_prev.push(t@));
            }
        }
    }
    proof {
        assert(orig.take(orig.len() as int) =~= orig);
    }
    out
}

} // verus!
