//! Laws of the lexer, stated over the same spec functions its contract
//! uses: the longest-match rule keeps every fixed catalog spelling whole,
//! a keyword spelling extended by a word character is one identifier, the
//! token stream never carries two adjacent space tokens, and the spans of
//! the tokens of a successful lex tile the input exactly.

use vstd::prelude::*;

use crate::catalog::{
    entry_len, entry_matches, entry_priority, head_matches, is_digit_char, is_ident_start_char,
    is_space_char, is_word_char, keyword_matches, lemma_space_run_end, lemma_word_run_end,
    line_end, space_run_end, spec_catalog, token_literal, word_run_end,
};
use crate::lexer::{spec_lex_from, spec_step_at, LexOutcome};
use crate::token::TokenModel;

verus! {

/// The token that lexing a fixed catalog entry's own spelling yields: the
/// entry itself, except that a comment carries its text as payload.
pub open spec fn spec_entry_token(e: TokenModel) -> TokenModel {
    if e is Comment {
        TokenModel::Comment(token_literal(e))
    } else {
        e
    }
}

/// An input whose one step consumes it whole lexes to exactly that one
/// token.
proof fn lemma_single_token(s: Seq<char>, t: TokenModel)
    requires
        s.len() > 0,
        !is_space_char(s[0]),
        spec_step_at(s, 0) == Some((t, s.len() as int)),
    ensures
        spec_lex_from(s, 0) == LexOutcome::Lexed(seq![t]),
{
    assert(spec_lex_from(s, s.len() as int) == LexOutcome::Lexed(Seq::<TokenModel>::empty()));
    assert(seq![t] + Seq::<TokenModel>::empty() =~= seq![t]);
}

/// For every catalog entry with a fixed, nonempty spelling — punctuation,
/// operators, keywords and the comment opener — an input holding exactly
/// that spelling lexes to exactly one token of that entry, never split
/// into shorter pieces: the longest spelling wins wherever rules overlap.
/// (The end-of-line entry is left out: its one-character spelling is a
/// stand-in priority weight, not its text, and an input of one space
/// lexes to a `Space`.)
#[verifier::rlimit(100)]
#[verifier::spinoff_prover]
pub proof fn lemma_idempotent_longest_match(e: TokenModel)
    requires
        spec_catalog().contains(e),
        token_literal(e).len() > 0,
        !(e is EOL),
        !(e is Space),
    ensures
        spec_lex_from(token_literal(e), 0) == LexOutcome::Lexed(seq![spec_entry_token(e)]),
{
    reveal_strlit("{");
    reveal_strlit("}");
    reveal_strlit("[");
    reveal_strlit("]");
    reveal_strlit("(");
    reveal_strlit(")");
    reveal_strlit(";");
    reveal_strlit(":");
    reveal_strlit(".");
    reveal_strlit("->");
    reveal_strlit("//");
    reveal_strlit("<=");
    reveal_strlit(">=");
    reveal_strlit("<");
    reveal_strlit(">");
    reveal_strlit("==");
    reveal_strlit("!=");
    reveal_strlit("&&");
    reveal_strlit("||");
    reveal_strlit("=");
    reveal_strlit("*");
    reveal_strlit("&");
    reveal_strlit("-");
    reveal_strlit("/");
    reveal_strlit("?");
    reveal_strlit("+");
    reveal_strlit("|");
    reveal_strlit("if");
    reveal_strlit("else");
    reveal_strlit("while");
    reveal_strlit("in");
    reveal_strlit("fn");
    reveal_strlit("return");
    reveal_strlit("let");
    let s = token_literal(e);
    match e {
        TokenModel::Comment(_) => {
            assert(line_end(s, 2) == 2);
            assert(line_end(s, 1) == 2);
            assert(line_end(s, 0) == 2);
            assert(s.subrange(0, 2) =~= s);
            assert(spec_step_at(s, 0) == Some((TokenModel::Comment(s), s.len() as int)));
            lemma_single_token(s, spec_entry_token(e));
        },
        TokenModel::IfToken => {
            assert(s.subrange(0, 2) =~= s);
            assert(spec_step_at(s, 0) == Some((e, s.len() as int)));
            lemma_single_token(s, e);
        },
        TokenModel::ElseToken => {
            assert(s.subrange(0, 4) =~= s);
            assert(s.subrange(0, 2)[0] == 'e');
            assert(spec_step_at(s, 0) == Some((e, s.len() as int)));
            lemma_single_token(s, e);
        },
        TokenModel::WhileToken => {
            assert(s.subrange(0, 5) =~= s);
            assert(s.subrange(0, 2)[0] == 'w');
            assert(s.subrange(0, 4)[0] == 'w');
            assert(spec_step_at(s, 0) == Some((e, s.len() as int)));
            lemma_single_token(s, e);
        },
        TokenModel::InToken => {
            assert(s.subrange(0, 2) =~= s);
            assert(s.subrange(0, 2)[1] == 'n');
            assert(spec_step_at(s, 0) == Some((e, s.len() as int)));
            lemma_single_token(s, e);
        },
        TokenModel::FnToken => {
            assert(s.subrange(0, 2) =~= s);
            assert(s.subrange(0, 2)[0] == 'f');
            assert(spec_step_at(s, 0) == Some((e, s.len() as int)));
            lemma_single_token(s, e);
        },
        TokenModel::ReturnToken => {
            assert(s.subrange(0, 6) =~= s);
            assert(s.subrange(0, 2)[0] == 'r');
            assert(s.subrange(0, 4)[0] == 'r');
            assert(s.subrange(0, 5)[0] == 'r');
            assert(spec_step_at(s, 0) == Some((e, s.len() as int)));
            lemma_single_token(s, e);
        },
        TokenModel::LetToken => {
            assert(s.subrange(0, 3) =~= s);
            assert(s.subrange(0, 2)[0] == 'l');
            assert(spec_step_at(s, 0) == Some((e, s.len() as int)));
            lemma_single_token(s, e);
        },
        _ => {
            assert(spec_step_at(s, 0) == Some((e, s.len() as int)));
            lemma_single_token(s, e);
        },
    }
}

/// One of the seven keyword spellings.
pub open spec fn is_keyword_spelling(w: Seq<char>) -> bool {
    w == "if"@ || w == "else"@ || w == "while"@ || w == "in"@ || w == "fn"@ || w == "return"@
        || w == "let"@
}

/// An identifier formed by extending a keyword spelling with word
/// characters lexes to a single `ID` holding the whole word, never to the
/// keyword followed by a remainder.
#[verifier::rlimit(100)]
#[verifier::spinoff_prover]
pub proof fn lemma_keyword_boundary(s: Seq<char>, w: Seq<char>)
    requires
        is_keyword_spelling(w),
        s.len() > w.len(),
        s.subrange(0, w.len() as int) == w,
        forall|k: int| 0 <= k < s.len() ==> is_word_char(#[trigger] s[k]),
    ensures
        spec_lex_from(s, 0) == LexOutcome::Lexed(seq![TokenModel::ID(s)]),
{
    reveal_strlit("if");
    reveal_strlit("else");
    reveal_strlit("while");
    reveal_strlit("in");
    reveal_strlit("fn");
    reveal_strlit("return");
    reveal_strlit("let");
    assert(s[0] == w[0]);
    assert(is_ident_start_char(s[0]));
    assert(!is_space_char(s[0]));
    // No keyword matches: a spelling shorter than the input is followed by
    // a word character, and one as long as the input would make two
    // keywords share their first letter at different lengths.
    assert forall|v: Seq<char>| is_keyword_spelling(v) implies !keyword_matches(s, 0, v) by {
        if v.len() < s.len() {
            assert(is_word_char(s[v.len() as int]));
        } else if v.len() == s.len() {
            if s.subrange(0, v.len() as int) == v {
                assert(v[0] == s[0] && w[0] == s[0]);
                assert(false);
            }
        }
    }
    lemma_word_run_end(s, 0);
    assert(word_run_end(s, 0) == s.len());
    assert(s.subrange(0, word_run_end(s, 0)) =~= s);
    assert(spec_step_at(s, 0) == Some((TokenModel::ID(s), s.len() as int)));
    lemma_single_token(s, TokenModel::ID(s));
}

/// Where the next token's span ends: one step of the lexer's cursor.
pub open spec fn next_cut(s: Seq<char>, i: int) -> int {
    if !(0 <= i < s.len()) {
        i
    } else if is_space_char(s[i]) {
        space_run_end(s, i)
    } else {
        match spec_step_at(s, i) {
            Some(p) => i + p.1,
            None => i,
        }
    }
}

/// The cursor after the first `k` tokens from `i`: the start of the
/// `k`-th token's span.
pub open spec fn cut_point(s: Seq<char>, i: int, k: int) -> int
    decreases k,
{
    if k <= 0 {
        i
    } else {
        cut_point(s, next_cut(s, i), k - 1)
    }
}

/// The token whose span opens at position `c` of `s`: a space run yields
/// the `Space` token, any other position what the catalog selects there.
pub open spec fn token_at_cut(s: Seq<char>, c: int) -> TokenModel {
    if 0 <= c < s.len() && is_space_char(s[c]) {
        TokenModel::Space
    } else {
        match spec_step_at(s, c) {
            Some(p) => p.0,
            None => TokenModel::Space,
        }
    }
}

/// When lexing succeeds, the cursor positions before each token cut the
/// input into consecutive,
/// nonempty spans whose concatenation is the input exactly — the last cut
/// is the end of the input, and the token at each cut is the token the
/// sequence holds there. No input is dropped and none is read twice.
#[verifier::rlimit(100)]
#[verifier::spinoff_prover]
pub proof fn lemma_spans_reconstruct(s: Seq<char>, i: int)
    requires
        0 <= i <= s.len(),
    ensures
        spec_lex_from(s, i) matches LexOutcome::Lexed(ts) ==> cut_point(s, i, ts.len() as int)
            == s.len(),
        spec_lex_from(s, i) matches LexOutcome::Lexed(ts) ==> forall|j: int|
            0 <= j < ts.len() ==> #[trigger] cut_point(s, i, j) < cut_point(s, i, j + 1)
                <= s.len(),
        spec_lex_from(s, i) matches LexOutcome::Lexed(ts) ==> forall|j: int|
            0 <= j < ts.len() ==> ts[j] == token_at_cut(s, #[trigger] cut_point(s, i, j)),
    decreases s.len() - i,
{
    let o = spec_lex_from(s, i);
    if i == s.len() {
        assert(o == LexOutcome::Lexed(Seq::<TokenModel>::empty()));
    } else if is_space_char(s[i]) {
        lemma_space_run_end(s, i);
        let r = space_run_end(s, i);
        lemma_spans_reconstruct(s, r);
        if o is Lexed {
            let ts = o->Lexed_0;
            let tail = spec_lex_from(s, r);
            assert(tail is Lexed);
            let ts1 = tail->Lexed_0;
            assert(ts == seq![TokenModel::Space] + ts1);
            assert(next_cut(s, i) == r);
            assert forall|j: int| 1 <= j <= ts.len() implies cut_point(s, i, j) == cut_point(
                s,
                r,
                j - 1,
            ) by {}
            assert(cut_point(s, i, ts.len() as int) == s.len());
            assert forall|j: int| 0 <= j < ts.len() implies #[trigger] cut_point(s, i, j)
                < cut_point(s, i, j + 1) <= s.len() by {
                if j > 0 {
                    assert(cut_point(s, r, j - 1) < cut_point(s, r, j) <= s.len());
                }
            }
            assert forall|j: int| 0 <= j < ts.len() implies ts[j] == token_at_cut(
                s,
                #[trigger] cut_point(s, i, j),
            ) by {
                if j == 0 {
                    assert(token_at_cut(s, i) == TokenModel::Space);
                } else {
                    assert(ts[j] == ts1[j - 1]);
                    assert(cut_point(s, i, j) == cut_point(s, r, j - 1));
                }
            }
        }
    } else {
        match spec_step_at(s, i) {
            Some(p) => {
                crate::lexer::lemma_spec_step_at_bounds(s, i);
                let c = i + p.1;
                lemma_spans_reconstruct(s, c);
                if o is Lexed {
                    let ts = o->Lexed_0;
                    let tail = spec_lex_from(s, c);
                    assert(tail is Lexed);
                    let ts1 = tail->Lexed_0;
                    assert(ts == seq![p.0] + ts1);
                    assert(next_cut(s, i) == c);
                    assert forall|j: int| 1 <= j <= ts.len() implies cut_point(s, i, j)
                        == cut_point(s, c, j - 1) by {}
                    assert(cut_point(s, i, ts.len() as int) == s.len());
                    assert forall|j: int| 0 <= j < ts.len() implies #[trigger] cut_point(s, i, j)
                        < cut_point(s, i, j + 1) <= s.len() by {
                        if j > 0 {
                            assert(cut_point(s, c, j - 1) < cut_point(s, c, j) <= s.len());
                        }
                    }
                    assert forall|j: int| 0 <= j < ts.len() implies ts[j] == token_at_cut(
                        s,
                        #[trigger] cut_point(s, i, j),
                    ) by {
                        if j == 0 {
                            assert(token_at_cut(s, i) == p.0);
                        } else {
                            assert(ts[j] == ts1[j - 1]);
                            assert(cut_point(s, i, j) == cut_point(s, c, j - 1));
                        }
                    }
                }
            },
            None => {},
        }
    }
}

/// A lexing step never yields a `Space` token: space runs are consumed
/// before the catalog is consulted.
proof fn lemma_step_not_space(s: Seq<char>, i: int)
    ensures
        spec_step_at(s, i) matches Some(p) ==> !(p.0 is Space),
{
}

/// The first token of a successful lex from a non-space position is not a
/// `Space`.
proof fn lemma_lex_first_not_space(s: Seq<char>, i: int)
    requires
        0 <= i < s.len(),
        !is_space_char(s[i]),
    ensures
        spec_lex_from(s, i) matches LexOutcome::Lexed(ts) ==> ts.len() > 0 && !(ts[0] is Space),
{
    lemma_step_not_space(s, i);
}

/// However many consecutive space characters the input holds at a
/// position, the token sequence never carries two adjacent `Space`
/// tokens — each run becomes exactly one.
pub proof fn lemma_whitespace_coalescing(s: Seq<char>, i: int)
    requires
        0 <= i <= s.len(),
    ensures
        spec_lex_from(s, i) matches LexOutcome::Lexed(ts) ==> forall|k: int|
            0 <= k < ts.len() - 1 ==> !((#[trigger] ts[k]) is Space && ts[k + 1] is Space),
    decreases s.len() - i,
{
    if i < s.len() {
        if is_space_char(s[i]) {
            lemma_space_run_end(s, i);
            let r = space_run_end(s, i);
            lemma_whitespace_coalescing(s, r);
            let o = spec_lex_from(s, i);
            if o is Lexed {
                let ts = o->Lexed_0;
                let tail = spec_lex_from(s, r);
                assert(tail is Lexed);
                let ts1 = tail->Lexed_0;
                assert(ts == seq![TokenModel::Space] + ts1);
                if ts1.len() > 0 {
                    assert(r < s.len());
                    lemma_lex_first_not_space(s, r);
                    assert(!(ts1[0] is Space));
                    assert(ts[1] == ts1[0]);
                }
                assert forall|k: int| 0 <= k < ts.len() - 1 implies !((#[trigger] ts[k]) is Space
                    && ts[k + 1] is Space) by {
                    if k > 0 {
                        assert(ts[k] == ts1[k - 1] && ts[k + 1] == ts1[k]);
                    }
                }
            }
        } else {
            lemma_step_not_space(s, i);
            match spec_step_at(s, i) {
                Some(p) => {
                    crate::lexer::lemma_spec_step_at_bounds(s, i);
                    lemma_whitespace_coalescing(s, i + p.1);
                    let o = spec_lex_from(s, i);
                    if o is Lexed {
                        let ts = o->Lexed_0;
                        let tail = spec_lex_from(s, i + p.1);
                        assert(tail is Lexed);
                        let ts1 = tail->Lexed_0;
                        assert(ts == seq![p.0] + ts1);
                        assert forall|k: int| 0 <= k < ts.len() - 1 implies !((#[trigger] ts[k])
                            is Space && ts[k + 1] is Space) by {
                            if k > 0 {
                                assert(ts[k] == ts1[k - 1] && ts[k + 1] == ts1[k]);
                            } else {
                                assert(!(ts[0] is Space));
                            }
                        }
                    }
                },
                None => {},
            }
        }
    }
}

/// A word standing at `i` pins the character there to its first one.
proof fn lemma_head_first(s: Seq<char>, i: int, w: Seq<char>)
    requires
        head_matches(s, i, w),
        w.len() > 0,
    ensures
        s[i] == w[0],
{
    assert(s.subrange(i, i + w.len() as int)[0] == s[i]);
}

/// Where a step finds nothing, no entry of the catalog matches: the
/// decision tree refuses a position only when every recognition rule
/// does.
#[verifier::rlimit(100)]
#[verifier::spinoff_prover]
proof fn lemma_step_none_no_entry(s: Seq<char>, i: int)
    requires
        0 <= i < s.len(),
        !is_space_char(s[i]),
        spec_step_at(s, i) is None,
    ensures
        forall|k: int| 0 <= k < spec_catalog().len() ==> !entry_matches(
            #[trigger] spec_catalog()[k],
            s,
            i,
        ),
{
    reveal_strlit("{");
    reveal_strlit("}");
    reveal_strlit("[");
    reveal_strlit("]");
    reveal_strlit("(");
    reveal_strlit(")");
    reveal_strlit(";");
    reveal_strlit(":");
    reveal_strlit(".");
    reveal_strlit("->");
    reveal_strlit("//");
    reveal_strlit("<=");
    reveal_strlit(">=");
    reveal_strlit("<");
    reveal_strlit(">");
    reveal_strlit("==");
    reveal_strlit("!=");
    reveal_strlit("&&");
    reveal_strlit("||");
    reveal_strlit("=");
    reveal_strlit("*");
    reveal_strlit("&");
    reveal_strlit("-");
    reveal_strlit("/");
    reveal_strlit("?");
    reveal_strlit("+");
    reveal_strlit("|");
    reveal_strlit("if");
    reveal_strlit("else");
    reveal_strlit("while");
    reveal_strlit("in");
    reveal_strlit("fn");
    reveal_strlit("return");
    reveal_strlit("let");
    assert forall|k: int| 0 <= k < spec_catalog().len() implies !entry_matches(
        #[trigger] spec_catalog()[k],
        s,
        i,
    ) by {
        let e = spec_catalog()[k];
        if entry_matches(e, s, i) {
            match e {
                TokenModel::Comment(_) => {
                    lemma_head_first(s, i, "//"@);
                    assert(s.subrange(i, i + 2)[1] == s[i + 1]);
                },
                TokenModel::IfToken => lemma_head_first(s, i, "if"@),
                TokenModel::ElseToken => lemma_head_first(s, i, "else"@),
                TokenModel::WhileToken => lemma_head_first(s, i, "while"@),
                TokenModel::InToken => lemma_head_first(s, i, "in"@),
                TokenModel::FnToken => lemma_head_first(s, i, "fn"@),
                TokenModel::ReturnToken => lemma_head_first(s, i, "return"@),
                TokenModel::LetToken => lemma_head_first(s, i, "let"@),
                TokenModel::ID(_) => {},
                TokenModel::Literal(_) => {},
                TokenModel::EOL => {},
                TokenModel::Space => {},
                _ => {
                    lemma_head_first(s, i, token_literal(e));
                    if token_literal(e).len() > 1 {
                        assert(s.subrange(i, i + token_literal(e).len() as int)[1] == s[i + 1]);
                    }
                },
            }
            assert(spec_step_at(s, i) is Some);
            assert(false);
        }
    }
}

/// The position that a lexing failure names is reachable by the cursor
/// and holds no space; the step there finds nothing.
proof fn lemma_nomatch_position(s: Seq<char>, i: int)
    requires
        0 <= i <= s.len(),
    ensures
        spec_lex_from(s, i) matches LexOutcome::NoMatch(p) ==> i <= p < s.len()
            && !is_space_char(s[p]) && spec_step_at(s, p) is None,
    decreases s.len() - i,
{
    if i < s.len() {
        if is_space_char(s[i]) {
            lemma_space_run_end(s, i);
            lemma_nomatch_position(s, space_run_end(s, i));
        } else {
            match spec_step_at(s, i) {
                Some(p) => {
                    crate::lexer::lemma_spec_step_at_bounds(s, i);
                    lemma_nomatch_position(s, i + p.1);
                },
                None => {},
            }
        }
    }
}

/// The lexer is total up to recognition: it fails only with an error
/// naming a position where no entry of the catalog matches, and never
/// silently drops input before that position.
pub proof fn lemma_lex_error_unmatched(s: Seq<char>)
    ensures
        spec_lex_from(s, 0) matches LexOutcome::NoMatch(p) ==> 0 <= p < s.len()
            && !is_space_char(s[p]) && forall|k: int|
            0 <= k < spec_catalog().len() ==> !entry_matches(#[trigger] spec_catalog()[k], s, p),
{
    lemma_nomatch_position(s, 0);
    let o = spec_lex_from(s, 0);
    if o is NoMatch {
        lemma_step_none_no_entry(s, o->NoMatch_0);
    }
}

/// A one-character word stands at `i` as soon as its character does.
proof fn lemma_head_single(s: Seq<char>, i: int, w: Seq<char>)
    requires
        0 <= i < s.len(),
        w.len() == 1,
        s[i] == w[0],
    ensures
        head_matches(s, i, w),
{
    assert(s.subrange(i, i + 1) =~= w);
}

/// A two-character word stands at `i` as soon as its characters do.
proof fn lemma_head_double(s: Seq<char>, i: int, w: Seq<char>)
    requires
        0 <= i,
        i + 1 < s.len(),
        w.len() == 2,
        s[i] == w[0],
        s[i + 1] == w[1],
    ensures
        head_matches(s, i, w),
{
    assert(s.subrange(i, i + 2) =~= w);
}

/// At most one keyword spelling can stand at a position: every pair of
/// distinct spellings differs in its first two characters.
proof fn lemma_keywords_exclusive(s: Seq<char>, i: int, w1: Seq<char>, w2: Seq<char>)
    requires
        is_keyword_spelling(w1),
        is_keyword_spelling(w2),
        w1 != w2,
        keyword_matches(s, i, w1),
    ensures
        !keyword_matches(s, i, w2),
{
    reveal_strlit("if");
    reveal_strlit("else");
    reveal_strlit("while");
    reveal_strlit("in");
    reveal_strlit("fn");
    reveal_strlit("return");
    reveal_strlit("let");
    if keyword_matches(s, i, w2) {
        assert(s.subrange(i, i + w1.len() as int)[0] == s[i]);
        assert(s.subrange(i, i + w1.len() as int)[1] == s[i + 1]);
        assert(s.subrange(i, i + w2.len() as int)[0] == s[i]);
        assert(s.subrange(i, i + w2.len() as int)[1] == s[i + 1]);
        assert(w1[0] == w2[0] && w1[1] == w2[1]);
        assert(false);
    }
}

/// The catalog entry a token was produced from: its lexical category.
pub open spec fn entry_category(t: TokenModel) -> TokenModel {
    match t {
        TokenModel::Comment(_) => TokenModel::Comment(Seq::empty()),
        TokenModel::ID(_) => TokenModel::ID(Seq::empty()),
        TokenModel::Literal(_) => TokenModel::Literal(Seq::empty()),
        other => other,
    }
}

/// The selection rule, over the catalog itself: wherever some entry
/// matches, a step succeeds; the token it yields comes from a matching
/// entry, consumes exactly that entry's length, and no matching entry
/// carries a longer canonical spelling than the selected one.
#[verifier::rlimit(100)]
#[verifier::spinoff_prover]
pub proof fn lemma_longest_match(s: Seq<char>, i: int, k: int)
    requires
        0 <= i < s.len(),
        !is_space_char(s[i]),
        0 <= k < spec_catalog().len(),
        entry_matches(spec_catalog()[k], s, i),
    ensures
        spec_step_at(s, i) is Some,
        spec_step_at(s, i) matches Some(p) ==> entry_matches(entry_category(p.0), s, i)
            && p.1 == entry_len(entry_category(p.0), s, i)
            && entry_priority(spec_catalog()[k]) <= entry_priority(entry_category(p.0)),
{
    reveal_strlit("{");
    reveal_strlit("}");
    reveal_strlit("[");
    reveal_strlit("]");
    reveal_strlit("(");
    reveal_strlit(")");
    reveal_strlit(";");
    reveal_strlit(":");
    reveal_strlit(".");
    reveal_strlit("->");
    reveal_strlit("//");
    reveal_strlit("<=");
    reveal_strlit(">=");
    reveal_strlit("<");
    reveal_strlit(">");
    reveal_strlit("==");
    reveal_strlit("!=");
    reveal_strlit("&&");
    reveal_strlit("||");
    reveal_strlit("=");
    reveal_strlit("*");
    reveal_strlit("&");
    reveal_strlit("-");
    reveal_strlit("/");
    reveal_strlit("?");
    reveal_strlit("+");
    reveal_strlit("|");
    reveal_strlit("if");
    reveal_strlit("else");
    reveal_strlit("while");
    reveal_strlit("in");
    reveal_strlit("fn");
    reveal_strlit("return");
    reveal_strlit("let");
    if spec_step_at(s, i) is None {
        lemma_step_none_no_entry(s, i);
        assert(false);
    }
    let p = spec_step_at(s, i)->Some_0;
    let c = s[i];
    // Extract the characters that the matching entry pins down, and rule
    // out every other keyword where that entry is a keyword.
    let e = spec_catalog()[k];
    match e {
        TokenModel::RightArrow | TokenModel::LeqComparator | TokenModel::GeqComparator
            | TokenModel::EqComparator | TokenModel::NeqComparator | TokenModel::AndOperation
            | TokenModel::OrOperation => {
            assert(s.subrange(i, i + 2)[0] == s[i]);
            assert(s.subrange(i, i + 2)[1] == s[i + 1]);
        },
        TokenModel::Comment(_) => {
            assert(s.subrange(i, i + 2)[0] == s[i]);
            assert(s.subrange(i, i + 2)[1] == s[i + 1]);
        },
        TokenModel::IfToken | TokenModel::ElseToken | TokenModel::WhileToken | TokenModel::InToken
            | TokenModel::FnToken | TokenModel::ReturnToken | TokenModel::LetToken => {
            let w = token_literal(e);
            assert(s.subrange(i, i + w.len() as int)[0] == s[i]);
            assert forall|v: Seq<char>| is_keyword_spelling(v) && v != w implies !keyword_matches(
                s,
                i,
                v,
            ) by {
                lemma_keywords_exclusive(s, i, w, v);
            }
        },
        TokenModel::ID(_) => {},
        TokenModel::Literal(_) => {},
        TokenModel::EOL => {},
        TokenModel::Space => {},
        _ => {
            assert(s.subrange(i, i + 1)[0] == s[i]);
        },
    }
    // The selected token's own entry matches, at the selected length.
    if c == '-' && i + 1 < s.len() && s[i + 1] == '>' {
        lemma_head_double(s, i, "->"@);
    } else if c == '<' && i + 1 < s.len() && s[i + 1] == '=' {
        lemma_head_double(s, i, "<="@);
    } else if c == '>' && i + 1 < s.len() && s[i + 1] == '=' {
        lemma_head_double(s, i, ">="@);
    } else if c == '=' && i + 1 < s.len() && s[i + 1] == '=' {
        lemma_head_double(s, i, "=="@);
    } else if c == '!' && i + 1 < s.len() && s[i + 1] == '=' {
        lemma_head_double(s, i, "!="@);
    } else if c == '&' && i + 1 < s.len() && s[i + 1] == '&' {
        lemma_head_double(s, i, "&&"@);
    } else if c == '|' && i + 1 < s.len() && s[i + 1] == '|' {
        lemma_head_double(s, i, "||"@);
    } else if c == '/' && i + 1 < s.len() && s[i + 1] == '/' {
        lemma_head_double(s, i, "//"@);
    } else if !(is_digit_char(c) || is_ident_start_char(c) || c == '"' || c == '\n' || c == '\r') {
        lemma_head_single(s, i, token_literal(p.0));
    }
}

} // verus!
