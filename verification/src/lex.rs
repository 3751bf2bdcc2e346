//! Lexical analysis: source text to a token sequence.
//!
//! The scanner walks the character stream left to right. Structural
//! punctuation and unary-operator glyphs are single-character tokens; `//` and
//! `/* ... */` comments are discarded; a maximal run of digits becomes an
//! integer literal; a maximal run of identifier characters is classified
//! against the keyword table (`int`, `return`) and otherwise becomes an
//! identifier; whitespace is skipped; any other character is a fatal
//! `UnexpectedCharacter` error.

use crate::ast::{lemma_toks_view_push, toks_view, LexError, Token, TokenModel};
use vstd::prelude::*;
use vstd::string::StrSliceExecFns;
use vstd::string::StringExecFns;

verus! {

/// Whitespace skipped by the lexer: space, newline, carriage return.
pub open spec fn is_space_char(c: char) -> bool {
    c == ' ' || c == '\n' || c == '\r'
}

/// An ASCII decimal digit.
pub open spec fn is_digit_char(c: char) -> bool {
    '0' <= c && c <= '9'
}

/// A character that may start an identifier: ASCII letter or underscore.
pub open spec fn is_ident_start_char(c: char) -> bool {
    ('a' <= c && c <= 'z') || ('A' <= c && c <= 'Z') || c == '_'
}

/// A character that may continue an identifier.
pub open spec fn is_ident_char(c: char) -> bool {
    is_ident_start_char(c) || is_digit_char(c)
}

/// A character that is a complete token by itself.
pub open spec fn is_single_char_token(c: char) -> bool {
    c == '{' || c == '}' || c == '(' || c == ')' || c == ';' || c == '-' || c == '~' || c == '!'
}

/// The token emitted for a single-character token.
pub open spec fn single_char_token_model(c: char) -> TokenModel {
    if c == '{' {
        TokenModel::OpenBrace
    } else if c == '}' {
        TokenModel::CloseBrace
    } else if c == '(' {
        TokenModel::OpenParenthesis
    } else if c == ')' {
        TokenModel::CloseParenthesis
    } else if c == ';' {
        TokenModel::Semicolon
    } else if c == '-' {
        TokenModel::Negation
    } else if c == '~' {
        TokenModel::BitwiseComplement
    } else {
        TokenModel::LogicalNegation
    }
}

/// Length of the maximal prefix of `s` made of identifier characters.
pub open spec fn ident_run_len(s: Seq<char>) -> nat
    decreases s.len(),
{
    if s.len() == 0 || !is_ident_char(s[0]) {
        0
    } else {
        1 + ident_run_len(s.skip(1))
    }
}

/// Length of the maximal prefix of `s` made of decimal digits.
pub open spec fn digit_run_len(s: Seq<char>) -> nat
    decreases s.len(),
{
    if s.len() == 0 || !is_digit_char(s[0]) {
        0
    } else {
        1 + digit_run_len(s.skip(1))
    }
}

/// Classification of a maximal identifier run against the keyword table.
pub open spec fn classify_word(w: Seq<char>) -> TokenModel {
    if w == "int"@ {
        TokenModel::IntKeyword
    } else if w == "return"@ {
        TokenModel::ReturnKeyword
    } else {
        TokenModel::Identifier(w)
    }
}

/// What remains of `s` after a `//` comment body: everything up to, but not
/// including, the first newline is discarded.
pub open spec fn line_comment_rest(s: Seq<char>) -> Seq<char>
    decreases s.len(),
{
    if s.len() == 0 || s[0] == '\n' {
        s
    } else {
        line_comment_rest(s.skip(1))
    }
}

/// What remains of `s` after a `/*` comment body: everything up to and
/// including the first `*/` is discarded; an unterminated comment discards
/// the rest of the input.
pub open spec fn block_comment_rest(s: Seq<char>) -> Seq<char>
    decreases s.len(),
{
    if s.len() == 0 {
        s
    } else if s.len() >= 2 && s[0] == '*' && s[1] == '/' {
        s.skip(2)
    } else {
        block_comment_rest(s.skip(1))
    }
}

pub proof fn lemma_line_comment_rest_len(s: Seq<char>)
    ensures
        line_comment_rest(s).len() <= s.len(),
    decreases s.len(),
{
    if s.len() == 0 || s[0] == '\n' {
    } else {
        lemma_line_comment_rest_len(s.skip(1));
    }
}

pub proof fn lemma_block_comment_rest_len(s: Seq<char>)
    ensures
        block_comment_rest(s).len() <= s.len(),
    decreases s.len(),
{
    if s.len() == 0 {
    } else if s.len() >= 2 && s[0] == '*' && s[1] == '/' {
    } else {
        lemma_block_comment_rest_len(s.skip(1));
    }
}

pub proof fn lemma_ident_run_len_le(s: Seq<char>)
    ensures
        ident_run_len(s) <= s.len(),
    decreases s.len(),
{
    if s.len() == 0 || !is_ident_char(s[0]) {
    } else {
        lemma_ident_run_len_le(s.skip(1));
    }
}

pub proof fn lemma_digit_run_len_le(s: Seq<char>)
    ensures
        digit_run_len(s) <= s.len(),
    decreases s.len(),
{
    if s.len() == 0 || !is_digit_char(s[0]) {
    } else {
        lemma_digit_run_len_le(s.skip(1));
    }
}

/// Prepend a token to a lexing result, short-circuiting on error.
pub open spec fn lex_cons(t: TokenModel, r: Result<Seq<TokenModel>, LexError>) -> Result<
    Seq<TokenModel>,
    LexError,
> {
    match r {
        Ok(ts) => Ok(seq![t] + ts),
        Err(e) => Err(e),
    }
}

/// The lexing function, defined recursively over the character sequence. This
/// is the specification that `lex` is proved to implement.
pub open spec fn spec_lex(s: Seq<char>) -> Result<Seq<TokenModel>, LexError>
    decreases s.len(),
{
    if s.len() == 0 {
        Ok(Seq::<TokenModel>::empty())
    } else {
        let c = s[0];
        if is_space_char(c) {
            spec_lex(s.skip(1))
        } else if is_single_char_token(c) {
            lex_cons(single_char_token_model(c), spec_lex(s.skip(1)))
        } else if c == '/' {
            if s.len() < 2 {
                // a lone `/` at the end of the input is discarded
                Ok(Seq::<TokenModel>::empty())
            } else if s[1] == '/' {
                proof {
                    lemma_line_comment_rest_len(s.skip(2));
                }
                spec_lex(line_comment_rest(s.skip(2)))
            } else if s[1] == '*' {
                proof {
                    lemma_block_comment_rest_len(s.skip(2));
                }
                spec_lex(block_comment_rest(s.skip(2)))
            } else {
                Err(LexError::UnexpectedCharacter(s[1]))
            }
        } else if is_digit_char(c) {
            let n = digit_run_len(s);
            proof {
                lemma_digit_run_len_le(s);
            }
            lex_cons(TokenModel::IntegerLiteral(s.take(n as int)), spec_lex(s.skip(n as int)))
        } else if is_ident_start_char(c) {
            let n = ident_run_len(s);
            proof {
                lemma_ident_run_len_le(s);
            }
            lex_cons(classify_word(s.take(n as int)), spec_lex(s.skip(n as int)))
        } else {
            Err(LexError::UnexpectedCharacter(c))
        }
    }
}

/// Prepend an already-lexed token prefix to a lexing result.
pub open spec fn lex_concat(pre: Seq<TokenModel>, r: Result<Seq<TokenModel>, LexError>) -> Result<
    Seq<TokenModel>,
    LexError,
> {
    match r {
        Ok(ts) => Ok(pre + ts),
        Err(e) => Err(e),
    }
}

proof fn lemma_lex_concat_nil(r: Result<Seq<TokenModel>, LexError>)
    ensures
        lex_concat(Seq::<TokenModel>::empty(), r) == r,
{
    match r {
        Ok(ts) => {
            assert(Seq::<TokenModel>::empty() + ts =~= ts);
        },
        Err(_) => {},
    }
}

proof fn lemma_lex_concat_cons(pre: Seq<TokenModel>, t: TokenModel, r: Result<Seq<TokenModel>, LexError>)
    ensures
        lex_concat(pre, lex_cons(t, r)) == lex_concat(pre.push(t), r),
{
    match r {
        Ok(ts) => {
            assert(pre + (seq![t] + ts) =~= pre.push(t) + ts);
        },
        Err(_) => {},
    }
}

/// One lexing step: the suffix at `i` begins with a token of `k` characters,
/// so that token moves onto the accumulated prefix.
proof fn lemma_lex_step(src: Seq<char>, i: int, k: int, t: TokenModel, toks: Seq<TokenModel>)
    requires
        0 <= i,
        1 <= k,
        i + k <= src.len(),
        spec_lex(src.skip(i)) == lex_cons(t, spec_lex(src.skip(i + k))),
        spec_lex(src) == lex_concat(toks, spec_lex(src.skip(i))),
    ensures
        spec_lex(src) == lex_concat(toks.push(t), spec_lex(src.skip(i + k))),
{
    lemma_lex_concat_cons(toks, t, spec_lex(src.skip(i + k)));
}

/// The executable companion of `single_char_token_model`.
fn single_char_token(c: char) -> (t: Token)
    requires
        is_single_char_token(c),
    ensures
        t@ == single_char_token_model(c),
{
    if c == '{' {
        Token::OpenBrace
    } else if c == '}' {
        Token::CloseBrace
    } else if c == '(' {
        Token::OpenParenthesis
    } else if c == ')' {
        Token::CloseParenthesis
    } else if c == ';' {
        Token::Semicolon
    } else if c == '-' {
        Token::Negation
    } else if c == '~' {
        Token::BitwiseComplement
    } else {
        Token::LogicalNegation
    }
}

/// Advances past the body of a `//` comment: returns the index of the first
/// newline at or after `start`, or the end of the input.
fn scan_line_comment(s: &str, start: usize) -> (end: usize)
    requires
        start <= s@.len(),
    ensures
        start <= end <= s@.len(),
        line_comment_rest(s@.skip(start as int)) == s@.skip(end as int),
{
    let n = s.unicode_len();
    let mut j = start;
    while j < n
        invariant
            start <= j <= n,
            n == s@.len(),
            line_comment_rest(s@.skip(start as int)) == line_comment_rest(s@.skip(j as int)),
        decreases n - j,
    {
        let ch = s.get_char(j);
        if ch == '\n' {
            return j;
        }
        proof {
            assert(s@.skip(j as int).skip(1) =~= s@.skip(j as int + 1));
        }
        j = j + 1;
    }
    proof {
        assert(s@.skip(n as int) =~= Seq::<char>::empty());
    }
    j
}

/// Advances past the body of a `/* ... */` comment: returns the index just
/// after the first `*/` at or after `start`, or the end of the input if the
/// comment is unterminated.
fn scan_block_comment(s: &str, start: usize) -> (end: usize)
    requires
        start <= s@.len(),
    ensures
        start <= end <= s@.len(),
        block_comment_rest(s@.skip(start as int)) == s@.skip(end as int),
{
    let n = s.unicode_len();
    let mut j = start;
    while j < n
        invariant
            start <= j <= n,
            n == s@.len(),
            block_comment_rest(s@.skip(start as int)) == block_comment_rest(s@.skip(j as int)),
        decreases n - j,
    {
        let ch = s.get_char(j);
        if ch == '*' && j + 1 < n {
            let ch2 = s.get_char(j + 1);
            if ch2 == '/' {
                proof {
                    assert(s@.skip(j as int).skip(2) =~= s@.skip(j as int + 2));
                }
                return j + 2;
            }
        }
        proof {
            assert(s@.skip(j as int).skip(1) =~= s@.skip(j as int + 1));
        }
        j = j + 1;
    }
    proof {
        assert(s@.skip(n as int) =~= Seq::<char>::empty());
    }
    j
}

/// Returns the end of the maximal digit run starting at `start`.
fn scan_digit_run(s: &str, start: usize) -> (end: usize)
    requires
        start <= s@.len(),
    ensures
        start <= end <= s@.len(),
        end - start == digit_run_len(s@.skip(start as int)),
{
    let n = s.unicode_len();
    let mut j = start;
    while j < n
        invariant
            start <= j <= n,
            n == s@.len(),
            digit_run_len(s@.skip(start as int)) == j - start + digit_run_len(s@.skip(j as int)),
        decreases n - j,
    {
        let ch = s.get_char(j);
        if !(ch >= '0' && ch <= '9') {
            proof {
                assert(digit_run_len(s@.skip(j as int)) == 0);
            }
            return j;
        }
        proof {
            assert(s@.skip(j as int).skip(1) =~= s@.skip(j as int + 1));
        }
        j = j + 1;
    }
    proof {
        assert(s@.skip(n as int) =~= Seq::<char>::empty());
    }
    j
}

/// Scans the maximal digit run starting at `start` and produces the integer
/// literal token holding its exact text.
fn lex_integer_literal(s: &str, start: usize) -> (res: (Token, usize))
    requires
        start < s@.len(),
        is_digit_char(s@[start as int]),
    ensures
        start < res.1 <= s@.len(),
        res.1 - start == digit_run_len(s@.skip(start as int)),
        res.0@ == TokenModel::IntegerLiteral(s@.subrange(start as int, res.1 as int)),
{
    let j = scan_digit_run(s, start);
    proof {
        assert(j > start) by {
            assert(digit_run_len(s@.skip(start as int)) >= 1);
        }
        assert(s@.skip(start as int).take(j - start) =~= s@.subrange(start as int, j as int));
    }
    let text = s.substring_char(start, j);
    (Token::IntegerLiteral(text.to_owned()), j)
}

/// Returns the end of the maximal identifier run starting at `start`.
fn scan_ident_run(s: &str, start: usize) -> (end: usize)
    requires
        start <= s@.len(),
    ensures
        start <= end <= s@.len(),
        end - start == ident_run_len(s@.skip(start as int)),
{
    let n = s.unicode_len();
    let mut j = start;
    while j < n
        invariant
            start <= j <= n,
            n == s@.len(),
            ident_run_len(s@.skip(start as int)) == j - start + ident_run_len(s@.skip(j as int)),
        decreases n - j,
    {
        let ch = s.get_char(j);
        if !((ch >= 'a' && ch <= 'z') || (ch >= 'A' && ch <= 'Z') || ch == '_' || (ch >= '0'
            && ch <= '9')) {
            proof {
                assert(ident_run_len(s@.skip(j as int)) == 0);
            }
            return j;
        }
        proof {
            assert(s@.skip(j as int).skip(1) =~= s@.skip(j as int + 1));
        }
        j = j + 1;
    }
    proof {
        assert(s@.skip(n as int) =~= Seq::<char>::empty());
    }
    j
}

/// Scans the maximal identifier run starting at `start` and classifies it
/// against the keyword table: `int` and `return` become keywords, everything
/// else (including `void`) is an identifier.
fn lex_identifier_or_keyword(s: &str, start: usize) -> (res: (Token, usize))
    requires
        start < s@.len(),
        is_ident_char(s@[start as int]),
    ensures
        start < res.1 <= s@.len(),
        res.1 - start == ident_run_len(s@.skip(start as int)),
        res.0@ == classify_word(s@.subrange(start as int, res.1 as int)),
{
    let j = scan_ident_run(s, start);
    proof {
        assert(j > start) by {
            assert(ident_run_len(s@.skip(start as int)) >= 1);
        }
        assert(s@.skip(start as int).take(j - start) =~= s@.subrange(start as int, j as int));
    }
    let word = s.substring_char(start, j).to_owned();
    let kw_int = String::from_str("int");
    let kw_return = String::from_str("return");
    if word == kw_int {
        (Token::IntKeyword, j)
    } else if word == kw_return {
        (Token::ReturnKeyword, j)
    } else {
        (Token::Identifier(word), j)
    }
}

/// Lexes the given source text into a vector of tokens, or reports the first
/// character that no token rule matches.
pub fn lex(source: &str) -> (r: Result<Vec<Token>, LexError>)
    ensures
        match r {
            Ok(tokens) => spec_lex(source@) == Ok::<Seq<TokenModel>, LexError>(toks_view(tokens@)),
            Err(e) => spec_lex(source@) == Err::<Seq<TokenModel>, LexError>(e),
        },
{
    let n = source.unicode_len();
    let mut tokens: Vec<Token> = Vec::new();
    let mut i: usize = 0;
    proof {
        assert(source@.skip(0) =~= source@);
        assert(toks_view(tokens@) =~= Seq::<TokenModel>::empty());
        lemma_lex_concat_nil(spec_lex(source@));
    }
    while i < n
        invariant
            i <= n,
            n == source@.len(),
            spec_lex(source@) == lex_concat(toks_view(tokens@), spec_lex(source@.skip(i as int))),
        decreases n - i,
    {
        let c = source.get_char(i);
        if c == '{' || c == '}' || c == '(' || c == ')' || c == ';' || c == '-' || c == '~' || c
            == '!' {
            let t = single_char_token(c);
            proof {
                assert(source@.skip(i as int).skip(1) =~= source@.skip(i as int + 1));
                lemma_lex_step(
                    source@,
                    i as int,
                    1,
                    single_char_token_model(c),
                    toks_view(tokens@),
                );
                lemma_toks_view_push(tokens@, t);
            }
            tokens.push(t);
            i = i + 1;
        } else if c == ' ' || c == '\n' || c == '\r' {
            proof {
                assert(source@.skip(i as int).skip(1) =~= source@.skip(i as int + 1));
            }
            i = i + 1;
        } else if c == '/' {
            if i + 1 >= n {
                proof {
                    assert(source@.skip(i as int).len() == 1);
                    assert(source@.skip(n as int) =~= Seq::<char>::empty());
                }
                i = n;
            } else {
                let c2 = source.get_char(i + 1);
                if c2 == '/' {
                    proof {
                        assert(source@.skip(i as int).skip(2) =~= source@.skip(i as int + 2));
                    }
                    let end = scan_line_comment(source, i + 2);
                    i = end;
                } else if c2 == '*' {
                    proof {
                        assert(source@.skip(i as int).skip(2) =~= source@.skip(i as int + 2));
                    }
                    let end = scan_block_comment(source, i + 2);
                    i = end;
                } else {
                    return Err(LexError::UnexpectedCharacter(c2));
                }
            }
        } else if c >= '0' && c <= '9' {
            let (t, end) = lex_integer_literal(source, i);
            proof {
                let rest = source@.skip(i as int);
                let k = digit_run_len(rest) as int;
                assert(rest.take(k) =~= source@.subrange(i as int, end as int));
                assert(rest.skip(k) =~= source@.skip(end as int));
                lemma_lex_step(
                    source@,
                    i as int,
                    k,
                    TokenModel::IntegerLiteral(rest.take(k)),
                    toks_view(tokens@),
                );
                lemma_toks_view_push(tokens@, t);
            }
            tokens.push(t);
            i = end;
        } else if (c >= 'a' && c <= 'z') || (c >= 'A' && c <= 'Z') || c == '_' {
            let (t, end) = lex_identifier_or_keyword(source, i);
            proof {
                let rest = source@.skip(i as int);
                let k = ident_run_len(rest) as int;
                assert(rest.take(k) =~= source@.subrange(i as int, end as int));
                assert(rest.skip(k) =~= source@.skip(end as int));
                lemma_lex_step(
                    source@,
                    i as int,
                    k,
                    classify_word(rest.take(k)),
                    toks_view(tokens@),
                );
                lemma_toks_view_push(tokens@, t);
            }
            tokens.push(t);
            i = end;
        } else {
            return Err(LexError::UnexpectedCharacter(c));
        }
    }
    proof {
        assert(source@.skip(n as int) =~= Seq::<char>::empty());
        assert(toks_view(tokens@) + Seq::<TokenModel>::empty() =~= toks_view(tokens@));
    }
    Ok(tokens)
}

} // verus!
