//! Lexing of the declaration text.
//!
//! The declaration grammar is token based: the lexer turns the input
//! characters into identifiers, number literals, string literals and
//! punctuation, skipping whitespace and comments. Every token records the
//! half-open character range it was read from, so that pass-through items can
//! later be recovered as exact slices of the input.

use vstd::prelude::*;

verus! {

/// The coarse classification of a token.
#[derive(Clone, Copy, PartialEq, Eq, Structural)]
pub enum TokenKind {
    /// An identifier or keyword (letters, digits, underscores).
    Ident,
    /// A number literal, including any suffix or embedded dot.
    Num,
    /// A double-quoted string literal, escapes included.
    Str,
    /// Punctuation: one character, except `->` (two) and `...` (three).
    Punct,
}

/// One token: its kind and the character range `start..end` it occupies.
#[derive(Clone, Copy)]
pub struct Token {
    pub kind: TokenKind,
    pub start: usize,
    pub end: usize,
}

/// The mathematical view of a [`Token`], with unbounded indices.
pub ghost struct TokenModel {
    pub kind: TokenKind,
    pub start: int,
    pub end: int,
}

impl View for Token {
    type V = TokenModel;

    open spec fn view(&self) -> TokenModel {
        TokenModel { kind: self.kind, start: self.start as int, end: self.end as int }
    }
}

impl DeepView for Token {
    type V = TokenModel;

    open spec fn deep_view(&self) -> TokenModel {
        self.view()
    }
}

pub open spec fn spec_is_ws(c: char) -> bool {
    c == ' ' || c == '\t' || c == '\n' || c == '\r'
}

pub open spec fn spec_is_digit(c: char) -> bool {
    48 <= c as u32 && c as u32 <= 57
}

pub open spec fn spec_is_ident_start(c: char) -> bool {
    (97 <= c as u32 && c as u32 <= 122) || (65 <= c as u32 && c as u32 <= 90) || c == '_'
}

pub open spec fn spec_is_ident_char(c: char) -> bool {
    spec_is_ident_start(c) || spec_is_digit(c)
}

/// A number token continues through letters, digits, underscores and dots,
/// which covers integer and float literals with radix prefixes and suffixes.
pub open spec fn spec_is_num_char(c: char) -> bool {
    spec_is_ident_char(c) || c == '.'
}

#[verifier::when_used_as_spec(spec_is_ws)]
pub fn is_ws(c: char) -> (r: bool)
    ensures
        r == spec_is_ws(c),
{
    c == ' ' || c == '\t' || c == '\n' || c == '\r'
}

#[verifier::when_used_as_spec(spec_is_digit)]
pub fn is_digit(c: char) -> (r: bool)
    ensures
        r == spec_is_digit(c),
{
    let u = c as u32;
    48 <= u && u <= 57
}

#[verifier::when_used_as_spec(spec_is_ident_start)]
pub fn is_ident_start(c: char) -> (r: bool)
    ensures
        r == spec_is_ident_start(c),
{
    let u = c as u32;
    (97 <= u && u <= 122) || (65 <= u && u <= 90) || c == '_'
}

#[verifier::when_used_as_spec(spec_is_ident_char)]
pub fn is_ident_char(c: char) -> (r: bool)
    ensures
        r == spec_is_ident_char(c),
{
    is_ident_start(c) || is_digit(c)
}

#[verifier::when_used_as_spec(spec_is_num_char)]
pub fn is_num_char(c: char) -> (r: bool)
    ensures
        r == spec_is_num_char(c),
{
    is_ident_char(c) || c == '.'
}

/// First index at or after `i` whose character is not an identifier character.
pub open spec fn spec_scan_ident(s: Seq<char>, i: int) -> int
    decreases s.len() - i,
{
    if 0 <= i < s.len() && spec_is_ident_char(s[i]) {
        spec_scan_ident(s, i + 1)
    } else {
        i
    }
}

/// First index at or after `i` whose character is not a number character.
pub open spec fn spec_scan_num(s: Seq<char>, i: int) -> int
    decreases s.len() - i,
{
    if 0 <= i < s.len() && spec_is_num_char(s[i]) {
        spec_scan_num(s, i + 1)
    } else {
        i
    }
}

/// Index just past the newline that ends a line comment, or the end of input.
pub open spec fn spec_scan_line(s: Seq<char>, i: int) -> int
    decreases s.len() - i,
{
    if !(0 <= i < s.len()) {
        s.len() as int
    } else if s[i] == '\n' {
        i + 1
    } else {
        spec_scan_line(s, i + 1)
    }
}

/// Index just past the `*/` that closes a block comment opened before `i`,
/// or `None` if the comment never closes.
pub open spec fn spec_scan_block(s: Seq<char>, i: int) -> Option<int>
    decreases s.len() - i,
{
    if !(0 <= i < s.len()) {
        None
    } else if s[i] == '*' && i + 1 < s.len() && s[i + 1] == '/' {
        Some(i + 2)
    } else {
        spec_scan_block(s, i + 1)
    }
}

/// Index just past the `"` that closes a string literal opened before `i`,
/// honouring backslash escapes, or `None` if the literal never closes.
pub open spec fn spec_scan_str(s: Seq<char>, i: int) -> Option<int>
    decreases s.len() - i,
{
    if !(0 <= i < s.len()) {
        None
    } else if s[i] == '"' {
        Some(i + 1)
    } else if s[i] == '\\' {
        if i + 1 < s.len() {
            spec_scan_str(s, i + 2)
        } else {
            None
        }
    } else {
        spec_scan_str(s, i + 1)
    }
}

/// The outcome of reading one token starting at or after some index.
pub ghost enum LexStep {
    /// Only whitespace and comments remained.
    Done,
    /// An unterminated block comment or string literal.
    Fail,
    /// The next token; lexing continues at its `end`.
    Tok(TokenModel),
}

/// Clamps a scanned end index into `(i, len]`; every scan lands there
/// already, so this only serves the termination argument.
pub open spec fn clamp_after(i: int, end: int, len: int) -> int {
    if i < end && end <= len {
        end
    } else {
        i + 1
    }
}

/// Reads the next token of `s` at or after `i`.
pub open spec fn spec_lex_step(s: Seq<char>, i: int) -> LexStep
    decreases s.len() - i,
{
    let len = s.len() as int;
    if !(0 <= i < len) {
        LexStep::Done
    } else if spec_is_ws(s[i]) {
        spec_lex_step(s, i + 1)
    } else if s[i] == '/' && i + 1 < len && s[i + 1] == '/' {
        spec_lex_step(s, clamp_after(i, spec_scan_line(s, i + 2), len))
    } else if s[i] == '/' && i + 1 < len && s[i + 1] == '*' {
        match spec_scan_block(s, i + 2) {
            None => LexStep::Fail,
            Some(j) => spec_lex_step(s, clamp_after(i, j, len)),
        }
    } else if spec_is_ident_start(s[i]) {
        let j = clamp_after(i, spec_scan_ident(s, i + 1), len);
        LexStep::Tok(TokenModel { kind: TokenKind::Ident, start: i, end: j })
    } else if spec_is_digit(s[i]) {
        let j = clamp_after(i, spec_scan_num(s, i + 1), len);
        LexStep::Tok(TokenModel { kind: TokenKind::Num, start: i, end: j })
    } else if s[i] == '"' {
        match spec_scan_str(s, i + 1) {
            None => LexStep::Fail,
            Some(j) => LexStep::Tok(
                TokenModel { kind: TokenKind::Str, start: i, end: clamp_after(i, j, len) },
            ),
        }
    } else if s[i] == '-' && i + 1 < len && s[i + 1] == '>' {
        LexStep::Tok(TokenModel { kind: TokenKind::Punct, start: i, end: i + 2 })
    } else if s[i] == '.' && i + 2 < len && s[i + 1] == '.' && s[i + 2] == '.' {
        LexStep::Tok(TokenModel { kind: TokenKind::Punct, start: i, end: i + 3 })
    } else {
        LexStep::Tok(TokenModel { kind: TokenKind::Punct, start: i, end: i + 1 })
    }
}

/// The token sequence of `s` from index `i` on, or `None` on a lexing error.
pub open spec fn spec_tokenize(s: Seq<char>, i: int) -> Option<Seq<TokenModel>>
    decreases s.len() - i,
{
    if i < 0 {
        spec_tokenize(s, 0)
    } else {
        match spec_lex_step(s, i) {
            LexStep::Done => Some(Seq::empty()),
            LexStep::Fail => None,
            LexStep::Tok(t) => {
                let j = clamp_after(i, t.end, s.len() as int);
                match spec_tokenize(s, j) {
                    None => None,
                    Some(rest) => Some(seq![t] + rest),
                }
            },
        }
    }
}

/// Every token a successful lex step yields lies inside the input and after
/// the index the step started from, and ends where lexing continues.
pub proof fn lemma_lex_step_wf(s: Seq<char>, i: int)
    requires
        0 <= i,
    ensures
        spec_lex_step(s, i) matches LexStep::Tok(t) ==> i <= t.start < t.end <= s.len(),
    decreases s.len() - i,
{
    if 0 <= i < s.len() {
        if spec_is_ws(s[i]) {
            lemma_lex_step_wf(s, i + 1);
        } else if s[i] == '/' && i + 1 < s.len() && s[i + 1] == '/' {
            lemma_lex_step_wf(s, clamp_after(i, spec_scan_line(s, i + 2), s.len() as int));
        } else if s[i] == '/' && i + 1 < s.len() && s[i + 1] == '*' {
            match spec_scan_block(s, i + 2) {
                None => {},
                Some(j) => {
                    lemma_lex_step_wf(s, clamp_after(i, j, s.len() as int));
                },
            }
        } else {
        }
    }
}

fn scan_ident(s: &str, len: usize, i: usize) -> (r: usize)
    requires
        len == s@.len(),
        i <= len,
    ensures
        r == spec_scan_ident(s@, i as int),
        i <= r <= len,
{
    let mut j: usize = i;
    loop
        invariant
            i <= j <= len,
            len == s@.len(),
            spec_scan_ident(s@, i as int) == spec_scan_ident(s@, j as int),
        decreases len - j,
    {
        if j >= len {
            return j;
        }
        let c = s.get_char(j);
        if !is_ident_char(c) {
            return j;
        }
        j = j + 1;
    }
}

fn scan_num(s: &str, len: usize, i: usize) -> (r: usize)
    requires
        len == s@.len(),
        i <= len,
    ensures
        r == spec_scan_num(s@, i as int),
        i <= r <= len,
{
    let mut j: usize = i;
    loop
        invariant
            i <= j <= len,
            len == s@.len(),
            spec_scan_num(s@, i as int) == spec_scan_num(s@, j as int),
        decreases len - j,
    {
        if j >= len {
            return j;
        }
        let c = s.get_char(j);
        if !is_num_char(c) {
            return j;
        }
        j = j + 1;
    }
}

fn scan_line(s: &str, len: usize, i: usize) -> (r: usize)
    requires
        len == s@.len(),
        i <= len,
    ensures
        r == spec_scan_line(s@, i as int),
        i <= r <= len,
{
    let mut j: usize = i;
    loop
        invariant
            i <= j <= len,
            len == s@.len(),
            spec_scan_line(s@, i as int) == spec_scan_line(s@, j as int),
        decreases len - j,
    {
        if j >= len {
            return j;
        }
        let c = s.get_char(j);
        if c == '\n' {
            return j + 1;
        }
        j = j + 1;
    }
}

fn scan_block(s: &str, len: usize, i: usize) -> (r: Option<usize>)
    requires
        len == s@.len(),
        i <= len,
    ensures
        match r {
            Some(j) => spec_scan_block(s@, i as int) == Some(j as int) && i < j <= len,
            None => spec_scan_block(s@, i as int) is None,
        },
{
    let mut j: usize = i;
    loop
        invariant
            i <= j <= len,
            len == s@.len(),
            spec_scan_block(s@, i as int) == spec_scan_block(s@, j as int),
        decreases len - j,
    {
        if j >= len {
            return None;
        }
        let c = s.get_char(j);
        if c == '*' && j + 1 < len {
            let c2 = s.get_char(j + 1);
            if c2 == '/' {
                return Some(j + 2);
            }
        }
        j = j + 1;
    }
}

fn scan_str(s: &str, len: usize, i: usize) -> (r: Option<usize>)
    requires
        len == s@.len(),
        i <= len,
    ensures
        match r {
            Some(j) => spec_scan_str(s@, i as int) == Some(j as int) && i < j <= len,
            None => spec_scan_str(s@, i as int) is None,
        },
{
    let mut j: usize = i;
    loop
        invariant
            i <= j <= len,
            len == s@.len(),
            spec_scan_str(s@, i as int) == spec_scan_str(s@, j as int),
        decreases len - j,
    {
        if j >= len {
            return None;
        }
        let c = s.get_char(j);
        if c == '"' {
            return Some(j + 1);
        }
        if c == '\\' {
            if j + 1 >= len {
                return None;
            }
            j = j + 2;
        } else {
            j = j + 1;
        }
    }
}

/// The executable counterpart of [`LexStep`].
enum Step {
    Done,
    Fail,
    Tok(Token),
}

fn lex_step(s: &str, len: usize, i: usize) -> (r: Step)
    requires
        len == s@.len(),
        i <= len,
    ensures
        match r {
            Step::Done => spec_lex_step(s@, i as int) == LexStep::Done,
            Step::Fail => spec_lex_step(s@, i as int) == LexStep::Fail,
            Step::Tok(t) => spec_lex_step(s@, i as int) == LexStep::Tok(t@) && i <= t.start < t.end
                <= len,
        },
    decreases len - i,
{
    if i >= len {
        return Step::Done;
    }
    let c = s.get_char(i);
    if is_ws(c) {
        return lex_step(s, len, i + 1);
    }
    if c == '/' && i + 1 < len {
        let c2 = s.get_char(i + 1);
        if c2 == '/' {
            let j = scan_line(s, len, i + 2);
            return lex_step(s, len, j);
        }
        if c2 == '*' {
            match scan_block(s, len, i + 2) {
                None => {
                    return Step::Fail;
                },
                Some(j) => {
                    return lex_step(s, len, j);
                },
            }
        }
    }
    if is_ident_start(c) {
        let j = scan_ident(s, len, i + 1);
        return Step::Tok(Token { kind: TokenKind::Ident, start: i, end: j });
    }
    if is_digit(c) {
        let j = scan_num(s, len, i + 1);
        return Step::Tok(Token { kind: TokenKind::Num, start: i, end: j });
    }
    if c == '"' {
        match scan_str(s, len, i + 1) {
            None => {
                return Step::Fail;
            },
            Some(j) => {
                return Step::Tok(Token { kind: TokenKind::Str, start: i, end: j });
            },
        }
    }
    if c == '-' && i + 1 < len {
        let c2 = s.get_char(i + 1);
        if c2 == '>' {
            return Step::Tok(Token { kind: TokenKind::Punct, start: i, end: i + 2 });
        }
    }
    if c == '.' && i < len - 1 && i + 2 < len {
        let c2 = s.get_char(i + 1);
        let c3 = s.get_char(i + 2);
        if c2 == '.' && c3 == '.' {
            return Step::Tok(Token { kind: TokenKind::Punct, start: i, end: i + 3 });
        }
    }
    Step::Tok(Token { kind: TokenKind::Punct, start: i, end: i + 1 })
}

/// Lexes the whole of `s` into tokens; `None` on an unterminated string
/// literal or block comment.
pub fn tokenize(s: &str) -> (r: Option<Vec<Token>>)
    ensures
        match r {
            Some(v) => spec_tokenize(s@, 0) == Some(v.deep_view()),
            None => spec_tokenize(s@, 0) is None,
        },
{
    let len = s.unicode_len();
    let mut toks: Vec<Token> = Vec::new();
    let mut i: usize = 0;
    loop
        invariant
            i <= len,
            len == s@.len(),
            match spec_tokenize(s@, i as int) {
                Some(rest) => spec_tokenize(s@, 0) == Some(toks.deep_view() + rest),
                None => spec_tokenize(s@, 0) is None,
            },
        decreases len - i,
    {
        match lex_step(s, len, i) {
            Step::Done => {
                proof {
                    assert(toks.deep_view() + Seq::<TokenModel>::empty() =~= toks.deep_view());
                }
                return Some(toks);
            },
            Step::Fail => {
                return None;
            },
            Step::Tok(t) => {
                let ghost prev = toks.deep_view();
                let ghost ii = i as int;
                let next = t.end;
                toks.push(t);
                proof {
                    assert(clamp_after(ii, t@.end, s@.len() as int) == t@.end);
                    assert(toks.deep_view() =~= prev + seq![t@]);
                    let rest = spec_tokenize(s@, t@.end);
                    if rest is Some {
                        assert(spec_tokenize(s@, ii) == Some(seq![t@] + rest.unwrap()));
                        assert(prev + (seq![t@] + rest.unwrap()) =~= (prev + seq![t@])
                            + rest.unwrap());
                    }
                }
                i = next;
            },
        }
    }
}

} // verus!
