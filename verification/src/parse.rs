//! Extraction of declarations from the header-derived text.
//!
//! The input is the program text a header front end produces: foreign blocks
//! of foreign function declarations, plus constant, struct and type-alias
//! items that pass through unchanged. The parser classifies every top-level
//! item as exactly one of those, or ignores it (for example a wrapper function
//! with a body). A text that does not fit the declaration grammar is a fatal
//! extraction error.

use vstd::prelude::*;

use crate::lex::Token;
use crate::lex::TokenKind;
use crate::lex::TokenModel;
use crate::lex::clamp_after;
use crate::lex::spec_tokenize;
use crate::lex::tokenize;

verus! {

/// One parameter of a foreign function: its name and the text of its type.
pub struct Param {
    pub name: String,
    pub ty: String,
}

/// The mathematical view of a [`Param`].
pub ghost struct ParamModel {
    pub name: Seq<char>,
    pub ty: Seq<char>,
}

impl View for Param {
    type V = ParamModel;

    open spec fn view(&self) -> ParamModel {
        ParamModel { name: self.name@, ty: self.ty@ }
    }
}

impl DeepView for Param {
    type V = ParamModel;

    open spec fn deep_view(&self) -> ParamModel {
        self.view()
    }
}

/// One extracted foreign function signature: its exported name, parameters in
/// order, return type text (`None` for the unit return), and whether the
/// declaration is variadic.
pub struct BoundFunction {
    pub ident: String,
    pub params: Vec<Param>,
    pub ret: Option<String>,
    pub variadic: bool,
}

/// The mathematical view of a [`BoundFunction`].
pub ghost struct FnModel {
    pub name: Seq<char>,
    pub params: Seq<ParamModel>,
    pub ret: Option<Seq<char>>,
    pub variadic: bool,
}

impl View for BoundFunction {
    type V = FnModel;

    open spec fn view(&self) -> FnModel {
        FnModel {
            name: self.ident@,
            params: self.params.deep_view(),
            ret: match self.ret {
                Option::Some(t) => Option::Some(t@),
                Option::None => Option::None,
            },
            variadic: self.variadic,
        }
    }
}

impl DeepView for BoundFunction {
    type V = FnModel;

    open spec fn deep_view(&self) -> FnModel {
        self.view()
    }
}

impl BoundFunction {
    /// The exported symbol name of the declared function.
    pub fn name(&self) -> (r: String)
        ensures
            r@ == self@.name,
    {
        self.ident.clone()
    }
}

/// The extraction result: every foreign function signature, and the constant,
/// struct and type-alias items as exact slices of the input text, each list in
/// input order.
pub struct Parsed {
    pub functions: Vec<BoundFunction>,
    pub const_items: Vec<String>,
    pub struct_items: Vec<String>,
    pub type_items: Vec<String>,
}

/// The mathematical view of a [`Parsed`].
pub ghost struct ParsedModel {
    pub functions: Seq<FnModel>,
    pub consts: Seq<Seq<char>>,
    pub structs: Seq<Seq<char>>,
    pub aliases: Seq<Seq<char>>,
}

impl View for Parsed {
    type V = ParsedModel;

    open spec fn view(&self) -> ParsedModel {
        ParsedModel {
            functions: self.functions.deep_view(),
            consts: self.const_items.deep_view(),
            structs: self.struct_items.deep_view(),
            aliases: self.type_items.deep_view(),
        }
    }
}

impl Default for Parsed {
    /// The empty extraction result.
    fn default() -> (r: Self)
        ensures
            r@ == empty_model(),
    {
        let r = Parsed {
            functions: Vec::new(),
            const_items: Vec::new(),
            struct_items: Vec::new(),
            type_items: Vec::new(),
        };
        proof {
            assert(r@.functions =~= empty_model().functions);
            assert(r@.consts =~= empty_model().consts);
            assert(r@.structs =~= empty_model().structs);
            assert(r@.aliases =~= empty_model().aliases);
        }
        r
    }
}

/// Every token lies inside the text, has a nonempty range, and the tokens
/// appear in input order.
pub open spec fn wf_tokens(s: Seq<char>, toks: Seq<TokenModel>) -> bool {
    (forall|k: int|
        0 <= k < toks.len() ==> 0 <= (#[trigger] toks[k]).start < toks[k].end <= s.len())
        && (forall|k1: int, k2: int|
        0 <= k1 < k2 < toks.len() ==> (#[trigger] toks[k1]).end <= (#[trigger] toks[k2]).start)
}

/// The text a token covers.
pub open spec fn tok_text(s: Seq<char>, t: TokenModel) -> Seq<char> {
    s.subrange(t.start, t.end)
}

/// Token `j` exists and is the single punctuation character `c`.
pub open spec fn tok_is_char(s: Seq<char>, toks: Seq<TokenModel>, j: int, c: char) -> bool {
    0 <= j < toks.len() && toks[j].kind == TokenKind::Punct && toks[j].end == toks[j].start + 1
        && s[toks[j].start] == c
}

/// Token `j` exists and is the two-character arrow `->`.
pub open spec fn tok_is_arrow(toks: Seq<TokenModel>, j: int) -> bool {
    0 <= j < toks.len() && toks[j].kind == TokenKind::Punct && toks[j].end == toks[j].start + 2
}

/// Token `j` exists and is the three-character ellipsis `...`.
pub open spec fn tok_is_ellipsis(toks: Seq<TokenModel>, j: int) -> bool {
    0 <= j < toks.len() && toks[j].kind == TokenKind::Punct && toks[j].end == toks[j].start + 3
}

/// Token `j` exists and is the identifier whose text is `kw`.
pub open spec fn tok_is_kw(s: Seq<char>, toks: Seq<TokenModel>, j: int, kw: Seq<char>) -> bool {
    0 <= j < toks.len() && toks[j].kind == TokenKind::Ident && tok_text(s, toks[j]) == kw
}

/// Token `j` exists and is an identifier.
pub open spec fn tok_is_ident(toks: Seq<TokenModel>, j: int) -> bool {
    0 <= j < toks.len() && toks[j].kind == TokenKind::Ident
}

/// Token `j` exists and is a string literal.
pub open spec fn tok_is_str(toks: Seq<TokenModel>, j: int) -> bool {
    0 <= j < toks.len() && toks[j].kind == TokenKind::Str
}

/// The keyword that opens a foreign block, assembled from two pieces so that
/// this crate's own text never holds the keyword itself.
pub open spec fn spec_foreign_kw() -> Seq<char> {
    "ext"@ + "ern"@
}

/// An opening delimiter for item-level depth counting.
pub open spec fn tok_opens(s: Seq<char>, toks: Seq<TokenModel>, j: int) -> bool {
    tok_is_char(s, toks, j, '(') || tok_is_char(s, toks, j, '[') || tok_is_char(s, toks, j, '{')
}

/// A closing delimiter for item-level depth counting.
pub open spec fn tok_closes(s: Seq<char>, toks: Seq<TokenModel>, j: int) -> bool {
    tok_is_char(s, toks, j, ')') || tok_is_char(s, toks, j, ']') || tok_is_char(s, toks, j, '}')
}

/// An opening delimiter for type-level depth counting (generics included).
pub open spec fn tok_opens_ty(s: Seq<char>, toks: Seq<TokenModel>, j: int) -> bool {
    tok_opens(s, toks, j) || tok_is_char(s, toks, j, '<')
}

/// A closing delimiter for type-level depth counting (generics included).
pub open spec fn tok_closes_ty(s: Seq<char>, toks: Seq<TokenModel>, j: int) -> bool {
    tok_closes(s, toks, j) || tok_is_char(s, toks, j, '>')
}

/// Index of the token that ends the item starting at `j`: the first `;` at
/// delimiter depth zero, or the `}` that closes the first top-level brace
/// group. `None` if the input ends first.
pub open spec fn spec_scan_item_end(
    s: Seq<char>,
    toks: Seq<TokenModel>,
    j: int,
    depth: int,
) -> Option<int>
    decreases toks.len() - j,
{
    if !(0 <= j < toks.len()) {
        None
    } else if depth == 0 && tok_is_char(s, toks, j, ';') {
        Some(j)
    } else if tok_opens(s, toks, j) {
        spec_scan_item_end(s, toks, j + 1, depth + 1)
    } else if tok_closes(s, toks, j) {
        if depth == 1 && tok_is_char(s, toks, j, '}') {
            Some(j)
        } else {
            spec_scan_item_end(s, toks, j + 1, if depth > 0 { depth - 1 } else { 0 })
        }
    } else {
        spec_scan_item_end(s, toks, j + 1, depth)
    }
}

/// Index of the closing delimiter that brings the depth opened before `j`
/// back to zero. `None` if the input ends first.
pub open spec fn spec_scan_group_end(
    s: Seq<char>,
    toks: Seq<TokenModel>,
    j: int,
    depth: int,
) -> Option<int>
    decreases toks.len() - j,
{
    if !(0 <= j < toks.len()) {
        None
    } else if tok_opens(s, toks, j) {
        spec_scan_group_end(s, toks, j + 1, depth + 1)
    } else if tok_closes(s, toks, j) {
        if depth <= 1 {
            Some(j)
        } else {
            spec_scan_group_end(s, toks, j + 1, depth - 1)
        }
    } else {
        spec_scan_group_end(s, toks, j + 1, depth)
    }
}

/// Index of the token that stops a type span read from `j` on: at depth zero
/// either `;` (when `stop_semi` holds, for return types) or `,` / `)` (for
/// parameter types). `None` if the input ends first.
pub open spec fn spec_scan_type_end(
    s: Seq<char>,
    toks: Seq<TokenModel>,
    j: int,
    depth: int,
    stop_semi: bool,
) -> Option<int>
    decreases toks.len() - j,
{
    if !(0 <= j < toks.len()) {
        None
    } else if depth == 0 && (if stop_semi {
        tok_is_char(s, toks, j, ';')
    } else {
        tok_is_char(s, toks, j, ',') || tok_is_char(s, toks, j, ')')
    }) {
        Some(j)
    } else if tok_opens_ty(s, toks, j) {
        spec_scan_type_end(s, toks, j + 1, depth + 1, stop_semi)
    } else if tok_closes_ty(s, toks, j) {
        spec_scan_type_end(s, toks, j + 1, if depth > 0 { depth - 1 } else { 0 }, stop_semi)
    } else {
        spec_scan_type_end(s, toks, j + 1, depth, stop_semi)
    }
}

/// Index of the first token after the attributes (`#[...]` groups) at `j`.
/// `None` when a `#` is not followed by a bracket group that closes.
pub open spec fn spec_skip_attrs(s: Seq<char>, toks: Seq<TokenModel>, j: int) -> Option<int>
    decreases toks.len() - j,
{
    if !tok_is_char(s, toks, j, '#') {
        Some(j)
    } else if !tok_is_char(s, toks, j + 1, '[') {
        None
    } else {
        match spec_scan_group_end(s, toks, j + 2, 1) {
            None => None,
            Some(k) => spec_skip_attrs(s, toks, clamp_after(j, k + 1, toks.len() as int)),
        }
    }
}

/// Index of the first token after an optional `pub` / `pub(...)` at `j`.
pub open spec fn spec_skip_vis(s: Seq<char>, toks: Seq<TokenModel>, j: int) -> Option<int> {
    if !tok_is_kw(s, toks, j, "pub"@) {
        Some(j)
    } else if tok_is_char(s, toks, j + 1, '(') {
        match spec_scan_group_end(s, toks, j + 2, 1) {
            None => None,
            Some(k) => Some(k + 1),
        }
    } else {
        Some(j + 1)
    }
}

/// Parameter list of a foreign function, read from the first token after the
/// opening parenthesis: the parameters, the variadic flag, and the index just
/// past the closing parenthesis.
pub open spec fn spec_parse_params(s: Seq<char>, toks: Seq<TokenModel>, j: int) -> Option<
    (Seq<ParamModel>, bool, int),
>
    decreases toks.len() - j,
{
    if tok_is_char(s, toks, j, ')') {
        Some((Seq::empty(), false, j + 1))
    } else if tok_is_ellipsis(toks, j) {
        if tok_is_char(s, toks, j + 1, ')') {
            Some((Seq::empty(), true, j + 2))
        } else {
            None
        }
    } else if tok_is_ident(toks, j) && tok_is_char(s, toks, j + 1, ':') {
        match spec_scan_type_end(s, toks, j + 2, 0, false) {
            None => None,
            Some(k) => if k <= j + 2 {
                None
            } else {
                let p = ParamModel {
                    name: tok_text(s, toks[j]),
                    ty: s.subrange(toks[j + 2].start, toks[k - 1].end),
                };
                if tok_is_char(s, toks, k, ')') {
                    Some((seq![p], false, k + 1))
                } else {
                    match spec_parse_params(s, toks, clamp_after(j, k + 1, toks.len() as int)) {
                        None => None,
                        Some((rest, v, jn)) => Some((seq![p] + rest, v, jn)),
                    }
                }
            },
        }
    } else {
        None
    }
}

/// One foreign function declaration, read with `j` at its `fn` keyword:
/// the signature and the index just past the terminating semicolon.
pub open spec fn spec_parse_fn(s: Seq<char>, toks: Seq<TokenModel>, j: int) -> Option<
    (FnModel, int),
> {
    if !(tok_is_kw(s, toks, j, "fn"@) && tok_is_ident(toks, j + 1) && tok_is_char(
        s,
        toks,
        j + 2,
        '(',
    )) {
        None
    } else {
        match spec_parse_params(s, toks, j + 3) {
            None => None,
            Some((params, variadic, ja)) => {
                let name = tok_text(s, toks[j + 1]);
                if tok_is_char(s, toks, ja, ';') {
                    Some((FnModel { name, params, ret: None, variadic }, ja + 1))
                } else if tok_is_arrow(toks, ja) {
                    match spec_scan_type_end(s, toks, ja + 1, 0, true) {
                        None => None,
                        Some(k) => if k <= ja + 1 {
                            None
                        } else {
                            let ret = s.subrange(toks[ja + 1].start, toks[k - 1].end);
                            Some((FnModel { name, params, ret: Some(ret), variadic }, k + 1))
                        },
                    }
                } else {
                    None
                }
            },
        }
    }
}

/// The body of a foreign block, read from the first token after its opening
/// brace: the declared functions in order, and the index just past the
/// closing brace. Items other than functions (such as foreign statics) are
/// skipped up to their semicolon.
pub open spec fn spec_parse_foreign_items(s: Seq<char>, toks: Seq<TokenModel>, j: int) -> Option<
    (Seq<FnModel>, int),
>
    decreases toks.len() - j,
{
    if tok_is_char(s, toks, j, '}') {
        Some((Seq::empty(), j + 1))
    } else {
        match spec_skip_attrs(s, toks, j) {
            None => None,
            Some(j1) => {
                match spec_skip_vis(s, toks, j1) {
                    None => None,
                    Some(j2) => {
                        let j3 = if tok_is_kw(s, toks, j2, "unsafe"@) || tok_is_kw(
                            s,
                            toks,
                            j2,
                            "safe"@,
                        ) {
                            j2 + 1
                        } else {
                            j2
                        };
                        if tok_is_kw(s, toks, j3, "fn"@) {
                            match spec_parse_fn(s, toks, j3) {
                                None => None,
                                Some((f, j4)) => {
                                    match spec_parse_foreign_items(
                                        s,
                                        toks,
                                        clamp_after(j, j4, toks.len() as int),
                                    ) {
                                        None => None,
                                        Some((rest, jn)) => Some((seq![f] + rest, jn)),
                                    }
                                },
                            }
                        } else {
                            match spec_scan_item_end(s, toks, j3, 0) {
                                None => None,
                                Some(k) => {
                                    match spec_parse_foreign_items(
                                        s,
                                        toks,
                                        clamp_after(j, k + 1, toks.len() as int),
                                    ) {
                                        None => None,
                                        Some((rest, jn)) => Some((rest, jn)),
                                    }
                                },
                            }
                        }
                    },
                }
            },
        }
    }
}

/// The classification of one top-level item.
pub ghost enum ItemClass {
    /// A foreign block: the foreign functions declared in it.
    Foreign(Seq<FnModel>),
    /// A constant item, as its exact text.
    Const(Seq<char>),
    /// A struct item, as its exact text.
    Structure(Seq<char>),
    /// A type-alias item, as its exact text.
    Alias(Seq<char>),
    /// Any other item; it is dropped.
    Ignored,
}

/// One top-level item, read with `j` at its first token (attributes
/// included): its classification and the index just past its last token.
pub open spec fn spec_parse_item(s: Seq<char>, toks: Seq<TokenModel>, j: int) -> Option<
    (ItemClass, int),
> {
    match spec_skip_attrs(s, toks, j) {
        None => None,
        Some(j1) => {
            match spec_skip_vis(s, toks, j1) {
                None => None,
                Some(j2) => {
                    let je = if tok_is_kw(s, toks, j2, "unsafe"@) && tok_is_kw(
                        s,
                        toks,
                        j2 + 1,
                        spec_foreign_kw(),
                    ) {
                        j2 + 1
                    } else {
                        j2
                    };
                    if tok_is_kw(s, toks, je, spec_foreign_kw()) && tok_is_str(toks, je + 1) && tok_is_char(
                        s,
                        toks,
                        je + 2,
                        '{',
                    ) {
                        match spec_parse_foreign_items(s, toks, je + 3) {
                            None => None,
                            Some((fs, jn)) => Some((ItemClass::Foreign(fs), jn)),
                        }
                    } else if tok_is_kw(s, toks, j2, "const"@) || tok_is_kw(s, toks, j2, "struct"@)
                        || tok_is_kw(s, toks, j2, "type"@) {
                        match spec_scan_item_end(s, toks, j2, 0) {
                            None => None,
                            Some(k) => {
                                let text = s.subrange(toks[j].start, toks[k].end);
                                let cls = if tok_is_kw(s, toks, j2, "const"@) {
                                    ItemClass::Const(text)
                                } else if tok_is_kw(s, toks, j2, "struct"@) {
                                    ItemClass::Structure(text)
                                } else {
                                    ItemClass::Alias(text)
                                };
                                Some((cls, k + 1))
                            },
                        }
                    } else {
                        match spec_scan_item_end(s, toks, j2, 0) {
                            None => None,
                            Some(k) => Some((ItemClass::Ignored, k + 1)),
                        }
                    }
                },
            }
        },
    }
}

/// Prepends one classified item to an extraction result.
pub open spec fn spec_prepend(cls: ItemClass, m: ParsedModel) -> ParsedModel {
    match cls {
        ItemClass::Foreign(fs) => ParsedModel { functions: fs + m.functions, ..m },
        ItemClass::Const(t) => ParsedModel { consts: seq![t] + m.consts, ..m },
        ItemClass::Structure(t) => ParsedModel { structs: seq![t] + m.structs, ..m },
        ItemClass::Alias(t) => ParsedModel { aliases: seq![t] + m.aliases, ..m },
        ItemClass::Ignored => m,
    }
}

/// The empty extraction result.
pub open spec fn empty_model() -> ParsedModel {
    ParsedModel {
        functions: Seq::empty(),
        consts: Seq::empty(),
        structs: Seq::empty(),
        aliases: Seq::empty(),
    }
}

/// The extraction result of all items from token `j` on.
pub open spec fn spec_parse_items(s: Seq<char>, toks: Seq<TokenModel>, j: int) -> Option<
    ParsedModel,
>
    decreases toks.len() - j,
{
    if !(0 <= j < toks.len()) {
        Some(empty_model())
    } else {
        match spec_parse_item(s, toks, j) {
            None => None,
            Some((cls, j2)) => {
                match spec_parse_items(s, toks, clamp_after(j, j2, toks.len() as int)) {
                    None => None,
                    Some(rest) => Some(spec_prepend(cls, rest)),
                }
            },
        }
    }
}

/// What extraction means for a declaration text: lex it, then classify every
/// top-level item. `None` is a fatal extraction error.
pub open spec fn spec_parse(s: Seq<char>) -> Option<ParsedModel> {
    match spec_tokenize(s, 0) {
        None => None,
        Some(toks) => spec_parse_items(s, toks, 0),
    }
}

/// The foreign-block keyword as a runtime string.
pub fn foreign_kw() -> (r: String)
    ensures
        r@ == spec_foreign_kw(),
{
    let mut s = String::from_str("ext");
    s.append("ern");
    s
}

/// Tokens produced by lexing are in bounds, nonempty, and in input order,
/// and all start at or after the index lexing began from.
pub proof fn lemma_tokenize_wf(s: Seq<char>, i: int)
    requires
        0 <= i,
    ensures
        spec_tokenize(s, i) matches Some(toks) ==> wf_tokens(s, toks) && (forall|k: int|
            0 <= k < toks.len() ==> i <= (#[trigger] toks[k]).start),
    decreases s.len() - i,
{
    crate::lex::lemma_lex_step_wf(s, i);
    let step = crate::lex::spec_lex_step(s, i);
    if step is Tok {
        let t = step->Tok_0;
        let j = clamp_after(i, t.end, s.len() as int);
        lemma_tokenize_wf(s, j);
        if spec_tokenize(s, j) is Some {
            let rest = spec_tokenize(s, j).unwrap();
            let toks = seq![t] + rest;
            assert forall|k: int| 0 <= k < toks.len() implies 0 <= (#[trigger] toks[k]).start
                < toks[k].end <= s.len() && i <= toks[k].start by {
                if k > 0 {
                    assert(toks[k] == rest[k - 1]);
                }
            }
            assert(j == t.end);
            assert forall|k1: int, k2: int| 0 <= k1 < k2 < toks.len() implies (
            #[trigger] toks[k1]).end <= (#[trigger] toks[k2]).start by {
                assert(toks[k2] == rest[k2 - 1]);
                assert(rest[k2 - 1].start >= j);
                if k1 > 0 {
                    assert(toks[k1] == rest[k1 - 1]);
                } else {
                    assert(toks[k1] == t);
                }
            }
        }
    }
}

/// Turns the character range `a..b` of `s` into an owned string.
fn span_text(s: &str, a: usize, b: usize) -> (r: String)
    requires
        a <= b <= s@.len(),
    ensures
        r@ == s@.subrange(a as int, b as int),
{
    let t = s.substring_char(a, b);
    String::from_str(t)
}

fn is_char_tok(s: &str, toks: &Vec<Token>, j: usize, c: char) -> (r: bool)
    requires
        wf_tokens(s@, toks.deep_view()),
    ensures
        r == tok_is_char(s@, toks.deep_view(), j as int, c),
{
    if j >= toks.len() {
        return false;
    }
    let t = toks[j];
    proof {
        assert(toks.deep_view()[j as int] == t@);
    }
    if !matches!(t.kind, TokenKind::Punct) {
        return false;
    }
    if t.end - t.start != 1 {
        return false;
    }
    s.get_char(t.start) == c
}

fn is_arrow_tok(s: &str, toks: &Vec<Token>, j: usize) -> (r: bool)
    requires
        wf_tokens(s@, toks.deep_view()),
    ensures
        r == tok_is_arrow(toks.deep_view(), j as int),
{
    if j >= toks.len() {
        return false;
    }
    let t = toks[j];
    proof {
        assert(toks.deep_view()[j as int] == t@);
    }
    matches!(t.kind, TokenKind::Punct) && t.end - t.start == 2
}

fn is_ellipsis_tok(s: &str, toks: &Vec<Token>, j: usize) -> (r: bool)
    requires
        wf_tokens(s@, toks.deep_view()),
    ensures
        r == tok_is_ellipsis(toks.deep_view(), j as int),
{
    if j >= toks.len() {
        return false;
    }
    let t = toks[j];
    proof {
        assert(toks.deep_view()[j as int] == t@);
    }
    matches!(t.kind, TokenKind::Punct) && t.end - t.start == 3
}

fn is_ident_tok(toks: &Vec<Token>, j: usize) -> (r: bool)
    ensures
        r == tok_is_ident(toks.deep_view(), j as int),
{
    if j >= toks.len() {
        return false;
    }
    let t = toks[j];
    proof {
        assert(toks.deep_view()[j as int] == t@);
    }
    matches!(t.kind, TokenKind::Ident)
}

fn is_str_tok(toks: &Vec<Token>, j: usize) -> (r: bool)
    ensures
        r == tok_is_str(toks.deep_view(), j as int),
{
    if j >= toks.len() {
        return false;
    }
    let t = toks[j];
    proof {
        assert(toks.deep_view()[j as int] == t@);
    }
    matches!(t.kind, TokenKind::Str)
}

fn is_kw_tok(s: &str, toks: &Vec<Token>, j: usize, kw: &str) -> (r: bool)
    requires
        wf_tokens(s@, toks.deep_view()),
    ensures
        r == tok_is_kw(s@, toks.deep_view(), j as int, kw@),
{
    if j >= toks.len() {
        return false;
    }
    let t = toks[j];
    proof {
        assert(toks.deep_view()[j as int] == t@);
    }
    if !matches!(t.kind, TokenKind::Ident) {
        return false;
    }
    let n = t.end - t.start;
    let klen = kw.unicode_len();
    if n != klen {
        proof {
            assert(tok_text(s@, t@).len() == n);
        }
        return false;
    }
    let mut m: usize = 0;
    while m < n
        invariant
            m <= n,
            n == klen,
            klen == kw@.len(),
            t@ == toks.deep_view()[j as int],
            j < toks.len(),
            n == t.end - t.start,
            wf_tokens(s@, toks.deep_view()),
            t.kind == TokenKind::Ident,
            forall|q: int| 0 <= q < m ==> s@[t.start + q] == kw@[q],
        decreases n - m,
    {
        let c1 = s.get_char(t.start + m);
        let c2 = kw.get_char(m);
        if c1 != c2 {
            proof {
                assert(tok_text(s@, t@)[m as int] != kw@[m as int]);
            }
            return false;
        }
        m = m + 1;
    }
    proof {
        assert(tok_text(s@, t@) =~= kw@);
    }
    true
}

fn scan_item_end(s: &str, toks: &Vec<Token>, j: usize) -> (r: Option<usize>)
    requires
        wf_tokens(s@, toks.deep_view()),
    ensures
        match r {
            Some(k) => spec_scan_item_end(s@, toks.deep_view(), j as int, 0) == Some(
                k as int,
            ) && j <= k < toks.len(),
            None => spec_scan_item_end(s@, toks.deep_view(), j as int, 0) is None,
        },
{
    let mut jj: usize = j;
    let mut d: usize = 0;
    loop
        invariant
            j <= jj,
            d <= jj - j,
            wf_tokens(s@, toks.deep_view()),
            spec_scan_item_end(s@, toks.deep_view(), j as int, 0) == spec_scan_item_end(
                s@,
                toks.deep_view(),
                jj as int,
                d as int,
            ),
        decreases toks.len() - jj,
    {
        if jj >= toks.len() {
            return None;
        }
        if d == 0 && is_char_tok(s, toks, jj, ';') {
            return Some(jj);
        }
        if is_char_tok(s, toks, jj, '(') || is_char_tok(s, toks, jj, '[') || is_char_tok(
            s,
            toks,
            jj,
            '{',
        ) {
            d = d + 1;
        } else if is_char_tok(s, toks, jj, ')') || is_char_tok(s, toks, jj, ']') || is_char_tok(
            s,
            toks,
            jj,
            '}',
        ) {
            if d == 1 && is_char_tok(s, toks, jj, '}') {
                return Some(jj);
            }
            if d > 0 {
                d = d - 1;
            }
        }
        jj = jj + 1;
    }
}

fn scan_group_end(s: &str, toks: &Vec<Token>, j: usize, depth: usize) -> (r: Option<usize>)
    requires
        wf_tokens(s@, toks.deep_view()),
        depth == 1,
        j >= 1,
    ensures
        match r {
            Some(k) => spec_scan_group_end(s@, toks.deep_view(), j as int, depth as int) == Some(
                k as int,
            ) && j <= k < toks.len(),
            None => spec_scan_group_end(s@, toks.deep_view(), j as int, depth as int) is None,
        },
{
    let mut jj: usize = j;
    let mut d: usize = depth;
    loop
        invariant
            1 <= j <= jj,
            1 <= d <= depth + (jj - j),
            depth == 1,
            wf_tokens(s@, toks.deep_view()),
            spec_scan_group_end(s@, toks.deep_view(), j as int, depth as int)
                == spec_scan_group_end(s@, toks.deep_view(), jj as int, d as int),
        decreases toks.len() - jj,
    {
        if jj >= toks.len() {
            return None;
        }
        if is_char_tok(s, toks, jj, '(') || is_char_tok(s, toks, jj, '[') || is_char_tok(
            s,
            toks,
            jj,
            '{',
        ) {
            d = d + 1;
        } else if is_char_tok(s, toks, jj, ')') || is_char_tok(s, toks, jj, ']') || is_char_tok(
            s,
            toks,
            jj,
            '}',
        ) {
            if d <= 1 {
                return Some(jj);
            }
            d = d - 1;
        }
        jj = jj + 1;
    }
}

fn scan_type_end(s: &str, toks: &Vec<Token>, j: usize, stop_semi: bool) -> (r: Option<usize>)
    requires
        wf_tokens(s@, toks.deep_view()),
    ensures
        match r {
            Some(k) => spec_scan_type_end(s@, toks.deep_view(), j as int, 0, stop_semi) == Some(
                k as int,
            ) && j <= k < toks.len(),
            None => spec_scan_type_end(s@, toks.deep_view(), j as int, 0, stop_semi) is None,
        },
{
    let mut jj: usize = j;
    let mut d: usize = 0;
    loop
        invariant
            j <= jj,
            d <= jj - j,
            wf_tokens(s@, toks.deep_view()),
            spec_scan_type_end(s@, toks.deep_view(), j as int, 0, stop_semi) == spec_scan_type_end(
                s@,
                toks.deep_view(),
                jj as int,
                d as int,
                stop_semi,
            ),
        decreases toks.len() - jj,
    {
        if jj >= toks.len() {
            return None;
        }
        if d == 0 {
            let stopped = if stop_semi {
                is_char_tok(s, toks, jj, ';')
            } else {
                is_char_tok(s, toks, jj, ',') || is_char_tok(s, toks, jj, ')')
            };
            if stopped {
                return Some(jj);
            }
        }
        if is_char_tok(s, toks, jj, '(') || is_char_tok(s, toks, jj, '[') || is_char_tok(
            s,
            toks,
            jj,
            '{',
        ) || is_char_tok(s, toks, jj, '<') {
            d = d + 1;
        } else if is_char_tok(s, toks, jj, ')') || is_char_tok(s, toks, jj, ']') || is_char_tok(
            s,
            toks,
            jj,
            '}',
        ) || is_char_tok(s, toks, jj, '>') {
            if d > 0 {
                d = d - 1;
            }
        }
        jj = jj + 1;
    }
}

fn skip_attrs(s: &str, toks: &Vec<Token>, j: usize) -> (r: Option<usize>)
    requires
        wf_tokens(s@, toks.deep_view()),
        j <= toks.len(),
    ensures
        match r {
            Some(j1) => spec_skip_attrs(s@, toks.deep_view(), j as int) == Some(j1 as int) && j
                <= j1 <= toks.len(),
            None => spec_skip_attrs(s@, toks.deep_view(), j as int) is None,
        },
{
    let mut jj: usize = j;
    loop
        invariant
            j <= jj <= toks.len(),
            wf_tokens(s@, toks.deep_view()),
            spec_skip_attrs(s@, toks.deep_view(), j as int) == spec_skip_attrs(
                s@,
                toks.deep_view(),
                jj as int,
            ),
        decreases toks.len() - jj,
    {
        if !is_char_tok(s, toks, jj, '#') {
            return Some(jj);
        }
        if !is_char_tok(s, toks, jj + 1, '[') {
            return None;
        }
        match scan_group_end(s, toks, jj + 2, 1) {
            None => {
                return None;
            },
            Some(k) => {
                proof {
                    assert(clamp_after(jj as int, k as int + 1, toks.deep_view().len() as int) == k
                        as int + 1);
                }
                jj = k + 1;
            },
        }
    }
}

fn skip_vis(s: &str, toks: &Vec<Token>, j: usize) -> (r: Option<usize>)
    requires
        wf_tokens(s@, toks.deep_view()),
        j <= toks.len(),
    ensures
        match r {
            Some(j1) => spec_skip_vis(s@, toks.deep_view(), j as int) == Some(j1 as int) && j <= j1
                <= toks.len(),
            None => spec_skip_vis(s@, toks.deep_view(), j as int) is None,
        },
{
    if !is_kw_tok(s, toks, j, "pub") {
        return Some(j);
    }
    if is_char_tok(s, toks, j + 1, '(') {
        match scan_group_end(s, toks, j + 2, 1) {
            None => None,
            Some(k) => Some(k + 1),
        }
    } else {
        Some(j + 1)
    }
}

fn parse_params(s: &str, toks: &Vec<Token>, j: usize) -> (r: Option<(Vec<Param>, bool, usize)>)
    requires
        wf_tokens(s@, toks.deep_view()),
        j <= toks.len(),
    ensures
        match r {
            Some((ps, v, jn)) => spec_parse_params(s@, toks.deep_view(), j as int) == Some(
                (ps.deep_view(), v, jn as int),
            ) && j < jn <= toks.len(),
            None => spec_parse_params(s@, toks.deep_view(), j as int) is None,
        },
    decreases toks.len() - j,
{
    if is_char_tok(s, toks, j, ')') {
        let ps: Vec<Param> = Vec::new();
        proof {
            assert(ps.deep_view() =~= Seq::<ParamModel>::empty());
        }
        return Some((ps, false, j + 1));
    }
    if is_ellipsis_tok(s, toks, j) {
        if is_char_tok(s, toks, j + 1, ')') {
            let ps: Vec<Param> = Vec::new();
            proof {
                assert(ps.deep_view() =~= Seq::<ParamModel>::empty());
            }
            return Some((ps, true, j + 2));
        }
        return None;
    }
    if is_ident_tok(toks, j) && is_char_tok(s, toks, j + 1, ':') {
        match scan_type_end(s, toks, j + 2, false) {
            None => None,
            Some(k) => {
                if k <= j + 2 {
                    return None;
                }
                let tj = toks[j];
                let t2 = toks[j + 2];
                let tk = toks[k - 1];
                proof {
                    assert(toks.deep_view()[j as int] == tj@);
                    assert(toks.deep_view()[j as int + 2] == t2@);
                    assert(toks.deep_view()[k as int - 1] == tk@);
                }
                let name = span_text(s, tj.start, tj.end);
                let ty = span_text(s, t2.start, tk.end);
                let p = Param { name, ty };
                if is_char_tok(s, toks, k, ')') {
                    let mut ps: Vec<Param> = Vec::new();
                    ps.push(p);
                    proof {
                        assert(ps.deep_view() =~= seq![p@]);
                    }
                    return Some((ps, false, k + 1));
                }
                proof {
                    assert(clamp_after(j as int, k as int + 1, toks.deep_view().len() as int) == k
                        as int + 1);
                }
                match parse_params(s, toks, k + 1) {
                    None => None,
                    Some((mut ps, v, jn)) => {
                        let ghost prev = ps.deep_view();
                        ps.insert(0, p);
                        proof {
                            assert(ps.deep_view() =~= seq![p@] + prev);
                        }
                        Some((ps, v, jn))
                    },
                }
            },
        }
    } else {
        None
    }
}

fn parse_fn(s: &str, toks: &Vec<Token>, j: usize) -> (r: Option<(BoundFunction, usize)>)
    requires
        wf_tokens(s@, toks.deep_view()),
        j <= toks.len(),
    ensures
        match r {
            Some((f, jn)) => spec_parse_fn(s@, toks.deep_view(), j as int) == Some(
                (f@, jn as int),
            ) && j < jn <= toks.len(),
            None => spec_parse_fn(s@, toks.deep_view(), j as int) is None,
        },
{
    if !is_kw_tok(s, toks, j, "fn") {
        return None;
    }
    if !is_ident_tok(toks, j + 1) {
        return None;
    }
    if !is_char_tok(s, toks, j + 2, '(') {
        return None;
    }
    match parse_params(s, toks, j + 3) {
        None => None,
        Some((params, variadic, ja)) => {
            let tn = toks[j + 1];
            proof {
                assert(toks.deep_view()[j as int + 1] == tn@);
            }
            let ident = span_text(s, tn.start, tn.end);
            if is_char_tok(s, toks, ja, ';') {
                let f = BoundFunction { ident, params, ret: None, variadic };
                return Some((f, ja + 1));
            }
            if is_arrow_tok(s, toks, ja) {
                match scan_type_end(s, toks, ja + 1, true) {
                    None => None,
                    Some(k) => {
                        if k <= ja + 1 {
                            return None;
                        }
                        let ta = toks[ja + 1];
                        let tk = toks[k - 1];
                        proof {
                            assert(toks.deep_view()[ja as int + 1] == ta@);
                            assert(toks.deep_view()[k as int - 1] == tk@);
                        }
                        let ret = span_text(s, ta.start, tk.end);
                        let f = BoundFunction { ident, params, ret: Some(ret), variadic };
                        Some((f, k + 1))
                    },
                }
            } else {
                None
            }
        },
    }
}

#[verifier::rlimit(60)]
fn parse_foreign_items(s: &str, toks: &Vec<Token>, j: usize) -> (r: Option<
    (Vec<BoundFunction>, usize),
>)
    requires
        wf_tokens(s@, toks.deep_view()),
        j <= toks.len(),
    ensures
        match r {
            Some((fs, jn)) => spec_parse_foreign_items(s@, toks.deep_view(), j as int) == Some(
                (fs.deep_view(), jn as int),
            ) && j < jn <= toks.len(),
            None => spec_parse_foreign_items(s@, toks.deep_view(), j as int) is None,
        },
    decreases toks.len() - j,
{
    if is_char_tok(s, toks, j, '}') {
        let fs: Vec<BoundFunction> = Vec::new();
        proof {
            assert(fs.deep_view() =~= Seq::<FnModel>::empty());
        }
        return Some((fs, j + 1));
    }
    match skip_attrs(s, toks, j) {
        None => None,
        Some(j1) => {
            match skip_vis(s, toks, j1) {
                None => None,
                Some(j2) => {
                    let j3 = if is_kw_tok(s, toks, j2, "unsafe") || is_kw_tok(s, toks, j2, "safe") {
                        j2 + 1
                    } else {
                        j2
                    };
                    if is_kw_tok(s, toks, j3, "fn") {
                        match parse_fn(s, toks, j3) {
                            None => None,
                            Some((f, j4)) => {
                                proof {
                                    assert(clamp_after(
                                        j as int,
                                        j4 as int,
                                        toks.deep_view().len() as int,
                                    ) == j4 as int);
                                }
                                match parse_foreign_items(s, toks, j4) {
                                    None => None,
                                    Some((mut fs, jn)) => {
                                        let ghost prev = fs.deep_view();
                                        fs.insert(0, f);
                                        proof {
                                            assert(fs.deep_view() =~= seq![f@] + prev);
                                        }
                                        Some((fs, jn))
                                    },
                                }
                            },
                        }
                    } else {
                        match scan_item_end(s, toks, j3) {
                            None => None,
                            Some(k) => {
                                proof {
                                    assert(clamp_after(
                                        j as int,
                                        k as int + 1,
                                        toks.deep_view().len() as int,
                                    ) == k as int + 1);
                                }
                                match parse_foreign_items(s, toks, k + 1) {
                                    None => None,
                                    Some((fs, jn)) => Some((fs, jn)),
                                }
                            },
                        }
                    }
                },
            }
        },
    }
}

/// The executable counterpart of [`ItemClass`].
pub enum ItemPiece {
    Foreign(Vec<BoundFunction>),
    Const(String),
    Structure(String),
    Alias(String),
    Ignored,
}

impl View for ItemPiece {
    type V = ItemClass;

    open spec fn view(&self) -> ItemClass {
        match self {
            ItemPiece::Foreign(fs) => ItemClass::Foreign(fs.deep_view()),
            ItemPiece::Const(t) => ItemClass::Const(t@),
            ItemPiece::Structure(t) => ItemClass::Structure(t@),
            ItemPiece::Alias(t) => ItemClass::Alias(t@),
            ItemPiece::Ignored => ItemClass::Ignored,
        }
    }
}

fn parse_item(s: &str, toks: &Vec<Token>, j: usize) -> (r: Option<(ItemPiece, usize)>)
    requires
        wf_tokens(s@, toks.deep_view()),
        j <= toks.len(),
    ensures
        match r {
            Some((cls, jn)) => spec_parse_item(s@, toks.deep_view(), j as int) == Some(
                (cls@, jn as int),
            ) && j < jn <= toks.len(),
            None => spec_parse_item(s@, toks.deep_view(), j as int) is None,
        },
{
    match skip_attrs(s, toks, j) {
        None => None,
        Some(j1) => {
            match skip_vis(s, toks, j1) {
                None => None,
                Some(j2) => {
                    let mut fkw = String::from_str("ext");
                    fkw.append("ern");
                    proof {
                        assert(fkw@ == spec_foreign_kw());
                    }
                    let je = if is_kw_tok(s, toks, j2, "unsafe") {
                        if is_kw_tok(s, toks, j2 + 1, fkw.as_str()) {
                            j2 + 1
                        } else {
                            j2
                        }
                    } else {
                        j2
                    };
                    let is_foreign_block = if is_kw_tok(s, toks, je, fkw.as_str()) {
                        if is_str_tok(toks, je + 1) {
                            is_char_tok(s, toks, je + 2, '{')
                        } else {
                            false
                        }
                    } else {
                        false
                    };
                    if is_foreign_block {
                        match parse_foreign_items(s, toks, je + 3) {
                            None => None,
                            Some((fs, jn)) => Some((ItemPiece::Foreign(fs), jn)),
                        }
                    } else if is_kw_tok(s, toks, j2, "const") || is_kw_tok(s, toks, j2, "struct")
                        || is_kw_tok(s, toks, j2, "type") {
                        match scan_item_end(s, toks, j2) {
                            None => None,
                            Some(k) => {
                                let tj = toks[j];
                                let tk = toks[k];
                                proof {
                                    assert(toks.deep_view()[j as int] == tj@);
                                    assert(toks.deep_view()[k as int] == tk@);
                                }
                                let text = span_text(s, tj.start, tk.end);
                                let cls = if is_kw_tok(s, toks, j2, "const") {
                                    ItemPiece::Const(text)
                                } else if is_kw_tok(s, toks, j2, "struct") {
                                    ItemPiece::Structure(text)
                                } else {
                                    ItemPiece::Alias(text)
                                };
                                Some((cls, k + 1))
                            },
                        }
                    } else {
                        match scan_item_end(s, toks, j2) {
                            None => None,
                            Some(k) => Some((ItemPiece::Ignored, k + 1)),
                        }
                    }
                },
            }
        },
    }
}

fn parse_items(s: &str, toks: &Vec<Token>, j: usize) -> (r: Option<Parsed>)
    requires
        wf_tokens(s@, toks.deep_view()),
        j <= toks.len(),
    ensures
        match r {
            Some(p) => spec_parse_items(s@, toks.deep_view(), j as int) == Some(p@),
            None => spec_parse_items(s@, toks.deep_view(), j as int) is None,
        },
    decreases toks.len() - j,
{
    if j >= toks.len() {
        let p = Parsed {
            functions: Vec::new(),
            const_items: Vec::new(),
            struct_items: Vec::new(),
            type_items: Vec::new(),
        };
        proof {
            assert(p@.functions =~= empty_model().functions);
            assert(p@.consts =~= empty_model().consts);
            assert(p@.structs =~= empty_model().structs);
            assert(p@.aliases =~= empty_model().aliases);
        }
        return Some(p);
    }
    match parse_item(s, toks, j) {
        None => None,
        Some((cls, j2)) => {
            proof {
                assert(clamp_after(j as int, j2 as int, toks.deep_view().len() as int) == j2
                    as int);
            }
            match parse_items(s, toks, j2) {
                None => None,
                Some(rest) => {
                    let ghost restv = rest@;
                    let mut out = rest;
                    match cls {
                        ItemPiece::Foreign(fs) => {
                            let mut v = fs;
                            let ghost fsv = v.deep_view();
                            v.append(&mut out.functions);
                            proof {
                                assert(v.deep_view() =~= fsv + restv.functions);
                            }
                            out.functions = v;
                        },
                        ItemPiece::Const(t) => {
                            let ghost prev = out.const_items.deep_view();
                            out.const_items.insert(0, t);
                            proof {
                                assert(out.const_items.deep_view() =~= seq![t@] + prev);
                            }
                        },
                        ItemPiece::Structure(t) => {
                            let ghost prev = out.struct_items.deep_view();
                            out.struct_items.insert(0, t);
                            proof {
                                assert(out.struct_items.deep_view() =~= seq![t@] + prev);
                            }
                        },
                        ItemPiece::Alias(t) => {
                            let ghost prev = out.type_items.deep_view();
                            out.type_items.insert(0, t);
                            proof {
                                assert(out.type_items.deep_view() =~= seq![t@] + prev);
                            }
                        },
                        ItemPiece::Ignored => {},
                    }
                    Some(out)
                },
            }
        },
    }
}

/// Extracts every declaration from the given text.
///
/// On success the result is exactly what the declaration grammar reads out of
/// `code`: each foreign function of each foreign block, in order, and every
/// constant, struct and type-alias item as an exact slice of the text. A text
/// the grammar does not accept is reported as [`Error::Malformed`], never as
/// a partial result.
pub fn parse(code: &str) -> (r: Result<Parsed, crate::Error>)
    ensures
        match r {
            Ok(p) => spec_parse(code@) == Some(p@),
            Err(e) => spec_parse(code@) is None && e == crate::Error::Malformed,
        },
{
    match tokenize(code) {
        None => Err(crate::Error::Malformed),
        Some(toks) => {
            proof {
                lemma_tokenize_wf(code@, 0);
            }
            match parse_items(code, &toks, 0) {
                None => Err(crate::Error::Malformed),
                Some(p) => Ok(p),
            }
        },
    }
}

} // verus!
