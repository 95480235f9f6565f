//! The grammar-driven parser: lexical analysis, probe-declaration parsing
//! and precedence-climbing expression parsing, each stated as a spec-level
//! grammar function and implemented by a verified mirror.

use vstd::prelude::*;
use crate::parser::types::{
    DataType, DataTypeV, Expr, ExprV, LineColLocation, Location, LocationV, Op, ParseError,
    Statement, StatementV, Value, ValueV, view_expr, view_opt_loc, view_statement,
    view_statements,
};

verus! {

// =======================
// ==== Tokens ===========
// =======================

/// One lexical token, with the character offset where it starts and the
/// line/column that offset lies at.
pub struct Token {
    pub kind: TokenKind,
    pub pos: usize,
    pub line: usize,
    pub col: usize,
}

pub enum TokenKind {
    Ident(Vec<char>),
    /// One probe-specification segment: identifier characters and the glob
    /// metacharacters `*`, `?` and `[...]` classes.
    SpecWord(Vec<char>),
    IntLit(i32),
    StrLit(Vec<char>),
    Colon,
    Slash,
    LBrace,
    RBrace,
    LParen,
    RParen,
    Semi,
    Assign,
    Comma,
    AndAnd,
    OrOr,
    EqEq,
    Ne,
    Ge,
    Gt,
    Le,
    Lt,
    Plus,
    Minus,
    Star,
    Percent,
}

/// Mathematical model of a token.
pub struct TokenV {
    pub kind: TokenKindV,
    pub pos: usize,
    pub line: usize,
    pub col: usize,
}

pub enum TokenKindV {
    Ident(Seq<char>),
    SpecWord(Seq<char>),
    IntLit(i32),
    StrLit(Seq<char>),
    Colon,
    Slash,
    LBrace,
    RBrace,
    LParen,
    RParen,
    Semi,
    Assign,
    Comma,
    AndAnd,
    OrOr,
    EqEq,
    Ne,
    Ge,
    Gt,
    Le,
    Lt,
    Plus,
    Minus,
    Star,
    Percent,
}

impl View for TokenKind {
    type V = TokenKindV;

    open spec fn view(&self) -> TokenKindV {
        match self {
            TokenKind::Ident(v) => TokenKindV::Ident(v@),
            TokenKind::SpecWord(v) => TokenKindV::SpecWord(v@),
            TokenKind::IntLit(n) => TokenKindV::IntLit(*n),
            TokenKind::StrLit(v) => TokenKindV::StrLit(v@),
            TokenKind::Colon => TokenKindV::Colon,
            TokenKind::Slash => TokenKindV::Slash,
            TokenKind::LBrace => TokenKindV::LBrace,
            TokenKind::RBrace => TokenKindV::RBrace,
            TokenKind::LParen => TokenKindV::LParen,
            TokenKind::RParen => TokenKindV::RParen,
            TokenKind::Semi => TokenKindV::Semi,
            TokenKind::Assign => TokenKindV::Assign,
            TokenKind::Comma => TokenKindV::Comma,
            TokenKind::AndAnd => TokenKindV::AndAnd,
            TokenKind::OrOr => TokenKindV::OrOr,
            TokenKind::EqEq => TokenKindV::EqEq,
            TokenKind::Ne => TokenKindV::Ne,
            TokenKind::Ge => TokenKindV::Ge,
            TokenKind::Gt => TokenKindV::Gt,
            TokenKind::Le => TokenKindV::Le,
            TokenKind::Lt => TokenKindV::Lt,
            TokenKind::Plus => TokenKindV::Plus,
            TokenKind::Minus => TokenKindV::Minus,
            TokenKind::Star => TokenKindV::Star,
            TokenKind::Percent => TokenKindV::Percent,
        }
    }
}

impl View for Token {
    type V = TokenV;

    open spec fn view(&self) -> TokenV {
        TokenV { kind: self.kind@, pos: self.pos, line: self.line, col: self.col }
    }
}

pub open spec fn view_tokens(toks: Seq<Token>) -> Seq<TokenV> {
    toks.map_values(|t: Token| t@)
}

// =======================
// ==== Char classes =====
// =======================

pub open spec fn spec_is_ws(c: char) -> bool {
    c == ' ' || c == '\t' || c == '\r' || c == '\n'
}

pub open spec fn spec_is_digit(c: char) -> bool {
    '0' <= c && c <= '9'
}

pub open spec fn spec_is_alpha(c: char) -> bool {
    ('a' <= c && c <= 'z') || ('A' <= c && c <= 'Z') || c == '_'
}

pub open spec fn spec_is_ident_char(c: char) -> bool {
    spec_is_alpha(c) || spec_is_digit(c)
}

/// The characters a probe-specification segment may hold outside a bracket
/// class: identifier characters and the glob metacharacters `*` and `?`.
pub open spec fn spec_is_word_char(c: char) -> bool {
    spec_is_ident_char(c) || c == '*' || c == '?'
}

// =======================
// ==== The lexer ========
// =======================

/// The token stream of the source from position `i` on, or `None` on a
/// lexical offence: an unterminated string, bracket class or block comment,
/// a stray character, a digit-prefixed token that is not a numeric literal,
/// or an integer literal out of range. The language is read in two modes,
/// as the grammar demands: in specification position (`in_spec`) a run of
/// identifier characters and glob metacharacters forms one segment word,
/// and `/` or `{` hands over to expression position, where the operators
/// live; the `}` that closes a body hands back. Line and column fields are
/// filled by a later pass and are zero here.
pub open spec fn spec_lex(s: Seq<char>, i: int, in_spec: bool) -> Option<Seq<TokenV>>
    decreases s.len() - i, 0int,
    when 0 <= i
{
    if i >= s.len() {
        Some(Seq::empty())
    } else {
        let c = s[i];
        if spec_is_ws(c) {
            spec_lex(s, i + 1, in_spec)
        } else if c == '/' && i + 1 < s.len() && s[i + 1] == '/' {
            spec_lex_line_comment(s, i + 2, in_spec)
        } else if c == '/' && i + 1 < s.len() && s[i + 1] == '*' {
            spec_lex_block_comment(s, i + 2, in_spec)
        } else if in_spec {
            if spec_is_word_char(c) {
                spec_lex_word(s, i + 1, i)
            } else if c == '[' {
                spec_lex_word_class(s, i + 1, i)
            } else if c == ':' {
                spec_emit(s, i + 1, TokenKindV::Colon, i, true)
            } else if c == '/' {
                spec_emit(s, i + 1, TokenKindV::Slash, i, false)
            } else if c == '{' {
                spec_emit(s, i + 1, TokenKindV::LBrace, i, false)
            } else {
                None
            }
        } else if spec_is_alpha(c) {
            spec_lex_ident(s, i + 1, i)
        } else if spec_is_digit(c) {
            spec_lex_number(s, i + 1, (c as int) - ('0' as int), i)
        } else if c == '"' {
            spec_lex_string(s, i + 1, i)
        } else if c == '&' {
            if i + 1 < s.len() && s[i + 1] == '&' {
                spec_emit(s, i + 2, TokenKindV::AndAnd, i, false)
            } else {
                None
            }
        } else if c == '|' {
            if i + 1 < s.len() && s[i + 1] == '|' {
                spec_emit(s, i + 2, TokenKindV::OrOr, i, false)
            } else {
                None
            }
        } else if c == '=' {
            if i + 1 < s.len() && s[i + 1] == '=' {
                spec_emit(s, i + 2, TokenKindV::EqEq, i, false)
            } else {
                spec_emit(s, i + 1, TokenKindV::Assign, i, false)
            }
        } else if c == '!' {
            if i + 1 < s.len() && s[i + 1] == '=' {
                spec_emit(s, i + 2, TokenKindV::Ne, i, false)
            } else {
                None
            }
        } else if c == '>' {
            if i + 1 < s.len() && s[i + 1] == '=' {
                spec_emit(s, i + 2, TokenKindV::Ge, i, false)
            } else {
                spec_emit(s, i + 1, TokenKindV::Gt, i, false)
            }
        } else if c == '<' {
            if i + 1 < s.len() && s[i + 1] == '=' {
                spec_emit(s, i + 2, TokenKindV::Le, i, false)
            } else {
                spec_emit(s, i + 1, TokenKindV::Lt, i, false)
            }
        } else if c == ':' {
            spec_emit(s, i + 1, TokenKindV::Colon, i, false)
        } else if c == '/' {
            spec_emit(s, i + 1, TokenKindV::Slash, i, false)
        } else if c == '{' {
            spec_emit(s, i + 1, TokenKindV::LBrace, i, false)
        } else if c == '}' {
            spec_emit(s, i + 1, TokenKindV::RBrace, i, true)
        } else if c == '(' {
            spec_emit(s, i + 1, TokenKindV::LParen, i, false)
        } else if c == ')' {
            spec_emit(s, i + 1, TokenKindV::RParen, i, false)
        } else if c == ';' {
            spec_emit(s, i + 1, TokenKindV::Semi, i, false)
        } else if c == ',' {
            spec_emit(s, i + 1, TokenKindV::Comma, i, false)
        } else if c == '+' {
            spec_emit(s, i + 1, TokenKindV::Plus, i, false)
        } else if c == '-' {
            spec_emit(s, i + 1, TokenKindV::Minus, i, false)
        } else if c == '*' {
            spec_emit(s, i + 1, TokenKindV::Star, i, false)
        } else if c == '%' {
            spec_emit(s, i + 1, TokenKindV::Percent, i, false)
        } else {
            None
        }
    }
}

/// Appends one fixed token at `start` and lexes on from `j`, in the given
/// mode.
pub open spec fn spec_emit(
    s: Seq<char>,
    j: int,
    kind: TokenKindV,
    start: int,
    next_spec: bool,
) -> Option<Seq<TokenV>>
    decreases s.len() - j, 1int,
    when 0 <= start && start < j
{
    match spec_lex(s, j, next_spec) {
        None => None,
        Some(rest) => Some(
            seq![TokenV { kind, pos: start as usize, line: 0, col: 0 }] + rest,
        ),
    }
}

pub open spec fn spec_lex_line_comment(s: Seq<char>, j: int, in_spec: bool) -> Option<Seq<TokenV>>
    decreases s.len() - j, 1int,
    when 0 <= j
{
    if j >= s.len() {
        Some(Seq::empty())
    } else if s[j] == '\n' {
        spec_lex(s, j + 1, in_spec)
    } else {
        spec_lex_line_comment(s, j + 1, in_spec)
    }
}

pub open spec fn spec_lex_block_comment(s: Seq<char>, j: int, in_spec: bool) -> Option<
    Seq<TokenV>,
>
    decreases s.len() - j, 1int,
    when 0 <= j
{
    if j + 1 >= s.len() {
        None
    } else if s[j] == '*' && s[j + 1] == '/' {
        spec_lex(s, j + 2, in_spec)
    } else {
        spec_lex_block_comment(s, j + 1, in_spec)
    }
}

pub open spec fn spec_lex_ident(s: Seq<char>, j: int, start: int) -> Option<Seq<TokenV>>
    decreases s.len() - j, 1int,
    when 0 <= start && start < j
{
    if j < s.len() && spec_is_ident_char(s[j]) {
        spec_lex_ident(s, j + 1, start)
    } else {
        match spec_lex(s, j, false) {
            None => None,
            Some(rest) => Some(
                seq![
                    TokenV {
                        kind: TokenKindV::Ident(s.subrange(start, j)),
                        pos: start as usize,
                        line: 0,
                        col: 0,
                    },
                ] + rest,
            ),
        }
    }
}

/// A numeric literal: more digits extend the value; a trailing identifier
/// character or a value beyond `i32::MAX` is an offence.
pub open spec fn spec_lex_number(s: Seq<char>, j: int, val: int, start: int) -> Option<
    Seq<TokenV>,
>
    decreases s.len() - j, 1int,
    when 0 <= start && start < j && 0 <= val
{
    if val > i32::MAX {
        None
    } else if j < s.len() && spec_is_digit(s[j]) {
        spec_lex_number(s, j + 1, val * 10 + ((s[j] as int) - ('0' as int)), start)
    } else if j < s.len() && spec_is_alpha(s[j]) {
        None
    } else {
        match spec_lex(s, j, false) {
            None => None,
            Some(rest) => Some(
                seq![
                    TokenV {
                        kind: TokenKindV::IntLit(val as i32),
                        pos: start as usize,
                        line: 0,
                        col: 0,
                    },
                ] + rest,
            ),
        }
    }
}

/// A double-quoted string literal with no escapes; reaching the end of the
/// source before the closing quote is an offence.
pub open spec fn spec_lex_string(s: Seq<char>, j: int, start: int) -> Option<Seq<TokenV>>
    decreases s.len() - j, 1int,
    when 0 <= start && start < j
{
    if j >= s.len() {
        None
    } else if s[j] == '"' {
        match spec_lex(s, j + 1, false) {
            None => None,
            Some(rest) => Some(
                seq![
                    TokenV {
                        kind: TokenKindV::StrLit(s.subrange(start + 1, j)),
                        pos: start as usize,
                        line: 0,
                        col: 0,
                    },
                ] + rest,
            ),
        }
    } else {
        spec_lex_string(s, j + 1, start)
    }
}

/// A specification segment word: identifier characters, `*`, `?`, and
/// bracket classes read whole; an unterminated bracket class is an offence.
pub open spec fn spec_lex_word(s: Seq<char>, j: int, start: int) -> Option<Seq<TokenV>>
    decreases s.len() - j, 1int,
    when 0 <= start && start < j
{
    if j < s.len() && spec_is_word_char(s[j]) {
        spec_lex_word(s, j + 1, start)
    } else if j < s.len() && s[j] == '[' {
        spec_lex_word_class(s, j + 1, start)
    } else {
        match spec_lex(s, j, true) {
            None => None,
            Some(rest) => Some(
                seq![
                    TokenV {
                        kind: TokenKindV::SpecWord(s.subrange(start, j)),
                        pos: start as usize,
                        line: 0,
                        col: 0,
                    },
                ] + rest,
            ),
        }
    }
}

/// The inside of a bracket class: anything up to the closing `]`.
pub open spec fn spec_lex_word_class(s: Seq<char>, j: int, start: int) -> Option<Seq<TokenV>>
    decreases s.len() - j, 2int,
    when 0 <= start && start < j
{
    if j >= s.len() {
        None
    } else if s[j] == ']' {
        spec_lex_word(s, j + 1, start)
    } else {
        spec_lex_word_class(s, j + 1, start)
    }
}

// ==============================
// ==== Line/column location ====
// ==============================

/// The 1-based line and column of a character offset.
pub open spec fn spec_line_col(s: Seq<char>, p: int) -> (int, int)
    decreases p,
    when 0 <= p
{
    if p <= 0 {
        (1, 1)
    } else {
        let prev = spec_line_col(s, p - 1);
        if p - 1 < s.len() && s[p - 1] == '\n' {
            (prev.0 + 1, 1)
        } else {
            (prev.0, prev.1 + 1)
        }
    }
}

/// The token stream with each token's line and column filled in from its
/// offset.
pub open spec fn spec_locate(s: Seq<char>, toks: Seq<TokenV>) -> Seq<TokenV> {
    toks.map_values(
        |t: TokenV|
            TokenV {
                kind: t.kind,
                pos: t.pos,
                line: spec_line_col(s, t.pos as int).0 as usize,
                col: spec_line_col(s, t.pos as int).1 as usize,
            },
    )
}

// =======================
// ==== The AST root =====
// =======================

/// One top-level declaration of a script: a probe specification of up to
/// four segments, an optional predicate and a statement body.
#[derive(Debug, Eq, PartialEq)]
pub enum AstNode {
    ProbeDecl {
        provider: String,
        package: String,
        event: String,
        probe_type: String,
        predicate: Option<Expr>,
        body: Vec<Statement>,
        loc: Option<Location>,
    },
}

/// Mathematical model of an `AstNode`.
pub enum AstNodeV {
    ProbeDecl {
        provider: Seq<char>,
        package: Seq<char>,
        event: Seq<char>,
        probe_type: Seq<char>,
        predicate: Option<ExprV>,
        body: Seq<StatementV>,
        loc: Option<LocationV>,
    },
}

impl View for AstNode {
    type V = AstNodeV;

    open spec fn view(&self) -> AstNodeV {
        match self {
            AstNode::ProbeDecl { provider, package, event, probe_type, predicate, body, loc } =>
                AstNodeV::ProbeDecl {
                provider: provider@,
                package: package@,
                event: event@,
                probe_type: probe_type@,
                predicate: match predicate {
                    Some(e) => Some(view_expr(*e)),
                    None => None,
                },
                body: view_statements(body@),
                loc: view_opt_loc(*loc),
            },
        }
    }
}

pub open spec fn view_ast(nodes: Seq<AstNode>) -> Seq<AstNodeV> {
    nodes.map_values(|n: AstNode| n@)
}

// ==================================
// ==== Operators and precedence ====
// ==================================

/// The fixed operator-precedence table, lowest binding first: logical,
/// relational, additive, multiplicative. All operators associate left.
pub open spec fn spec_prec(op: Op) -> int {
    match op {
        Op::And => 1,
        Op::Or => 1,
        Op::EQ => 2,
        Op::NE => 2,
        Op::GE => 2,
        Op::GT => 2,
        Op::LE => 2,
        Op::LT => 2,
        Op::Add => 3,
        Op::Subtract => 3,
        Op::Multiply => 4,
        Op::Divide => 4,
        Op::Modulo => 4,
    }
}

/// The binary operator a token stands for, if any.
pub open spec fn spec_token_op(k: TokenKindV) -> Option<Op> {
    match k {
        TokenKindV::AndAnd => Some(Op::And),
        TokenKindV::OrOr => Some(Op::Or),
        TokenKindV::EqEq => Some(Op::EQ),
        TokenKindV::Ne => Some(Op::NE),
        TokenKindV::Ge => Some(Op::GE),
        TokenKindV::Gt => Some(Op::GT),
        TokenKindV::Le => Some(Op::LE),
        TokenKindV::Lt => Some(Op::LT),
        TokenKindV::Plus => Some(Op::Add),
        TokenKindV::Minus => Some(Op::Subtract),
        TokenKindV::Star => Some(Op::Multiply),
        TokenKindV::Slash => Some(Op::Divide),
        TokenKindV::Percent => Some(Op::Modulo),
        _ => None,
    }
}

/// Whether a token can begin a primary expression; a `/` is read as
/// division only when what follows could begin its right operand, else it
/// closes the predicate.
pub open spec fn spec_starts_primary(k: TokenKindV) -> bool {
    match k {
        TokenKindV::Ident(_) => true,
        TokenKindV::IntLit(_) => true,
        TokenKindV::StrLit(_) => true,
        TokenKindV::LParen => true,
        _ => false,
    }
}

/// The location attached to a node that starts at this token: its line and
/// column as a point position.
pub open spec fn spec_tok_loc(t: TokenV) -> Option<LocationV> {
    Some(LocationV { line_col: LineColLocation::Pos((t.line, t.col)), path: None })
}

// ==================================
// ==== The grammar, spec level =====
// ==================================

/// A parenthesized subexpression, a call, a variable reference or a
/// literal.
pub open spec fn spec_parse_primary(toks: Seq<TokenV>, i: int) -> Option<(ExprV, int)>
    decreases toks.len() - i, 1int,
    when 0 <= i
{
    if i >= toks.len() {
        None
    } else {
        match toks[i].kind {
            TokenKindV::IntLit(n) => Some(
                (
                    ExprV::Primitive {
                        val: ValueV::Integer { ty: DataTypeV::Integer, val: n },
                        loc: spec_tok_loc(toks[i]),
                    },
                    i + 1,
                ),
            ),
            TokenKindV::StrLit(v) => Some(
                (
                    ExprV::Primitive {
                        val: ValueV::Str { ty: DataTypeV::Str, val: v, addr: None },
                        loc: spec_tok_loc(toks[i]),
                    },
                    i + 1,
                ),
            ),
            TokenKindV::Ident(nm) => if i + 1 < toks.len() && toks[i + 1].kind is LParen {
                let target = ExprV::VarId { name: nm, loc: spec_tok_loc(toks[i]) };
                if i + 2 < toks.len() && toks[i + 2].kind is RParen {
                    Some(
                        (
                            ExprV::Call {
                                fn_target: Box::new(target),
                                args: None,
                                loc: spec_tok_loc(toks[i]),
                            },
                            i + 3,
                        ),
                    )
                } else {
                    match spec_parse_args(toks, i + 2) {
                        None => None,
                        Some((args, j)) => if i + 2 < j && j < toks.len() && toks[j].kind
                            is RParen {
                            Some(
                                (
                                    ExprV::Call {
                                        fn_target: Box::new(target),
                                        args: Some(args),
                                        loc: spec_tok_loc(toks[i]),
                                    },
                                    j + 1,
                                ),
                            )
                        } else {
                            None
                        },
                    }
                }
            } else {
                Some((ExprV::VarId { name: nm, loc: spec_tok_loc(toks[i]) }, i + 1))
            },
            TokenKindV::LParen => match spec_parse_expr(toks, i + 1, 1) {
                None => None,
                Some((e, j)) => if i + 1 < j && j < toks.len() && toks[j].kind is RParen {
                    Some((e, j + 1))
                } else {
                    None
                },
            },
            _ => None,
        }
    }
}

/// Precedence climbing: a primary, then every operator at least as binding
/// as `min_prec`, left-associatively.
pub open spec fn spec_parse_expr(toks: Seq<TokenV>, i: int, min_prec: int) -> Option<(ExprV, int)>
    decreases toks.len() - i, 2int,
    when 0 <= i
{
    match spec_parse_primary(toks, i) {
        None => None,
        Some((lhs, j)) => if i < j && j <= toks.len() {
            spec_parse_binops(toks, j, lhs, min_prec)
        } else {
            None
        },
    }
}

pub open spec fn spec_parse_binops(toks: Seq<TokenV>, j: int, lhs: ExprV, min_prec: int) -> Option<
    (ExprV, int),
>
    decreases toks.len() - j, 0int,
    when 0 <= j
{
    if j < toks.len() && spec_token_op(toks[j].kind) is Some {
        let op = spec_token_op(toks[j].kind)->0;
        if spec_prec(op) >= min_prec && (!(toks[j].kind is Slash) || (j + 1 < toks.len()
            && spec_starts_primary(toks[j + 1].kind))) {
            match spec_parse_expr(toks, j + 1, spec_prec(op) + 1) {
                None => None,
                Some((rhs, k)) => if j + 1 < k && k <= toks.len() {
                    spec_parse_binops(
                        toks,
                        k,
                        ExprV::BinOp {
                            lhs: Box::new(lhs),
                            op,
                            rhs: Box::new(rhs),
                            loc: crate::parser::types::spec_expr_loc(lhs),
                        },
                        min_prec,
                    )
                } else {
                    None
                },
            }
        } else {
            Some((lhs, j))
        }
    } else {
        Some((lhs, j))
    }
}

/// Comma-separated call arguments, ending right before the closing
/// parenthesis.
pub open spec fn spec_parse_args(toks: Seq<TokenV>, i: int) -> Option<(Seq<ExprV>, int)>
    decreases toks.len() - i, 3int,
    when 0 <= i
{
    match spec_parse_expr(toks, i, 1) {
        None => None,
        Some((e, j)) => if i < j {
            if j < toks.len() && toks[j].kind is Comma {
                match spec_parse_args(toks, j + 1) {
                    None => None,
                    Some((rest, k)) => Some((seq![e] + rest, k)),
                }
            } else {
                Some((seq![e], j))
            }
        } else {
            None
        },
    }
}

/// One statement: an assignment to a variable, or a bare expression, each
/// closed by a semicolon.
pub open spec fn spec_parse_stmt(toks: Seq<TokenV>, i: int) -> Option<(StatementV, int)>
    decreases toks.len() - i, 4int,
    when 0 <= i
{
    if i < toks.len() && toks[i].kind is Ident && i + 1 < toks.len() && toks[i + 1].kind
        is Assign {
        let target = ExprV::VarId { name: toks[i].kind->Ident_0, loc: spec_tok_loc(toks[i]) };
        match spec_parse_expr(toks, i + 2, 1) {
            None => None,
            Some((e, j)) => if i + 2 < j && j < toks.len() && toks[j].kind is Semi {
                Some(
                    (
                        StatementV::Assign { var_id: target, expr: e, loc: spec_tok_loc(toks[i]) },
                        j + 1,
                    ),
                )
            } else {
                None
            },
        }
    } else {
        match spec_parse_expr(toks, i, 1) {
            None => None,
            Some((e, j)) => if i < j && j < toks.len() && toks[j].kind is Semi {
                Some((StatementV::Expr { expr: e, loc: spec_tok_loc(toks[i]) }, j + 1))
            } else {
                None
            },
        }
    }
}

/// The statements of a body, up to the closing brace.
pub open spec fn spec_parse_stmts(toks: Seq<TokenV>, i: int) -> Option<(Seq<StatementV>, int)>
    decreases toks.len() - i, 5int,
    when 0 <= i
{
    if i >= toks.len() || toks[i].kind is RBrace {
        Some((Seq::empty(), i))
    } else {
        match spec_parse_stmt(toks, i) {
            None => None,
            Some((st, j)) => if i < j {
                match spec_parse_stmts(toks, j) {
                    None => None,
                    Some((rest, k)) => Some((seq![st] + rest, k)),
                }
            } else {
                None
            },
        }
    }
}

/// The colon-separated segments of a probe specification, at most four.
pub open spec fn spec_parse_segments(toks: Seq<TokenV>, i: int, acc: Seq<Seq<char>>) -> Option<
    (Seq<Seq<char>>, int),
>
    decreases toks.len() - i, 1int,
    when 0 <= i
{
    if i < toks.len() && toks[i].kind is Colon {
        if acc.len() >= 4 {
            None
        } else if i + 1 < toks.len() && toks[i + 1].kind is SpecWord {
            spec_parse_segments(toks, i + 2, acc.push(toks[i + 1].kind->SpecWord_0))
        } else {
            spec_parse_segments(toks, i + 1, acc.push(Seq::empty()))
        }
    } else {
        Some((acc, i))
    }
}

pub open spec fn spec_is_probe_type(s: Seq<char>) -> bool {
    s == "begin"@ || s == "end"@ || s == "before"@ || s == "after"@ || s == "alt"@
}

/// Desugars and validates a segment list: `BEGIN`/`END` stand for
/// `core:::begin` and `core:::end`; otherwise trailing omitted segments
/// are the empty string, and the final non-empty segment must be a
/// probe-type name the grammar knows.
pub open spec fn spec_probe_spec_of(segs: Seq<Seq<char>>) -> Option<
    (Seq<char>, Seq<char>, Seq<char>, Seq<char>),
>
    recommends
        1 <= segs.len() <= 4,
{
    if segs.len() == 1 && segs[0] == "BEGIN"@ {
        Some(("core"@, Seq::empty(), Seq::empty(), "begin"@))
    } else if segs.len() == 1 && segs[0] == "END"@ {
        Some(("core"@, Seq::empty(), Seq::empty(), "end"@))
    } else {
        let p = segs[0];
        let k = if segs.len() > 1 {
            segs[1]
        } else {
            Seq::empty()
        };
        let e = if segs.len() > 2 {
            segs[2]
        } else {
            Seq::empty()
        };
        let t = if segs.len() > 3 {
            segs[3]
        } else {
            Seq::empty()
        };
        let last = if t.len() > 0 {
            t
        } else if e.len() > 0 {
            e
        } else if k.len() > 0 {
            k
        } else {
            p
        };
        if spec_is_probe_type(last) {
            Some((p, k, e, t))
        } else {
            None
        }
    }
}

/// The final non-empty segment of a specification padded to four segments.
pub open spec fn spec_last_nonempty(segs: Seq<Seq<char>>) -> Seq<char>
    recommends
        1 <= segs.len() <= 4,
{
    let k = if segs.len() > 1 {
        segs[1]
    } else {
        Seq::empty()
    };
    let e = if segs.len() > 2 {
        segs[2]
    } else {
        Seq::empty()
    };
    let t = if segs.len() > 3 {
        segs[3]
    } else {
        Seq::empty()
    };
    if t.len() > 0 {
        t
    } else if e.len() > 0 {
        e
    } else if k.len() > 0 {
        k
    } else {
        segs[0]
    }
}

/// Law: a probe specification of any arity from one to four segments is
/// accepted exactly when its final non-empty segment is a probe-type token
/// the grammar recognizes, or it is the fixed one-word `BEGIN`/`END` form.
pub proof fn lemma_probe_spec_arities(segs: Seq<Seq<char>>)
    requires
        1 <= segs.len() <= 4,
    ensures
        spec_probe_spec_of(segs) is Some <==> (spec_is_probe_type(spec_last_nonempty(segs)) || (
        segs.len() == 1 && (segs[0] == "BEGIN"@ || segs[0] == "END"@))),
{
}

/// Law: `BEGIN` and `END` are pure sugar. The one-word forms denote
/// exactly the quadruples that `core:::begin` and `core:::end` spell out,
/// so the two spellings of a declaration parse to one tree.
pub proof fn lemma_begin_end_sugar()
    ensures
        spec_probe_spec_of(seq!["BEGIN"@]) == spec_probe_spec_of(
            seq!["core"@, Seq::<char>::empty(), Seq::<char>::empty(), "begin"@],
        ),
        spec_probe_spec_of(seq!["END"@]) == spec_probe_spec_of(
            seq!["core"@, Seq::<char>::empty(), Seq::<char>::empty(), "end"@],
        ),
{
    reveal_strlit("BEGIN");
    reveal_strlit("END");
    reveal_strlit("begin");
    reveal_strlit("end");
    assert(spec_probe_spec_of(seq!["BEGIN"@]) == Some(
        ("core"@, Seq::<char>::empty(), Seq::<char>::empty(), "begin"@),
    ));
    assert(spec_probe_spec_of(
        seq!["core"@, Seq::<char>::empty(), Seq::<char>::empty(), "begin"@],
    ) == Some(("core"@, Seq::<char>::empty(), Seq::<char>::empty(), "begin"@)));
    assert("END"@.len() == 3 && "BEGIN"@.len() == 5);
    assert(spec_probe_spec_of(seq!["END"@]) == Some(
        ("core"@, Seq::<char>::empty(), Seq::<char>::empty(), "end"@),
    ));
    assert(spec_probe_spec_of(
        seq!["core"@, Seq::<char>::empty(), Seq::<char>::empty(), "end"@],
    ) == Some(("core"@, Seq::<char>::empty(), Seq::<char>::empty(), "end"@)));
}

/// One probe declaration: a specification, an optional `/`-delimited
/// predicate, and a braced statement body.
pub open spec fn spec_parse_probe_decl(toks: Seq<TokenV>, i: int) -> Option<(AstNodeV, int)>
    decreases toks.len() - i, 6int,
    when 0 <= i
{
    if i < toks.len() && toks[i].kind is SpecWord {
        match spec_parse_segments(toks, i + 1, seq![toks[i].kind->SpecWord_0]) {
            None => None,
            Some((segs, j)) => match spec_probe_spec_of(segs) {
                None => None,
                Some((p, k, e, t)) => if j < toks.len() && toks[j].kind is Slash {
                    match spec_parse_expr(toks, j + 1, 1) {
                        None => None,
                        Some((pred, j2)) => if j < j2 && j2 < toks.len() && toks[j2].kind
                            is Slash {
                            spec_parse_decl_body(toks, j2 + 1, p, k, e, t, Some(pred), toks[i])
                        } else {
                            None
                        },
                    }
                } else {
                    spec_parse_decl_body(toks, j, p, k, e, t, None, toks[i])
                },
            },
        }
    } else {
        None
    }
}

/// The braced body of a probe declaration.
pub open spec fn spec_parse_decl_body(
    toks: Seq<TokenV>,
    i: int,
    p: Seq<char>,
    k: Seq<char>,
    e: Seq<char>,
    t: Seq<char>,
    pred: Option<ExprV>,
    start: TokenV,
) -> Option<(AstNodeV, int)>
    decreases toks.len() - i, 6int,
    when 0 <= i
{
    if i < toks.len() && toks[i].kind is LBrace {
        match spec_parse_stmts(toks, i + 1) {
            None => None,
            Some((body, j)) => if i < j && j < toks.len() && toks[j].kind is RBrace {
                Some(
                    (
                        AstNodeV::ProbeDecl {
                            provider: p,
                            package: k,
                            event: e,
                            probe_type: t,
                            predicate: pred,
                            body,
                            loc: spec_tok_loc(start),
                        },
                        j + 1,
                    ),
                )
            } else {
                None
            },
        }
    } else {
        None
    }
}

/// The whole script: probe declarations until the tokens run out.
pub open spec fn spec_parse_script_from(toks: Seq<TokenV>, i: int) -> Option<Seq<AstNodeV>>
    decreases toks.len() - i, 7int,
    when 0 <= i
{
    if i >= toks.len() {
        Some(Seq::empty())
    } else {
        match spec_parse_probe_decl(toks, i) {
            None => None,
            Some((node, j)) => if i < j && j <= toks.len() {
                match spec_parse_script_from(toks, j) {
                    None => None,
                    Some(rest) => Some(seq![node] + rest),
                }
            } else {
                None
            },
        }
    }
}

/// What parsing a source text yields: its token stream, located, then the
/// script grammar over it; `None` is a syntax error.
pub open spec fn spec_parse(s: Seq<char>) -> Option<Seq<AstNodeV>> {
    match spec_lex(s, 0, true) {
        None => None,
        Some(toks) => spec_parse_script_from(spec_locate(s, toks), 0),
    }
}

// ==================================
// ==== The lexer, executable =======
// ==================================

fn is_ws(c: char) -> (r: bool)
    ensures
        r == spec_is_ws(c),
{
    c == ' ' || c == '\t' || c == '\r' || c == '\n'
}

fn is_digit(c: char) -> (r: bool)
    ensures
        r == spec_is_digit(c),
{
    '0' <= c && c <= '9'
}

fn is_alpha(c: char) -> (r: bool)
    ensures
        r == spec_is_alpha(c),
{
    ('a' <= c && c <= 'z') || ('A' <= c && c <= 'Z') || c == '_'
}

fn is_ident_char(c: char) -> (r: bool)
    ensures
        r == spec_is_ident_char(c),
{
    is_alpha(c) || is_digit(c)
}

fn is_word_char(c: char) -> (r: bool)
    ensures
        r == spec_is_word_char(c),
{
    is_ident_char(c) || c == '*' || c == '?'
}

/// The characters of `s` between two positions, as a fresh vector.
fn char_range(s: &Vec<char>, a: usize, b: usize) -> (r: Vec<char>)
    requires
        a <= b <= s@.len(),
    ensures
        r@ == s@.subrange(a as int, b as int),
{
    let mut v: Vec<char> = Vec::new();
    let mut k: usize = a;
    while k < b
        invariant
            a <= k <= b <= s@.len(),
            v@ == s@.subrange(a as int, k as int),
        decreases b - k,
    {
        v.push(s[k]);
        proof {
            assert(v@ =~= s@.subrange(a as int, k as int + 1));
        }
        k = k + 1;
    }
    v
}

/// A lexical-offence report at a character offset.
fn lex_error(msg: &str, s: &Vec<char>, at: usize) -> (r: ParseError)
    requires
        at <= s@.len(),
        s@.len() < usize::MAX,
{
    let (line, col) = line_col_at(s, at);
    ParseError {
        msg: String::from_str(msg),
        loc: Some(
            Location { line_col: LineColLocation::Pos((line, col)), path: None },
        ),
    }
}

/// The 1-based line and column of a character offset.
fn line_col_at(s: &Vec<char>, p: usize) -> (r: (usize, usize))
    requires
        p <= s@.len(),
        s@.len() < usize::MAX,
    ensures
        r.0 == spec_line_col(s@, p as int).0,
        r.1 == spec_line_col(s@, p as int).1,
{
    let mut line: usize = 1;
    let mut col: usize = 1;
    let mut k: usize = 0;
    while k < p
        invariant
            k <= p <= s@.len() < usize::MAX,
            line == spec_line_col(s@, k as int).0,
            col == spec_line_col(s@, k as int).1,
            line <= k + 1,
            col <= k + 1,
        decreases p - k,
    {
        if s[k] == '\n' {
            line = line + 1;
            col = 1;
        } else {
            col = col + 1;
        }
        k = k + 1;
    }
    (line, col)
}

/// Prepends one token to the tokens lexed from `j` on, in the given mode.
fn emit(s: &Vec<char>, j: usize, kind: TokenKind, start: usize, next_spec: bool) -> (r: Result<
    Vec<Token>,
    ParseError,
>)
    requires
        start < j <= s@.len(),
        s@.len() < usize::MAX,
    ensures
        match r {
            Ok(toks) => spec_emit(s@, j as int, kind@, start as int, next_spec) == Some(
                view_tokens(toks@),
            ) && (forall|k: int| 0 <= k < toks@.len() ==> (#[trigger] toks@[k]).pos < s@.len()),
            Err(_) => spec_emit(s@, j as int, kind@, start as int, next_spec) is None,
        },
    decreases s@.len() - j, 1int,
{
    let rest = lex_from(s, j, next_spec);
    match rest {
        Err(e) => Err(e),
        Ok(mut toks) => {
            let ghost old_toks = toks@;
            toks.insert(0, Token { kind, pos: start, line: 0, col: 0 });
            proof {
                assert(view_tokens(toks@) =~= seq![
                    TokenV { kind: kind@, pos: start, line: 0, col: 0 },
                ] + view_tokens(old_toks));
            }
            Ok(toks)
        },
    }
}

/// Lexes the source from position `i` on; mirrors the spec-level grammar
/// case for case, mode for mode.
fn lex_from(s: &Vec<char>, i: usize, in_spec: bool) -> (r: Result<Vec<Token>, ParseError>)
    requires
        i <= s@.len(),
        s@.len() < usize::MAX,
    ensures
        match r {
            Ok(toks) => spec_lex(s@, i as int, in_spec) == Some(view_tokens(toks@)) && (forall|
                k: int,
            | 0 <= k < toks@.len() ==> (#[trigger] toks@[k]).pos < s@.len()),
            Err(_) => spec_lex(s@, i as int, in_spec) is None,
        },
    decreases s@.len() - i, 0int,
{
    if i >= s.len() {
        let toks: Vec<Token> = Vec::new();
        proof {
            assert(view_tokens(toks@) =~= Seq::<TokenV>::empty());
        }
        Ok(toks)
    } else {
        let c = s[i];
        if is_ws(c) {
            lex_from(s, i + 1, in_spec)
        } else if c == '/' && i + 1 < s.len() && s[i + 1] == '/' {
            lex_line_comment(s, i + 2, in_spec)
        } else if c == '/' && i + 1 < s.len() && s[i + 1] == '*' {
            lex_block_comment(s, i + 2, in_spec)
        } else if in_spec {
            if is_word_char(c) {
                lex_word(s, i + 1, i)
            } else if c == '[' {
                lex_word_class(s, i + 1, i)
            } else if c == ':' {
                emit(s, i + 1, TokenKind::Colon, i, true)
            } else if c == '/' {
                emit(s, i + 1, TokenKind::Slash, i, false)
            } else if c == '{' {
                emit(s, i + 1, TokenKind::LBrace, i, false)
            } else {
                Err(lex_error("unexpected character in a probe specification", s, i))
            }
        } else if is_alpha(c) {
            lex_ident(s, i + 1, i)
        } else if is_digit(c) {
            lex_number(s, i + 1, (c as u32 as i64) - ('0' as u32 as i64), i)
        } else if c == '"' {
            lex_string(s, i + 1, i)
        } else if c == '&' {
            if i + 1 < s.len() && s[i + 1] == '&' {
                emit(s, i + 2, TokenKind::AndAnd, i, false)
            } else {
                Err(lex_error("expected `&&`", s, i))
            }
        } else if c == '|' {
            if i + 1 < s.len() && s[i + 1] == '|' {
                emit(s, i + 2, TokenKind::OrOr, i, false)
            } else {
                Err(lex_error("expected `||`", s, i))
            }
        } else if c == '=' {
            if i + 1 < s.len() && s[i + 1] == '=' {
                emit(s, i + 2, TokenKind::EqEq, i, false)
            } else {
                emit(s, i + 1, TokenKind::Assign, i, false)
            }
        } else if c == '!' {
            if i + 1 < s.len() && s[i + 1] == '=' {
                emit(s, i + 2, TokenKind::Ne, i, false)
            } else {
                Err(lex_error("expected `!=`", s, i))
            }
        } else if c == '>' {
            if i + 1 < s.len() && s[i + 1] == '=' {
                emit(s, i + 2, TokenKind::Ge, i, false)
            } else {
                emit(s, i + 1, TokenKind::Gt, i, false)
            }
        } else if c == '<' {
            if i + 1 < s.len() && s[i + 1] == '=' {
                emit(s, i + 2, TokenKind::Le, i, false)
            } else {
                emit(s, i + 1, TokenKind::Lt, i, false)
            }
        } else if c == ':' {
            emit(s, i + 1, TokenKind::Colon, i, false)
        } else if c == '/' {
            emit(s, i + 1, TokenKind::Slash, i, false)
        } else if c == '{' {
            emit(s, i + 1, TokenKind::LBrace, i, false)
        } else if c == '}' {
            emit(s, i + 1, TokenKind::RBrace, i, true)
        } else if c == '(' {
            emit(s, i + 1, TokenKind::LParen, i, false)
        } else if c == ')' {
            emit(s, i + 1, TokenKind::RParen, i, false)
        } else if c == ';' {
            emit(s, i + 1, TokenKind::Semi, i, false)
        } else if c == ',' {
            emit(s, i + 1, TokenKind::Comma, i, false)
        } else if c == '+' {
            emit(s, i + 1, TokenKind::Plus, i, false)
        } else if c == '-' {
            emit(s, i + 1, TokenKind::Minus, i, false)
        } else if c == '*' {
            emit(s, i + 1, TokenKind::Star, i, false)
        } else if c == '%' {
            emit(s, i + 1, TokenKind::Percent, i, false)
        } else {
            Err(lex_error("unexpected character", s, i))
        }
    }
}

fn lex_line_comment(s: &Vec<char>, j: usize, in_spec: bool) -> (r: Result<Vec<Token>, ParseError>)
    requires
        j <= s@.len(),
        s@.len() < usize::MAX,
    ensures
        match r {
            Ok(toks) => spec_lex_line_comment(s@, j as int, in_spec) == Some(view_tokens(toks@))
                && (forall|k: int|
                0 <= k < toks@.len() ==> (#[trigger] toks@[k]).pos < s@.len()),
            Err(_) => spec_lex_line_comment(s@, j as int, in_spec) is None,
        },
    decreases s@.len() - j, 1int,
{
    if j >= s.len() {
        let toks: Vec<Token> = Vec::new();
        proof {
            assert(view_tokens(toks@) =~= Seq::<TokenV>::empty());
        }
        Ok(toks)
    } else if s[j] == '\n' {
        lex_from(s, j + 1, in_spec)
    } else {
        lex_line_comment(s, j + 1, in_spec)
    }
}

fn lex_block_comment(s: &Vec<char>, j: usize, in_spec: bool) -> (r: Result<
    Vec<Token>,
    ParseError,
>)
    requires
        j <= s@.len(),
        s@.len() < usize::MAX,
    ensures
        match r {
            Ok(toks) => spec_lex_block_comment(s@, j as int, in_spec) == Some(view_tokens(toks@))
                && (forall|k: int|
                0 <= k < toks@.len() ==> (#[trigger] toks@[k]).pos < s@.len()),
            Err(_) => spec_lex_block_comment(s@, j as int, in_spec) is None,
        },
    decreases s@.len() - j, 1int,
{
    if j + 1 >= s.len() {
        Err(lex_error("unterminated block comment", s, j))
    } else if s[j] == '*' && s[j + 1] == '/' {
        lex_from(s, j + 2, in_spec)
    } else {
        lex_block_comment(s, j + 1, in_spec)
    }
}

fn lex_ident(s: &Vec<char>, j: usize, start: usize) -> (r: Result<Vec<Token>, ParseError>)
    requires
        start < j <= s@.len(),
        s@.len() < usize::MAX,
    ensures
        match r {
            Ok(toks) => spec_lex_ident(s@, j as int, start as int) == Some(view_tokens(toks@)) && (
            forall|k: int| 0 <= k < toks@.len() ==> (#[trigger] toks@[k]).pos < s@.len()),
            Err(_) => spec_lex_ident(s@, j as int, start as int) is None,
        },
    decreases s@.len() - j, 1int,
{
    if j < s.len() && is_ident_char(s[j]) {
        lex_ident(s, j + 1, start)
    } else {
        let name = char_range(s, start, j);
        let rest = lex_from(s, j, false);
        match rest {
            Err(e) => Err(e),
            Ok(mut toks) => {
                let ghost old_toks = toks@;
                let ghost namev = name@;
                toks.insert(0, Token { kind: TokenKind::Ident(name), pos: start, line: 0, col: 0 });
                proof {
                    assert(view_tokens(toks@) =~= seq![
                        TokenV {
                            kind: TokenKindV::Ident(s@.subrange(start as int, j as int)),
                            pos: start,
                            line: 0,
                            col: 0,
                        },
                    ] + view_tokens(old_toks));
                }
                Ok(toks)
            },
        }
    }
}

fn lex_number(s: &Vec<char>, j: usize, val: i64, start: usize) -> (r: Result<
    Vec<Token>,
    ParseError,
>)
    requires
        start < j <= s@.len(),
        s@.len() < usize::MAX,
        0 <= val <= 0xFFFF_FFFFi64,
    ensures
        match r {
            Ok(toks) => spec_lex_number(s@, j as int, val as int, start as int) == Some(
                view_tokens(toks@),
            ) && (forall|k: int| 0 <= k < toks@.len() ==> (#[trigger] toks@[k]).pos < s@.len()),
            Err(_) => spec_lex_number(s@, j as int, val as int, start as int) is None,
        },
    decreases s@.len() - j, 1int,
{
    if val > i32::MAX as i64 {
        Err(lex_error("integer literal out of range", s, start))
    } else if j < s.len() && is_digit(s[j]) {
        let d = (s[j] as u32 as i64) - ('0' as u32 as i64);
        let v2 = val * 10 + d;
        if v2 > i32::MAX as i64 {
            proof {
                assert(spec_lex_number(s@, j as int + 1, v2 as int, start as int) is None);
            }
            Err(lex_error("integer literal out of range", s, start))
        } else {
            lex_number(s, j + 1, v2, start)
        }
    } else if j < s.len() && is_alpha(s[j]) {
        Err(lex_error("identifier may not begin with a digit", s, start))
    } else {
        let rest = lex_from(s, j, false);
        match rest {
            Err(e) => Err(e),
            Ok(mut toks) => {
                let ghost old_toks = toks@;
                toks.insert(
                    0,
                    Token { kind: TokenKind::IntLit(val as i32), pos: start, line: 0, col: 0 },
                );
                proof {
                    assert(view_tokens(toks@) =~= seq![
                        TokenV {
                            kind: TokenKindV::IntLit(val as i32),
                            pos: start,
                            line: 0,
                            col: 0,
                        },
                    ] + view_tokens(old_toks));
                }
                Ok(toks)
            },
        }
    }
}

fn lex_string(s: &Vec<char>, j: usize, start: usize) -> (r: Result<Vec<Token>, ParseError>)
    requires
        start < j <= s@.len(),
        s@.len() < usize::MAX,
    ensures
        match r {
            Ok(toks) => spec_lex_string(s@, j as int, start as int) == Some(view_tokens(toks@)) && (
            forall|k: int| 0 <= k < toks@.len() ==> (#[trigger] toks@[k]).pos < s@.len()),
            Err(_) => spec_lex_string(s@, j as int, start as int) is None,
        },
    decreases s@.len() - j, 1int,
{
    if j >= s.len() {
        Err(lex_error("unterminated string literal", s, start))
    } else if s[j] == '"' {
        let text = char_range(s, start + 1, j);
        let rest = lex_from(s, j + 1, false);
        match rest {
            Err(e) => Err(e),
            Ok(mut toks) => {
                let ghost old_toks = toks@;
                toks.insert(
                    0,
                    Token { kind: TokenKind::StrLit(text), pos: start, line: 0, col: 0 },
                );
                proof {
                    assert(view_tokens(toks@) =~= seq![
                        TokenV {
                            kind: TokenKindV::StrLit(s@.subrange(start as int + 1, j as int)),
                            pos: start,
                            line: 0,
                            col: 0,
                        },
                    ] + view_tokens(old_toks));
                }
                Ok(toks)
            },
        }
    } else {
        lex_string(s, j + 1, start)
    }
}

fn lex_word(s: &Vec<char>, j: usize, start: usize) -> (r: Result<Vec<Token>, ParseError>)
    requires
        start < j <= s@.len(),
        s@.len() < usize::MAX,
    ensures
        match r {
            Ok(toks) => spec_lex_word(s@, j as int, start as int) == Some(view_tokens(toks@)) && (
            forall|k: int| 0 <= k < toks@.len() ==> (#[trigger] toks@[k]).pos < s@.len()),
            Err(_) => spec_lex_word(s@, j as int, start as int) is None,
        },
    decreases s@.len() - j, 1int,
{
    if j < s.len() && is_word_char(s[j]) {
        lex_word(s, j + 1, start)
    } else if j < s.len() && s[j] == '[' {
        lex_word_class(s, j + 1, start)
    } else {
        let word = char_range(s, start, j);
        let rest = lex_from(s, j, true);
        match rest {
            Err(e) => Err(e),
            Ok(mut toks) => {
                let ghost old_toks = toks@;
                toks.insert(
                    0,
                    Token { kind: TokenKind::SpecWord(word), pos: start, line: 0, col: 0 },
                );
                proof {
                    assert(view_tokens(toks@) =~= seq![
                        TokenV {
                            kind: TokenKindV::SpecWord(s@.subrange(start as int, j as int)),
                            pos: start,
                            line: 0,
                            col: 0,
                        },
                    ] + view_tokens(old_toks));
                }
                Ok(toks)
            },
        }
    }
}

fn lex_word_class(s: &Vec<char>, j: usize, start: usize) -> (r: Result<Vec<Token>, ParseError>)
    requires
        start < j <= s@.len(),
        s@.len() < usize::MAX,
    ensures
        match r {
            Ok(toks) => spec_lex_word_class(s@, j as int, start as int) == Some(
                view_tokens(toks@),
            ) && (forall|k: int| 0 <= k < toks@.len() ==> (#[trigger] toks@[k]).pos < s@.len()),
            Err(_) => spec_lex_word_class(s@, j as int, start as int) is None,
        },
    decreases s@.len() - j, 2int,
{
    if j >= s.len() {
        Err(lex_error("unterminated bracket class in a probe specification", s, start))
    } else if s[j] == ']' {
        lex_word(s, j + 1, start)
    } else {
        lex_word_class(s, j + 1, start)
    }
}

/// Fills each token's line and column in from its offset.
fn locate_tokens(s: &Vec<char>, toks: Vec<Token>) -> (r: Vec<Token>)
    requires
        s@.len() < usize::MAX,
        forall|k: int| 0 <= k < toks@.len() ==> (#[trigger] toks@[k]).pos < s@.len(),
    ensures
        view_tokens(r@) == spec_locate(s@, view_tokens(toks@)),
{
    let ghost orig = toks@;
    let mut toks = toks;
    let mut i: usize = 0;
    while i < toks.len()
        invariant
            i <= toks@.len(),
            toks@.len() == orig.len(),
            s@.len() < usize::MAX,
            forall|k: int| 0 <= k < orig.len() ==> (#[trigger] orig[k]).pos < s@.len(),
            forall|k: int| i <= k < orig.len() ==> toks@[k] == orig[k],
            forall|k: int|
                0 <= k < i ==> (#[trigger] toks@[k])@ == spec_locate(s@, view_tokens(orig))[k],
        decreases toks@.len() - i,
    {
        proof {
            assert(toks@[i as int] == orig[i as int]);
            assert(orig[i as int].pos < s@.len());
        }
        let p = toks[i].pos;
        let (line, col) = line_col_at(s, p);
        toks[i].line = line;
        toks[i].col = col;
        proof {
            assert(toks@[i as int]@ == spec_locate(s@, view_tokens(orig))[i as int]);
        }
        i = i + 1;
    }
    proof {
        assert(view_tokens(toks@) =~= spec_locate(s@, view_tokens(orig)));
    }
    toks
}

// ==================================
// ==== The parser, executable ======
// ==================================

/// A `String` holding exactly the given characters.
fn chars_to_string(v: &Vec<char>) -> (r: String)
    ensures
        r@ == v@,
{
    let mut s = String::new();
    let mut i: usize = 0;
    while i < v.len()
        invariant
            i <= v@.len(),
            s@ == v@.take(i as int),
        decreases v@.len() - i,
    {
        crate::parser::types::push_char(&mut s, v[i]);
        proof {
            assert(v@.take(i as int).push(v@[i as int]) =~= v@.take(i as int + 1));
        }
        i = i + 1;
    }
    proof {
        assert(v@.take(v@.len() as int) =~= v@);
    }
    s
}

/// Whether two string slices hold the same characters.
fn str_eq(a: &str, b: &str) -> (r: bool)
    ensures
        r == (a@ == b@),
{
    let n = a.unicode_len();
    if b.unicode_len() != n {
        proof {
            assert(a@ != b@);
        }
        return false;
    }
    let mut i: usize = 0;
    while i < n
        invariant
            i <= n,
            n == a@.len(),
            b@.len() == n,
            forall|k: int| 0 <= k < i ==> a@[k] == b@[k],
        decreases n - i,
    {
        if a.get_char(i) != b.get_char(i) {
            proof {
                assert(a@[i as int] != b@[i as int]);
            }
            return false;
        }
        i = i + 1;
    }
    proof {
        assert(a@ =~= b@);
    }
    true
}

/// A parse-failure report at the token the parser stopped on, or at the
/// end of the input.
fn tok_error(msg: &str, toks: &Vec<Token>, i: usize) -> (r: ParseError) {
    if i < toks.len() {
        ParseError {
            msg: String::from_str(msg),
            loc: Some(
                Location {
                    line_col: LineColLocation::Pos((toks[i].line, toks[i].col)),
                    path: None,
                },
            ),
        }
    } else {
        ParseError { msg: String::from_str(msg), loc: None }
    }
}

fn tok_loc(t: &Token) -> (r: Option<Location>)
    ensures
        view_opt_loc(r) == spec_tok_loc(t@),
{
    Some(Location { line_col: LineColLocation::Pos((t.line, t.col)), path: None })
}

/// The fixed operator-precedence table, executable side.
fn prec(op: Op) -> (r: u32)
    ensures
        r == spec_prec(op),
{
    match op {
        Op::And => 1,
        Op::Or => 1,
        Op::EQ => 2,
        Op::NE => 2,
        Op::GE => 2,
        Op::GT => 2,
        Op::LE => 2,
        Op::LT => 2,
        Op::Add => 3,
        Op::Subtract => 3,
        Op::Multiply => 4,
        Op::Divide => 4,
        Op::Modulo => 4,
    }
}

fn token_op(k: &TokenKind) -> (r: Option<Op>)
    ensures
        r == spec_token_op(k@),
{
    match k {
        TokenKind::AndAnd => Some(Op::And),
        TokenKind::OrOr => Some(Op::Or),
        TokenKind::EqEq => Some(Op::EQ),
        TokenKind::Ne => Some(Op::NE),
        TokenKind::Ge => Some(Op::GE),
        TokenKind::Gt => Some(Op::GT),
        TokenKind::Le => Some(Op::LE),
        TokenKind::Lt => Some(Op::LT),
        TokenKind::Plus => Some(Op::Add),
        TokenKind::Minus => Some(Op::Subtract),
        TokenKind::Star => Some(Op::Multiply),
        TokenKind::Slash => Some(Op::Divide),
        TokenKind::Percent => Some(Op::Modulo),
        _ => None,
    }
}

fn starts_primary(k: &TokenKind) -> (r: bool)
    ensures
        r == spec_starts_primary(k@),
{
    match k {
        TokenKind::Ident(_) => true,
        TokenKind::IntLit(_) => true,
        TokenKind::StrLit(_) => true,
        TokenKind::LParen => true,
        _ => false,
    }
}

fn parse_primary(toks: &Vec<Token>, i: usize) -> (r: Result<(Expr, usize), ParseError>)
    requires
        i <= toks@.len(),
    ensures
        match r {
            Ok(p) => spec_parse_primary(view_tokens(toks@), i as int) == Some(
                (p.0@, p.1 as int),
            ) && i < p.1 <= toks@.len(),
            Err(_) => spec_parse_primary(view_tokens(toks@), i as int) is None,
        },
    decreases toks@.len() - i, 1int,
{
    if i >= toks.len() {
        return Err(tok_error("expected an expression", toks, i));
    }
    match &toks[i].kind {
        TokenKind::IntLit(n) => {
            let val = Value::Integer { ty: DataType::Integer, val: *n };
            proof {
                assert(crate::parser::types::view_value(val) == (ValueV::Integer {
                    ty: DataTypeV::Integer,
                    val: *n,
                }));
            }
            Ok((Expr::Primitive { val, loc: tok_loc(&toks[i]) }, i + 1))
        },
        TokenKind::StrLit(v) => {
            let val = Value::Str { ty: DataType::Str, val: chars_to_string(v), addr: None };
            proof {
                assert(crate::parser::types::view_value(val) == (ValueV::Str {
                    ty: DataTypeV::Str,
                    val: v@,
                    addr: None,
                }));
            }
            Ok((Expr::Primitive { val, loc: tok_loc(&toks[i]) }, i + 1))
        },
        TokenKind::Ident(nm) => {
            let is_call = i + 1 < toks.len() && (match &toks[i + 1].kind {
                TokenKind::LParen => true,
                _ => false,
            });
            if is_call {
                let target = Expr::VarId { name: chars_to_string(nm), loc: tok_loc(&toks[i]) };
                proof {
                    assert(target@ == (ExprV::VarId {
                        name: nm@,
                        loc: spec_tok_loc(view_tokens(toks@)[i as int]),
                    }));
                }
                let empty_args = i + 2 < toks.len() && (match &toks[i + 2].kind {
                    TokenKind::RParen => true,
                    _ => false,
                });
                if empty_args {
                    Ok(
                        (
                            Expr::Call {
                                fn_target: Box::new(target),
                                args: None,
                                loc: tok_loc(&toks[i]),
                            },
                            i + 3,
                        ),
                    )
                } else {
                    match parse_args(toks, i + 2) {
                        Err(e) => Err(e),
                        Ok((args, j)) => {
                            let closed = j < toks.len() && (match &toks[j].kind {
                                TokenKind::RParen => true,
                                _ => false,
                            });
                            if closed {
                                Ok(
                                    (
                                        Expr::Call {
                                            fn_target: Box::new(target),
                                            args: Some(args),
                                            loc: tok_loc(&toks[i]),
                                        },
                                        j + 1,
                                    ),
                                )
                            } else {
                                Err(tok_error("expected `)` after call arguments", toks, j))
                            }
                        },
                    }
                }
            } else {
                Ok((Expr::VarId { name: chars_to_string(nm), loc: tok_loc(&toks[i]) }, i + 1))
            }
        },
        TokenKind::LParen => {
            match parse_expr(toks, i + 1, 1) {
                Err(e) => Err(e),
                Ok((e, j)) => {
                    let closed = j < toks.len() && (match &toks[j].kind {
                        TokenKind::RParen => true,
                        _ => false,
                    });
                    if closed {
                        Ok((e, j + 1))
                    } else {
                        Err(tok_error("expected `)`", toks, j))
                    }
                },
            }
        },
        _ => Err(tok_error("expected an expression", toks, i)),
    }
}

fn parse_expr(toks: &Vec<Token>, i: usize, min_prec: u32) -> (r: Result<
    (Expr, usize),
    ParseError,
>)
    requires
        i <= toks@.len(),
    ensures
        match r {
            Ok(p) => spec_parse_expr(view_tokens(toks@), i as int, min_prec as int) == Some(
                (p.0@, p.1 as int),
            ) && i < p.1 <= toks@.len(),
            Err(_) => spec_parse_expr(view_tokens(toks@), i as int, min_prec as int) is None,
        },
    decreases toks@.len() - i, 2int,
{
    match parse_primary(toks, i) {
        Err(e) => Err(e),
        Ok((lhs, j)) => parse_binops(toks, j, lhs, min_prec),
    }
}

fn parse_binops(toks: &Vec<Token>, j: usize, lhs: Expr, min_prec: u32) -> (r: Result<
    (Expr, usize),
    ParseError,
>)
    requires
        j <= toks@.len(),
    ensures
        match r {
            Ok(p) => spec_parse_binops(view_tokens(toks@), j as int, lhs@, min_prec as int)
                == Some((p.0@, p.1 as int)) && j <= p.1 <= toks@.len(),
            Err(_) => spec_parse_binops(view_tokens(toks@), j as int, lhs@, min_prec as int)
                is None,
        },
    decreases toks@.len() - j, 0int,
{
    if j >= toks.len() {
        return Ok((lhs, j));
    }
    let opt_op = token_op(&toks[j].kind);
    match opt_op {
        None => Ok((lhs, j)),
        Some(op) => {
            let is_slash = match &toks[j].kind {
                TokenKind::Slash => true,
                _ => false,
            };
            let slash_ok = !is_slash || (j + 1 < toks.len() && starts_primary(&toks[j + 1].kind));
            if prec(op) >= min_prec && slash_ok {
                match parse_expr(toks, j + 1, prec(op) + 1) {
                    Err(e) => Err(e),
                    Ok((rhs, k)) => {
                        let loc = crate::parser::types::copy_opt_location(lhs.loc());
                        let combined = Expr::BinOp {
                            lhs: Box::new(lhs),
                            op,
                            rhs: Box::new(rhs),
                            loc,
                        };
                        parse_binops(toks, k, combined, min_prec)
                    },
                }
            } else {
                Ok((lhs, j))
            }
        },
    }
}

fn parse_args(toks: &Vec<Token>, i: usize) -> (r: Result<(Vec<Box<Expr>>, usize), ParseError>)
    requires
        i <= toks@.len(),
    ensures
        match r {
            Ok(p) => spec_parse_args(view_tokens(toks@), i as int) == Some(
                (crate::parser::types::view_boxed_exprs(p.0@), p.1 as int),
            ) && i < p.1 <= toks@.len(),
            Err(_) => spec_parse_args(view_tokens(toks@), i as int) is None,
        },
    decreases toks@.len() - i, 3int,
{
    match parse_expr(toks, i, 1) {
        Err(e) => Err(e),
        Ok((e, j)) => {
            let comma = j < toks.len() && (match &toks[j].kind {
                TokenKind::Comma => true,
                _ => false,
            });
            if comma {
                match parse_args(toks, j + 1) {
                    Err(e2) => Err(e2),
                    Ok((rest, k)) => {
                        let ghost restv = rest@;
                        let ghost ev = e@;
                        let mut args = rest;
                        args.insert(0, Box::new(e));
                        proof {
                            crate::parser::types::lemma_view_boxed_exprs(args@);
                            crate::parser::types::lemma_view_boxed_exprs(restv);
                            assert(crate::parser::types::view_boxed_exprs(args@) =~= seq![ev]
                                + crate::parser::types::view_boxed_exprs(restv));
                        }
                        Ok((args, k))
                    },
                }
            } else {
                let mut args: Vec<Box<Expr>> = Vec::new();
                let ghost ev = e@;
                args.push(Box::new(e));
                proof {
                    crate::parser::types::lemma_view_boxed_exprs(args@);
                    assert(crate::parser::types::view_boxed_exprs(args@) =~= seq![ev]);
                }
                Ok((args, j))
            }
        },
    }
}

fn parse_stmt(toks: &Vec<Token>, i: usize) -> (r: Result<(Statement, usize), ParseError>)
    requires
        i <= toks@.len(),
    ensures
        match r {
            Ok(p) => spec_parse_stmt(view_tokens(toks@), i as int) == Some((p.0@, p.1 as int)) && i
                < p.1 <= toks@.len(),
            Err(_) => spec_parse_stmt(view_tokens(toks@), i as int) is None,
        },
    decreases toks@.len() - i, 4int,
{
    let is_assign = i < toks.len() && (match &toks[i].kind {
        TokenKind::Ident(_) => true,
        _ => false,
    }) && i + 1 < toks.len() && (match &toks[i + 1].kind {
        TokenKind::Assign => true,
        _ => false,
    });
    if is_assign {
        let target = match &toks[i].kind {
            TokenKind::Ident(nm) => Expr::VarId {
                name: chars_to_string(nm),
                loc: tok_loc(&toks[i]),
            },
            _ => unreached(),
        };
        match parse_expr(toks, i + 2, 1) {
            Err(e) => Err(e),
            Ok((e, j)) => {
                let semi = j < toks.len() && (match &toks[j].kind {
                    TokenKind::Semi => true,
                    _ => false,
                });
                if semi {
                    Ok(
                        (
                            Statement::Assign { var_id: target, expr: e, loc: tok_loc(&toks[i]) },
                            j + 1,
                        ),
                    )
                } else {
                    Err(tok_error("expected `;` after statement", toks, j))
                }
            },
        }
    } else {
        match parse_expr(toks, i, 1) {
            Err(e) => Err(e),
            Ok((e, j)) => {
                let semi = j < toks.len() && (match &toks[j].kind {
                    TokenKind::Semi => true,
                    _ => false,
                });
                if semi {
                    let loc = tok_loc(&toks[i]);
                    Ok((Statement::Expr { expr: e, loc }, j + 1))
                } else {
                    Err(tok_error("expected `;` after statement", toks, j))
                }
            },
        }
    }
}

fn parse_stmts(toks: &Vec<Token>, i: usize) -> (r: Result<(Vec<Statement>, usize), ParseError>)
    requires
        i <= toks@.len(),
    ensures
        match r {
            Ok(p) => spec_parse_stmts(view_tokens(toks@), i as int) == Some(
                (view_statements(p.0@), p.1 as int),
            ) && i <= p.1 <= toks@.len(),
            Err(_) => spec_parse_stmts(view_tokens(toks@), i as int) is None,
        },
    decreases toks@.len() - i, 5int,
{
    let done = i >= toks.len() || (match &toks[i].kind {
        TokenKind::RBrace => true,
        _ => false,
    });
    if done {
        let out: Vec<Statement> = Vec::new();
        proof {
            assert(view_statements(out@) =~= Seq::<StatementV>::empty());
        }
        Ok((out, i))
    } else {
        match parse_stmt(toks, i) {
            Err(e) => Err(e),
            Ok((st, j)) => {
                match parse_stmts(toks, j) {
                    Err(e2) => Err(e2),
                    Ok((rest, k)) => {
                        let ghost restv = rest@;
                        let ghost stv = st@;
                        let mut body = rest;
                        body.insert(0, st);
                        proof {
                            crate::parser::types::lemma_view_statements(body@);
                            crate::parser::types::lemma_view_statements(restv);
                            assert(view_statements(body@) =~= seq![stv] + view_statements(restv));
                        }
                        Ok((body, k))
                    },
                }
            },
        }
    }
}

fn parse_segments(toks: &Vec<Token>, i: usize, acc: Vec<String>) -> (r: Result<
    (Vec<String>, usize),
    ParseError,
>)
    requires
        i <= toks@.len(),
        1 <= acc@.len() <= 4,
    ensures
        match r {
            Ok(p) => spec_parse_segments(view_tokens(toks@), i as int, acc.deep_view()) == Some(
                (p.0.deep_view(), p.1 as int),
            ) && i <= p.1 <= toks@.len() && 1 <= p.0@.len() <= 4,
            Err(_) => spec_parse_segments(view_tokens(toks@), i as int, acc.deep_view()) is None,
        },
    decreases toks@.len() - i, 1int,
{
    let at_colon = i < toks.len() && (match &toks[i].kind {
        TokenKind::Colon => true,
        _ => false,
    });
    if at_colon {
        if acc.len() >= 4 {
            return Err(tok_error("a probe specification has at most four segments", toks, i));
        }
        let named = i + 1 < toks.len() && (match &toks[i + 1].kind {
            TokenKind::SpecWord(_) => true,
            _ => false,
        });
        if named {
            let seg = match &toks[i + 1].kind {
                TokenKind::SpecWord(nm) => chars_to_string(nm),
                _ => unreached(),
            };
            let ghost accv = acc.deep_view();
            let ghost segv = seg@;
            let mut acc2 = acc;
            acc2.push(seg);
            proof {
                assert(acc2.deep_view() =~= accv.push(segv));
            }
            parse_segments(toks, i + 2, acc2)
        } else {
            let ghost accv = acc.deep_view();
            let mut acc2 = acc;
            acc2.push(String::new());
            proof {
                assert(acc2.deep_view() =~= accv.push(Seq::<char>::empty()));
            }
            parse_segments(toks, i + 1, acc2)
        }
    } else {
        let ghost accv = acc.deep_view();
        Ok((acc, i))
    }
}

fn is_probe_type_name(s: &String) -> (r: bool)
    ensures
        r == spec_is_probe_type(s@),
{
    let v: &str = s.as_str();
    str_eq(v, "begin") || str_eq(v, "end") || str_eq(v, "before") || str_eq(v, "after") || str_eq(
        v,
        "alt",
    )
}

fn probe_spec_of(segs: &Vec<String>) -> (r: Option<(String, String, String, String)>)
    requires
        1 <= segs@.len() <= 4,
    ensures
        match r {
            Some(q) => spec_probe_spec_of(segs.deep_view()) == Some((q.0@, q.1@, q.2@, q.3@)),
            None => spec_probe_spec_of(segs.deep_view()) is None,
        },
{
    if segs.len() == 1 && str_eq(segs[0].as_str(), "BEGIN") {
        Some(
            (
                String::from_str("core"),
                String::new(),
                String::new(),
                String::from_str("begin"),
            ),
        )
    } else if segs.len() == 1 && str_eq(segs[0].as_str(), "END") {
        Some(
            (String::from_str("core"), String::new(), String::new(), String::from_str("end")),
        )
    } else {
        let p = segs[0].clone();
        let k = if segs.len() > 1 {
            segs[1].clone()
        } else {
            String::new()
        };
        let e = if segs.len() > 2 {
            segs[2].clone()
        } else {
            String::new()
        };
        let t = if segs.len() > 3 {
            segs[3].clone()
        } else {
            String::new()
        };
        let ok = if t.as_str().unicode_len() > 0 {
            is_probe_type_name(&t)
        } else if e.as_str().unicode_len() > 0 {
            is_probe_type_name(&e)
        } else if k.as_str().unicode_len() > 0 {
            is_probe_type_name(&k)
        } else {
            is_probe_type_name(&p)
        };
        if ok {
            Some((p, k, e, t))
        } else {
            None
        }
    }
}

fn parse_decl_body(
    toks: &Vec<Token>,
    i: usize,
    p: String,
    k: String,
    e: String,
    t: String,
    pred: Option<Expr>,
    start: usize,
) -> (r: Result<(AstNode, usize), ParseError>)
    requires
        i <= toks@.len(),
        start < toks@.len(),
    ensures
        match r {
            Ok(q) => spec_parse_decl_body(
                view_tokens(toks@),
                i as int,
                p@,
                k@,
                e@,
                t@,
                crate::parser::types::view_opt_expr(pred),
                view_tokens(toks@)[start as int],
            ) == Some((q.0@, q.1 as int)) && i < q.1 <= toks@.len(),
            Err(_) => spec_parse_decl_body(
                view_tokens(toks@),
                i as int,
                p@,
                k@,
                e@,
                t@,
                crate::parser::types::view_opt_expr(pred),
                view_tokens(toks@)[start as int],
            ) is None,
        },
    decreases toks@.len() - i, 6int,
{
    let open = i < toks.len() && (match &toks[i].kind {
        TokenKind::LBrace => true,
        _ => false,
    });
    if !open {
        return Err(tok_error("expected `{` to open the probe body", toks, i));
    }
    match parse_stmts(toks, i + 1) {
        Err(er) => Err(er),
        Ok((body, j)) => {
            let closed = j < toks.len() && (match &toks[j].kind {
                TokenKind::RBrace => true,
                _ => false,
            });
            if closed {
                Ok(
                    (
                        AstNode::ProbeDecl {
                            provider: p,
                            package: k,
                            event: e,
                            probe_type: t,
                            predicate: pred,
                            body,
                            loc: tok_loc(&toks[start]),
                        },
                        j + 1,
                    ),
                )
            } else {
                Err(tok_error("expected `}` to close the probe body", toks, j))
            }
        },
    }
}

fn parse_probe_decl(toks: &Vec<Token>, i: usize) -> (r: Result<(AstNode, usize), ParseError>)
    requires
        i <= toks@.len(),
    ensures
        match r {
            Ok(p) => spec_parse_probe_decl(view_tokens(toks@), i as int) == Some(
                (p.0@, p.1 as int),
            ) && i < p.1 <= toks@.len(),
            Err(_) => spec_parse_probe_decl(view_tokens(toks@), i as int) is None,
        },
    decreases toks@.len() - i, 7int,
{
    let at_word = i < toks.len() && (match &toks[i].kind {
        TokenKind::SpecWord(_) => true,
        _ => false,
    });
    if !at_word {
        return Err(tok_error("expected a probe specification", toks, i));
    }
    let first = match &toks[i].kind {
        TokenKind::SpecWord(nm) => chars_to_string(nm),
        _ => unreached(),
    };
    let mut acc: Vec<String> = Vec::new();
    let ghost firstv = first@;
    acc.push(first);
    proof {
        assert(acc.deep_view() =~= seq![firstv]);
    }
    match parse_segments(toks, i + 1, acc) {
        Err(e) => Err(e),
        Ok((segs, j)) => {
            match probe_spec_of(&segs) {
                None => Err(
                    tok_error("the final segment is not a recognized probe type", toks, i),
                ),
                Some((p, k, e, t)) => {
                    let at_slash = j < toks.len() && (match &toks[j].kind {
                        TokenKind::Slash => true,
                        _ => false,
                    });
                    if at_slash {
                        match parse_expr(toks, j + 1, 1) {
                            Err(er) => Err(er),
                            Ok((pred, j2)) => {
                                let closed = j2 < toks.len() && (match &toks[j2].kind {
                                    TokenKind::Slash => true,
                                    _ => false,
                                });
                                if closed {
                                    parse_decl_body(toks, j2 + 1, p, k, e, t, Some(pred), i)
                                } else {
                                    Err(tok_error("expected `/` to close the predicate", toks, j2))
                                }
                            },
                        }
                    } else {
                        parse_decl_body(toks, j, p, k, e, t, None, i)
                    }
                },
            }
        },
    }
}

fn parse_script_from(toks: &Vec<Token>, i: usize) -> (r: Result<Vec<AstNode>, ParseError>)
    requires
        i <= toks@.len(),
    ensures
        match r {
            Ok(ast) => spec_parse_script_from(view_tokens(toks@), i as int) == Some(
                view_ast(ast@),
            ),
            Err(_) => spec_parse_script_from(view_tokens(toks@), i as int) is None,
        },
    decreases toks@.len() - i, 8int,
{
    if i >= toks.len() {
        let out: Vec<AstNode> = Vec::new();
        proof {
            assert(view_ast(out@) =~= Seq::<AstNodeV>::empty());
        }
        Ok(out)
    } else {
        match parse_probe_decl(toks, i) {
            Err(e) => Err(e),
            Ok((node, j)) => {
                match parse_script_from(toks, j) {
                    Err(e2) => Err(e2),
                    Ok(rest) => {
                        let ghost restv = rest@;
                        let ghost nodev = node@;
                        let mut out = rest;
                        out.insert(0, node);
                        proof {
                            assert(view_ast(out@) =~= seq![nodev] + view_ast(restv));
                        }
                        Ok(out)
                    },
                }
            },
        }
    }
}

/// Parses a script: a sequence of probe declarations, each of shape
/// `PROBE_SPEC [ / predicate / ] { statement* }`. Returns the declarations
/// in order, or the first syntax error with its source location.
pub fn parse_script(script: String) -> (r: Result<Vec<AstNode>, ParseError>)
    requires
        script@.len() < usize::MAX,
    ensures
        match r {
            Ok(ast) => spec_parse(script@) == Some(view_ast(ast@)),
            Err(_) => spec_parse(script@) is None,
        },
{
    let sref: &str = script.as_str();
    let n = sref.unicode_len();
    let mut chars: Vec<char> = Vec::new();
    let mut i: usize = 0;
    while i < n
        invariant
            i <= n,
            n == script@.len() < usize::MAX,
            sref@ == script@,
            chars@ == script@.take(i as int),
        decreases n - i,
    {
        chars.push(sref.get_char(i));
        proof {
            assert(script@.take(i as int).push(script@[i as int]) =~= script@.take(i as int + 1));
        }
        i = i + 1;
    }
    proof {
        assert(script@.take(n as int) =~= script@);
    }
    match lex_from(&chars, 0, true) {
        Err(e) => Err(e),
        Ok(toks) => {
            let located = locate_tokens(&chars, toks);
            match parse_script_from(&located, 0) {
                Ok(ast) => Ok(ast),
                Err(e) => {
                    // A failure past the last token still names a location:
                    // the end of the input.
                    match e.loc {
                        Some(l) => Err(ParseError { msg: e.msg, loc: Some(l) }),
                        None => {
                            let (line, col) = line_col_at(&chars, chars.len());
                            Err(
                                ParseError {
                                    msg: e.msg,
                                    loc: Some(
                                        Location {
                                            line_col: LineColLocation::Pos((line, col)),
                                            path: None,
                                        },
                                    ),
                                },
                            )
                        },
                    }
                },
            }
        },
    }
}

/// The abstract syntax tree of a script, or `None` where it violates the
/// grammar.
pub fn get_ast(script: &str) -> (r: Option<Vec<AstNode>>)
    requires
        script@.len() < usize::MAX,
    ensures
        match r {
            Some(ast) => spec_parse(script@) == Some(view_ast(ast@)),
            None => spec_parse(script@) is None,
        },
{
    match parse_script(String::from_str(script)) {
        Ok(ast) => Some(ast),
        Err(_) => None,
    }
}

/// Whether a script conforms to the grammar.
pub fn is_valid_script(script: &str) -> (r: bool)
    requires
        script@.len() < usize::MAX,
    ensures
        r == (spec_parse(script@) is Some),
{
    match get_ast(script) {
        Some(_) => true,
        None => false,
    }
}

/// One line of the rendered tree: the declaration's four resolved
/// segments, whether it carries a predicate, and how many statements its
/// body holds.
pub open spec fn spec_dump_node(n: AstNodeV) -> Seq<char> {
    match n {
        AstNodeV::ProbeDecl { provider, package, event, probe_type, predicate, body, .. } =>
            "probe "@ + provider + seq![':'] + package + seq![':'] + event + seq![':']
                + probe_type + (if predicate is Some {
                " when predicate"@
            } else {
                Seq::empty()
            }) + ", body statements: "@ + crate::parser::types::spec_dec_digits(body.len())
                + seq!['\n'],
    }
}

/// The rendering of a whole tree, one line per declaration, in order.
pub open spec fn spec_dump(nodes: Seq<AstNodeV>) -> Seq<char>
    decreases nodes,
{
    if nodes.len() == 0 {
        Seq::empty()
    } else {
        spec_dump(nodes.drop_last()) + spec_dump_node(nodes.last())
    }
}

fn dump_node(n: &AstNode, out: &mut String)
    ensures
        final(out)@ == old(out)@ + spec_dump_node(n@),
{
    match n {
        AstNode::ProbeDecl { provider, package, event, probe_type, predicate, body, .. } => {
            out.append("probe ");
            out.append(provider.as_str());
            crate::parser::types::push_char(out, ':');
            out.append(package.as_str());
            crate::parser::types::push_char(out, ':');
            out.append(event.as_str());
            crate::parser::types::push_char(out, ':');
            out.append(probe_type.as_str());
            match predicate {
                Some(_) => out.append(" when predicate"),
                None => (),
            }
            out.append(", body statements: ");
            crate::parser::types::append_decimal(out, body.len());
            crate::parser::types::push_char(out, '\n');
            proof {
                crate::parser::types::lemma_view_statements(body@);
                assert(out@ =~= old(out)@ + spec_dump_node(n@));
            }
        },
    }
}

/// Renders the tree as text, one line per probe declaration.
pub fn dump_ast(ast: &Vec<AstNode>) -> (r: String)
    ensures
        r@ == spec_dump(view_ast(ast@)),
{
    let mut out = String::new();
    let mut i: usize = 0;
    while i < ast.len()
        invariant
            i <= ast@.len(),
            out@ == spec_dump(view_ast(ast@).take(i as int)),
        decreases ast@.len() - i,
    {
        let ghost pre = view_ast(ast@).take(i as int);
        let ghost cur = view_ast(ast@).take(i as int + 1);
        proof {
            assert(cur.drop_last() =~= pre);
            assert(cur.last() == view_ast(ast@)[i as int]);
        }
        dump_node(&ast[i], &mut out);
        i = i + 1;
    }
    proof {
        assert(view_ast(ast@).take(ast@.len() as int) =~= view_ast(ast@));
    }
    out
}

/// Checks each script of a list that is expected to be grammatical.
pub fn run_test_on_valid_list(scripts: Vec<String>)
    requires
        forall|i: int|
            0 <= i < scripts@.len() ==> (#[trigger] scripts@[i])@.len() < usize::MAX
                && spec_parse(scripts@[i]@) is Some,
{
    let mut i: usize = 0;
    while i < scripts.len()
        invariant
            i <= scripts@.len(),
            forall|k: int|
                0 <= k < scripts@.len() ==> (#[trigger] scripts@[k])@.len() < usize::MAX
                    && spec_parse(scripts@[k]@) is Some,
        decreases scripts@.len() - i,
    {
        let ok = is_valid_script(scripts[i].as_str());
        if !ok {
            proof {
                assert(false);
            }
        }
        i = i + 1;
    }
}

} // verus!
