//! The expression language of `{if: condition}` and link guards: a tokenizer
//! and a recursive-descent parser producing `Expression` trees.
//!
//! Precedence, loosest first: `||`, `&&`, `==` `!=`, `<` `>` `<=` `>=`,
//! `+` `-`, `*` `/`, prefix `!`; every binary operator associates to the
//! left.
use vstd::prelude::*;
use crate::expression::Expression;
use crate::text::{
    concat2, concat3, debug_text, int_text, int_to_string, is_alphabetic, is_alphanumeric,
    is_ascii_digit, is_digit, is_whitespace, is_ws, parse_i64, parse_i64_chars, str_chars,
    str_debug, string_eq_str, string_of, sub_chars, unicode_alphabetic, unicode_alphanumeric,
};
use crate::value::{FloatArith, Value, ValueModel, float_finite, float_negative, float_parsed, float_read, minus_text, parse_float_bits};

verus! {

// ── tokens ──────────────────────────────────────────────────────────────

/// A token of the expression language.
#[derive(Debug)]
pub enum Token {
    /// `$identifier` state variable reference
    StateRef(String),
    /// Integer literal
    Int(i64),
    /// Float literal, by its source text
    Float(String),
    /// String literal (without surrounding quotes, escapes kept as written)
    StringLit(String),
    /// Identifier (function names, true, false, null)
    Ident(String),
    LParen,
    RParen,
    Comma,
    Bang,
    AndAnd,
    OrOr,
    EqEq,
    NotEq,
    LtEq,
    GtEq,
    Lt,
    Gt,
    Plus,
    Minus,
    Star,
    Slash,
}

/// The content of a token.
pub enum Tok {
    StateRef(Seq<char>),
    Int(i64),
    Float(Seq<char>),
    StringLit(Seq<char>),
    Ident(Seq<char>),
    LParen,
    RParen,
    Comma,
    Bang,
    AndAnd,
    OrOr,
    EqEq,
    NotEq,
    LtEq,
    GtEq,
    Lt,
    Gt,
    Plus,
    Minus,
    Star,
    Slash,
}

impl Token {
    pub open spec fn model(&self) -> Tok {
        match self {
            Token::StateRef(s) => Tok::StateRef(s@),
            Token::Int(n) => Tok::Int(*n),
            Token::Float(s) => Tok::Float(s@),
            Token::StringLit(s) => Tok::StringLit(s@),
            Token::Ident(s) => Tok::Ident(s@),
            Token::LParen => Tok::LParen,
            Token::RParen => Tok::RParen,
            Token::Comma => Tok::Comma,
            Token::Bang => Tok::Bang,
            Token::AndAnd => Tok::AndAnd,
            Token::OrOr => Tok::OrOr,
            Token::EqEq => Tok::EqEq,
            Token::NotEq => Tok::NotEq,
            Token::LtEq => Tok::LtEq,
            Token::GtEq => Tok::GtEq,
            Token::Lt => Tok::Lt,
            Token::Gt => Tok::Gt,
            Token::Plus => Tok::Plus,
            Token::Minus => Tok::Minus,
            Token::Star => Tok::Star,
            Token::Slash => Tok::Slash,
        }
    }
}

pub open spec fn tokens_model(v: Seq<Token>) -> Seq<Tok> {
    Seq::new(v.len(), |i: int| v[i].model())
}

// ── the tokenizer's meaning ─────────────────────────────────────────────

/// End of the run from `i` of characters that continue a `$` reference.
pub open spec fn scan_ref(s: Seq<char>, i: int) -> int
    decreases s.len() - i,
{
    if 0 <= i < s.len() && (unicode_alphanumeric(s[i]) || s[i] == '_' || s[i] == '.') {
        scan_ref(s, i + 1)
    } else {
        i
    }
}

/// End of the run from `i` of characters that continue an identifier.
pub open spec fn scan_ident(s: Seq<char>, i: int) -> int
    decreases s.len() - i,
{
    if 0 <= i < s.len() && (unicode_alphanumeric(s[i]) || s[i] == '_') {
        scan_ident(s, i + 1)
    } else {
        i
    }
}

/// End of the run from `i` of digits and dots.
pub open spec fn scan_number(s: Seq<char>, i: int) -> int
    decreases s.len() - i,
{
    if 0 <= i < s.len() && (is_digit(s[i]) || s[i] == '.') {
        scan_number(s, i + 1)
    } else {
        i
    }
}

/// Position of the closing quote `q` from `i` on (or the end), stepping
/// over a backslash and the character after it.
pub open spec fn scan_quoted(s: Seq<char>, i: int, q: char) -> int
    decreases s.len() - i,
{
    if i < 0 || i >= s.len() || s[i] == q {
        i
    } else if s[i] == '\\' && i + 1 < s.len() {
        scan_quoted(s, i + 2, q)
    } else {
        scan_quoted(s, i + 1, q)
    }
}

/// How many times `c` occurs in `s`.
pub open spec fn count_char(s: Seq<char>, c: char) -> nat
    decreases s.len(),
{
    if s.len() == 0 {
        0
    } else {
        count_char(s.drop_last(), c) + if s.last() == c {
            1nat
        } else {
            0nat
        }
    }
}

/// The token of a run of digits and dots: a float with one dot, none with
/// more, else an integer when it fits in `i64`.
pub open spec fn number_token(t: Seq<char>) -> Option<Tok> {
    let dots = count_char(t, '.');
    if dots == 1 {
        Some(Tok::Float(t))
    } else if dots > 1 {
        None
    } else {
        match parse_i64(t) {
            Some(n) => Some(Tok::Int(n)),
            None => None,
        }
    }
}

/// Two-character operators.
pub open spec fn two_char_token(a: char, b: char) -> Option<Tok> {
    if a == '&' && b == '&' {
        Some(Tok::AndAnd)
    } else if a == '|' && b == '|' {
        Some(Tok::OrOr)
    } else if a == '=' && b == '=' {
        Some(Tok::EqEq)
    } else if a == '!' && b == '=' {
        Some(Tok::NotEq)
    } else if a == '<' && b == '=' {
        Some(Tok::LtEq)
    } else if a == '>' && b == '=' {
        Some(Tok::GtEq)
    } else {
        None
    }
}

/// One-character tokens.
pub open spec fn one_char_token(c: char) -> Option<Tok> {
    if c == '(' {
        Some(Tok::LParen)
    } else if c == ')' {
        Some(Tok::RParen)
    } else if c == ',' {
        Some(Tok::Comma)
    } else if c == '!' {
        Some(Tok::Bang)
    } else if c == '<' {
        Some(Tok::Lt)
    } else if c == '>' {
        Some(Tok::Gt)
    } else if c == '+' {
        Some(Tok::Plus)
    } else if c == '-' {
        Some(Tok::Minus)
    } else if c == '*' {
        Some(Tok::Star)
    } else if c == '/' {
        Some(Tok::Slash)
    } else {
        None
    }
}

/// A token after which `-` is the binary operator: one that ends an operand.
pub open spec fn ends_operand(t: Tok) -> bool {
    t is Int || t is Float || t is StringLit || t is StateRef || t is Ident || t is RParen
}

/// The token (if any) that starts at `i`, and where the next one starts.
/// `-` directly before a digit is the sign of a number, unless the token
/// before it ends an operand (`after_operand`): then it is `Minus`.
pub open spec fn lex_step(s: Seq<char>, i: int, after_operand: bool) -> (Option<Tok>, int) {
    let c = s[i];
    let n = s.len() as int;
    if is_ws(c) {
        (None, i + 1)
    } else if c == '$' {
        let j = scan_ref(s, i + 1);
        if j == i + 1 {
            (None, j)
        } else {
            (Some(Tok::StateRef(s.subrange(i + 1, j))), j)
        }
    } else if c == '"' || c == '\'' {
        let j = scan_quoted(s, i + 1, c);
        (Some(Tok::StringLit(s.subrange(i + 1, j))), if j < n {
            j + 1
        } else {
            j
        })
    } else if is_digit(c) || (c == '-' && !after_operand && i + 1 < n && is_digit(s[i + 1])) {
        let j = scan_number(s, i + 1);
        (number_token(s.subrange(i, j)), j)
    } else if i + 1 < n && two_char_token(c, s[i + 1]) is Some {
        (two_char_token(c, s[i + 1]), i + 2)
    } else if one_char_token(c) is Some {
        (one_char_token(c), i + 1)
    } else if unicode_alphabetic(c) || c == '_' {
        let j = scan_ident(s, i + 1);
        (Some(Tok::Ident(s.subrange(i, j))), j)
    } else {
        (None, i + 1)
    }
}

/// The tokens of `s` from position `i` on, the last token before `i`
/// ending an operand or not.  Whitespace and characters that start no token
/// are skipped, as are a lone `$` and a number that does not parse.
pub open spec fn tokens_from(s: Seq<char>, i: int, after_operand: bool) -> Seq<Tok>
    decreases s.len() - i,
{
    if i < 0 || i >= s.len() {
        Seq::empty()
    } else {
        let (t, j) = lex_step(s, i, after_operand);
        if j <= i || j > s.len() {
            Seq::empty()
        } else {
            match t {
                Some(tok) => seq![tok] + tokens_from(s, j, ends_operand(tok)),
                None => tokens_from(s, j, after_operand),
            }
        }
    }
}

/// The tokens of a whole text.
pub open spec fn lexed(s: Seq<char>) -> Seq<Tok> {
    tokens_from(s, 0, false)
}

// ── the tokenizer ───────────────────────────────────────────────────────

fn scan_ref_exec(s: &Vec<char>, i: usize) -> (j: usize)
    requires
        i <= s.len(),
    ensures
        j == scan_ref(s@, i as int),
        i <= j <= s.len(),
{
    let mut j = i;
    while j < s.len() && (is_alphanumeric(s[j]) || s[j] == '_' || s[j] == '.')
        invariant
            i <= j <= s.len(),
            scan_ref(s@, j as int) == scan_ref(s@, i as int),
        decreases s.len() - j,
    {
        j = j + 1;
    }
    j
}

fn scan_ident_exec(s: &Vec<char>, i: usize) -> (j: usize)
    requires
        i <= s.len(),
    ensures
        j == scan_ident(s@, i as int),
        i <= j <= s.len(),
{
    let mut j = i;
    while j < s.len() && (is_alphanumeric(s[j]) || s[j] == '_')
        invariant
            i <= j <= s.len(),
            scan_ident(s@, j as int) == scan_ident(s@, i as int),
        decreases s.len() - j,
    {
        j = j + 1;
    }
    j
}

fn scan_number_exec(s: &Vec<char>, i: usize) -> (j: usize)
    requires
        i <= s.len(),
    ensures
        j == scan_number(s@, i as int),
        i <= j <= s.len(),
{
    let mut j = i;
    while j < s.len() && (is_ascii_digit(s[j]) || s[j] == '.')
        invariant
            i <= j <= s.len(),
            scan_number(s@, j as int) == scan_number(s@, i as int),
        decreases s.len() - j,
    {
        j = j + 1;
    }
    j
}

fn scan_quoted_exec(s: &Vec<char>, i: usize, q: char) -> (j: usize)
    requires
        i <= s.len(),
    ensures
        j == scan_quoted(s@, i as int, q),
        i <= j <= s.len(),
{
    let mut j = i;
    while j < s.len() && s[j] != q
        invariant
            i <= j <= s.len(),
            scan_quoted(s@, j as int, q) == scan_quoted(s@, i as int, q),
        decreases s.len() - j,
    {
        if s[j] == '\\' && j + 1 < s.len() {
            j = j + 2;
        } else {
            j = j + 1;
        }
    }
    j
}

fn count_dots(t: &Vec<char>) -> (n: usize)
    ensures
        n == count_char(t@, '.'),
{
    let mut n: usize = 0;
    let mut i: usize = 0;
    while i < t.len()
        invariant
            i <= t.len(),
            n == count_char(t@.take(i as int), '.'),
            n <= i,
        decreases t.len() - i,
    {
        assert(t@.take(i + 1).drop_last() =~= t@.take(i as int));
        if t[i] == '.' {
            n = n + 1;
        }
        i = i + 1;
    }
    assert(t@.take(t.len() as int) =~= t@);
    n
}

pub open spec fn token_opt_model(t: Option<Token>) -> Option<Tok> {
    match t {
        Some(tok) => Some(tok.model()),
        None => None,
    }
}

fn two_char_exec(a: char, b: char) -> (r: Option<Token>)
    ensures
        token_opt_model(r) == two_char_token(a, b),
{
    if a == '&' && b == '&' {
        Some(Token::AndAnd)
    } else if a == '|' && b == '|' {
        Some(Token::OrOr)
    } else if a == '=' && b == '=' {
        Some(Token::EqEq)
    } else if a == '!' && b == '=' {
        Some(Token::NotEq)
    } else if a == '<' && b == '=' {
        Some(Token::LtEq)
    } else if a == '>' && b == '=' {
        Some(Token::GtEq)
    } else {
        None
    }
}

fn one_char_exec(c: char) -> (r: Option<Token>)
    ensures
        token_opt_model(r) == one_char_token(c),
{
    if c == '(' {
        Some(Token::LParen)
    } else if c == ')' {
        Some(Token::RParen)
    } else if c == ',' {
        Some(Token::Comma)
    } else if c == '!' {
        Some(Token::Bang)
    } else if c == '<' {
        Some(Token::Lt)
    } else if c == '>' {
        Some(Token::Gt)
    } else if c == '+' {
        Some(Token::Plus)
    } else if c == '-' {
        Some(Token::Minus)
    } else if c == '*' {
        Some(Token::Star)
    } else if c == '/' {
        Some(Token::Slash)
    } else {
        None
    }
}

/// The token starting at `i`, and where the next one starts.
fn lex_one(s: &Vec<char>, i: usize, after_operand: bool) -> (r: (Option<Token>, usize))
    requires
        i < s.len(),
    ensures
        (token_opt_model(r.0), r.1 as int) == lex_step(s@, i as int, after_operand),
        i < r.1 <= s.len(),
{
    let c = s[i];
    let n = s.len();
    if is_whitespace(c) {
        return (None, i + 1);
    }
    if c == '$' {
        let j = scan_ref_exec(s, i + 1);
        if j == i + 1 {
            return (None, j);
        }
        return (Some(Token::StateRef(string_of(&sub_chars(s, i + 1, j)))), j);
    }
    if c == '"' || c == '\'' {
        let j = scan_quoted_exec(s, i + 1, c);
        let t = Token::StringLit(string_of(&sub_chars(s, i + 1, j)));
        if j < n {
            return (Some(t), j + 1);
        }
        return (Some(t), j);
    }
    if is_ascii_digit(c) || (c == '-' && !after_operand && i + 1 < n && is_ascii_digit(s[i + 1])) {
        let j = scan_number_exec(s, i + 1);
        let t = sub_chars(s, i, j);
        let dots = count_dots(&t);
        if dots == 1 {
            return (Some(Token::Float(string_of(&t))), j);
        } else if dots > 1 {
            return (None, j);
        }
        return match parse_i64_chars(&t) {
            Some(v) => (Some(Token::Int(v)), j),
            None => (None, j),
        };
    }
    if i + 1 < n {
        let two = two_char_exec(c, s[i + 1]);
        if two.is_some() {
            return (two, i + 2);
        }
    }
    let one = one_char_exec(c);
    if one.is_some() {
        return (one, i + 1);
    }
    if is_alphabetic(c) || c == '_' {
        let j = scan_ident_exec(s, i + 1);
        return (Some(Token::Ident(string_of(&sub_chars(s, i, j)))), j);
    }
    (None, i + 1)
}

fn ends_operand_exec(t: &Token) -> (r: bool)
    ensures
        r == ends_operand(t.model()),
{
    match t {
        Token::Int(_) | Token::Float(_) | Token::StringLit(_) | Token::StateRef(_)
        | Token::Ident(_) | Token::RParen => true,
        _ => false,
    }
}

/// Split expression text into tokens.  `-` right after an operand is the
/// binary operator; elsewhere, before a digit, it signs a number.
pub fn tokenize(input: &str) -> (r: Vec<Token>)
    ensures
        tokens_model(r@) == lexed(input@),
{
    let s = str_chars(input);
    let mut tokens: Vec<Token> = Vec::new();
    let mut i: usize = 0;
    let mut after_operand = false;
    while i < s.len()
        invariant
            i <= s.len(),
            s@ == input@,
            tokens_model(tokens@) + tokens_from(s@, i as int, after_operand) == lexed(s@),
        decreases s.len() - i,
    {
        let (t, j) = lex_one(&s, i, after_operand);
        let ghost before = tokens@;
        let ghost flag = after_operand;
        match t {
            Some(tok) => {
                after_operand = ends_operand_exec(&tok);
                tokens.push(tok);
                assert(tokens_model(tokens@) =~= tokens_model(before).push(tokens@.last().model()));
                assert(tokens_model(tokens@) + tokens_from(s@, j as int, after_operand)
                    =~= tokens_model(before) + tokens_from(s@, i as int, flag));
            },
            None => {},
        }
        i = j;
    }
    tokens
}

// ── the parser's meaning ────────────────────────────────────────────────

/// Binary operators.
pub enum BinOp {
    Or,
    And,
    Eq,
    NotEq,
    Lt,
    Lte,
    Gt,
    Gte,
    Add,
    Sub,
    Mul,
    Div,
}

/// The tree a parse gives.  A float literal stands by its source text: the
/// number it denotes is the `FloatArith`'s to compute.
pub enum ExprModel {
    Literal(ValueModel),
    FloatLit(Seq<char>),
    StateVar(Seq<char>),
    Not(Box<ExprModel>),
    Bin(BinOp, Box<ExprModel>, Box<ExprModel>),
    Call(Seq<char>, Seq<ExprModel>),
}

/// The expression has the tree `m`; a float literal is the literal `Float`
/// of a finite number, negative exactly where its text starts with `-`, or
/// `null` where the number is not finite.
pub open spec fn conforms(e: Expression, m: ExprModel) -> bool
    decreases e,
{
    match (e, m) {
        (Expression::Literal(v), ExprModel::Literal(mv)) => v.model() == mv,
        (Expression::Literal(v), ExprModel::FloatLit(t)) => (v matches Value::Float(b)
            && float_finite(b) && (float_negative(b) <==> minus_text(t))) || v is Null,
        (Expression::StateVar(p), ExprModel::StateVar(q)) => p@ == q,
        (Expression::Not(a), ExprModel::Not(b)) => conforms(*a, *b),
        (Expression::Or(a1, a2), ExprModel::Bin(BinOp::Or, b1, b2)) => conforms(*a1, *b1)
            && conforms(*a2, *b2),
        (Expression::And(a1, a2), ExprModel::Bin(BinOp::And, b1, b2)) => conforms(*a1, *b1)
            && conforms(*a2, *b2),
        (Expression::Eq(a1, a2), ExprModel::Bin(BinOp::Eq, b1, b2)) => conforms(*a1, *b1)
            && conforms(*a2, *b2),
        (Expression::NotEq(a1, a2), ExprModel::Bin(BinOp::NotEq, b1, b2)) => conforms(*a1, *b1)
            && conforms(*a2, *b2),
        (Expression::Lt(a1, a2), ExprModel::Bin(BinOp::Lt, b1, b2)) => conforms(*a1, *b1)
            && conforms(*a2, *b2),
        (Expression::Lte(a1, a2), ExprModel::Bin(BinOp::Lte, b1, b2)) => conforms(*a1, *b1)
            && conforms(*a2, *b2),
        (Expression::Gt(a1, a2), ExprModel::Bin(BinOp::Gt, b1, b2)) => conforms(*a1, *b1)
            && conforms(*a2, *b2),
        (Expression::Gte(a1, a2), ExprModel::Bin(BinOp::Gte, b1, b2)) => conforms(*a1, *b1)
            && conforms(*a2, *b2),
        (Expression::Add(a1, a2), ExprModel::Bin(BinOp::Add, b1, b2)) => conforms(*a1, *b1)
            && conforms(*a2, *b2),
        (Expression::Sub(a1, a2), ExprModel::Bin(BinOp::Sub, b1, b2)) => conforms(*a1, *b1)
            && conforms(*a2, *b2),
        (Expression::Mul(a1, a2), ExprModel::Bin(BinOp::Mul, b1, b2)) => conforms(*a1, *b1)
            && conforms(*a2, *b2),
        (Expression::Div(a1, a2), ExprModel::Bin(BinOp::Div, b1, b2)) => conforms(*a1, *b1)
            && conforms(*a2, *b2),
        (Expression::Call { name, args }, ExprModel::Call(n, ms)) => {
            &&& name@ == n
            &&& args@.len() == ms.len()
            &&& forall|i: int| 0 <= i < ms.len() ==> conforms(#[trigger] args@[i], ms[i])
        },
        _ => false,
    }
}

/// The `Debug` text of a token other than a float.
pub open spec fn token_debug(t: Tok) -> Seq<char> {
    match t {
        Tok::StateRef(s) => "StateRef("@ + str_debug(s) + ")"@,
        Tok::Int(n) => "Int("@ + int_text(n as int) + ")"@,
        Tok::Float(_) => "Float"@,
        Tok::StringLit(s) => "StringLit("@ + str_debug(s) + ")"@,
        Tok::Ident(s) => "Ident("@ + str_debug(s) + ")"@,
        Tok::LParen => "LParen"@,
        Tok::RParen => "RParen"@,
        Tok::Comma => "Comma"@,
        Tok::Bang => "Bang"@,
        Tok::AndAnd => "AndAnd"@,
        Tok::OrOr => "OrOr"@,
        Tok::EqEq => "EqEq"@,
        Tok::NotEq => "NotEq"@,
        Tok::LtEq => "LtEq"@,
        Tok::GtEq => "GtEq"@,
        Tok::Lt => "Lt"@,
        Tok::Gt => "Gt"@,
        Tok::Plus => "Plus"@,
        Tok::Minus => "Minus"@,
        Tok::Star => "Star"@,
        Tok::Slash => "Slash"@,
    }
}

/// The message for an unexpected token; `None` for a float, whose text is
/// the `FloatArith`'s `Debug` text of the number.
pub open spec fn unexpected_message(t: Tok) -> Option<Seq<char>> {
    if t is Float {
        None
    } else {
        Some("unexpected token: "@ + token_debug(t))
    }
}

/// A parse: the tree and the position after it, or the error message
/// (`None` where the message holds a float's text).
pub type Parse = Result<(ExprModel, int), Option<Seq<char>>>;

pub open spec fn peek(t: Seq<Tok>, p: int) -> Option<Tok> {
    if 0 <= p < t.len() {
        Some(t[p])
    } else {
        None
    }
}

/// The operator that a token stands for at precedence level `k` (6 is
/// `||`, 1 is `*` and `/`).
pub open spec fn level_op(k: nat, tok: Tok) -> Option<BinOp> {
    if k == 6 && tok is OrOr {
        Some(BinOp::Or)
    } else if k == 5 && tok is AndAnd {
        Some(BinOp::And)
    } else if k == 4 && tok is EqEq {
        Some(BinOp::Eq)
    } else if k == 4 && tok is NotEq {
        Some(BinOp::NotEq)
    } else if k == 3 && tok is Lt {
        Some(BinOp::Lt)
    } else if k == 3 && tok is Gt {
        Some(BinOp::Gt)
    } else if k == 3 && tok is LtEq {
        Some(BinOp::Lte)
    } else if k == 3 && tok is GtEq {
        Some(BinOp::Gte)
    } else if k == 2 && tok is Plus {
        Some(BinOp::Add)
    } else if k == 2 && tok is Minus {
        Some(BinOp::Sub)
    } else if k == 1 && tok is Star {
        Some(BinOp::Mul)
    } else if k == 1 && tok is Slash {
        Some(BinOp::Div)
    } else {
        None
    }
}

/// An operand of level `k`: level `k - 1`, or a unary expression at level 1.
pub open spec fn p_operand(k: nat, t: Seq<Tok>, p: int) -> Parse
    decreases t.len() - p, k + 2, 1nat,
{
    if k <= 1 {
        p_unary(t, p)
    } else {
        p_level((k - 1) as nat, t, p)
    }
}

/// Level `k`: operands joined by that level's operators, to the left.
pub open spec fn p_level(k: nat, t: Seq<Tok>, p: int) -> Parse
    decreases t.len() - p, k + 2, 2nat,
{
    match p_operand(k, t, p) {
        Ok((l, p1)) => if p < p1 <= t.len() {
            p_tail(k, t, l, p1)
        } else {
            Ok((l, p1))
        },
        Err(m) => Err(m),
    }
}

/// The rest of level `k` after the left operand `l`.
pub open spec fn p_tail(k: nat, t: Seq<Tok>, l: ExprModel, p: int) -> Parse
    decreases t.len() - p, 0nat, 0nat,
{
    match peek(t, p) {
        Some(tok) => match level_op(k, tok) {
            Some(op) => match p_operand(k, t, p + 1) {
                Ok((r, p2)) => if p + 1 < p2 <= t.len() {
                    p_tail(k, t, ExprModel::Bin(op, Box::new(l), Box::new(r)), p2)
                } else {
                    Ok((ExprModel::Bin(op, Box::new(l), Box::new(r)), p2))
                },
                Err(m) => Err(m),
            },
            None => Ok((l, p)),
        },
        None => Ok((l, p)),
    }
}

/// Prefix `!`, then a primary expression.
pub open spec fn p_unary(t: Seq<Tok>, p: int) -> Parse
    decreases t.len() - p, 2nat, 0nat,
{
    if peek(t, p) == Some(Tok::Bang) {
        match p_unary(t, p + 1) {
            Ok((e, p1)) => Ok((ExprModel::Not(Box::new(e)), p1)),
            Err(m) => Err(m),
        }
    } else {
        p_primary(t, p)
    }
}

/// Literals, state references, function calls, parenthesized expressions.
pub open spec fn p_primary(t: Seq<Tok>, p: int) -> Parse
    decreases t.len() - p, 1nat, 0nat,
{
    match peek(t, p) {
        Some(Tok::Int(n)) => Ok((ExprModel::Literal(ValueModel::Int(n)), p + 1)),
        Some(Tok::Float(s)) => Ok((ExprModel::FloatLit(s), p + 1)),
        Some(Tok::StringLit(s)) => Ok((ExprModel::Literal(ValueModel::Str(s)), p + 1)),
        Some(Tok::StateRef(s)) => Ok((ExprModel::StateVar(s), p + 1)),
        Some(Tok::Ident(name)) => if name == "true"@ {
            Ok((ExprModel::Literal(ValueModel::Bool(true)), p + 1))
        } else if name == "false"@ {
            Ok((ExprModel::Literal(ValueModel::Bool(false)), p + 1))
        } else if name == "null"@ {
            Ok((ExprModel::Literal(ValueModel::Null), p + 1))
        } else if peek(t, p + 1) == Some(Tok::LParen) {
            let args = if peek(t, p + 2) == Some(Tok::RParen) {
                Ok((Seq::empty(), p + 2))
            } else {
                p_args(t, p + 2)
            };
            match args {
                Ok((ms, q)) => match peek(t, q) {
                    None => Err(Some("expected ), got end of input"@)),
                    Some(Tok::RParen) => Ok((ExprModel::Call(name, ms), q + 1)),
                    Some(_) => Err(Some("expected ')' after function arguments"@)),
                },
                Err(m) => Err(m),
            }
        } else {
            Err(Some("unknown identifier: "@ + name))
        },
        Some(Tok::LParen) => match p_level(6, t, p + 1) {
            Ok((e, q)) => if peek(t, q) == Some(Tok::RParen) {
                Ok((e, q + 1))
            } else {
                Err(Some("expected ')'"@))
            },
            Err(m) => Err(m),
        },
        Some(tok) => Err(unexpected_message(tok)),
        None => Err(Some("unexpected end of input"@)),
    }
}

/// Call arguments: expressions separated by commas.
pub type ArgsParse = Result<(Seq<ExprModel>, int), Option<Seq<char>>>;

pub open spec fn p_args(t: Seq<Tok>, p: int) -> ArgsParse
    decreases t.len() - p, 9nat, 0nat,
{
    match p_level(6, t, p) {
        Ok((e, p1)) => if p < p1 <= t.len() {
            p_args_tail(t, seq![e], p1)
        } else {
            Ok((seq![e], p1))
        },
        Err(m) => Err(m),
    }
}

pub open spec fn p_args_tail(t: Seq<Tok>, acc: Seq<ExprModel>, p: int) -> ArgsParse
    decreases t.len() - p, 0nat, 0nat,
{
    if peek(t, p) == Some(Tok::Comma) {
        match p_level(6, t, p + 1) {
            Ok((e, p2)) => if p + 1 < p2 <= t.len() {
                p_args_tail(t, acc.push(e), p2)
            } else {
                Ok((acc.push(e), p2))
            },
            Err(m) => Err(m),
        }
    } else {
        Ok((acc, p))
    }
}

/// The meaning of `parse_expression`: the tokens must all go into one
/// expression.
pub open spec fn parse_spec(input: Seq<char>) -> Result<ExprModel, Option<Seq<char>>> {
    let t = lexed(input);
    match p_level(6, t, 0) {
        Ok((e, q)) => if 0 <= q < t.len() {
            Err(unexpected_message(t[q]))
        } else {
            Ok(e)
        },
        Err(m) => Err(m),
    }
}

// ── the parser ──────────────────────────────────────────────────────────

/// The parse result `r`, ending at `pos`, is what `s` says.
pub open spec fn parsed(r: Result<Expression, String>, pos: int, s: Parse) -> bool {
    match s {
        Ok((m, q)) => r matches Ok(e) && conforms(e, m) && pos == q,
        Err(Some(msg)) => r matches Err(x) && x@ == msg,
        Err(None) => r is Err,
    }
}

pub open spec fn parsed_args(r: Result<Vec<Expression>, String>, pos: int, s: ArgsParse) -> bool {
    match s {
        Ok((ms, q)) => r matches Ok(v) && v@.len() == ms.len() && (forall|i: int|
            0 <= i < ms.len() ==> conforms(#[trigger] v@[i], ms[i])) && pos == q,
        Err(Some(msg)) => r matches Err(x) && x@ == msg,
        Err(None) => r is Err,
    }
}

/// Each float literal of `e`, standing where `m` has the literal's text, holds
/// the number that the `FloatArith` reads from that text (`float_parsed`).
pub open spec fn floats_parsed<F: FloatArith + ?Sized>(arith: &F, e: Expression, m: ExprModel) -> bool
    decreases e,
{
    match (e, m) {
        (Expression::Literal(v), ExprModel::FloatLit(t)) => float_read(arith, t, v),
        (Expression::Not(a), ExprModel::Not(b)) => floats_parsed(arith, *a, *b),
        (Expression::Or(a1, a2), ExprModel::Bin(_, b1, b2)) => floats_parsed(arith, *a1, *b1)
            && floats_parsed(arith, *a2, *b2),
        (Expression::And(a1, a2), ExprModel::Bin(_, b1, b2)) => floats_parsed(arith, *a1, *b1)
            && floats_parsed(arith, *a2, *b2),
        (Expression::Eq(a1, a2), ExprModel::Bin(_, b1, b2)) => floats_parsed(arith, *a1, *b1)
            && floats_parsed(arith, *a2, *b2),
        (Expression::NotEq(a1, a2), ExprModel::Bin(_, b1, b2)) => floats_parsed(arith, *a1, *b1)
            && floats_parsed(arith, *a2, *b2),
        (Expression::Lt(a1, a2), ExprModel::Bin(_, b1, b2)) => floats_parsed(arith, *a1, *b1)
            && floats_parsed(arith, *a2, *b2),
        (Expression::Lte(a1, a2), ExprModel::Bin(_, b1, b2)) => floats_parsed(arith, *a1, *b1)
            && floats_parsed(arith, *a2, *b2),
        (Expression::Gt(a1, a2), ExprModel::Bin(_, b1, b2)) => floats_parsed(arith, *a1, *b1)
            && floats_parsed(arith, *a2, *b2),
        (Expression::Gte(a1, a2), ExprModel::Bin(_, b1, b2)) => floats_parsed(arith, *a1, *b1)
            && floats_parsed(arith, *a2, *b2),
        (Expression::Add(a1, a2), ExprModel::Bin(_, b1, b2)) => floats_parsed(arith, *a1, *b1)
            && floats_parsed(arith, *a2, *b2),
        (Expression::Sub(a1, a2), ExprModel::Bin(_, b1, b2)) => floats_parsed(arith, *a1, *b1)
            && floats_parsed(arith, *a2, *b2),
        (Expression::Mul(a1, a2), ExprModel::Bin(_, b1, b2)) => floats_parsed(arith, *a1, *b1)
            && floats_parsed(arith, *a2, *b2),
        (Expression::Div(a1, a2), ExprModel::Bin(_, b1, b2)) => floats_parsed(arith, *a1, *b1)
            && floats_parsed(arith, *a2, *b2),
        (Expression::Call { args, .. }, ExprModel::Call(_, ms)) => forall|i: int|
            0 <= i < ms.len() && i < args@.len() ==> floats_parsed(arith, #[trigger] args@[i], ms[i]),
        _ => true,
    }
}

/// The two operands of a binary expression.
pub open spec fn operands(e: Expression) -> Option<(Expression, Expression)> {
    match e {
        Expression::Or(a1, a2) => Some((*a1, *a2)),
        Expression::And(a1, a2) => Some((*a1, *a2)),
        Expression::Eq(a1, a2) => Some((*a1, *a2)),
        Expression::NotEq(a1, a2) => Some((*a1, *a2)),
        Expression::Lt(a1, a2) => Some((*a1, *a2)),
        Expression::Lte(a1, a2) => Some((*a1, *a2)),
        Expression::Gt(a1, a2) => Some((*a1, *a2)),
        Expression::Gte(a1, a2) => Some((*a1, *a2)),
        Expression::Add(a1, a2) => Some((*a1, *a2)),
        Expression::Sub(a1, a2) => Some((*a1, *a2)),
        Expression::Mul(a1, a2) => Some((*a1, *a2)),
        Expression::Div(a1, a2) => Some((*a1, *a2)),
        _ => None,
    }
}

/// Where the parse `s` succeeds, the float literals of `r` are those of its tree.
pub open spec fn parsed_floats<F: FloatArith + ?Sized>(arith: &F, r: Result<Expression, String>, s: Parse) -> bool {
    match (r, s) {
        (Ok(e), Ok((m, _))) => floats_parsed(arith, e, m),
        _ => true,
    }
}

pub open spec fn parsed_args_floats<F: FloatArith + ?Sized>(
    arith: &F,
    r: Result<Vec<Expression>, String>,
    s: ArgsParse,
) -> bool {
    match (r, s) {
        (Ok(v), Ok((ms, _))) => forall|i: int|
            0 <= i < ms.len() && i < v@.len() ==> floats_parsed(arith, #[trigger] v@[i], ms[i]),
        _ => true,
    }
}

/// The `Debug` text of a token; a float's is the `FloatArith`'s.
fn token_debug_exec<F: FloatArith + ?Sized>(t: &Token, arith: &F) -> (r: String)
    ensures
        !(t is Float) ==> r@ == token_debug(t.model()),
{
    match t {
        Token::StateRef(s) => concat3("StateRef(", debug_text(s.as_str()).as_str(), ")"),
        Token::Int(n) => concat3("Int(", int_to_string(*n).as_str(), ")"),
        Token::Float(s) => concat3(
            "Float(",
            arith.float_debug(arith.float_parse(s.as_str())).as_str(),
            ")",
        ),
        Token::StringLit(s) => concat3("StringLit(", debug_text(s.as_str()).as_str(), ")"),
        Token::Ident(s) => concat3("Ident(", debug_text(s.as_str()).as_str(), ")"),
        Token::LParen => String::from_str("LParen"),
        Token::RParen => String::from_str("RParen"),
        Token::Comma => String::from_str("Comma"),
        Token::Bang => String::from_str("Bang"),
        Token::AndAnd => String::from_str("AndAnd"),
        Token::OrOr => String::from_str("OrOr"),
        Token::EqEq => String::from_str("EqEq"),
        Token::NotEq => String::from_str("NotEq"),
        Token::LtEq => String::from_str("LtEq"),
        Token::GtEq => String::from_str("GtEq"),
        Token::Lt => String::from_str("Lt"),
        Token::Gt => String::from_str("Gt"),
        Token::Plus => String::from_str("Plus"),
        Token::Minus => String::from_str("Minus"),
        Token::Star => String::from_str("Star"),
        Token::Slash => String::from_str("Slash"),
    }
}

fn unexpected<F: FloatArith + ?Sized>(t: &Token, arith: &F) -> (r: String)
    ensures
        unexpected_message(t.model()) matches Some(m) ==> r@ == m,
{
    concat2("unexpected token: ", token_debug_exec(t, arith).as_str())
}

/// Whether `t` is an operator of level `k`.
fn is_level_op(k: u8, t: &Token) -> (r: bool)
    ensures
        r == level_op(k as nat, t.model()) is Some,
{
    match t {
        Token::OrOr => k == 6,
        Token::AndAnd => k == 5,
        Token::EqEq => k == 4,
        Token::NotEq => k == 4,
        Token::Lt => k == 3,
        Token::Gt => k == 3,
        Token::LtEq => k == 3,
        Token::GtEq => k == 3,
        Token::Plus => k == 2,
        Token::Minus => k == 2,
        Token::Star => k == 1,
        Token::Slash => k == 1,
        _ => false,
    }
}

/// Join two operands with the operator that `t` stands for at level `k`.
fn combine(k: u8, t: &Token, l: Expression, r: Expression, Ghost(lm): Ghost<ExprModel>, Ghost(
    rm,
): Ghost<ExprModel>) -> (e: Expression)
    requires
        level_op(k as nat, t.model()) is Some,
        conforms(l, lm),
        conforms(r, rm),
    ensures
        conforms(e, ExprModel::Bin(level_op(k as nat, t.model())->0, Box::new(lm), Box::new(rm))),
        operands(e) == Some((l, r)),
{
    let (bl, br) = (Box::new(l), Box::new(r));
    match t {
        Token::OrOr => Expression::Or(bl, br),
        Token::AndAnd => Expression::And(bl, br),
        Token::EqEq => Expression::Eq(bl, br),
        Token::NotEq => Expression::NotEq(bl, br),
        Token::Lt => Expression::Lt(bl, br),
        Token::Gt => Expression::Gt(bl, br),
        Token::LtEq => Expression::Lte(bl, br),
        Token::GtEq => Expression::Gte(bl, br),
        Token::Plus => Expression::Add(bl, br),
        Token::Minus => Expression::Sub(bl, br),
        Token::Star => Expression::Mul(bl, br),
        _ => Expression::Div(bl, br),
    }
}

struct Parser {
    tokens: Vec<Token>,
    pos: usize,
}

impl Parser {
    spec fn toks(&self) -> Seq<Tok> {
        tokens_model(self.tokens@)
    }

    fn peek(&self) -> (r: Option<&Token>)
        ensures
            match r {
                Some(t) => peek(self.toks(), self.pos as int) == Some(t.model()),
                None => peek(self.toks(), self.pos as int) is None,
            },
    {
        if self.pos < self.tokens.len() {
            Some(&self.tokens[self.pos])
        } else {
            None
        }
    }

    fn peek_is_rparen(&self) -> (r: bool)
        ensures
            r == (peek(self.toks(), self.pos as int) == Some(Tok::RParen)),
    {
        match self.peek() {
            Some(Token::RParen) => true,
            _ => false,
        }
    }

    /// An operand of level `k`.
    fn parse_operand<F: FloatArith + ?Sized>(&mut self, k: u8, arith: &F) -> (r: Result<Expression, String>)
        requires
            old(self).pos <= old(self).tokens.len(),
            k <= 6,
        ensures
            final(self).tokens == old(self).tokens,
            final(self).pos <= final(self).tokens.len(),
            r is Ok ==> old(self).pos < final(self).pos,
            parsed(r, final(self).pos as int, p_operand(k as nat, old(self).toks(), old(self).pos as int)),
            parsed_floats(arith, r, p_operand(k as nat, old(self).toks(), old(self).pos as int)),
        decreases old(self).tokens.len() - old(self).pos, k + 2, 1nat,
    {
        if k <= 1 {
            self.parse_unary(arith)
        } else {
            self.parse_level(k - 1, arith)
        }
    }

    /// Level `k`: `||` at 6 down to `*` `/` at 1.
    fn parse_level<F: FloatArith + ?Sized>(&mut self, k: u8, arith: &F) -> (r: Result<Expression, String>)
        requires
            old(self).pos <= old(self).tokens.len(),
            k <= 6,
        ensures
            final(self).tokens == old(self).tokens,
            final(self).pos <= final(self).tokens.len(),
            r is Ok ==> old(self).pos < final(self).pos,
            parsed(r, final(self).pos as int, p_level(k as nat, old(self).toks(), old(self).pos as int)),
            parsed_floats(arith, r, p_level(k as nat, old(self).toks(), old(self).pos as int)),
        decreases old(self).tokens.len() - old(self).pos, k + 2, 2nat,
    {
        let ghost t = self.toks();
        let ghost p = self.pos as int;
        let left = match self.parse_operand(k, arith) {
            Ok(e) => e,
            Err(m) => {
                return Err(m);
            },
        };
        let ghost lm = p_operand(k as nat, t, p)->Ok_0.0;
        self.parse_tail(k, left, Ghost(lm), arith)
    }

    /// The rest of level `k` after the left operand.
    fn parse_tail<F: FloatArith + ?Sized>(&mut self, k: u8, left: Expression, Ghost(lm): Ghost<ExprModel>, arith: &F) -> (r: Result<
        Expression,
        String,
    >)
        requires
            old(self).pos <= old(self).tokens.len(),
            k <= 6,
            conforms(left, lm),
            floats_parsed(arith, left, lm),
        ensures
            final(self).tokens == old(self).tokens,
            final(self).pos <= final(self).tokens.len(),
            r is Ok ==> old(self).pos <= final(self).pos,
            parsed(r, final(self).pos as int, p_tail(k as nat, old(self).toks(), lm, old(self).pos as int)),
            parsed_floats(arith, r, p_tail(k as nat, old(self).toks(), lm, old(self).pos as int)),
        decreases old(self).tokens.len() - old(self).pos, 0nat, 0nat,
    {
        let ghost t = self.toks();
        let ghost p = self.pos as int;
        let is_op = match self.peek() {
            Some(tok) => is_level_op(k, tok),
            None => false,
        };
        if !is_op {
            return Ok(left);
        }
        let at = self.pos;
        self.pos = self.pos + 1;
        let right = match self.parse_operand(k, arith) {
            Ok(e) => e,
            Err(m) => {
                return Err(m);
            },
        };
        let ghost rm = p_operand(k as nat, t, p + 1)->Ok_0.0;
        let e = combine(k, &self.tokens[at], left, right, Ghost(lm), Ghost(rm));
        let ghost em = ExprModel::Bin(level_op(k as nat, t[p])->0, Box::new(lm), Box::new(rm));
        self.parse_tail(k, e, Ghost(em), arith)
    }

    /// Prefix `!`.
    fn parse_unary<F: FloatArith + ?Sized>(&mut self, arith: &F) -> (r: Result<Expression, String>)
        requires
            old(self).pos <= old(self).tokens.len(),
        ensures
            final(self).tokens == old(self).tokens,
            final(self).pos <= final(self).tokens.len(),
            r is Ok ==> old(self).pos < final(self).pos,
            parsed(r, final(self).pos as int, p_unary(old(self).toks(), old(self).pos as int)),
            parsed_floats(arith, r, p_unary(old(self).toks(), old(self).pos as int)),
        decreases old(self).tokens.len() - old(self).pos, 2nat, 0nat,
    {
        let bang = match self.peek() {
            Some(Token::Bang) => true,
            _ => false,
        };
        if bang {
            self.pos = self.pos + 1;
            return match self.parse_unary(arith) {
                Ok(inner) => Ok(Expression::Not(Box::new(inner))),
                Err(m) => Err(m),
            };
        }
        self.parse_primary(arith)
    }

    /// Literals, state refs, function calls, parenthesized expressions.
    fn parse_primary<F: FloatArith + ?Sized>(&mut self, arith: &F) -> (r: Result<Expression, String>)
        requires
            old(self).pos <= old(self).tokens.len(),
        ensures
            final(self).tokens == old(self).tokens,
            final(self).pos <= final(self).tokens.len(),
            r is Ok ==> old(self).pos < final(self).pos,
            parsed(r, final(self).pos as int, p_primary(old(self).toks(), old(self).pos as int)),
            parsed_floats(arith, r, p_primary(old(self).toks(), old(self).pos as int)),
        decreases old(self).tokens.len() - old(self).pos, 1nat, 0nat,
    {
        let ghost t = self.toks();
        let ghost p = self.pos as int;
        if self.pos >= self.tokens.len() {
            return Err(String::from_str("unexpected end of input"));
        }
        let at = self.pos;
        proof {
            reveal_strlit("true");
            reveal_strlit("false");
            reveal_strlit("null");
        }
        match &self.tokens[at] {
            Token::Int(n) => {
                let v = *n;
                self.pos = at + 1;
                Ok(Expression::Literal(Value::Int(v)))
            },
            Token::Float(s) => {
                let bits = parse_float_bits(s.as_str(), arith);
                assert(float_parsed(arith, s@, bits));
                self.pos = at + 1;
                match Value::float(bits) {
                    Some(v) => Ok(Expression::Literal(v)),
                    None => Ok(Expression::Literal(Value::Null)),
                }
            },
            Token::StringLit(s) => {
                let v = s.clone();
                self.pos = at + 1;
                Ok(Expression::Literal(Value::String(v)))
            },
            Token::StateRef(s) => {
                let v = s.clone();
                self.pos = at + 1;
                Ok(Expression::StateVar(v))
            },
            Token::Ident(name) => {
                let name = name.clone();
                self.pos = at + 1;
                if string_eq_str(&name, "true") {
                    return Ok(Expression::Literal(Value::Bool(true)));
                }
                if string_eq_str(&name, "false") {
                    return Ok(Expression::Literal(Value::Bool(false)));
                }
                if string_eq_str(&name, "null") {
                    return Ok(Expression::Literal(Value::Null));
                }
                let lparen = match self.peek() {
                    Some(Token::LParen) => true,
                    _ => false,
                };
                if !lparen {
                    return Err(concat2("unknown identifier: ", name.as_str()));
                }
                self.pos = at + 2;
                let args = if self.peek_is_rparen() {
                    Vec::new()
                } else {
                    match self.parse_args(arith) {
                        Ok(a) => a,
                        Err(m) => {
                            return Err(m);
                        },
                    }
                };
                if self.pos >= self.tokens.len() {
                    return Err(String::from_str("expected ), got end of input"));
                }
                if self.peek_is_rparen() {
                    self.pos = self.pos + 1;
                    Ok(Expression::Call { name, args })
                } else {
                    Err(String::from_str("expected ')' after function arguments"))
                }
            },
            Token::LParen => {
                self.pos = at + 1;
                let e = match self.parse_level(6, arith) {
                    Ok(e) => e,
                    Err(m) => {
                        return Err(m);
                    },
                };
                if self.peek_is_rparen() {
                    self.pos = self.pos + 1;
                    Ok(e)
                } else {
                    Err(String::from_str("expected ')'"))
                }
            },
            tok => Err(unexpected(tok, arith)),
        }
    }

    /// Call arguments separated by commas.
    fn parse_args<F: FloatArith + ?Sized>(&mut self, arith: &F) -> (r: Result<Vec<Expression>, String>)
        requires
            old(self).pos <= old(self).tokens.len(),
        ensures
            final(self).tokens == old(self).tokens,
            final(self).pos <= final(self).tokens.len(),
            r is Ok ==> old(self).pos < final(self).pos,
            parsed_args(r, final(self).pos as int, p_args(old(self).toks(), old(self).pos as int)),
            parsed_args_floats(arith, r, p_args(old(self).toks(), old(self).pos as int)),
        decreases old(self).tokens.len() - old(self).pos, 9nat, 0nat,
    {
        let ghost t = self.toks();
        let ghost p = self.pos as int;
        let first = match self.parse_level(6, arith) {
            Ok(e) => e,
            Err(m) => {
                return Err(m);
            },
        };
        let ghost fm = p_level(6, t, p)->Ok_0.0;
        let mut acc: Vec<Expression> = Vec::new();
        acc.push(first);
        let ghost am = seq![fm];
        assert(acc@.len() == 1 && acc@[0] == first);
        self.parse_args_tail(acc, Ghost(am), arith)
    }

    fn parse_args_tail<F: FloatArith + ?Sized>(&mut self, acc: Vec<Expression>, Ghost(am): Ghost<Seq<ExprModel>>, arith: &F) -> (r: Result<
        Vec<Expression>,
        String,
    >)
        requires
            old(self).pos <= old(self).tokens.len(),
            acc@.len() == am.len(),
            forall|i: int| 0 <= i < am.len() ==> conforms(#[trigger] acc@[i], am[i]),
            forall|i: int| 0 <= i < am.len() ==> floats_parsed(arith, #[trigger] acc@[i], am[i]),
        ensures
            final(self).tokens == old(self).tokens,
            final(self).pos <= final(self).tokens.len(),
            r is Ok ==> old(self).pos <= final(self).pos,
            parsed_args(r, final(self).pos as int, p_args_tail(old(self).toks(), am, old(self).pos as int)),
            parsed_args_floats(arith, r, p_args_tail(old(self).toks(), am, old(self).pos as int)),
        decreases old(self).tokens.len() - old(self).pos, 0nat, 0nat,
    {
        let ghost t = self.toks();
        let ghost p = self.pos as int;
        let comma = match self.peek() {
            Some(Token::Comma) => true,
            _ => false,
        };
        if !comma {
            return Ok(acc);
        }
        self.pos = self.pos + 1;
        let e = match self.parse_level(6, arith) {
            Ok(e) => e,
            Err(m) => {
                return Err(m);
            },
        };
        let ghost em = p_level(6, t, p + 1)->Ok_0.0;
        let mut acc = acc;
        acc.push(e);
        let ghost am2 = am.push(em);
        self.parse_args_tail(acc, Ghost(am2), arith)
    }
}

/// Parse an expression string into an `Expression`, or the message of the
/// first error.
pub fn parse_expression<F: FloatArith + ?Sized>(input: &str, arith: &F) -> (r: Result<Expression, String>)
    ensures
        match parse_spec(input@) {
            Ok(m) => r matches Ok(e) && conforms(e, m),
            Err(Some(msg)) => r matches Err(x) && x@ == msg,
            Err(None) => r is Err,
        },
        parse_spec(input@) matches Ok(m) ==> (r matches Ok(e) ==> floats_parsed(arith, e, m)),
{
    let tokens = tokenize(input);
    let mut parser = Parser { tokens, pos: 0 };
    let expr = match parser.parse_level(6, arith) {
        Ok(e) => e,
        Err(m) => {
            return Err(m);
        },
    };
    if parser.pos < parser.tokens.len() {
        return Err(unexpected(&parser.tokens[parser.pos], arith));
    }
    Ok(expr)
}


/// A decimal literal with one dot: digits and dots, led by a digit or by `-`
/// and a digit.
pub open spec fn float_literal_text(t: Seq<char>) -> bool {
    &&& t.len() > 0
    &&& is_digit(t[0]) || (t[0] == '-' && t.len() > 1 && is_digit(t[1]))
    &&& forall|i: int| 1 <= i < t.len() ==> is_digit(#[trigger] t[i]) || t[i] == '.'
    &&& count_char(t, '.') == 1
}

proof fn lemma_scan_number_to_end(s: Seq<char>, i: int)
    requires
        0 <= i <= s.len(),
        forall|k: int| i <= k < s.len() ==> is_digit(#[trigger] s[k]) || s[k] == '.',
    ensures
        scan_number(s, i) == s.len(),
    decreases s.len() - i,
{
    if i < s.len() {
        lemma_scan_number_to_end(s, i + 1);
    }
}

proof fn lemma_single_operand(t: Seq<Tok>, l: ExprModel, k: nat)
    requires
        t.len() == 1,
        p_unary(t, 0) == Ok::<(ExprModel, int), Option<Seq<char>>>((l, 1)),
        1 <= k <= 6,
    ensures
        p_operand(k, t, 0) == Ok::<(ExprModel, int), Option<Seq<char>>>((l, 1)),
        p_level(k, t, 0) == Ok::<(ExprModel, int), Option<Seq<char>>>((l, 1)),
    decreases k,
{
    if k > 1 {
        lemma_single_operand(t, l, (k - 1) as nat);
    }
    assert(peek(t, 1) is None);
    assert(p_tail(k, t, l, 1) == Ok::<(ExprModel, int), Option<Seq<char>>>((l, 1)));
}

/// A float literal standing alone, negative ones included, parses to the
/// literal of its whole text: by `parse_expression`, the `Float` that the
/// `FloatArith` reads from that text, its sign the literal's.
pub proof fn law_float_literal_parses(t: Seq<char>)
    requires
        float_literal_text(t),
    ensures
        parse_spec(t) == Ok::<ExprModel, Option<Seq<char>>>(ExprModel::FloatLit(t)),
{
    lemma_scan_number_to_end(t, 1);
    assert(t.subrange(0, t.len() as int) =~= t);
    let step = lex_step(t, 0, false);
    assert(step == (Some(Tok::Float(t)), t.len() as int));
    assert(tokens_from(t, t.len() as int, true) =~= Seq::<Tok>::empty());
    let ts = lexed(t);
    assert(ts =~= seq![Tok::Float(t)]);
    assert(p_primary(ts, 0) == Ok::<(ExprModel, int), Option<Seq<char>>>((ExprModel::FloatLit(t), 1)));
    assert(p_unary(ts, 0) == Ok::<(ExprModel, int), Option<Seq<char>>>((ExprModel::FloatLit(t), 1)));
    lemma_single_operand(ts, ExprModel::FloatLit(t), 6);
}

} // verus!
