//! Tokens and their kinds.

use vstd::prelude::*;
use crate::source::Span;
use crate::text::string_from;

verus! {

#[derive(Debug, Clone, Copy, PartialEq, Eq, Structural)]
pub enum TokenKind {
    IntLit,
    FloatLit,
    StringLit,
    Ident,
    KwDef,
    KwLet,
    KwMut,
    KwData,
    KwReturn,
    KwIf,
    KwElif,
    KwElse,
    KwTypeclass,
    KwImpl,
    KwFor,
    KwIn,
    KwWhile,
    KwImport,
    KwFrom,
    KwAs,
    KwAnd,
    KwOr,
    KwNot,
    KwTrue,
    KwFalse,
    KwNone,
    Plus,
    Minus,
    Star,
    Slash,
    LParen,
    RParen,
    LBracket,
    RBracket,
    Colon,
    Comma,
    Dot,
    Arrow,
    Eq,
    EqEq,
    BangEq,
    Lt,
    Gt,
    LtEq,
    GtEq,
    Newline,
    Indent,
    Dedent,
    Eof,
}

/// The keyword spelled `text`, if it is one.
pub open spec fn keyword_of(text: Seq<char>) -> Option<TokenKind> {
    if text == "def"@ { Some(TokenKind::KwDef) }
    else if text == "let"@ { Some(TokenKind::KwLet) }
    else if text == "mut"@ { Some(TokenKind::KwMut) }
    else if text == "data"@ { Some(TokenKind::KwData) }
    else if text == "return"@ { Some(TokenKind::KwReturn) }
    else if text == "if"@ { Some(TokenKind::KwIf) }
    else if text == "elif"@ { Some(TokenKind::KwElif) }
    else if text == "else"@ { Some(TokenKind::KwElse) }
    else if text == "typeclass"@ { Some(TokenKind::KwTypeclass) }
    else if text == "impl"@ { Some(TokenKind::KwImpl) }
    else if text == "for"@ { Some(TokenKind::KwFor) }
    else if text == "in"@ { Some(TokenKind::KwIn) }
    else if text == "while"@ { Some(TokenKind::KwWhile) }
    else if text == "import"@ { Some(TokenKind::KwImport) }
    else if text == "from"@ { Some(TokenKind::KwFrom) }
    else if text == "as"@ { Some(TokenKind::KwAs) }
    else if text == "and"@ { Some(TokenKind::KwAnd) }
    else if text == "or"@ { Some(TokenKind::KwOr) }
    else if text == "not"@ { Some(TokenKind::KwNot) }
    else if text == "True"@ { Some(TokenKind::KwTrue) }
    else if text == "False"@ { Some(TokenKind::KwFalse) }
    else if text == "None"@ { Some(TokenKind::KwNone) }
    else { None }
}

fn is(text: &String, word: &str) -> (r: bool)
    ensures
        r == (text@ == word@),
{
    let w = string_from(word);
    text.eq(&w)
}

/// The keyword spelled `text`, if it is one.
pub fn lookup_keyword(text: &String) -> (r: Option<TokenKind>)
    ensures
        r == keyword_of(text@),
{
    if is(text, "def") { Some(TokenKind::KwDef) }
    else if is(text, "let") { Some(TokenKind::KwLet) }
    else if is(text, "mut") { Some(TokenKind::KwMut) }
    else if is(text, "data") { Some(TokenKind::KwData) }
    else if is(text, "return") { Some(TokenKind::KwReturn) }
    else if is(text, "if") { Some(TokenKind::KwIf) }
    else if is(text, "elif") { Some(TokenKind::KwElif) }
    else if is(text, "else") { Some(TokenKind::KwElse) }
    else if is(text, "typeclass") { Some(TokenKind::KwTypeclass) }
    else if is(text, "impl") { Some(TokenKind::KwImpl) }
    else if is(text, "for") { Some(TokenKind::KwFor) }
    else if is(text, "in") { Some(TokenKind::KwIn) }
    else if is(text, "while") { Some(TokenKind::KwWhile) }
    else if is(text, "import") { Some(TokenKind::KwImport) }
    else if is(text, "from") { Some(TokenKind::KwFrom) }
    else if is(text, "as") { Some(TokenKind::KwAs) }
    else if is(text, "and") { Some(TokenKind::KwAnd) }
    else if is(text, "or") { Some(TokenKind::KwOr) }
    else if is(text, "not") { Some(TokenKind::KwNot) }
    else if is(text, "True") { Some(TokenKind::KwTrue) }
    else if is(text, "False") { Some(TokenKind::KwFalse) }
    else if is(text, "None") { Some(TokenKind::KwNone) }
    else { None }
}

impl TokenKind {
    /// How the kind is named in messages.
    pub open spec fn spec_name(self) -> Seq<char> {
        match self {
            TokenKind::IntLit => "integer literal"@,
            TokenKind::FloatLit => "float literal"@,
            TokenKind::StringLit => "string literal"@,
            TokenKind::Ident => "identifier"@,
            TokenKind::KwDef => "'def'"@,
            TokenKind::KwLet => "'let'"@,
            TokenKind::KwMut => "'mut'"@,
            TokenKind::KwData => "'data'"@,
            TokenKind::KwReturn => "'return'"@,
            TokenKind::KwIf => "'if'"@,
            TokenKind::KwElif => "'elif'"@,
            TokenKind::KwElse => "'else'"@,
            TokenKind::KwTypeclass => "'typeclass'"@,
            TokenKind::KwImpl => "'impl'"@,
            TokenKind::KwFor => "'for'"@,
            TokenKind::KwIn => "'in'"@,
            TokenKind::KwWhile => "'while'"@,
            TokenKind::KwImport => "'import'"@,
            TokenKind::KwFrom => "'from'"@,
            TokenKind::KwAs => "'as'"@,
            TokenKind::KwAnd => "'and'"@,
            TokenKind::KwOr => "'or'"@,
            TokenKind::KwNot => "'not'"@,
            TokenKind::KwTrue => "'True'"@,
            TokenKind::KwFalse => "'False'"@,
            TokenKind::KwNone => "'None'"@,
            TokenKind::Plus => "'+'"@,
            TokenKind::Minus => "'-'"@,
            TokenKind::Star => "'*'"@,
            TokenKind::Slash => "'/'"@,
            TokenKind::LParen => "'('"@,
            TokenKind::RParen => "')'"@,
            TokenKind::LBracket => "'['"@,
            TokenKind::RBracket => "']'"@,
            TokenKind::Colon => "':'"@,
            TokenKind::Comma => "','"@,
            TokenKind::Dot => "'.'"@,
            TokenKind::Arrow => "'->'"@,
            TokenKind::Eq => "'='"@,
            TokenKind::EqEq => "'=='"@,
            TokenKind::BangEq => "'!='"@,
            TokenKind::Lt => "'<'"@,
            TokenKind::Gt => "'>'"@,
            TokenKind::LtEq => "'<='"@,
            TokenKind::GtEq => "'>='"@,
            TokenKind::Newline => "newline"@,
            TokenKind::Indent => "indent"@,
            TokenKind::Dedent => "dedent"@,
            TokenKind::Eof => "end of file"@,
        }
    }

    /// The name of the kind as used in messages.
    pub fn name(&self) -> (s: &'static str)
        ensures
            s@ == self.spec_name(),
    {
        match self {
            TokenKind::IntLit => "integer literal",
            TokenKind::FloatLit => "float literal",
            TokenKind::StringLit => "string literal",
            TokenKind::Ident => "identifier",
            TokenKind::KwDef => "'def'",
            TokenKind::KwLet => "'let'",
            TokenKind::KwMut => "'mut'",
            TokenKind::KwData => "'data'",
            TokenKind::KwReturn => "'return'",
            TokenKind::KwIf => "'if'",
            TokenKind::KwElif => "'elif'",
            TokenKind::KwElse => "'else'",
            TokenKind::KwTypeclass => "'typeclass'",
            TokenKind::KwImpl => "'impl'",
            TokenKind::KwFor => "'for'",
            TokenKind::KwIn => "'in'",
            TokenKind::KwWhile => "'while'",
            TokenKind::KwImport => "'import'",
            TokenKind::KwFrom => "'from'",
            TokenKind::KwAs => "'as'",
            TokenKind::KwAnd => "'and'",
            TokenKind::KwOr => "'or'",
            TokenKind::KwNot => "'not'",
            TokenKind::KwTrue => "'True'",
            TokenKind::KwFalse => "'False'",
            TokenKind::KwNone => "'None'",
            TokenKind::Plus => "'+'",
            TokenKind::Minus => "'-'",
            TokenKind::Star => "'*'",
            TokenKind::Slash => "'/'",
            TokenKind::LParen => "'('",
            TokenKind::RParen => "')'",
            TokenKind::LBracket => "'['",
            TokenKind::RBracket => "']'",
            TokenKind::Colon => "':'",
            TokenKind::Comma => "','",
            TokenKind::Dot => "'.'",
            TokenKind::Arrow => "'->'",
            TokenKind::Eq => "'='",
            TokenKind::EqEq => "'=='",
            TokenKind::BangEq => "'!='",
            TokenKind::Lt => "'<'",
            TokenKind::Gt => "'>'",
            TokenKind::LtEq => "'<='",
            TokenKind::GtEq => "'>='",
            TokenKind::Newline => "newline",
            TokenKind::Indent => "indent",
            TokenKind::Dedent => "dedent",
            TokenKind::Eof => "end of file",
        }
    }
}

/// A token: its kind, its text (the decoded value for string literals) and its span.
#[derive(Debug, Clone)]
pub struct Token {
    pub kind: TokenKind,
    pub text: String,
    pub span: Span,
}

/// What a token holds, with its text as characters.
pub struct TokenView {
    pub kind: TokenKind,
    pub text: Seq<char>,
    pub span: Span,
}

impl View for Token {
    type V = TokenView;

    open spec fn view(&self) -> TokenView {
        TokenView { kind: self.kind, text: self.text@, span: self.span }
    }
}

/// The views of a sequence of tokens.
pub open spec fn tokens_view(ts: Seq<Token>) -> Seq<TokenView> {
    Seq::new(ts.len(), |i: int| ts[i]@)
}

} // verus!
