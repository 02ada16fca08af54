//! Tokens: what the lexer hands to the parser.

use crate::span::Span;
use crate::symbol::{symbol_class, symbol_text, Ident, Symbol, SymbolInfo, SymbolTable};
use vstd::prelude::*;
use vstd::string::*;

verus! {

/// A pair of brackets.
#[derive(Clone, Copy, Debug, PartialEq, Eq, Hash, Structural)]
pub enum Delimiter {
    /// `( ... )`
    Parenthesis,
    /// `{ ... }`
    Brace,
    /// `[ ... ]`
    Bracket,
}

/// A binary operator that also has a compound-assignment form.
#[derive(Clone, Copy, Debug, PartialEq, Eq, Hash, Structural)]
pub enum BinOpToken {
    Plus,
    Minus,
    Star,
    Slash,
    Percent,
    Caret,
    And,
    Or,
    Shl,
    Shr,
    Sar,
}

/// The category of a literal.
#[derive(Clone, Copy, Debug, PartialEq, Eq, Hash, Structural)]
pub enum TokenLitKind {
    Integer,
    Rational,
    Str,
    UnicodeStr,
    HexStr,
}

/// The shape of a comment.
#[derive(Clone, Copy, Debug, PartialEq, Eq, Hash, Structural)]
pub enum CommentKind {
    Line,
    Block,
}

/// What a token is.
#[derive(Clone, Copy, Debug, PartialEq, Eq, Hash, Structural)]
pub enum TokenKind {
    /// `=`
    Eq,
    /// `<`
    Lt,
    /// `<=`
    Le,
    /// `==`
    EqEq,
    /// `!=`
    Ne,
    /// `>=`
    Ge,
    /// `>`
    Gt,
    /// `&&`
    AndAnd,
    /// `||`
    OrOr,
    /// `!`
    Not,
    /// `~`
    Tilde,
    /// `:=`
    Walrus,
    /// `++`
    PlusPlus,
    /// `--`
    MinusMinus,
    /// `**`
    StarStar,
    /// A binary operator, such as `+`.
    BinOp(BinOpToken),
    /// A compound assignment, such as `+=`.
    BinOpEq(BinOpToken),
    /// `@`
    At,
    /// `.`
    Dot,
    /// `,`
    Comma,
    /// `;`
    Semi,
    /// `:`
    Colon,
    /// `->`
    Arrow,
    /// `=>`
    FatArrow,
    /// `?`
    Question,
    /// An opening bracket.
    OpenDelim(Delimiter),
    /// A closing bracket.
    CloseDelim(Delimiter),
    /// A literal: its category and its text.
    Literal(TokenLitKind, Symbol),
    /// An identifier or keyword.
    Ident(Symbol),
    /// A comment: whether it documents an item, its shape and its text.
    Comment(bool, CommentKind, Symbol),
    /// The end of the input.
    Eof,
}

/// A token: its kind and the place where it was written.
#[derive(Clone, Copy, Debug, PartialEq, Eq, Hash, Structural)]
pub struct Token {
    pub kind: TokenKind,
    pub span: Span,
}

/// How a binary operator is written.
pub open spec fn binop_text(op: BinOpToken) -> Seq<char> {
    match op {
        BinOpToken::Plus => "+"@,
        BinOpToken::Minus => "-"@,
        BinOpToken::Star => "*"@,
        BinOpToken::Slash => "/"@,
        BinOpToken::Percent => "%"@,
        BinOpToken::Caret => "^"@,
        BinOpToken::And => "&"@,
        BinOpToken::Or => "|"@,
        BinOpToken::Shl => "<<"@,
        BinOpToken::Shr => ">>"@,
        BinOpToken::Sar => ">>>"@,
    }
}

/// How an opening bracket is written.
pub open spec fn open_delim_text(delim: Delimiter) -> Seq<char> {
    match delim {
        Delimiter::Parenthesis => "("@,
        Delimiter::Brace => "{"@,
        Delimiter::Bracket => "["@,
    }
}

/// How a closing bracket is written.
pub open spec fn close_delim_text(delim: Delimiter) -> Seq<char> {
    match delim {
        Delimiter::Parenthesis => ")"@,
        Delimiter::Brace => "}"@,
        Delimiter::Bracket => "]"@,
    }
}

/// What stands in front of a literal's text.
pub open spec fn literal_opening(kind: TokenLitKind) -> Seq<char> {
    match kind {
        TokenLitKind::Integer => ""@,
        TokenLitKind::Rational => ""@,
        TokenLitKind::Str => "\""@,
        TokenLitKind::UnicodeStr => "unicode\""@,
        TokenLitKind::HexStr => "hex\""@,
    }
}

/// What stands behind a literal's text.
pub open spec fn literal_closing(kind: TokenLitKind) -> Seq<char> {
    match kind {
        TokenLitKind::Integer => ""@,
        TokenLitKind::Rational => ""@,
        TokenLitKind::Str => "\""@,
        TokenLitKind::UnicodeStr => "\""@,
        TokenLitKind::HexStr => "\""@,
    }
}

/// How a token of the given kind is written in a message.
pub open spec fn kind_text(kind: TokenKind, table: Seq<SymbolInfo>) -> Seq<char> {
    match kind {
        TokenKind::Eq => "="@,
        TokenKind::Lt => "<"@,
        TokenKind::Le => "<="@,
        TokenKind::EqEq => "=="@,
        TokenKind::Ne => "!="@,
        TokenKind::Ge => ">="@,
        TokenKind::Gt => ">"@,
        TokenKind::AndAnd => "&&"@,
        TokenKind::OrOr => "||"@,
        TokenKind::Not => "!"@,
        TokenKind::Tilde => "~"@,
        TokenKind::Walrus => ":="@,
        TokenKind::PlusPlus => "++"@,
        TokenKind::MinusMinus => "--"@,
        TokenKind::StarStar => "**"@,
        TokenKind::BinOp(op) => binop_text(op),
        TokenKind::BinOpEq(op) => binop_text(op) + "="@,
        TokenKind::At => "@"@,
        TokenKind::Dot => "."@,
        TokenKind::Comma => ","@,
        TokenKind::Semi => ";"@,
        TokenKind::Colon => ":"@,
        TokenKind::Arrow => "->"@,
        TokenKind::FatArrow => "=>"@,
        TokenKind::Question => "?"@,
        TokenKind::OpenDelim(delim) => open_delim_text(delim),
        TokenKind::CloseDelim(delim) => close_delim_text(delim),
        TokenKind::Literal(kind, sym) => literal_opening(kind) + symbol_text(table, sym)
            + literal_closing(kind),
        TokenKind::Ident(sym) => symbol_text(table, sym),
        TokenKind::Comment(_, _, sym) => symbol_text(table, sym),
        TokenKind::Eof => "<eof>"@,
    }
}

impl BinOpToken {
    /// How the operator is written.
    pub fn as_str(&self) -> (s: &'static str)
        ensures
            s@ == binop_text(*self),
    {
        match self {
            BinOpToken::Plus => "+",
            BinOpToken::Minus => "-",
            BinOpToken::Star => "*",
            BinOpToken::Slash => "/",
            BinOpToken::Percent => "%",
            BinOpToken::Caret => "^",
            BinOpToken::And => "&",
            BinOpToken::Or => "|",
            BinOpToken::Shl => "<<",
            BinOpToken::Shr => ">>",
            BinOpToken::Sar => ">>>",
        }
    }
}

impl Delimiter {
    /// How the opening bracket is written.
    pub fn open_str(&self) -> (s: &'static str)
        ensures
            s@ == open_delim_text(*self),
    {
        match self {
            Delimiter::Parenthesis => "(",
            Delimiter::Brace => "{",
            Delimiter::Bracket => "[",
        }
    }

    /// How the closing bracket is written.
    pub fn close_str(&self) -> (s: &'static str)
        ensures
            s@ == close_delim_text(*self),
    {
        match self {
            Delimiter::Parenthesis => ")",
            Delimiter::Brace => "}",
            Delimiter::Bracket => "]",
        }
    }
}

impl TokenLitKind {
    /// What stands in front of the literal's text.
    pub fn opening(&self) -> (s: &'static str)
        ensures
            s@ == literal_opening(*self),
    {
        match self {
            TokenLitKind::Integer => "",
            TokenLitKind::Rational => "",
            TokenLitKind::Str => "\"",
            TokenLitKind::UnicodeStr => "unicode\"",
            TokenLitKind::HexStr => "hex\"",
        }
    }

    /// What stands behind the literal's text.
    pub fn closing(&self) -> (s: &'static str)
        ensures
            s@ == literal_closing(*self),
    {
        match self {
            TokenLitKind::Integer => "",
            TokenLitKind::Rational => "",
            TokenLitKind::Str => "\"",
            TokenLitKind::UnicodeStr => "\"",
            TokenLitKind::HexStr => "\"",
        }
    }
}

impl TokenKind {
    /// Writes the kind as it appears in a message.
    pub fn render(&self, symbols: &SymbolTable) -> (s: String)
        ensures
            s@ == kind_text(*self, symbols@),
    {
        match self {
            TokenKind::Eq => String::from_str("="),
            TokenKind::Lt => String::from_str("<"),
            TokenKind::Le => String::from_str("<="),
            TokenKind::EqEq => String::from_str("=="),
            TokenKind::Ne => String::from_str("!="),
            TokenKind::Ge => String::from_str(">="),
            TokenKind::Gt => String::from_str(">"),
            TokenKind::AndAnd => String::from_str("&&"),
            TokenKind::OrOr => String::from_str("||"),
            TokenKind::Not => String::from_str("!"),
            TokenKind::Tilde => String::from_str("~"),
            TokenKind::Walrus => String::from_str(":="),
            TokenKind::PlusPlus => String::from_str("++"),
            TokenKind::MinusMinus => String::from_str("--"),
            TokenKind::StarStar => String::from_str("**"),
            TokenKind::BinOp(op) => String::from_str(op.as_str()),
            TokenKind::BinOpEq(op) => {
                let mut s = String::from_str(op.as_str());
                s.append("=");
                s
            },
            TokenKind::At => String::from_str("@"),
            TokenKind::Dot => String::from_str("."),
            TokenKind::Comma => String::from_str(","),
            TokenKind::Semi => String::from_str(";"),
            TokenKind::Colon => String::from_str(":"),
            TokenKind::Arrow => String::from_str("->"),
            TokenKind::FatArrow => String::from_str("=>"),
            TokenKind::Question => String::from_str("?"),
            TokenKind::OpenDelim(delim) => String::from_str(delim.open_str()),
            TokenKind::CloseDelim(delim) => String::from_str(delim.close_str()),
            TokenKind::Literal(kind, sym) => {
                let mut s = String::from_str(kind.opening());
                s.append(symbols.text(*sym));
                s.append(kind.closing());
                s
            },
            TokenKind::Ident(sym) => String::from_str(symbols.text(*sym)),
            TokenKind::Comment(_, _, sym) => String::from_str(symbols.text(*sym)),
            TokenKind::Eof => String::from_str("<eof>"),
        }
    }
}

impl Token {
    /// The placeholder that a cursor holds before it has read anything.
    pub open spec fn spec_dummy() -> Token {
        Token { kind: TokenKind::Question, span: Span::spec_dummy() }
    }

    /// The token that stands for the end of the input.
    pub open spec fn spec_eof() -> Token {
        Token { kind: TokenKind::Eof, span: Span::spec_dummy() }
    }

    pub open spec fn spec_is_comment(&self) -> bool {
        self.kind is Comment
    }

    pub open spec fn spec_is_eof(&self) -> bool {
        self.kind is Eof
    }

    pub open spec fn spec_is_ident(&self) -> bool {
        self.kind is Ident
    }

    pub open spec fn spec_is_lit(&self) -> bool {
        self.kind is Literal
    }

    pub open spec fn spec_is_str_lit(&self) -> bool {
        self.kind matches TokenKind::Literal(TokenLitKind::Str, _)
    }

    pub open spec fn spec_is_close_delim(&self) -> bool {
        self.kind is CloseDelim
    }

    pub open spec fn spec_is_keyword(&self, kw: Symbol) -> bool {
        self.kind == TokenKind::Ident(kw)
    }

    /// The identifier that the token holds, if it is one.
    pub open spec fn spec_ident(&self) -> Option<Ident> {
        match self.kind {
            TokenKind::Ident(name) => Some(Ident { name, span: self.span }),
            _ => None,
        }
    }

    /// Whether the token is a word that names an elementary type.
    pub open spec fn spec_is_elementary_type(&self, table: Seq<SymbolInfo>) -> bool {
        match self.kind {
            TokenKind::Ident(name) => symbol_class(table, name).elementary_type,
            _ => false,
        }
    }

    /// Whether the token is an identifier that is free to name something,
    /// inside an assembly block if `yul`.
    pub open spec fn spec_is_non_reserved_ident(&self, table: Seq<SymbolInfo>, yul: bool) -> bool {
        match self.kind {
            TokenKind::Ident(name) => !symbol_class(table, name).spec_is_reserved(yul),
            _ => false,
        }
    }

    #[verifier::when_used_as_spec(spec_dummy)]
    pub fn dummy() -> (t: Token)
        ensures
            t == Token::spec_dummy(),
    {
        Token { kind: TokenKind::Question, span: Span::dummy() }
    }

    #[verifier::when_used_as_spec(spec_eof)]
    pub fn eof() -> (t: Token)
        ensures
            t == Token::spec_eof(),
    {
        Token { kind: TokenKind::Eof, span: Span::dummy() }
    }

    pub fn new(kind: TokenKind, span: Span) -> (t: Token)
        ensures
            t == (Token { kind, span }),
    {
        Token { kind, span }
    }

    #[verifier::when_used_as_spec(spec_is_comment)]
    pub fn is_comment(&self) -> (r: bool)
        ensures
            r == self.spec_is_comment(),
    {
        match self.kind {
            TokenKind::Comment(_, _, _) => true,
            _ => false,
        }
    }

    #[verifier::when_used_as_spec(spec_is_eof)]
    pub fn is_eof(&self) -> (r: bool)
        ensures
            r == self.spec_is_eof(),
    {
        match self.kind {
            TokenKind::Eof => true,
            _ => false,
        }
    }

    #[verifier::when_used_as_spec(spec_is_ident)]
    pub fn is_ident(&self) -> (r: bool)
        ensures
            r == self.spec_is_ident(),
    {
        match self.kind {
            TokenKind::Ident(_) => true,
            _ => false,
        }
    }

    #[verifier::when_used_as_spec(spec_is_lit)]
    pub fn is_lit(&self) -> (r: bool)
        ensures
            r == self.spec_is_lit(),
    {
        match self.kind {
            TokenKind::Literal(_, _) => true,
            _ => false,
        }
    }

    #[verifier::when_used_as_spec(spec_is_str_lit)]
    pub fn is_str_lit(&self) -> (r: bool)
        ensures
            r == self.spec_is_str_lit(),
    {
        match self.kind {
            TokenKind::Literal(TokenLitKind::Str, _) => true,
            _ => false,
        }
    }

    /// Whether the token is a closing bracket of any shape.
    #[verifier::when_used_as_spec(spec_is_close_delim)]
    pub fn is_close_delim(&self) -> (r: bool)
        ensures
            r == self.spec_is_close_delim(),
    {
        match self.kind {
            TokenKind::CloseDelim(_) => true,
            _ => false,
        }
    }

    /// Whether the token is the word `kw`.
    #[verifier::when_used_as_spec(spec_is_keyword)]
    pub fn is_keyword(&self, kw: Symbol) -> (r: bool)
        ensures
            r == self.spec_is_keyword(kw),
    {
        match self.kind {
            TokenKind::Ident(name) => name == kw,
            _ => false,
        }
    }

    #[verifier::when_used_as_spec(spec_ident)]
    pub fn ident(&self) -> (r: Option<Ident>)
        ensures
            r == self.spec_ident(),
    {
        match self.kind {
            TokenKind::Ident(name) => Some(Ident { name, span: self.span }),
            _ => None,
        }
    }

    pub fn is_elementary_type(&self, symbols: &SymbolTable) -> (r: bool)
        ensures
            r == self.spec_is_elementary_type(symbols@),
    {
        match self.kind {
            TokenKind::Ident(name) => symbols.class(name).elementary_type,
            _ => false,
        }
    }

    pub fn is_non_reserved_ident(&self, symbols: &SymbolTable, yul: bool) -> (r: bool)
        ensures
            r == self.spec_is_non_reserved_ident(symbols@, yul),
    {
        match self.kind {
            TokenKind::Ident(name) => !symbols.class(name).is_reserved(yul),
            _ => false,
        }
    }

    /// Writes the token as a message describes it: its kind between backticks.
    pub fn full_description(&self, symbols: &SymbolTable) -> (s: String)
        ensures
            s@ == crate::text::backticked(kind_text(self.kind, symbols@)),
    {
        let text = self.kind.render(symbols);
        crate::text::backtick(text.as_str())
    }
}

} // verus!
