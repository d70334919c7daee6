//! Tokens: the closed set of token kinds, their source positions, and the
//! exact raw source text each token stands for.

use vstd::prelude::*;

use crate::position::Location;

verus! {

/// The quote character a string literal was written with.
#[derive(Clone, Copy, PartialEq, Eq, Structural, Debug)]
pub enum QuoteStyle {
    Single,
    Double,
}

/// Whether a comment was written with `//` or with `/* ... */`.
#[derive(Clone, Copy, PartialEq, Eq, Structural, Debug)]
pub enum CommentStyle {
    SingleLine,
    MultiLine,
}

/// The quote character of a quote style.
pub open spec fn quote_char(q: QuoteStyle) -> char {
    match q {
        QuoteStyle::Single => '\'',
        QuoteStyle::Double => '"',
    }
}

impl QuoteStyle {
    /// The quote character of this quote style, as written in the source.
    pub fn to_char(&self) -> (c: char)
        ensures
            c == quote_char(*self),
    {
        match self {
            QuoteStyle::Single => '\'',
            QuoteStyle::Double => '"',
        }
    }
}

/// The classified form of a token.  Payload-carrying variants hold the raw
/// source text (for string literals: the text between the quotes, escape
/// sequences preserved as written; for comments: the text without the
/// delimiters).
#[derive(Debug, PartialEq, Eq)]
pub enum TokenType {
    Comment(String, CommentStyle),
    Div,
    DivEqual,
    String(String, QuoteStyle),
    WhiteSpace(String),
    Number(String),
    Arrow,
    TripleEquals,
    DoubleEquals,
    Equals,
    NotTripleEquals,
    NotEquals,
    Bang,
    LogicalAnd,
    BinaryAndEquals,
    BinaryAnd,
    LogicalOr,
    BinaryOrEquals,
    BinaryOr,
    BinaryXorEquals,
    BinaryXor,
    Decrement,
    MinusEquals,
    Minus,
    Increment,
    PlusEquals,
    Plus,
    GreaterThanEqualTo,
    RightShiftEquals,
    TripleRightShiftEquals,
    TripleRightShift,
    RightShift,
    GreaterThan,
    LeftShiftEquals,
    LeftShift,
    LessThanEqualTo,
    LessThan,
    Ellipsis,
    Period,
    LeftBrace,
    RightBrace,
    LeftParen,
    RightParen,
    LeftBracket,
    RightBracket,
    Colon,
    Comma,
    Tilde,
    Semicolon,
    Question,
    Power,
    PowerEquals,
    Times,
    TimesEquals,
    Percent,
    PercentEquals,
}

/// The mathematical form of a token type: payload texts as character
/// sequences; fixed operators and punctuators stand for themselves.
pub enum TokenKind {
    WhiteSpace(Seq<char>),
    Comment(Seq<char>, CommentStyle),
    Str(Seq<char>, QuoteStyle),
    Number(Seq<char>),
    Op(TokenType),
}

impl View for TokenType {
    type V = TokenKind;

    open spec fn view(&self) -> TokenKind {
        match self {
            TokenType::WhiteSpace(s) => TokenKind::WhiteSpace(s@),
            TokenType::Comment(s, style) => TokenKind::Comment(s@, *style),
            TokenType::String(s, q) => TokenKind::Str(s@, *q),
            TokenType::Number(s) => TokenKind::Number(s@),
            t => TokenKind::Op(*t),
        }
    }
}

/// The exact source text that a token kind stands for: the payload text with
/// its delimiters put back, or the fixed spelling of an operator.
pub open spec fn kind_raw(k: TokenKind) -> Seq<char> {
    match k {
        TokenKind::WhiteSpace(s) => s,
        TokenKind::Comment(s, CommentStyle::SingleLine) => "//"@ + s,
        TokenKind::Comment(s, CommentStyle::MultiLine) => "/*"@ + s + "*/"@,
        TokenKind::Str(s, q) => seq![quote_char(q)] + s + seq![quote_char(q)],
        TokenKind::Number(s) => s,
        TokenKind::Op(t) => op_raw(t),
    }
}

/// The fixed spelling of an operator or punctuator token type.  For the
/// payload-carrying variants (which are not operators) this is not used;
/// their arms are given here only to keep the match total.
pub open spec fn op_raw(t: TokenType) -> Seq<char> {
    match t {
        TokenType::Comment(_, _) => Seq::empty(),
        TokenType::String(_, _) => Seq::empty(),
        TokenType::WhiteSpace(_) => Seq::empty(),
        TokenType::Number(_) => Seq::empty(),
        TokenType::Div => "/"@,
        TokenType::DivEqual => "/="@,
        TokenType::Arrow => "=>"@,
        TokenType::TripleEquals => "==="@,
        TokenType::DoubleEquals => "=="@,
        TokenType::Equals => "="@,
        TokenType::NotTripleEquals => "!=="@,
        TokenType::NotEquals => "!="@,
        TokenType::Bang => "!"@,
        TokenType::LogicalAnd => "&&"@,
        TokenType::BinaryAndEquals => "&="@,
        TokenType::BinaryAnd => "&"@,
        TokenType::LogicalOr => "||"@,
        TokenType::BinaryOrEquals => "|="@,
        TokenType::BinaryOr => "|"@,
        TokenType::BinaryXorEquals => "^="@,
        TokenType::BinaryXor => "^"@,
        TokenType::Decrement => "--"@,
        TokenType::MinusEquals => "-="@,
        TokenType::Minus => "-"@,
        TokenType::Increment => "++"@,
        TokenType::PlusEquals => "+="@,
        TokenType::Plus => "+"@,
        TokenType::GreaterThanEqualTo => ">="@,
        TokenType::RightShiftEquals => ">>="@,
        TokenType::TripleRightShiftEquals => ">>>="@,
        TokenType::TripleRightShift => ">>>"@,
        TokenType::RightShift => ">>"@,
        TokenType::GreaterThan => ">"@,
        TokenType::LeftShiftEquals => "<<="@,
        TokenType::LeftShift => "<<"@,
        TokenType::LessThanEqualTo => "<="@,
        TokenType::LessThan => "<"@,
        TokenType::Ellipsis => "..."@,
        TokenType::Period => "."@,
        TokenType::LeftBrace => "{"@,
        TokenType::RightBrace => "}"@,
        TokenType::LeftParen => "("@,
        TokenType::RightParen => ")"@,
        TokenType::LeftBracket => "["@,
        TokenType::RightBracket => "]"@,
        TokenType::Colon => ":"@,
        TokenType::Comma => ","@,
        TokenType::Tilde => "~"@,
        TokenType::Semicolon => ";"@,
        TokenType::Question => "?"@,
        TokenType::Power => "**"@,
        TokenType::PowerEquals => "**="@,
        TokenType::Times => "*"@,
        TokenType::TimesEquals => "*="@,
        TokenType::Percent => "%"@,
        TokenType::PercentEquals => "%="@,
    }
}

/// The exact source text of a token type.
pub open spec fn token_raw(t: TokenType) -> Seq<char> {
    kind_raw(t@)
}

/// A completed token: the position of its first character and its classified
/// form.
#[derive(Debug, PartialEq, Eq)]
pub struct Token {
    pub column: u32,
    pub line: u32,
    pub typ: TokenType,
}

/// The mathematical form of a token.
pub struct TokenView {
    pub line: int,
    pub column: int,
    pub kind: TokenKind,
}

impl View for Token {
    type V = TokenView;

    open spec fn view(&self) -> TokenView {
        TokenView { line: self.line as int, column: self.column as int, kind: self.typ@ }
    }
}

impl Token {
    pub fn new(loc: Location, typ: TokenType) -> (t: Token)
        ensures
            t.line == loc.line,
            t.column == loc.column,
            t.typ == typ,
    {
        Token { column: loc.column, line: loc.line, typ }
    }
}

} // verus!

use vstd::string::StringExecFns;

verus! {

impl TokenType {
    /// The exact source text of this token type, rebuilt from its classified
    /// form: the payload text with its delimiters put back, or the fixed
    /// spelling of an operator.
    pub fn text(&self) -> (r: String)
        ensures
            r@ == token_raw(*self),
    {
        match self {
            TokenType::WhiteSpace(x) => x.clone(),
            TokenType::Number(x) => x.clone(),
            TokenType::String(x, q) => {
                let quote = match q {
                    QuoteStyle::Single => "'",
                    QuoteStyle::Double => "\"",
                };
                let mut r = String::from_str(quote);
                r.append(x.as_str());
                r.append(quote);
                proof {
                    reveal_strlit("'");
                    reveal_strlit("\"");
                    assert(r@ =~= token_raw(*self));
                }
                r
            },
            TokenType::Comment(x, style) => match style {
                CommentStyle::SingleLine => {
                    let mut r = String::from_str("//");
                    r.append(x.as_str());
                    proof {
                        assert(r@ =~= token_raw(*self));
                    }
                    r
                },
                CommentStyle::MultiLine => {
                    let mut r = String::from_str("/*");
                    r.append(x.as_str());
                    r.append("*/");
                    proof {
                        assert(r@ =~= token_raw(*self));
                    }
                    r
                },
            },
            TokenType::Div => String::from_str("/"),
            TokenType::DivEqual => String::from_str("/="),
            TokenType::Arrow => String::from_str("=>"),
            TokenType::TripleEquals => String::from_str("==="),
            TokenType::DoubleEquals => String::from_str("=="),
            TokenType::Equals => String::from_str("="),
            TokenType::NotTripleEquals => String::from_str("!=="),
            TokenType::NotEquals => String::from_str("!="),
            TokenType::Bang => String::from_str("!"),
            TokenType::LogicalAnd => String::from_str("&&"),
            TokenType::BinaryAndEquals => String::from_str("&="),
            TokenType::BinaryAnd => String::from_str("&"),
            TokenType::LogicalOr => String::from_str("||"),
            TokenType::BinaryOrEquals => String::from_str("|="),
            TokenType::BinaryOr => String::from_str("|"),
            TokenType::BinaryXorEquals => String::from_str("^="),
            TokenType::BinaryXor => String::from_str("^"),
            TokenType::Decrement => String::from_str("--"),
            TokenType::MinusEquals => String::from_str("-="),
            TokenType::Minus => String::from_str("-"),
            TokenType::Increment => String::from_str("++"),
            TokenType::PlusEquals => String::from_str("+="),
            TokenType::Plus => String::from_str("+"),
            TokenType::GreaterThanEqualTo => String::from_str(">="),
            TokenType::RightShiftEquals => String::from_str(">>="),
            TokenType::TripleRightShiftEquals => String::from_str(">>>="),
            TokenType::TripleRightShift => String::from_str(">>>"),
            TokenType::RightShift => String::from_str(">>"),
            TokenType::GreaterThan => String::from_str(">"),
            TokenType::LeftShiftEquals => String::from_str("<<="),
            TokenType::LeftShift => String::from_str("<<"),
            TokenType::LessThanEqualTo => String::from_str("<="),
            TokenType::LessThan => String::from_str("<"),
            TokenType::Ellipsis => String::from_str("..."),
            TokenType::Period => String::from_str("."),
            TokenType::LeftBrace => String::from_str("{"),
            TokenType::RightBrace => String::from_str("}"),
            TokenType::LeftParen => String::from_str("("),
            TokenType::RightParen => String::from_str(")"),
            TokenType::LeftBracket => String::from_str("["),
            TokenType::RightBracket => String::from_str("]"),
            TokenType::Colon => String::from_str(":"),
            TokenType::Comma => String::from_str(","),
            TokenType::Tilde => String::from_str("~"),
            TokenType::Semicolon => String::from_str(";"),
            TokenType::Question => String::from_str("?"),
            TokenType::Power => String::from_str("**"),
            TokenType::PowerEquals => String::from_str("**="),
            TokenType::Times => String::from_str("*"),
            TokenType::TimesEquals => String::from_str("*="),
            TokenType::Percent => String::from_str("%"),
            TokenType::PercentEquals => String::from_str("%="),
        }
    }
}

impl Token {
    /// The exact source text of this token.
    pub fn raw_text(&self) -> (r: String)
        ensures
            r@ == token_raw(self.typ),
    {
        self.typ.text()
    }
}

} // verus!
