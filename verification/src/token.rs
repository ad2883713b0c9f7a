//! The token data model: token kinds, literal payloads, tokens, and the
//! record used to report a lexical error.

use vstd::prelude::*;

use vstd::string::StrSliceExecFns;
use vstd::string::StringExecFns;

verus! {

/// The closed set of lexeme categories: single-character punctuation,
/// one/two-character operators, literals, reserved keywords, and the
/// end-of-input marker.
#[derive(Debug, Clone, Copy, PartialEq, Eq, Structural)]
pub enum TokenType {
    LeftParen,
    RightParen,
    LeftBrace,
    RightBrace,
    Comma,
    Dot,
    Plus,
    Semicolon,
    Minus,
    Bang,
    BangEqual,
    Assign,
    Equals,
    Greater,
    GreaterEqual,
    Less,
    LessEqual,
    Slash,
    String,
    Number,
    Identifier,
    And,
    Class,
    Else,
    True,
    False,
    For,
    Fun,
    If,
    Nil,
    Or,
    Print,
    Return,
    Super,
    This,
    Var,
    While,
    Eof,
}

/// A decoded literal payload carried inside a token.  A number literal keeps
/// the exact numeric text of its lexeme (digits, with at most one fractional
/// part); no further normalization is performed here.
#[derive(Debug, Clone, PartialEq, Eq)]
pub enum Object {
    Num(String),
    Str(String),
    Nil,
    True,
    False,
}

/// The mathematical value of an [`Object`]: the same tag over a sequence of
/// characters.
pub ghost enum ObjectModel {
    Num(Seq<char>),
    Str(Seq<char>),
    Nil,
    True,
    False,
}

impl View for Object {
    type V = ObjectModel;

    open spec fn view(&self) -> ObjectModel {
        match self {
            Object::Num(s) => ObjectModel::Num(s@),
            Object::Str(s) => ObjectModel::Str(s@),
            Object::Nil => ObjectModel::Nil,
            Object::True => ObjectModel::True,
            Object::False => ObjectModel::False,
        }
    }
}

/// One classified unit of lexical output: kind, verbatim source slice,
/// optional decoded literal, and the 1-based line on which the lexeme starts.
#[derive(Debug, Clone, PartialEq, Eq)]
pub struct Token {
    pub ttype: TokenType,
    pub lexeme: String,
    pub literal: Option<Object>,
    pub line: usize,
}

/// The mathematical value of a [`Token`].
pub ghost struct TokenModel {
    pub kind: TokenType,
    pub lexeme: Seq<char>,
    pub literal: Option<ObjectModel>,
    pub line: nat,
}

impl View for Token {
    type V = TokenModel;

    open spec fn view(&self) -> TokenModel {
        TokenModel {
            kind: self.ttype,
            lexeme: self.lexeme@,
            literal: match self.literal {
                Option::Some(ref o) => Option::Some(o@),
                Option::None => Option::None,
            },
            line: self.line as nat,
        }
    }
}

/// The model of the end-of-input token appended once scanning finishes: kind
/// `Eof`, empty lexeme, no literal, the line reached at the end of input.
pub open spec fn eof_model(line: nat) -> TokenModel {
    TokenModel {
        kind: TokenType::Eof,
        lexeme: Seq::<char>::empty(),
        literal: Option::None,
        line: line,
    }
}

impl Token {
    pub fn new(ttype: TokenType, lexeme: String, literal: Option<Object>, line: usize) -> (t: Token)
        ensures
            t@ == (TokenModel {
                kind: ttype,
                lexeme: lexeme@,
                literal: match literal {
                    Option::Some(o) => Option::Some(o@),
                    Option::None => Option::None,
                },
                line: line as nat,
            }),
    {
        Token { ttype, lexeme, literal, line }
    }

    pub fn eof(line: usize) -> (t: Token)
        ensures
            t@ == eof_model(line as nat),
    {
        let t = Token {
            ttype: TokenType::Eof,
            lexeme: String::new(),
            literal: Option::None,
            line,
        };
        proof {
            assert(t@.lexeme =~= Seq::<char>::empty());
        }
        t
    }
}

/// The display name of a token kind.
pub open spec fn kind_name(k: TokenType) -> Seq<char> {
    match k {
        TokenType::LeftParen => "LeftParen"@,
        TokenType::RightParen => "RightParen"@,
        TokenType::LeftBrace => "LeftBrace"@,
        TokenType::RightBrace => "RightBrace"@,
        TokenType::Comma => "Comma"@,
        TokenType::Dot => "Dot"@,
        TokenType::Plus => "Plus"@,
        TokenType::Semicolon => "Semicolon"@,
        TokenType::Minus => "Minus"@,
        TokenType::Bang => "Bang"@,
        TokenType::BangEqual => "BangEqual"@,
        TokenType::Assign => "Assign"@,
        TokenType::Equals => "Equals"@,
        TokenType::Greater => "Greater"@,
        TokenType::GreaterEqual => "GreaterEqual"@,
        TokenType::Less => "Less"@,
        TokenType::LessEqual => "LessEqual"@,
        TokenType::Slash => "Slash"@,
        TokenType::String => "String"@,
        TokenType::Number => "Number"@,
        TokenType::Identifier => "Identifier"@,
        TokenType::And => "And"@,
        TokenType::Class => "Class"@,
        TokenType::Else => "Else"@,
        TokenType::True => "True"@,
        TokenType::False => "False"@,
        TokenType::For => "For"@,
        TokenType::Fun => "Fun"@,
        TokenType::If => "If"@,
        TokenType::Nil => "Nil"@,
        TokenType::Or => "Or"@,
        TokenType::Print => "Print"@,
        TokenType::Return => "Return"@,
        TokenType::Super => "Super"@,
        TokenType::This => "This"@,
        TokenType::Var => "Var"@,
        TokenType::While => "While"@,
        TokenType::Eof => "Eof"@,
    }
}

/// The display text of a literal payload: a number as its numeric text, a
/// string in quotes, and the word-like payloads as their words.
pub open spec fn object_display(o: ObjectModel) -> Seq<char> {
    match o {
        ObjectModel::Num(t) => t,
        ObjectModel::Str(t) => "\""@ + t + "\""@,
        ObjectModel::Nil => "nil"@,
        ObjectModel::True => "true"@,
        ObjectModel::False => "false"@,
    }
}

/// The display text of a token: its kind's name, its lexeme, and its
/// literal's display text (or the word `None` without one), separated by
/// single spaces.
pub open spec fn token_display(t: TokenModel) -> Seq<char> {
    kind_name(t.kind) + " "@ + t.lexeme + " "@ + match t.literal {
        Option::Some(o) => object_display(o),
        Option::None => "None"@,
    }
}

impl TokenType {
    /// The display name of this kind.
    pub fn name(&self) -> (r: &'static str)
        ensures
            r@ == kind_name(*self),
    {
        match self {
            TokenType::LeftParen => "LeftParen",
            TokenType::RightParen => "RightParen",
            TokenType::LeftBrace => "LeftBrace",
            TokenType::RightBrace => "RightBrace",
            TokenType::Comma => "Comma",
            TokenType::Dot => "Dot",
            TokenType::Plus => "Plus",
            TokenType::Semicolon => "Semicolon",
            TokenType::Minus => "Minus",
            TokenType::Bang => "Bang",
            TokenType::BangEqual => "BangEqual",
            TokenType::Assign => "Assign",
            TokenType::Equals => "Equals",
            TokenType::Greater => "Greater",
            TokenType::GreaterEqual => "GreaterEqual",
            TokenType::Less => "Less",
            TokenType::LessEqual => "LessEqual",
            TokenType::Slash => "Slash",
            TokenType::String => "String",
            TokenType::Number => "Number",
            TokenType::Identifier => "Identifier",
            TokenType::And => "And",
            TokenType::Class => "Class",
            TokenType::Else => "Else",
            TokenType::True => "True",
            TokenType::False => "False",
            TokenType::For => "For",
            TokenType::Fun => "Fun",
            TokenType::If => "If",
            TokenType::Nil => "Nil",
            TokenType::Or => "Or",
            TokenType::Print => "Print",
            TokenType::Return => "Return",
            TokenType::Super => "Super",
            TokenType::This => "This",
            TokenType::Var => "Var",
            TokenType::While => "While",
            TokenType::Eof => "Eof",
        }
    }
}

impl Object {
    /// The display text of this literal payload.
    pub fn to_display_string(&self) -> (r: String)
        ensures
            r@ == object_display(self@),
    {
        match self {
            Object::Num(t) => String::from_str(t.as_str()),
            Object::Str(t) => {
                let mut out = String::from_str("\"");
                out.append(t.as_str());
                out.append("\"");
                out
            },
            Object::Nil => String::from_str("nil"),
            Object::True => String::from_str("true"),
            Object::False => String::from_str("false"),
        }
    }
}

impl Token {
    /// The display text of this token: kind, lexeme and literal.
    pub fn to_display_string(&self) -> (r: String)
        ensures
            r@ == token_display(self@),
    {
        let mut out = String::from_str(self.ttype.name());
        out.append(" ");
        out.append(self.lexeme.as_str());
        out.append(" ");
        match &self.literal {
            Option::Some(o) => {
                let lit = o.to_display_string();
                out.append(lit.as_str());
            },
            Option::None => {
                out.append("None");
            },
        }
        out
    }
}

/// One reported lexical failure: the 1-based line it was detected on and a
/// human-readable message.
#[derive(Debug, Clone, PartialEq, Eq)]
pub struct LoxError {
    pub line: usize,
    pub message: String,
}

/// The mathematical value of a [`LoxError`].
pub ghost struct ErrorModel {
    pub line: nat,
    pub message: Seq<char>,
}

impl View for LoxError {
    type V = ErrorModel;

    open spec fn view(&self) -> ErrorModel {
        ErrorModel { line: self.line as nat, message: self.message@ }
    }
}

impl LoxError {
    pub fn error(line: usize, message: String) -> (e: LoxError)
        ensures
            e@ == (ErrorModel { line: line as nat, message: message@ }),
    {
        LoxError { line, message }
    }
}

} // verus!
