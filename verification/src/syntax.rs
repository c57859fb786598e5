//! What the argument-list builder reads of the source expressions it is
//! given, and how it rewrites each of them.
//!
//! The builder never evaluates an expression. It looks at the shape of each
//! one, lets the shapes through that can produce a value, replaces a few by
//! a string of their spelling, and answers the others with a diagnostic
//! that belongs at the offending expression.

use vstd::prelude::*;
use crate::value::char_to_string;

verus! {

/// The shape of a literal, with as much of its content as the builder uses.
#[derive(Debug, Clone, PartialEq, Eq)]
pub enum Lit {
    /// A string literal.
    Str,
    /// A byte-string literal.
    ByteStr,
    /// A byte literal.
    Byte,
    /// A character literal, with the character.
    Char(char),
    /// An integer literal, with its digits in base 10.
    Int(String),
    /// A floating-point literal.
    Float,
    /// `true` or `false`.
    Bool,
    /// A literal that was not interpreted.
    Verbatim,
}

/// The shape of an expression, with as much of its content as the builder
/// uses.
#[derive(Debug, Clone, PartialEq, Eq)]
pub enum Expr {
    Array,
    Assign,
    Async,
    Await,
    Binary,
    Block,
    Break,
    Call,
    Cast,
    Closure,
    Const,
    Continue,
    Field,
    ForLoop,
    Group,
    If,
    Index,
    Infer,
    Let,
    Lit(Lit),
    Loop,
    Macro,
    Match,
    MethodCall,
    Paren,
    /// A path; when it is a single identifier, with its spelling.
    Path(Option<String>),
    Range,
    Reference,
    Repeat,
    Return,
    Struct,
    Try,
    TryBlock,
    Tuple,
    Unary,
    Unsafe,
    /// Tokens that were not interpreted.
    Verbatim,
    While,
    Yield,
    /// Any shape that has no name here.
    Other,
}

/// What the builder puts in the place of an expression.
#[derive(Debug, Clone, PartialEq, Eq)]
pub enum Expansion {
    /// The expression itself, unchanged.
    Verbatim,
    /// A string literal with this content.
    Text(String),
    /// A diagnostic at the expression, with this message.
    Error(&'static str),
}

/// The mathematical content of an [`Expansion`].
pub enum ExpansionView {
    Verbatim,
    Text(Seq<char>),
    Error(Seq<char>),
}

impl View for Expansion {
    type V = ExpansionView;

    open spec fn view(&self) -> ExpansionView {
        match *self {
            Expansion::Verbatim => ExpansionView::Verbatim,
            Expansion::Text(s) => ExpansionView::Text(s@),
            Expansion::Error(msg) => ExpansionView::Error(msg@),
        }
    }
}

impl Lit {
    /// The literals that can stand for a value: all but bytes and byte
    /// strings.
    pub open spec fn permitted(self) -> bool {
        !(self is ByteStr || self is Byte)
    }

    /// The message that answers a literal that is not permitted.
    pub open spec fn rejection(self) -> Seq<char> {
        match self {
            Lit::ByteStr => "byte string literals are not supported"@,
            _ => "byte literals are not supported"@,
        }
    }

    /// What stands in the place of the literal: a character becomes the
    /// string of that one character, every other permitted literal stays.
    pub open spec fn expansion(self) -> ExpansionView {
        if !self.permitted() {
            ExpansionView::Error(self.rejection())
        } else if let Lit::Char(c) = self {
            ExpansionView::Text(seq![c])
        } else {
            ExpansionView::Verbatim
        }
    }
}

impl Expr {
    /// The shapes that can produce a value: literals, paths, calls and
    /// method calls, field access, indexing, operators, casts, blocks,
    /// conditionals, groups, references, macro invocations and `?`.
    pub open spec fn permitted(self) -> bool {
        match self {
            Expr::Lit(lit) => lit.permitted(),
            Expr::Path(_) | Expr::Call | Expr::MethodCall | Expr::Field | Expr::Index => true,
            Expr::Unary | Expr::Binary | Expr::Cast | Expr::Try => true,
            Expr::Block | Expr::Const | Expr::Unsafe | Expr::If | Expr::Match => true,
            Expr::Paren | Expr::Group | Expr::Reference | Expr::Macro => true,
            _ => false,
        }
    }

    /// The message that answers a shape that is not permitted.
    pub open spec fn rejection(self) -> Seq<char> {
        match self {
            Expr::Lit(lit) => lit.rejection(),
            Expr::Array => "array expressions are not supported"@,
            Expr::Assign => "assignment expressions are not supported"@,
            Expr::Async => "async expressions are not supported"@,
            Expr::Await => "await expressions are not supported"@,
            Expr::Break => "break expressions are not supported"@,
            Expr::Closure => "closure expressions are not supported"@,
            Expr::Continue => "continue expressions are not supported"@,
            Expr::ForLoop => "for loop expressions are not supported"@,
            Expr::Infer => "'_' expressions are not supported"@,
            Expr::Let => "let expressions are not supported"@,
            Expr::Loop => "loop expressions are not supported"@,
            Expr::Range => "range expressions are not supported"@,
            Expr::Repeat => "array literal expressions are not supported"@,
            Expr::Return => "return expressions are not supported"@,
            Expr::Struct => "struct expressions are not supported"@,
            Expr::TryBlock => "try block expressions are not supported"@,
            Expr::Tuple => "tuple expressions are not supported"@,
            Expr::Verbatim => "array expressions are not supported"@,
            Expr::While => "while loops expressions are not supported"@,
            Expr::Yield => "yield expressions are not supported"@,
            _ => "expression is not supported"@,
        }
    }

    /// What stands in the place of the expression where a value is
    /// expected.
    pub open spec fn value_expansion(self) -> ExpansionView {
        if !self.permitted() {
            ExpansionView::Error(self.rejection())
        } else if let Expr::Lit(lit) = self {
            lit.expansion()
        } else {
            ExpansionView::Verbatim
        }
    }

    /// What stands in the place of the expression where a key is expected.
    /// An identifier gives its spelling and an integer literal its digits
    /// in base 10; a boolean or a floating-point literal is no key; any
    /// other expression is treated as a value is.
    pub open spec fn key_expansion(self) -> ExpansionView {
        match self {
            Expr::Path(Some(ident)) => ExpansionView::Text(ident@),
            Expr::Lit(Lit::Int(digits)) => ExpansionView::Text(digits@),
            Expr::Lit(Lit::Float) | Expr::Lit(Lit::Bool) => ExpansionView::Error(
                "bool literals are not supported as keys"@,
            ),
            _ => self.value_expansion(),
        }
    }
}

/// Rewrites a literal that stands for a value.
pub fn expand_literal(literal: &Lit) -> (r: Expansion)
    ensures
        r@ == literal.expansion(),
{
    match literal {
        Lit::Str => Expansion::Verbatim,
        Lit::ByteStr => Expansion::Error("byte string literals are not supported"),
        Lit::Byte => Expansion::Error("byte literals are not supported"),
        Lit::Char(c) => Expansion::Text(char_to_string(*c)),
        Lit::Int(_) => Expansion::Verbatim,
        Lit::Float => Expansion::Verbatim,
        Lit::Bool => Expansion::Verbatim,
        Lit::Verbatim => Expansion::Verbatim,
    }
}

/// Rewrites an expression that stands for a value, or answers it with the
/// diagnostic of its shape.
pub fn expand_value(value: &Expr) -> (r: Expansion)
    ensures
        r@ == value.value_expansion(),
        value.permitted() <==> !(r is Error),
{
    match value {
        Expr::Array => Expansion::Error("array expressions are not supported"),
        Expr::Assign => Expansion::Error("assignment expressions are not supported"),
        Expr::Async => Expansion::Error("async expressions are not supported"),
        Expr::Await => Expansion::Error("await expressions are not supported"),
        Expr::Binary => Expansion::Verbatim,
        Expr::Block => Expansion::Verbatim,
        Expr::Break => Expansion::Error("break expressions are not supported"),
        Expr::Call => Expansion::Verbatim,
        Expr::Cast => Expansion::Verbatim,
        Expr::Closure => Expansion::Error("closure expressions are not supported"),
        Expr::Const => Expansion::Verbatim,
        Expr::Continue => Expansion::Error("continue expressions are not supported"),
        Expr::Field => Expansion::Verbatim,
        Expr::ForLoop => Expansion::Error("for loop expressions are not supported"),
        Expr::Group => Expansion::Verbatim,
        Expr::If => Expansion::Verbatim,
        Expr::Index => Expansion::Verbatim,
        Expr::Infer => Expansion::Error("'_' expressions are not supported"),
        Expr::Let => Expansion::Error("let expressions are not supported"),
        Expr::Lit(lit) => expand_literal(lit),
        Expr::Loop => Expansion::Error("loop expressions are not supported"),
        Expr::Macro => Expansion::Verbatim,
        Expr::Match => Expansion::Verbatim,
        Expr::MethodCall => Expansion::Verbatim,
        Expr::Paren => Expansion::Verbatim,
        Expr::Path(_) => Expansion::Verbatim,
        Expr::Range => Expansion::Error("range expressions are not supported"),
        Expr::Reference => Expansion::Verbatim,
        Expr::Repeat => Expansion::Error("array literal expressions are not supported"),
        Expr::Return => Expansion::Error("return expressions are not supported"),
        Expr::Struct => Expansion::Error("struct expressions are not supported"),
        Expr::Try => Expansion::Verbatim,
        Expr::TryBlock => Expansion::Error("try block expressions are not supported"),
        Expr::Tuple => Expansion::Error("tuple expressions are not supported"),
        Expr::Unary => Expansion::Verbatim,
        Expr::Unsafe => Expansion::Verbatim,
        Expr::Verbatim => Expansion::Error("array expressions are not supported"),
        Expr::While => Expansion::Error("while loops expressions are not supported"),
        Expr::Yield => Expansion::Error("yield expressions are not supported"),
        Expr::Other => Expansion::Error("expression is not supported"),
    }
}

/// Rewrites an expression that stands for a key.
pub fn expand_key(key: &Expr) -> (r: Expansion)
    ensures
        r@ == key.key_expansion(),
{
    match key {
        Expr::Path(Some(ident)) => Expansion::Text(ident.clone()),
        Expr::Lit(Lit::Int(digits)) => Expansion::Text(digits.clone()),
        Expr::Lit(Lit::Float) => Expansion::Error("bool literals are not supported as keys"),
        Expr::Lit(Lit::Bool) => Expansion::Error("bool literals are not supported as keys"),
        _ => expand_value(key),
    }
}

} // verus!
