//! The syntax that the engine reads: call expressions, the literals among
//! their arguments, and the positions and comments that belong to them.
use vstd::prelude::*;

verus! {

/// A half-open range of byte offsets in the source.
#[derive(Clone, Copy, Debug, PartialEq, Eq, Structural)]
pub struct Span {
    pub lo: u32,
    pub hi: u32,
}

/// A byte offset in the source together with the file, line and column that
/// the source map resolves it to. Lines and columns count from 1: the first
/// character of a file stands at line 1, column 1.
#[derive(Debug)]
pub struct SourcePos {
    pub offset: u32,
    pub file: String,
    pub line: usize,
    pub col: usize,
}

#[derive(Clone, Copy, Debug, PartialEq, Eq, Structural)]
pub enum CommentKind {
    Line,
    Block,
}

/// A comment: its kind, the range it covers and its text without the
/// delimiters.
#[derive(Debug)]
pub struct Comment {
    pub kind: CommentKind,
    pub span: Span,
    pub text: String,
}

/// A literal. `Num` holds the text of the literal as the source has it;
/// `Other` is any literal that is no string, boolean or number.
#[derive(Debug)]
pub enum Lit {
    Str(String),
    Bool(bool),
    Num(String),
    Other,
}

/// An expression. `Other` stands for every form that the engine does not
/// look into; it holds the expressions nested in it, in source order.
#[derive(Debug)]
pub enum Expr {
    Lit(Lit),
    Array(Vec<Option<ExprOrSpread>>),
    Object(Vec<Prop>),
    Ident(String),
    This,
    Member(Box<MemberExpr>),
    Call(Box<CallExpr>),
    Other(Vec<Expr>),
}

/// An argument or an array element, which may be a spread.
#[derive(Debug)]
pub struct ExprOrSpread {
    pub spread: bool,
    pub pos: SourcePos,
    pub expr: Expr,
}

/// The name of a property in an object literal.
#[derive(Debug)]
pub enum PropName {
    Ident(String),
    Str(String),
    Num(String),
    Computed(Expr),
    Other,
}

/// A property of an object literal: `key: value`, or any other form, which
/// holds the expressions nested in it, in source order.
#[derive(Debug)]
pub enum Prop {
    KeyValue(PropName, Expr),
    Other(Vec<Expr>),
}

/// The property of a member access.
#[derive(Debug)]
pub enum MemberProp {
    Ident(String),
    Computed(Expr),
    Other,
}

/// A member access `obj.prop` or `obj[prop]`.
#[derive(Debug)]
pub struct MemberExpr {
    pub obj: Expr,
    pub prop: MemberProp,
}

/// What is called: an expression, the `import` keyword, or `super`.
#[derive(Debug)]
pub enum Callee {
    Expr(Expr),
    Import(SourcePos),
    Super,
}

/// A call expression `callee(args...)` and the position where it starts.
#[derive(Debug)]
pub struct CallExpr {
    pub callee: Callee,
    pub args: Vec<ExprOrSpread>,
    pub pos: SourcePos,
}

/// A module: its range in the source and the expressions of its body, in
/// source order.
#[derive(Debug)]
pub struct Module {
    pub span: Span,
    pub body: Vec<Expr>,
}

} // verus!
