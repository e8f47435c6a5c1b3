//! A syntax tree of the TSX/JSX constructs that the checkers read.
//!
//! Parsing is done elsewhere; this tree keeps, for each node, what the
//! analyses look at (names, literals, positions) and, for every construct
//! they do not inspect, its parts in source order so that a walk still
//! reaches the translation calls inside.

use vstd::prelude::*;

verus! {

/// Line (1-based) and column (1-based, in characters) of a node.
#[derive(Debug, Clone, Copy)]
pub struct Pos {
    pub line: usize,
    pub col: usize,
}

/// A parsed module: its statements in order.
#[derive(Debug)]
pub struct Module {
    pub body: Vec<Stmt>,
}

#[derive(Debug)]
pub enum Stmt {
    Expr(Expr),
    Var(VarDecl),
    Fn(FnDecl),
    Import(ImportDecl),
    /// `export const ...`, `export function ...`, `export class ...`
    ExportDecl(Decl),
    /// `export default function Name(...) { ... }`
    ExportDefaultFn(DefaultFn),
    /// `export default <expr>`
    ExportDefaultExpr(Expr),
    /// `export default class [Name] { ... }`: its name and its parts in source order.
    ExportDefaultClass { ident: Option<String>, body: Vec<Stmt> },
    /// Any other statement, by its parts in source order.
    Other(Vec<Stmt>),
}

#[derive(Debug)]
pub enum Decl {
    Var(VarDecl),
    Fn(FnDecl),
    Other(Vec<Stmt>),
}

#[derive(Debug)]
pub struct DefaultFn {
    pub ident: Option<String>,
    pub function: Function,
}

#[derive(Debug)]
pub struct VarDecl {
    pub decls: Vec<VarDeclarator>,
}

#[derive(Debug)]
pub struct VarDeclarator {
    pub name: Pat,
    pub init: Option<Expr>,
}

#[derive(Debug)]
pub struct FnDecl {
    pub ident: String,
    pub function: Function,
}

/// A function: its parameter patterns and its body.
#[derive(Debug)]
pub struct Function {
    pub params: Vec<Pat>,
    pub body: Vec<Stmt>,
}

#[derive(Debug)]
pub struct ImportDecl {
    /// The module specifier (`None` if it is not valid UTF-8).
    pub src: Option<String>,
    pub specifiers: Vec<ImportSpecifier>,
}

#[derive(Debug)]
pub enum ImportSpecifier {
    /// `import { imported as local }`; `imported` is `None` when not renamed.
    Named { local: String, imported: Option<String> },
    Default(String),
    Namespace(String),
}

#[derive(Debug)]
pub enum Pat {
    /// A binding name; `annotation_ref` is the name of its type annotation when
    /// that is a reference to a plain identifier (`t: TFunction`).
    Ident { name: String, annotation_ref: Option<String> },
    Object(Vec<ObjectPatProp>),
    Assign { left: Box<Pat>, right: Box<Expr> },
    Array(Vec<Option<Pat>>),
    Rest(Box<Pat>),
    Other(Vec<Stmt>),
}

#[derive(Debug)]
pub enum ObjectPatProp {
    KeyValue { key: PropName, value: Pat },
    /// `{ key }` or `{ key = default }`
    Assign { key: String, value: Option<Expr> },
    Rest(Pat),
}

#[derive(Debug)]
pub enum BinOp {
    LogicalOr,
    LogicalAnd,
    /// Any other operator, by name.
    Other(String),
}

#[derive(Debug)]
pub struct TplElement {
    /// The cooked text (`None` for an invalid escape).
    pub cooked: Option<String>,
    pub pos: Pos,
}

#[derive(Debug)]
pub struct Tpl {
    pub quasis: Vec<TplElement>,
    pub exprs: Vec<Expr>,
}

#[derive(Debug)]
pub struct ExprOrSpread {
    pub spread: bool,
    pub expr: Expr,
}

#[derive(Debug)]
pub struct CallExpr {
    /// The callee (`None` for `super(...)` and `import(...)`).
    pub callee: Option<Box<Expr>>,
    pub args: Vec<ExprOrSpread>,
    pub pos: Pos,
}

#[derive(Debug)]
pub enum MemberProp {
    Ident(String),
    Private(String),
    Computed(Box<Expr>),
}

#[derive(Debug)]
pub struct ArrowExpr {
    pub params: Vec<Pat>,
    pub body: Vec<Stmt>,
}

#[derive(Debug)]
pub enum PropName {
    Ident(String),
    Str(Option<String>),
    Other(Vec<Stmt>),
}

#[derive(Debug)]
pub enum PropOrSpread {
    Spread(Expr),
    KeyValue { key: PropName, value: Expr },
    Shorthand(String),
    /// Methods, getters and setters.
    Method { key: PropName, function: Function },
    Other(Vec<Stmt>),
}

#[derive(Debug)]
pub enum Expr {
    Ident(String),
    /// A string literal (`None` if it is not valid UTF-8).
    Str(Option<String>, Pos),
    /// A number literal, as written by its value.
    Num(String),
    Tpl(Tpl),
    Cond { test: Box<Expr>, cons: Box<Expr>, alt: Box<Expr> },
    Bin { op: BinOp, left: Box<Expr>, right: Box<Expr> },
    Paren(Box<Expr>),
    TsAs(Box<Expr>),
    TsConst(Box<Expr>),
    TsSatisfies(Box<Expr>),
    Await(Box<Expr>),
    Call(CallExpr),
    Member { obj: Box<Expr>, prop: MemberProp },
    Arrow(ArrowExpr),
    Fn(Function),
    Object(Vec<PropOrSpread>),
    Array(Vec<Option<ExprOrSpread>>),
    JSXElement(Box<JSXElement>),
    JSXFragment(Vec<JSXChild>),
    /// Any other expression: its kind and its parts in source order.
    Other { kind: String, children: Vec<Stmt> },
}

#[derive(Debug)]
pub enum JSXObject {
    Ident(String),
    Member(Box<JSXMemberExpr>),
}

#[derive(Debug)]
pub struct JSXMemberExpr {
    pub obj: JSXObject,
    pub prop: String,
}

#[derive(Debug)]
pub enum JSXElementName {
    Ident(String),
    Member(JSXMemberExpr),
    Namespaced(String, String),
}

#[derive(Debug)]
pub enum JSXAttrName {
    Ident(String),
    Namespaced(String, String),
}

#[derive(Debug)]
pub enum JSXAttrValue {
    Str(Option<String>, Pos),
    Container(Option<Expr>),
    Element(Box<JSXElement>),
    Fragment(Vec<JSXChild>),
}

#[derive(Debug)]
pub struct JSXAttr {
    pub name: JSXAttrName,
    pub value: Option<JSXAttrValue>,
}

#[derive(Debug)]
pub enum JSXAttrOrSpread {
    Attr(JSXAttr),
    Spread(Expr),
}

#[derive(Debug)]
pub struct JSXElement {
    pub name: JSXElementName,
    pub attrs: Vec<JSXAttrOrSpread>,
    pub children: Vec<JSXChild>,
}

#[derive(Debug)]
pub enum JSXChild {
    /// Raw text and the position where it starts.
    Text(String, Pos),
    Container(Option<Expr>),
    Spread(Expr),
    Element(Box<JSXElement>),
    Fragment(Vec<JSXChild>),
}

} // verus!
