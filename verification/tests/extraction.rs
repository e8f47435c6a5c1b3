//! Key extraction from parsed TSX sources.

use std::collections::HashSet;

use glot::ast;
use glot::check_context::{CheckContext, Config};
use glot::shared::{build_file_analysis, build_registries, collect_used_keys, SourceFile};
use glot::collector::KeyObjectCollector;
use glot::registry::RegistryCollector;
use glot::registries::{collect_registries, resolve_component_name_for_prop};
use glot::extraction::{DynamicKeyReason, Registries};
use glot::hardcoded::{HardcodedChecker, contains_alphabetic};
use glot::key_objects::{
    FileImports, ImportInfo, KeyArray, KeyArrayRegistry, KeyObject, KeyObjectRegistry, StringArrayRegistry,
    TranslationFnCall, TranslationFnCallRegistry, TranslationProp, TranslationPropRegistry,
    make_registry_key, make_translation_fn_call_key, make_translation_prop_key,
};
use glot::schema::{SchemaFunction, SchemaRegistry, expand_schema_keys};
use glot::schema_collector::SchemaFunctionCollector;
use glot::translation_calls::TranslationCallFinder;
use glot::strmap::{StrMap, StrSet};
use glot::value_source::ValueSource;
use glot::visitor::{MissingKeyChecker, TranslationKeyVisitor};
use swc_common::comments::SingleThreadedComments;
use swc_common::{BytePos, FileName, SourceMap};
use swc_ecma_ast as sx;
use swc_ecma_parser::{Parser, StringInput, Syntax, TsSyntax};
use swc_ecma_visit::{Visit, VisitWith};

fn pos(cm: &SourceMap, lo: BytePos) -> ast::Pos {
    let loc = cm.lookup_char_pos(lo);
    ast::Pos { line: loc.line, col: loc.col_display + 1 }
}


/// Collects the direct children (statements, expressions, declarations,
/// functions) of a node that the tree does not model, in source order.
struct Kids<'a> {
    cm: &'a SourceMap,
    out: Vec<ast::Stmt>,
}

impl Visit for Kids<'_> {
    fn visit_expr(&mut self, e: &sx::Expr) {
        self.out.push(ast::Stmt::Expr(conv_expr(self.cm, e)));
    }
    fn visit_stmt(&mut self, s: &sx::Stmt) {
        self.out.push(conv_stmt(self.cm, s));
    }
    fn visit_var_decl(&mut self, v: &sx::VarDecl) {
        self.out.push(ast::Stmt::Var(conv_var_decl(self.cm, v)));
    }
    fn visit_fn_decl(&mut self, f: &sx::FnDecl) {
        self.out.push(ast::Stmt::Fn(ast::FnDecl {
            ident: f.ident.sym.to_string(),
            function: conv_function(self.cm, &f.function),
        }));
    }
    fn visit_function(&mut self, f: &sx::Function) {
        self.out.push(ast::Stmt::Expr(ast::Expr::Fn(conv_function(self.cm, f))));
    }
    fn visit_module_item(&mut self, it: &sx::ModuleItem) {
        self.out.push(conv_item(self.cm, it));
    }
}

fn kids<'a, N: VisitWith<Kids<'a>>>(cm: &'a SourceMap, n: &N) -> Vec<ast::Stmt> {
    let mut k = Kids { cm, out: Vec::new() };
    n.visit_children_with(&mut k);
    k.out
}

fn conv_module(cm: &SourceMap, m: &sx::Module) -> ast::Module {
    ast::Module { body: m.body.iter().map(|it| conv_item(cm, it)).collect() }
}

fn conv_item(cm: &SourceMap, it: &sx::ModuleItem) -> ast::Stmt {
    match it {
        sx::ModuleItem::Stmt(s) => conv_stmt(cm, s),
        sx::ModuleItem::ModuleDecl(d) => match d {
            sx::ModuleDecl::Import(i) => ast::Stmt::Import(ast::ImportDecl {
                src: i.src.value.as_str().map(|x| x.to_string()),
                specifiers: i
                    .specifiers
                    .iter()
                    .map(|s| match s {
                        sx::ImportSpecifier::Named(n) => ast::ImportSpecifier::Named {
                            local: n.local.sym.to_string(),
                            imported: n.imported.as_ref().map(|m| match m {
                                sx::ModuleExportName::Ident(id) => id.sym.to_string(),
                                sx::ModuleExportName::Str(s) => s.value.to_string_lossy().to_string(),
                            }),
                        },
                        sx::ImportSpecifier::Default(d) => ast::ImportSpecifier::Default(d.local.sym.to_string()),
                        sx::ImportSpecifier::Namespace(n) => ast::ImportSpecifier::Namespace(n.local.sym.to_string()),
                    })
                    .collect(),
            }),
            sx::ModuleDecl::ExportDecl(e) => ast::Stmt::ExportDecl(conv_decl(cm, &e.decl)),
            sx::ModuleDecl::ExportDefaultDecl(e) => match &e.decl {
                sx::DefaultDecl::Fn(f) => ast::Stmt::ExportDefaultFn(ast::DefaultFn {
                    ident: f.ident.as_ref().map(|i| i.sym.to_string()),
                    function: conv_function(cm, &f.function),
                }),
                sx::DefaultDecl::Class(c) => ast::Stmt::ExportDefaultClass {
                    ident: c.ident.as_ref().map(|i| i.sym.to_string()),
                    body: kids(cm, c),
                },
                _ => ast::Stmt::Other(kids(cm, e)),
            },
            sx::ModuleDecl::ExportDefaultExpr(e) => ast::Stmt::ExportDefaultExpr(conv_expr(cm, &e.expr)),
            _ => ast::Stmt::Other(kids(cm, d)),
        },
    }
}

fn conv_decl(cm: &SourceMap, d: &sx::Decl) -> ast::Decl {
    match d {
        sx::Decl::Var(v) => ast::Decl::Var(conv_var_decl(cm, v)),
        sx::Decl::Fn(f) => ast::Decl::Fn(ast::FnDecl {
            ident: f.ident.sym.to_string(),
            function: conv_function(cm, &f.function),
        }),
        _ => ast::Decl::Other(kids(cm, d)),
    }
}

fn conv_stmt(cm: &SourceMap, s: &sx::Stmt) -> ast::Stmt {
    match s {
        sx::Stmt::Expr(e) => ast::Stmt::Expr(conv_expr(cm, &e.expr)),
        sx::Stmt::Decl(sx::Decl::Var(v)) => ast::Stmt::Var(conv_var_decl(cm, v)),
        sx::Stmt::Decl(sx::Decl::Fn(f)) => ast::Stmt::Fn(ast::FnDecl {
            ident: f.ident.sym.to_string(),
            function: conv_function(cm, &f.function),
        }),
        _ => ast::Stmt::Other(kids(cm, s)),
    }
}

fn conv_var_decl(cm: &SourceMap, v: &sx::VarDecl) -> ast::VarDecl {
    ast::VarDecl {
        decls: v
            .decls
            .iter()
            .map(|d| ast::VarDeclarator {
                name: conv_pat(cm, &d.name),
                init: d.init.as_ref().map(|e| conv_expr(cm, e)),
            })
            .collect(),
    }
}

fn conv_function(cm: &SourceMap, f: &sx::Function) -> ast::Function {
    ast::Function {
        params: f.params.iter().map(|p| conv_pat(cm, &p.pat)).collect(),
        body: match &f.body {
            Some(b) => b.stmts.iter().map(|s| conv_stmt(cm, s)).collect(),
            None => Vec::new(),
        },
    }
}

/// The referenced name of a type reference: the first entity name met,
/// kept when it is a plain identifier.
struct RefName {
    name: Option<String>,
    seen: bool,
}

impl Visit for RefName {
    fn visit_ts_entity_name(&mut self, n: &sx::TsEntityName) {
        if !self.seen {
            self.seen = true;
            if let sx::TsEntityName::Ident(id) = n {
                self.name = Some(id.sym.to_string());
            }
        }
    }
}

/// The name of a type reference annotation written as a plain identifier.
fn type_ref_name(t: &Option<Box<sx::TsTypeAnn>>) -> Option<String> {
    match t {
        Some(ann) => match &*ann.type_ann {
            sx::TsType::TsTypeRef(r) => {
                let mut f = RefName { name: None, seen: false };
                r.visit_children_with(&mut f);
                f.name
            },
            _ => None,
        },
        None => None,
    }
}

fn conv_prop_name(cm: &SourceMap, k: &sx::PropName) -> ast::PropName {
    match k {
        sx::PropName::Ident(i) => ast::PropName::Ident(i.sym.to_string()),
        sx::PropName::Str(s) => ast::PropName::Str(s.value.as_str().map(|x| x.to_string())),
        _ => ast::PropName::Other(kids(cm, k)),
    }
}

fn conv_pat(cm: &SourceMap, p: &sx::Pat) -> ast::Pat {
    match p {
        sx::Pat::Ident(b) => ast::Pat::Ident { name: b.id.sym.to_string(), annotation_ref: type_ref_name(&b.type_ann) },
        sx::Pat::Object(o) => ast::Pat::Object(
            o.props
                .iter()
                .map(|pp| match pp {
                    sx::ObjectPatProp::KeyValue(kv) => ast::ObjectPatProp::KeyValue {
                        key: conv_prop_name(cm, &kv.key),
                        value: conv_pat(cm, &kv.value),
                    },
                    sx::ObjectPatProp::Assign(a) => ast::ObjectPatProp::Assign {
                        key: a.key.sym.to_string(),
                        value: a.value.as_ref().map(|e| conv_expr(cm, e)),
                    },
                    sx::ObjectPatProp::Rest(r) => ast::ObjectPatProp::Rest(conv_pat(cm, &r.arg)),
                })
                .collect(),
        ),
        sx::Pat::Assign(a) => ast::Pat::Assign { left: Box::new(conv_pat(cm, &a.left)), right: Box::new(conv_expr(cm, &a.right)) },
        sx::Pat::Array(a) => ast::Pat::Array(a.elems.iter().map(|e| e.as_ref().map(|q| conv_pat(cm, q))).collect()),
        sx::Pat::Rest(r) => ast::Pat::Rest(Box::new(conv_pat(cm, &r.arg))),
        _ => ast::Pat::Other(kids(cm, p)),
    }
}

fn expr_kind(e: &sx::Expr) -> &'static str {
    match e {
        sx::Expr::Array(_) => "Array",
        sx::Expr::Arrow(_) => "Arrow",
        sx::Expr::Assign(_) => "Assign",
        sx::Expr::Await(_) => "Await",
        sx::Expr::Bin(_) => "Bin",
        sx::Expr::Call(_) => "Call",
        sx::Expr::Class(_) => "Class",
        sx::Expr::Cond(_) => "Cond",
        sx::Expr::Fn(_) => "Fn",
        sx::Expr::Ident(_) => "Ident",
        sx::Expr::Invalid(_) => "Invalid",
        sx::Expr::Lit(_) => "Lit",
        sx::Expr::Member(_) => "Member",
        sx::Expr::MetaProp(_) => "MetaProp",
        sx::Expr::New(_) => "New",
        sx::Expr::Object(_) => "Object",
        sx::Expr::OptChain(_) => "OptChain",
        sx::Expr::Paren(_) => "Paren",
        sx::Expr::PrivateName(_) => "PrivateName",
        sx::Expr::Seq(_) => "Seq",
        sx::Expr::SuperProp(_) => "SuperProp",
        sx::Expr::TaggedTpl(_) => "TaggedTpl",
        sx::Expr::This(_) => "This",
        sx::Expr::Tpl(_) => "Tpl",
        sx::Expr::TsAs(_) => "TsAs",
        sx::Expr::TsConstAssertion(_) => "TsConstAssertion",
        sx::Expr::TsInstantiation(_) => "TsInstantiation",
        sx::Expr::TsNonNull(_) => "TsNonNull",
        sx::Expr::TsSatisfies(_) => "TsSatisfies",
        sx::Expr::TsTypeAssertion(_) => "TsTypeAssertion",
        sx::Expr::Unary(_) => "Unary",
        sx::Expr::Update(_) => "Update",
        sx::Expr::Yield(_) => "Yield",
        sx::Expr::JSXMember(_) => "JSXMember",
        sx::Expr::JSXNamespacedName(_) => "JSXNamespacedName",
        sx::Expr::JSXEmpty(_) => "JSXEmpty",
        sx::Expr::JSXElement(_) => "JSXElement",
        sx::Expr::JSXFragment(_) => "JSXFragment",
    }
}

fn conv_expr(cm: &SourceMap, e: &sx::Expr) -> ast::Expr {
    match e {
        sx::Expr::Ident(i) => ast::Expr::Ident(i.sym.to_string()),
        sx::Expr::Lit(sx::Lit::Str(s)) => ast::Expr::Str(s.value.as_str().map(|x| x.to_string()), pos(cm, s.span.lo)),
        sx::Expr::Lit(sx::Lit::Num(n)) => ast::Expr::Num(n.value.to_string()),
        sx::Expr::Tpl(t) => ast::Expr::Tpl(conv_tpl(cm, t)),
        sx::Expr::Cond(c) => ast::Expr::Cond {
            test: Box::new(conv_expr(cm, &c.test)),
            cons: Box::new(conv_expr(cm, &c.cons)),
            alt: Box::new(conv_expr(cm, &c.alt)),
        },
        sx::Expr::Bin(b) => ast::Expr::Bin {
            op: match b.op {
                sx::BinaryOp::LogicalOr => ast::BinOp::LogicalOr,
                sx::BinaryOp::LogicalAnd => ast::BinOp::LogicalAnd,
                op => ast::BinOp::Other(format!("{:?}", op)),
            },
            left: Box::new(conv_expr(cm, &b.left)),
            right: Box::new(conv_expr(cm, &b.right)),
        },
        sx::Expr::Paren(p) => ast::Expr::Paren(Box::new(conv_expr(cm, &p.expr))),
        sx::Expr::TsAs(x) => ast::Expr::TsAs(Box::new(conv_expr(cm, &x.expr))),
        sx::Expr::TsConstAssertion(x) => ast::Expr::TsConst(Box::new(conv_expr(cm, &x.expr))),
        sx::Expr::TsSatisfies(x) => ast::Expr::TsSatisfies(Box::new(conv_expr(cm, &x.expr))),
        sx::Expr::Await(x) => ast::Expr::Await(Box::new(conv_expr(cm, &x.arg))),
        sx::Expr::Call(c) => ast::Expr::Call(ast::CallExpr {
            callee: match &c.callee {
                sx::Callee::Expr(x) => Some(Box::new(conv_expr(cm, x))),
                _ => None,
            },
            args: conv_args(cm, &c.args),
            pos: pos(cm, c.span.lo),
        }),
        sx::Expr::Member(m) => ast::Expr::Member {
            obj: Box::new(conv_expr(cm, &m.obj)),
            prop: match &m.prop {
                sx::MemberProp::Ident(i) => ast::MemberProp::Ident(i.sym.to_string()),
                sx::MemberProp::PrivateName(p) => ast::MemberProp::Private(p.name.to_string()),
                sx::MemberProp::Computed(c) => ast::MemberProp::Computed(Box::new(conv_expr(cm, &c.expr))),
            },
        },
        sx::Expr::Arrow(a) => ast::Expr::Arrow(ast::ArrowExpr {
            params: a.params.iter().map(|p| conv_pat(cm, p)).collect(),
            body: match &*a.body {
                sx::ArrowFunctionBody::FunctionBody(b) => b.stmts.iter().map(|s| conv_stmt(cm, s)).collect(),
                sx::ArrowFunctionBody::Expr(x) => vec![ast::Stmt::Expr(conv_expr(cm, x))],
            },
        }),
        sx::Expr::Fn(f) => ast::Expr::Fn(conv_function(cm, &f.function)),
        sx::Expr::Object(o) => ast::Expr::Object(
            o.props
                .iter()
                .map(|p| match p {
                    sx::PropOrSpread::Spread(s) => ast::PropOrSpread::Spread(conv_expr(cm, &s.expr)),
                    sx::PropOrSpread::Prop(p) => match &**p {
                        sx::Prop::KeyValue(kv) => ast::PropOrSpread::KeyValue {
                            key: conv_prop_name(cm, &kv.key),
                            value: conv_expr(cm, &kv.value),
                        },
                        sx::Prop::Shorthand(i) => ast::PropOrSpread::Shorthand(i.sym.to_string()),
                        sx::Prop::Method(m) => ast::PropOrSpread::Method {
                            key: conv_prop_name(cm, &m.key),
                            function: conv_function(cm, &m.function),
                        },
                        other => ast::PropOrSpread::Other(kids(cm, other)),
                    },
                })
                .collect(),
        ),
        sx::Expr::Array(a) => ast::Expr::Array(
            a.elems
                .iter()
                .map(|x| x.as_ref().map(|x| ast::ExprOrSpread { spread: x.spread.is_some(), expr: conv_expr(cm, &x.expr) }))
                .collect(),
        ),
        sx::Expr::JSXElement(el) => ast::Expr::JSXElement(Box::new(conv_jsx_element(cm, el))),
        sx::Expr::JSXFragment(f) => ast::Expr::JSXFragment(conv_jsx_children(cm, &f.children)),
        other => ast::Expr::Other { kind: expr_kind(other).to_string(), children: kids(cm, other) },
    }
}

fn conv_args(cm: &SourceMap, args: &[sx::ExprOrSpread]) -> Vec<ast::ExprOrSpread> {
    args.iter()
        .map(|x| ast::ExprOrSpread { spread: x.spread.is_some(), expr: conv_expr(cm, &x.expr) })
        .collect()
}

fn conv_tpl(cm: &SourceMap, t: &sx::Tpl) -> ast::Tpl {
    ast::Tpl {
        quasis: t
            .quasis
            .iter()
            .map(|q| ast::TplElement { cooked: q.cooked.as_ref().and_then(|c| c.as_str().map(|x| x.to_string())), pos: pos(cm, q.span.lo) })
            .collect(),
        exprs: t.exprs.iter().map(|x| conv_expr(cm, x)).collect(),
    }
}

fn conv_jsx_member(m: &sx::JSXMemberExpr) -> ast::JSXMemberExpr {
    ast::JSXMemberExpr {
        obj: match &m.obj {
            sx::JSXObject::Ident(i) => ast::JSXObject::Ident(i.sym.to_string()),
            sx::JSXObject::JSXMemberExpr(inner) => ast::JSXObject::Member(Box::new(conv_jsx_member(inner))),
        },
        prop: m.prop.sym.to_string(),
    }
}

fn conv_container(cm: &SourceMap, c: &sx::JSXExprContainer) -> Option<ast::Expr> {
    match &c.expr {
        sx::JSXExpr::Expr(x) => Some(conv_expr(cm, x)),
        sx::JSXExpr::JSXEmptyExpr(_) => None,
    }
}

fn conv_jsx_element(cm: &SourceMap, el: &sx::JSXElement) -> ast::JSXElement {
    ast::JSXElement {
        name: match &el.opening.name {
            sx::JSXElementName::Ident(i) => ast::JSXElementName::Ident(i.sym.to_string()),
            sx::JSXElementName::JSXMemberExpr(m) => ast::JSXElementName::Member(conv_jsx_member(m)),
            sx::JSXElementName::JSXNamespacedName(n) => ast::JSXElementName::Namespaced(n.ns.sym.to_string(), n.name.sym.to_string()),
        },
        attrs: el
            .opening
            .attrs
            .iter()
            .map(|a| match a {
                sx::JSXAttrOrSpread::JSXAttr(a) => ast::JSXAttrOrSpread::Attr(ast::JSXAttr {
                    name: match &a.name {
                        sx::JSXAttrName::Ident(i) => ast::JSXAttrName::Ident(i.sym.to_string()),
                        sx::JSXAttrName::JSXNamespacedName(n) => ast::JSXAttrName::Namespaced(n.ns.sym.to_string(), n.name.sym.to_string()),
                    },
                    value: a.value.as_ref().map(|v| match v {
                        sx::JSXAttrValue::Str(s) => ast::JSXAttrValue::Str(s.value.as_str().map(|x| x.to_string()), pos(cm, s.span.lo)),
                        sx::JSXAttrValue::JSXExprContainer(c) => ast::JSXAttrValue::Container(conv_container(cm, c)),
                        sx::JSXAttrValue::JSXElement(e) => ast::JSXAttrValue::Element(Box::new(conv_jsx_element(cm, e))),
                        sx::JSXAttrValue::JSXFragment(f) => ast::JSXAttrValue::Fragment(conv_jsx_children(cm, &f.children)),
                    }),
                }),
                sx::JSXAttrOrSpread::SpreadElement(s) => ast::JSXAttrOrSpread::Spread(conv_expr(cm, &s.expr)),
            })
            .collect(),
        children: conv_jsx_children(cm, &el.children),
    }
}

fn conv_jsx_children(cm: &SourceMap, children: &[sx::JSXElementChild]) -> Vec<ast::JSXChild> {
    children
        .iter()
        .map(|c| match c {
            sx::JSXElementChild::JSXText(t) => {
                let raw = t.value.to_string_lossy().to_string();
                let offset = raw.len() - raw.trim_start().len();
                ast::JSXChild::Text(raw, pos(cm, t.span.lo + BytePos(offset as u32)))
            },
            sx::JSXElementChild::JSXExprContainer(x) => ast::JSXChild::Container(conv_container(cm, x)),
            sx::JSXElementChild::JSXSpreadChild(s) => ast::JSXChild::Spread(conv_expr(cm, &s.expr)),
            sx::JSXElementChild::JSXElement(e) => ast::JSXChild::Element(Box::new(conv_jsx_element(cm, e))),
            sx::JSXElementChild::JSXFragment(f) => ast::JSXChild::Fragment(conv_jsx_children(cm, &f.children)),
        })
        .collect()
}

/// Parses TSX source text into the library's tree, with the comments and their lines.
fn parse_with_comments(code: &str) -> (ast::Module, Vec<(usize, String)>) {
    let cm = SourceMap::default();
    let file = cm.new_source_file(FileName::Real("test.tsx".into()).into(), code.to_string());
    let comments = SingleThreadedComments::default();
    let syntax = Syntax::Typescript(TsSyntax { tsx: true, ..Default::default() });
    let mut parser = Parser::new(syntax, StringInput::from(&*file), Some(&comments));
    let module = parser.parse_module().unwrap();
    let (leading, trailing) = comments.borrow_all();
    let mut list = Vec::new();
    for (_, cmts) in leading.iter().chain(trailing.iter()) {
        for c in cmts {
            list.push((cm.lookup_char_pos(c.span.lo).line, c.text.to_string()));
        }
    }
    (conv_module(&cm, &module), list)
}

/// Parses TSX source text into the library's tree.
fn parse(code: &str) -> ast::Module {
    let cm = SourceMap::default();
    let file = cm.new_source_file(FileName::Real("test.tsx".into()).into(), code.to_string());
    let syntax = Syntax::Typescript(TsSyntax { tsx: true, ..Default::default() });
    let mut parser = Parser::new(syntax, StringInput::from(&*file), None);
    let module = parser.parse_module().unwrap();
    conv_module(&cm, &module)
}

fn empty_registries() -> Registries {
    Registries {
        schema: SchemaRegistry::new(),
        key_object: KeyObjectRegistry::new(),
        key_array: KeyArrayRegistry::new(),
        string_array: StringArrayRegistry::new(),
        translation_prop: TranslationPropRegistry::new(),
        translation_fn_call: TranslationFnCallRegistry::new(),
        default_exports: StrMap::new(),
    }
}

fn create_empty_registries() -> Registries {
    empty_registries()
}

fn create_registries_with_key_objects(key_object: KeyObjectRegistry) -> Registries {
    Registries { key_object, ..empty_registries() }
}

fn create_registries_with_key_arrays(key_array: KeyArrayRegistry) -> Registries {
    Registries { key_array, ..empty_registries() }
}

fn create_registries_with_translation_props(translation_prop: TranslationPropRegistry) -> Registries {
    Registries { translation_prop, ..empty_registries() }
}

fn create_registries_with_translation_fn_calls(translation_fn_call: TranslationFnCallRegistry) -> Registries {
    Registries { translation_fn_call, ..empty_registries() }
}

fn run(code: &str, registries: &'static Registries, file_imports: &'static FileImports) -> TranslationKeyVisitor<'static> {
    let module = parse(code);
    let available_keys: &'static StrSet = Box::leak(Box::new(StrSet::new()));
    let mut visitor = TranslationKeyVisitor::new("test.tsx", registries, file_imports, code, available_keys);
    visitor.visit_module(&module);
    visitor
}

fn parse_and_extract(code: &str) -> TranslationKeyVisitor<'static> {
    let registries = Box::leak(Box::new(create_empty_registries()));
    let file_imports = Box::leak(Box::new(FileImports::new()));
    run(code, registries, file_imports)
}

fn parse_and_check(code: &str) -> MissingKeyChecker<'static> {
    parse_and_extract(code)
}

fn parse_and_extract_with_registries(code: &str, registries: &'static Registries) -> TranslationKeyVisitor<'static> {
    let file_imports = Box::leak(Box::new(FileImports::new()));
    run(code, registries, file_imports)
}

fn parse_and_check_with_registries(code: &str, registries: &'static Registries) -> MissingKeyChecker<'static> {
    parse_and_extract_with_registries(code, registries)
}

/// Collects the file's own objects and arrays first, as a project scan does.
fn parse_and_extract_with_collected_registries(code: &str) -> TranslationKeyVisitor<'static> {
    let module = parse(code);
    let mut collector = KeyObjectCollector::new("test.tsx");
    collector.visit_module(&module);
    let mut key_object = KeyObjectRegistry::new();
    let mut key_array = KeyArrayRegistry::new();
    let mut string_array = StringArrayRegistry::new();
    for obj in collector.objects {
        let key = make_registry_key(&obj.file_path, &obj.name);
        key_object.insert(key, obj);
    }
    for arr in collector.arrays {
        let key = make_registry_key(&arr.file_path, &arr.name);
        key_array.insert(key, arr);
    }
    for str_arr in collector.string_arrays {
        let key = make_registry_key(&str_arr.file_path, &str_arr.name);
        string_array.insert(key, str_arr);
    }
    let registries: &'static Registries = Box::leak(Box::new(Registries {
        key_object,
        key_array,
        string_array,
        ..empty_registries()
    }));
    let file_imports: &'static FileImports = Box::leak(Box::new(collector.imports));
    run(code, registries, file_imports)
}

fn parse_and_check_with_collected_registries(code: &str) -> MissingKeyChecker<'static> {
    parse_and_extract_with_collected_registries(code)
}

fn parse_and_collect(code: &str) -> KeyObjectCollector {
    let module = parse(code);
    let mut collector = KeyObjectCollector::new("test.ts");
    collector.visit_module(&module);
    collector
}

fn parse_and_collect_schemas(code: &str) -> Vec<SchemaFunction> {
    let module = parse(code);
    let mut collector = SchemaFunctionCollector::new("test.ts");
    collector.visit_module(&module);
    collector.functions
}

fn find_translation_lines(code: &str) -> Vec<usize> {
    let module = parse(code);
    TranslationCallFinder::new().find(&module)
}

#[test]
fn tests_test_use_translations_with_namespace() {
    {

        let code = r#"
              const t = useTranslations("Common");
              export function Button() {
                  return <button>{t("submit")}</button>;
              }
          "#;
        let visitor = parse_and_extract(code);

        assert_eq!(visitor.used_keys.len(), 1);
        assert_eq!(visitor.used_keys[0].full_key, "Common.submit");
    }
    {

        let code = r#"
              const t = useTranslations("Common");
              export function Button() {
                  return <button>{t("submit")}</button>;
              }
          "#;
        let checker = parse_and_check(code);

        assert_eq!(checker.used_keys.len(), 1);
        assert_eq!(checker.used_keys[0].full_key, "Common.submit");
    }
}

#[test]
fn tests_test_use_translations_without_namespace() {
    {

        let code = r#"
              const t = useTranslations();
              export function Button() {
                  return <button>{t("Common.submit")}</button>;
              }
          "#;
        let visitor = parse_and_extract(code);

        assert_eq!(visitor.used_keys.len(), 1);
        assert_eq!(visitor.used_keys[0].full_key, "Common.submit");
    }
    {

        let code = r#"
              const t = useTranslations();
              export function Button() {
                  return <button>{t("Common.submit")}</button>;
              }
          "#;
        let checker = parse_and_check(code);

        assert_eq!(checker.used_keys.len(), 1);
        assert_eq!(checker.used_keys[0].full_key, "Common.submit");
    }
}

#[test]
fn tests_test_await_get_translations() {
    {

        let code = r#"
              const t = await getTranslations("Auth");
              export function Page() {
                  return <div>{t("login")}</div>;
              }
          "#;
        let visitor = parse_and_extract(code);

        assert_eq!(visitor.used_keys.len(), 1);
        assert_eq!(visitor.used_keys[0].full_key, "Auth.login");
    }
    {

        let code = r#"
              const t = await getTranslations("Auth");
              export function Page() {
                  return <div>{t("login")}</div>;
              }
          "#;
        let checker = parse_and_check(code);

        assert_eq!(checker.used_keys.len(), 1);
        assert_eq!(checker.used_keys[0].full_key, "Auth.login");
    }
}

#[test]
fn tests_test_renamed_function() {
    {

        let code = r#"
              const translate = useTranslations("Common");
              export function Button() {
                  return <button>{translate("submit")}</button>;
              }
          "#;
        let visitor = parse_and_extract(code);

        assert_eq!(visitor.used_keys.len(), 1);
        assert_eq!(visitor.used_keys[0].full_key, "Common.submit");
    }
    {

        let code = r#"
              const translate = useTranslations("Common");
              export function Button() {
                  return <button>{translate("submit")}</button>;
              }
          "#;
        let checker = parse_and_check(code);

        assert_eq!(checker.used_keys.len(), 1);
        assert_eq!(checker.used_keys[0].full_key, "Common.submit");
    }
}

#[test]
fn tests_test_dynamic_key_warning() {
    {

        let code = r#"
              const t = useTranslations("Common");
              export function Button({ keyName }) {
                  return <button>{t(keyName)}</button>;
              }
          "#;
        let visitor = parse_and_extract(code);

        assert!(visitor.used_keys.is_empty());
        assert_eq!(visitor.warnings.len(), 1);
        assert!(matches!(
            visitor.warnings[0].reason,
            DynamicKeyReason::VariableKey
        ));
    }
    {

        let code = r#"
              const t = useTranslations("Common");
              export function Button({ keyName }) {
                  return <button>{t(keyName)}</button>;
              }
          "#;
        let checker = parse_and_check(code);

        assert!(checker.used_keys.is_empty());
        assert_eq!(checker.warnings.len(), 1);
        assert!(matches!(
            checker.warnings[0].reason,
            DynamicKeyReason::VariableKey
        ));
    }
}

#[test]
fn tests_test_template_with_expr_warning() {
    {

        let code = r#"
              const t = useTranslations("Common");
              export function Button({ prefix }) {
                  return <button>{t(`${prefix}.submit`)}</button>;
              }
          "#;
        let visitor = parse_and_extract(code);

        assert!(visitor.used_keys.is_empty());
        assert_eq!(visitor.warnings.len(), 1);
        assert!(matches!(
            visitor.warnings[0].reason,
            DynamicKeyReason::TemplateWithExpr
        ));
    }
    {

        let code = r#"
              const t = useTranslations("Common");
              export function Button({ prefix }) {
                  return <button>{t(`${prefix}.submit`)}</button>;
              }
          "#;
        let checker = parse_and_check(code);

        assert!(checker.used_keys.is_empty());
        assert_eq!(checker.warnings.len(), 1);
        assert!(matches!(
            checker.warnings[0].reason,
            DynamicKeyReason::TemplateWithExpr
        ));
    }
}

#[test]
fn tests_test_template_with_expr_hint_jsx_context() {
    {

        let code = r#"
            import {useTranslations} from 'next-intl';
            export function Component() {
                const t = useTranslations('Common');
                return <div>{t(`items.${id}`)}</div>;
            }
        "#;
        let visitor = parse_and_extract(code);
        assert_eq!(visitor.warnings.len(), 1);
        let hint = visitor.warnings[0].hint.as_ref().unwrap();
        assert!(hint.contains("{/* glot-message-keys"));
        assert!(hint.contains("*/}"));
    }
    {

        let code = r#"
            import {useTranslations} from 'next-intl';
            export function Component() {
                const t = useTranslations('Common');
                return <div>{t(`items.${id}`)}</div>;
            }
        "#;
        let checker = parse_and_check(code);
        assert_eq!(checker.warnings.len(), 1);
        let hint = checker.warnings[0].hint.as_ref().unwrap();
        assert!(hint.contains("{/* glot-message-keys"));
        assert!(hint.contains("*/}"));
    }
}

#[test]
fn tests_test_template_with_expr_hint_non_jsx_context() {
    {

        let code = r#"
            import {useTranslations} from 'next-intl';
            export function Component() {
                const t = useTranslations('Common');
                const message = t(`items.${id}`);
                return <div>{message}</div>;
            }
        "#;
        let visitor = parse_and_extract(code);
        assert_eq!(visitor.warnings.len(), 1);
        let hint = visitor.warnings[0].hint.as_ref().unwrap();
        assert!(hint.contains("// glot-message-keys"));
        assert!(!hint.contains("{/*"));
    }
    {

        let code = r#"
            import {useTranslations} from 'next-intl';
            export function Component() {
                const t = useTranslations('Common');
                const message = t(`items.${id}`);
                return <div>{message}</div>;
            }
        "#;
        let checker = parse_and_check(code);
        assert_eq!(checker.warnings.len(), 1);
        let hint = checker.warnings[0].hint.as_ref().unwrap();
        assert!(hint.contains("// glot-message-keys"));
        assert!(!hint.contains("{/*"));
    }
}

#[test]
fn tests_test_template_with_expr_hint_jsx_prop() {
    {

        let code = r#"
            import {useTranslations} from 'next-intl';
            export function Component() {
                const t = useTranslations('Common');
                return <input placeholder={t(`hint.${type}`)} />;
            }
        "#;
        let visitor = parse_and_extract(code);
        assert_eq!(visitor.warnings.len(), 1);
        let hint = visitor.warnings[0].hint.as_ref().unwrap();
        // Props should use // style, not {/* */}
        assert!(hint.contains("// glot-message-keys"));
        assert!(!hint.contains("{/*"));
    }
    {

        let code = r#"
            import {useTranslations} from 'next-intl';
            export function Component() {
                const t = useTranslations('Common');
                return <input placeholder={t(`hint.${type}`)} />;
            }
        "#;
        let checker = parse_and_check(code);
        assert_eq!(checker.warnings.len(), 1);
        let hint = checker.warnings[0].hint.as_ref().unwrap();
        // Props should use // style, not {/* */}
        assert!(hint.contains("// glot-message-keys"));
        assert!(!hint.contains("{/*"));
    }
}

#[test]
fn tests_test_multiple_keys() {
    {

        let code = r#"
              const t = useTranslations("Common");
              export function Form() {
                  return (
                      <form>
                          <button>{t("submit")}</button>
                          <button>{t("cancel")}</button>
                      </form>
                  );
              }
          "#;
        let visitor = parse_and_extract(code);

        assert_eq!(visitor.used_keys.len(), 2);
        assert_eq!(visitor.used_keys[0].full_key, "Common.submit");
        assert_eq!(visitor.used_keys[1].full_key, "Common.cancel");
    }
    {

        let code = r#"
              const t = useTranslations("Common");
              export function Form() {
                  return (
                      <form>
                          <button>{t("submit")}</button>
                          <button>{t("cancel")}</button>
                      </form>
                  );
              }
          "#;
        let checker = parse_and_check(code);

        assert_eq!(checker.used_keys.len(), 2);
        assert_eq!(checker.used_keys[0].full_key, "Common.submit");
        assert_eq!(checker.used_keys[1].full_key, "Common.cancel");
    }
}

#[test]
fn tests_test_key_with_dot_prepends_namespace() {
    {

        let code = r#"
              const t = useTranslations("Common");
              export function Button() {
                  return <button>{t("Button.submit")}</button>;
              }
          "#;
        let visitor = parse_and_extract(code);

        assert_eq!(visitor.used_keys.len(), 1);
        assert_eq!(visitor.used_keys[0].full_key, "Common.Button.submit");
    }
    {

        let code = r#"
              const t = useTranslations("Common");
              export function Button() {
                  return <button>{t("Button.submit")}</button>;
              }
          "#;
        let checker = parse_and_check(code);

        assert_eq!(checker.used_keys.len(), 1);
        assert_eq!(checker.used_keys[0].full_key, "Common.Button.submit");
    }
}

#[test]
fn tests_test_ternary_with_string_literals() {
    {

        let code = r#"
              const t = useTranslations("Common");
              export function Status({ approved }) {
                  return <span>{t(approved ? "approved" : "rejected")}</span>;
              }
          "#;
        let visitor = parse_and_extract(code);

        let keys: HashSet<_> = visitor
            .used_keys
            .iter()
            .map(|k| k.full_key.as_str())
            .collect();
        assert_eq!(keys.len(), 2);
        assert!(keys.contains("Common.approved"));
        assert!(keys.contains("Common.rejected"));
        assert!(visitor.warnings.is_empty());
    }
    {

        let code = r#"
              const t = useTranslations("Common");
              export function Status({ approved }) {
                  return <span>{t(approved ? "approved" : "rejected")}</span>;
              }
          "#;
        let checker = parse_and_check(code);

        // Both keys should be extracted (use HashSet for order-independent comparison)
        let keys: HashSet<_> = checker
            .used_keys
            .iter()
            .map(|k| k.full_key.as_str())
            .collect();
        assert_eq!(keys.len(), 2);
        assert!(keys.contains("Common.approved"));
        assert!(keys.contains("Common.rejected"));
        // No warnings
        assert!(checker.warnings.is_empty());
    }
}

#[test]
fn tests_test_ternary_with_mixed_branches() {
    {

        let code = r#"
              const t = useTranslations("Common");
              export function Status({ key, flag }) {
                  return <span>{t(flag ? key : "fallback")}</span>;
              }
          "#;
        let visitor = parse_and_extract(code);

        assert!(visitor.used_keys.is_empty());
        assert_eq!(visitor.warnings.len(), 1);
        assert!(matches!(
            visitor.warnings[0].reason,
            DynamicKeyReason::VariableKey
        ));
    }
    {

        let code = r#"
              const t = useTranslations("Common");
              export function Status({ key, flag }) {
                  return <span>{t(flag ? key : "fallback")}</span>;
              }
          "#;
        let checker = parse_and_check(code);

        // Should emit warning because one branch is dynamic
        assert!(checker.used_keys.is_empty());
        assert_eq!(checker.warnings.len(), 1);
        assert!(matches!(
            checker.warnings[0].reason,
            DynamicKeyReason::VariableKey
        ));
    }
}

#[test]
fn tests_test_ternary_with_template_literals() {
    {

        let code = r#"
              const t = useTranslations("Common");
              export function Status({ approved }) {
                  return <span>{t(approved ? `yes` : `no`)}</span>;
              }
          "#;
        let visitor = parse_and_extract(code);

        let keys: HashSet<_> = visitor
            .used_keys
            .iter()
            .map(|k| k.full_key.as_str())
            .collect();
        assert_eq!(keys.len(), 2);
        assert!(keys.contains("Common.yes"));
        assert!(keys.contains("Common.no"));
        assert!(visitor.warnings.is_empty());
    }
    {

        let code = r#"
              const t = useTranslations("Common");
              export function Status({ approved }) {
                  return <span>{t(approved ? `yes` : `no`)}</span>;
              }
          "#;
        let checker = parse_and_check(code);

        // Template literals without expressions should work (use HashSet)
        let keys: HashSet<_> = checker
            .used_keys
            .iter()
            .map(|k| k.full_key.as_str())
            .collect();
        assert_eq!(keys.len(), 2);
        assert!(keys.contains("Common.yes"));
        assert!(keys.contains("Common.no"));
        assert!(checker.warnings.is_empty());
    }
}

#[test]
fn tests_test_ternary_with_parens() {
    {

        let code = r#"
              const t = useTranslations("Common");
              export function Status({ flag }) {
                  t((flag) ? "a" : "b");
                  t(flag ? ("c") : ("d"));
              }
          "#;
        let visitor = parse_and_extract(code);

        let keys: HashSet<_> = visitor
            .used_keys
            .iter()
            .map(|k| k.full_key.as_str())
            .collect();
        assert_eq!(keys.len(), 4);
        assert!(keys.contains("Common.a"));
        assert!(keys.contains("Common.b"));
        assert!(keys.contains("Common.c"));
        assert!(keys.contains("Common.d"));
        assert!(visitor.warnings.is_empty());
    }
    {

        let code = r#"
              const t = useTranslations("Common");
              export function Status({ flag }) {
                  t((flag) ? "a" : "b");
                  t(flag ? ("c") : ("d"));
              }
          "#;
        let checker = parse_and_check(code);

        // All 4 keys should be extracted despite parentheses
        let keys: HashSet<_> = checker
            .used_keys
            .iter()
            .map(|k| k.full_key.as_str())
            .collect();
        assert_eq!(keys.len(), 4);
        assert!(keys.contains("Common.a"));
        assert!(keys.contains("Common.b"));
        assert!(keys.contains("Common.c"));
        assert!(keys.contains("Common.d"));
        assert!(checker.warnings.is_empty());
    }
}

#[test]
fn tests_test_ternary_template_with_expr_reason() {
    {

        let code = r#"
              const t = useTranslations("Common");
              export function Status({ flag, x }) {
                  return <span>{t(flag ? `${x}` : "fallback")}</span>;
              }
          "#;
        let visitor = parse_and_extract(code);

        assert!(visitor.used_keys.is_empty());
        assert_eq!(visitor.warnings.len(), 1);
        assert!(matches!(
            visitor.warnings[0].reason,
            DynamicKeyReason::TemplateWithExpr
        ));
    }
    {

        let code = r#"
              const t = useTranslations("Common");
              export function Status({ flag, x }) {
                  return <span>{t(flag ? `${x}` : "fallback")}</span>;
              }
          "#;
        let checker = parse_and_check(code);

        // Should emit TemplateWithExpr warning, not VariableKey
        assert!(checker.used_keys.is_empty());
        assert_eq!(checker.warnings.len(), 1);
        assert!(matches!(
            checker.warnings[0].reason,
            DynamicKeyReason::TemplateWithExpr
        ));
    }
}

#[test]
fn tests_test_resolvable_dynamic_key_local_object() {
    {



        let mut key_object = KeyObjectRegistry::new();
        key_object.insert(
            make_registry_key("test.tsx", "toolKeys"),
            KeyObject {
                name: "toolKeys".to_string(),
                file_path: "test.tsx".to_string(),
                is_exported: false,
                is_module_level: true,
                candidate_keys: vec!["createNovel".to_string(), "updateNovel".to_string()],
            },
        );
        let registries = Box::leak(Box::new(create_registries_with_key_objects(key_object)));

        let code = r#"
            const toolKeys = { createNovel: "createNovel", updateNovel: "updateNovel" };
            const t = useTranslations("Tools");
            export function Tool({ toolName }) {
                const key = toolKeys[toolName];
                return t(key);
            }
        "#;
        let visitor = parse_and_extract_with_registries(code, registries);

        assert!(visitor.warnings.is_empty());

        let resolved = visitor
            .resolved_keys
            .iter()
            .find(|k| matches!(&k.source, ValueSource::ObjectAccess { .. }))
            .expect("Should have ObjectAccess resolved key");
        assert_eq!(resolved.namespace, Some("Tools".to_string()));
        if let ValueSource::ObjectAccess {
            object_name,
            candidate_values,
        } = &resolved.source
        {
            assert_eq!(object_name, "toolKeys");
            assert_eq!(
                candidate_values,
                &vec!["createNovel".to_string(), "updateNovel".to_string()]
            );
        } else {
            panic!("Expected ObjectAccess");
        }
    }
    {



        // Create registry with a local object
        let mut key_object = KeyObjectRegistry::new();
        key_object.insert(
            make_registry_key("test.tsx", "toolKeys"),
            KeyObject {
                name: "toolKeys".to_string(),
                file_path: "test.tsx".to_string(),
                is_exported: false,
                is_module_level: true,
                candidate_keys: vec!["createNovel".to_string(), "updateNovel".to_string()],
            },
        );
        let registries = Box::leak(Box::new(create_registries_with_key_objects(key_object)));

        let code = r#"
            const toolKeys = { createNovel: "createNovel", updateNovel: "updateNovel" };
            const t = useTranslations("Tools");
            export function Tool({ toolName }) {
                const key = toolKeys[toolName];
                return t(key);
            }
        "#;
        let checker = parse_and_check_with_registries(code, registries);

        // Should have resolvable dynamic key, not warning
        assert!(checker.warnings.is_empty());

        // Find the resolved key for t(key)
        let resolved = checker
            .resolved_keys
            .iter()
            .find(|k| matches!(&k.source, ValueSource::ObjectAccess { .. }))
            .expect("Should have ObjectAccess resolved key");
        assert_eq!(resolved.namespace, Some("Tools".to_string()));
        if let ValueSource::ObjectAccess {
            object_name,
            candidate_values,
        } = &resolved.source
        {
            assert_eq!(object_name, "toolKeys");
            assert_eq!(
                candidate_values,
                &vec!["createNovel".to_string(), "updateNovel".to_string()]
            );
        } else {
            panic!("Expected ObjectAccess");
        }
    }
}

#[test]
fn tests_test_t_raw_method_call() {
    {

        let code = r#"
            const t = useTranslations("HomePage");
            const benefits = t.raw("creationMethods.benefits") as string[];
        "#;
        let visitor = parse_and_extract(code);

        assert_eq!(
            visitor.used_keys.len(),
            1,
            "t.raw() should be detected as a used key"
        );
        assert_eq!(
            visitor.used_keys[0].full_key,
            "HomePage.creationMethods.benefits"
        );
    }
    {

        // Test that t.raw("key") is detected as a translation key usage
        let code = r#"
            const t = useTranslations("HomePage");
            const benefits = t.raw("creationMethods.benefits") as string[];
        "#;
        let checker = parse_and_check(code);

        assert_eq!(
            checker.used_keys.len(),
            1,
            "t.raw() should be detected as a used key"
        );
        assert_eq!(
            checker.used_keys[0].full_key,
            "HomePage.creationMethods.benefits"
        );
    }
}

#[test]
fn tests_test_t_rich_method_call() {
    {

        let code = r#"
            const t = useTranslations("Common");
            const content = t.rich("welcome", { bold: (text) => <b>{text}</b> });
        "#;
        let visitor = parse_and_extract(code);

        assert_eq!(
            visitor.used_keys.len(),
            1,
            "t.rich() should be detected as a used key"
        );
        assert_eq!(visitor.used_keys[0].full_key, "Common.welcome");
    }
    {

        // Test that t.rich("key", {...}) is detected as a translation key usage
        let code = r#"
            const t = useTranslations("Common");
            const content = t.rich("welcome", { bold: (text) => <b>{text}</b> });
        "#;
        let checker = parse_and_check(code);

        assert_eq!(
            checker.used_keys.len(),
            1,
            "t.rich() should be detected as a used key"
        );
        assert_eq!(checker.used_keys[0].full_key, "Common.welcome");
    }
}

#[test]
fn tests_test_t_markup_method_call() {
    {

        let code = r#"
            const t = useTranslations("Common");
            const html = t.markup("richText");
        "#;
        let visitor = parse_and_extract(code);

        assert_eq!(
            visitor.used_keys.len(),
            1,
            "t.markup() should be detected as a used key"
        );
        assert_eq!(visitor.used_keys[0].full_key, "Common.richText");
    }
    {

        // Test that t.markup("key") is detected as a translation key usage
        let code = r#"
            const t = useTranslations("Common");
            const html = t.markup("richText");
        "#;
        let checker = parse_and_check(code);

        assert_eq!(
            checker.used_keys.len(),
            1,
            "t.markup() should be detected as a used key"
        );
        assert_eq!(checker.used_keys[0].full_key, "Common.richText");
    }
}

#[test]
fn tests_test_translation_prop_function_declaration() {
    {

        let mut translation_prop = TranslationPropRegistry::new();
        translation_prop.insert(
            make_translation_prop_key("AdultLandingPage", "t"),
            TranslationProp {
                component_name: "AdultLandingPage".to_string(),
                prop_name: "t".to_string(),
                namespaces: vec![Some("NSFWAIStoryGenerator".to_string())],
            },
        );
        let registries = Box::leak(Box::new(create_registries_with_translation_props(
            translation_prop,
        )));

        let code = r#"
            function AdultLandingPage({ t }: Props) {
                return <div>{t("features.title")}</div>;
            }
        "#;

        let visitor = parse_and_extract_with_registries(code, registries);

        assert_eq!(visitor.used_keys.len(), 1);
        assert_eq!(
            visitor.used_keys[0].full_key,
            "NSFWAIStoryGenerator.features.title"
        );
    }
    {

        // Create registry with a translation prop for AdultLandingPage.t
        let mut translation_prop = TranslationPropRegistry::new();
        translation_prop.insert(
            make_translation_prop_key("AdultLandingPage", "t"),
            TranslationProp {
                component_name: "AdultLandingPage".to_string(),
                prop_name: "t".to_string(),
                namespaces: vec![Some("NSFWAIStoryGenerator".to_string())],
            },
        );
        let registries = Box::leak(Box::new(create_registries_with_translation_props(
            translation_prop,
        )));

        // Component that receives t as a prop
        let code = r#"
            function AdultLandingPage({ t }: Props) {
                return <div>{t("features.title")}</div>;
            }
        "#;

        let checker = parse_and_check_with_registries(code, registries);

        // The key should be detected with the namespace from the registry
        assert_eq!(checker.used_keys.len(), 1);
        assert_eq!(
            checker.used_keys[0].full_key,
            "NSFWAIStoryGenerator.features.title"
        );
    }
}

#[test]
fn tests_test_translation_prop_arrow_function() {
    {

        let mut translation_prop = TranslationPropRegistry::new();
        translation_prop.insert(
            make_translation_prop_key("MyComponent", "translate"),
            TranslationProp {
                component_name: "MyComponent".to_string(),
                prop_name: "translate".to_string(),
                namespaces: vec![Some("Dashboard".to_string())],
            },
        );
        let registries = Box::leak(Box::new(create_registries_with_translation_props(
            translation_prop,
        )));

        let code = r#"
            const MyComponent = ({ translate }: Props) => {
                return <span>{translate("welcome")}</span>;
            };
        "#;

        let visitor = parse_and_extract_with_registries(code, registries);

        assert_eq!(visitor.used_keys.len(), 1);
        assert_eq!(visitor.used_keys[0].full_key, "Dashboard.welcome");
    }
    {

        // Create registry with a translation prop for MyComponent.translate
        let mut translation_prop = TranslationPropRegistry::new();
        translation_prop.insert(
            make_translation_prop_key("MyComponent", "translate"),
            TranslationProp {
                component_name: "MyComponent".to_string(),
                prop_name: "translate".to_string(),
                namespaces: vec![Some("Dashboard".to_string())],
            },
        );
        let registries = Box::leak(Box::new(create_registries_with_translation_props(
            translation_prop,
        )));

        // Arrow function component
        let code = r#"
            const MyComponent = ({ translate }: Props) => {
                return <span>{translate("welcome")}</span>;
            };
        "#;

        let checker = parse_and_check_with_registries(code, registries);

        assert_eq!(checker.used_keys.len(), 1);
        assert_eq!(checker.used_keys[0].full_key, "Dashboard.welcome");
    }
}

#[test]
fn tests_test_translation_fn_call_arrow_function() {
    {

        let mut translation_fn_call = TranslationFnCallRegistry::new();
        translation_fn_call.insert(
            make_translation_fn_call_key("test.tsx", "usageTypeLabels", 0),
            TranslationFnCall {
                fn_file_path: "test.tsx".to_string(),
                fn_name: "usageTypeLabels".to_string(),
                arg_index: 0,
                namespaces: vec![Some("CreditsUsageList".to_string())],
            },
        );
        let registries = Box::leak(Box::new(create_registries_with_translation_fn_calls(
            translation_fn_call,
        )));

        let code = r#"
            const usageTypeLabels = (t) => ({
                ai_chapter_generation: t("usageTypes.ai_chapter_generation"),
                ai_completion_plan: t("usageTypes.ai_completion_plan"),
            });
        "#;

        let visitor = parse_and_extract_with_registries(code, registries);

        assert_eq!(visitor.used_keys.len(), 2);
        let keys: HashSet<&str> = visitor
            .used_keys
            .iter()
            .map(|k| k.full_key.as_str())
            .collect();
        assert!(keys.contains("CreditsUsageList.usageTypes.ai_chapter_generation"));
        assert!(keys.contains("CreditsUsageList.usageTypes.ai_completion_plan"));
    }
    {

        // Create registry with a translation function call for usageTypeLabels
        let mut translation_fn_call = TranslationFnCallRegistry::new();
        translation_fn_call.insert(
            make_translation_fn_call_key("test.tsx", "usageTypeLabels", 0),
            TranslationFnCall {
                fn_file_path: "test.tsx".to_string(),
                fn_name: "usageTypeLabels".to_string(),
                arg_index: 0,
                namespaces: vec![Some("CreditsUsageList".to_string())],
            },
        );
        let registries = Box::leak(Box::new(create_registries_with_translation_fn_calls(
            translation_fn_call,
        )));

        let code = r#"
            const usageTypeLabels = (t) => ({
                ai_chapter_generation: t("usageTypes.ai_chapter_generation"),
                ai_completion_plan: t("usageTypes.ai_completion_plan"),
            });
        "#;

        let checker = parse_and_check_with_registries(code, registries);

        assert_eq!(checker.used_keys.len(), 2);
        let keys: HashSet<&str> = checker
            .used_keys
            .iter()
            .map(|k| k.full_key.as_str())
            .collect();
        assert!(keys.contains("CreditsUsageList.usageTypes.ai_chapter_generation"));
        assert!(keys.contains("CreditsUsageList.usageTypes.ai_completion_plan"));
    }
}

#[test]
fn tests_test_translation_fn_call_function_declaration() {
    {

        let mut translation_fn_call = TranslationFnCallRegistry::new();
        translation_fn_call.insert(
            make_translation_fn_call_key("test.tsx", "buildLabels", 0),
            TranslationFnCall {
                fn_file_path: "test.tsx".to_string(),
                fn_name: "buildLabels".to_string(),
                arg_index: 0,
                namespaces: vec![Some("MyNamespace".to_string())],
            },
        );
        let registries = Box::leak(Box::new(create_registries_with_translation_fn_calls(
            translation_fn_call,
        )));

        let code = r#"
            function buildLabels(t) {
                return {
                    submit: t("submit"),
                    cancel: t("cancel"),
                };
            }
        "#;

        let visitor = parse_and_extract_with_registries(code, registries);

        assert_eq!(visitor.used_keys.len(), 2);
        let keys: HashSet<&str> = visitor
            .used_keys
            .iter()
            .map(|k| k.full_key.as_str())
            .collect();
        assert!(keys.contains("MyNamespace.submit"));
        assert!(keys.contains("MyNamespace.cancel"));
    }
    {

        let mut translation_fn_call = TranslationFnCallRegistry::new();
        translation_fn_call.insert(
            make_translation_fn_call_key("test.tsx", "buildLabels", 0),
            TranslationFnCall {
                fn_file_path: "test.tsx".to_string(),
                fn_name: "buildLabels".to_string(),
                arg_index: 0,
                namespaces: vec![Some("MyNamespace".to_string())],
            },
        );
        let registries = Box::leak(Box::new(create_registries_with_translation_fn_calls(
            translation_fn_call,
        )));

        let code = r#"
            function buildLabels(t) {
                return {
                    submit: t("submit"),
                    cancel: t("cancel"),
                };
            }
        "#;

        let checker = parse_and_check_with_registries(code, registries);

        assert_eq!(checker.used_keys.len(), 2);
        let keys: HashSet<&str> = checker
            .used_keys
            .iter()
            .map(|k| k.full_key.as_str())
            .collect();
        assert!(keys.contains("MyNamespace.submit"));
        assert!(keys.contains("MyNamespace.cancel"));
    }
}

#[test]
fn tests_test_nested_function_binding_shadowing() {
    {

        let code = r#"
            const t = useTranslations("Outer");

            function Parent() {
                return <div>{t("outerKey")}</div>;
            }

            function Child() {
                const t = useTranslations("Inner");
                return <div>{t("innerKey")}</div>;
            }
        "#;
        let visitor = parse_and_extract(code);

        assert_eq!(visitor.used_keys.len(), 2);
        assert!(
            visitor
                .used_keys
                .iter()
                .any(|k| k.full_key == "Outer.outerKey")
        );
        assert!(
            visitor
                .used_keys
                .iter()
                .any(|k| k.full_key == "Inner.innerKey")
        );
    }
    {

        // Test that inner function's t shadows outer t
        let code = r#"
            const t = useTranslations("Outer");

            function Parent() {
                // Uses outer t
                return <div>{t("outerKey")}</div>;
            }

            function Child() {
                const t = useTranslations("Inner");  // shadows module-level t
                return <div>{t("innerKey")}</div>;
            }
        "#;
        let checker = parse_and_check(code);

        assert_eq!(checker.used_keys.len(), 2);
        assert!(
            checker
                .used_keys
                .iter()
                .any(|k| k.full_key == "Outer.outerKey")
        );
        assert!(
            checker
                .used_keys
                .iter()
                .any(|k| k.full_key == "Inner.innerKey")
        );
    }
}

#[test]
fn tests_test_translation_binding_does_not_leak_between_siblings() {
    {

        let code = r#"
            function ComponentA() {
                const t = useTranslations("A");
                return <div>{t("keyA")}</div>;
            }

            function ComponentB() {
                return <div>{t("keyB")}</div>;
            }
        "#;
        let visitor = parse_and_extract(code);

        assert_eq!(visitor.used_keys.len(), 1);
        assert_eq!(visitor.used_keys[0].full_key, "A.keyA");
    }
    {

        // Test that t defined in one function doesn't affect sibling functions
        let code = r#"
            function ComponentA() {
                const t = useTranslations("A");
                return <div>{t("keyA")}</div>;
            }

            function ComponentB() {
                // No t defined here - t("keyB") should NOT be detected
                return <div>{t("keyB")}</div>;
            }
        "#;
        let checker = parse_and_check(code);

        // Only ComponentA's key should be detected
        assert_eq!(checker.used_keys.len(), 1);
        assert_eq!(checker.used_keys[0].full_key, "A.keyA");
    }
}

#[test]
fn tests_test_relative_pattern_with_direct_namespace() {
    {

        let code = r#"
            const t = useTranslations("Features");
            // glot-message-keys ".items.*.title"
            const title = t(`items.${key}.title`);
        "#;
        let visitor = parse_and_extract(code);

        assert_eq!(visitor.used_keys.len(), 1);
        assert_eq!(visitor.used_keys[0].full_key, "Features.items.*.title");
    }
    {

        let code = r#"
            const t = useTranslations("Features");
            // glot-message-keys ".items.*.title"
            const title = t(`items.${key}.title`);
        "#;
        let checker = parse_and_check(code);

        // The relative pattern `.items.*.title` should be expanded to `Features.items.*.title`
        assert_eq!(checker.used_keys.len(), 1);
        assert_eq!(checker.used_keys[0].full_key, "Features.items.*.title");
    }
}

#[test]
fn tests_test_relative_pattern_without_namespace() {
    {

        let code = r#"
            const t = useTranslations();
            // glot-message-keys ".items.title"
            const title = t(`items.${key}.title`);
        "#;
        let visitor = parse_and_extract(code);

        assert_eq!(visitor.used_keys.len(), 1);
        assert_eq!(visitor.used_keys[0].full_key, "items.title");
    }
    {

        let code = r#"
            const t = useTranslations();
            // glot-message-keys ".items.title"
            const title = t(`items.${key}.title`);
        "#;
        let checker = parse_and_check(code);

        // Without namespace, the relative pattern `.items.title` becomes just `items.title`
        assert_eq!(checker.used_keys.len(), 1);
        assert_eq!(checker.used_keys[0].full_key, "items.title");
    }
}

#[test]
fn tests_test_mixed_absolute_and_relative_patterns() {
    {

        let code = r#"
            const t = useTranslations("Page");
            // glot-message-keys "Common.button", ".features.title"
            const label = t(dynamic);
        "#;
        let visitor = parse_and_extract(code);

        assert_eq!(visitor.used_keys.len(), 2);
        let keys: Vec<&str> = visitor
            .used_keys
            .iter()
            .map(|k| k.full_key.as_str())
            .collect();
        assert!(keys.contains(&"Common.button"));
        assert!(keys.contains(&"Page.features.title"));
    }
    {

        let code = r#"
            const t = useTranslations("Page");
            // glot-message-keys "Common.button", ".features.title"
            const label = t(dynamic);
        "#;
        let checker = parse_and_check(code);

        assert_eq!(checker.used_keys.len(), 2);
        let keys: Vec<&str> = checker
            .used_keys
            .iter()
            .map(|k| k.full_key.as_str())
            .collect();
        assert!(keys.contains(&"Common.button")); // Absolute pattern
        assert!(keys.contains(&"Page.features.title")); // Relative pattern expanded
    }
}

#[test]
fn tests_test_string_array_iteration_feature_keys() {
    {

            let code = r#"
                const FEATURE_KEYS = ["save", "characters", "chapters", "ai"] as const;
                const t = useTranslations("Ns");
                export function Comp() {
                    return FEATURE_KEYS.map((featureKey) => (
                        <li key={featureKey}>{t(`features.${featureKey}`)}</li>
                    ));
                }
            "#;
            let visitor = parse_and_extract_with_collected_registries(code);

            assert!(visitor.warnings.is_empty());
            assert_eq!(visitor.resolved_keys.len(), 1);
            let resolved = &visitor.resolved_keys[0];
            assert_eq!(resolved.namespace, Some("Ns".to_string()));

            let keys = resolved.source.resolve_keys().unwrap();
            assert_eq!(keys.len(), 4);
            assert!(keys.contains(&"features.save".to_string()));
            assert!(keys.contains(&"features.characters".to_string()));
            assert!(keys.contains(&"features.chapters".to_string()));
            assert!(keys.contains(&"features.ai".to_string()));
    }
    {

            let code = r#"
                const FEATURE_KEYS = ["save", "characters", "chapters", "ai"] as const;
                const t = useTranslations("Ns");
                export function Comp() {
                    return FEATURE_KEYS.map((featureKey) => (
                        <li key={featureKey}>{t(`features.${featureKey}`)}</li>
                    ));
                }
            "#;
            let checker = parse_and_check_with_collected_registries(code);

            // No warnings - keys are resolvable through StringArrayRegistry
            assert!(checker.warnings.is_empty());

            // Check resolved_keys contains the right ValueSource
            assert_eq!(checker.resolved_keys.len(), 1);
            let resolved = &checker.resolved_keys[0];
            assert_eq!(resolved.namespace, Some("Ns".to_string()));

            // Verify it resolves to the expected keys
            let keys = resolved.source.resolve_keys().unwrap();
            assert_eq!(keys.len(), 4);
            assert!(keys.contains(&"features.save".to_string()));
            assert!(keys.contains(&"features.characters".to_string()));
            assert!(keys.contains(&"features.chapters".to_string()));
            assert!(keys.contains(&"features.ai".to_string()));
    }
}

#[test]
fn tests_test_string_array_iteration_genders() {
    {

            let code = r#"
                const SUPPORTED_GENDERS = ["male", "female", "other"] as const;
                const t = useTranslations("Form");
                export function Comp() {
                    return SUPPORTED_GENDERS.map((gender) => (
                        <option key={gender}>{t(`genderOptions.${gender}`)}</option>
                    ));
                }
            "#;
            let visitor = parse_and_extract_with_collected_registries(code);

            assert!(visitor.warnings.is_empty());
            assert_eq!(visitor.resolved_keys.len(), 1);
            let keys = visitor.resolved_keys[0].source.resolve_keys().unwrap();
            assert_eq!(keys.len(), 3);
            assert!(keys.contains(&"genderOptions.male".to_string()));
            assert!(keys.contains(&"genderOptions.female".to_string()));
            assert!(keys.contains(&"genderOptions.other".to_string()));
    }
    {

            let code = r#"
                const SUPPORTED_GENDERS = ["male", "female", "other"] as const;
                const t = useTranslations("Form");
                export function Comp() {
                    return SUPPORTED_GENDERS.map((gender) => (
                        <option key={gender}>{t(`genderOptions.${gender}`)}</option>
                    ));
                }
            "#;
            let checker = parse_and_check_with_collected_registries(code);

            // No warnings - keys are resolvable
            assert!(checker.warnings.is_empty());

            // Check resolved keys
            assert_eq!(checker.resolved_keys.len(), 1);
            let keys = checker.resolved_keys[0].source.resolve_keys().unwrap();
            assert_eq!(keys.len(), 3);
            assert!(keys.contains(&"genderOptions.male".to_string()));
            assert!(keys.contains(&"genderOptions.female".to_string()));
            assert!(keys.contains(&"genderOptions.other".to_string()));
    }
}

#[test]
fn tests_test_param_property_unresolvable() {
    {

            let code = r#"
                const t = useTranslations("Card");
                export function Component({ character }: { character: Character }) {
                    return <span>{t(`genderOptions.${character.gender}`)}</span>;
                }
            "#;
            let visitor = parse_and_extract_with_collected_registries(code);

            assert_eq!(visitor.warnings.len(), 1);
            assert!(matches!(
                visitor.warnings[0].reason,
                DynamicKeyReason::TemplateWithExpr
            ));

            assert_eq!(visitor.resolved_keys.len(), 1);
            assert!(visitor.resolved_keys[0].source.resolve_keys().is_err());
    }
    {

            let code = r#"
                const t = useTranslations("Card");
                export function Component({ character }: { character: Character }) {
                    return <span>{t(`genderOptions.${character.gender}`)}</span>;
                }
            "#;
            let checker = parse_and_check_with_collected_registries(code);

            // Warning expected - character is a function parameter, unresolvable
            assert_eq!(checker.warnings.len(), 1);
            assert!(matches!(
                checker.warnings[0].reason,
                DynamicKeyReason::TemplateWithExpr
            ));

            // Check resolved_keys shows Unresolvable
            assert_eq!(checker.resolved_keys.len(), 1);
            assert!(checker.resolved_keys[0].source.resolve_keys().is_err());
    }
}

#[test]
fn tests_test_static_string_literal() {
    {

            let code = r#"
                const t = useTranslations("Ns");
                export function Comp() {
                    return <span>{t("static.key")}</span>;
                }
            "#;
            let visitor = parse_and_extract(code);

            assert!(visitor.warnings.is_empty());
            assert_eq!(visitor.used_keys.len(), 1);
            assert_eq!(visitor.used_keys[0].full_key, "Ns.static.key");
    }
    {

            let code = r#"
                const t = useTranslations("Ns");
                export function Comp() {
                    return <span>{t("static.key")}</span>;
                }
            "#;
            let checker = parse_and_check(code);

            // Static string should be extracted as UsedKey
            assert!(checker.warnings.is_empty());
            assert_eq!(checker.used_keys.len(), 1);
            assert_eq!(checker.used_keys[0].full_key, "Ns.static.key");
    }
}

#[test]
fn tests_test_nested_iterators_with_same_param_name() {
    {

            let code = r#"
                const OUTER = [{ key: "outer1" }, { key: "outer2" }];
                const INNER = [{ key: "inner1" }, { key: "inner2" }];
                const t = useTranslations("Ns");
                export function Comp() {
                    return OUTER.map(item => (
                        <div>
                            {t(`outer.${item.key}`)}
                            {INNER.map(item => t(`inner.${item.key}`))}
                        </div>
                    ));
                }
            "#;

            let visitor = parse_and_extract_with_collected_registries(code);

            assert_eq!(visitor.resolved_keys.len(), 2);

            for key in &visitor.resolved_keys {
                let result = key.source.resolve_keys();
                assert!(result.is_ok(), "Key should resolve, but got: {:?}", result);
            }

            let all_keys: Vec<String> = visitor
                .resolved_keys
                .iter()
                .flat_map(|k| k.source.resolve_keys().unwrap())
                .collect();

            assert!(all_keys.iter().any(|k| k.starts_with("outer.")));
            assert!(all_keys.iter().any(|k| k.starts_with("inner.")));

            assert!(all_keys.contains(&"outer.outer1".to_string()));
            assert!(all_keys.contains(&"outer.outer2".to_string()));
            assert!(all_keys.contains(&"inner.inner1".to_string()));
            assert!(all_keys.contains(&"inner.inner2".to_string()));
    }
    {

            // Test that nested iterators with the same param name don't conflict
            let code = r#"
                const OUTER = [{ key: "outer1" }, { key: "outer2" }];
                const INNER = [{ key: "inner1" }, { key: "inner2" }];
                const t = useTranslations("Ns");
                export function Comp() {
                    return OUTER.map(item => (
                        <div>
                            {t(`outer.${item.key}`)}
                            {INNER.map(item => t(`inner.${item.key}`))}
                        </div>
                    ));
                }
            "#;

            let checker = parse_and_check_with_collected_registries(code);

            // Should have 2 resolved keys: one from OUTER and one from INNER
            assert_eq!(checker.resolved_keys.len(), 2);

            // Both should resolve successfully (no unresolvable warnings)
            for key in &checker.resolved_keys {
                let result = key.source.resolve_keys();
                assert!(result.is_ok(), "Key should resolve, but got: {:?}", result);
            }

            // Check the resolved values
            let all_keys: Vec<String> = checker
                .resolved_keys
                .iter()
                .flat_map(|k| k.source.resolve_keys().unwrap())
                .collect();

            // Should contain outer keys with "outer." prefix
            assert!(all_keys.iter().any(|k| k.starts_with("outer.")));
            // Should contain inner keys with "inner." prefix
            assert!(all_keys.iter().any(|k| k.starts_with("inner.")));

            // Verify specific keys
            assert!(all_keys.contains(&"outer.outer1".to_string()));
            assert!(all_keys.contains(&"outer.outer2".to_string()));
            assert!(all_keys.contains(&"inner.inner1".to_string()));
            assert!(all_keys.contains(&"inner.inner2".to_string()));
    }
}

#[test]
fn tests_test_function_scoped_object_resolvable() {
    {

            let code = r#"
                import { useTranslations } from "next-intl";

                export function useToolDisplayName(toolName: string): string {
                    const t = useTranslations("ToolApprovals.tools");
                    const toolKeys: Record<string, string> = {
                        createNovel: "createNovel",
                        updateNovel: "updateNovel",
                    };
                    const key = toolKeys[toolName];
                    if (key) {
                        return t(key);
                    }
                    return toolName;
                }
            "#;
            let visitor = parse_and_extract_with_collected_registries(code);

            assert!(
                visitor.warnings.is_empty(),
                "Function-scoped object should be resolvable, got warnings: {:?}",
                visitor.warnings
            );

            let resolved = visitor
                .resolved_keys
                .iter()
                .find(|k| {
                    matches!(
                        &k.source,
                        ValueSource::ObjectAccess { .. }
                    )
                })
                .expect("Should have ObjectAccess resolved key");

            assert_eq!(resolved.namespace, Some("ToolApprovals.tools".to_string()));

            let keys = resolved.source.resolve_keys().unwrap();
            assert!(keys.contains(&"createNovel".to_string()));
            assert!(keys.contains(&"updateNovel".to_string()));
    }
    {

            let code = r#"
                import { useTranslations } from "next-intl";

                export function useToolDisplayName(toolName: string): string {
                    const t = useTranslations("ToolApprovals.tools");
                    const toolKeys: Record<string, string> = {
                        createNovel: "createNovel",
                        updateNovel: "updateNovel",
                    };
                    const key = toolKeys[toolName];
                    if (key) {
                        return t(key);
                    }
                    return toolName;
                }
            "#;
            let checker = parse_and_check_with_collected_registries(code);

            // Should NOT emit dynamic key warning - the object is in the same file
            assert!(
                checker.warnings.is_empty(),
                "Function-scoped object should be resolvable, got warnings: {:?}",
                checker.warnings
            );

            // Check resolved_keys contains the object access
            let resolved = checker
                .resolved_keys
                .iter()
                .find(|k| {
                    matches!(
                        &k.source,
                        ValueSource::ObjectAccess { .. }
                    )
                })
                .expect("Should have ObjectAccess resolved key");

            // Verify namespace
            assert_eq!(resolved.namespace, Some("ToolApprovals.tools".to_string()));

            // Verify candidate keys
            let keys = resolved.source.resolve_keys().unwrap();
            assert!(keys.contains(&"createNovel".to_string()));
            assert!(keys.contains(&"updateNovel".to_string()));
    }
}

#[test]
fn test_resolvable_dynamic_key_without_namespace() {



    let mut key_object = KeyObjectRegistry::new();
    key_object.insert(
        make_registry_key("test.tsx", "keys"),
        KeyObject {
            name: "keys".to_string(),
            file_path: "test.tsx".to_string(),
            is_exported: false,
            is_module_level: true,
            candidate_keys: vec!["key1".to_string()],
        },
    );
    let registries = Box::leak(Box::new(create_registries_with_key_objects(key_object)));

    let code = r#"
        const keys = { a: "key1" };
        const t = useTranslations();
        export function Comp({ name }) {
            const k = keys[name];
            return t(k);
        }
    "#;
    let checker = parse_and_check_with_registries(code, registries);

    assert!(checker.warnings.is_empty());

    // Find the resolved key for t(k)
    let resolved = checker
        .resolved_keys
        .iter()
        .find(|k| matches!(&k.source, ValueSource::ObjectAccess { .. }))
        .expect("Should have ObjectAccess resolved key");
    assert_eq!(resolved.namespace, None);
}

#[test]
fn test_unresolvable_dynamic_key_unknown_object() {

    // Empty registry - object not found
    let registries = Box::leak(Box::new(create_empty_registries()));

    let code = r#"
        const unknownKeys = { a: "a" };
        const t = useTranslations("Common");
        export function Comp({ name }) {
            const key = unknownKeys[name];
            return t(key);
        }
    "#;
    let checker = parse_and_check_with_registries(code, registries);

    // Should emit warning since object is not in registry
    assert_eq!(checker.warnings.len(), 1);
    assert!(matches!(
        checker.warnings[0].reason,
        DynamicKeyReason::VariableKey
    ));
}

#[test]
fn test_unresolvable_dynamic_key_no_object_access() {

    let registries = Box::leak(Box::new(create_empty_registries()));

    let code = r#"
        const t = useTranslations("Common");
        export function Comp({ keyFromProps }) {
            // key comes from props, not from object access
            return t(keyFromProps);
        }
    "#;
    let checker = parse_and_check_with_registries(code, registries);

    // Should emit warning since variable source is unknown
    assert_eq!(checker.warnings.len(), 1);
    assert!(matches!(
        checker.warnings[0].reason,
        DynamicKeyReason::VariableKey
    ));
}

#[test]
fn test_resolvable_template_key_with_array() {



    // Create array registry
    let mut key_array = KeyArrayRegistry::new();
    let mut property_values = StrMap::new();
    property_values.insert(
        "titleKey".to_string(),
        vec![
            "novelManagement".to_string(),
            "characterDevelopment".to_string(),
        ],
    );
    key_array.insert(
        make_registry_key("test.tsx", "capabilities"),
        KeyArray {
            name: "capabilities".to_string(),
            file_path: "test.tsx".to_string(),
            is_exported: false,
            is_module_level: true,
            property_values,
        },
    );
    let registries = Box::leak(Box::new(create_registries_with_key_arrays(key_array)));

    let code = r#"
        const capabilities = [
            { titleKey: "novelManagement" },
            { titleKey: "characterDevelopment" },
        ];
        const t = useTranslations("Ns");
        export function Comp() {
            return capabilities.map(cap => (
                <div>{t(`capabilities.${cap.titleKey}.title`)}</div>
            ));
        }
    "#;
    let checker = parse_and_check_with_registries(code, registries);

    // Should resolve template key, no warning
    assert!(checker.warnings.is_empty());

    // Find the resolved Template key
    let resolved = checker
        .resolved_keys
        .iter()
        .find(|k| matches!(&k.source, ValueSource::Template { .. }))
        .expect("Should have Template resolved key");

    if let ValueSource::Template {
        prefix,
        suffix,
        inner,
    } = &resolved.source
    {
        assert_eq!(prefix, "capabilities.");
        assert_eq!(suffix, ".title");
        if let ValueSource::ArrayIteration {
            property_name,
            candidate_values,
            ..
        } = inner.as_ref()
        {
            assert_eq!(property_name, "titleKey");
            assert_eq!(
                candidate_values,
                &vec![
                    "novelManagement".to_string(),
                    "characterDevelopment".to_string()
                ]
            );
        } else {
            panic!("Expected ArrayIteration inner");
        }
    } else {
        panic!("Expected Template");
    }
}

#[test]
fn test_template_with_untracked_iterator() {

    // Empty registries
    let registries = Box::leak(Box::new(create_empty_registries()));

    let code = r#"
        const t = useTranslations("Ns");
        export function Comp({ items }) {
            return items.map(item => (
                <div>{t(`prefix.${item.key}.suffix`)}</div>
            ));
        }
    "#;
    let checker = parse_and_check_with_registries(code, registries);

    // Should emit warning since array is not in registry
    assert_eq!(checker.warnings.len(), 1);
    assert!(matches!(
        checker.warnings[0].reason,
        DynamicKeyReason::TemplateWithExpr
    ));
}

#[test]
fn test_template_with_multiple_expressions() {

    let registries = Box::leak(Box::new(create_empty_registries()));

    let code = r#"
        const t = useTranslations("Ns");
        export function Comp() {
            return t(`${prefix}.${suffix}`);
        }
    "#;
    let checker = parse_and_check_with_registries(code, registries);

    // Templates with multiple expressions should emit warning
    assert_eq!(checker.warnings.len(), 1);
    assert!(matches!(
        checker.warnings[0].reason,
        DynamicKeyReason::TemplateWithExpr
    ));
}

#[test]
fn test_iterator_source_tracking_foreach() {



    let mut key_array = KeyArrayRegistry::new();
    let mut property_values = StrMap::new();
    property_values.insert("key".to_string(), vec!["value1".to_string()]);
    key_array.insert(
        make_registry_key("test.tsx", "items"),
        KeyArray {
            name: "items".to_string(),
            file_path: "test.tsx".to_string(),
            is_exported: false,
            is_module_level: true,
            property_values,
        },
    );
    let registries = Box::leak(Box::new(create_registries_with_key_arrays(key_array)));

    let code = r#"
        const items = [{ key: "value1" }];
        const t = useTranslations("Ns");
        export function Comp() {
            items.forEach(item => {
                console.log(t(`prefix.${item.key}.suffix`));
            });
        }
    "#;
    let checker = parse_and_check_with_registries(code, registries);

    assert!(checker.warnings.is_empty());
    // Check that we have a resolved Template key
    assert!(
        checker
            .resolved_keys
            .iter()
            .any(|k| matches!(&k.source, ValueSource::Template { .. }))
    );
}

#[test]
fn test_function_return_unresolvable() {

        let code = r#"
            const t = useTranslations("Upload");
            export function Comp() {
                const result = validateFile(file);
                return <span>{t(`error.${result.error}`)}</span>;
            }
        "#;
        let checker = parse_and_check_with_collected_registries(code);

        // Warning expected - result is a function call result, unresolvable
        assert_eq!(checker.warnings.len(), 1);
}

#[test]
fn test_conditional_with_variable_unresolvable() {

        let code = r#"
            const t = useTranslations("Wizard");
            export function Comp() {
                const [currentStep, setCurrentStep] = useState(0);
                return <h1>{t(`step${currentStep === 4 ? 5 : currentStep}.title`)}</h1>;
            }
        "#;
        let checker = parse_and_check_with_collected_registries(code);

        // Warning expected - currentStep is a variable from useState, unresolvable
        assert_eq!(checker.warnings.len(), 1);
}

#[test]
fn test_simple_conditional_both_literals() {

        let code = r#"
            const t = useTranslations("Ns");
            export function Comp({ condition }) {
                return <span>{t(condition ? "keyA" : "keyB")}</span>;
            }
        "#;
        let checker = parse_and_check(code);

        // Both sides are literals - extract both keys
        assert!(checker.warnings.is_empty());
        assert_eq!(checker.used_keys.len(), 2);

        let keys: HashSet<_> = checker
            .used_keys
            .iter()
            .map(|k| k.full_key.as_str())
            .collect();
        assert!(keys.contains("Ns.keyA"));
        assert!(keys.contains("Ns.keyB"));
}

#[test]
fn test_nested_string_array_conditional() {

        let code = r#"
            const KEYS = ["a", "b"] as const;
            const t = useTranslations("Ns");
            export function Comp({ flag }) {
                return KEYS.map(k => (
                    <span key={k}>{t(flag ? `${k}.plural` : `${k}.singular`)}</span>
                ));
            }
        "#;
        let checker = parse_and_check_with_collected_registries(code);

        // No warnings - all branches are resolvable
        assert!(checker.warnings.is_empty());

        // Check resolved_keys
        assert_eq!(checker.resolved_keys.len(), 1);
        let keys = checker.resolved_keys[0].source.resolve_keys().unwrap();
        assert_eq!(keys.len(), 4);
        assert!(keys.contains(&"a.plural".to_string()));
        assert!(keys.contains(&"b.plural".to_string()));
        assert!(keys.contains(&"a.singular".to_string()));
        assert!(keys.contains(&"b.singular".to_string()));
}

#[test]
fn tests_test_logical_or_expression() {

        let code = r#"
            const t = useTranslations("Ns");
            export function Comp({ key }) {
                return <span>{t(key || "fallback")}</span>;
            }
        "#;
        let checker = parse_and_check_with_collected_registries(code);

        // Warning expected - left side is a variable, unresolvable
        assert_eq!(checker.warnings.len(), 1);
}

#[test]
fn test_multi_expr_template_unresolvable() {

        let code = r#"
            const t = useTranslations("Ns");
            export function Comp({ prefix, suffix }) {
                return <span>{t(`${prefix}.${suffix}`)}</span>;
            }
        "#;
        let checker = parse_and_check(code);

        // Multi-expression templates should emit warning
        assert_eq!(checker.warnings.len(), 1);
        assert!(matches!(
            checker.warnings[0].reason,
            DynamicKeyReason::TemplateWithExpr
        ));
}

#[test]
fn test_foreach_string_array_iteration() {

        let code = r#"
            const KEYS = ["a", "b"] as const;
            const t = useTranslations("Ns");
            export function Comp() {
                KEYS.forEach(k => {
                    console.log(t(`prefix.${k}`));
                });
                return null;
            }
        "#;
        let checker = parse_and_check_with_collected_registries(code);

        // forEach should work like map - iterator is recognized
        assert!(checker.warnings.is_empty());

        // Check resolved_keys
        assert_eq!(checker.resolved_keys.len(), 1);
        let keys = checker.resolved_keys[0].source.resolve_keys().unwrap();
        assert_eq!(keys.len(), 2);
        assert!(keys.contains(&"prefix.a".to_string()));
        assert!(keys.contains(&"prefix.b".to_string()));
}

#[test]
fn test_nested_conditional_expression() {

        let code = r#"
            const t = useTranslations("Ns");
            export function Comp({ flag1, flag2 }) {
                return <span>{t(flag1 ? (flag2 ? "keyA" : "keyB") : "keyC")}</span>;
            }
        "#;
        let checker = parse_and_check(code);

        // All branches are string literals - should resolve without warnings
        assert!(checker.warnings.is_empty());
        assert_eq!(checker.resolved_keys.len(), 1);

        let keys = checker.resolved_keys[0].source.resolve_keys().unwrap();
        assert_eq!(keys.len(), 3);
        assert!(keys.contains(&"keyA".to_string()));
        assert!(keys.contains(&"keyB".to_string()));
        assert!(keys.contains(&"keyC".to_string()));
}

#[test]
fn test_logical_and_expression() {

        let code = r#"
            const t = useTranslations("Ns");
            export function Comp({ isEnabled }) {
                return <span>{t(isEnabled && "feature.enabled")}</span>;
            }
        "#;
        let checker = parse_and_check(code);

        // Logical AND is not currently supported for key resolution
        // Left side is a variable, should emit a warning
        assert_eq!(checker.warnings.len(), 1);
}

#[test]
fn test_sibling_iterators_with_same_param_name() {

        // Test that sibling (not nested) iterators with the same param name
        // correctly resolve to their respective arrays
        let code = r#"
            const ARRAY_A = [{ key: "a1" }, { key: "a2" }];
            const ARRAY_B = [{ key: "b1" }, { key: "b2" }];
            const t = useTranslations("Ns");
            export function Comp() {
                return (
                    <>
                        {ARRAY_A.map(item => <span>{t(`a.${item.key}`)}</span>)}
                        {ARRAY_B.map(item => <span>{t(`b.${item.key}`)}</span>)}
                    </>
                );
            }
        "#;

        let checker = parse_and_check_with_collected_registries(code);

        // Should have 2 resolved keys
        assert_eq!(checker.resolved_keys.len(), 2);

        // Check the resolved values
        let all_keys: Vec<String> = checker
            .resolved_keys
            .iter()
            .flat_map(|k| k.source.resolve_keys().unwrap())
            .collect();

        // Verify specific keys from both arrays
        assert!(all_keys.contains(&"a.a1".to_string()));
        assert!(all_keys.contains(&"a.a2".to_string()));
        assert!(all_keys.contains(&"b.b1".to_string()));
        assert!(all_keys.contains(&"b.b2".to_string()));
}

#[test]
fn test_t_raw_with_await_get_translations() {

    // Test that async getTranslations + t.raw() works
    let code = r#"
        const t = await getTranslations("HomePage");
        const benefits = t.raw("features.list") as string[];
    "#;
    let checker = parse_and_check(code);

    assert_eq!(
        checker.used_keys.len(),
        1,
        "t.raw() with async getTranslations should be detected"
    );
    assert_eq!(checker.used_keys[0].full_key, "HomePage.features.list");
}

#[test]
fn test_t_raw_without_namespace() {

    // Test t.raw() when useTranslations has no namespace
    let code = r#"
        const t = useTranslations();
        const items = t.raw("Page.items") as string[];
    "#;
    let checker = parse_and_check(code);

    assert_eq!(
        checker.used_keys.len(),
        1,
        "t.raw() without namespace should be detected"
    );
    // Without namespace, key should be used as-is
    assert_eq!(checker.used_keys[0].full_key, "Page.items");
}

#[test]
fn test_unrelated_raw_method_not_detected() {

    // Test that .raw() on non-translation objects is NOT detected
    let code = r#"
        const t = useTranslations("Common");
        const someObj = { raw: (key) => key };
        const result = someObj.raw("notATranslationKey");
    "#;
    let checker = parse_and_check(code);

    // Only t("...") calls should be detected, not someObj.raw()
    assert!(
        checker.used_keys.is_empty(),
        "Non-translation .raw() should not be detected as used key"
    );
}

#[test]
fn test_t_raw_with_template_literal() {

    // Test t.raw() with template literal (no expressions)
    let code = r#"
        const t = useTranslations("Page");
        const items = t.raw(`benefits.list`);
    "#;
    let checker = parse_and_check(code);

    assert_eq!(
        checker.used_keys.len(),
        1,
        "t.raw() with template literal should be detected"
    );
    assert_eq!(checker.used_keys[0].full_key, "Page.benefits.list");
}

#[test]
fn test_t_raw_with_dynamic_key_not_detected() {

    // Test that t.raw(variable) is NOT detected as a used key
    // (consistent with t(variable) behavior)
    let code = r#"
        const t = useTranslations("Common");
        const key = "dynamic.key";
        const result = t.raw(key);
    "#;
    let checker = parse_and_check(code);

    // Dynamic keys should not be reported as used_keys
    assert!(
        checker.used_keys.is_empty(),
        "t.raw() with dynamic key should not be detected as used key"
    );
}

#[test]
fn test_translation_fn_call_default_export_matched() {

    // Setup: registry has "test.tsx.default.0" entry (from default import call site)
    // File test.tsx has `export default function buildLabels(t) { t("key") }`
    // The function should match via the default_exports registry
    let mut translation_fn_call = TranslationFnCallRegistry::new();
    translation_fn_call.insert(
        make_translation_fn_call_key("test.tsx", "default", 0),
        TranslationFnCall {
            fn_file_path: "test.tsx".to_string(),
            fn_name: "default".to_string(),
            arg_index: 0,
            namespaces: vec![Some("MyNs".to_string())],
        },
    );

    let mut default_exports = StrMap::new();
    default_exports.insert("test.tsx".to_string(), "buildLabels".to_string());

    let registries = Box::leak(Box::new(Registries {
        schema: SchemaRegistry::new(),
        key_object: KeyObjectRegistry::new(),
        key_array: KeyArrayRegistry::new(),
        string_array: StringArrayRegistry::new(),
        translation_prop: TranslationPropRegistry::new(),
        translation_fn_call,
        default_exports,
    }));

    let code = r#"
        export default function buildLabels(t) {
            return t("title");
        }
    "#;

    let checker = parse_and_check_with_registries(code, registries);

    // The function should match because:
    // 1. Registry has "test.tsx.default.0" entry
    // 2. default_exports says "buildLabels" is the default export
    // 3. So when visiting buildLabels, we look up both "test.tsx.buildLabels.0" and "test.tsx.default.0"
    assert_eq!(checker.used_keys.len(), 1);
    assert_eq!(checker.used_keys[0].full_key, "MyNs.title");
}

#[test]
fn test_translation_fn_call_parameter_shadowing_in_checker() {

    // This tests that parameter shadowing works correctly in MissingKeyChecker
    // Inner function's `t` parameter should shadow the outer `t` even when
    // the outer function IS in the registry
    let mut translation_fn_call = TranslationFnCallRegistry::new();
    translation_fn_call.insert(
        make_translation_fn_call_key("test.tsx", "outerFunc", 0),
        TranslationFnCall {
            fn_file_path: "test.tsx".to_string(),
            fn_name: "outerFunc".to_string(),
            arg_index: 0,
            namespaces: vec![Some("Outer".to_string())],
        },
    );
    let registries = Box::leak(Box::new(create_registries_with_translation_fn_calls(
        translation_fn_call,
    )));

    let code = r#"
        const outerFunc = (t) => {
            // innerFunc is NOT in the registry, so its t param should shadow
            const innerFunc = (t) => {
                return t("innerKey");  // Should NOT be tracked
            };
            return t("outerKey");  // Should be tracked
        };
    "#;

    let checker = parse_and_check_with_registries(code, registries);

    // Only outerKey should be tracked
    assert_eq!(checker.used_keys.len(), 1);
    assert_eq!(checker.used_keys[0].full_key, "Outer.outerKey");
}

#[test]
fn test_translation_prop_not_in_registry() {

    // Empty registry - no translation props registered
    let registries = Box::leak(Box::new(create_empty_registries()));

    // Component with t prop that is NOT in registry
    let code = r#"
        function UnknownComponent({ t }: Props) {
            return <div>{t("hello")}</div>;
        }
    "#;

    let checker = parse_and_check_with_registries(code, registries);

    // t is not recognized as a translation function, so no keys detected
    assert!(
        checker.used_keys.is_empty(),
        "Unregistered translation prop should not detect keys"
    );
}

#[test]
fn test_translation_prop_scope_isolated() {

    // Only ComponentA.t is registered
    let mut translation_prop = TranslationPropRegistry::new();
    translation_prop.insert(
        make_translation_prop_key("ComponentA", "t"),
        TranslationProp {
            component_name: "ComponentA".to_string(),
            prop_name: "t".to_string(),
            namespaces: vec![Some("A".to_string())],
        },
    );
    let registries = Box::leak(Box::new(create_registries_with_translation_props(
        translation_prop,
    )));

    let code = r#"
        function ComponentA({ t }: Props) {
            return <div>{t("keyA")}</div>;
        }

        function ComponentB({ t }: Props) {
            return <div>{t("keyB")}</div>;
        }
    "#;

    let checker = parse_and_check_with_registries(code, registries);

    assert_eq!(checker.used_keys.len(), 1);
    assert_eq!(checker.used_keys[0].full_key, "A.keyA");
}

#[test]
fn test_translation_prop_with_direct_binding_same_name() {

    // Create registry with a translation prop
    let mut translation_prop = TranslationPropRegistry::new();
    translation_prop.insert(
        make_translation_prop_key("ChildComponent", "t"),
        TranslationProp {
            component_name: "ChildComponent".to_string(),
            prop_name: "t".to_string(),
            namespaces: vec![Some("Child".to_string())],
        },
    );
    let registries = Box::leak(Box::new(create_registries_with_translation_props(
        translation_prop,
    )));

    // Both direct binding and prop binding with same name 't'
    // Direct binding should take precedence within its scope
    let code = r#"
        const t = useTranslations("Parent");
        
        function Parent() {
            return <div>{t("parentKey")}</div>;
        }
        
        function ChildComponent({ t }: Props) {
            return <div>{t("childKey")}</div>;
        }
    "#;

    let checker = parse_and_check_with_registries(code, registries);

    assert_eq!(checker.used_keys.len(), 2);
    // Parent's t is Direct with "Parent" namespace
    assert!(
        checker
            .used_keys
            .iter()
            .any(|k| k.full_key == "Parent.parentKey")
    );
    // Child's t is FromProps with "Child" namespace from registry
    assert!(
        checker
            .used_keys
            .iter()
            .any(|k| k.full_key == "Child.childKey")
    );
}

#[test]
fn test_translation_prop_multiple_keys() {

    let mut translation_prop = TranslationPropRegistry::new();
    translation_prop.insert(
        make_translation_prop_key("Feature", "t"),
        TranslationProp {
            component_name: "Feature".to_string(),
            prop_name: "t".to_string(),
            namespaces: vec![Some("Features".to_string())],
        },
    );
    let registries = Box::leak(Box::new(create_registries_with_translation_props(
        translation_prop,
    )));

    let code = r#"
        function Feature({ t }: Props) {
            return (
                <div>
                    <h1>{t("title")}</h1>
                    <p>{t("description")}</p>
                    <button>{t("cta")}</button>
                </div>
            );
        }
    "#;

    let checker = parse_and_check_with_registries(code, registries);

    assert_eq!(checker.used_keys.len(), 3);
    let keys: Vec<&str> = checker
        .used_keys
        .iter()
        .map(|k| k.full_key.as_str())
        .collect();
    assert!(keys.contains(&"Features.title"));
    assert!(keys.contains(&"Features.description"));
    assert!(keys.contains(&"Features.cta"));
}

#[test]
fn test_translation_prop_method_calls_with_multiple_namespaces() {

    let mut translation_prop = TranslationPropRegistry::new();
    translation_prop.insert(
        make_translation_prop_key("SharedComponent", "t"),
        TranslationProp {
            component_name: "SharedComponent".to_string(),
            prop_name: "t".to_string(),
            namespaces: vec![Some("PageA".to_string()), Some("PageB".to_string())],
        },
    );
    let registries = Box::leak(Box::new(create_registries_with_translation_props(
        translation_prop,
    )));

    let code = r#"
        function SharedComponent({ t }: Props) {
            t.raw("benefits");
            t.rich("benefits");
            t.markup(`benefits`);
        }
    "#;

    let checker = parse_and_check_with_registries(code, registries);

    let keys: HashSet<&str> = checker
        .used_keys
        .iter()
        .map(|k| k.full_key.as_str())
        .collect();
    let expected = ["PageA.benefits", "PageB.benefits"];
    for key in expected {
        assert!(keys.contains(key));
    }
    // Each method call should record keys for both namespaces.
    assert_eq!(checker.used_keys.len(), 6);
}

#[test]
fn test_translation_prop_exported_function() {

    let mut translation_prop = TranslationPropRegistry::new();
    translation_prop.insert(
        make_translation_prop_key("ExportedPage", "t"),
        TranslationProp {
            component_name: "ExportedPage".to_string(),
            prop_name: "t".to_string(),
            namespaces: vec![Some("Page".to_string())],
        },
    );
    let registries = Box::leak(Box::new(create_registries_with_translation_props(
        translation_prop,
    )));

    let code = r#"
        export function ExportedPage({ t }: Props) {
            return <div>{t("content")}</div>;
        }
    "#;

    let checker = parse_and_check_with_registries(code, registries);

    assert_eq!(checker.used_keys.len(), 1);
    assert_eq!(checker.used_keys[0].full_key, "Page.content");
}

#[test]
fn test_translation_prop_dynamic_key_hint_uses_relative_path() {

    // When a translation prop has a dynamic key, the hint should suggest
    // using a relative path (starting with .) instead of absolute path
    let mut translation_prop = TranslationPropRegistry::new();
    translation_prop.insert(
        make_translation_prop_key("AdultLandingPage", "t"),
        TranslationProp {
            component_name: "AdultLandingPage".to_string(),
            prop_name: "t".to_string(),
            namespaces: vec![Some("NSFWAIStoryGenerator".to_string())],
        },
    );
    let registries = Box::leak(Box::new(create_registries_with_translation_props(
        translation_prop,
    )));

    let code = r#"
        function AdultLandingPage({ t }: Props) {
            return <div>{t(`howItWorks.step${step}.description`)}</div>;
        }
    "#;

    let checker = parse_and_check_with_registries(code, registries);

    // Should have a warning for dynamic key
    assert_eq!(checker.warnings.len(), 1);
    let hint = checker.warnings[0].hint.as_ref().unwrap();

    // Hint should suggest relative path starting with .
    assert!(
        hint.contains(".howItWorks.step*.description"),
        "Expected hint to contain '.howItWorks.step*.description', got: {}",
        hint
    );
    // Should NOT contain the absolute namespace path
    assert!(
        !hint.contains("NSFWAIStoryGenerator.howItWorks"),
        "Hint should not contain absolute namespace path, got: {}",
        hint
    );
}

#[test]
fn test_direct_binding_dynamic_key_hint_uses_absolute_path() {

    // When a direct binding (useTranslations) has a dynamic key, the hint should
    // suggest using an absolute path with namespace
    let registries = Box::leak(Box::new(create_empty_registries()));

    let code = r#"
        import {useTranslations} from 'next-intl';
        function Component() {
            const t = useTranslations("Common");
            return <div>{t(`items.${id}.title`)}</div>;
        }
    "#;

    let checker = parse_and_check_with_registries(code, registries);

    assert_eq!(checker.warnings.len(), 1);
    let hint = checker.warnings[0].hint.as_ref().unwrap();

    // Hint should suggest absolute path with namespace
    assert!(
        hint.contains("Common.items.*.title"),
        "Expected hint to contain 'Common.items.*.title', got: {}",
        hint
    );
    // Should NOT start with dot (relative path)
    assert!(
        !hint.contains("\".items"),
        "Hint should not suggest relative path, got: {}",
        hint
    );
}

#[test]
fn test_relative_pattern_with_from_props_single_namespace() {

    let mut translation_prop = TranslationPropRegistry::new();
    translation_prop.insert(
        make_translation_prop_key("FeatureList", "t"),
        TranslationProp {
            component_name: "FeatureList".to_string(),
            prop_name: "t".to_string(),
            namespaces: vec![Some("Features".to_string())],
        },
    );
    let registries = Box::leak(Box::new(create_registries_with_translation_props(
        translation_prop,
    )));

    let code = r#"
        function FeatureList({ t }: Props) {
            // glot-message-keys ".items.*.title"
            return items.map(item => t(`items.${item.key}.title`));
        }
    "#;

    let checker = parse_and_check_with_registries(code, registries);

    // The relative pattern should be expanded with the namespace from the registry
    assert_eq!(checker.used_keys.len(), 1);
    assert_eq!(checker.used_keys[0].full_key, "Features.items.*.title");
}

#[test]
fn test_relative_pattern_with_from_props_multiple_namespaces() {

    let mut translation_prop = TranslationPropRegistry::new();
    translation_prop.insert(
        make_translation_prop_key("SharedComponent", "t"),
        TranslationProp {
            component_name: "SharedComponent".to_string(),
            prop_name: "t".to_string(),
            namespaces: vec![Some("PageA".to_string()), Some("PageB".to_string())],
        },
    );
    let registries = Box::leak(Box::new(create_registries_with_translation_props(
        translation_prop,
    )));

    let code = r#"
        function SharedComponent({ t }: Props) {
            // glot-message-keys ".features.title"
            return t(dynamicKey);
        }
    "#;

    let checker = parse_and_check_with_registries(code, registries);

    // The relative pattern should be expanded with ALL namespaces from the registry
    assert_eq!(checker.used_keys.len(), 2);
    let keys: Vec<&str> = checker
        .used_keys
        .iter()
        .map(|k| k.full_key.as_str())
        .collect();
    assert!(keys.contains(&"PageA.features.title"));
    assert!(keys.contains(&"PageB.features.title"));
}

#[test]
fn test_translation_prop_renamed_destructuring() {

    // Test: { t: translate } - prop name is "t", but binding name is "translate"
    let mut translation_prop = TranslationPropRegistry::new();
    translation_prop.insert(
        make_translation_prop_key("MyComponent", "t"),
        TranslationProp {
            component_name: "MyComponent".to_string(),
            prop_name: "t".to_string(),
            namespaces: vec![Some("Namespace".to_string())],
        },
    );
    let registries = Box::leak(Box::new(create_registries_with_translation_props(
        translation_prop,
    )));

    let code = r#"
        function MyComponent({ t: translate }: Props) {
            return <div>{translate("key")}</div>;
        }
    "#;

    let checker = parse_and_check_with_registries(code, registries);

    // The key should be detected using the renamed binding "translate"
    assert_eq!(checker.used_keys.len(), 1);
    assert_eq!(checker.used_keys[0].full_key, "Namespace.key");
}

#[test]
fn test_translation_prop_renamed_destructuring_arrow_function() {

    // Test arrow function with renamed destructuring
    let mut translation_prop = TranslationPropRegistry::new();
    translation_prop.insert(
        make_translation_prop_key("Card", "t"),
        TranslationProp {
            component_name: "Card".to_string(),
            prop_name: "t".to_string(),
            namespaces: vec![Some("Cards".to_string())],
        },
    );
    let registries = Box::leak(Box::new(create_registries_with_translation_props(
        translation_prop,
    )));

    let code = r#"
        const Card = ({ t: i18n }: Props) => {
            return <span>{i18n("title")}</span>;
        };
    "#;

    let checker = parse_and_check_with_registries(code, registries);

    assert_eq!(checker.used_keys.len(), 1);
    assert_eq!(checker.used_keys[0].full_key, "Cards.title");
}

#[test]
fn test_translation_prop_with_default_value() {

    // Test: { t = defaultT } - shorthand with default value
    let mut translation_prop = TranslationPropRegistry::new();
    translation_prop.insert(
        make_translation_prop_key("OptionalTranslation", "t"),
        TranslationProp {
            component_name: "OptionalTranslation".to_string(),
            prop_name: "t".to_string(),
            namespaces: vec![Some("Optional".to_string())],
        },
    );
    let registries = Box::leak(Box::new(create_registries_with_translation_props(
        translation_prop,
    )));

    let code = r#"
        function OptionalTranslation({ t = defaultT }: Props) {
            return <div>{t("message")}</div>;
        }
    "#;

    let checker = parse_and_check_with_registries(code, registries);

    // Should detect the key even with default value
    assert_eq!(checker.used_keys.len(), 1);
    assert_eq!(checker.used_keys[0].full_key, "Optional.message");
}

#[test]
fn test_translation_prop_renamed_with_default_value() {

    // Test: { t: translate = defaultT } - renamed with default value
    let mut translation_prop = TranslationPropRegistry::new();
    translation_prop.insert(
        make_translation_prop_key("ComplexComponent", "t"),
        TranslationProp {
            component_name: "ComplexComponent".to_string(),
            prop_name: "t".to_string(),
            namespaces: vec![Some("Complex".to_string())],
        },
    );
    let registries = Box::leak(Box::new(create_registries_with_translation_props(
        translation_prop,
    )));

    let code = r#"
        function ComplexComponent({ t: translate = defaultTranslate }: Props) {
            return <div>{translate("label")}</div>;
        }
    "#;

    let checker = parse_and_check_with_registries(code, registries);

    // Should detect the key with the renamed binding
    assert_eq!(checker.used_keys.len(), 1);
    assert_eq!(checker.used_keys[0].full_key, "Complex.label");
}

#[test]
fn test_translation_prop_with_rest_pattern() {

    // Test: { t, ...rest } - translation prop with rest pattern
    let mut translation_prop = TranslationPropRegistry::new();
    translation_prop.insert(
        make_translation_prop_key("WithRest", "t"),
        TranslationProp {
            component_name: "WithRest".to_string(),
            prop_name: "t".to_string(),
            namespaces: vec![Some("Rest".to_string())],
        },
    );
    let registries = Box::leak(Box::new(create_registries_with_translation_props(
        translation_prop,
    )));

    let code = r#"
        function WithRest({ t, ...rest }: Props) {
            return <div {...rest}>{t("content")}</div>;
        }
    "#;

    let checker = parse_and_check_with_registries(code, registries);

    // Should detect the key from the 't' prop
    assert_eq!(checker.used_keys.len(), 1);
    assert_eq!(checker.used_keys[0].full_key, "Rest.content");
}

#[test]
fn test_translation_prop_multiple_props_with_rename() {

    // Test multiple props where one is renamed
    let mut translation_prop = TranslationPropRegistry::new();
    translation_prop.insert(
        make_translation_prop_key("MultiProp", "t"),
        TranslationProp {
            component_name: "MultiProp".to_string(),
            prop_name: "t".to_string(),
            namespaces: vec![Some("Multi".to_string())],
        },
    );
    let registries = Box::leak(Box::new(create_registries_with_translation_props(
        translation_prop,
    )));

    let code = r#"
        function MultiProp({ t: translate, name, onClick }: Props) {
            return <button onClick={onClick}>{translate("click")} {name}</button>;
        }
    "#;

    let checker = parse_and_check_with_registries(code, registries);

    assert_eq!(checker.used_keys.len(), 1);
    assert_eq!(checker.used_keys[0].full_key, "Multi.click");
}

#[test]
fn test_translation_fn_call_multiple_namespaces() {

    // Same function called from different places with different namespaces
    let mut translation_fn_call = TranslationFnCallRegistry::new();
    translation_fn_call.insert(
        make_translation_fn_call_key("test.tsx", "createLabels", 0),
        TranslationFnCall {
            fn_file_path: "test.tsx".to_string(),
            fn_name: "createLabels".to_string(),
            arg_index: 0,
            namespaces: vec![Some("PageA".to_string()), Some("PageB".to_string())],
        },
    );
    let registries = Box::leak(Box::new(create_registries_with_translation_fn_calls(
        translation_fn_call,
    )));

    let code = r#"
        const createLabels = (t) => ({
            title: t("title"),
        });
    "#;

    let checker = parse_and_check_with_registries(code, registries);

    // Each key should be recorded for both namespaces
    assert_eq!(checker.used_keys.len(), 2);
    let keys: HashSet<&str> = checker
        .used_keys
        .iter()
        .map(|k| k.full_key.as_str())
        .collect();
    assert!(keys.contains("PageA.title"));
    assert!(keys.contains("PageB.title"));
}

#[test]
fn test_translation_fn_call_second_argument() {

    // Translation function passed as second argument
    let mut translation_fn_call = TranslationFnCallRegistry::new();
    translation_fn_call.insert(
        make_translation_fn_call_key("test.tsx", "createLabels", 1),
        TranslationFnCall {
            fn_file_path: "test.tsx".to_string(),
            fn_name: "createLabels".to_string(),
            arg_index: 1, // Second argument
            namespaces: vec![Some("MyNs".to_string())],
        },
    );
    let registries = Box::leak(Box::new(create_registries_with_translation_fn_calls(
        translation_fn_call,
    )));

    let code = r#"
        const createLabels = (config, translate) => ({
            title: translate("title"),
        });
    "#;

    let checker = parse_and_check_with_registries(code, registries);

    assert_eq!(checker.used_keys.len(), 1);
    assert_eq!(checker.used_keys[0].full_key, "MyNs.title");
}

#[test]
fn test_translation_fn_call_not_in_registry() {

    // Function not in registry - should not track keys
    let registries = Box::leak(Box::new(create_empty_registries()));

    let code = r#"
        const unknownFunction = (t) => ({
            key: t("someKey"),
        });
    "#;

    let checker = parse_and_check_with_registries(code, registries);

    // t is not registered, so no keys should be tracked
    assert!(checker.used_keys.is_empty());
}

#[test]
fn test_translation_fn_call_with_t_method_calls() {

    let mut translation_fn_call = TranslationFnCallRegistry::new();
    translation_fn_call.insert(
        make_translation_fn_call_key("test.tsx", "buildLabels", 0),
        TranslationFnCall {
            fn_file_path: "test.tsx".to_string(),
            fn_name: "buildLabels".to_string(),
            arg_index: 0,
            namespaces: vec![Some("MyNs".to_string())],
        },
    );
    let registries = Box::leak(Box::new(create_registries_with_translation_fn_calls(
        translation_fn_call,
    )));

    let code = r#"
        const buildLabels = (t) => ({
            raw: t.raw("rawContent"),
            rich: t.rich("richContent"),
            markup: t.markup("markupContent"),
        });
    "#;

    let checker = parse_and_check_with_registries(code, registries);

    assert_eq!(checker.used_keys.len(), 3);
    let keys: HashSet<&str> = checker
        .used_keys
        .iter()
        .map(|k| k.full_key.as_str())
        .collect();
    assert!(keys.contains("MyNs.rawContent"));
    assert!(keys.contains("MyNs.richContent"));
    assert!(keys.contains("MyNs.markupContent"));
}

#[test]
fn tests_test_translation_fn_call_scope_isolated() {

    let mut translation_fn_call = TranslationFnCallRegistry::new();
    translation_fn_call.insert(
        make_translation_fn_call_key("test.tsx", "outerFunc", 0),
        TranslationFnCall {
            fn_file_path: "test.tsx".to_string(),
            fn_name: "outerFunc".to_string(),
            arg_index: 0,
            namespaces: vec![Some("Outer".to_string())],
        },
    );
    let registries = Box::leak(Box::new(create_registries_with_translation_fn_calls(
        translation_fn_call,
    )));

    let code = r#"
        const outerFunc = (t) => {
            const innerFunc = (t) => {
                // This t shadows the outer t, but should NOT be tracked
                // because innerFunc is not in the registry
                return t("innerKey");
            };
            return t("outerKey");
        };
    "#;

    let checker = parse_and_check_with_registries(code, registries);

    // Only outerKey should be tracked
    assert_eq!(checker.used_keys.len(), 1);
    assert_eq!(checker.used_keys[0].full_key, "Outer.outerKey");
}

#[test]
fn test_translation_fn_call_dynamic_key_hint_uses_relative_path() {

    let mut translation_fn_call = TranslationFnCallRegistry::new();
    translation_fn_call.insert(
        make_translation_fn_call_key("test.tsx", "buildLabels", 0),
        TranslationFnCall {
            fn_file_path: "test.tsx".to_string(),
            fn_name: "buildLabels".to_string(),
            arg_index: 0,
            namespaces: vec![Some("MyNs".to_string())],
        },
    );
    let registries = Box::leak(Box::new(create_registries_with_translation_fn_calls(
        translation_fn_call,
    )));

    let code = r#"
        const buildLabels = (t) => ({
            dynamic: t(`types.${type}.label`),
        });
    "#;

    let checker = parse_and_check_with_registries(code, registries);

    // Should generate a dynamic key warning with relative pattern hint
    assert_eq!(checker.warnings.len(), 1);
    let hint = checker.warnings[0].hint.as_ref().unwrap();
    // FromFnCall should use relative pattern (starting with .)
    assert!(
        hint.contains(".types.*.label"),
        "hint should contain relative pattern: {}",
        hint
    );
}

#[test]
fn test_translation_fn_call_without_namespace() {

    let mut translation_fn_call = TranslationFnCallRegistry::new();
    translation_fn_call.insert(
        make_translation_fn_call_key("test.tsx", "buildLabels", 0),
        TranslationFnCall {
            fn_file_path: "test.tsx".to_string(),
            fn_name: "buildLabels".to_string(),
            arg_index: 0,
            namespaces: vec![None], // No namespace
        },
    );
    let registries = Box::leak(Box::new(create_registries_with_translation_fn_calls(
        translation_fn_call,
    )));

    let code = r#"
        const buildLabels = (t) => ({
            title: t("title"),
        });
    "#;

    let checker = parse_and_check_with_registries(code, registries);

    // Key without namespace prefix
    assert_eq!(checker.used_keys.len(), 1);
    assert_eq!(checker.used_keys[0].full_key, "title");
}

#[test]
fn test_translation_fn_call_exported_function() {

    let mut translation_fn_call = TranslationFnCallRegistry::new();
    translation_fn_call.insert(
        make_translation_fn_call_key("test.tsx", "createExportedLabels", 0),
        TranslationFnCall {
            fn_file_path: "test.tsx".to_string(),
            fn_name: "createExportedLabels".to_string(),
            arg_index: 0,
            namespaces: vec![Some("MyNs".to_string())],
        },
    );
    let registries = Box::leak(Box::new(create_registries_with_translation_fn_calls(
        translation_fn_call,
    )));

    let code = r#"
        export function createExportedLabels(t) {
            return {
                title: t("title"),
            };
        }
    "#;

    let checker = parse_and_check_with_registries(code, registries);

    assert_eq!(checker.used_keys.len(), 1);
    assert_eq!(checker.used_keys[0].full_key, "MyNs.title");
}

#[test]
fn test_has_alphabetic() {

        assert!(contains_alphabetic("Hello"));
        assert!(contains_alphabetic("你好"));
        assert!(contains_alphabetic("Hello123"));
        assert!(!contains_alphabetic("123"));
        assert!(!contains_alphabetic("---"));
        assert!(!contains_alphabetic("$100"));
}

#[test]
fn test_consecutive_disable_ignored() {




        let code = r#"
function App() {
    return (
        <div>
            {/* glot-disable */}
            <span>Hello</span>
            {/* glot-disable */}
            <span>World</span>
            {/* glot-enable */}
            <span>Visible</span>
        </div>
    );
}
"#;
        let (module, comment_list) = parse_with_comments(code);

        let ignored = StrSet::new();
        let attrs = vec![];
        let checker = HardcodedChecker::new("test.tsx", &attrs, &ignored, code, &comment_list);
        let issues = checker.check(&module);

        // Only "Visible" should be detected (Hello and World are in disabled range)
        assert_eq!(issues.len(), 1, "Expected 1 issue, got {:?}", issues);
        assert_eq!(issues[0].text, "Visible");
}

#[test]
fn test_multiline_jsx_text_reports_correct_line() {




        let code = "function App() {\n    return (\n        <div>\n\n            Hello World\n\n        </div>\n    );\n}";
        let (module, comment_list) = parse_with_comments(code);

        let ignored = StrSet::new();
        let attrs = vec![];
        let checker = HardcodedChecker::new("test.tsx", &attrs, &ignored, code, &comment_list);
        let issues = checker.check(&module);

        assert_eq!(issues.len(), 1, "Expected 1 issue, got {:?}", issues);
        assert_eq!(issues[0].text, "Hello World");
        // The text "Hello World" is on line 5, not line 3 (where <div> starts)
        assert_eq!(
            issues[0].line, 5,
            "Expected line 5 for 'Hello World', got line {}",
            issues[0].line
        );
}

#[test]
fn test_nested_jsx_expr_comment_style() {




        let code = r#"
            function App() {
                return (
                    <div>
                        {true && (
                            <span id="test">
                                Hardcoded
                            </span>
                        )}
                    </div>
                );
            }
        "#;
        let (module, comment_list) = parse_with_comments(code);

        let ignored = StrSet::new();
        let attrs = vec![];
        let checker = HardcodedChecker::new("test.tsx", &attrs, &ignored, code, &comment_list);
        let issues = checker.check(&module);

        assert_eq!(issues.len(), 1);
        // We expect in_jsx_context to be true (it is inside span which is inside div)
        // AND it should use JSX comment style because it is a child of span
        assert!(
            issues[0].in_jsx_context,
            "Should use JSX comment style {{/* */}}"
        );
}

#[test]
fn test_ternary_jsx_expr_comment_style() {




        let code = r#"
            function App() {
                return (
                    <div>
                        {true ? (
                            <p>No console output</p>
                        ) : null}
                    </div>
                );
            }
        "#;
        let (module, comment_list) = parse_with_comments(code);

        let ignored = StrSet::new();
        let attrs = vec![];
        let checker = HardcodedChecker::new("test.tsx", &attrs, &ignored, code, &comment_list);
        let issues = checker.check(&module);

        assert_eq!(issues.len(), 1);

        // Logic:
        // <p>No console output</p>
        // line_starts_with_element = true ("                        <p>No console output</p>")
        // It is inside a ternary expression branch.
        // So the comment should be placed before <p>, inside the parentheses of the ternary.
        // It must be // or /* */, NOT {/* */}

        assert!(
            !issues[0].in_jsx_context,
            "Should NOT use JSX comment style {{/* */}} inside ternary expression"
        );
}

#[test]
fn test_ignore_style_tag_children() {




        let code = r#"
            function App() {
                return (
                    <svg>
                        <style>{`
                            .class { color: red; }
                        `}</style>
                        <title>Loading...</title>
                    </svg>
                );
            }
        "#;
        let (module, comment_list) = parse_with_comments(code);

        let ignored = StrSet::new();
        let attrs = vec![];
        let checker = HardcodedChecker::new("test.tsx", &attrs, &ignored, code, &comment_list);
        let issues = checker.check(&module);

        // Should only detect "Loading...", ignoring the CSS in style tag
        assert_eq!(issues.len(), 1);
        assert_eq!(issues[0].text, "Loading...");
}

#[test]
fn hardcoded_test_logical_or_expression() {




        let code = r#"
            function App() {
                const error = null;
                return (
                    <div>
                        {error || "Default message"}
                    </div>
                );
            }
        "#;
        let (module, comment_list) = parse_with_comments(code);

        let ignored = StrSet::new();
        let attrs = vec![];
        let checker = HardcodedChecker::new("test.tsx", &attrs, &ignored, code, &comment_list);
        let issues = checker.check(&module);

        // Should detect the string in the || expression
        assert_eq!(issues.len(), 1);
        assert_eq!(issues[0].text, "Default message");
}

#[test]
fn test_attribute_detection() {




        let code = r#"
function App() {
    return (
        <div>
            <input placeholder="Enter name" />
            <img alt="Profile picture" />
            <button title="Click me">OK</button>
        </div>
    );
}
"#;
        let (module, comment_list) = parse_with_comments(code);

        let ignored = StrSet::new();
        let attrs = vec![
            "placeholder".to_string(),
            "alt".to_string(),
            "title".to_string(),
        ];
        let checker = HardcodedChecker::new("test.tsx", &attrs, &ignored, code, &comment_list);
        let issues = checker.check(&module);

        // Should detect: "OK" (JSX text), "Enter name", "Profile picture", "Click me"
        assert_eq!(issues.len(), 4, "Expected 4 issues, got {:?}", issues);
        assert!(issues.iter().any(|i| i.text == "Enter name"));
        assert!(issues.iter().any(|i| i.text == "Profile picture"));
        assert!(issues.iter().any(|i| i.text == "Click me"));
        assert!(issues.iter().any(|i| i.text == "OK"));
}

#[test]
fn test_whitespace_only_text_ignored() {




        let code = r#"
function App() {
    return (
        <div>
            {/* lots of whitespace between elements */}
            <span>Hello</span>

            <span>World</span>
        </div>
    );
}
"#;
        let (module, comment_list) = parse_with_comments(code);

        let ignored = StrSet::new();
        let attrs = vec![];
        let checker = HardcodedChecker::new("test.tsx", &attrs, &ignored, code, &comment_list);
        let issues = checker.check(&module);

        // Should only detect "Hello" and "World", not whitespace
        assert_eq!(issues.len(), 2, "Expected 2 issues, got {:?}", issues);
        assert!(issues.iter().any(|i| i.text == "Hello"));
        assert!(issues.iter().any(|i| i.text == "World"));
}

#[test]
fn test_ignore_texts_functionality() {




        let code = r#"
function App() {
    return (
        <div>
            <span>Hello</span>
            <span>World</span>
            <span>OK</span>
        </div>
    );
}
"#;
        let (module, comment_list) = parse_with_comments(code);

        // Ignore "OK" and "Hello"
        let mut ignored = StrSet::new();
        for s in ["OK", "Hello"] {
            ignored.insert(s.to_string());
        }
        let attrs = vec![];
        let checker = HardcodedChecker::new("test.tsx", &attrs, &ignored, code, &comment_list);
        let issues = checker.check(&module);

        // Should only detect "World"
        assert_eq!(issues.len(), 1, "Expected 1 issue, got {:?}", issues);
        assert_eq!(issues[0].text, "World");
}

#[test]
fn test_nested_jsx_elements() {




        let code = r#"
function App() {
    return (
        <div>
            <section>
                <article>
                    <p>Deeply nested text</p>
                </article>
            </section>
        </div>
    );
}
"#;
        let (module, comment_list) = parse_with_comments(code);

        let ignored = StrSet::new();
        let attrs = vec![];
        let checker = HardcodedChecker::new("test.tsx", &attrs, &ignored, code, &comment_list);
        let issues = checker.check(&module);

        assert_eq!(issues.len(), 1, "Expected 1 issue, got {:?}", issues);
        assert_eq!(issues[0].text, "Deeply nested text");
}

#[test]
fn test_collect_exported_object() {

        let code = r#"
            export const toolKeys = {
                createNovel: "createNovel",
                updateNovel: "updateNovel",
            };
        "#;
        let collector = parse_and_collect(code);

        assert_eq!(collector.objects.len(), 1);
        assert!(collector.objects[0].is_exported);
        assert_eq!(collector.objects[0].name, "toolKeys");
        assert_eq!(
            collector.objects[0].candidate_keys,
            vec!["createNovel", "updateNovel"]
        );
}

#[test]
fn test_collect_non_exported_object() {

        let code = r#"
            const toolKeys = {
                key1: "value1",
                key2: "value2",
            };
        "#;
        let collector = parse_and_collect(code);

        assert_eq!(collector.objects.len(), 1);
        assert!(!collector.objects[0].is_exported);
        assert_eq!(collector.objects[0].name, "toolKeys");
}

#[test]
fn test_collect_object_with_as_const() {

        let code = r#"
            const keys = {
                a: "alpha",
                b: "beta",
            } as const;
        "#;
        let collector = parse_and_collect(code);

        assert_eq!(collector.objects.len(), 1);
        assert_eq!(collector.objects[0].candidate_keys, vec!["alpha", "beta"]);
}

#[test]
fn test_collect_object_with_satisfies() {

        let code = r#"
            const keys = {
                a: "alpha",
            } satisfies Record<string, string>;
        "#;
        let collector = parse_and_collect(code);

        assert_eq!(collector.objects.len(), 1);
        assert_eq!(collector.objects[0].candidate_keys, vec!["alpha"]);
}

#[test]
fn test_skip_object_with_spread() {

        let code = r#"
            const base = { a: "a" };
            const extended = { ...base, b: "b" };
        "#;
        let collector = parse_and_collect(code);

        // First object is collected, second is skipped due to spread
        assert_eq!(collector.objects.len(), 1);
        assert_eq!(collector.objects[0].name, "base");
}

#[test]
fn test_collect_imports() {

        let code = r#"
            import { toolKeys } from "./tool-keys";
            import { otherKeys } from "../constants";
        "#;
        let collector = parse_and_collect(code);

        assert_eq!(collector.imports.len(), 2);
        assert_eq!(collector.imports[0].local_name, "toolKeys");
        assert_eq!(collector.imports[0].imported_name, "toolKeys");
        assert_eq!(collector.imports[0].module_specifier, "./tool-keys");
}

#[test]
fn test_collect_renamed_imports() {

        let code = r#"
            import { toolKeys as keys } from "./tool-keys";
        "#;
        let collector = parse_and_collect(code);

        assert_eq!(collector.imports.len(), 1);
        assert_eq!(collector.imports[0].local_name, "keys");
        assert_eq!(collector.imports[0].imported_name, "toolKeys");
}

#[test]
fn test_collect_default_import() {

        let code = r#"
            import toolKeys from "./tool-keys";
        "#;
        let collector = parse_and_collect(code);

        assert_eq!(collector.imports.len(), 1);
        assert_eq!(collector.imports[0].local_name, "toolKeys");
        assert_eq!(collector.imports[0].imported_name, "default");
}

#[test]
fn test_skip_non_string_values() {

        let code = r#"
            const keys = {
                a: "string_value",
                b: 123,
                c: null,
                d: true,
            };
        "#;
        let collector = parse_and_collect(code);

        assert_eq!(collector.objects.len(), 1);
        // Only string value is collected
        assert_eq!(collector.objects[0].candidate_keys, vec!["string_value"]);
}

#[test]
fn test_collect_array_of_objects() {

        let code = r#"
            const capabilities = [
                { titleKey: "novelManagement", descriptionKey: "novelDesc" },
                { titleKey: "characterDevelopment", descriptionKey: "charDesc" },
            ];
        "#;
        let collector = parse_and_collect(code);

        assert_eq!(collector.arrays.len(), 1);
        assert_eq!(collector.arrays[0].name, "capabilities");
        assert!(!collector.arrays[0].is_exported);

        let property_values = &collector.arrays[0].property_values;
        assert_eq!(
            property_values.get("titleKey"),
            Some(&vec![
                "novelManagement".to_string(),
                "characterDevelopment".to_string()
            ])
        );
        assert_eq!(
            property_values.get("descriptionKey"),
            Some(&vec!["novelDesc".to_string(), "charDesc".to_string()])
        );
}

#[test]
fn test_collect_exported_array() {

        let code = r#"
            export const items = [
                { key: "item1" },
                { key: "item2" },
            ];
        "#;
        let collector = parse_and_collect(code);

        assert_eq!(collector.arrays.len(), 1);
        assert!(collector.arrays[0].is_exported);
        assert_eq!(collector.arrays[0].name, "items");
}

#[test]
fn test_skip_array_with_spread() {

        let code = r#"
            const base = [{ key: "a" }];
            const extended = [...base, { key: "b" }];
        "#;
        let collector = parse_and_collect(code);

        // First array is collected, second is skipped due to spread
        assert_eq!(collector.arrays.len(), 1);
        assert_eq!(collector.arrays[0].name, "base");
}

#[test]
fn test_array_with_type_annotation() {

        let code = r#"
            interface Item {
                key: string;
            }
            const items: Item[] = [
                { key: "value1" },
                { key: "value2" },
            ];
        "#;
        let collector = parse_and_collect(code);

        assert_eq!(collector.arrays.len(), 1);
        assert_eq!(
            collector.arrays[0].property_values.get("key"),
            Some(&vec!["value1".to_string(), "value2".to_string()])
        );
}

#[test]
fn test_array_with_as_const() {

        let code = r#"
            const items = [
                { key: "value1" },
                { key: "value2" },
            ] as const;
        "#;
        let collector = parse_and_collect(code);

        assert_eq!(collector.arrays.len(), 1);
        assert_eq!(
            collector.arrays[0].property_values.get("key"),
            Some(&vec!["value1".to_string(), "value2".to_string()])
        );
}

#[test]
fn test_collect_string_array() {

        let code = r#"
            const FEATURE_KEYS = ["save", "characters", "chapters", "ai"];
        "#;
        let collector = parse_and_collect(code);

        assert_eq!(collector.string_arrays.len(), 1);
        assert_eq!(collector.string_arrays[0].name, "FEATURE_KEYS");
        assert!(!collector.string_arrays[0].is_exported);
        assert_eq!(
            collector.string_arrays[0].values,
            vec!["save", "characters", "chapters", "ai"]
        );
}

#[test]
fn test_collect_string_array_with_as_const() {

        let code = r#"
            const KEYS = ["a", "b", "c"] as const;
        "#;
        let collector = parse_and_collect(code);

        assert_eq!(collector.string_arrays.len(), 1);
        assert_eq!(collector.string_arrays[0].values, vec!["a", "b", "c"]);
}

#[test]
fn test_collect_exported_string_array() {

        let code = r#"
            export const SUPPORTED_GENDERS = ["male", "female", "other"] as const;
        "#;
        let collector = parse_and_collect(code);

        assert_eq!(collector.string_arrays.len(), 1);
        assert!(collector.string_arrays[0].is_exported);
        assert_eq!(collector.string_arrays[0].name, "SUPPORTED_GENDERS");
        assert_eq!(
            collector.string_arrays[0].values,
            vec!["male", "female", "other"]
        );
}

#[test]
fn test_skip_string_array_with_spread() {

        let code = r#"
            const base = ["a", "b"];
            const extended = [...base, "c"];
        "#;
        let collector = parse_and_collect(code);

        // First array is collected, second is skipped due to spread
        assert_eq!(collector.string_arrays.len(), 1);
        assert_eq!(collector.string_arrays[0].name, "base");
}

#[test]
fn test_skip_mixed_array() {

        let code = r#"
            const mixed = ["string", 123, true];
        "#;
        let collector = parse_and_collect(code);

        // Mixed array is not collected as string array
        assert!(collector.string_arrays.is_empty());
        // Also not collected as object array
        assert!(collector.arrays.is_empty());
}

#[test]
fn test_string_array_preferred_over_object_array() {

        // If an array contains only strings, it should be collected as StringArray,
        // not as KeyArray (object array)
        let code = r#"
            const KEYS = ["key1", "key2"];
        "#;
        let collector = parse_and_collect(code);

        assert_eq!(collector.string_arrays.len(), 1);
        assert!(collector.arrays.is_empty()); // Not collected as object array
}

#[test]
fn test_nested_string_array_in_function() {

        let code = r#"
            const GLOBAL = ["a", "b"];
            function foo() {
                const LOCAL = ["c", "d"];  // Collected but not module-level
            }
        "#;
        let collector = parse_and_collect(code);

        assert_eq!(collector.string_arrays.len(), 2);

        let global = collector
            .string_arrays
            .iter()
            .find(|a| a.name == "GLOBAL")
            .unwrap();
        assert!(global.is_module_level);

        let local = collector
            .string_arrays
            .iter()
            .find(|a| a.name == "LOCAL")
            .unwrap();
        assert!(!local.is_module_level);
}

#[test]
fn test_nested_object_in_arrow_function() {

        let code = r#"
            const GLOBAL_OBJ = { key: "value" };
            const fn = () => {
                const LOCAL_OBJ = { nested: "ignored" };  // Collected but not module-level
            };
        "#;
        let collector = parse_and_collect(code);

        assert_eq!(collector.objects.len(), 2);

        let global = collector
            .objects
            .iter()
            .find(|o| o.name == "GLOBAL_OBJ")
            .unwrap();
        assert!(global.is_module_level);

        let local = collector
            .objects
            .iter()
            .find(|o| o.name == "LOCAL_OBJ")
            .unwrap();
        assert!(!local.is_module_level);
}

#[test]
fn test_nested_array_in_method() {

        let code = r#"
            const GLOBAL = [{ key: "a" }];
            export function Component() {
                const LOCAL = [{ key: "b" }];  // Collected but not module-level
                return null;
            }
        "#;
        let collector = parse_and_collect(code);

        assert_eq!(collector.arrays.len(), 2);

        let global = collector
            .arrays
            .iter()
            .find(|a| a.name == "GLOBAL")
            .unwrap();
        assert!(global.is_module_level);

        let local = collector.arrays.iter().find(|a| a.name == "LOCAL").unwrap();
        assert!(!local.is_module_level);
}

#[test]
fn test_deeply_nested_declarations_collected() {

        let code = r#"
            const GLOBAL = ["global"];
            function outer() {
                const OUTER = ["outer"];  // Collected, not module-level
                const inner = () => {
                    const INNER = ["inner"];  // Collected, not module-level
                };
            }
        "#;
        let collector = parse_and_collect(code);

        assert_eq!(collector.string_arrays.len(), 3);

        let global = collector
            .string_arrays
            .iter()
            .find(|a| a.name == "GLOBAL")
            .unwrap();
        assert!(global.is_module_level);

        let outer = collector
            .string_arrays
            .iter()
            .find(|a| a.name == "OUTER")
            .unwrap();
        assert!(!outer.is_module_level);

        let inner = collector
            .string_arrays
            .iter()
            .find(|a| a.name == "INNER")
            .unwrap();
        assert!(!inner.is_module_level);
}

#[test]
fn test_collect_translation_prop_basic() {

        let code = r#"
            const t = useTranslations("MyNamespace");
            <MyComponent t={t} />;
        "#;
        let collector = parse_and_collect(code);

        assert_eq!(collector.translation_props.len(), 1);
        let prop = &collector.translation_props[0];
        assert_eq!(prop.component_name, "MyComponent");
        assert_eq!(prop.prop_name, "t");
        assert_eq!(prop.namespaces, vec![Some("MyNamespace".to_string())]);
}

#[test]
fn test_collect_translation_prop_without_namespace() {

        let code = r#"
            const t = useTranslations();
            <MyComponent translate={t} />;
        "#;
        let collector = parse_and_collect(code);

        assert_eq!(collector.translation_props.len(), 1);
        let prop = &collector.translation_props[0];
        assert_eq!(prop.component_name, "MyComponent");
        assert_eq!(prop.prop_name, "translate");
        assert_eq!(prop.namespaces, vec![None]);
}

#[test]
fn test_collect_translation_prop_with_await() {

        let code = r#"
            const t = await getTranslations("ServerNs");
            <ServerComponent t={t} />;
        "#;
        let collector = parse_and_collect(code);

        assert_eq!(collector.translation_props.len(), 1);
        let prop = &collector.translation_props[0];
        assert_eq!(prop.component_name, "ServerComponent");
        assert_eq!(prop.prop_name, "t");
        assert_eq!(prop.namespaces, vec![Some("ServerNs".to_string())]);
}

#[test]
fn test_collect_multiple_translation_props() {

        let code = r#"
            const t1 = useTranslations("Namespace1");
            const t2 = useTranslations("Namespace2");
            <ComponentA t={t1} />;
            <ComponentB translate={t2} />;
        "#;
        let collector = parse_and_collect(code);

        assert_eq!(collector.translation_props.len(), 2);

        let prop_a = collector
            .translation_props
            .iter()
            .find(|p| p.component_name == "ComponentA")
            .unwrap();
        assert_eq!(prop_a.prop_name, "t");
        assert_eq!(prop_a.namespaces, vec![Some("Namespace1".to_string())]);

        let prop_b = collector
            .translation_props
            .iter()
            .find(|p| p.component_name == "ComponentB")
            .unwrap();
        assert_eq!(prop_b.prop_name, "translate");
        assert_eq!(prop_b.namespaces, vec![Some("Namespace2".to_string())]);
}

#[test]
fn test_collect_same_component_multiple_namespaces() {

        // Same component called from different places with different namespaces
        let code = r#"
            function Page1() {
                const t = useTranslations("NS1");
                return <SharedComponent t={t} />;
            }
            function Page2() {
                const t = useTranslations("NS2");
                return <SharedComponent t={t} />;
            }
        "#;
        let collector = parse_and_collect(code);

        assert_eq!(collector.translation_props.len(), 1);
        let prop = &collector.translation_props[0];
        assert_eq!(prop.component_name, "SharedComponent");
        assert_eq!(prop.prop_name, "t");
        assert_eq!(
            prop.namespaces,
            vec![Some("NS1".to_string()), Some("NS2".to_string())]
        );
}

#[test]
fn test_skip_non_translation_prop() {

        let code = r#"
            const t = useTranslations("MyNs");
            const name = "John";
            <MyComponent t={t} name={name} />;
        "#;
        let collector = parse_and_collect(code);

        // Only 't' should be collected, not 'name'
        assert_eq!(collector.translation_props.len(), 1);
        let prop = &collector.translation_props[0];
        assert_eq!(prop.prop_name, "t");
}

#[test]
fn test_skip_lowercase_elements() {

        let code = r#"
            const t = useTranslations("MyNs");
            <div t={t} />;
        "#;
        let collector = parse_and_collect(code);

        // Lowercase elements are not user components, should be skipped
        assert!(collector.translation_props.is_empty());
}

#[test]
fn test_collect_jsx_member_expression() {

        let code = r#"
            const t = useTranslations("MyNs");
            <UI.Button t={t} />;
        "#;
        let collector = parse_and_collect(code);

        assert_eq!(collector.translation_props.len(), 1);
        let prop = &collector.translation_props[0];
        assert_eq!(prop.component_name, "UI.Button");
        assert_eq!(prop.prop_name, "t");
}

#[test]
fn test_collect_nested_jsx_children() {

        let code = r#"
            const t = useTranslations("MyNs");
            <Parent>
                <Child t={t} />
            </Parent>;
        "#;
        let collector = parse_and_collect(code);

        // Should collect from Child, not Parent
        assert_eq!(collector.translation_props.len(), 1);
        let prop = &collector.translation_props[0];
        assert_eq!(prop.component_name, "Child");
}

#[test]
fn test_translation_binding_tracking() {

        let code = r#"
            const t = useTranslations("NS1");
            const translate = useTranslations("NS2");
            const notTranslation = someOtherFunction();
        "#;
        let collector = parse_and_collect(code);

        // Should track both translation bindings
        assert_eq!(collector.translation_bindings_stack.len(), 1);
        let scope = collector.translation_bindings_stack.last().unwrap();
        assert_eq!(scope.len(), 2);
        assert_eq!(scope.get("t"), Some(&Some("NS1".to_string())));
        assert_eq!(scope.get("translate"), Some(&Some("NS2".to_string())));
        // Should not track non-translation function
        assert!(!scope.contains_key("notTranslation"));
}

#[test]
fn test_translation_binding_scope_isolated() {

        let code = r#"
            function Page() {
                const t = useTranslations("Page");
                return null;
            }
            <Child t={t} />;
        "#;
        let collector = parse_and_collect(code);

        // Binding inside function should not leak to module-level JSX
        assert!(collector.translation_props.is_empty());
}

#[test]
fn test_nested_arrow_binding_scope() {

        // Test that nested arrow functions have isolated scopes
        let code = r#"
            const outer = () => {
                const t = useTranslations("Outer");
                const inner = () => {
                    const t = useTranslations("Inner");
                    return <Child t={t} />;
                };
                return <Parent t={t} />;
            };
        "#;
        let collector = parse_and_collect(code);

        // Should collect both Parent and Child translation props
        assert_eq!(collector.translation_props.len(), 2);

        let parent = collector
            .translation_props
            .iter()
            .find(|p| p.component_name == "Parent")
            .unwrap();
        assert_eq!(parent.namespaces, vec![Some("Outer".to_string())]);

        let child = collector
            .translation_props
            .iter()
            .find(|p| p.component_name == "Child")
            .unwrap();
        assert_eq!(child.namespaces, vec![Some("Inner".to_string())]);
}

#[test]
fn test_collect_translation_fn_call_basic() {

        let code = r#"
            const t = useTranslations("MyNamespace");
            const labels = usageTypeLabels(t);
        "#;
        let collector = parse_and_collect(code);

        assert_eq!(collector.translation_fn_calls.len(), 1);
        let fn_call = &collector.translation_fn_calls[0];
        assert_eq!(fn_call.fn_name, "usageTypeLabels");
        assert_eq!(fn_call.fn_file_path, "test.ts"); // Same file
        assert_eq!(fn_call.arg_index, 0);
        assert_eq!(fn_call.namespaces, vec![Some("MyNamespace".to_string())]);
}

#[test]
fn test_collect_translation_fn_call_without_namespace() {

        let code = r#"
            const t = useTranslations();
            const result = someHelper(t);
        "#;
        let collector = parse_and_collect(code);

        assert_eq!(collector.translation_fn_calls.len(), 1);
        let fn_call = &collector.translation_fn_calls[0];
        assert_eq!(fn_call.fn_name, "someHelper");
        assert_eq!(fn_call.arg_index, 0);
        assert_eq!(fn_call.namespaces, vec![None]);
}

#[test]
fn test_collect_translation_fn_call_with_await() {

        let code = r#"
            const t = await getTranslations("ServerNs");
            const labels = buildLabels(t);
        "#;
        let collector = parse_and_collect(code);

        assert_eq!(collector.translation_fn_calls.len(), 1);
        let fn_call = &collector.translation_fn_calls[0];
        assert_eq!(fn_call.fn_name, "buildLabels");
        assert_eq!(fn_call.namespaces, vec![Some("ServerNs".to_string())]);
}

#[test]
fn test_collect_translation_fn_call_second_argument() {

        let code = r#"
            const t = useTranslations("MyNs");
            const result = createLabels(config, t);
        "#;
        let collector = parse_and_collect(code);

        assert_eq!(collector.translation_fn_calls.len(), 1);
        let fn_call = &collector.translation_fn_calls[0];
        assert_eq!(fn_call.fn_name, "createLabels");
        assert_eq!(fn_call.arg_index, 1); // Second argument
        assert_eq!(fn_call.namespaces, vec![Some("MyNs".to_string())]);
}

#[test]
fn test_collect_translation_fn_call_multiple_functions() {

        let code = r#"
            const t1 = useTranslations("NS1");
            const t2 = useTranslations("NS2");
            const labels1 = createLabels(t1);
            const labels2 = buildLabels(t2);
        "#;
        let collector = parse_and_collect(code);

        assert_eq!(collector.translation_fn_calls.len(), 2);

        let fn_call1 = collector
            .translation_fn_calls
            .iter()
            .find(|c| c.fn_name == "createLabels")
            .unwrap();
        assert_eq!(fn_call1.namespaces, vec![Some("NS1".to_string())]);

        let fn_call2 = collector
            .translation_fn_calls
            .iter()
            .find(|c| c.fn_name == "buildLabels")
            .unwrap();
        assert_eq!(fn_call2.namespaces, vec![Some("NS2".to_string())]);
}

#[test]
fn test_collect_same_function_multiple_namespaces() {

        let code = r#"
            function Page1() {
                const t = useTranslations("NS1");
                return createLabels(t);
            }
            function Page2() {
                const t = useTranslations("NS2");
                return createLabels(t);
            }
        "#;
        let collector = parse_and_collect(code);

        // Same function called with different namespaces
        assert_eq!(collector.translation_fn_calls.len(), 1);
        let fn_call = &collector.translation_fn_calls[0];
        assert_eq!(fn_call.fn_name, "createLabels");
        assert_eq!(
            fn_call.namespaces,
            vec![Some("NS1".to_string()), Some("NS2".to_string())]
        );
}

#[test]
fn test_skip_non_translation_function_call() {

        let code = r#"
            const t = useTranslations("MyNs");
            const name = "John";
            const result = someFunction(name);  // Not passing t
        "#;
        let collector = parse_and_collect(code);

        // Should not collect - the argument is not a translation function
        assert!(collector.translation_fn_calls.is_empty());
}

#[test]
fn test_skip_translation_hook_call() {

        // Should not track useTranslations("Ns") itself as a function call
        let code = r#"
            const t = useTranslations("MyNs");
        "#;
        let collector = parse_and_collect(code);

        assert!(collector.translation_fn_calls.is_empty());
}

#[test]
fn key_objects_test_translation_fn_call_scope_isolated() {

        let code = r#"
            function Page() {
                const t = useTranslations("Page");
                return createLabels(t);
            }
            // t is not in scope here, so this should be a different variable
            const result = someFunc(t);
        "#;
        let collector = parse_and_collect(code);

        // Only the call inside Page() should be collected
        assert_eq!(collector.translation_fn_calls.len(), 1);
        let fn_call = &collector.translation_fn_calls[0];
        assert_eq!(fn_call.fn_name, "createLabels");
}

#[test]
fn test_translation_fn_call_in_nested_arrow() {

        let code = r#"
            const Component = () => {
                const t = useTranslations("Outer");
                const inner = () => {
                    const t = useTranslations("Inner");
                    return buildLabels(t);
                };
                return createLabels(t);
            };
        "#;
        let collector = parse_and_collect(code);

        assert_eq!(collector.translation_fn_calls.len(), 2);

        let outer_call = collector
            .translation_fn_calls
            .iter()
            .find(|c| c.fn_name == "createLabels")
            .unwrap();
        assert_eq!(outer_call.namespaces, vec![Some("Outer".to_string())]);

        let inner_call = collector
            .translation_fn_calls
            .iter()
            .find(|c| c.fn_name == "buildLabels")
            .unwrap();
        assert_eq!(inner_call.namespaces, vec![Some("Inner".to_string())]);
}

#[test]
fn test_detect_schema_function_with_tfunction_type() {

        let code = r#"
              export const createSchema = (t: TFunction) => z.object({
                  title: z.string().min(1, t("titleRequired")),
              });
          "#;

        let functions = parse_and_collect_schemas(code);
        assert_eq!(functions.len(), 1);
        assert_eq!(functions[0].name, "createSchema");
        assert_eq!(functions[0].keys, vec!["titleRequired"]);
}

#[test]
fn test_detect_schema_function_without_type() {

        let code = r#"
              export const createSchema = (t) => z.object({
                  title: z.string().min(1, t("titleRequired")),
                  desc: z.string().max(100, t("descMax")),
              });
          "#;

        let functions = parse_and_collect_schemas(code);
        assert_eq!(functions.len(), 1);
        assert_eq!(functions[0].keys, vec!["titleRequired", "descMax"]);
}

#[test]
fn test_detect_tform_param() {

        let code = r#"
              export const createSchema = (tForm) => z.object({
                  name: z.string().min(1, tForm("nameRequired")),
              });
          "#;

        let functions = parse_and_collect_schemas(code);
        assert_eq!(functions.len(), 1);
        assert_eq!(functions[0].keys, vec!["nameRequired"]);
}

#[test]
fn test_collect_nested_schema_calls() {

        let code = r#"
              export const createBaseSchema = (t) => z.object({
                  id: z.string().min(1, t("idRequired")),
              });

              export const createExtendedSchema = (t) =>
                  createBaseSchema(t).extend({
                      name: z.string().min(1, t("nameRequired")),
                  });
          "#;

        let functions = parse_and_collect_schemas(code);
        assert_eq!(functions.len(), 2);

        let extended = functions
            .iter()
            .find(|f| f.name == "createExtendedSchema")
            .unwrap();
        assert_eq!(extended.keys, vec!["nameRequired"]);
        assert_eq!(extended.nested_calls, vec!["createBaseSchema"]);
}

#[test]
fn test_ignore_non_schema_functions() {

        let code = r#"
              export const helper = (data) => data.map(x => x);
              export const createSchema = (t) => z.object({
                  title: z.string().min(1, t("titleRequired")),
              });
          "#;

        let functions = parse_and_collect_schemas(code);
        assert_eq!(functions.len(), 1);
        assert_eq!(functions[0].name, "createSchema");
}

#[test]
fn test_expand_keys_with_namespace() {

        let mut registry = SchemaRegistry::new();
        registry.insert(
            "createSchema".to_string(),
            SchemaFunction {
                name: "createSchema".to_string(),
                file_path: "test.ts".to_string(),
                keys: vec!["titleRequired".to_string(), "descMax".to_string()],
                nested_calls: vec![],
            },
        );

        let mut visited = StrSet::new();
        let result = expand_schema_keys(
            "createSchema",
            &Some("Form".to_string()),
            &registry,
            &mut visited,
        );

        assert_eq!(result.keys.len(), 2);
        assert_eq!(result.keys[0].full_key, "Form.titleRequired");
        assert!(result.keys[0].has_namespace);
        assert_eq!(result.keys[1].full_key, "Form.descMax");
}

#[test]
fn test_expand_keys_without_namespace() {

        let mut registry = SchemaRegistry::new();
        registry.insert(
            "createSchema".to_string(),
            SchemaFunction {
                name: "createSchema".to_string(),
                file_path: "test.ts".to_string(),
                keys: vec!["titleRequired".to_string()],
                nested_calls: vec![],
            },
        );

        let mut visited = StrSet::new();
        let result = expand_schema_keys("createSchema", &None, &registry, &mut visited);

        assert_eq!(result.keys.len(), 1);
        assert_eq!(result.keys[0].full_key, "titleRequired");
        assert!(!result.keys[0].has_namespace);
}

#[test]
fn test_expand_nested_keys() {

        let mut registry = SchemaRegistry::new();
        registry.insert(
            "createBase".to_string(),
            SchemaFunction {
                name: "createBase".to_string(),
                file_path: "test.ts".to_string(),
                keys: vec!["baseKey".to_string()],
                nested_calls: vec![],
            },
        );
        registry.insert(
            "createExtended".to_string(),
            SchemaFunction {
                name: "createExtended".to_string(),
                file_path: "test.ts".to_string(),
                keys: vec!["extendedKey".to_string()],
                nested_calls: vec!["createBase".to_string()],
            },
        );

        let mut visited = StrSet::new();
        let result = expand_schema_keys(
            "createExtended",
            &Some("Form".to_string()),
            &registry,
            &mut visited,
        );

        assert_eq!(result.keys.len(), 2);
        assert!(result.keys.iter().any(|k| k.full_key == "Form.extendedKey"));
        assert!(result.keys.iter().any(|k| k.full_key == "Form.baseKey"));
        assert!(result.unresolved_nested.is_empty());
}

#[test]
fn test_circular_dependency_protection() {

        let mut registry = SchemaRegistry::new();
        registry.insert(
            "schemaA".to_string(),
            SchemaFunction {
                name: "schemaA".to_string(),
                file_path: "test.ts".to_string(),
                keys: vec!["keyA".to_string()],
                nested_calls: vec!["schemaB".to_string()],
            },
        );
        registry.insert(
            "schemaB".to_string(),
            SchemaFunction {
                name: "schemaB".to_string(),
                file_path: "test.ts".to_string(),
                keys: vec!["keyB".to_string()],
                nested_calls: vec!["schemaA".to_string()], // circular!
            },
        );

        let mut visited = StrSet::new();
        let result = expand_schema_keys(
            "schemaA",
            &Some("Form".to_string()),
            &registry,
            &mut visited,
        );

        // Should not infinite loop, should have both keys
        assert_eq!(result.keys.len(), 2);
}

#[test]
fn test_unresolved_nested_calls() {

        let mut registry = SchemaRegistry::new();
        registry.insert(
            "createSchema".to_string(),
            SchemaFunction {
                name: "createSchema".to_string(),
                file_path: "test.ts".to_string(),
                keys: vec!["key1".to_string()],
                nested_calls: vec![
                    "unknownHelper".to_string(),  // not in registry
                    "anotherMissing".to_string(), // not in registry
                ],
            },
        );

        let mut visited = StrSet::new();
        let result = expand_schema_keys(
            "createSchema",
            &Some("Form".to_string()),
            &registry,
            &mut visited,
        );

        assert_eq!(result.keys.len(), 1);
        assert_eq!(result.keys[0].full_key, "Form.key1");
        assert_eq!(result.unresolved_nested.len(), 2);
        assert!(
            result
                .unresolved_nested
                .contains(&"unknownHelper".to_string())
        );
        assert!(
            result
                .unresolved_nested
                .contains(&"anotherMissing".to_string())
        );
}

#[test]
fn test_detect_keys_in_long_chain() {

        let code = r#"
            export const createSchema = (t: TFunction) => z.object({
                count: z.number().int().min(1, t("countMin")).max(10, t("countMax")).optional(),
            });
        "#;
        let functions = parse_and_collect_schemas(code);
        assert_eq!(functions.len(), 1);
        assert!(
            functions[0].keys.contains(&"countMin".to_string()),
            "Expected 'countMin' in keys: {:?}",
            functions[0].keys
        );
        assert!(
            functions[0].keys.contains(&"countMax".to_string()),
            "Expected 'countMax' in keys: {:?}",
            functions[0].keys
        );
}

#[test]
fn test_detect_keys_in_refine() {

        let code = r#"
            export const createSchema = (t: TFunction) => z.object({
                name: z.string(),
            }).refine(() => true, { message: t("validationError") });
        "#;
        let functions = parse_and_collect_schemas(code);
        assert_eq!(functions.len(), 1);
        assert!(
            functions[0].keys.contains(&"validationError".to_string()),
            "Expected 'validationError' in keys: {:?}",
            functions[0].keys
        );
}

#[test]
fn test_finds_standard_t_call() {

        let code = r#"
            import { useTranslations } from "next-intl";
            function App() {
                const t = useTranslations("Common");
                return <div>{t("hello")}</div>;
            }
        "#;
        let lines = find_translation_lines(code);
        assert!(lines.contains(&5), "Should find t() call on line 5");
}

#[test]
fn test_finds_renamed_translation_function() {

        let code = r#"
            import { useTranslations } from "next-intl";
            function App() {
                const translate = useTranslations("Common");
                return <div>{translate("hello")}</div>;
            }
        "#;
        let lines = find_translation_lines(code);
        assert!(lines.contains(&5), "Should find translate() call on line 5");
}

#[test]
fn test_finds_async_get_translations() {

        let code = r#"
            import { getTranslations } from "next-intl/server";
            async function Page() {
                const t = await getTranslations("Common");
                return <div>{t("hello")}</div>;
            }
        "#;
        let lines = find_translation_lines(code);
        assert!(lines.contains(&5), "Should find t() call on line 5");
}

#[test]
fn test_ignores_unrelated_function_calls() {

        let code = r#"
            function App() {
                const t = (x) => x;
                return <div>{t("hello")}</div>;
            }
        "#;
        let lines = find_translation_lines(code);
        assert!(
            lines.is_empty(),
            "Should not find any translation calls: {:?}",
            lines
        );
}

#[test]
fn test_multiple_calls_same_line() {

        let code = r#"
            import { useTranslations } from "next-intl";
            function App() {
                const t = useTranslations("Common");
                return <div>{t("hello")} {t("world")}</div>;
            }
        "#;
        let lines = find_translation_lines(code);
        assert_eq!(lines.len(), 1, "Should deduplicate same line");
        assert!(lines.contains(&5));
}

fn collect_file(file_path: &str, code: &str) -> RegistryCollector {
    let module = parse(code);
    let mut collector = RegistryCollector::new(file_path);
    collector.visit_module(&module);
    collector
}

#[test]
fn registry_collects_schema_objects_and_default_export() {
    let code = r#"
        import Card from "./Card";
        export const createSchema = (t) => z.object({ a: z.string().min(1, t("required")) });
        export const KEYS = ["a", "b"];
        const obj = { x: "y" };
        export default function Page() {
            const t = useTranslations("Ns");
            return <Card t={t} />;
        }
    "#;
    let c = collect_file("src/page.tsx", code);
    assert_eq!(c.schema_functions.len(), 1);
    assert_eq!(c.schema_functions[0].name, "createSchema");
    assert_eq!(c.schema_functions[0].keys, vec!["required"]);
    assert_eq!(c.schema_functions[0].file_path, "src/page.tsx");
    assert_eq!(c.string_arrays.len(), 1);
    assert_eq!(c.string_arrays[0].name, "KEYS");
    assert!(c.string_arrays[0].is_exported);
    assert_eq!(c.objects.len(), 1);
    assert_eq!(c.objects[0].name, "obj");
    assert!(!c.objects[0].is_exported);
    assert_eq!(c.default_export_name, Some("Page".to_string()));
    assert_eq!(c.translation_props.len(), 1);
    assert_eq!(c.translation_props[0].component_name, "Card");
    assert_eq!(c.translation_props[0].namespaces, vec![Some("Ns".to_string())]);
    assert_eq!(c.imports.len(), 1);
    assert_eq!(c.imports[0].imported_name, "default");
}

#[test]
fn registry_default_export_of_arrow_and_anonymous_function() {
    let c = collect_file("a.tsx", "export default () => null;");
    assert_eq!(c.default_export_name, Some("default".to_string()));
    let c = collect_file("b.tsx", "export default function () { return null; }");
    assert_eq!(c.default_export_name, Some("default".to_string()));
    let c = collect_file("c.tsx", "const Page = () => null;\nexport default Page;");
    assert_eq!(c.default_export_name, Some("Page".to_string()));
    let c = collect_file("d.tsx", "export default class Shell {}");
    assert_eq!(c.default_export_name, Some("Shell".to_string()));
    let c = collect_file("e.tsx", "export const x = 1;");
    assert_eq!(c.default_export_name, None);
}

#[test]
fn registry_parameter_hides_outer_translation_function() {
    let code = r#"
        const t = useTranslations("Outer");
        function Child(t) {
            return <Comp t={t} />;
        }
        <Other t={t} />;
    "#;
    let c = collect_file("a.tsx", code);
    assert_eq!(c.translation_props.len(), 1);
    assert_eq!(c.translation_props[0].component_name, "Other");
    // The collector without parameter hiding records both.
    let mut k = KeyObjectCollector::new("a.tsx");
    k.visit_module(&parse(code));
    assert_eq!(k.translation_props.len(), 2);
}

#[test]
fn registry_call_argument_named_where_defined() {
    let code = r#"
        import { buildLabels as labels } from "./labels";
        const t = useTranslations("Ns");
        const x = labels(t);
    "#;
    let c = collect_file("src/page.tsx", code);
    assert_eq!(c.translation_fn_calls.len(), 1);
    assert_eq!(c.translation_fn_calls[0].fn_name, "buildLabels");
    assert_eq!(c.translation_fn_calls[0].fn_file_path, "src/./labels.ts");
    assert_eq!(c.translation_fn_calls[0].arg_index, 0);
}

#[test]
fn registry_schema_body_objects_count_as_module_level() {
    let code = r#"
        export const createSchema = (t) => {
            const inner = { a: "b" };
            return z.object({ name: z.string().min(1, t("nameRequired")) });
        };
    "#;
    let c = collect_file("a.ts", code);
    assert_eq!(c.schema_functions.len(), 1);
    assert_eq!(c.objects.len(), 1);
    assert_eq!(c.objects[0].name, "inner");
    assert!(c.objects[0].is_module_level);
}

#[test]
fn collect_registries_merges_files() {
    let card = collect_file("src/./Card.tsx", "export default function Card({ t }) { return null; }");
    let page_a = collect_file(
        "src/a.tsx",
        r#"
        import MyCard from "./Card";
        export const createSchema = (t) => z.object({ a: z.string().min(1, t("first")) });
        const KEYS = ["x"];
        function A() { const t = useTranslations("NsA"); helper(t); return <MyCard t={t} />; }
        "#,
    );
    let page_b = collect_file(
        "src/b.tsx",
        r#"
        export const createSchema = (t) => z.object({ b: z.string().min(1, t("second")) });
        function B() { const t = useTranslations("NsB"); helper(t); return null; }
        "#,
    );
    let mut existing = StrSet::new();
    existing.insert("src/./Card.tsx".to_string());
    let files = vec![
        ("src/./Card.tsx".to_string(), card),
        ("src/a.tsx".to_string(), page_a),
        ("src/b.tsx".to_string(), page_b),
    ];
    let (registries, imports) = collect_registries(files, &existing);
    // The first schema function with a name wins.
    assert_eq!(registries.schema.len(), 1);
    assert_eq!(registries.schema.get("createSchema").unwrap().keys, vec!["first"]);
    assert!(registries.string_array.get("src/a.tsx.KEYS").is_some());
    assert_eq!(registries.default_exports.get("src/./Card.tsx"), Some(&"Card".to_string()));
    assert_eq!(imports.get("src/a.tsx").unwrap().len(), 1);
    assert_eq!(imports.get("src/b.tsx").unwrap().len(), 0);
    // Both files pass `t` to `helper` (defined where called): separate keys per file.
    assert!(registries.translation_fn_call.get("src/a.tsx.helper.0").is_some());
    assert!(registries.translation_fn_call.get("src/b.tsx.helper.0").is_some());
    // The default import `MyCard` goes by the name `Card`.
    let prop = registries.translation_prop.get("Card.t").unwrap();
    assert_eq!(prop.component_name, "Card");
    assert_eq!(prop.namespaces, vec![Some("NsA".to_string())]);
}

#[test]
fn collect_registries_merges_namespaces_of_one_argument() {
    let a = collect_file("src/a.tsx", r#"
        import { build } from "./labels";
        function A() { const t = useTranslations("NsA"); return build(t); }
    "#);
    let b = collect_file("src/b.tsx", r#"
        import { build } from "./labels";
        function B() { const t = useTranslations("NsB"); return build(t); }
        function C() { const t = useTranslations("NsA"); return build(t); }
    "#);
    let files = vec![("src/a.tsx".to_string(), a), ("src/b.tsx".to_string(), b)];
    let (registries, _) = collect_registries(files, &StrSet::new());
    assert_eq!(registries.translation_fn_call.len(), 1);
    let call = registries.translation_fn_call.get("src/./labels.ts.build.0").unwrap();
    assert_eq!(call.namespaces, vec![Some("NsA".to_string()), Some("NsB".to_string())]);
}

#[test]
fn resolve_component_name_keeps_name_without_default_export() {
    let imports = vec![ImportInfo {
        local_name: "Card".to_string(),
        imported_name: "default".to_string(),
        module_specifier: "./Card".to_string(),
    }];
    let defaults: StrMap<String> = StrMap::new();
    let name = resolve_component_name_for_prop("src/a.tsx", "Card", &imports, &defaults, &StrSet::new());
    assert_eq!(name, "Card");
    let mut defaults: StrMap<String> = StrMap::new();
    defaults.insert("src/./Card.ts".to_string(), "Panel".to_string());
    let name = resolve_component_name_for_prop("src/a.tsx", "Card", &imports, &defaults, &StrSet::new());
    assert_eq!(name, "Panel");
    let name = resolve_component_name_for_prop("src/a.tsx", "Other", &imports, &defaults, &StrSet::new());
    assert_eq!(name, "Other");
}

fn source_file(file_path: &str, code: &str) -> SourceFile {
    let (module, comments) = parse_with_comments(code);
    SourceFile { file_path: file_path.to_string(), module, source: code.to_string(), comments }
}

#[test]
fn context_analyses_every_parsed_file_once() {
    let config = Config {
        primary_locale: "en".to_string(),
        messages_dir: "./messages".to_string(),
        includes: Vec::new(),
        ignores: Vec::new(),
        ignore_test_files: true,
        checked_attributes: vec!["placeholder".to_string()],
        ignore_texts: Vec::new(),
    };
    let files = vec!["src/a.tsx".to_string(), "src/b.tsx".to_string()];
    let mut ctx = CheckContext::new(config, ".".to_string(), files, false);
    let a = r#"
        export function A() {
            const t = useTranslations("Home");
            return <h1>{t("title")}</h1>;
        }
    "#;
    let b = r#"
        // a note
        export default function B() {
            return <p>Hello world</p>;
        }
    "#;
    ctx.set_parsed_files(vec![source_file("src/a.tsx", a), source_file("src/b.tsx", b)]);
    ctx.ensure_used_keys();
    let used = ctx.used_keys().unwrap();
    assert!(used.contains("Home.title"));
    assert_eq!(used.len(), 1);
    let usages = ctx.all_key_usages().unwrap();
    assert_eq!(usages.len(), 2);
    assert_eq!(usages.get("src/a.tsx").unwrap().used_keys.len(), 1);
    assert_eq!(usages.get("src/b.tsx").unwrap().used_keys.len(), 0);
    let hardcoded = ctx.hardcoded_issues().unwrap();
    assert_eq!(hardcoded.get("src/a.tsx").unwrap().len(), 0);
    let in_b = hardcoded.get("src/b.tsx").unwrap();
    assert_eq!(in_b.len(), 1);
    assert_eq!(in_b[0].text, "Hello world");
    assert_eq!(ctx.registries().unwrap().default_exports.get("src/b.tsx"), Some(&"B".to_string()));
    let comments = ctx.file_comments().unwrap();
    assert_eq!(comments.get("src/b.tsx").unwrap().len(), 1);
    assert_eq!(comments.get("src/b.tsx").unwrap()[0].0, 2);

    let (reg, imports) = build_registries(&ctx);
    assert_eq!(reg.default_exports.get("src/b.tsx"), Some(&"B".to_string()));
    assert_eq!(imports.len(), 2);
    let (usages_again, hardcoded_again) = build_file_analysis(&ctx);
    assert_eq!(usages_again.get("src/a.tsx").unwrap().used_keys[0].full_key, "Home.title");
    assert_eq!(hardcoded_again.get("src/b.tsx").unwrap().len(), 1);
    assert!(collect_used_keys(&ctx).contains("Home.title"));

    // A second round keeps what the first computed.
    ctx.ensure_hardcoded_issues();
    ctx.ensure_registries();
    assert_eq!(ctx.hardcoded_issues().unwrap().get("src/b.tsx").unwrap().len(), 1);
}
