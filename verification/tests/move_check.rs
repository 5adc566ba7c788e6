use metel::ast::{
    AspectDecl, AspectMethod, AssignOp, AssignTarget, AssocTypeDecl, BinOp, Block, Bound, BreakExpr,
    Decl, EnumDecl, Expr, FieldDecl, ForInStmt, FunDecl, GenericParam, ImplBlock, LetDecl, Literal,
    MatchArm, MatchExpr, MutDecl, Param, Pattern, Polarity, ReceiverKind, ReturnExpr, Stmt,
    StructDecl, TypeExpr, UnaryOp, VariantDecl, WhileStmt,
};
use metel::conversions::{type_expr_to_infer, TypeScope};
use metel::elaborate::program::construct_program;
use metel::elaborate::state::{Facts, Refusal, SchemeEntry};
use metel::elaborate::symbolic::bounds_of;
use metel::error::{MetelError, TypeErrorCode};
use metel::infer::{infer_to_type, InferType, Substitution, TypeVar};
use metel::move_check::flow::{FlowState, MoveCause};
use metel::move_check::generic_bodies::{prepare_function, prepare_method, ImplSite};
use metel::move_check::generics::infer_method_arg_types;
use metel::move_check::{check_graph, collect_graph_violations, MoveViolation};
use metel::place::Place;
use metel::registry::{
    Additions, AspectImpl, AspectInfo, DeclScheme, EnumInfo, FieldEntry, MethodEntry, StructInfo,
    TypeDefinitionRegistry, VariantInfo,
};
use metel::scheme::TypeScheme;
use metel::span::Span;
use metel::typed_ast::{TypedModule, TypedModuleGraph};
use metel::types::Type;

// --- A reader for the part of the language that the programs below are written in ---

const FILE: &str = "main.mtl";

#[derive(Debug, Clone, PartialEq)]
enum Tok {
    Word(String),
    Text(String),
    Number(i64),
    Sign(String),
    End,
}

struct Reader {
    toks: Vec<(Tok, Span)>,
    at: usize,
}

fn tokens(source: &str) -> Vec<(Tok, Span)> {
    let chars: Vec<char> = source.chars().collect();
    let mut out = Vec::new();
    let (mut i, mut line, mut col) = (0usize, 1u32, 1u32);
    while i < chars.len() {
        let c = chars[i];
        if c == '\n' {
            i += 1;
            line += 1;
            col = 1;
            continue;
        }
        if c.is_whitespace() {
            i += 1;
            col += 1;
            continue;
        }
        let start = i;
        let tok = if c.is_alphabetic() || c == '_' {
            while i < chars.len() && (chars[i].is_alphanumeric() || chars[i] == '_') {
                i += 1;
            }
            Tok::Word(chars[start..i].iter().collect())
        } else if c.is_ascii_digit() {
            while i < chars.len() && chars[i].is_ascii_digit() {
                i += 1;
            }
            Tok::Number(chars[start..i].iter().collect::<String>().parse().unwrap())
        } else if c == '"' {
            i += 1;
            while chars[i] != '"' {
                i += 1;
            }
            i += 1;
            Tok::Text(chars[start + 1..i - 1].iter().collect())
        } else {
            let two: String = chars[i..(i + 2).min(chars.len())].iter().collect();
            if ["->", "=>", "::", "==", "+="].contains(&two.as_str()) {
                i += 2;
                Tok::Sign(two)
            } else {
                i += 1;
                Tok::Sign(c.to_string())
            }
        };
        out.push((
            tok,
            Span { start, end: i, filename: FILE.to_string(), line, col },
        ));
        col += (i - start) as u32;
    }
    out.push((
        Tok::End,
        Span { start: i, end: i, filename: FILE.to_string(), line, col },
    ));
    out
}

impl Reader {
    fn peek(&self) -> &Tok {
        &self.toks[self.at].0
    }

    fn peek_at(&self, k: usize) -> &Tok {
        &self.toks[(self.at + k).min(self.toks.len() - 1)].0
    }

    fn span(&self) -> Span {
        self.toks[self.at].1.clone()
    }

    fn is(&self, s: &str) -> bool {
        match self.peek() {
            Tok::Word(w) | Tok::Sign(w) => w == s,
            _ => false,
        }
    }

    fn eat(&mut self, s: &str) -> bool {
        let hit = self.is(s);
        if hit {
            self.at += 1;
        }
        hit
    }

    fn want(&mut self, s: &str) {
        assert!(self.eat(s), "expected `{s}`, got {:?}", self.toks[self.at]);
    }

    fn word(&mut self) -> String {
        match self.peek().clone() {
            Tok::Word(w) => {
                self.at += 1;
                w
            }
            other => panic!("expected a name, got {other:?}"),
        }
    }

    fn program(&mut self) -> Vec<Decl> {
        let mut out = Vec::new();
        while *self.peek() != Tok::End {
            let d = self.item();
            out.push(d);
        }
        out
    }

    fn item(&mut self) -> Decl {
        let span = self.span();
        if self.is("fun") {
            return Decl::Fun(self.fun());
        }
        if self.eat("struct") {
            let name = self.word();
            let fields = self.fields();
            return Decl::Struct(StructDecl { name, generics: vec![], fields, span });
        }
        if self.eat("enum") {
            let name = self.word();
            self.want("{");
            let mut variants = Vec::new();
            while !self.eat("}") {
                let span = self.span();
                let name = self.word();
                let fields = if self.is("{") { self.fields() } else { vec![] };
                variants.push(VariantDecl { name, fields, span });
                self.eat(",");
            }
            return Decl::Enum(EnumDecl { name, generics: vec![], variants, span });
        }
        if self.eat("extend") {
            let generics = self.generics();
            let target_type = self.ty();
            let aspect_name = if self.eat(":") { Some(self.word()) } else { None };
            self.want("{");
            let mut methods = Vec::new();
            while !self.eat("}") {
                methods.push(self.fun());
            }
            return Decl::Impl(ImplBlock {
                polarity: Polarity::Positive,
                generics,
                aspect_name,
                aspect_type_args: vec![],
                target_type,
                where_clause: None,
                assoc_type_defs: vec![],
                methods,
                span,
            });
        }
        self.want("aspect");
        let name = self.word();
        self.want("{");
        let mut assoc_types = Vec::new();
        let mut methods = Vec::new();
        while !self.eat("}") {
            let span = self.span();
            if self.eat("type") {
                let name = self.word();
                let bounds = if self.eat(":") { self.bounds() } else { vec![] };
                self.want(";");
                assoc_types.push(AssocTypeDecl { name, bounds, span });
            } else {
                self.want("fun");
                let name = self.word();
                let generics = self.generics();
                let params = self.params();
                let return_type = if self.eat("->") { Some(self.ty()) } else { None };
                let default_body = if self.eat(";") { None } else { Some(self.block()) };
                methods.push(AspectMethod { name, generics, params, return_type, default_body, span });
            }
        }
        Decl::Aspect(AspectDecl { name, generics: vec![], assoc_types, methods, span })
    }

    fn fun(&mut self) -> FunDecl {
        let span = self.span();
        self.want("fun");
        let name = self.word();
        let generics = self.generics();
        let params = self.params();
        let return_type = if self.eat("->") { Some(self.ty()) } else { None };
        let body = self.block();
        FunDecl { name, generics, params, return_type, body, native: None, span }
    }

    fn generics(&mut self) -> Vec<GenericParam> {
        let mut out = Vec::new();
        if self.eat("<") {
            while !self.eat(">") {
                let span = self.span();
                let name = self.word();
                let bounds = if self.eat(":") { self.bounds() } else { vec![] };
                out.push(GenericParam { name, bounds, is_record: false, span });
                self.eat(",");
            }
        }
        out
    }

    fn bounds(&mut self) -> Vec<Bound> {
        let mut out = vec![self.bound()];
        while self.eat("+") {
            out.push(self.bound());
        }
        out
    }

    fn bound(&mut self) -> Bound {
        Bound { aspect: self.ty(), polarity: Polarity::Positive, open: false }
    }

    fn params(&mut self) -> Vec<Param> {
        let mut out = Vec::new();
        self.want("(");
        while !self.eat(")") {
            let span = self.span();
            let receiver = if self.eat("&") {
                if self.eat("var") {
                    Some(ReceiverKind::RefMut)
                } else {
                    Some(ReceiverKind::Ref)
                }
            } else if self.is("self") {
                Some(ReceiverKind::Value)
            } else {
                None
            };
            let name = self.word();
            let type_ann = if self.eat(":") { Some(self.ty()) } else { None };
            out.push(Param { name, type_ann, receiver, span });
            self.eat(",");
        }
        out
    }

    fn fields(&mut self) -> Vec<FieldDecl> {
        let mut out = Vec::new();
        self.want("{");
        while !self.eat("}") {
            let span = self.span();
            let name = self.word();
            self.want(":");
            let type_ann = self.ty();
            out.push(FieldDecl { name, type_ann, span });
            self.eat(",");
        }
        out
    }

    fn ty(&mut self) -> TypeExpr {
        let mut out = if self.eat("&") {
            if self.eat("var") {
                TypeExpr::MutReference(Box::new(self.ty()))
            } else {
                TypeExpr::Reference(Box::new(self.ty()))
            }
        } else if self.eat("[") {
            let item = self.ty();
            self.want(";");
            let n = match self.peek().clone() {
                Tok::Number(n) => n as u64,
                other => panic!("expected a length, got {other:?}"),
            };
            self.at += 1;
            self.want("]");
            TypeExpr::SizedArray(Box::new(item), n)
        } else if self.eat("(") {
            let mut items = Vec::new();
            while !self.eat(")") {
                items.push(self.ty());
                self.eat(",");
            }
            if self.eat("->") {
                TypeExpr::Fun(items, Some(Box::new(self.ty())))
            } else {
                TypeExpr::Tuple(items)
            }
        } else if self.is("{") {
            TypeExpr::Record(self.fields().into_iter().map(|f| (f.name, f.type_ann)).collect())
        } else {
            TypeExpr::Named(self.word(), vec![])
        };
        while self.is("[") && *self.peek_at(1) == Tok::Sign("]".to_string()) {
            self.at += 2;
            out = TypeExpr::Array(Box::new(out));
        }
        out
    }

    fn block(&mut self) -> Block {
        let span = self.span();
        self.want("{");
        let mut stmts = Vec::new();
        let mut tail = None;
        while !self.eat("}") {
            let span = self.span();
            if self.is("let") || self.is("var") {
                let fixed = self.is("let");
                self.at += 1;
                let name = self.word();
                let type_ann = if self.eat(":") { Some(self.ty()) } else { None };
                self.want("=");
                let value = self.expr();
                self.want(";");
                stmts.push(if fixed {
                    Decl::Let(LetDecl { name, type_ann, value, span })
                } else {
                    Decl::Mut(MutDecl { name, type_ann, value, span })
                });
            } else if self.is("fun") || self.is("extend") {
                stmts.push(self.item());
            } else if self.eat("while") {
                self.want("(");
                let condition = self.expr();
                self.want(")");
                let body = self.block();
                stmts.push(Decl::Stmt(Stmt::While(WhileStmt { condition, body, span })));
            } else if self.eat("for") {
                self.want("(");
                let binding = self.word();
                self.want("in");
                let iterable = self.expr();
                self.want(")");
                let body = self.block();
                stmts.push(Decl::Stmt(Stmt::ForIn(Box::new(ForInStmt {
                    binding,
                    mutable: false,
                    iterable,
                    body,
                    span,
                }))));
            } else {
                let blockish = self.is("if") || self.is("loop");
                let e = self.expr();
                if self.eat(";") || blockish {
                    stmts.push(Decl::Stmt(Stmt::Expr(e)));
                } else {
                    tail = Some(Box::new(e));
                }
            }
        }
        Block { stmts, tail, span }
    }

    fn expr(&mut self) -> Expr {
        let span = self.span();
        let left = self.sum();
        if self.eat("=") {
            let value = Box::new(self.expr());
            let target = target_of(left);
            return Expr::Assign { target, op: AssignOp::Assign, value, span };
        }
        if self.eat("+=") {
            let value = Box::new(self.expr());
            let target = target_of(left);
            return Expr::Assign { target, op: AssignOp::AddAssign, value, span };
        }
        for (sign, op) in [("==", BinOp::Eq), ("<", BinOp::Lt)] {
            if self.eat(sign) {
                let right = Box::new(self.sum());
                return Expr::BinOp(Box::new(left), op, right, span);
            }
        }
        left
    }

    fn sum(&mut self) -> Expr {
        let span = self.span();
        let mut left = self.unary();
        while self.eat("+") {
            let right = Box::new(self.unary());
            left = Expr::BinOp(Box::new(left), BinOp::Add, right, span.clone());
        }
        left
    }

    fn unary(&mut self) -> Expr {
        let span = self.span();
        if self.eat("*") {
            return Expr::UnaryOp(UnaryOp::Deref, Box::new(self.unary()), span);
        }
        if self.eat("&") {
            let op = if self.eat("var") { UnaryOp::RefMut } else { UnaryOp::Ref };
            return Expr::UnaryOp(op, Box::new(self.unary()), span);
        }
        self.postfix()
    }

    fn args(&mut self) -> Vec<Expr> {
        let mut out = Vec::new();
        self.want("(");
        while !self.eat(")") {
            out.push(self.expr());
            self.eat(",");
        }
        out
    }

    fn postfix(&mut self) -> Expr {
        let mut e = self.primary();
        loop {
            let span = self.span();
            if self.is("(") {
                let args = self.args();
                e = Expr::Call { callee: Box::new(e), type_args: vec![], args, span };
            } else if self.eat(".") {
                if let Tok::Number(n) = self.peek().clone() {
                    self.at += 1;
                    e = Expr::TupleAccess { object: Box::new(e), index: n as usize, span };
                    continue;
                }
                let name = self.word();
                if self.is("(") {
                    let args = self.args();
                    e = Expr::MethodCall {
                        receiver: Box::new(e),
                        method: name,
                        type_args: vec![],
                        args,
                        span,
                    };
                } else {
                    e = Expr::FieldAccess { object: Box::new(e), field: name, span };
                }
            } else if self.eat("[") {
                let index = Box::new(self.expr());
                self.want("]");
                e = Expr::Index { object: Box::new(e), index, span };
            } else {
                return e;
            }
        }
    }

    fn primary(&mut self) -> Expr {
        let span = self.span();
        match self.peek().clone() {
            Tok::Text(s) => {
                self.at += 1;
                return Expr::Literal(Literal::Str(s), span);
            }
            Tok::Number(n) => {
                self.at += 1;
                return Expr::Literal(Literal::Int(n), span);
            }
            _ => {}
        }
        if self.eat("true") {
            return Expr::Literal(Literal::Boolean(true), span);
        }
        if self.eat("return") {
            let value = if self.is(";") { None } else { Some(Box::new(self.expr())) };
            return Expr::Return(ReturnExpr { value, span });
        }
        if self.eat("break") {
            return Expr::Break(BreakExpr { value: None, span });
        }
        if self.eat("continue") {
            return Expr::Continue(span);
        }
        if self.eat("loop") {
            return Expr::Loop { body: self.block(), span };
        }
        if self.eat("if") {
            self.want("(");
            let condition = Box::new(self.expr());
            self.want(")");
            let then_branch = self.block();
            let else_branch = if self.eat("else") { Some(self.block()) } else { None };
            return Expr::If { condition, then_branch, else_branch, span };
        }
        if self.eat("match") {
            let scrutinee = Box::new(self.expr());
            self.want("{");
            let mut arms = Vec::new();
            while !self.eat("}") {
                let span = self.span();
                let pattern = self.pattern();
                self.want("=>");
                let value = self.expr();
                let body = Block { stmts: vec![], tail: Some(Box::new(value)), span: span.clone() };
                arms.push(MatchArm { pattern, guard: None, body, span });
                self.eat(",");
            }
            return Expr::Match(MatchExpr { scrutinee, arms, span });
        }
        if self.eat("[") {
            let mut items = Vec::new();
            while !self.eat("]") {
                items.push(self.expr());
                self.eat(",");
            }
            return Expr::Array(items, span);
        }
        if self.is("{") {
            return Expr::RecordLiteral { fields: self.field_values(), span };
        }
        if self.is("(") {
            let named = matches!(self.peek_at(1), Tok::Word(_)) as usize;
            if *self.peek_at(1 + named) == Tok::Sign(")".to_string())
                && *self.peek_at(2 + named) == Tok::Sign("->".to_string())
            {
                let params = self.params();
                self.want("->");
                let return_type = Some(self.ty());
                let body = self.block();
                return Expr::Closure { params, return_type, body, span };
            }
            self.at += 1;
            let mut items = Vec::new();
            let mut tuple = false;
            while !self.eat(")") {
                items.push(self.expr());
                tuple |= self.eat(",");
            }
            if items.len() == 1 && !tuple {
                return items.remove(0);
            }
            return Expr::Tuple(items, span);
        }
        let mut path = vec![self.word()];
        while self.eat("::") {
            path.push(self.word());
        }
        let capital = path[0].starts_with(|c: char| c.is_uppercase());
        if capital && self.is("{") {
            let fields = self.field_values();
            return Expr::StructLiteral { path, fields, symbol_id: None, span };
        }
        if path.len() == 1 {
            Expr::Ident(path.remove(0), span)
        } else {
            Expr::Path(path, span)
        }
    }

    fn field_values(&mut self) -> Vec<(String, Expr)> {
        let mut out = Vec::new();
        self.want("{");
        while !self.eat("}") {
            let name = self.word();
            self.want("=");
            let value = self.expr();
            out.push((name, value));
            self.eat(",");
        }
        out
    }

    fn names(&mut self) -> Vec<String> {
        let mut out = Vec::new();
        self.want("{");
        while !self.eat("}") {
            out.push(self.word());
            self.eat(",");
        }
        out
    }

    fn pattern(&mut self) -> Pattern {
        let span = self.span();
        if self.eat("(") {
            let mut items = Vec::new();
            while !self.eat(")") {
                items.push(self.pattern());
                self.eat(",");
            }
            return Pattern::Tuple(items, span);
        }
        if self.eat("[") {
            let mut elems = Vec::new();
            while !self.eat("]") {
                elems.push(self.pattern());
                self.eat(",");
            }
            return Pattern::Array { elems, rest: None, span };
        }
        if self.is("{") {
            return Pattern::Record { fields: self.names(), span };
        }
        let first = self.word();
        if first == "_" {
            return Pattern::Wildcard(span);
        }
        if self.is("::") {
            let mut path = vec![first];
            while self.eat("::") {
                path.push(self.word());
            }
            let fields = if self.is("{") { self.names() } else { vec![] };
            return Pattern::EnumVariant { path, fields, rest: false, span };
        }
        Pattern::Binding(first, span)
    }
}

fn target_of(e: Expr) -> AssignTarget {
    match e {
        Expr::Ident(name, span) => AssignTarget::Ident(name, span),
        Expr::FieldAccess { object, field, span } => {
            AssignTarget::FieldAccess { object, field, span }
        }
        other => panic!("not a target: {other:?}"),
    }
}

// --- What name resolution and inference would find of such a program ---

fn none() -> Vec<(String, InferType)> {
    Vec::new()
}

fn infer(te: &TypeExpr, generics: &Vec<(String, InferType)>) -> InferType {
    type_expr_to_infer(te, &TypeScope { generics, self_name: None, aspect: None })
}

fn field_entries(fields: &[FieldDecl]) -> Vec<FieldEntry> {
    fields
        .iter()
        .map(|f| FieldEntry {
            name: f.name.clone(),
            ty: infer(&f.type_ann, &none()),
            span: f.span.clone(),
        })
        .collect()
}

fn copy_param(p: &Param) -> Param {
    Param {
        name: p.name.clone(),
        type_ann: p.type_ann.clone(),
        receiver: p.receiver,
        span: p.span.clone(),
    }
}

fn copy_generic(g: &GenericParam) -> GenericParam {
    GenericParam {
        name: g.name.clone(),
        bounds: g.bounds.iter().map(copy_bound).collect(),
        is_record: g.is_record,
        span: g.span.clone(),
    }
}

fn copy_bound(b: &Bound) -> Bound {
    Bound { aspect: b.aspect.clone(), polarity: b.polarity, open: b.open }
}

fn registry_of(decls: &[Decl]) -> TypeDefinitionRegistry {
    let mut r = TypeDefinitionRegistry {
        structs: vec![],
        enums: vec![],
        methods: vec![MethodEntry {
            owner: "String".to_string(),
            method: "len".to_string(),
            ty: Some(InferType::Fun(
                vec![InferType::Reference(Box::new(InferType::Concrete(Type::Str)))],
                Box::new(InferType::Concrete(Type::I64)),
            )),
            receiver: Some(ReceiverKind::Ref),
        }],
        array_methods: vec![],
        aspects: vec![],
        impls: vec![],
        array_aspects: vec![],
        imports: vec![],
        type_params: vec![],
        fun_params: vec![],
        method_schemes: vec![],
        array_method_schemes: vec![],
        assoc_impls: vec![],
        homes: vec![],
        decl_schemes: vec![],
    };
    for d in decls {
        match d {
            Decl::Struct(s) => r.structs.push(StructInfo {
                name: s.name.clone(),
                type_params: None,
                fields: field_entries(&s.fields),
            }),
            Decl::Enum(e) => r.enums.push(EnumInfo {
                name: e.name.clone(),
                type_params: vec![],
                variants: e
                    .variants
                    .iter()
                    .map(|v| VariantInfo {
                        name: v.name.clone(),
                        fields: field_entries(&v.fields),
                    })
                    .collect(),
            }),
            Decl::Impl(b) => {
                if let (Some(aspect), TypeExpr::Named(owner, _)) = (&b.aspect_name, &b.target_type)
                {
                    r.impls.push(AspectImpl {
                        owner: owner.clone(),
                        aspect: aspect.clone(),
                        arg_bounds: vec![],
                    });
                }
                if let (None, TypeExpr::Named(owner, _)) = (&b.aspect_name, &b.target_type) {
                    for m in &b.methods {
                        let this = InferType::Concrete(Type::Named(owner.clone(), vec![]));
                        r.methods.push(MethodEntry {
                            owner: owner.clone(),
                            method: m.name.clone(),
                            ty: Some(InferType::Fun(
                                vec![this],
                                Box::new(InferType::Concrete(Type::I64)),
                            )),
                            receiver: m.params[0].receiver,
                        });
                    }
                }
            }
            Decl::Aspect(a) => r.aspects.push(AspectInfo {
                name: a.name.clone(),
                methods: a
                    .methods
                    .iter()
                    .map(|m| AspectMethod {
                        name: m.name.clone(),
                        generics: m.generics.iter().map(copy_generic).collect(),
                        params: m.params.iter().map(copy_param).collect(),
                        return_type: m.return_type.clone(),
                        default_body: None,
                        span: m.span.clone(),
                    })
                    .collect(),
                assoc_types: a
                    .assoc_types
                    .iter()
                    .map(|t| AssocTypeDecl {
                        name: t.name.clone(),
                        bounds: t.bounds.iter().map(copy_bound).collect(),
                        span: t.span.clone(),
                    })
                    .collect(),
                declaring_module: vec![],
            }),
            _ => {}
        }
    }
    r
}

fn plain_scheme(ty: InferType) -> TypeScheme {
    TypeScheme {
        quantified_vars: vec![],
        param_names: vec![],
        bounds: vec![],
        neg_bounds: vec![],
        record_kinds: vec![],
        assoc_projections: vec![],
        assoc_eq_constraints: vec![],
        opaque_returns: vec![],
        ty,
    }
}

fn fun_type(params: Vec<Type>, ret: Type) -> InferType {
    InferType::Fun(
        params.into_iter().map(InferType::Concrete).collect(),
        Box::new(InferType::Concrete(ret)),
    )
}

fn schemes_of(decls: &[Decl]) -> Vec<SchemeEntry> {
    let mut out = vec![
        SchemeEntry {
            name: "assert".to_string(),
            scheme: plain_scheme(fun_type(vec![Type::Boolean], Type::Unit)),
        },
        SchemeEntry {
            name: "panic".to_string(),
            scheme: plain_scheme(fun_type(vec![Type::Str], Type::Never)),
        },
    ];
    for d in decls {
        let Decl::Fun(f) = d else { continue };
        let generics: Vec<(String, InferType)> = f
            .generics
            .iter()
            .enumerate()
            .map(|(i, g)| (g.name.clone(), InferType::Var(TypeVar(i as u32))))
            .collect();
        let params = f
            .params
            .iter()
            .map(|p| infer(p.type_ann.as_ref().unwrap(), &generics))
            .collect();
        let ret = match &f.return_type {
            Some(t) => infer(t, &generics),
            None => InferType::Concrete(Type::Unit),
        };
        let mut scheme = plain_scheme(InferType::Fun(params, Box::new(ret)));
        for (i, g) in f.generics.iter().enumerate() {
            scheme.quantified_vars.push(TypeVar(i as u32));
            scheme.param_names.push(g.name.clone());
            scheme.bounds.push(bounds_of(g, Polarity::Positive));
            scheme.neg_bounds.push(bounds_of(g, Polarity::Negative));
            scheme.record_kinds.push(false);
            scheme.assoc_projections.push(None);
            scheme.assoc_eq_constraints.push(vec![]);
            scheme.opaque_returns.push(None);
        }
        out.push(SchemeEntry { name: f.name.clone(), scheme });
    }
    out
}

fn keep<T>(x: T) -> &'static T {
    Box::leak(Box::new(x))
}

fn no_additions() -> Additions {
    Additions { impls: vec![], method_schemes: vec![] }
}

fn typed_with(
    source: &str,
    registry: TypeDefinitionRegistry,
    more: Vec<SchemeEntry>,
) -> TypedModuleGraph<'static> {
    let decls: &'static Vec<Decl> = keep(read(source));
    let registry: &'static TypeDefinitionRegistry = keep(registry);
    let mut known = schemes_of(decls);
    known.extend(more);
    let schemes: &'static Vec<SchemeEntry> = keep(known);
    let facts = Facts {
        subst: keep(Substitution::new()),
        schemes,
        registry,
        symbols: None,
        overloads: keep(vec![]),
        module: keep(vec![]),
        references: None,
        closure_returns: None,
        refusals: None,
        generics: keep(vec![]),
        extra: keep(no_additions()),
    };
    let typed = construct_program(facts, decls, 0).expect("typecheck the program");
    TypedModuleGraph {
        modules: vec![TypedModule { path: vec![], decls: typed, schemes }],
        type_registry: registry,
    }
}

fn read(source: &str) -> Vec<Decl> {
    Reader { toks: tokens(source), at: 0 }.program()
}

fn typed_graph(source: &str) -> TypedModuleGraph<'static> {
    typed_with(source, registry_of(&read(source)), vec![])
}

fn move_violations_for_source(source: &str) -> Vec<MoveViolation> {
    collect_graph_violations(&mut typed_graph(source)).violations
}

fn assert_has_violation(source: &str, binding: &str) -> Vec<MoveViolation> {
    let violations = move_violations_for_source(source);
    assert!(
        violations.iter().any(|violation| violation.binding == binding),
        "expected a move violation for `{binding}`, got {violations:#?}"
    );
    violations
}

fn assert_no_violations(source: &str) {
    let violations = move_violations_for_source(source);
    assert!(violations.is_empty(), "unexpected violations: {violations:#?}");
}

fn move_warnings_for_source(source: &str) -> Vec<String> {
    check_graph(&mut typed_graph(source)).expect("move-check the program")
}

#[test]
fn unchecked_generic_body_is_reported_to_compiler_callers() {
    let warnings = move_warnings_for_source(
        r#"
aspect FirstMarker {
    fun inspect(&self);
}

aspect SecondMarker {
    fun inspect(&self);
}

aspect Container {
    type Item: FirstMarker + SecondMarker;
    fun get(self) -> Item;
}

fun inspect<T: Container>(value: T) {
    let item = value.get();
    item.inspect();
}

fun main() { }
"#,
    );
    assert!(
        warnings
            .iter()
            .any(|warning| {
                warning.contains("ambiguous aspect method `inspect`")
                    && warning.contains("FirstMarker, SecondMarker")
            }),
        "expected the reconstruction failure reason, got {warnings:#?}"
    );
}

#[test]
fn bounded_generic_mut_receiver_and_argument_are_reborrowed() {
    let warnings = move_warnings_for_source(
        r#"
aspect Blend {
    fun blend(&var self, other: &var Self);
}

fun blend_twice<T: Blend>(value: T, other: T) {
    var value = value;
    var other = other;
    value.blend(&var other);
    value.blend(&var other);
}

fun main() { }
"#,
    );
    assert!(
        warnings.is_empty(),
        "bounded generic method body was not fully checked: {warnings:#?}"
    );
}

#[test]
fn bounded_generic_method_generic_copy_bound_is_checked() {
    let warnings = move_warnings_for_source(
        r#"
aspect GenericSink {
    fun take<U: Copy>(&self, other: U);
}

fun take_copy<T: GenericSink, U: Copy>(value: T, other: U) -> U {
    value.take(other);
    other
}

fun main() { }
"#,
    );
    assert!(
        warnings.is_empty(),
        "bounded method-generic body was not fully checked: {warnings:#?}"
    );
}

#[test]
fn unmet_method_generic_bound_is_reported_unchecked() {
    let warnings = move_warnings_for_source(
        r#"
aspect GenericSink {
    fun take<U: Copy>(&self, other: U);
}

fun take_unbounded<T: GenericSink, U>(value: T, other: U) {
    value.take(other);
}

fun main() { }
"#,
    );
    assert!(
        warnings
            .iter()
            .any(|warning| warning.contains("does not implement `Copy`")),
        "expected the reconstruction failure reason, got {warnings:#?}"
    );
}

#[test]
fn assignment_move_then_use_is_reported() {
    assert_has_violation(
        r#"
fun main() {
    let a = "hello";
    let b = a;
    let c = a;
}
"#,
        "a",
    );
}

#[test]
fn argument_move_then_use_is_reported() {
    assert_has_violation(
        r#"
fun take(s: String) { }

fun main() {
    let s = "hello";
    take(s);
    let again = s;
}
"#,
        "s",
    );
}

#[test]
fn return_move_then_use_is_reported() {
    assert_has_violation(
        r#"
fun forward(s: String) -> String {
    return s;
}

fun main() {
    let s = "hello";
    let kept = forward(s);
    let again = s;
}
"#,
        "s",
    );
}

#[test]
fn copy_type_can_be_used_twice() {
    assert_no_violations(
        r#"
fun main() {
    let n = 41;
    let a = n;
    let b = n;
}
"#,
    );
    assert_no_violations(
        r#"
fun main() {
    let n = 5;
    let f = () -> i64 { return n; };
    assert(n == 5);
}
"#,
    );
}

#[test]
fn using_moved_field_again_is_reported() {
    let violations = move_violations_for_source(
        r#"
struct Pair {
    left: String,
    right: i64,
}

fun main() {
    let pair = Pair { left = "a", right = 1 };
    let moved: String = pair.left;
    let again: String = pair.left;
}
"#,
    );

    assert_eq!(violations.len(), 1);
    assert_eq!(violations[0].binding, "pair");
}

#[test]
fn sibling_field_stays_accessible_after_partial_move() {
    assert_no_violations(
        r#"
struct Pair {
    left: String,
    right: i64,
}

fun main() {
    let pair = Pair { left = "a", right = 1 };
    let moved: String = pair.left;
    let still_live: i64 = pair.right;
}
"#,
    );
}

#[test]
fn whole_value_use_after_partial_move_is_reported() {
    let violations = assert_has_violation(
        r#"
struct Pair {
    left: String,
    right: i64,
}

fun take(pair: Pair) -> i64 {
    pair.right
}

fun main() {
    let pair = Pair { left = "a", right = 1 };
    let moved: String = pair.left;
    let value: i64 = take(pair);
}
"#,
        "pair",
    );
    assert_eq!(violations.len(), 1);
}

#[test]
fn partial_move_of_drop_type_is_reported() {
    assert_has_violation(
        r#"
struct Handle {
    name: String,
    fd: i64,
}

extend Handle: Drop {
    fun drop(self) { }
}

fun main() {
    let handle = Handle { name = "x", fd = 1 };
    let name = handle.name;
}
"#,
        "handle",
    );
}

#[test]
fn partial_move_of_drop_type_in_match_binding_is_reported() {
    assert_has_violation(
        r#"
struct Handle {
    name: String,
    fd: i64,
}

extend Handle: Drop {
    fun drop(self) { }
}

fun main() {
    let handle = Handle { name = "x", fd = 1 };
    let n = match handle.name {
        name => name.len(),
    };
}
"#,
        "handle",
    );
}

#[test]
fn record_pattern_moves_at_field_granularity() {
    assert_has_violation(
        r#"
fun take(r: { n: i64, name: String }) -> i64 {
    return r.n;
}

fun main() {
    let r = { name = "x", n = 1 };
    let moved = match r {
        { name, n } => name,
    };
    let again = take(r);
}
"#,
        "r",
    );
}

#[test]
fn tuple_pattern_partial_move_of_drop_prefix_is_reported() {
    assert_has_violation(
        r#"
struct Wrapper {
    pair: (String, i64),
}

extend Wrapper: Drop {
    fun drop(self) { }
}

fun main() {
    let wrapper = Wrapper { pair = ("x", 1) };
    let n = match wrapper.pair {
        (name, _) => name.len(),
    };
}
"#,
        "wrapper",
    );
}

#[test]
fn enum_payload_pattern_partial_move_of_drop_prefix_is_reported() {
    assert_has_violation(
        r#"
enum MaybeText {
    Empty,
    Full { text: String },
}

struct Wrapper {
    payload: MaybeText,
}

extend Wrapper: Drop {
    fun drop(self) { }
}

fun main() {
    let wrapper = Wrapper {
        payload = MaybeText::Full { text = "x" },
    };
    let n = match wrapper.payload {
        MaybeText::Full { text } => text.len(),
        MaybeText::Empty => 0,
    };
}
"#,
        "wrapper",
    );
}

#[test]
fn nested_direct_partial_move_of_drop_prefix_is_reported() {
    assert_has_violation(
        r#"
struct Wrapper {
    pair: (String, i64),
}

extend Wrapper: Drop {
    fun drop(self) { }
}

fun main() {
    let wrapper = Wrapper { pair = ("x", 1) };
    let name = wrapper.pair.0;
}
"#,
        "wrapper",
    );
}

#[test]
fn tuple_element_partial_move_then_reuse_is_reported() {
    assert_has_violation(
        r#"
fun main() {
    let pair = ("x", 1);
    let left = pair.0;
    let again = pair.0;
}
"#,
        "pair",
    );
}

#[test]
fn enum_payload_move_consumes_whole_value() {
    assert_has_violation(
        r#"
enum MaybeText {
    Empty,
    Full { text: String },
}

fun main() {
    let value = MaybeText::Full { text = "x" };
    let n = match value {
        MaybeText::Full { text } => text.len(),
        MaybeText::Empty => 0,
    };
    let again = value;
}
"#,
        "value",
    );
}

#[test]
fn array_element_move_is_reported() {
    assert_has_violation(
        r#"
fun main() {
    let xs = ["x"];
    let first = xs[0];
}
"#,
        "xs",
    );
}

#[test]
fn array_element_move_in_match_binding_is_reported() {
    assert_has_violation(
        r#"
fun main() {
    let xs = ["x"];
    let n = match xs[0] {
        s => s.len(),
    };
}
"#,
        "xs",
    );
}

#[test]
fn array_pattern_binding_array_element_is_reported() {
    assert_has_violation(
        r#"
fun main() {
    let xs: [String; 1] = ["x"];
    let n = match xs {
        [s] => s.len(),
    };
}
"#,
        "xs",
    );
}

#[test]
fn closure_capture_then_use_is_reported() {
    let violations = assert_has_violation(
        r#"
fun main() {
    let s = "hello";
    let f = () -> String { s };
    let again = s;
}
"#,
        "s",
    );
    assert_eq!(violations[0].moved_type, "String");
}

#[test]
fn move_in_one_if_arm_persists_after_join() {
    assert_has_violation(
        r#"
fun main() {
    let s = "hello";
    if (true) {
        let moved = s;
    } else {
        let keep = 0;
    }
    let again = s;
}
"#,
        "s",
    );
}

#[test]
fn move_in_loop_body_persists_after_loop() {
    assert_has_violation(
        r#"
fun main() {
    let s = "hello";
    loop {
        let moved = s;
        break;
    }
    let again = s;
}
"#,
        "s",
    );
}

#[test]
fn mut_ref_argument_reborrows_cleanly() {
    assert_no_violations(
        r#"
struct Counter { value: i64 }

fun bump(r: &var Counter) { }

fun main() {
    var c = Counter { value = 0 };
    let r = &var c;
    bump(r);
    bump(r);
}
"#,
    );
}

#[test]
fn plain_binding_of_mut_ref_then_use_is_reported() {
    assert_has_violation(
        r#"
struct Counter { value: i64 }

fun bump(r: &var Counter) { }

fun main() {
    var c = Counter { value = 0 };
    let r = &var c;
    let q = r;
    bump(r);
}
"#,
        "r",
    );
}

#[test]
fn move_site_is_not_reported_as_its_own_use() {
    let violations = move_violations_for_source(
        r#"
struct Pair {
    left: String,
    right: i64,
}

fun main() {
    let pair = Pair { left = "a", right = 1 };
    let moved = pair.left;
}
"#,
    );
    assert!(
        violations.is_empty(),
        "the move site must not accuse itself: {violations:#?}"
    );
}

#[test]
fn moving_projection_does_not_report_base_as_only_use() {
    let violations = move_violations_for_source(
        r#"
struct Pair {
    left: String,
    right: i64,
}

fun main() {
    let pair = Pair { left = "a", right = 1 };
    let moved = pair.left;
    let sibling = pair.right;
}
"#,
    );
    assert!(
        violations.is_empty(),
        "moving `pair.left` must not report `pair` as used-after-move: {violations:#?}"
    );
}

#[test]
fn tuple_literal_consumes_its_elements() {
    assert_has_violation(
        r#"
struct Owned {
    s: String,
}

fun main() {
    let a = Owned { s = "x" };
    let t = (a, 1);
    let n = a.s.len();
}
"#,
        "a",
    );
}

#[test]
fn tuple_literal_cannot_partially_move_a_drop_type() {
    assert_has_violation(
        r#"
struct Handle {
    name: String,
    fd: i64,
}

extend Handle: Drop {
    fun drop(self) { }
}

fun main() {
    let h = Handle { name = "x", fd = 1 };
    let t = (h.name, 1);
}
"#,
        "h",
    );
}

#[test]
fn array_literal_cannot_move_an_array_element() {
    assert_has_violation(
        r#"
fun main() {
    let xs = ["a"];
    let ys = [xs[0]];
}
"#,
        "xs",
    );
}

#[test]
fn borrowed_array_for_in_cannot_move_a_noncopy_element() {
    assert_has_violation(
        r#"
fun first<T>(items: T[]) -> T {
    for (item in items) {
        return item;
    }
    panic("empty")
}

fun main() { }
"#,
        "item",
    );
}

#[test]
fn borrowed_array_for_in_allows_copy_elements() {
    assert_no_violations(
        r#"
fun first<T: Copy>(items: T[]) -> T {
    for (item in items) {
        return item;
    }
    panic("empty")
}

fun main() {
    let values: i64[] = [1, 2, 3];
    assert(first(values) == 1);
}
"#,
    );
}

#[test]
fn function_values_are_copy() {
    assert_no_violations(
        r#"
fun increment(value: i64) -> i64 { value + 1 }

fun apply(f: (i64) -> i64) -> i64 { f(1) }

fun main() {
    let f = increment;
    assert(apply(f) == 2);
    assert(apply(f) == 2);
}
"#,
    );
}

fn var() -> InferType {
    InferType::Var(TypeVar(0))
}

fn concrete() -> InferType {
    InferType::Concrete(Type::I64)
}

#[test]
fn tuple_with_an_unresolved_element_converts_to_none_not_a_shorter_tuple() {
    let ty = InferType::Tuple(vec![var(), concrete()]);
    assert_eq!(infer_to_type(&ty), None);
}

#[test]
fn record_with_an_unresolved_field_converts_to_none_not_a_smaller_record() {
    let ty = InferType::Record(vec![
        ("a".to_string(), var()),
        ("b".to_string(), concrete()),
    ]);
    assert_eq!(infer_to_type(&ty), None);
}

#[test]
fn fun_with_an_unresolved_param_converts_to_none_not_a_shorter_signature() {
    let ty = InferType::Fun(vec![var(), concrete()], Box::new(concrete()));
    assert_eq!(infer_to_type(&ty), None);
}

#[test]
fn named_with_an_unresolved_argument_converts_to_none_not_fewer_arguments() {
    let ty = InferType::Named("Holder".to_string(), vec![var(), concrete()]);
    assert_eq!(infer_to_type(&ty), None);
}

#[test]
fn fully_resolved_compounds_still_convert_and_keep_their_arity() {
    let tuple = InferType::Tuple(vec![concrete(), concrete(), concrete()]);
    assert_eq!(
        infer_to_type(&tuple),
        Some(Type::Tuple(vec![Type::I64, Type::I64, Type::I64]))
    );

    let fun = InferType::Fun(vec![concrete(), concrete()], Box::new(concrete()));
    assert_eq!(
        infer_to_type(&fun),
        Some(Type::Fun(vec![Type::I64, Type::I64], Box::new(Type::I64)))
    );
}

#[test]
fn method_arg_types_are_none_when_a_parameter_is_unresolved() {
    let fun_ty = InferType::Fun(
        vec![concrete(), concrete(), var(), concrete()],
        Box::new(concrete()),
    );
    assert_eq!(infer_method_arg_types(&fun_ty), None);
}

#[test]
fn method_arg_types_skip_the_receiver_and_keep_the_rest_in_order() {
    let fun_ty = InferType::Fun(
        vec![
            InferType::Concrete(Type::Boolean),
            InferType::Concrete(Type::I64),
            InferType::Concrete(Type::MutReference(Box::new(Type::I64))),
        ],
        Box::new(concrete()),
    );
    assert_eq!(
        infer_method_arg_types(&fun_ty),
        Some(vec![Type::I64, Type::MutReference(Box::new(Type::I64))])
    );
}

#[test]
fn a_loop_carried_move_is_reported_once_not_once_per_pass() {
    let violations = assert_has_violation(
        r#"
fun main() {
    let s = "hello";
    var i = 0;
    loop {
        i += 1;
        let moved = s;
        if (i == 2) { break; }
    }
}
"#,
        "s",
    );
    assert_eq!(
        violations.len(),
        1,
        "the body is walked once per widening pass; only the last may report"
    );
    assert!(violations[0].moved_in_previous_iteration);
}

#[test]
fn nested_loops_report_a_carried_move_once_each_not_once_per_outer_pass() {
    let violations = assert_has_violation(
        r#"
fun main() {
    let s = "hello";
    var i = 0;
    while (i < 3) {
        i += 1;
        var j = 0;
        while (j < 2) {
            j += 1;
            let moved = s;
        }
    }
}
"#,
        "s",
    );
    assert_eq!(violations.len(), 1, "got {violations:#?}");
}

#[test]
fn a_move_reached_only_by_breaking_out_does_not_reach_the_next_iteration() {
    assert_no_violations(
        r#"
fun main() {
    let s = "hello";
    var i = 0;
    loop {
        i += 1;
        if (i == 2) {
            let moved = s;
            break;
        }
    }
}
"#,
    );
}

#[test]
fn a_move_reached_only_by_returning_does_not_reach_the_next_iteration() {
    assert_no_violations(
        r#"
fun main() {
    let s = "hello";
    var i = 0;
    loop {
        i += 1;
        if (i == 2) {
            let moved = s;
            return;
        }
    }
}
"#,
    );
}

#[test]
fn a_move_before_continue_reaches_the_next_iteration() {
    let violations = assert_has_violation(
        r#"
fun main() {
    let s = "hello";
    var i = 0;
    loop {
        i += 1;
        let moved = s;
        if (i < 3) { continue; }
        break;
    }
}
"#,
        "s",
    );
    assert!(violations[0].moved_in_previous_iteration);
}

#[test]
fn a_move_that_breaks_out_is_still_visible_after_the_loop() {
    assert_has_violation(
        r#"
fun main() {
    let s = "hello";
    var i = 0;
    loop {
        i += 1;
        if (i == 2) {
            let moved = s;
            break;
        }
    }
    let again = s;
}
"#,
        "s",
    );
}

#[test]
fn a_binding_declared_inside_the_body_is_fresh_each_iteration() {
    assert_no_violations(
        r#"
fun main() {
    var i = 0;
    while (i < 3) {
        i += 1;
        let local = "fresh";
        let moved = local;
    }
}
"#,
    );
}

#[test]
fn a_move_on_a_returning_branch_does_not_reach_the_code_after_the_if() {
    assert_no_violations(
        r#"
fun main() {
    let s = "hello";
    if (true) {
        let moved = s;
        return;
    }
    let again = s;
}
"#,
    );
}

#[test]
fn a_move_on_a_branch_that_falls_through_still_reaches_the_code_after_the_if() {
    assert_has_violation(
        r#"
fun main() {
    let s = "hello";
    if (true) {
        let moved = s;
    }
    let again = s;
}
"#,
        "s",
    );
}

#[test]
fn reassigning_a_moved_binding_makes_it_valid_again() {
    assert_no_violations(
        r#"
fun main() {
    var s = "hello";
    let moved = s;
    s = "again";
    let ok = s;
}
"#,
    );
}

#[test]
fn reassigning_a_moved_binding_inside_a_loop_is_not_loop_carried() {
    assert_no_violations(
        r#"
fun main() {
    var s = "hello";
    var i = 0;
    loop {
        i += 1;
        let moved = s;
        s = "again";
        if (i == 3) { break; }
    }
}
"#,
    );
}

#[test]
fn reassigning_a_moved_field_makes_the_whole_value_usable_again() {
    assert_no_violations(
        r#"
struct Pair { left: String, right: String }

fun main() {
    var p = Pair { left = "a", right = "b" };
    let taken = p.left;
    p.left = "c";
    let whole = p;
}
"#,
    );
}

#[test]
fn assigning_a_field_does_not_revive_a_wholly_moved_value() {
    assert_has_violation(
        r#"
struct Pair { left: String, right: String }

fun main() {
    var p = Pair { left = "a", right = "b" };
    let whole = p;
    p.left = "c";
}
"#,
        "p",
    );
}

#[test]
fn assigning_one_field_leaves_a_sibling_field_moved() {
    assert_has_violation(
        r#"
struct Pair { left: String, right: String }

fun main() {
    var p = Pair { left = "a", right = "b" };
    let taken = p.right;
    p.left = "c";
    let whole = p;
}
"#,
        "p",
    );
}

#[test]
fn a_loop_with_no_reachable_break_diverges() {
    assert_no_violations(
        r#"
fun main() {
    let s = "hello";
    var i = 0;
    while (i < 3) {
        i += 1;
        let moved = s;
        loop { return; }
    }
}
"#,
    );
}

#[test]
fn an_inner_loop_that_can_break_leaves_the_outer_back_edge_live() {
    assert_has_violation(
        r#"
fun main() {
    let s = "hello";
    var i = 0;
    while (i < 3) {
        i += 1;
        let moved = s;
        loop { break; }
    }
}
"#,
        "s",
    );
}

#[test]
fn a_repeated_move_through_a_dereference_is_a_violation() {
    let violations = assert_has_violation(
        r#"
fun eat(s: String) -> i64 { 1 }

fun main() {
    let s = "hello";
    let p = &s;
    let first = eat(*p);
    let second = eat(*p);
}
"#,
        "p",
    );
    assert_eq!(violations[0].moved_place.describe(), "(*p)");
}

fn type_error(source: &str) -> MetelError {
    let mut reader = Reader { toks: tokens(source), at: 0 };
    let decls: &'static Vec<Decl> = keep(reader.program());
    let facts = Facts {
        subst: keep(Substitution::new()),
        schemes: keep(schemes_of(decls)),
        registry: keep(registry_of(decls)),
        symbols: None,
        overloads: keep(vec![]),
        module: keep(vec![]),
        references: None,
        closure_returns: None,
        refusals: None,
        generics: keep(vec![]),
        extra: keep(no_additions()),
    };
    construct_program(facts, decls, 0).expect_err("the program is wrong")
}

fn code_of(e: &MetelError) -> Option<TypeErrorCode> {
    match e {
        MetelError::TypeError { code, .. } => Some(*code),
        _ => None,
    }
}

#[test]
fn a_match_that_leaves_a_variant_out_is_refused() {
    let e = type_error(
        r#"
enum Light { Red, Green }

fun main() {
    let light = Light::Red;
    let n = match light {
        Light::Red => 1,
    };
}
"#,
    );
    assert_eq!(code_of(&e), Some(TypeErrorCode::T0008));
    assert_eq!(e.describe(), "non-exhaustive match: not all cases are covered");
}

#[test]
fn a_call_with_too_few_arguments_is_refused() {
    let e = type_error(
        r#"
fun add(a: i64, b: i64) -> i64 { a + b }

fun main() {
    let n = add(1);
}
"#,
    );
    assert_eq!(code_of(&e), Some(TypeErrorCode::T0004));
    assert_eq!(e.describe(), "expected 2 argument(s), got 1");
}

#[test]
fn a_call_of_what_is_no_function_is_refused() {
    let e = type_error(
        r#"
fun main() {
    let n = 1;
    let m = n(2);
}
"#,
    );
    assert_eq!(code_of(&e), Some(TypeErrorCode::T0001));
    assert_eq!(e.describe(), "called a non-function value");
}

#[test]
fn an_unknown_name_is_refused() {
    let e = type_error(
        r#"
fun main() {
    let n = missing;
}
"#,
    );
    assert_eq!(code_of(&e), Some(TypeErrorCode::T0003));
}

#[test]
fn a_value_that_is_no_copy_does_not_leave_its_reference() {
    let e = type_error(
        r#"
fun main() {
    let s = "hello";
    let r = &s;
    let t: String = r;
}
"#,
    );
    assert_eq!(code_of(&e), Some(TypeErrorCode::T0024));
}

#[test]
fn a_function_that_never_returns_has_to_diverge() {
    let body = Block { stmts: vec![], tail: None, span: tokens("")[0].1.clone() };
    let f = FunDecl {
        name: "stuck".to_string(),
        generics: vec![],
        params: vec![],
        return_type: None,
        body,
        native: None,
        span: tokens("")[0].1.clone(),
    };
    let schemes = vec![SchemeEntry {
        name: "stuck".to_string(),
        scheme: plain_scheme(fun_type(vec![], Type::Never)),
    }];
    let decls: &'static Vec<Decl> = keep(vec![Decl::Fun(f)]);
    let facts = Facts {
        subst: keep(Substitution::new()),
        schemes: keep(schemes),
        registry: keep(registry_of(decls)),
        symbols: None,
        overloads: keep(vec![]),
        module: keep(vec![]),
        references: None,
        closure_returns: None,
        refusals: None,
        generics: keep(vec![]),
        extra: keep(no_additions()),
    };
    let e = construct_program(facts, decls, 0).unwrap_err();
    assert_eq!(code_of(&e), Some(TypeErrorCode::T0016));
}

#[test]
fn a_violation_is_a_type_error_at_its_use() {
    let mut graph = typed_graph(
        r#"
fun main() {
    let a = "hello";
    let b = a;
    let c = a;
}
"#,
    );
    match check_graph(&mut graph) {
        Err(MetelError::TypeError { code, message, span }) => {
            assert_eq!(code, TypeErrorCode::T0019);
            assert_eq!((span.line, span.col), (5, 13));
            assert!(message.contains("moved at main.mtl:4:13"), "got {message}");
        }
        other => panic!("got {other:?}"),
    }
}

#[test]
fn an_associated_type_has_the_methods_of_its_bounds() {
    let warnings = move_warnings_for_source(
        r#"
aspect Marker {
    fun inspect(&self);
}

aspect Container {
    type Item: Marker;
    fun get(self) -> Item;
}

fun look<T: Container>(value: T) {
    let item = value.get();
    item.inspect();
}

fun main() { }
"#,
    );
    assert!(warnings.is_empty(), "got {warnings:#?}");
}

#[test]
fn a_generic_value_moves_unless_it_can_be_copied() {
    assert_has_violation(
        r#"
fun twice<T>(value: T) {
    let a = value;
    let b = value;
}

fun main() { }
"#,
        "value",
    );
    assert_no_violations(
        r#"
fun twice<T: Copy>(value: T) {
    let a = value;
    let b = value;
}

fun main() { }
"#,
    );
}

fn nowhere() -> Span {
    tokens("")[0].1.clone()
}

fn generic_param(name: &str, bound: Option<&str>) -> GenericParam {
    GenericParam {
        name: name.to_string(),
        bounds: bound
            .iter()
            .map(|b| Bound {
                aspect: TypeExpr::Named(b.to_string(), vec![]),
                polarity: Polarity::Positive,
                open: false,
            })
            .collect(),
        is_record: false,
        span: tokens("")[0].1.clone(),
    }
}

#[test]
fn a_generic_method_is_prepared_from_its_declaration() {
    let impl_generics = vec![generic_param("T", None)];
    let generics = vec![generic_param("U", Some("Copy"))];
    let target_type = TypeExpr::Named("Holder".to_string(), vec![TypeExpr::Named("T".to_string(), vec![])]);
    let site = ImplSite { generics: &impl_generics, target_type: &target_type, aspect_name: &None };
    let mut reader = Reader { toks: tokens("(self, other: U)"), at: 0 };
    let params = reader.params();
    let registry = registry_of(&[]);
    let case = prepare_method(&registry, &site, &nowhere(), &generics, &params, &None).unwrap();
    assert_eq!(case.scheme.param_names, vec!["T", "U"]);
    assert_eq!(case.env.placeholders.len(), 2);
    let t = Type::Named(case.env.placeholders[0].name.clone(), vec![]);
    let u = Type::Named(case.env.placeholders[1].name.clone(), vec![]);
    assert_eq!(case.env.arg_types, vec![Type::Named("Holder".to_string(), vec![t]), u]);
    assert_eq!(case.env.assumptions.len(), 1);
    assert_eq!(case.env.assumptions[0].aspects, vec!["Copy"]);
}

#[test]
fn a_generic_body_without_types_is_not_prepared() {
    let registry = registry_of(&[]);
    let none = vec![];
    assert_eq!(
        prepare_function(&vec![], "f", &none, &registry).err(),
        Some("function type scheme was unavailable".to_string())
    );
    let open = vec![SchemeEntry {
        name: "f".to_string(),
        scheme: plain_scheme(InferType::Fun(vec![var()], Box::new(concrete()))),
    }];
    assert_eq!(
        prepare_function(&open, "f", &none, &registry).err(),
        Some("function type scheme could not be converted to symbolic arguments".to_string())
    );
    let target_type = TypeExpr::Named("Holder".to_string(), vec![]);
    let site = ImplSite { generics: &none, target_type: &target_type, aspect_name: &None };
    let params = Reader { toks: tokens("(other)"), at: 0 }.params();
    assert_eq!(
        prepare_method(&registry, &site, &nowhere(), &none, &params, &None).err(),
        Some("method type scheme was unavailable".to_string())
    );
    let mut registry = registry_of(&[]);
    registry.decl_schemes.push(DeclScheme {
        span: nowhere(),
        scheme: plain_scheme(InferType::Fun(vec![var()], Box::new(concrete()))),
    });
    assert_eq!(
        prepare_method(&registry, &site, &nowhere(), &none, &params, &None).err(),
        Some("method type scheme could not be converted to symbolic arguments".to_string())
    );
}

#[test]
fn a_type_parameter_of_a_method_hides_that_of_its_impl() {
    let impl_generics = vec![generic_param("T", Some("Show"))];
    let generics = vec![generic_param("T", Some("Copy"))];
    let target_type = TypeExpr::Named("Holder".to_string(), vec![]);
    let site = ImplSite { generics: &impl_generics, target_type: &target_type, aspect_name: &None };
    let mut reader = Reader { toks: tokens("(self, other: T)"), at: 0 };
    let params = reader.params();
    let registry = registry_of(&[]);
    let case = prepare_method(&registry, &site, &nowhere(), &generics, &params, &None).unwrap();
    assert_eq!(case.env.assumptions.len(), 1);
    assert_eq!(case.env.assumptions[0].aspects, vec!["Copy"]);
    let name = case.env.symbolic_aspects[0].name.clone();
    assert_eq!(case.env.arg_types[1], Type::Named(name, vec![]));
}

#[test]
fn a_write_on_every_branch_revives_a_binding() {
    assert_no_violations(
        r#"
fun main() {
    var s = "hello";
    let moved = s;
    if (true) { s = "a"; } else { s = "b"; }
    let ok = s;
}
"#,
    );
    assert_no_violations(
        r#"
fun main() {
    var s = "hello";
    let moved = s;
    if (true) { s = "a"; } else { return; }
    let ok = s;
}
"#,
    );
}

#[test]
fn a_write_on_one_branch_revives_nothing() {
    assert_has_violation(
        r#"
fun main() {
    var s = "hello";
    let moved = s;
    if (true) { s = "a"; } else { let t = 1; }
    let again = s;
}
"#,
        "s",
    );
    assert_has_violation(
        r#"
fun main() {
    var s = "hello";
    let moved = s;
    if (true) { s = "a"; }
    let again = s;
}
"#,
        "s",
    );
}

#[test]
fn a_binding_of_the_same_name_revives_nothing() {
    assert_has_violation(
        r#"
fun main() {
    let s = "hello";
    let moved = s;
    if (true) { let s = "a"; } else { let s = "b"; }
    let again = s;
}
"#,
        "s",
    );
}

#[test]
fn the_first_move_out_of_a_reference_is_rejected() {
    let source = r#"
fun eat(s: String) -> i64 { 1 }

fun main() {
    let s = "hello";
    let p = &s;
    let first = eat(*p);
}
"#;
    let violations = assert_has_violation(source, "p");
    assert_eq!(violations.len(), 1);
    match check_graph(&mut typed_graph(source)) {
        Err(MetelError::TypeError { code, message, .. }) => {
            assert_eq!(code, TypeErrorCode::T0019);
            assert_eq!(message, "cannot move out of `(*p)`: it is behind a reference");
        }
        other => panic!("got {other:?}"),
    }
}

#[test]
fn a_receiver_is_not_taken_from_behind_a_reference() {
    let source = r#"
struct Owned { s: String }

extend Owned {
    fun eat(self) -> i64 { 1 }
}

fun main() {
    let o = Owned { s = "x" };
    let p = &o;
    let n = p.eat();
}
"#;
    let violations = assert_has_violation(source, "p");
    assert_eq!(violations[0].use_place.describe(), "(*p)");
    assert_no_violations(
        r#"
struct Owned { s: String }

extend Owned {
    fun eat(self) -> i64 { 1 }
    fun peek(&self) -> i64 { 1 }
}

fun main() {
    let o = Owned { s = "x" };
    let p = &o;
    let a = p.peek();
    let b = p.peek();
    let n = o.eat();
}
"#,
    );
}

#[test]
fn a_field_is_not_moved_from_behind_a_reference() {
    let violations = assert_has_violation(
        r#"
struct Pair { left: String, right: i64 }

fun main() {
    let o = Pair { left = "x", right = 1 };
    let p = &o;
    let n = p.right;
    let s = p.left;
}
"#,
        "p",
    );
    assert_eq!(violations.len(), 1);
    assert_eq!(violations[0].use_place.describe(), "p.left");
}

#[test]
fn a_write_before_every_break_revives_a_binding() {
    assert_no_violations(
        r#"
fun main() {
    var s = "hello";
    let moved = s;
    loop { s = "a"; break; }
    let ok = s;
}
"#,
    );
    assert_has_violation(
        r#"
fun main() {
    var s = "hello";
    let moved = s;
    loop { if (true) { s = "a"; break; } if (true) { break; } }
    let again = s;
}
"#,
        "s",
    );
    assert_has_violation(
        r#"
fun main() {
    let s = "hello";
    let moved = s;
    loop { let s = "a"; break; }
    let again = s;
}
"#,
        "s",
    );
    assert_has_violation(
        r#"
fun main() {
    let s = "hello";
    loop { let moved = s; break; }
    let again = s;
}
"#,
        "s",
    );
}

#[test]
fn the_reports_on_modules_add_up() {
    let source = r#"
fun main() {
    let s = "hello";
    let moved = s;
    let again = s;
}
"#;
    let one = collect_graph_violations(&mut typed_graph(source));
    let mut graph = typed_graph(source);
    graph.modules.extend(typed_graph(source).modules);
    let both = collect_graph_violations(&mut graph);
    assert_eq!(one.violations.len(), 1);
    assert_eq!(both.violations, vec![one.violations[0].copy(), one.violations[0].copy()]);
    assert_eq!(both.skipped_generic_bodies_user, both.unchecked_generic_bodies.len());
}

#[test]
fn an_impl_that_cannot_be_registered_is_refused() {
    let source = "struct Owned { s: String } extend Owned { fun peek(&self) -> i64 { 1 } }";
    let mut reader = Reader { toks: tokens(source), at: 0 };
    let decls: &'static Vec<Decl> = keep(reader.program());
    let Decl::Impl(ib) = &decls[1] else { panic!("an impl") };
    let error = MetelError::type_error(
        TypeErrorCode::T0001,
        "this target cannot be extended".to_string(),
        &ib.span,
    );
    let facts = |refusals| Facts {
        subst: keep(Substitution::new()),
        schemes: keep(schemes_of(decls)),
        registry: keep(registry_of(decls)),
        symbols: None,
        overloads: keep(vec![]),
        module: keep(vec![]),
        references: None,
        closure_returns: None,
        refusals,
        generics: keep(vec![]),
        extra: keep(no_additions()),
    };
    let refusals = keep(vec![Refusal { span: ib.span.copy(), error: error.copy() }]);
    assert_eq!(construct_program(facts(Some(refusals)), decls, 0).err(), Some(error));
    assert!(construct_program(facts(None), decls, 0).is_ok());
}

#[test]
fn a_field_of_a_variant_is_not_moved_from_behind_a_reference() {
    let violations = assert_has_violation(
        r#"
enum Light { Named { s: String }, Off }

fun main() {
    let light = Light::Named { s = "x" };
    let p = &light;
    let n = match p {
        Light::Named { s } => s.len(),
        Light::Off => 0,
    };
}
"#,
        "p",
    );
    assert_eq!(violations.len(), 1);
    assert_eq!(violations[0].use_place.describe(), "(*p)");
    assert_no_violations(
        r#"
enum Size { Big { n: i64 }, Small }

fun main() {
    let size = Size::Big { n = 1 };
    let p = &size;
    let a = match p {
        Size::Big { n } => n,
        Size::Small => 0,
    };
    let b = match p {
        Size::Big { n } => n,
        Size::Small => 0,
    };
}
"#,
    );
}

#[test]
fn a_binding_without_a_type_is_revived_too() {
    let place = || Place::new("s".to_string());
    let at = |line: u32| Span { start: 0, end: 0, filename: "main.mtl".to_string(), line, col: 1 };
    let mut before = FlowState::new();
    before.push_scope();
    before.bind("s");
    before.record_move(place(), at(2), MoveCause::Other, "String".to_string());
    let mut written = before.copy();
    written.reinitialize(&place());
    let mut joined = FlowState::new();
    joined.join_path(&before, &written);
    assert!(joined.moved_record_for_whole_use(&place()).is_none());
    // Behind another binding of the same name, what had moved still has.
    let mut hidden = before.copy();
    hidden.push_scope();
    hidden.bind("s");
    hidden.pop_scope();
    let mut joined = FlowState::new();
    joined.join_path(&before, &hidden);
    assert_eq!(joined.moved_record_for_whole_use(&place()).map(|r| r.moved_span.line), Some(2));
}

fn generic_scheme(name: &str) -> SchemeEntry {
    let mut scheme = plain_scheme(InferType::Fun(
        vec![InferType::Var(TypeVar(0))],
        Box::new(InferType::Concrete(Type::Unit)),
    ));
    scheme.quantified_vars.push(TypeVar(0));
    scheme.param_names.push("T".to_string());
    scheme.bounds.push(vec![]);
    scheme.neg_bounds.push(vec![]);
    scheme.record_kinds.push(false);
    scheme.assoc_projections.push(None);
    scheme.assoc_eq_constraints.push(vec![]);
    scheme.opaque_returns.push(None);
    SchemeEntry { name: name.to_string(), scheme }
}

fn bindings(mut graph: TypedModuleGraph) -> Vec<String> {
    let report = collect_graph_violations(&mut graph);
    assert_eq!(report.unchecked_generic_bodies, vec![]);
    report.violations.iter().map(|v| v.binding.clone()).collect()
}

#[test]
fn a_generic_method_is_checked() {
    let source = |bound: &str| {
        format!(
            r#"
struct Owned {{ s: String }}

extend Owned {{
    fun hold<T{bound}>(&self, value: T) {{
        let a = value;
        let b = value;
    }}
}}

fun main() {{ }}
"#
        )
    };
    assert_eq!(bindings(typed_graph(&source(""))), vec!["value"]);
    assert_eq!(bindings(typed_graph(&source(": Copy"))), Vec::<String>::new());
}

#[test]
fn a_method_of_a_generic_impl_is_checked() {
    let source = |bound: &str| {
        format!(
            r#"
struct Owned {{ s: String }}

extend<T{bound}> Owned {{
    fun hold(&self, value: T) {{
        let a = value;
        let b = value;
    }}
}}

fun main() {{ }}
"#
        )
    };
    assert_eq!(bindings(typed_graph(&source(""))), vec!["value"]);
    assert_eq!(bindings(typed_graph(&source(": Copy"))), Vec::<String>::new());
}

#[test]
fn the_scheme_that_is_known_of_a_method_comes_first() {
    let source = r#"
struct Owned { s: String }

extend Owned {
    fun hold<T>(value: T) {
        let a = value;
        let b = value;
    }
}

fun main() { }
"#;
    let decls = read(source);
    let Decl::Impl(ib) = &decls[1] else { panic!("an impl") };
    let mut registry = registry_of(&decls);
    registry.decl_schemes.push(DeclScheme {
        span: ib.methods[0].span.copy(),
        scheme: plain_scheme(fun_type(vec![Type::I64], Type::Unit)),
    });
    assert_eq!(bindings(typed_with(source, registry, vec![])), Vec::<String>::new());
    assert_eq!(bindings(typed_graph(source)), vec!["value"]);
}

#[test]
fn a_generic_closure_is_checked() {
    let source = r#"
fun main() {
    let twice = (value) -> () {
        let a = value;
        let b = value;
    };
}
"#;
    let registry = || registry_of(&read(source));
    let graph = typed_with(source, registry(), vec![generic_scheme("twice")]);
    assert_eq!(bindings(graph), vec!["value"]);
}

#[test]
fn a_generic_function_inside_another_is_checked() {
    let source = r#"
fun outer<T>(first: T) {
    fun inner<U>(second: U) {
        let a = second;
        let b = second;
    }
    let c = first;
    let d = first;
}

fun main() { }
"#;
    let graph = typed_with(source, registry_of(&read(source)), vec![generic_scheme("inner")]);
    assert_eq!(bindings(graph), vec!["second", "first"]);
}

fn reasons(graph: &mut TypedModuleGraph) -> Vec<String> {
    let report = collect_graph_violations(graph);
    report.unchecked_generic_bodies.iter().map(|u| u.reason.clone()).collect()
}

#[test]
fn a_generic_function_without_a_scheme_is_passed_over() {
    let mut graph = typed_graph("fun outer<T>(first: T) { let a = first; let b = first; }");
    graph.modules[0].schemes = keep(vec![]);
    assert_eq!(reasons(&mut graph), vec!["function type scheme was unavailable"]);
    let mut graph = typed_graph("fun outer<T>(first: T) { let a = first; let b = first; }");
    let open = plain_scheme(InferType::Fun(vec![var()], Box::new(concrete())));
    graph.modules[0].schemes =
        keep(vec![SchemeEntry { name: "outer".to_string(), scheme: open }]);
    assert_eq!(
        reasons(&mut graph),
        vec!["function type scheme could not be converted to symbolic arguments"]
    );
}

#[test]
fn a_generic_method_without_a_scheme_is_passed_over() {
    let mut graph =
        typed_graph("struct Owned { s: String } extend Owned { fun hold<T>(value) { } }");
    assert_eq!(reasons(&mut graph), vec!["method type scheme was unavailable"]);
}

#[test]
fn a_generic_body_that_elaboration_refuses_is_passed_over() {
    let source = "fun outer<T>(first: T) { fun inner<U>(second: U) { let a = second; } }";
    let mut graph = typed_graph(source);
    assert_eq!(reasons(&mut graph), vec!["missing type for fn `inner`"]);
}

#[test]
fn a_second_run_reports_the_same() {
    let source = "fun twice<T>(value: T) { let a = value; let b = value; }";
    let mut graph = typed_graph(source);
    let first = collect_graph_violations(&mut graph);
    let second = collect_graph_violations(&mut graph);
    assert_eq!(first.violations.len(), 1);
    assert_eq!(first.violations, second.violations);
}

#[test]
fn a_generic_body_that_contains_itself_is_passed_over() {
    let source = r#"
struct Item { n: i64 }

aspect Grow {
    fun grow(&self) {
        fun again<T>(value: T) {
            extend Item : Grow { }
            let a = value;
            let b = value;
        }
    }
}

extend Item : Grow { }

fun main() { }
"#;
    let mut registry = registry_of(&read(source));
    for d in read(source) {
        if let Decl::Aspect(a) = d {
            registry.aspects[0].methods = a.methods;
        }
    }
    let mut graph = typed_with(source, registry, vec![generic_scheme("again")]);
    assert_eq!(reasons(&mut graph), vec!["generic body contains itself"]);
    let report = collect_graph_violations(&mut graph);
    assert_eq!(report.violations.len(), 1);
    assert_eq!(report.violations[0].binding, "value");
}

#[test]
fn a_type_parameter_meets_the_bounds_it_is_declared_with() {
    let source = |bound: &str| {
        format!(
            r#"
aspect Marked {{
    fun mark(&self);
}}

fun inner<U: Marked>(value: U) {{ }}

fun outer<T{bound}>(value: T) {{
    inner(value);
}}

fun main() {{ }}
"#
        )
    };
    assert_eq!(reasons(&mut typed_graph(&source(": Marked"))), Vec::<String>::new());
    let unmet = reasons(&mut typed_graph(&source("")));
    assert_eq!(unmet.len(), 1);
    assert!(unmet[0].contains("Marked"), "got {unmet:?}");
}

#[test]
fn a_program_without_generic_bodies_stays_as_it_is() {
    let source = r#"
fun main() {
    let a = "hello";
    for (i in [1, 2]) { let b = i; }
    let c = a;
}
"#;
    let mut graph = typed_graph(source);
    let report = collect_graph_violations(&mut graph);
    assert_eq!(report.violations, vec![]);
    assert_eq!(graph.modules[0].decls, typed_graph(source).modules[0].decls);
    let generic = "fun twice<T>(value: T) { let a = value; let b = value; }";
    let mut graph = typed_graph(generic);
    let _ = collect_graph_violations(&mut graph);
    assert_ne!(graph.modules[0].decls, typed_graph(generic).modules[0].decls);
}
