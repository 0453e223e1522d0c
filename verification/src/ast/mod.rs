//! The syntax tree shared by the parser, the type checker and the IR generator.

use std::ops::Range;
use vstd::prelude::*;

pub mod literal;
pub mod types;

pub use literal::{Literal, NumberLiteral};
pub use types::{
    named_type, option_type_view, unit_type, NumberKind, NumberType, Type, TypeView,
};

verus! {

/// An attribute of a function or a block. The language defines none, and the
/// parser produces none; the one variant keeps the type inhabited.
#[derive(Debug, Clone, Copy, PartialEq, Eq, Hash)]
pub enum Attribute {
    Reserved,
}

pub type Attributes = Vec<Attribute>;

/// A node of the tree: what it is, where it came from, and its type once known.
#[derive(Debug, PartialEq)]
pub struct Wrapped<T> {
    pub kind: T,
    pub span: Range<usize>,
    pub ty: Option<Type>,
}

#[derive(Debug, PartialEq)]
pub enum ExprKind {
    Literal(Literal),
    Variable(String),
    Return(Option<Box<Expr>>),
    FunctionDef(FunctionDef),
}

#[derive(Debug, PartialEq)]
pub enum TopLevelKind {
    Expr(Box<Expr>),
}

pub type Expr = Wrapped<ExprKind>;

pub type TopLevel = Wrapped<TopLevelKind>;

pub type Ast = Vec<TopLevel>;

#[derive(Debug, PartialEq)]
pub struct FunctionDef {
    pub name: String,
    pub arguments: Vec<(String, Type)>,
    pub return_ty: Option<Type>,
    pub attributes: Attributes,
    pub body: Block,
}

#[derive(Debug, PartialEq)]
pub struct Block {
    pub statements: Vec<Expr>,
    pub attributes: Attributes,
}

/// The mathematical value of a [`Wrapped`] node.
pub struct WrappedView<K> {
    pub kind: K,
    pub span: Range<usize>,
    pub ty: Option<TypeView>,
}

/// The mathematical value of an [`ExprKind`].
pub enum ExprKindView {
    Literal(Literal),
    Variable(Seq<char>),
    Return(Option<Box<ExprView>>),
    FunctionDef(FunctionDefView),
}

/// The mathematical value of a [`TopLevelKind`].
pub enum TopLevelKindView {
    Expr(ExprView),
}

pub type ExprView = WrappedView<ExprKindView>;

pub type TopLevelView = WrappedView<TopLevelKindView>;

/// The mathematical value of a [`FunctionDef`].
pub struct FunctionDefView {
    pub name: Seq<char>,
    pub arguments: Seq<(Seq<char>, TypeView)>,
    pub return_ty: Option<TypeView>,
    pub attributes: Seq<Attribute>,
    pub body: BlockView,
}

/// The mathematical value of a [`Block`].
pub struct BlockView {
    pub statements: Seq<ExprView>,
    pub attributes: Seq<Attribute>,
}

/// The value of a list of named, typed arguments.
pub open spec fn arguments_view(arguments: Seq<(String, Type)>) -> Seq<(Seq<char>, TypeView)> {
    Seq::new(arguments.len(), |i: int| (arguments[i].0@, arguments[i].1@))
}

/// The value of an expression node.
pub open spec fn expr_view(expr: Expr) -> ExprView
    decreases expr,
{
    WrappedView {
        kind: expr_kind_view(expr.kind),
        span: expr.span,
        ty: option_type_view(expr.ty),
    }
}

/// The value of what an expression node holds.
pub open spec fn expr_kind_view(kind: ExprKind) -> ExprKindView
    decreases kind,
{
    match kind {
        ExprKind::Literal(literal) => ExprKindView::Literal(literal),
        ExprKind::Variable(name) => ExprKindView::Variable(name@),
        ExprKind::Return(None) => ExprKindView::Return(None),
        ExprKind::Return(Some(inner)) => ExprKindView::Return(Some(Box::new(expr_view(*inner)))),
        ExprKind::FunctionDef(def) => ExprKindView::FunctionDef(function_def_view(def)),
    }
}

/// The value of a function definition.
pub open spec fn function_def_view(def: FunctionDef) -> FunctionDefView
    decreases def,
{
    FunctionDefView {
        name: def.name@,
        arguments: arguments_view(def.arguments@),
        return_ty: option_type_view(def.return_ty),
        attributes: def.attributes@,
        body: block_view(def.body),
    }
}

/// The value of a block.
pub open spec fn block_view(block: Block) -> BlockView
    decreases block,
{
    BlockView {
        statements: Seq::new(
            block.statements@.len(),
            |i: int|
                if 0 <= i < block.statements@.len() {
                    expr_view(block.statements@[i])
                } else {
                    arbitrary()
                },
        ),
        attributes: block.attributes@,
    }
}

impl View for Wrapped<ExprKind> {
    type V = ExprView;

    open spec fn view(&self) -> ExprView {
        expr_view(*self)
    }
}

impl View for ExprKind {
    type V = ExprKindView;

    open spec fn view(&self) -> ExprKindView {
        expr_kind_view(*self)
    }
}

impl View for FunctionDef {
    type V = FunctionDefView;

    open spec fn view(&self) -> FunctionDefView {
        function_def_view(*self)
    }
}

impl View for Block {
    type V = BlockView;

    open spec fn view(&self) -> BlockView {
        block_view(*self)
    }
}

impl View for TopLevelKind {
    type V = TopLevelKindView;

    open spec fn view(&self) -> TopLevelKindView {
        match self {
            TopLevelKind::Expr(expr) => TopLevelKindView::Expr(expr_view(**expr)),
        }
    }
}

impl View for Wrapped<TopLevelKind> {
    type V = TopLevelView;

    open spec fn view(&self) -> TopLevelView {
        WrappedView { kind: self.kind@, span: self.span, ty: option_type_view(self.ty) }
    }
}

/// The value of a program: the value of each top level, in order.
pub open spec fn ast_view(ast: Seq<TopLevel>) -> Seq<TopLevelView> {
    Seq::new(ast.len(), |i: int| ast[i]@)
}

/// The value of each expression of a list, in order.
pub open spec fn exprs_view(exprs: Seq<Expr>) -> Seq<ExprView> {
    Seq::new(exprs.len(), |i: int| exprs[i]@)
}

/// Whether the expression holds no function definition.
pub open spec fn is_plain_expr(expr: ExprView) -> bool
    decreases expr,
{
    match expr.kind {
        ExprKindView::FunctionDef(_) => false,
        ExprKindView::Return(Some(inner)) => is_plain_expr(*inner),
        _ => true,
    }
}

/// Whether the top level is a function definition whose statements define no functions.
pub open spec fn is_function(top: TopLevelView) -> bool {
    match top.kind {
        TopLevelKindView::Expr(expr) => match expr.kind {
            ExprKindView::FunctionDef(def) => forall|i: int|
                0 <= i < def.body.statements.len() ==> is_plain_expr(
                    #[trigger] def.body.statements[i],
                ),
            _ => false,
        },
    }
}

/// Whether every top level of the program is a function definition whose
/// statements define no functions. The parser makes no other programs.
pub open spec fn is_program(program: Seq<TopLevelView>) -> bool {
    forall|i: int| 0 <= i < program.len() ==> is_function(#[trigger] program[i])
}

/// Whether the span of the expression and the spans of its parts lie within
/// a source of the given length.
pub open spec fn expr_spans_within(expr: ExprView, length: nat) -> bool
    decreases expr,
{
    &&& expr.span.start <= expr.span.end <= length
    &&& match expr.kind {
        ExprKindView::Return(Some(inner)) => expr_spans_within(*inner, length),
        ExprKindView::FunctionDef(def) => forall|i: int|
            0 <= i < def.body.statements.len() ==> expr_spans_within(
                #[trigger] def.body.statements[i],
                length,
            ),
        _ => true,
    }
}

/// Whether the span of the top level and the spans of all that it holds lie
/// within a source of the given length.
pub open spec fn top_level_spans_within(top: TopLevelView, length: nat) -> bool {
    &&& top.span.start <= top.span.end <= length
    &&& match top.kind {
        TopLevelKindView::Expr(expr) => expr_spans_within(expr, length),
    }
}

/// Whether every span in the program lies within a source of the given length.
pub open spec fn spans_within(program: Seq<TopLevelView>, length: nat) -> bool {
    forall|i: int| 0 <= i < program.len() ==> top_level_spans_within(#[trigger] program[i], length)
}

/// Whether the expression and each of its parts has a type.
pub open spec fn is_typed(expr: ExprView) -> bool
    decreases expr,
{
    &&& expr.ty is Some
    &&& match expr.kind {
        ExprKindView::Return(Some(inner)) => is_typed(*inner),
        _ => true,
    }
}

/// Whether the top level, the function definition that it holds, and every
/// statement of the function, with each of its parts, has a type.
pub open spec fn is_typed_function(top: TopLevelView) -> bool {
    &&& top.ty is Some
    &&& match top.kind {
        TopLevelKindView::Expr(expr) => expr.ty is Some && match expr.kind {
            ExprKindView::FunctionDef(def) => forall|i: int|
                0 <= i < def.body.statements.len() ==> is_typed(#[trigger] def.body.statements[i]),
            _ => false,
        },
    }
}

/// Whether every node of the program has a type: every top level, every
/// function definition, and every statement with each of its parts.
pub open spec fn is_typed_program(program: Seq<TopLevelView>) -> bool {
    forall|i: int| 0 <= i < program.len() ==> is_typed_function(#[trigger] program[i])
}

/// Whether the expression holds no function definition.
pub fn holds_no_function(expr: &Expr) -> (plain: bool)
    ensures
        plain == is_plain_expr(expr@),
    decreases expr,
{
    match &expr.kind {
        ExprKind::FunctionDef(_) => false,
        ExprKind::Return(Some(inner)) => {
            assert(expr@.kind == ExprKindView::Return(Some(Box::new(inner@))));
            holds_no_function(inner)
        },
        ExprKind::Return(None) => true,
        ExprKind::Literal(_) => true,
        ExprKind::Variable(_) => true,
    }
}

/// Whether the top level is a function definition whose statements define no functions.
pub fn is_valid_function(top: &TopLevel) -> (valid: bool)
    ensures
        valid == is_function(top@),
{
    match &top.kind {
        TopLevelKind::Expr(expr) => match &expr.kind {
            ExprKind::FunctionDef(def) => {
                proof {
                    assert(top@.kind == TopLevelKindView::Expr(expr@));
                    assert(expr@.kind == ExprKindView::FunctionDef(def@));
                }
                let mut i: usize = 0;
                while i < def.body.statements.len()
                    invariant
                        i <= def.body.statements@.len(),
                        top@.kind == TopLevelKindView::Expr(expr@),
                        expr@.kind == ExprKindView::FunctionDef(def@),
                        def@.body.statements.len() == def.body.statements@.len(),
                        forall|j: int|
                            0 <= j < i ==> is_plain_expr(#[trigger] def@.body.statements[j]),
                    decreases def.body.statements@.len() - i,
                {
                    assert(def@.body.statements[i as int] == def.body.statements@[i as int]@);
                    if !holds_no_function(&def.body.statements[i]) {
                        return false;
                    }
                    i += 1;
                }
                true
            },
            ExprKind::Literal(_) => {
                assert(expr@.kind is Literal);
                false
            },
            ExprKind::Variable(_) => {
                assert(expr@.kind is Variable);
                false
            },
            ExprKind::Return(_) => {
                assert(expr@.kind is Return);
                false
            },
        },
    }
}

/// Whether every top level of the program is a function definition whose
/// statements define no functions.
pub fn is_valid_program(ast: &Vec<TopLevel>) -> (valid: bool)
    ensures
        valid == is_program(ast_view(ast@)),
{
    let mut i: usize = 0;
    while i < ast.len()
        invariant
            i <= ast@.len(),
            forall|j: int| 0 <= j < i ==> is_function(#[trigger] ast_view(ast@)[j]),
        decreases ast@.len() - i,
    {
        assert(ast_view(ast@)[i as int] == ast@[i as int]@);
        if !is_valid_function(&ast[i]) {
            return false;
        }
        i += 1;
    }
    true
}

/// A copy of the span.
pub fn copy_span(span: &Range<usize>) -> (copy: Range<usize>)
    ensures
        copy == *span,
{
    Range { start: span.start, end: span.end }
}

/// A copy of the type, if there is one.
pub fn copy_option_type(ty: &Option<Type>) -> (copy: Option<Type>)
    ensures
        option_type_view(copy) == option_type_view(*ty),
{
    match ty {
        Some(ty) => Some(ty.clone()),
        None => None,
    }
}

/// A copy of the arguments.
pub fn copy_arguments(arguments: &Vec<(String, Type)>) -> (copy: Vec<(String, Type)>)
    ensures
        arguments_view(copy@) == arguments_view(arguments@),
{
    let mut copy: Vec<(String, Type)> = Vec::new();
    let mut i: usize = 0;
    while i < arguments.len()
        invariant
            i <= arguments@.len(),
            copy@.len() == i,
            forall|j: int|
                0 <= j < i ==> copy@[j].0@ == arguments@[j].0@ && copy@[j].1@ == arguments@[j].1@,
        decreases arguments@.len() - i,
    {
        copy.push((arguments[i].0.clone(), arguments[i].1.clone()));
        i += 1;
    }
    assert(arguments_view(copy@) =~= arguments_view(arguments@));
    copy
}

/// A copy of the attributes.
pub fn copy_attributes(attributes: &Vec<Attribute>) -> (copy: Vec<Attribute>)
    ensures
        copy@ == attributes@,
{
    let mut copy: Vec<Attribute> = Vec::new();
    let mut i: usize = 0;
    while i < attributes.len()
        invariant
            i <= attributes@.len(),
            copy@ == attributes@.take(i as int),
        decreases attributes@.len() - i,
    {
        copy.push(attributes[i]);
        i += 1;
        assert(copy@ =~= attributes@.take(i as int));
    }
    assert(attributes@.take(i as int) =~= attributes@);
    copy
}

/// A copy of the expression.
pub fn copy_expr(expr: &Expr) -> (copy: Expr)
    ensures
        copy@ == expr@,
    decreases expr,
{
    let kind = match &expr.kind {
        ExprKind::Literal(literal) => ExprKind::Literal(*literal),
        ExprKind::Variable(name) => ExprKind::Variable(name.clone()),
        ExprKind::Return(None) => ExprKind::Return(None),
        ExprKind::Return(Some(inner)) => ExprKind::Return(Some(Box::new(copy_expr(inner)))),
        ExprKind::FunctionDef(def) => ExprKind::FunctionDef(copy_function_def(def)),
    };
    Wrapped { kind, span: copy_span(&expr.span), ty: copy_option_type(&expr.ty) }
}

/// A copy of the block.
pub fn copy_block(block: &Block) -> (copy: Block)
    ensures
        copy@ == block@,
    decreases block,
{
    let mut statements: Vec<Expr> = Vec::new();
    let mut i: usize = 0;
    assert(decreases_to!(block => block.statements));
    while i < block.statements.len()
        invariant
            i <= block.statements@.len(),
            statements@.len() == i,
            decreases_to!(block => block.statements),
            forall|j: int| 0 <= j < i ==> statements@[j]@ == block.statements@[j]@,
        decreases block.statements@.len() - i,
    {
        proof {
            assert(decreases_to!(block.statements => block.statements[i as int]));
        }
        statements.push(copy_expr(&block.statements[i]));
        i += 1;
    }
    let copy = Block { statements, attributes: copy_attributes(&block.attributes) };
    assert(copy@.statements =~= block@.statements);
    copy
}

/// A copy of the function definition.
pub fn copy_function_def(def: &FunctionDef) -> (copy: FunctionDef)
    ensures
        copy@ == def@,
    decreases def,
{
    FunctionDef {
        name: def.name.clone(),
        arguments: copy_arguments(&def.arguments),
        return_ty: copy_option_type(&def.return_ty),
        attributes: copy_attributes(&def.attributes),
        body: copy_block(&def.body),
    }
}

/// The expressions that an expression holds directly.
pub open spec fn children_of(kind: ExprKindView) -> Seq<ExprView> {
    match kind {
        ExprKindView::Return(Some(inner)) => seq![*inner],
        ExprKindView::FunctionDef(def) => def.body.statements,
        _ => Seq::empty(),
    }
}

impl ExprKind {
    /// Copies of the expressions that the expression holds directly: what a
    /// `return` returns, and the statements of a function.
    pub fn get_children(&self) -> (children: Vec<Box<Expr>>)
        ensures
            children@.len() == children_of(self@).len(),
            forall|i: int| 0 <= i < children@.len() ==> (*children@[i])@ == children_of(self@)[i],
    {
        let mut children: Vec<Box<Expr>> = Vec::new();
        match self {
            ExprKind::Literal(_) => {},
            ExprKind::Variable(_) => {},
            ExprKind::Return(None) => {},
            ExprKind::Return(Some(inner)) => {
                children.push(Box::new(copy_expr(inner)));
            },
            ExprKind::FunctionDef(def) => {
                let mut i: usize = 0;
                while i < def.body.statements.len()
                    invariant
                        i <= def.body.statements@.len(),
                        children@.len() == i,
                        self@ == ExprKindView::FunctionDef(def@),
                        def@.body.statements.len() == def.body.statements@.len(),
                        forall|j: int|
                            0 <= j < i ==> (*children@[j])@ == def@.body.statements[j],
                    decreases def.body.statements@.len() - i,
                {
                    assert(def@.body.statements[i as int] == def.body.statements@[i as int]@);
                    children.push(Box::new(copy_expr(&def.body.statements[i])));
                    i += 1;
                }
            },
        }
        children
    }

    /// Whether the expression can stand at the top level: a function definition can.
    pub fn is_top_level(&self) -> (top: bool)
        ensures
            top == (self@ is FunctionDef),
    {
        match self {
            ExprKind::FunctionDef(_) => true,
            _ => false,
        }
    }
}

impl Clone for ExprKind {
    fn clone(&self) -> (copy: ExprKind)
        ensures
            copy@ == self@,
    {
        match self {
            ExprKind::Literal(literal) => ExprKind::Literal(*literal),
            ExprKind::Variable(name) => ExprKind::Variable(name.clone()),
            ExprKind::Return(None) => ExprKind::Return(None),
            ExprKind::Return(Some(inner)) => ExprKind::Return(Some(Box::new(copy_expr(inner)))),
            ExprKind::FunctionDef(def) => ExprKind::FunctionDef(copy_function_def(def)),
        }
    }
}

impl Clone for TopLevelKind {
    fn clone(&self) -> (copy: TopLevelKind)
        ensures
            copy@ == self@,
    {
        match self {
            TopLevelKind::Expr(expr) => TopLevelKind::Expr(Box::new(copy_expr(expr))),
        }
    }
}

impl Clone for Block {
    fn clone(&self) -> (copy: Block)
        ensures
            copy@ == self@,
    {
        copy_block(self)
    }
}

impl Clone for Wrapped<ExprKind> {
    fn clone(&self) -> (copy: Expr)
        ensures
            copy@ == self@,
    {
        copy_expr(self)
    }
}

impl Clone for FunctionDef {
    fn clone(&self) -> (copy: FunctionDef)
        ensures
            copy@ == self@,
    {
        copy_function_def(self)
    }
}

impl Clone for Wrapped<TopLevelKind> {
    fn clone(&self) -> (copy: TopLevel)
        ensures
            copy@ == self@,
    {
        let kind = match &self.kind {
            TopLevelKind::Expr(expr) => TopLevelKind::Expr(Box::new(copy_expr(expr))),
        };
        Wrapped { kind, span: copy_span(&self.span), ty: copy_option_type(&self.ty) }
    }
}

impl Wrapped<TopLevelKind> {
    /// The top level that holds the expression, with the expression's span.
    pub fn expr(expr: Expr) -> (top: TopLevel)
        ensures
            top@ == (WrappedView {
                kind: TopLevelKindView::Expr(expr@),
                span: expr.span,
                ty: None,
            }),
    {
        let span = Range { start: expr.span.start, end: expr.span.end };
        Wrapped::new(TopLevelKind::Expr(Box::new(expr)), span)
    }
}

impl Block {
    /// The block without statements.
    pub fn empty() -> (block: Block)
        ensures
            block@ == (BlockView { statements: Seq::empty(), attributes: Seq::empty() }),
    {
        let block = Block { statements: Vec::new(), attributes: Vec::new() };
        assert(block@.statements =~= Seq::empty());
        block
    }

    /// The block of the statements.
    pub fn new(statements: Vec<Expr>) -> (block: Block)
        ensures
            block@ == (BlockView { statements: exprs_view(statements@), attributes: Seq::empty() }),
    {
        let block = Block { statements, attributes: Vec::new() };
        assert(block@.statements =~= exprs_view(statements@));
        block
    }
}

impl<T> Wrapped<T> {
    /// A node that has no type yet.
    pub fn new(kind: T, span: Range<usize>) -> (node: Wrapped<T>)
        ensures
            node.kind == kind,
            node.span == span,
            node.ty is None,
    {
        Wrapped { kind, span, ty: None }
    }
}

} // verus!
