//! The type checker: gives every node of a program its type and enforces the
//! typing rules.

use vstd::prelude::*;

use crate::ast::{
    arguments_view, ast_view, copy_arguments, copy_attributes, copy_option_type, copy_span,
    exprs_view, is_function, is_plain_expr, is_program, is_typed, is_typed_program, unit_type,
    Block, BlockView, Expr, ExprKind, ExprKindView, ExprView, FunctionDef, FunctionDefView,
    TopLevel, TopLevelKind, TopLevelKindView, TopLevelView, Type, TypeView, Wrapped,
    WrappedView,
};
use crate::table::Table;

verus! {

/// A type error.
#[derive(Debug, PartialEq)]
pub enum TypeCheckError {
    /// A function declares no return type, and none is inferred.
    UnableToInferType,
    /// A type was expected and another was found.
    IncompatibleTypes { expected: Type, found: Type },
    /// A variable is used that no argument declares.
    UnknownVariable(String),
}

/// The mathematical value of a [`TypeCheckError`].
pub enum TypeCheckErrorView {
    UnableToInferType,
    IncompatibleTypes { expected: TypeView, found: TypeView },
    UnknownVariable(Seq<char>),
}

impl View for TypeCheckError {
    type V = TypeCheckErrorView;

    open spec fn view(&self) -> TypeCheckErrorView {
        match self {
            TypeCheckError::UnableToInferType => TypeCheckErrorView::UnableToInferType,
            TypeCheckError::IncompatibleTypes { expected, found } => {
                TypeCheckErrorView::IncompatibleTypes { expected: expected@, found: found@ }
            },
            TypeCheckError::UnknownVariable(name) => TypeCheckErrorView::UnknownVariable(name@),
        }
    }
}

impl Clone for TypeCheckError {
    fn clone(&self) -> (copy: TypeCheckError)
        ensures
            copy@ == self@,
    {
        match self {
            TypeCheckError::UnableToInferType => TypeCheckError::UnableToInferType,
            TypeCheckError::IncompatibleTypes { expected, found } => {
                TypeCheckError::IncompatibleTypes {
                    expected: expected.clone(),
                    found: found.clone(),
                }
            },
            TypeCheckError::UnknownVariable(name) => TypeCheckError::UnknownVariable(name.clone()),
        }
    }
}

/// The types of the variables in scope, by name.
pub type Scope = Map<Seq<char>, TypeView>;

/// The scope that the arguments of a function make: each name with its
/// declared type, and of two arguments with one name the later one.
pub open spec fn scope_of(arguments: Seq<(Seq<char>, TypeView)>) -> Scope
    decreases arguments.len(),
{
    if arguments.len() == 0 {
        Map::empty()
    } else {
        scope_of(arguments.drop_last()).insert(arguments.last().0, arguments.last().1)
    }
}

/// The node with the type.
pub open spec fn typed<K>(node: WrappedView<K>, ty: TypeView) -> WrappedView<K> {
    WrappedView { kind: node.kind, span: node.span, ty: Some(ty) }
}

/// The expression with its type and the types of its parts, and whether it
/// leaves the function. A literal has the type it is tagged with, a variable
/// the type that the scope gives it, and a `return` the unit type.
pub open spec fn check_expr(expr: ExprView, scope: Scope) -> Result<
    (ExprView, bool),
    TypeCheckErrorView,
>
    decreases expr,
{
    match expr.kind {
        ExprKindView::Literal(literal) => Ok((typed(expr, literal.spec_ty()), false)),
        ExprKindView::Variable(name) => if scope.contains_key(name) {
            Ok((typed(expr, scope[name]), false))
        } else {
            Err(TypeCheckErrorView::UnknownVariable(name))
        },
        ExprKindView::Return(None) => Ok((typed(expr, unit_type()), true)),
        ExprKindView::Return(Some(inner)) => match check_expr(*inner, scope) {
            Ok((inner, _)) => Ok(
                (
                    WrappedView {
                        kind: ExprKindView::Return(Some(Box::new(inner))),
                        span: expr.span,
                        ty: Some(unit_type()),
                    },
                    true,
                ),
            ),
            Err(error) => Err(error),
        },
        ExprKindView::FunctionDef(_) => Ok((expr, false)),
    }
}

/// The statements with their types, checked in order, and whether one of them
/// leaves the function. The first error ends the check.
pub open spec fn check_statements(statements: Seq<ExprView>, scope: Scope) -> Result<
    (Seq<ExprView>, bool),
    TypeCheckErrorView,
>
    decreases statements.len(),
{
    if statements.len() == 0 {
        Ok((Seq::empty(), false))
    } else {
        match check_statements(statements.drop_last(), scope) {
            Ok((checked, leaves)) => match check_expr(statements.last(), scope) {
                Ok((statement, leaves_here)) => Ok(
                    (checked.push(statement), leaves || leaves_here),
                ),
                Err(error) => Err(error),
            },
            Err(error) => Err(error),
        }
    }
}

/// The function with typed statements. Its arguments are in scope. A function
/// that declares a return type must leave by a `return`, and one that declares
/// none is rejected.
pub open spec fn check_function(def: FunctionDefView) -> Result<
    FunctionDefView,
    TypeCheckErrorView,
> {
    match check_statements(def.body.statements, scope_of(def.arguments)) {
        Ok((statements, leaves)) => {
            if !leaves && def.return_ty is Some {
                Err(
                    TypeCheckErrorView::IncompatibleTypes {
                        expected: def.return_ty->0,
                        found: unit_type(),
                    },
                )
            } else if def.return_ty is None {
                Err(TypeCheckErrorView::UnableToInferType)
            } else {
                Ok(
                    FunctionDefView {
                        name: def.name,
                        arguments: def.arguments,
                        return_ty: def.return_ty,
                        attributes: def.attributes,
                        body: BlockView { statements, attributes: def.body.attributes },
                    },
                )
            }
        },
        Err(error) => Err(error),
    }
}

/// The top level with its function checked. A function definition is a
/// statement of its own and yields nothing, so the definition and the top
/// level that holds it have the unit type.
pub open spec fn check_top_level(top: TopLevelView) -> Result<TopLevelView, TypeCheckErrorView> {
    match top.kind {
        TopLevelKindView::Expr(expr) => match expr.kind {
            ExprKindView::FunctionDef(def) => match check_function(def) {
                Ok(def) => Ok(
                    WrappedView {
                        kind: TopLevelKindView::Expr(
                            WrappedView {
                                kind: ExprKindView::FunctionDef(def),
                                span: expr.span,
                                ty: Some(unit_type()),
                            },
                        ),
                        span: top.span,
                        ty: Some(unit_type()),
                    },
                ),
                Err(error) => Err(error),
            },
            _ => Ok(top),
        },
    }
}

/// The program with every function checked, in order. The first error ends the check.
pub open spec fn check_program(program: Seq<TopLevelView>) -> Result<
    Seq<TopLevelView>,
    TypeCheckErrorView,
>
    decreases program.len(),
{
    if program.len() == 0 {
        Ok(Seq::empty())
    } else {
        match check_program(program.drop_last()) {
            Ok(checked) => match check_top_level(program.last()) {
                Ok(top) => Ok(checked.push(top)),
                Err(error) => Err(error),
            },
            Err(error) => Err(error),
        }
    }
}

/// Whether the exec scope holds the types of the scope, name by name.
pub open spec fn holds_scope(variables: Map<Seq<char>, Type>, scope: Scope) -> bool {
    &&& variables.dom() == scope.dom()
    &&& forall|name: Seq<char>|
        variables.contains_key(name) ==> (#[trigger] variables[name])@ == scope[name]
}

/// What a function declares: its arguments and its return type.
pub struct FunctionContext {
    pub arguments: Vec<(String, Type)>,
    pub return_ty: Option<Type>,
}

/// The variables in scope in a block.
pub struct BlockContext {
    pub variables: Table<String, Type>,
}

impl BlockContext {
    /// A block in which no variable is in scope.
    pub fn new() -> (context: BlockContext)
        ensures
            context.variables@ == Map::<Seq<char>, Type>::empty(),
    {
        BlockContext { variables: Table::new() }
    }

    /// A block in which the arguments of the function are in scope.
    pub fn of_function(function: &FunctionContext) -> (context: BlockContext)
        ensures
            holds_scope(context.variables@, scope_of(arguments_view(function.arguments@))),
    {
        let mut context = BlockContext::new();
        let mut i: usize = 0;
        let ghost all = arguments_view(function.arguments@);
        assert(all.take(0) =~= Seq::empty());
        while i < function.arguments.len()
            invariant
                i <= function.arguments@.len(),
                all == arguments_view(function.arguments@),
                holds_scope(context.variables@, scope_of(all.take(i as int))),
            decreases function.arguments@.len() - i,
        {
            let name = function.arguments[i].0.clone();
            let ty = function.arguments[i].1.clone();
            proof {
                assert(all.take(i + 1).drop_last() =~= all.take(i as int));
                assert(all.take(i + 1).last() == (name@, ty@));
            }
            context.variables.insert(name, ty);
            i += 1;
            assert(context.variables@.dom() =~= scope_of(all.take(i as int)).dom());
        }
        assert(all.take(i as int) =~= all);
        context
    }
}

/// The type checker.
pub struct TypeChecker {}

impl TypeChecker {
    pub fn new() -> (checker: TypeChecker) {
        TypeChecker {  }
    }

    /// Checks the program and gives every node its type: every expression of
    /// every function body, every function definition and every top level.
    /// On an error the program is left as it was.
    pub fn type_check(&mut self, ast: &mut Vec<TopLevel>) -> (checked: Result<(), TypeCheckError>)
        requires
            is_program(ast_view(old(ast)@)),
        ensures
            match check_program(ast_view(old(ast)@)) {
                Ok(program) => checked is Ok && ast_view(final(ast)@) == program,
                Err(error) => {
                    &&& checked matches Err(given)
                    &&& given@ == error
                    &&& ast_view(final(ast)@) == ast_view(old(ast)@)
                },
            },
            is_program(ast_view(final(ast)@)),
            checked is Ok ==> is_typed_program(ast_view(final(ast)@)),
    {
        proof {
            lemma_checked_program_is_typed(ast_view(ast@));
        }
        let ghost program = ast_view(ast@);
        let mut typed_ast: Vec<TopLevel> = Vec::new();
        let mut i: usize = 0;
        assert(program.take(0) =~= Seq::empty());
        assert(ast_view(typed_ast@) =~= Seq::empty());
        while i < ast.len()
            invariant
                i <= ast@.len(),
                ast == old(ast),
                program == ast_view(ast@),
                is_program(program),
                check_program(program.take(i as int)) == Ok::<
                    Seq<TopLevelView>,
                    TypeCheckErrorView,
                >(ast_view(typed_ast@)),
            decreases ast@.len() - i,
        {
            let ghost before = ast_view(typed_ast@);
            proof {
                assert(program.take(i + 1).drop_last() =~= program.take(i as int));
                assert(program.take(i + 1).last() == program[i as int]);
                assert(is_function(program[i as int]));
                assert(program[i as int] == ast@[i as int]@);
            }
            match self.check_top_level(&ast[i]) {
                Ok(top) => {
                    typed_ast.push(top);
                    assert(ast_view(typed_ast@) =~= before.push(top@));
                },
                Err(error) => {
                    proof {
                        lemma_check_program_fails(program, i as int);
                    }
                    return Err(error);
                },
            }
            i += 1;
        }
        assert(program.take(i as int) =~= program);
        *ast = typed_ast;
        Ok(())
    }

    /// Checks one function definition.
    fn check_top_level(&mut self, top: &TopLevel) -> (checked: Result<TopLevel, TypeCheckError>)
        requires
            is_function(top@),
        ensures
            match check_top_level(top@) {
                Ok(typed_top) => checked matches Ok(found) && found@ == typed_top,
                Err(error) => checked matches Err(given) && given@ == error,
            },
    {
        match &top.kind {
            TopLevelKind::Expr(expr) => match &expr.kind {
                ExprKind::FunctionDef(function) => {
                    proof {
                        assert(top@.kind == TopLevelKindView::Expr(expr@));
                        assert(expr@.kind == ExprKindView::FunctionDef(function@));
                        assert(function@.body == function.body@);
                    }
                    let mut ctx = FunctionContext {
                        arguments: copy_arguments(&function.arguments),
                        return_ty: copy_option_type(&function.return_ty),
                    };
                    let (body, leaves) = self.evaluate_block(&function.body, &mut ctx)?;
                    if !leaves {
                        if let Some(expected) = ctx.return_ty {
                            return Err(
                                TypeCheckError::IncompatibleTypes {
                                    expected,
                                    found: Type::empty(),
                                },
                            );
                        }
                    }
                    if function.return_ty.is_none() {
                        return Err(TypeCheckError::UnableToInferType);
                    }
                    let def = FunctionDef {
                        name: function.name.clone(),
                        arguments: copy_arguments(&function.arguments),
                        return_ty: copy_option_type(&function.return_ty),
                        attributes: copy_attributes(&function.attributes),
                        body,
                    };
                    let ghost def_view = def@;
                    assert(check_function(function@) == Ok::<FunctionDefView, TypeCheckErrorView>(
                        def_view,
                    ));
                    let typed_expr = Wrapped {
                        kind: ExprKind::FunctionDef(def),
                        span: copy_span(&expr.span),
                        ty: Some(Type::empty()),
                    };
                    let ghost typed_expr_view = typed_expr@;
                    assert(typed_expr_view == (WrappedView {
                        kind: ExprKindView::FunctionDef(def_view),
                        span: expr@.span,
                        ty: Some(unit_type()),
                    }));
                    let typed_top = Wrapped {
                        kind: TopLevelKind::Expr(Box::new(typed_expr)),
                        span: copy_span(&top.span),
                        ty: Some(Type::empty()),
                    };
                    assert(typed_top@.kind == TopLevelKindView::Expr(typed_expr_view));
                    Ok(typed_top)
                },
                _ => vstd::pervasive::unreached(),
            },
        }
    }

    /// Checks the statements of a block, with the arguments of the function in scope.
    fn evaluate_block(&mut self, block: &Block, ctx: &mut FunctionContext) -> (checked: Result<
        (Block, bool),
        TypeCheckError,
    >)
        requires
            forall|i: int|
                0 <= i < block@.statements.len() ==> is_plain_expr(#[trigger] block@.statements[i]),
        ensures
            *final(ctx) == *old(ctx),
            match check_statements(
                block@.statements,
                scope_of(arguments_view(old(ctx).arguments@)),
            ) {
                Ok((statements, leaves)) => {
                    &&& checked matches Ok(found)
                    &&& found.0@ == (BlockView { statements, attributes: block@.attributes })
                    &&& found.1 == leaves
                },
                Err(error) => checked matches Err(given) && given@ == error,
            },
    {
        let block_ctx = BlockContext::of_function(ctx);
        let ghost scope = scope_of(arguments_view(ctx.arguments@));
        let ghost all = block@.statements;
        let mut statements: Vec<Expr> = Vec::new();
        let mut leaves = false;
        let mut i: usize = 0;
        assert(all.take(0) =~= Seq::empty());
        assert(exprs_view(statements@) =~= Seq::empty());
        while i < block.statements.len()
            invariant
                i <= block.statements@.len(),
                all == block@.statements,
                all.len() == block.statements@.len(),
                forall|j: int| 0 <= j < all.len() ==> is_plain_expr(#[trigger] all[j]),
                holds_scope(block_ctx.variables@, scope),
                *ctx == *old(ctx),
                scope == scope_of(arguments_view(old(ctx).arguments@)),
                check_statements(all.take(i as int), scope) == Ok::<
                    (Seq<ExprView>, bool),
                    TypeCheckErrorView,
                >((exprs_view(statements@), leaves)),
            decreases block.statements@.len() - i,
        {
            let ghost before = exprs_view(statements@);
            proof {
                assert(all.take(i + 1).drop_last() =~= all.take(i as int));
                assert(all.take(i + 1).last() == all[i as int]);
                assert(all[i as int] == block.statements@[i as int]@);
                assert(is_plain_expr(all[i as int]));
            }
            match self.evaluate_expr(&block.statements[i], ctx, &block_ctx) {
                Ok((statement, leaves_here)) => {
                    statements.push(statement);
                    leaves = leaves || leaves_here;
                    assert(exprs_view(statements@) =~= before.push(statement@));
                },
                Err(error) => {
                    proof {
                        lemma_check_statements_fails(all, scope, i as int);
                    }
                    return Err(error);
                },
            }
            i += 1;
        }
        assert(all.take(i as int) =~= all);
        let checked = Block { statements, attributes: copy_attributes(&block.attributes) };
        assert(checked@.statements =~= exprs_view(statements@));
        Ok((checked, leaves))
    }

    /// Checks one expression.
    fn evaluate_expr(
        &mut self,
        statement: &Expr,
        ctx: &FunctionContext,
        block_ctx: &BlockContext,
    ) -> (checked: Result<(Expr, bool), TypeCheckError>)
        requires
            is_plain_expr(statement@),
        ensures
            forall|scope: Scope| #[trigger]
                holds_scope(block_ctx.variables@, scope) ==> match check_expr(statement@, scope) {
                    Ok((typed_statement, leaves)) => {
                        &&& checked matches Ok(found)
                        &&& found.0@ == typed_statement
                        &&& found.1 == leaves
                    },
                    Err(error) => checked matches Err(given) && given@ == error,
                },
        decreases statement,
    {
        match &statement.kind {
            ExprKind::Return(Some(inner)) => {
                let (typed_inner, _) = self.evaluate_expr(inner, ctx, block_ctx)?;
                Ok(
                    (
                        Wrapped {
                            kind: ExprKind::Return(Some(Box::new(typed_inner))),
                            span: copy_span(&statement.span),
                            ty: Some(Type::empty()),
                        },
                        true,
                    ),
                )
            },
            ExprKind::Return(None) => Ok(
                (
                    Wrapped {
                        kind: ExprKind::Return(None),
                        span: copy_span(&statement.span),
                        ty: Some(Type::empty()),
                    },
                    true,
                ),
            ),
            ExprKind::Literal(literal) => Ok(
                (
                    Wrapped {
                        kind: ExprKind::Literal(*literal),
                        span: copy_span(&statement.span),
                        ty: Some(literal.ty()),
                    },
                    false,
                ),
            ),
            ExprKind::Variable(name) => match block_ctx.variables.get(name) {
                Some(ty) => Ok(
                    (
                        Wrapped {
                            kind: ExprKind::Variable(name.clone()),
                            span: copy_span(&statement.span),
                            ty: Some(ty.clone()),
                        },
                        false,
                    ),
                ),
                None => Err(TypeCheckError::UnknownVariable(name.clone())),
            },
            ExprKind::FunctionDef(_) => vstd::pervasive::unreached(),
        }
    }
}

/// Where statement `i` fails, the check of the statements fails with its error,
/// provided that the statements before it pass.
pub proof fn lemma_check_statements_fails(statements: Seq<ExprView>, scope: Scope, i: int)
    requires
        0 <= i < statements.len(),
        check_statements(statements.take(i), scope) is Ok,
        check_expr(statements[i], scope) is Err,
    ensures
        check_statements(statements, scope) == Err::<(Seq<ExprView>, bool), TypeCheckErrorView>(
            check_expr(statements[i], scope)->Err_0,
        ),
    decreases statements.len(),
{
    if i == statements.len() - 1 {
        assert(statements.drop_last() =~= statements.take(i));
    } else {
        assert(statements.drop_last().take(i) =~= statements.take(i));
        lemma_check_statements_fails(statements.drop_last(), scope, i);
    }
}

/// Where function `i` fails, the check of the program fails with its error,
/// provided that the functions before it pass.
pub proof fn lemma_check_program_fails(program: Seq<TopLevelView>, i: int)
    requires
        0 <= i < program.len(),
        check_program(program.take(i)) is Ok,
        check_top_level(program[i]) is Err,
    ensures
        check_program(program) == Err::<Seq<TopLevelView>, TypeCheckErrorView>(
            check_top_level(program[i])->Err_0,
        ),
    decreases program.len(),
{
    if i == program.len() - 1 {
        assert(program.drop_last() =~= program.take(i));
    } else {
        assert(program.drop_last().take(i) =~= program.take(i));
        lemma_check_program_fails(program.drop_last(), i);
    }
}

/// A checked expression has a type at each of its parts, and checking it
/// once more changes nothing.
pub proof fn lemma_checked_expr(expr: ExprView, scope: Scope)
    requires
        is_plain_expr(expr),
    ensures
        check_expr(expr, scope) matches Ok((checked, leaves)) ==> {
            &&& is_typed(checked)
            &&& is_plain_expr(checked)
            &&& check_expr(checked, scope) == Ok::<(ExprView, bool), TypeCheckErrorView>(
                (checked, leaves),
            )
        },
    decreases expr,
{
    match expr.kind {
        ExprKindView::Return(Some(inner)) => {
            lemma_checked_expr(*inner, scope);
        },
        _ => {},
    }
}

/// Checked statements have a type at each of their parts, and checking them
/// once more changes nothing.
pub proof fn lemma_checked_statements(statements: Seq<ExprView>, scope: Scope)
    requires
        forall|i: int| 0 <= i < statements.len() ==> is_plain_expr(#[trigger] statements[i]),
    ensures
        check_statements(statements, scope) matches Ok((checked, leaves)) ==> {
            &&& checked.len() == statements.len()
            &&& forall|i: int|
                0 <= i < checked.len() ==> is_typed(#[trigger] checked[i]) && is_plain_expr(
                    checked[i],
                )
            &&& check_statements(checked, scope) == Ok::<
                (Seq<ExprView>, bool),
                TypeCheckErrorView,
            >((checked, leaves))
        },
    decreases statements.len(),
{
    if statements.len() > 0 {
        lemma_checked_statements(statements.drop_last(), scope);
        lemma_checked_expr(statements.last(), scope);
        if let Ok((checked, leaves)) = check_statements(statements, scope) {
            assert(checked.drop_last() =~= check_statements(statements.drop_last(), scope)->Ok_0.0);
        }
    }
}

/// After type checking succeeds, every node of the program has a type:
/// every top level, every function definition, and every statement of every
/// function with each of its parts.
pub proof fn lemma_checked_program_is_typed(program: Seq<TopLevelView>)
    requires
        is_program(program),
    ensures
        check_program(program) matches Ok(checked) ==> is_program(checked) && is_typed_program(
            checked,
        ),
    decreases program.len(),
{
    if program.len() > 0 {
        lemma_checked_program_is_typed(program.drop_last());
        assert(is_function(program.last()));
        let def = program.last().kind->Expr_0.kind->FunctionDef_0;
        lemma_checked_statements(def.body.statements, scope_of(def.arguments));
    }
}

/// Type checking is idempotent: a program that has passed the check passes it
/// again and comes out as it went in.
pub proof fn lemma_type_check_idempotent(program: Seq<TopLevelView>)
    requires
        is_program(program),
    ensures
        check_program(program) matches Ok(checked) ==> check_program(checked) == Ok::<
            Seq<TopLevelView>,
            TypeCheckErrorView,
        >(checked),
    decreases program.len(),
{
    if program.len() > 0 {
        lemma_type_check_idempotent(program.drop_last());
        assert(is_function(program.last()));
        let def = program.last().kind->Expr_0.kind->FunctionDef_0;
        lemma_checked_statements(def.body.statements, scope_of(def.arguments));
        if let Ok(checked) = check_program(program) {
            assert(checked.drop_last() =~= check_program(program.drop_last())->Ok_0);
        }
    }
}

} // verus!
