use redox::ast::{
    Expr, ExprKind, FunctionDef, Literal, NumberLiteral, NumberType, TopLevel, TopLevelKind, Type,
};
use redox::parser::parse;
use redox::type_checker::{BlockContext, FunctionContext, TypeCheckError, TypeChecker};

fn check(source: &str) -> (Vec<TopLevel>, Result<(), TypeCheckError>) {
    let mut ast = parse(source).unwrap();
    let checked = TypeChecker::new().type_check(&mut ast);
    (ast, checked)
}

fn int32() -> Type {
    Type::Number(NumberType::int32())
}

fn definition(top: &TopLevel) -> &FunctionDef {
    match &top.kind {
        TopLevelKind::Expr(expr) => match &expr.kind {
            ExprKind::FunctionDef(def) => def,
            _ => panic!("Expected FunctionDef"),
        },
    }
}

fn all_typed(expr: &Expr) -> bool {
    expr.ty.is_some()
        && match &expr.kind {
            ExprKind::Return(Some(inner)) => all_typed(inner),
            _ => true,
        }
}

#[test]
fn function_without_return_type_cannot_be_inferred() {
    assert_eq!(check("fn main() {}").1, Err(TypeCheckError::UnableToInferType));
    assert_eq!(check("fn foo() {}").1, Err(TypeCheckError::UnableToInferType));
    assert_eq!(check("fn foo() { return 1; }").1, Err(TypeCheckError::UnableToInferType));
    assert_eq!(check("fn foo(x: i32) { x; }").1, Err(TypeCheckError::UnableToInferType));
}

#[test]
fn function_that_returns_a_literal_is_typed() {
    let (ast, checked) = check("fn main() -> i32 { return 0; }");
    assert_eq!(checked, Ok(()));
    let statement = &definition(&ast[0]).body.statements[0];
    assert_eq!(statement.ty, Some(Type::empty()));
    match &statement.kind {
        ExprKind::Return(Some(inner)) => {
            assert_eq!(inner.ty, Some(int32()));
            assert_eq!(inner.kind, ExprKind::Literal(Literal::Number(NumberLiteral::int32(0))));
        }
        _ => panic!("Expected Return"),
    }
}

#[test]
fn function_that_returns_its_argument_is_typed() {
    let (ast, checked) = check("fn add(x: i64) -> i32 { return x; }");
    assert_eq!(checked, Ok(()));
    let statement = &definition(&ast[0]).body.statements[0];
    assert_eq!(statement.ty, Some(Type::empty()));
    match &statement.kind {
        ExprKind::Return(Some(inner)) => {
            assert_eq!(inner.ty, Some(Type::Number(NumberType::int64())));
        }
        _ => panic!("Expected Return"),
    }
}

#[test]
fn function_that_does_not_return_is_incompatible() {
    assert_eq!(
        check("fn ret() -> i32 { }").1,
        Err(TypeCheckError::IncompatibleTypes { expected: int32(), found: Type::empty() })
    );
    assert_eq!(
        check("fn ret(x: i32) -> i32 { x; 1; }").1,
        Err(TypeCheckError::IncompatibleTypes { expected: int32(), found: Type::empty() })
    );
    assert_eq!(
        check("fn ret() -> () { }").1,
        Err(TypeCheckError::IncompatibleTypes { expected: Type::empty(), found: Type::empty() })
    );
}

#[test]
fn unknown_variable_is_an_error() {
    assert_eq!(
        check("fn bad() -> i32 { return y; }").1,
        Err(TypeCheckError::UnknownVariable("y".to_string()))
    );
    assert_eq!(
        check("fn bad(x: i32) -> i32 { return x; return y; }").1,
        Err(TypeCheckError::UnknownVariable("y".to_string()))
    );
    assert_eq!(
        check("fn bad(x: i32) { z; }").1,
        Err(TypeCheckError::UnknownVariable("z".to_string()))
    );
}

#[test]
fn arguments_of_one_function_are_not_in_scope_in_another() {
    assert_eq!(
        check("fn a(x: i32) -> i32 { return x; } fn b() -> i32 { return x; }").1,
        Err(TypeCheckError::UnknownVariable("x".to_string()))
    );
}

#[test]
fn the_first_error_wins() {
    assert_eq!(
        check("fn a() -> i32 { return p; return q; }").1,
        Err(TypeCheckError::UnknownVariable("p".to_string()))
    );
    assert_eq!(
        check("fn a() {} fn b() -> i32 { return q; }").1,
        Err(TypeCheckError::UnableToInferType)
    );
    assert_eq!(
        check("fn a() { return q; }").1,
        Err(TypeCheckError::UnknownVariable("q".to_string()))
    );
}

#[test]
fn of_two_arguments_with_one_name_the_later_counts() {
    let (ast, checked) = check("fn f(x: i32, x: u64) -> i32 { return x; }");
    assert_eq!(checked, Ok(()));
    match &definition(&ast[0]).body.statements[0].kind {
        ExprKind::Return(Some(inner)) => {
            assert_eq!(inner.ty, Some(Type::Number(NumberType::uint64())));
        }
        _ => panic!("Expected Return"),
    }
}

#[test]
fn every_statement_has_a_type_after_the_check() {
    let (ast, checked) =
        check("fn f(x: i32) -> i32 { 1; x; return x; return return 2; 3; } fn g() -> () { return 0; }");
    assert_eq!(checked, Ok(()));
    for top in &ast {
        for statement in &definition(top).body.statements {
            assert!(all_typed(statement));
        }
    }
    let statements = &definition(&ast[0]).body.statements;
    assert_eq!(statements[0].ty, Some(int32()));
    assert_eq!(statements[1].ty, Some(int32()));
    assert_eq!(statements[2].ty, Some(Type::empty()));
    assert_eq!(statements[3].ty, Some(Type::empty()));
    assert_eq!(statements[4].ty, Some(int32()));
}

#[test]
fn a_function_definition_has_the_unit_type() {
    let (ast, checked) = check("fn main() -> i32 { return 0; } fn id(x: i64) -> i64 { return x; }");
    assert_eq!(checked, Ok(()));
    for top in &ast {
        assert_eq!(top.ty, Some(Type::empty()));
        let TopLevelKind::Expr(expr) = &top.kind;
        assert_eq!(expr.ty, Some(Type::empty()));
    }
}

fn every_node_is_typed(expr: &Expr) -> bool {
    expr.ty.is_some()
        && match &expr.kind {
            ExprKind::Return(Some(inner)) => every_node_is_typed(inner),
            ExprKind::FunctionDef(def) => def.body.statements.iter().all(every_node_is_typed),
            _ => true,
        }
}

#[test]
fn every_node_reachable_from_a_top_level_has_a_type() {
    let (ast, checked) = check(
        "fn f(x: i32) -> i32 { 1; return x; x; return return 2; } fn g() -> () { return 0; 7; }",
    );
    assert_eq!(checked, Ok(()));
    for top in &ast {
        assert!(top.ty.is_some());
        let TopLevelKind::Expr(expr) = &top.kind;
        assert!(every_node_is_typed(expr));
    }
    let (untouched, failed) = check("fn f() { return 1; }");
    assert!(failed.is_err());
    assert_eq!(untouched[0].ty, None);
}

#[test]
fn checking_twice_is_checking_once() {
    let (mut ast, checked) = check("fn add(x: i32) -> i32 { 7; return x; } fn main() -> i32 { return 0; }");
    assert_eq!(checked, Ok(()));
    let once = format!("{:?}", ast);
    assert_eq!(TypeChecker::new().type_check(&mut ast), Ok(()));
    assert_eq!(format!("{:?}", ast), once);
}

#[test]
fn a_failed_check_leaves_the_program_as_it_was() {
    let source = "fn ok(x: i32) -> i32 { return x; } fn bad() -> i32 { 1; return y; }";
    let (ast, checked) = check(source);
    assert_eq!(checked, Err(TypeCheckError::UnknownVariable("y".to_string())));
    assert_eq!(ast, parse(source).unwrap());
}

#[test]
fn number_literals_keep_their_tagged_type() {
    let mut ast = parse("fn f() -> i32 { return 5; }").unwrap();
    if let TopLevelKind::Expr(expr) = &mut ast[0].kind {
        if let ExprKind::FunctionDef(def) = &mut expr.kind {
            def.body.statements[0] = Expr::new(
                ExprKind::Return(Some(Box::new(Expr::new(
                    ExprKind::Literal(Literal::Number(NumberLiteral::new(NumberType::uint64(), 5))),
                    0..0,
                )))),
                0..0,
            );
        }
    }
    assert_eq!(TypeChecker::new().type_check(&mut ast), Ok(()));
    match &definition(&ast[0]).body.statements[0].kind {
        ExprKind::Return(Some(inner)) => {
            assert_eq!(inner.ty, Some(Type::Number(NumberType::uint64())));
        }
        _ => panic!("Expected Return"),
    }
    assert_eq!(Literal::Number(NumberLiteral::int32(1)).ty(), int32());
}

#[test]
fn return_without_a_value_has_the_unit_type() {
    let mut ast = parse("fn f() -> i32 { return 5; }").unwrap();
    if let TopLevelKind::Expr(expr) = &mut ast[0].kind {
        if let ExprKind::FunctionDef(def) = &mut expr.kind {
            def.body.statements[0] = Expr::new(ExprKind::Return(None), 0..0);
        }
    }
    assert_eq!(TypeChecker::new().type_check(&mut ast), Ok(()));
    assert_eq!(definition(&ast[0]).body.statements[0].ty, Some(Type::empty()));
}

#[test]
fn a_block_context_holds_the_arguments() {
    assert!(!BlockContext::new().variables.contains_key(&"x".to_string()));
    let function = FunctionContext {
        arguments: vec![("x".to_string(), int32()), ("y".to_string(), Type::empty())],
        return_ty: None,
    };
    let context = BlockContext::of_function(&function);
    assert_eq!(context.variables.get(&"x".to_string()), Some(&int32()));
    assert_eq!(context.variables.get(&"y".to_string()), Some(&Type::empty()));
    assert_eq!(context.variables.get(&"z".to_string()), None);
}
