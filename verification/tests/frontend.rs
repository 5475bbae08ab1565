use wind::frontend::ast::{ASTNode, Body, Expression, Function, Literal, Reference, Return, Statement, Variable};
use wind::usr::CompilationInstance;

fn var(name: &str) -> Expression {
    Expression::VARIABLE(Variable::new(name.to_string()))
}

fn sum(left: Expression, right: Expression) -> Expression {
    Expression::BINARY { left: Box::new(left), right: Box::new(right), op: "+".to_string() }
}

#[test]
fn a_new_run_names_no_files() {
    let instance = CompilationInstance::new();
    assert!(instance.sources.is_empty());
    assert_eq!(instance.output, "");
}

#[test]
fn variables_are_equal_by_name() {
    let a = Variable::new("a".to_string());
    assert_eq!(a.name, "a");
    assert_eq!(a, a.clone());
    assert_ne!(a, Variable::new("b".to_string()));
}

#[test]
fn references_are_equal_by_offset_and_type() {
    let r = Reference::Local { offset: -8, v_type: "i32".to_string() };
    assert_eq!(r, r.clone());
    assert_ne!(r, Reference::Local { offset: -4, v_type: "i32".to_string() });
    assert_ne!(r, Reference::Local { offset: -8, v_type: "u32".to_string() });
}

#[test]
fn constants_are_equal_by_kind_and_value() {
    let items = [
        Literal::INTEGER(1),
        Literal::INTEGER(2),
        Literal::FLOAT("1".to_string()),
        Literal::BOOL(true),
        Literal::BOOL(false),
        Literal::STRING("1".to_string()),
    ];
    for (i, a) in items.iter().enumerate() {
        for (j, b) in items.iter().enumerate() {
            assert_eq!(a == b, i == j);
        }
        assert_eq!(*a, a.clone());
    }
}

#[test]
fn expressions_are_equal_by_structure() {
    let e = sum(sum(var("a"), Expression::LITERAL(Literal::INTEGER(1))), var("b"));
    assert_eq!(e, e.clone());
    assert_ne!(e, sum(var("a"), sum(Expression::LITERAL(Literal::INTEGER(1)), var("b"))));
    assert_ne!(e, sum(sum(var("a"), Expression::LITERAL(Literal::INTEGER(2))), var("b")));
    let minus = Expression::BINARY { left: Box::new(var("a")), right: Box::new(var("b")), op: "-".to_string() };
    assert_ne!(minus, sum(var("a"), var("b")));
    assert_ne!(var("a"), Expression::LITERAL(Literal::STRING("a".to_string())));
    assert_ne!(Statement::EXPRESSION(var("a")), Statement::RETURN(var("a")));
    assert_eq!(Statement::RETURN(e.clone()), Statement::RETURN(e.clone()).clone());
}

#[test]
fn functions_hold_what_they_are_made_of() {
    let f = Function::new(
        "main".to_string(),
        "main(i32)->i32".to_string(),
        vec![("argc".to_string(), "i32".to_string())],
        "i32".to_string(),
        1,
        vec![Statement::RETURN(var("argc"))],
    );
    assert_eq!(f.name, "main");
    assert_eq!(f.metadata, "main(i32)->i32");
    assert_eq!(f.arguments, vec![("argc".to_string(), "i32".to_string())]);
    assert_eq!(f.return_type, "i32");
    assert_eq!(f.flags, 1);
    assert_eq!(f.body, vec![Statement::RETURN(var("argc"))]);
    assert_eq!(f, f.clone());
    let mut g = f.clone();
    g.flags = 0;
    assert_ne!(f, g);
    let mut g = f.clone();
    g.arguments[0].1 = "u32".to_string();
    assert_ne!(f, g);
    let mut g = f.clone();
    g.body.push(Statement::EXPRESSION(var("argc")));
    assert_ne!(f, g);
}

#[test]
fn nodes_are_equal_by_structure() {
    let nothing = Return::new(None);
    assert!(nothing.value.is_none());
    let something = Return::new(Some(ASTNode::EXPRESSION(var("a"))));
    assert_eq!(something.value, Some(Box::new(ASTNode::EXPRESSION(var("a")))));
    assert_ne!(nothing, something);
    assert_eq!(something, something.clone());

    let body = Body::new(vec![ASTNode::RETURN(something.clone()), ASTNode::VARIABLE(Variable::new("v".to_string()))]);
    assert_eq!(body.statements.len(), 2);
    assert!(body.consts_table.is_empty());
    assert_eq!(body, body.clone());
    let mut named = body.clone();
    named.consts_table.push(("k".to_string(), ASTNode::EXPRESSION(var("a"))));
    assert_ne!(body, named);
    assert_eq!(named, named.clone());
    let mut other = named.clone();
    other.consts_table[0].0 = "j".to_string();
    assert_ne!(other, named);

    let nodes = [
        ASTNode::EXPRESSION(var("a")),
        ASTNode::VARIABLE(Variable::new("a".to_string())),
        ASTNode::BODY(body),
        ASTNode::BODY(named),
        ASTNode::RETURN(nothing),
        ASTNode::RETURN(something),
    ];
    for (i, a) in nodes.iter().enumerate() {
        for (j, b) in nodes.iter().enumerate() {
            assert_eq!(a == b, i == j);
        }
        assert_eq!(*a, a.clone());
    }
}
