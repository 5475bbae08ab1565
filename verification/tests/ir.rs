use wind::backend::ir::flags::{FunctionModifer, NO_MANGLE};
use wind::backend::ir::helper::{hash, mangle, symbol_for};
use wind::backend::ir::{BinaryOp, DataType, Expr, Function, Literal, Module, Reference, Statement};
use wind::reporter::comp::CompilerError;

fn i32_type() -> DataType {
    DataType::Scalar { size: 4, signed: true }
}

fn local(offset: i16, v_type: DataType) -> Expr {
    Expr::Reference(Reference::Local { offset, v_type })
}

fn lit(v: u64) -> Expr {
    Expr::Literal(Literal::Int(v))
}

fn binary(op: BinaryOp, left: Expr, right: Expr) -> Expr {
    Expr::Binary { op, left: Box::new(left), right: Box::new(right) }
}

#[test]
fn tree_initialization() {
    let mut tree = Module::new();
    let _ = tree.push(Function::new(
        "add".to_string(),
        vec![
            ("a".to_string(), tree.resolve_type("i32".to_string()).unwrap()),
            ("b".to_string(), tree.resolve_type("i32".to_string()).unwrap()),
        ],
        tree.resolve_type("i32".to_string()).unwrap(),
        0,
        vec![Statement::Return(binary(
            BinaryOp::Add,
            local(4, tree.resolve_type("i32".to_string()).unwrap()),
            local(8, tree.resolve_type("i32".to_string()).unwrap()),
        ))],
    ));
    let t_fn_call = tree.resolve_call("add".to_string(), vec![lit(5), lit(3)]);
    assert!(t_fn_call.is_ok());
    let _ = tree.push(Function::new(
        "main".to_string(),
        vec![],
        tree.resolve_type("i32".to_string()).unwrap(),
        FunctionModifer::NoMangle.bits(),
        vec![Statement::Expr(t_fn_call.unwrap())],
    ));
}

#[test]
fn ir_tree_initialization() {
    let mut tree = Module::new();
    let _ = tree.push(Function::new(
        "add".to_string(),
        vec![("a".to_string(), i32_type()), ("b".to_string(), i32_type())],
        i32_type(),
        0,
        vec![],
    ));
    let _ = tree.push(Function::new(
        "main".to_string(),
        vec![],
        i32_type(),
        FunctionModifer::NoMangle.bits(),
        vec![],
    ));
    println!("{:#?}", tree);
    assert_eq!(tree.functions.len(), 2);
}

#[test]
fn types_have_their_canonical_text() {
    assert_eq!(i32_type().to_string(), "i32");
    assert_eq!(DataType::Scalar { size: 0, signed: false }.to_string(), "void");
    assert_eq!(DataType::Scalar { size: 8, signed: false }.to_string(), "u64");
    let byte = DataType::Scalar { size: 1, signed: false };
    assert_eq!(DataType::Pointer { target: Box::new(byte.clone()) }.to_string(), "*u8");
    assert_eq!(DataType::Array { target: Box::new(i32_type()), capacity: 4 }.to_string(), "[i32; 4]");
    let pair = DataType::Struct {
        path: "pair".to_string(),
        fields: vec![("a".to_string(), i32_type()), ("b".to_string(), byte)],
    };
    assert_eq!(pair.to_string(), "struct pair {\n    a: i32,\n    b: u8,\n}");
}

#[test]
fn types_compare_by_structure() {
    let a = DataType::Pointer { target: Box::new(i32_type()) };
    let b = DataType::Pointer { target: Box::new(i32_type()) };
    let c = DataType::Pointer { target: Box::new(DataType::Scalar { size: 4, signed: false }) };
    assert!(a == b);
    assert!(a != c);
    assert!(a.clone() == a);
    let left = DataType::Struct { path: "s".to_string(), fields: vec![("x".to_string(), i32_type())] };
    let right = DataType::Struct { path: "s".to_string(), fields: vec![("y".to_string(), i32_type())] };
    assert!(left != right);
    assert!(left.clone() == left);
}

#[test]
fn signature_lists_argument_types_and_return_type() {
    assert_eq!(mangle("main".to_string(), vec![], i32_type()), "main()->i32");
    assert_eq!(
        mangle(
            "add".to_string(),
            vec![("a".to_string(), i32_type()), ("b".to_string(), DataType::Scalar { size: 1, signed: false })],
            DataType::Scalar { size: 0, signed: false },
        ),
        "add(i32, u8)->void"
    );
}

#[test]
fn link_name_is_plain_or_hashed() {
    let plain = Function::new("main".to_string(), vec![], i32_type(), NO_MANGLE, vec![]);
    assert_eq!(plain.mangled, "main");
    assert_eq!(plain.metadata, "main()->i32");
    let hashed = Function::new("main".to_string(), vec![], i32_type(), 0, vec![]);
    assert_eq!(hashed.metadata, "main()->i32");
    assert_eq!(hashed.mangled, hash("main()->i32".to_string()));
    assert!(hashed.mangled.starts_with("func_"));
    assert_eq!(
        hashed.mangled,
        format!("func_{:x}", xxhash_rust::xxh3::xxh3_64("main()->i32".as_bytes()))
    );
    // a different signature gives a different name
    let other = Function::new("main".to_string(), vec![("a".to_string(), i32_type())], i32_type(), 0, vec![]);
    assert_ne!(other.mangled, hashed.mangled);
}

#[test]
fn symbol_is_prefix_and_lower_case_hex() {
    assert_eq!(symbol_for(0), "func_0");
    assert_eq!(symbol_for(0xABCDEF), "func_abcdef");
    assert_eq!(symbol_for(u64::MAX), "func_ffffffffffffffff");
}

#[test]
fn modifier_is_read_from_its_keyword() {
    assert_eq!(FunctionModifer::from_str("no_mangle"), Some(FunctionModifer::NoMangle));
    assert_eq!(FunctionModifer::from_str("No_Mangle"), None);
    assert_eq!(FunctionModifer::from_str(""), None);
    assert_eq!(FunctionModifer::NoMangle.bits(), 1);
}

#[test]
fn builtin_types_resolve_and_others_do_not() {
    let tree = Module::new();
    assert_eq!(tree.resolve_type("void".to_string()).unwrap(), DataType::Scalar { size: 0, signed: false });
    assert_eq!(tree.resolve_type("i8".to_string()).unwrap(), DataType::Scalar { size: 1, signed: true });
    assert_eq!(tree.resolve_type("u16".to_string()).unwrap(), DataType::Scalar { size: 2, signed: false });
    assert_eq!(tree.resolve_type("u64".to_string()).unwrap(), DataType::Scalar { size: 8, signed: false });
    // names are case-sensitive
    match tree.resolve_type("I32".to_string()) {
        Err(CompilerError::TypeNotFound { name }) => assert_eq!(name, "I32"),
        other => panic!("unexpected {:?}", other),
    }
}

#[test]
fn pushing_a_signature_twice_is_an_error() {
    let mut tree = Module::new();
    assert!(tree.push(Function::new("f".to_string(), vec![], i32_type(), 0, vec![])).is_ok());
    let before = tree.clone();
    match tree.push(Function::new("f".to_string(), vec![], i32_type(), 0, vec![Statement::Return(lit(1))])) {
        Err(CompilerError::AlreadyDefinedFunction { name }) => assert_eq!(name, "f()->i32"),
        other => panic!("unexpected {:?}", other),
    }
    assert_eq!(tree, before);
    // an overload with another signature is welcome
    assert!(tree
        .push(Function::new("f".to_string(), vec![("a".to_string(), i32_type())], i32_type(), 0, vec![]))
        .is_ok());
    assert_eq!(tree.functions.len(), 2);
}

#[test]
fn same_link_name_replaces_the_function_in_place() {
    let mut tree = Module::new();
    tree.push(Function::new("f".to_string(), vec![], i32_type(), NO_MANGLE, vec![])).unwrap();
    tree.push(Function::new("g".to_string(), vec![], i32_type(), NO_MANGLE, vec![])).unwrap();
    tree.push(Function::new("f".to_string(), vec![("a".to_string(), i32_type())], i32_type(), NO_MANGLE, vec![]))
        .unwrap();
    assert_eq!(tree.functions.len(), 2);
    assert_eq!(tree.functions[0].metadata, "f(i32)->i32");
    assert_eq!(tree.functions[1].name, "g");
}

#[test]
fn literals_adopt_the_cast_or_their_default() {
    let byte = DataType::Scalar { size: 1, signed: false };
    assert_eq!(lit(1).infer_type(None).unwrap(), i32_type());
    assert_eq!(lit(1).infer_type(Some(byte.clone())).unwrap(), byte);
    assert_eq!(
        Expr::Literal(Literal::Float(1.5f64.to_bits())).infer_type(None).unwrap(),
        DataType::Scalar { size: 8, signed: true }
    );
    assert_eq!(Expr::Literal(Literal::Bool(true)).infer_type(None).unwrap(), byte);
    assert_eq!(
        Expr::Literal(Literal::Str("s".to_string())).infer_type(None).unwrap(),
        DataType::Pointer { target: Box::new(byte.clone()) }
    );
    // a reference keeps its own type, whatever the cast
    assert_eq!(local(4, i32_type()).infer_type(Some(byte)).unwrap(), i32_type());
}

#[test]
fn binary_sides_must_agree() {
    let unsigned = DataType::Scalar { size: 4, signed: false };
    let good = binary(BinaryOp::Add, local(4, i32_type()), lit(1));
    assert_eq!(good.infer_type(None).unwrap(), i32_type());
    let bad = binary(BinaryOp::Add, local(4, unsigned.clone()), lit(1));
    assert!(matches!(bad.infer_type(None), Err(CompilerError::TypeMismatch)));
    // the cast does not reach into a binary expression
    assert!(matches!(bad.infer_type(Some(unsigned)), Err(CompilerError::TypeMismatch)));
    let nested = binary(BinaryOp::Mul, local(4, i32_type()), bad);
    assert!(matches!(nested.infer_type(None), Err(CompilerError::TypeMismatch)));
}

#[test]
fn call_resolves_to_the_first_matching_overload() {
    let byte = DataType::Scalar { size: 1, signed: false };
    let mut tree = Module::new();
    tree.push(Function::new("f".to_string(), vec![("a".to_string(), i32_type())], i32_type(), 0, vec![])).unwrap();
    tree.push(Function::new("f".to_string(), vec![("a".to_string(), byte.clone())], byte.clone(), 0, vec![]))
        .unwrap();
    tree.push(Function::new(
        "f".to_string(),
        vec![("a".to_string(), byte.clone()), ("b".to_string(), byte.clone())],
        DataType::Scalar { size: 0, signed: false },
        0,
        vec![],
    ))
    .unwrap();
    // a literal fits both one-argument overloads; the first declared wins
    let call = tree.resolve_call("f".to_string(), vec![lit(1)]).unwrap();
    assert_eq!(call.infer_type(None).unwrap(), i32_type());
    // a typed reference picks the overload of its type
    let call = tree.resolve_call("f".to_string(), vec![local(4, byte.clone())]).unwrap();
    assert_eq!(call.infer_type(None).unwrap(), byte);
    match &call {
        Expr::Call(c) => {
            assert_eq!(c.reference.metadata, "f(u8)->u8");
            assert_eq!(c.arguments.len(), 1);
        },
        other => panic!("unexpected {:?}", other),
    }
    // the number of arguments decides too
    let call = tree.resolve_call("f".to_string(), vec![lit(1), lit(2)]).unwrap();
    assert_eq!(call.infer_type(None).unwrap(), DataType::Scalar { size: 0, signed: false });
    // no overload takes three arguments, nor a 64-bit reference
    for args in [
        vec![lit(1), lit(2), lit(3)],
        vec![local(4, DataType::Scalar { size: 8, signed: true })],
    ] {
        match tree.resolve_call("f".to_string(), args) {
            Err(CompilerError::FunctionNotFound { name }) => assert_eq!(name, "f"),
            other => panic!("unexpected {:?}", other),
        }
    }
    assert!(matches!(
        tree.resolve_call("g".to_string(), vec![]),
        Err(CompilerError::FunctionNotFound { .. })
    ));
}

#[test]
fn resolved_call_keeps_the_callee_as_it_was() {
    let mut tree = Module::new();
    tree.push(Function::new("f".to_string(), vec![], i32_type(), NO_MANGLE, vec![])).unwrap();
    let call = tree.resolve_call("f".to_string(), vec![]).unwrap();
    // a later function under the same link name does not reach the call
    tree.push(Function::new("f".to_string(), vec![("a".to_string(), i32_type())], i32_type(), NO_MANGLE, vec![]))
        .unwrap();
    match call {
        Expr::Call(c) => assert_eq!(c.reference.metadata, "f()->i32"),
        other => panic!("unexpected {:?}", other),
    }
}
