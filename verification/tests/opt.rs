use wind::backend::ir::flags::FunctionModifer;
use wind::backend::ir::{BinaryOp, DataType, Expr, Function, Literal, Module, Reference, Statement};
use wind::backend::opt::pipeline::dead_code::DeadCode;
use wind::backend::opt::pipeline::folding::{fold_literals, ConstantFolding};
use wind::backend::opt::pipeline::math_utils::compute_magic;
use wind::backend::opt::pipeline::strength::{is_pow2, lwbd_pow2, Strength};
use wind::backend::opt::{OptimizationPass, PassManager};

fn lit(v: u64) -> Expr {
    Expr::Literal(Literal::Int(v))
}

fn binary(op: BinaryOp, left: Expr, right: Expr) -> Expr {
    Expr::Binary { op, left: Box::new(left), right: Box::new(right) }
}

fn local(tree: &Module, name: &str) -> Expr {
    Expr::Reference(Reference::Local { offset: 4, v_type: tree.resolve_type(name.to_string()).unwrap() })
}

fn main_with(tree: &mut Module, body: Vec<Statement>) {
    let _ = tree.push(Function::new(
        "main".to_string(),
        vec![],
        tree.resolve_type("i32".to_string()).unwrap(),
        FunctionModifer::NoMangle.bits(),
        body,
    ));
}

fn module_with(body: Vec<Statement>) -> Module {
    let mut tree = Module::new();
    main_with(&mut tree, body);
    tree
}

fn all_passes() -> PassManager {
    let mut opt = PassManager::new();
    opt.add_pass(ConstantFolding::new());
    opt.add_pass(DeadCode::new());
    opt.add_pass(Strength::new());
    opt
}

#[test]
fn t2_const_fold() {
    let mut tree = module_with(vec![Statement::Return(binary(BinaryOp::Add, lit(5), lit(3)))]);
    let mut opt = PassManager::new();
    opt.add_pass(ConstantFolding::new());
    opt.run_all(&mut tree);
    let expected_tree = module_with(vec![Statement::Return(lit(8))]);
    assert_eq!(tree, expected_tree);
}

#[test]
fn t3_const_fold() {
    // triple term
    let mut tree = module_with(vec![Statement::Return(binary(
        BinaryOp::Add,
        binary(BinaryOp::Add, lit(5), lit(3)),
        lit(2),
    ))]);
    let mut opt = PassManager::new();
    opt.add_pass(ConstantFolding::new());
    opt.run_all(&mut tree);
    let expected_tree = module_with(vec![Statement::Return(lit(10))]);
    assert_eq!(tree, expected_tree);
}

#[test]
fn multi_dead_code() {
    let mut tree = module_with(vec![
        Statement::Expr(binary(BinaryOp::Add, lit(2), lit(3))),
        Statement::Return(binary(BinaryOp::Add, lit(5), lit(3))),
        Statement::Return(binary(BinaryOp::Add, lit(6), lit(1))),
    ]);
    let mut opt = PassManager::new();
    opt.add_pass(ConstantFolding::new());
    opt.add_pass(DeadCode::new());
    opt.run_all(&mut tree);
    let expected_tree = module_with(vec![Statement::Return(lit(8))]);
    assert_eq!(tree, expected_tree);
}

#[test]
fn useless_dead_code() {
    let mut tree = module_with(vec![Statement::Expr(binary(BinaryOp::Add, lit(9), lit(1)))]);
    let mut opt = PassManager::new();
    opt.add_pass(ConstantFolding::new());
    opt.add_pass(DeadCode::new());
    opt.run_all(&mut tree);
    let expected_tree = module_with(vec![]);
    assert_eq!(tree, expected_tree);
}

#[test]
fn mul_reduction() {
    let mut tree = Module::new();
    let body = vec![Statement::Return(binary(BinaryOp::Mul, local(&tree, "i32"), lit(4)))];
    main_with(&mut tree, body);
    all_passes().run_all(&mut tree);
    let mut expected_tree = Module::new();
    let body = vec![Statement::Return(binary(BinaryOp::Shl, local(&expected_tree, "i32"), lit(2)))];
    main_with(&mut expected_tree, body);
    assert_eq!(tree, expected_tree);
}

#[test]
fn zero_mul_reduction() {
    let mut tree = Module::new();
    let body = vec![Statement::Return(binary(BinaryOp::Mul, local(&tree, "i32"), lit(0)))];
    main_with(&mut tree, body);
    all_passes().run_all(&mut tree);
    let expected_tree = module_with(vec![Statement::Return(lit(0))]);
    assert_eq!(tree, expected_tree);
}

#[test]
fn div_reduction() {
    // an unsigned dividend: the division by a power of two becomes a shift
    let mut tree = Module::new();
    let body = vec![Statement::Return(binary(BinaryOp::Div, local(&tree, "u32"), lit(4)))];
    main_with(&mut tree, body);
    all_passes().run_all(&mut tree);
    let mut expected_tree = Module::new();
    let body = vec![Statement::Return(binary(BinaryOp::Shr, local(&expected_tree, "u32"), lit(2)))];
    main_with(&mut expected_tree, body);
    assert_eq!(tree, expected_tree);
}

#[test]
fn signed_division_is_left_alone() {
    for divisor in [4, 7] {
        let mut tree = Module::new();
        let body = vec![Statement::Return(binary(BinaryOp::Div, local(&tree, "i32"), lit(divisor)))];
        main_with(&mut tree, body);
        let expected_tree = tree.clone();
        all_passes().run_all(&mut tree);
        assert_eq!(tree, expected_tree);
    }
}

#[test]
fn odd_mul_reduction() {
    let mut tree = Module::new();
    let body = vec![Statement::Return(binary(BinaryOp::Mul, local(&tree, "i32"), lit(3)))];
    main_with(&mut tree, body);
    all_passes().run_all(&mut tree);
    println!("{:#?}", tree);
    // 3 = 2 + 1: (x << 1) + x * 1, and x * 1 is x
    let mut expected_tree = Module::new();
    let x = local(&expected_tree, "i32");
    let body = vec![Statement::Return(binary(
        BinaryOp::Add,
        binary(BinaryOp::Shl, x.clone(), lit(1)),
        x,
    ))];
    main_with(&mut expected_tree, body);
    assert_eq!(tree, expected_tree);
}

#[test]
fn folding_wraps_at_64_bits() {
    assert_eq!(fold_literals(BinaryOp::Add, u64::MAX, 2), Some(1));
    assert_eq!(fold_literals(BinaryOp::Sub, 0, 1), Some(u64::MAX));
    assert_eq!(fold_literals(BinaryOp::Mul, 1 << 63, 2), Some(0));
    assert_eq!(fold_literals(BinaryOp::Div, 7, 2), Some(3));
    assert_eq!(fold_literals(BinaryOp::Div, 7, 0), None);
    assert_eq!(fold_literals(BinaryOp::Shl, 1, 3), Some(8));
    assert_eq!(fold_literals(BinaryOp::Shl, 1, 64), Some(1));
    assert_eq!(fold_literals(BinaryOp::Shl, u64::MAX, 63), Some(1 << 63));
    assert_eq!(fold_literals(BinaryOp::Shr, 0x100, 4), Some(0x10));
    assert_eq!(fold_literals(BinaryOp::Shr, 0x100, 68), Some(0x10));
    assert_eq!(fold_literals(BinaryOp::And, 0b1100, 0b1010), Some(0b1000));
}

#[test]
fn one_folding_visit_folds_from_the_leaves_up() {
    let mut tree = module_with(vec![Statement::Return(binary(
        BinaryOp::Add,
        binary(BinaryOp::Add, lit(5), lit(3)),
        lit(2),
    ))]);
    let mut pass = ConstantFolding::new();
    assert!(pass.run(&mut tree));
    assert_eq!(tree, module_with(vec![Statement::Return(lit(10))]));
    assert!(!pass.run(&mut tree));
    assert_eq!(tree, module_with(vec![Statement::Return(lit(10))]));
}

#[test]
fn folding_twice_is_folding_once() {
    let x = || local(&Module::new(), "u32");
    let bodies = vec![
        vec![Statement::Return(binary(BinaryOp::Mul, binary(BinaryOp::Sub, lit(9), lit(4)), binary(BinaryOp::Shl, lit(1), lit(3))))],
        vec![Statement::Expr(binary(BinaryOp::Add, x(), binary(BinaryOp::Add, lit(1), lit(2))))],
        vec![Statement::Return(binary(BinaryOp::Div, binary(BinaryOp::Add, lit(1), lit(2)), binary(BinaryOp::Sub, lit(2), lit(2))))],
        vec![Statement::Return(binary(BinaryOp::And, binary(BinaryOp::Add, x(), lit(0)), lit(7))), Statement::Expr(lit(1))],
    ];
    for body in bodies {
        let mut once = module_with(body);
        let mut pass = ConstantFolding::new();
        pass.run(&mut once);
        let mut twice = once.clone();
        assert!(!pass.run(&mut twice));
        assert_eq!(once, twice);
    }
    // sides fold, the division by zero that they leave does not
    let mut tree = module_with(vec![Statement::Return(binary(
        BinaryOp::Div,
        binary(BinaryOp::Add, lit(1), lit(2)),
        binary(BinaryOp::Sub, lit(2), lit(2)),
    ))]);
    assert!(ConstantFolding::new().run(&mut tree));
    assert_eq!(tree, module_with(vec![Statement::Return(binary(BinaryOp::Div, lit(3), lit(0)))]));
}

#[test]
fn folding_twice_is_folding_once_on_flat_arithmetic() {
    let mut once = module_with(vec![
        Statement::Expr(binary(BinaryOp::Mul, lit(6), lit(7))),
        Statement::Return(binary(BinaryOp::Sub, lit(5), lit(3))),
    ]);
    let mut pass = ConstantFolding::new();
    pass.run(&mut once);
    let mut twice = once.clone();
    assert!(!pass.run(&mut twice));
    assert_eq!(once, twice);
    assert_eq!(once, module_with(vec![Statement::Expr(lit(42)), Statement::Return(lit(2))]));
}

#[test]
fn division_by_the_literal_zero_is_not_folded() {
    let mut tree = module_with(vec![Statement::Return(binary(BinaryOp::Div, lit(5), lit(0)))]);
    let expected_tree = tree.clone();
    let mut pass = ConstantFolding::new();
    assert!(!pass.run(&mut tree));
    assert_eq!(tree, expected_tree);
}

#[test]
fn folding_reaches_call_arguments() {
    let mut tree = Module::new();
    let _ = tree.push(Function::new(
        "f".to_string(),
        vec![("a".to_string(), DataType::Scalar { size: 4, signed: true })],
        DataType::Scalar { size: 4, signed: true },
        FunctionModifer::NoMangle.bits(),
        vec![],
    ));
    let call = |arg: Expr| match tree.resolve_call("f".to_string(), vec![lit(0)]).unwrap() {
        Expr::Call(mut c) => {
            c.arguments = vec![arg];
            Expr::Call(c)
        },
        other => other,
    };
    let mut given = tree.clone();
    main_with(&mut given, vec![Statement::Expr(call(binary(BinaryOp::Add, lit(1), lit(2))))]);
    let mut expected_tree = tree.clone();
    main_with(&mut expected_tree, vec![Statement::Expr(call(lit(3)))]);
    let mut pass = ConstantFolding::new();
    assert!(pass.run(&mut given));
    assert_eq!(given, expected_tree);
}

#[test]
fn dead_code_is_cut_after_the_first_return() {
    let tree = Module::new();
    let a = local(&tree, "i32");
    let mut tree = module_with(vec![
        Statement::Expr(binary(BinaryOp::Add, lit(1), lit(2))),
        Statement::Return(a.clone()),
        Statement::Return(lit(7)),
        Statement::Expr(a.clone()),
    ]);
    let mut pass = DeadCode::new();
    assert!(pass.run(&mut tree));
    assert_eq!(tree, module_with(vec![Statement::Return(a.clone())]));
    // nothing is left to drop
    assert!(!pass.run(&mut tree));
    assert_eq!(tree, module_with(vec![Statement::Return(a)]));
}

#[test]
fn references_and_calls_stay_as_statements() {
    let tree = Module::new();
    let a = local(&tree, "i32");
    let mut tree = module_with(vec![
        Statement::Expr(a.clone()),
        Statement::Expr(lit(1)),
        Statement::Expr(a.clone()),
    ]);
    let mut pass = DeadCode::new();
    assert!(pass.run(&mut tree));
    assert_eq!(tree, module_with(vec![Statement::Expr(a.clone()), Statement::Expr(a)]));
}

#[test]
fn pass_manager_stops_after_ten_rounds() {
    // each round of strength reduction takes one bit off a multiplier of 23 ones
    let x = local(&Module::new(), "u64");
    let start = module_with(vec![Statement::Return(binary(BinaryOp::Mul, x, lit(0x7F_FFFF)))]);
    let mut tree = start.clone();
    let mut opt = PassManager::new();
    opt.add_pass(Strength::new());
    opt.run_all(&mut tree);
    // ten rounds by hand leave the same module
    let mut by_hand = start.clone();
    let mut pass = Strength::new();
    for _ in 0..10 {
        assert!(pass.run(&mut by_hand));
    }
    assert_eq!(tree, by_hand);
    // and an eleventh round would go on
    assert!(pass.run(&mut by_hand));
    assert_ne!(tree, by_hand);
    // a chain of additions is folded in one round
    let mut chain = binary(BinaryOp::Add, lit(1), lit(1));
    for _ in 0..11 {
        chain = binary(BinaryOp::Add, chain, lit(1));
    }
    let mut tree = module_with(vec![Statement::Return(chain)]);
    let mut opt = PassManager::new();
    opt.add_pass(ConstantFolding::new());
    opt.run_all(&mut tree);
    assert_eq!(tree, module_with(vec![Statement::Return(lit(13))]));
}

#[test]
fn pass_manager_without_passes_changes_nothing() {
    let mut tree = module_with(vec![Statement::Return(binary(BinaryOp::Add, lit(1), lit(1)))]);
    let expected_tree = tree.clone();
    PassManager::new().run_all(&mut tree);
    assert_eq!(tree, expected_tree);
}

#[test]
fn strength_rules_on_a_constant_right_side() {
    let tree = Module::new();
    let x = local(&tree, "u32");
    let cases = vec![
        (binary(BinaryOp::Add, x.clone(), lit(0)), x.clone()),
        (binary(BinaryOp::Mul, x.clone(), lit(1)), x.clone()),
        (binary(BinaryOp::Mul, x.clone(), lit(0)), lit(0)),
        (binary(BinaryOp::Mul, x.clone(), lit(8)), binary(BinaryOp::Shl, x.clone(), lit(3))),
        (binary(BinaryOp::Div, x.clone(), lit(0)), x.clone()),
        (binary(BinaryOp::Div, x.clone(), lit(1)), binary(BinaryOp::Shr, x.clone(), lit(0))),
        (binary(BinaryOp::Div, x.clone(), lit(16)), binary(BinaryOp::Shr, x.clone(), lit(4))),
        (
            binary(BinaryOp::Mul, x.clone(), lit(10)),
            binary(
                BinaryOp::Add,
                binary(BinaryOp::Shl, x.clone(), lit(3)),
                binary(BinaryOp::Mul, x.clone(), lit(2)),
            ),
        ),
        // no rule: a constant on the left, other operators, a non-zero addend
        (binary(BinaryOp::Mul, lit(4), x.clone()), binary(BinaryOp::Mul, lit(4), x.clone())),
        (binary(BinaryOp::Sub, x.clone(), lit(0)), binary(BinaryOp::Sub, x.clone(), lit(0))),
        (binary(BinaryOp::Add, x.clone(), lit(1)), binary(BinaryOp::Add, x.clone(), lit(1))),
    ];
    for (given, expected) in cases {
        let changes = given != expected;
        let mut tree = module_with(vec![Statement::Return(given)]);
        let mut pass = Strength::new();
        assert_eq!(pass.run(&mut tree), changes);
        assert_eq!(tree, module_with(vec![Statement::Return(expected)]));
    }
}

#[test]
fn unsigned_division_becomes_multiply_and_shift() {
    let tree = Module::new();
    let x = local(&tree, "u32");
    let mut tree = module_with(vec![Statement::Return(binary(BinaryOp::Div, x.clone(), lit(3)))]);
    let mut pass = Strength::new();
    assert!(pass.run(&mut tree));
    let reduced = binary(BinaryOp::Shr, binary(BinaryOp::Mul, x, lit(0xAAAA_AAAB)), lit(33));
    assert_eq!(tree, module_with(vec![Statement::Return(reduced.clone())]));
    // what was rewritten is remembered and left alone
    assert_eq!(pass.no_opts, vec![reduced.clone()]);
    assert!(!pass.run(&mut tree));
    assert_eq!(tree, module_with(vec![Statement::Return(reduced)]));
}

#[test]
fn division_wider_than_the_dividend_is_left_alone() {
    let tree = Module::new();
    let x = local(&tree, "u8");
    let mut tree = module_with(vec![Statement::Return(binary(BinaryOp::Div, x, lit(1000)))]);
    let expected_tree = tree.clone();
    let mut pass = Strength::new();
    assert!(!pass.run(&mut tree));
    assert_eq!(tree, expected_tree);
}

#[test]
fn powers_of_two_and_their_logarithm() {
    assert!(is_pow2(1));
    assert!(is_pow2(2));
    assert!(is_pow2(1 << 63));
    assert!(!is_pow2(3));
    assert!(!is_pow2(u64::MAX));
    assert_eq!(lwbd_pow2(1), 0);
    assert_eq!(lwbd_pow2(2), 1);
    assert_eq!(lwbd_pow2(3), 1);
    assert_eq!(lwbd_pow2(1000), 9);
    assert_eq!(lwbd_pow2(u64::MAX), 63);
}

#[test]
fn magic_numbers_for_known_divisors() {
    assert_eq!(compute_magic(3, 32), (0xAAAA_AAAB, 33));
    assert_eq!(compute_magic(7, 32), (0x1_2492_4925, 35));
    assert_eq!(compute_magic(10, 32), (0xCCCC_CCCD, 35));
    assert_eq!(compute_magic(3, 8), (0xAB, 9));
    assert_eq!(compute_magic(1, 8), (256, 8));
    assert_eq!(compute_magic(255, 8), (129, 15));
    assert_eq!(compute_magic(256, 8), (1, 8));
    assert_eq!(compute_magic(3, 64), (0xAAAA_AAAA_AAAA_AAAB, 65));
    // the multiplier for 7 needs 65 bits
    assert_eq!(compute_magic(7, 64), (0x1_2492_4924_9249_2493, 67));
    assert_eq!(compute_magic(7, 64).0, 21081993227096630419);
    assert_eq!(compute_magic(1, 64), (1 << 64, 64));
}

#[test]
fn magic_division_divides() {
    for bits in [8u32, 16, 32] {
        let top = if bits == 32 { u32::MAX as u64 } else { (1u64 << bits) - 1 };
        for d in (2u64..4000).chain([0xFFFF, 641, 6_700_417]) {
            if d > top || d.is_power_of_two() {
                continue;
            }
            let (m, s) = compute_magic(d, bits);
            let samples = [0, 1, 2, d - 1, d, d + 1, 2 * d - 1, top / 2, top - 1, top];
            for x in samples.into_iter().chain((0..50).map(|k| (k * 0x9E37_79B9u64) % (top + 1))) {
                if x > top {
                    continue;
                }
                assert_eq!(((x as u128 * m as u128) >> s) as u64, x / d, "{} / {} at {} bits", x, d, bits);
            }
        }
    }
    // at 64 bits the product takes up to 129 bits: it is taken in two halves
    for d in (2u64..300).chain([641, 0xFFFF, 6_700_417, u64::MAX / 2, u64::MAX - 1, u64::MAX]) {
        if d.is_power_of_two() {
            continue;
        }
        let (m, s) = compute_magic(d, 64);
        assert!(s >= 64 && m < (1u128 << 65));
        for x in [0u64, 1, d - 1, d, d.wrapping_add(1), u64::MAX / 3, u64::MAX / 2, u64::MAX - 1, u64::MAX] {
            let low = (x as u128) * (m & 0xFFFF_FFFF_FFFF_FFFF);
            let high = (x as u128) * (m >> 64);
            let quotient = (high + (low >> 64)) >> (s - 64);
            assert_eq!(quotient, (x / d) as u128, "{} / {}", x, d);
        }
    }
}

fn value(e: &Expr, x: u64) -> Option<u64> {
    match e {
        Expr::Literal(Literal::Int(v)) => Some(*v),
        Expr::Literal(_) => None,
        Expr::Reference(_) => Some(x),
        Expr::Call(_) => None,
        Expr::Binary { op, left, right } => {
            fold_literals(*op, value(left, x)?, value(right, x)?)
        },
    }
}

fn reduced(e: &Expr) -> Expr {
    let mut tree = module_with(vec![Statement::Return(e.clone())]);
    Strength::new().run(&mut tree);
    match tree.functions.pop().unwrap().body.pop().unwrap() {
        Statement::Return(e) => e,
        Statement::Expr(e) => e,
    }
}

#[test]
fn strength_reduction_keeps_values() {
    let tree = Module::new();
    let samples = |top: u64| {
        let mut xs = vec![0, 1, 2, 3, 7, 8, 255, 256, 1000, top / 3, top / 2, top - 1, top];
        xs.extend((1..40u64).map(|k| k.wrapping_mul(0x9E37_79B9_7F4A_7C15) % (top / 2 + 1) * 2 + k % 2));
        xs.into_iter().filter(move |x| *x <= top)
    };
    // multiplication and addition wrap at 64 bits, whatever the type
    let x = local(&tree, "i64");
    for c in [0u64, 1, 2, 3, 8, 10, 1000, 1 << 40, (1 << 40) + 5, u64::MAX, 1 << 63, (1 << 63) + 1] {
        for op in [BinaryOp::Mul, BinaryOp::Add] {
            let given = binary(op, x.clone(), lit(c));
            let after = reduced(&given);
            for v in samples(u64::MAX) {
                assert_eq!(value(&after, v), value(&given, v), "{:?} by {} at {}", op, c, v);
            }
        }
    }
    // a rewritten operand inside another expression
    let nested = binary(BinaryOp::Sub, binary(BinaryOp::Mul, x.clone(), lit(12)), binary(BinaryOp::Add, x.clone(), lit(0)));
    let after = reduced(&nested);
    assert_ne!(after, nested);
    for v in samples(u64::MAX) {
        assert_eq!(value(&after, v), value(&nested, v));
    }
    // unsigned division by a power of two
    let x = local(&tree, "u64");
    for c in [1u64, 2, 16, 1 << 63] {
        let given = binary(BinaryOp::Div, x.clone(), lit(c));
        let after = reduced(&given);
        assert_ne!(after, given);
        for v in samples(u64::MAX) {
            assert_eq!(value(&after, v), value(&given, v), "/ {} at {}", c, v);
        }
    }
    // unsigned division by multiplication, wherever the product fits 64 bits
    for (name, bits, top) in [("u8", 8u32, 0xFFu64), ("u16", 16, 0xFFFF), ("u32", 32, 0xFFFF_FFFF), ("u64", 64, u64::MAX)] {
        let x = local(&tree, name);
        for c in [3u64, 5, 6, 7, 10, 100, 255, 641, 65535] {
            if c > top {
                continue;
            }
            let given = binary(BinaryOp::Div, x.clone(), lit(c));
            let after = reduced(&given);
            let (m, s) = compute_magic(c, bits);
            let exact = s < 64 && m.checked_mul(top as u128).map_or(false, |p| p <= u64::MAX as u128);
            assert_eq!(Strength::magic_fits((bits / 8) as i16, c), exact);
            if !exact {
                assert_eq!(after, given, "{} / {}", name, c);
                continue;
            }
            assert_eq!(
                after,
                binary(BinaryOp::Shr, binary(BinaryOp::Mul, x.clone(), lit(m as u64)), lit(s as u64))
            );
            for v in samples(top) {
                assert_eq!(value(&after, v), value(&given, v), "{} / {} at {}", name, c, v);
            }
        }
    }
}

#[test]
fn divisions_whose_product_would_wrap_are_left_alone() {
    let tree = Module::new();
    // the multiplier for 7 at 32 bits has 33 bits: large dividends would overflow the 64-bit product
    let given = binary(BinaryOp::Div, local(&tree, "u32"), lit(7));
    assert!(!Strength::magic_fits(4, 7));
    assert_eq!(reduced(&given), given);
    // the multiplier for 3 at 32 bits has 32 bits
    let given = binary(BinaryOp::Div, local(&tree, "u32"), lit(3));
    assert!(Strength::magic_fits(4, 3));
    let after = reduced(&given);
    assert_eq!(
        after,
        binary(BinaryOp::Shr, binary(BinaryOp::Mul, local(&tree, "u32"), lit(0xAAAA_AAAB)), lit(33))
    );
    assert_eq!(value(&after, 0xFFFF_FFFF), Some(0xFFFF_FFFF / 3));
    // at 64 bits no product fits
    let given = binary(BinaryOp::Div, local(&tree, "u64"), lit(7));
    assert!(!Strength::magic_fits(8, 7));
    assert_eq!(reduced(&given), given);
    // and the rule for a zero divisor gives the dividend, where the division has no value
    let by_zero = binary(BinaryOp::Div, local(&tree, "u32"), lit(0));
    assert_eq!(value(&by_zero, 5), None);
    assert_eq!(value(&reduced(&by_zero), 5), Some(5));
}
