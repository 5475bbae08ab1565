use crate::backend::ir::expr::{
    expr_model, exprs_model, function_model, stmt_model, stmts_model, BinaryOp, CallModel, Expr,
    ExprModel, FunctionModel, Literal, LiteralModel, Statement, StatementModel,
};
use crate::backend::ir::module::{infer_model, Module, ModuleModel};
use crate::backend::ir::types::{DataType, TypeModel};
use crate::backend::opt::pipeline::math_utils::{
    compute_magic, magic_multiplier, magic_shift, two_to,
};
use vstd::arithmetic::power2::{lemma2_to64, lemma_pow2_pos, lemma_pow2_unfold, pow2};
use vstd::prelude::*;

verus! {

/// The integer literal `v`.
pub open spec fn int_lit(v: u64) -> ExprModel {
    ExprModel::Literal(LiteralModel::Int(v))
}

/// The operator `op` on `l` and `r`.
pub open spec fn binary(op: BinaryOp, l: ExprModel, r: ExprModel) -> ExprModel {
    ExprModel::Binary { op, left: Box::new(l), right: Box::new(r) }
}

/// The largest `p` with `2^p <= n`, and 0 for 0.
pub open spec fn floor_log2(n: nat) -> nat
    decreases n,
{
    if n <= 1 {
        0
    } else {
        1 + floor_log2(n / 2)
    }
}

/// Whether `n` is a power of two.
pub open spec fn power_of_two(n: nat) -> bool {
    n >= 1 && pow2(floor_log2(n)) == n
}

/// The size in bytes of the type of `x`, where that type is an unsigned scalar.
pub open spec fn unsigned_size(x: ExprModel) -> Option<i16> {
    match infer_model(x, None) {
        Some(TypeModel::Scalar { size, signed }) => if signed {
            None
        } else {
            Some(size)
        },
        _ => None,
    }
}

/// Whether the division of a value of `size` bytes by `c` can be written
/// as a multiplication and a shift of 64-bit values: the size is one that a
/// register has, the divisor is no wider than the value, the product of
/// the multiplier and the largest value of that size fits 64 bits, and
/// the shift is below 64. A division that does not meet this is left as
/// it is.
pub open spec fn magic_applies(size: i16, c: u64) -> bool {
    &&& 1 <= size <= 8
    &&& 1 <= c <= two_to((8 * size) as nat)
    &&& (two_to((8 * size) as nat) - 1) * magic_multiplier(c as int, (8 * size) as nat) < two_to(64)
    &&& magic_shift(c as int, (8 * size) as nat) < 64
}

/// `x * c` as a shift plus a smaller multiplication: `(x << p) + x * (c - 2^p)`,
/// with `p` the largest power of two in `c`.
pub open spec fn polynomial(x: ExprModel, c: u64) -> ExprModel {
    let p = floor_log2(c as nat);
    binary(
        BinaryOp::Add,
        binary(BinaryOp::Shl, x, int_lit(p as u64)),
        binary(BinaryOp::Mul, x, int_lit((c - pow2(p)) as u64)),
    )
}

/// `x / c` as a multiplication and a right shift, for `x` of `size` bytes.
pub open spec fn magic_division(x: ExprModel, c: u64, size: i16) -> ExprModel {
    let bits = (8 * size) as nat;
    binary(
        BinaryOp::Shr,
        binary(BinaryOp::Mul, x, int_lit(magic_multiplier(c as int, bits) as u64)),
        int_lit(magic_shift(c as int, bits) as u64),
    )
}

/// Whether `x / c` is rewritten as a multiplication and a shift.
pub open spec fn divides_by_magic(op: BinaryOp, x: ExprModel, c: u64) -> bool {
    &&& op == BinaryOp::Div
    &&& c != 0
    &&& !power_of_two(c as nat)
    &&& unsigned_size(x) matches Some(size)
    &&& magic_applies(size, c)
}

/// What `x op c` is rewritten to, for `x` that is no literal, where a rule applies.
pub open spec fn reduce(op: BinaryOp, x: ExprModel, c: u64) -> Option<ExprModel> {
    match op {
        BinaryOp::Add => if c == 0 {
            Some(x)
        } else {
            None
        },
        BinaryOp::Mul => Some(
            if c == 0 {
                int_lit(0)
            } else if c == 1 {
                x
            } else if power_of_two(c as nat) {
                binary(BinaryOp::Shl, x, int_lit(floor_log2(c as nat) as u64))
            } else {
                polynomial(x, c)
            },
        ),
        BinaryOp::Div => if c == 0 {
            Some(x)
        } else {
            match unsigned_size(x) {
                Some(size) => if power_of_two(c as nat) {
                    Some(binary(BinaryOp::Shr, x, int_lit(floor_log2(c as nat) as u64)))
                } else if magic_applies(size, c) {
                    Some(magic_division(x, c, size))
                } else {
                    None
                },
                None => None,
            }
        },
        _ => None,
    }
}

/// What the node `x op right` is rewritten to: a rule can apply only where
/// `right` is an integer literal and `x` is no literal.
pub open spec fn reduce_node(op: BinaryOp, x: ExprModel, right: ExprModel) -> Option<ExprModel> {
    match right {
        ExprModel::Literal(LiteralModel::Int(c)) => if x is Literal {
            None
        } else {
            reduce(op, x, c)
        },
        _ => None,
    }
}

/// Whether the rewrite of the node `x op right` is a division by multiplication.
pub open spec fn node_uses_magic(op: BinaryOp, x: ExprModel, right: ExprModel) -> bool {
    match right {
        ExprModel::Literal(LiteralModel::Int(c)) => !(x is Literal) && divides_by_magic(op, x, c),
        _ => false,
    }
}

/// The outcome of a visit: what was visited as it is afterwards, the
/// expressions that are not to be rewritten again, and whether a rule was applied.
pub struct Outcome<T> {
    pub value: T,
    pub no_opts: Seq<ExprModel>,
    pub changed: bool,
}

/// One visit of strength reduction. A binary node that is in `no_opts` stays
/// as it is. Of any other, the left side is visited first; then a rule is
/// tried on the node, and where none applies the right side is visited. A
/// division by multiplication is added to `no_opts`. A call has each of its
/// arguments visited, in order.
pub open spec fn strength_expr(e: ExprModel, no_opts: Seq<ExprModel>) -> Outcome<ExprModel>
    decreases e, 0nat,
{
    match e {
        ExprModel::Binary { op, left, right } => if no_opts.contains(e) {
            Outcome { value: e, no_opts, changed: false }
        } else {
            let l = strength_expr(*left, no_opts);
            match reduce_node(op, l.value, *right) {
                Some(reduced) => Outcome {
                    value: reduced,
                    no_opts: if node_uses_magic(op, l.value, *right) {
                        l.no_opts.push(reduced)
                    } else {
                        l.no_opts
                    },
                    changed: true,
                },
                None => {
                    let r = strength_expr(*right, l.no_opts);
                    Outcome {
                        value: binary(op, l.value, r.value),
                        no_opts: r.no_opts,
                        changed: l.changed || r.changed,
                    }
                },
            }
        },
        ExprModel::Call(c) => {
            let a = strength_args(c.arguments, c.arguments.len(), no_opts);
            Outcome {
                value: ExprModel::Call(CallModel { reference: c.reference, arguments: a.value }),
                no_opts: a.no_opts,
                changed: a.changed,
            }
        },
        _ => Outcome { value: e, no_opts, changed: false },
    }
}

/// One visit of the first `n` expressions of a list, in order.
pub open spec fn strength_args(args: Seq<ExprModel>, n: nat, no_opts: Seq<ExprModel>) -> Outcome<Seq<ExprModel>>
    decreases args, n,
{
    if n == 0 || n > args.len() {
        Outcome { value: Seq::empty(), no_opts, changed: false }
    } else {
        let head = strength_args(args, (n - 1) as nat, no_opts);
        let last = strength_expr(args[n - 1], head.no_opts);
        Outcome {
            value: head.value.push(last.value),
            no_opts: last.no_opts,
            changed: head.changed || last.changed,
        }
    }
}

/// One visit of the expression of a statement.
pub open spec fn strength_stmt(s: StatementModel, no_opts: Seq<ExprModel>) -> Outcome<StatementModel> {
    match s {
        StatementModel::Expr(e) => {
            let r = strength_expr(e, no_opts);
            Outcome { value: StatementModel::Expr(r.value), no_opts: r.no_opts, changed: r.changed }
        },
        StatementModel::Return(e) => {
            let r = strength_expr(e, no_opts);
            Outcome { value: StatementModel::Return(r.value), no_opts: r.no_opts, changed: r.changed }
        },
    }
}

/// One visit of the first `n` statements of a body, in order.
pub open spec fn strength_body(b: Seq<StatementModel>, n: nat, no_opts: Seq<ExprModel>) -> Outcome<
    Seq<StatementModel>,
>
    decreases n,
{
    if n == 0 || n > b.len() {
        Outcome { value: Seq::empty(), no_opts, changed: false }
    } else {
        let head = strength_body(b, (n - 1) as nat, no_opts);
        let last = strength_stmt(b[n - 1], head.no_opts);
        Outcome {
            value: head.value.push(last.value),
            no_opts: last.no_opts,
            changed: head.changed || last.changed,
        }
    }
}

/// One visit of the bodies of the first `n` functions, in order.
pub open spec fn strength_functions(fs: Seq<FunctionModel>, n: nat, no_opts: Seq<ExprModel>) -> Outcome<
    Seq<FunctionModel>,
>
    decreases n,
{
    if n == 0 || n > fs.len() {
        Outcome { value: Seq::empty(), no_opts, changed: false }
    } else {
        let head = strength_functions(fs, (n - 1) as nat, no_opts);
        let f = fs[n - 1];
        let last = strength_body(f.body, f.body.len(), head.no_opts);
        Outcome {
            value: head.value.push(FunctionModel { body: last.value, ..f }),
            no_opts: last.no_opts,
            changed: head.changed || last.changed,
        }
    }
}

/// One visit of every function of a module, in the order of its function table.
pub open spec fn strength_module(m: ModuleModel, no_opts: Seq<ExprModel>) -> Outcome<ModuleModel> {
    let r = strength_functions(m.functions, m.functions.len(), no_opts);
    Outcome {
        value: ModuleModel { types_def: m.types_def, functions: r.value },
        no_opts: r.no_opts,
        changed: r.changed,
    }
}

proof fn lemma_floor_log2_bound(n: nat)
    requires
        n >= 1,
    ensures
        pow2(floor_log2(n)) <= n < 2 * pow2(floor_log2(n)),
    decreases n,
{
    lemma2_to64();
    if n > 1 {
        lemma_floor_log2_bound(n / 2);
        lemma_pow2_unfold(floor_log2(n));
    }
}

/// The largest `p` with `2^p <= n`.
pub fn lwbd_pow2(n: u64) -> (p: u32)
    requires
        n >= 1,
    ensures
        p == floor_log2(n as nat),
        p <= 63,
{
    let mut p: u32 = 0;
    let mut v: u64 = n;
    proof {
        lemma2_to64();
        assert(v * pow2(0) == n) by (nonlinear_arith)
            requires
                v == n,
                pow2(0) == 1,
        ;
    }
    while v > 1
        invariant
            v >= 1,
            floor_log2(n as nat) == p + floor_log2(v as nat),
            p <= 63,
            v * pow2(p as nat) <= n,
        decreases v,
    {
        proof {
            lemma_pow2_unfold((p + 1) as nat);
            lemma2_to64();
            assert((v / 2) * (2 * pow2(p as nat)) <= v * pow2(p as nat)) by (nonlinear_arith)
                requires
                    v >= 0,
                    pow2(p as nat) >= 0,
            ;
            if p == 63 {
                lemma_pow2_pos(63);
                assert(pow2(64) == 0x1_0000_0000_0000_0000);
                assert((v / 2) * pow2(64) >= pow2(64)) by (nonlinear_arith)
                    requires
                        v / 2 >= 1,
                        pow2(64) >= 0,
                ;
            }
        }
        v = v / 2;
        p = p + 1;
    }
    p
}

/// `2^p`.
fn two_pow(p: u32) -> (v: u64)
    requires
        p <= 63,
    ensures
        v == pow2(p as nat),
{
    let mut v: u64 = 1;
    let mut i: u32 = 0;
    proof {
        lemma2_to64();
    }
    while i < p
        invariant
            i <= p <= 63,
            v == pow2(i as nat),
        decreases p - i,
    {
        proof {
            lemma_pow2_unfold((i + 1) as nat);
            if i + 1 < 63 {
                vstd::arithmetic::power2::lemma_pow2_strictly_increases((i + 1) as nat, 63);
            }
            lemma2_to64();
            vstd::arithmetic::power2::lemma2_to64_rest();
        }
        v = v * 2;
        i = i + 1;
    }
    v
}

/// Whether `n` is a power of two.
pub fn is_pow2(n: u64) -> (r: bool)
    requires
        n >= 1,
    ensures
        r == power_of_two(n as nat),
{
    two_pow(lwbd_pow2(n)) == n
}

/// Strength reduction: replaces multiplications and divisions by a constant
/// with cheaper operations.
pub struct Strength {
    pub changed: bool,
    pub no_opts: Vec<Expr>,
}

fn literal(v: u64) -> (e: Expr)
    ensures
        e@ == int_lit(v),
{
    Expr::Literal(Literal::Int(v))
}

fn node(op: BinaryOp, l: Expr, r: Expr) -> (e: Expr)
    ensures
        e@ == binary(op, l@, r@),
{
    Expr::Binary { op, left: Box::new(l), right: Box::new(r) }
}

/// The size in bytes of the type of `x`, where that type is an unsigned scalar.
fn unsigned_size_of(x: &Expr) -> (r: Option<i16>)
    ensures
        r == unsigned_size(x@),
{
    match x.infer_type(None) {
        Ok(DataType::Scalar { size, signed }) => if signed {
            None
        } else {
            Some(size)
        },
        _ => None,
    }
}

/// A product of a value from 1 on is no smaller than the other factor.
proof fn lemma_product_bounds(top: int, m: int)
    requires
        top >= 1,
        m >= 0,
    ensures
        m <= top * m,
{
    assert(m <= top * m) by (nonlinear_arith)
        requires
            top >= 1,
            m >= 0,
    ;
}

impl Strength {
    pub fn new() -> (pass: Strength)
        ensures
            !pass.changed,
            pass.no_opts@.len() == 0,
    {
        Strength { changed: false, no_opts: Vec::new() }
    }

    /// `x * target` as a shift plus a smaller multiplication.
    pub fn polynomial_mul_reduction(x: &Expr, target: u64) -> (e: Expr)
        requires
            target >= 1,
        ensures
            e@ == polynomial(x@, target),
    {
        let np2 = lwbd_pow2(target);
        proof {
            lemma_floor_log2_bound(target as nat);
        }
        node(
            BinaryOp::Add,
            node(BinaryOp::Shl, x.duplicate(), literal(np2 as u64)),
            node(BinaryOp::Mul, x.duplicate(), literal(target - two_pow(np2))),
        )
    }

    /// `x / divisor` as a multiplication and a right shift, for `x` of `size` bytes.
    pub fn magic_div_reduction(x: &Expr, divisor: u64, size: i16) -> (e: Expr)
        requires
            magic_applies(size, divisor),
        ensures
            e@ == magic_division(x@, divisor, size),
    {
        let left_bits: u32 = (size as u32) * 8;
        let magic = compute_magic(divisor, left_bits);
        proof {
            lemma2_to64();
            vstd::arithmetic::power2::lemma_pow2_strictly_increases(0, left_bits as nat);
            lemma_product_bounds(two_to(left_bits as nat) - 1, magic.0 as int);
        }
        node(
            BinaryOp::Shr,
            node(BinaryOp::Mul, x.duplicate(), literal(magic.0 as u64)),
            literal(magic.1 as u64),
        )
    }

    /// Whether the division of a value of `size` bytes by `c` can be
    /// written as a multiplication and a shift.
    pub fn magic_fits(size: i16, c: u64) -> (r: bool)
        ensures
            r == magic_applies(size, c),
    {
        if size < 1 || size > 8 || c == 0 {
            return false;
        }
        let bits: u32 = (size as u32) * 8;
        proof {
            lemma2_to64();
            vstd::arithmetic::power2::lemma2_to64_rest();
        }
        if size < 8 {
            let limit: u64 = two_pow(bits);
            if c > limit {
                return false;
            }
        }
        let top: u64 = if size < 8 {
            two_pow(bits) - 1
        } else {
            0xFFFF_FFFF_FFFF_FFFF
        };
        let magic = compute_magic(c, bits);
        proof {
            lemma_product_bounds(top as int, magic.0 as int);
        }
        if magic.1 >= 64 || magic.0 > 0xFFFF_FFFF_FFFF_FFFF {
            return false;
        }
        assert((top as u128) * magic.0 <= 0xFFFF_FFFF_FFFF_FFFF * 0xFFFF_FFFF_FFFF_FFFF) by (nonlinear_arith)
            requires
                top <= 0xFFFF_FFFF_FFFF_FFFF,
                magic.0 <= 0xFFFF_FFFF_FFFF_FFFF,
        ;
        (top as u128) * magic.0 <= 0xFFFF_FFFF_FFFF_FFFF
    }

    /// Whether `expr` is one of the expressions that are not to be rewritten.
    pub fn is_excluded(&self, expr: &Expr) -> (r: bool)
        ensures
            r == exprs_model(self.no_opts).contains(expr@),
    {
        let ghost set = exprs_model(self.no_opts);
        let mut i: usize = 0;
        while i < self.no_opts.len()
            invariant
                i <= self.no_opts.len(),
                set == exprs_model(self.no_opts),
                forall|j: int| 0 <= j < i ==> set[j] != expr@,
            decreases self.no_opts.len() - i,
        {
            if self.no_opts[i].same(expr) {
                assert(set[i as int] == expr@);
                return true;
            }
            i += 1;
        }
        false
    }

    /// What a rule makes of `x op c`, for `x` that is no literal, and
    /// whether it is a division by multiplication.
    pub fn reduce_by_constant(op: BinaryOp, x: &Expr, c: u64) -> (r: Option<(Expr, bool)>)
        ensures
            match reduce(op, x@, c) {
                Some(reduced) => r matches Some(pair) && pair.0@ == reduced && pair.1
                    == divides_by_magic(op, x@, c),
                None => r is None,
            },
    {
        match op {
            BinaryOp::Add => if c == 0 {
                Some((x.duplicate(), false))
            } else {
                None
            },
            BinaryOp::Mul => {
                if c == 0 {
                    Some((literal(0), false))
                } else if c == 1 {
                    Some((x.duplicate(), false))
                } else if is_pow2(c) {
                    Some((node(BinaryOp::Shl, x.duplicate(), literal(lwbd_pow2(c) as u64)), false))
                } else {
                    Some((Strength::polynomial_mul_reduction(x, c), false))
                }
            },
            BinaryOp::Div => {
                if c == 0 {
                    return Some((x.duplicate(), false));
                }
                match unsigned_size_of(x) {
                    Some(size) => {
                        if is_pow2(c) {
                            Some(
                                (
                                    node(BinaryOp::Shr, x.duplicate(), literal(lwbd_pow2(c) as u64)),
                                    false,
                                ),
                            )
                        } else if Strength::magic_fits(size, c) {
                            Some((Strength::magic_div_reduction(x, c, size), true))
                        } else {
                            None
                        }
                    },
                    None => None,
                }
            },
            _ => None,
        }
    }

    /// What a rule makes of the binary node `expr`, and whether it is a
    /// division by multiplication.
    pub fn reduce_binary(expr: &Expr) -> (r: Option<(Expr, bool)>)
        requires
            expr@ is Binary,
        ensures
            ({
                let op = expr@->Binary_op;
                let x = *expr@->Binary_left;
                let right = *expr@->Binary_right;
                match reduce_node(op, x, right) {
                    Some(reduced) => r matches Some(pair) && pair.0@ == reduced && pair.1
                        == node_uses_magic(op, x, right),
                    None => r is None,
                }
            }),
    {
        proof {
            reveal_with_fuel(expr_model, 2);
        }
        match expr {
            Expr::Binary { op, left, right } => match &**right {
                Expr::Literal(Literal::Int(c)) => match &**left {
                    Expr::Literal(_) => None,
                    _ => Strength::reduce_by_constant(*op, left, *c),
                },
                _ => None,
            },
            _ => None,
        }
    }

    /// Visits an expression, and notes whether a rule was applied.
    pub fn visit_expr(&mut self, expr: &mut Expr)
        ensures
            ({
                let r = strength_expr(old(expr)@, exprs_model(old(self).no_opts));
                &&& final(expr)@ == r.value
                &&& exprs_model(final(self).no_opts) == r.no_opts
                &&& final(self).changed == (old(self).changed || r.changed)
            }),
        decreases *old(expr),
    {
        let ghost before = *expr;
        let ghost skip = exprs_model(self.no_opts);
        match expr {
            Expr::Binary { .. } => {
                if self.is_excluded(expr) {
                    return ;
                }
                match expr {
                    Expr::Binary { left, .. } => {
                        self.visit_expr(left);
                    },
                    _ => {},
                }
                let ghost l = strength_expr(*before@->Binary_left, skip);
                assert(expr@ == binary(before@->Binary_op, l.value, *before@->Binary_right));
                match Strength::reduce_binary(expr) {
                    Some((reduced, magic)) => {
                        if magic {
                            let ghost set = exprs_model(self.no_opts);
                            let entry = reduced.duplicate();
                            self.no_opts.push(entry);
                            assert(exprs_model(self.no_opts) =~= set.push(reduced@));
                        }
                        *expr = reduced;
                        self.changed = true;
                    },
                    None => {
                        match expr {
                            Expr::Binary { right, .. } => {
                                self.visit_expr(right);
                            },
                            _ => {},
                        }
                    },
                }
            },
            Expr::Call(call) => {
                let ghost args = exprs_model(call.arguments);
                let ghost origin = call.arguments@;
                let ghost started = self.changed;
                proof {
                    assert(before@ == ExprModel::Call(call@));
                    assert(call@.arguments == args);
                    assert(call@.reference == call.reference@);
                    assert forall|j: int| 0 <= j < origin.len() implies decreases_to!(before => #[trigger] origin[j]) by {
                        assert(decreases_to!(before => *call));
                        assert(decreases_to!(*call => call.arguments));
                        assert(decreases_to!(call.arguments => call.arguments@[j]));
                    }
                }
                let n = call.arguments.len();
                let mut i: usize = 0;
                let ghost done = Seq::<ExprModel>::empty();
                while i < n
                    invariant
                        i <= n,
                        n == call.arguments.len(),
                        args.len() == n,
                        origin.len() == n,
                        call.reference == old(expr)->Call_0.reference,
                        done.len() == i,
                        forall|j: int| 0 <= j < i ==> expr_model(#[trigger] call.arguments@[j]) == done[j],
                        forall|j: int| i <= j < n ==> #[trigger] call.arguments@[j] == origin[j],
                        forall|j: int| 0 <= j < n ==> expr_model(#[trigger] origin[j]) == args[j],
                        forall|j: int|
                            0 <= j < n ==> decreases_to!(*old(expr) => #[trigger] origin[j]),
                        strength_args(args, i as nat, skip) == (Outcome {
                            value: done,
                            no_opts: exprs_model(self.no_opts),
                            changed: strength_args(args, i as nat, skip).changed,
                        }),
                        self.changed == (started || strength_args(args, i as nat, skip).changed),
                    decreases n - i,
                {
                    assert(call.arguments@[i as int] == origin[i as int]);
                    self.visit_expr(&mut call.arguments[i]);
                    proof {
                        done = done.push(expr_model(call.arguments@[i as int]));
                    }
                    i += 1;
                }
                proof {
                    assert(exprs_model(call.arguments) =~= done);
                    assert(call@.arguments == exprs_model(call.arguments));
                    assert(call@.reference == call.reference@);
                }
            },
            _ => {},
        }
        proof {
            let after = *expr;
            if after is Call {
                assert(after@ == ExprModel::Call(after->Call_0@));
            }
        }
    }

    /// Visits the expression of a statement.
    pub fn visit_stat(&mut self, stat: &mut Statement)
        ensures
            ({
                let r = strength_stmt(old(stat)@, exprs_model(old(self).no_opts));
                &&& final(stat)@ == r.value
                &&& exprs_model(final(self).no_opts) == r.no_opts
                &&& final(self).changed == (old(self).changed || r.changed)
            }),
    {
        match stat {
            Statement::Expr(expr) => {
                self.visit_expr(expr);
            },
            Statement::Return(expr) => {
                self.visit_expr(expr);
            },
        }
    }

    /// Visits each statement of a body, in order.
    pub fn visit_body(&mut self, body: &mut Vec<Statement>)
        ensures
            ({
                let r = strength_body(
                    stmts_model(*old(body)),
                    old(body).len() as nat,
                    exprs_model(old(self).no_opts),
                );
                &&& stmts_model(*final(body)) == r.value
                &&& exprs_model(final(self).no_opts) == r.no_opts
                &&& final(self).changed == (old(self).changed || r.changed)
            }),
    {
        let ghost before = stmts_model(*body);
        let ghost skip = exprs_model(self.no_opts);
        let ghost started = self.changed;
        let ghost done = Seq::<StatementModel>::empty();
        let n = body.len();
        let mut j: usize = 0;
        while j < n
            invariant
                j <= n,
                n == body.len(),
                before.len() == n,
                done.len() == j,
                forall|k: int| 0 <= k < j ==> stmt_model(#[trigger] body@[k]) == done[k],
                forall|k: int| j <= k < n ==> stmt_model(#[trigger] body@[k]) == before[k],
                strength_body(before, j as nat, skip) == (Outcome {
                    value: done,
                    no_opts: exprs_model(self.no_opts),
                    changed: strength_body(before, j as nat, skip).changed,
                }),
                self.changed == (started || strength_body(before, j as nat, skip).changed),
            decreases n - j,
        {
            self.visit_stat(&mut body[j]);
            proof {
                done = done.push(stmt_model(body@[j as int]));
            }
            j += 1;
        }
        assert(stmts_model(*body) =~= done);
    }

    /// Reduces the body of every function, and says whether a rule was applied.
    pub fn run(&mut self, ir: &mut Module) -> (changed: bool)
        ensures
            ({
                let r = strength_module(old(ir)@, exprs_model(old(self).no_opts));
                &&& final(ir)@ == r.value
                &&& exprs_model(final(self).no_opts) == r.no_opts
                &&& changed == r.changed
                &&& final(self).changed == changed
            }),
    {
        self.changed = false;
        let ghost before = ir@.functions;
        let ghost skip = exprs_model(self.no_opts);
        let ghost done = Seq::<FunctionModel>::empty();
        let n = ir.functions.len();
        let mut i: usize = 0;
        while i < n
            invariant
                i <= n,
                n == ir.functions.len(),
                before.len() == n,
                done.len() == i,
                ir.types_def == old(ir).types_def,
                forall|k: int| 0 <= k < i ==> function_model(#[trigger] ir.functions@[k]) == done[k],
                forall|k: int| i <= k < n ==> function_model(#[trigger] ir.functions@[k]) == before[k],
                strength_functions(before, i as nat, skip) == (Outcome {
                    value: done,
                    no_opts: exprs_model(self.no_opts),
                    changed: self.changed,
                }),
            decreases n - i,
        {
            self.visit_body(&mut ir.functions[i].body);
            proof {
                done = done.push(function_model(ir.functions@[i as int]));
            }
            i += 1;
        }
        assert(ir@.functions =~= done);
        self.changed
    }

} // impl Strength

} // verus!
