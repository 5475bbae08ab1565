use crate::backend::ir::expr::{BinaryOp, ExprModel, FunctionModel, LiteralModel, ReferenceModel};
use crate::backend::opt::pipeline::folding::{fold_expr, fold_exprs, fold_value, folded_node};
use crate::backend::opt::pipeline::math_utils::{
    lemma_magic_division, lemma_magic_multiplier_positive, lemma_magic_shift_bounds,
    magic_multiplier, magic_shift, two_to,
};
use crate::backend::opt::pipeline::strength::{
    binary, divides_by_magic, floor_log2, int_lit, magic_applies, magic_division,
    node_uses_magic, polynomial, power_of_two, reduce, reduce_node, strength_args, strength_expr,
    unsigned_size, Outcome,
};
use vstd::arithmetic::div_mod::{lemma_add_mod_noop, lemma_small_mod};
use vstd::arithmetic::power2::{lemma2_to64, lemma_pow2_pos, lemma_pow2_strictly_increases, pow2};
use vstd::prelude::*;

verus! {

/// What the places and the functions of a program hold while an expression
/// is evaluated: a value for each stack slot, and a result for each call.
pub struct Env {
    pub locals: spec_fn(i16) -> u64,
    pub calls: spec_fn(FunctionModel, Seq<u64>) -> u64,
}

/// The value of an expression, in the 64-bit wrapping arithmetic of constant
/// folding. There is none where a division by zero is reached, or a literal
/// that is no integer.
pub open spec fn eval(e: ExprModel, env: Env) -> Option<u64>
    decreases e, 0nat,
{
    match e {
        ExprModel::Literal(LiteralModel::Int(v)) => Some(v),
        ExprModel::Literal(_) => None,
        ExprModel::Reference(ReferenceModel::Local { offset, .. }) => Some((env.locals)(offset)),
        ExprModel::Call(c) => match eval_all(c.arguments, c.arguments.len(), env) {
            Some(values) => Some((env.calls)(c.reference, values)),
            None => None,
        },
        ExprModel::Binary { op, left, right } => match (eval(*left, env), eval(*right, env)) {
            (Some(l), Some(r)) => fold_value(op, l, r),
            _ => None,
        },
    }
}

/// The values of the first `n` expressions of a list, where each has one.
pub open spec fn eval_all(s: Seq<ExprModel>, n: nat, env: Env) -> Option<Seq<u64>>
    decreases s, n,
{
    if n == 0 || n > s.len() {
        Some(Seq::empty())
    } else {
        match (eval_all(s, (n - 1) as nat, env), eval(s[n - 1], env)) {
            (Some(head), Some(last)) => Some(head.push(last)),
            _ => None,
        }
    }
}

/// A left shift drops the bits that leave the 64: it multiplies by a power
/// of two modulo `2^64`.
pub proof fn lemma_shl_is_wrapping_mul(x: u64, k: u64)
    requires
        k < 64,
    ensures
        x << k == (x * pow2(k as nat)) % 0x1_0000_0000_0000_0000,
{
    let p: u64 = 1u64 << k;
    assert(x << k == ((x * (1u64 << k)) % 0x1_0000_0000_0000_0000) as u64) by (bit_vector)
        requires
            k < 64,
    ;
    vstd::bits::lemma_u64_pow2_no_overflow(k as nat);
    vstd::bits::lemma_u64_shl_is_mul(1, k);
}

/// The largest power of two in a 64-bit value has an exponent below 64.
pub proof fn lemma_floor_log2_small(c: u64)
    requires
        c >= 1,
    ensures
        floor_log2(c as nat) < 64,
        pow2(floor_log2(c as nat)) <= c,
{
    lemma_log2_bound(c as nat);
    lemma2_to64();
    if floor_log2(c as nat) >= 64 {
        if floor_log2(c as nat) > 64 {
            lemma_pow2_strictly_increases(64, floor_log2(c as nat));
        }
    }
}

proof fn lemma_log2_bound(n: nat)
    requires
        n >= 1,
    ensures
        pow2(floor_log2(n)) <= n,
    decreases n,
{
    lemma2_to64();
    if n > 1 {
        lemma_log2_bound(n / 2);
        vstd::arithmetic::power2::lemma_pow2_unfold(floor_log2(n));
    }
}

/// Whether the value of `x` lies in the range of its type, an unsigned
/// scalar.
pub open spec fn in_range(x: ExprModel, env: Env) -> bool {
    &&& unsigned_size(x) matches Some(size)
    &&& eval(x, env) matches Some(v)
    &&& v < two_to((8 * size) as nat)
}

/// A rule keeps the value: where `x op c` has a value and a rule applies to
/// it, what the rule makes of it has the same value. For a division by
/// multiplication the value of `x` must lie in the range of its type.
pub proof fn lemma_reduce_keeps_value(op: BinaryOp, x: ExprModel, c: u64, env: Env)
    requires
        reduce(op, x, c) is Some,
        eval(binary(op, x, int_lit(c)), env) is Some,
        divides_by_magic(op, x, c) ==> in_range(x, env),
    ensures
        eval(reduce(op, x, c)->0, env) == eval(binary(op, x, int_lit(c)), env),
{
    reveal_with_fuel(eval, 3);
    let reduced = reduce(op, x, c)->0;
    let v = eval(x, env)->0;
    assert(eval(x, env) == Some(v));
    assert(eval(binary(op, x, int_lit(c)), env) == fold_value(op, v, c));
    lemma2_to64();
    let modulus = 0x1_0000_0000_0000_0000int;
    match op {
        BinaryOp::Add => {},
        BinaryOp::Mul => {
            if c == 0 {
                assert(v * 0 == 0) by (nonlinear_arith);
            } else if c == 1 {
                assert(v * 1 == v) by (nonlinear_arith);
                lemma_small_mod(v as nat, modulus as nat);
            } else if power_of_two(c as nat) {
                let k = floor_log2(c as nat);
                lemma_floor_log2_small(c);
                lemma_shl_is_wrapping_mul(v, k as u64);
                assert((k as u64) % 64 == k as u64);
                assert(eval(reduced, env) == Some(v << ((k as u64) % 64)));
            } else {
                let k = floor_log2(c as nat);
                lemma_floor_log2_small(c);
                lemma_shl_is_wrapping_mul(v, k as u64);
                assert((k as u64) % 64 == k as u64);
                let rest = (c - pow2(k)) as u64;
                let high = v << ((k as u64) % 64);
                let low = vstd::wrapping::u64_specs::wrapping_mul(v, rest);
                assert(eval(binary(BinaryOp::Shl, x, int_lit(k as u64)), env) == Some(high));
                assert(eval(binary(BinaryOp::Mul, x, int_lit(rest)), env) == Some(low));
                assert(eval(reduced, env) == Some(vstd::wrapping::u64_specs::wrapping_add(high, low)));
                let a = v * pow2(k);
                let b = v * rest;
                assert(high == a % modulus);
                assert(low == b % modulus);
                assert(a + b == v * c) by (nonlinear_arith)
                    requires
                        a == v * pow2(k),
                        b == v * rest,
                        rest == c - pow2(k),
                ;
                assert(a >= 0 && b >= 0) by (nonlinear_arith)
                    requires
                        a == v * pow2(k),
                        b == v * rest,
                        v >= 0,
                        rest >= 0,
                        pow2(k) >= 0,
                ;
                lemma_add_mod_noop(a as int, b as int, modulus);
                if high + low > u64::MAX {
                    assert((high + low) % modulus == high + low - modulus) by {
                        vstd::arithmetic::div_mod::lemma_fundamental_div_mod_converse(
                            high + low,
                            modulus,
                            1,
                            high + low - modulus,
                        );
                    }
                } else {
                    lemma_small_mod((high + low) as nat, modulus as nat);
                }
            }
        },
        BinaryOp::Div => {
            let size = unsigned_size(x)->0;
            if power_of_two(c as nat) {
                let k = floor_log2(c as nat);
                lemma_floor_log2_small(c);
                assert((k as u64) % 64 == k as u64);
                vstd::bits::lemma_u64_shr_is_div(v, k as u64);
            } else {
                let bits = (8 * size) as nat;
                let m = magic_multiplier(c as int, bits);
                let shift = magic_shift(c as int, bits);
                lemma_magic_shift_bounds(c as int, bits);
                lemma_magic_division(c, bits as u32, v);
                lemma_magic_multiplier_positive(c as int, bits);
                assert(v * m <= (two_to(bits) - 1) * m) by (nonlinear_arith)
                    requires
                        0 <= v <= two_to(bits) - 1,
                        m >= 1,
                ;
                assert(m <= (two_to(bits) - 1) * m) by (nonlinear_arith)
                    requires
                        two_to(bits) - 1 >= 1,
                        m >= 1,
                ;
                let narrow = m as u64;
                assert(narrow == m);
                let product = vstd::wrapping::u64_specs::wrapping_mul(v, narrow);
                assert(v * narrow >= 0) by (nonlinear_arith)
                    requires
                        v >= 0,
                        narrow >= 0,
                ;
                lemma_small_mod((v * narrow) as nat, modulus as nat);
                assert(product == v * m);
                assert(eval(binary(BinaryOp::Mul, x, int_lit(narrow)), env) == Some(product));
                assert(((shift as u64) % 64) == shift);
                vstd::bits::lemma_u64_shr_is_div(product, shift as u64);
                assert(eval(reduced, env) == Some(product >> ((shift as u64) % 64)));
            }
        },
        _ => {},
    }
}

/// Whether a visit applies its rules only where they can keep the value:
/// every node that a rule is applied to has a value (so no division by
/// zero is rewritten), and the dividend of every division by
/// multiplication has a value in the range of its type.
pub open spec fn rewrites_exactly(e: ExprModel, no_opts: Seq<ExprModel>, env: Env) -> bool
    decreases e, 0nat,
{
    match e {
        ExprModel::Binary { op, left, right } => no_opts.contains(e) || {
            let l = strength_expr(*left, no_opts);
            &&& rewrites_exactly(*left, no_opts, env)
            &&& match reduce_node(op, l.value, *right) {
                Some(_) => {
                    &&& eval(binary(op, l.value, *right), env) is Some
                    &&& node_uses_magic(op, l.value, *right) ==> in_range(l.value, env)
                },
                None => rewrites_exactly(*right, l.no_opts, env),
            }
        },
        ExprModel::Call(c) => rewrite_all_exactly(c.arguments, c.arguments.len(), no_opts, env),
        _ => true,
    }
}

/// The same of a visit of the first `n` expressions of a list.
pub open spec fn rewrite_all_exactly(
    s: Seq<ExprModel>,
    n: nat,
    no_opts: Seq<ExprModel>,
    env: Env,
) -> bool
    decreases s, n,
{
    if n == 0 || n > s.len() {
        true
    } else {
        rewrite_all_exactly(s, (n - 1) as nat, no_opts, env) && rewrites_exactly(
            s[n - 1],
            strength_args(s, (n - 1) as nat, no_opts).no_opts,
            env,
        )
    }
}

/// Strength reduction keeps the value of an expression: where no division
/// by zero is rewritten and the dividend of every division by
/// multiplication has a value in the range of its type, the expression
/// after the visit has the value that it had before, whatever the places
/// and the calls hold.
pub proof fn lemma_strength_keeps_value(e: ExprModel, no_opts: Seq<ExprModel>, env: Env)
    requires
        rewrites_exactly(e, no_opts, env),
    ensures
        eval(strength_expr(e, no_opts).value, env) == eval(e, env),
    decreases e, 0nat,
{
    match e {
        ExprModel::Binary { op, left, right } => {
            if !no_opts.contains(e) {
                let l = strength_expr(*left, no_opts);
                lemma_strength_keeps_value(*left, no_opts, env);
                match reduce_node(op, l.value, *right) {
                    Some(reduced) => {
                        let c = (*right)->Literal_0->Int_0;
                        assert(*right == int_lit(c));
                        lemma_reduce_keeps_value(op, l.value, c, env);
                    },
                    None => {
                        lemma_strength_keeps_value(*right, l.no_opts, env);
                    },
                }
            }
        },
        ExprModel::Call(c) => {
            lemma_strength_keeps_values(c.arguments, c.arguments.len(), no_opts, env);
        },
        _ => {},
    }
}

/// Strength reduction keeps the values of a list of expressions.
pub proof fn lemma_strength_keeps_values(
    s: Seq<ExprModel>,
    n: nat,
    no_opts: Seq<ExprModel>,
    env: Env,
)
    requires
        n <= s.len(),
        rewrite_all_exactly(s, n, no_opts, env),
    ensures
        strength_args(s, n, no_opts).value.len() == n,
        eval_all(strength_args(s, n, no_opts).value, n, env) == eval_all(s, n, env),
    decreases s, n,
{
    if n > 0 {
        let head = strength_args(s, (n - 1) as nat, no_opts);
        lemma_strength_keeps_values(s, (n - 1) as nat, no_opts, env);
        lemma_strength_keeps_value(s[n - 1], head.no_opts, env);
        let all = strength_args(s, n, no_opts).value;
        lemma_eval_prefix(all, head.value, (n - 1) as nat, env);
    }
}

/// The values of the first `n` expressions depend on those expressions alone.
pub proof fn lemma_eval_prefix(a: Seq<ExprModel>, b: Seq<ExprModel>, n: nat, env: Env)
    requires
        n <= a.len(),
        n <= b.len(),
        forall|k: int| 0 <= k < n ==> a[k] == b[k],
    ensures
        eval_all(a, n, env) == eval_all(b, n, env),
    decreases n,
{
    if n > 0 {
        lemma_eval_prefix(a, b, (n - 1) as nat, env);
    }
}

/// Constant folding keeps the value of an expression, whatever the places
/// and the calls hold.
pub proof fn lemma_fold_keeps_value(e: ExprModel, env: Env)
    ensures
        eval(fold_expr(e), env) == eval(e, env),
    decreases e, 0nat,
{
    reveal_with_fuel(eval, 2);
    match e {
        ExprModel::Binary { op, left, right } => {
            if folded_node(e) is None {
                lemma_fold_keeps_value(*left, env);
                lemma_fold_keeps_value(*right, env);
            }
        },
        ExprModel::Call(c) => {
            lemma_fold_keeps_values(c.arguments, c.arguments.len(), env);
        },
        _ => {},
    }
}

/// Constant folding keeps the values of a list of expressions.
pub proof fn lemma_fold_keeps_values(s: Seq<ExprModel>, n: nat, env: Env)
    requires
        n <= s.len(),
    ensures
        eval_all(fold_exprs(s), n, env) == eval_all(s, n, env),
    decreases s, n,
{
    if n > 0 {
        lemma_fold_keeps_values(s, (n - 1) as nat, env);
        lemma_fold_keeps_value(s[n - 1], env);
    }
}

} // verus!
