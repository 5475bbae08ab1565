use crate::backend::ir::expr::{
    expr_model, exprs_model, stmt_model, stmts_model, BinaryOp, CallModel, Expr, ExprModel, Literal,
    LiteralModel, Statement, StatementModel,
};
use crate::backend::ir::expr::{function_model, Function, FunctionModel};
use crate::backend::ir::module::{functions_model, Module, ModuleModel};
use vstd::prelude::*;

verus! {

/// The value of `l op r` in wrapping 64-bit arithmetic. A shift goes by the
/// low six bits of its count. Division by zero has no value.
pub open spec fn fold_value(op: BinaryOp, l: u64, r: u64) -> Option<u64> {
    match op {
        BinaryOp::Add => Some(vstd::wrapping::u64_specs::wrapping_add(l, r)),
        BinaryOp::Sub => Some(vstd::wrapping::u64_specs::wrapping_sub(l, r)),
        BinaryOp::Mul => Some(vstd::wrapping::u64_specs::wrapping_mul(l, r)),
        BinaryOp::Div => if r == 0 {
            None
        } else {
            Some(l / r)
        },
        BinaryOp::Shl => Some(l << (r % 64)),
        BinaryOp::Shr => Some(l >> (r % 64)),
        BinaryOp::And => Some(l & r),
    }
}

/// The literal that a node folds to, where it is an operator on two integer
/// literals that has a value.
pub open spec fn folded_node(e: ExprModel) -> Option<u64> {
    match e {
        ExprModel::Binary { op, left, right } => match (*left, *right) {
            (
                ExprModel::Literal(LiteralModel::Int(l)),
                ExprModel::Literal(LiteralModel::Int(r)),
            ) => fold_value(op, l, r),
            _ => None,
        },
        _ => None,
    }
}

/// The node `op` on two sides, as it stands.
pub open spec fn node_of(op: BinaryOp, left: ExprModel, right: ExprModel) -> ExprModel {
    ExprModel::Binary { op, left: Box::new(left), right: Box::new(right) }
}

/// One visit of constant folding, from the leaves up: both sides of a
/// binary node are visited, and then the node becomes its literal where
/// it folds; a call has each of its arguments visited.
pub open spec fn fold_expr(e: ExprModel) -> ExprModel
    decreases e, 0nat,
{
    match e {
        ExprModel::Binary { op, left, right } => {
            let visited = node_of(op, fold_expr(*left), fold_expr(*right));
            match folded_node(visited) {
                Some(v) => ExprModel::Literal(LiteralModel::Int(v)),
                None => visited,
            }
        },
        ExprModel::Call(c) => ExprModel::Call(
            CallModel { reference: c.reference, arguments: fold_exprs(c.arguments) },
        ),
        _ => e,
    }
}

/// One visit of each expression of a list.
pub open spec fn fold_exprs(s: Seq<ExprModel>) -> Seq<ExprModel>
    decreases s, 1nat,
{
    Seq::new(
        s.len(),
        |i: int|
            if 0 <= i < s.len() {
                fold_expr(s[i])
            } else {
                ExprModel::Literal(LiteralModel::Int(0))
            },
    )
}

/// Whether one visit folds a node of the expression.
pub open spec fn folds(e: ExprModel) -> bool
    decreases e, 0nat,
{
    match e {
        ExprModel::Binary { op, left, right } => folds(*left) || folds(*right) || folded_node(
            node_of(op, fold_expr(*left), fold_expr(*right)),
        ) is Some,
        ExprModel::Call(c) => folds_any(c.arguments, c.arguments.len()),
        _ => false,
    }
}

/// Whether one visit folds a node of one of the first `n` expressions.
pub open spec fn folds_any(s: Seq<ExprModel>, n: nat) -> bool
    decreases s, n,
{
    if n == 0 || n > s.len() {
        false
    } else {
        folds_any(s, (n - 1) as nat) || folds(s[n - 1])
    }
}

/// One visit of the expression of a statement.
pub open spec fn fold_stmt(s: StatementModel) -> StatementModel {
    match s {
        StatementModel::Expr(e) => StatementModel::Expr(fold_expr(e)),
        StatementModel::Return(e) => StatementModel::Return(fold_expr(e)),
    }
}

/// Whether one visit folds a node of the statement.
pub open spec fn folds_stmt(s: StatementModel) -> bool {
    match s {
        StatementModel::Expr(e) => folds(e),
        StatementModel::Return(e) => folds(e),
    }
}

/// One visit of each statement of a body.
pub open spec fn fold_body(b: Seq<StatementModel>) -> Seq<StatementModel> {
    Seq::new(b.len(), |i: int| fold_stmt(b[i]))
}

/// Whether one visit folds a node of one of the first `n` statements.
pub open spec fn folds_body(b: Seq<StatementModel>, n: nat) -> bool
    decreases n,
{
    if n == 0 || n > b.len() {
        false
    } else {
        folds_body(b, (n - 1) as nat) || folds_stmt(b[n - 1])
    }
}

/// The function with its body visited once.
pub open spec fn fold_function(f: FunctionModel) -> FunctionModel {
    FunctionModel { body: fold_body(f.body), ..f }
}

/// The module with the body of each function visited once.
pub open spec fn fold_module(m: ModuleModel) -> ModuleModel {
    ModuleModel {
        types_def: m.types_def,
        functions: Seq::new(m.functions.len(), |i: int| fold_function(m.functions[i])),
    }
}

/// Whether one visit folds a node in one of the first `n` functions.
pub open spec fn folds_functions(fs: Seq<FunctionModel>, n: nat) -> bool
    decreases n,
{
    if n == 0 || n > fs.len() {
        false
    } else {
        folds_functions(fs, (n - 1) as nat) || folds_body(fs[n - 1].body, fs[n - 1].body.len())
    }
}

/// Whether one visit folds a node of the module.
pub open spec fn folds_module(m: ModuleModel) -> bool {
    folds_functions(m.functions, m.functions.len())
}

/// Whether no node of the expression folds.
pub open spec fn settled(e: ExprModel) -> bool
    decreases e, 0nat,
{
    match e {
        ExprModel::Binary { op, left, right } => folded_node(e) is None && settled(*left)
            && settled(*right),
        ExprModel::Call(c) => settled_all(c.arguments, c.arguments.len()),
        _ => true,
    }
}

/// Whether no node of the first `n` expressions folds.
pub open spec fn settled_all(s: Seq<ExprModel>, n: nat) -> bool
    decreases s, n,
{
    if n == 0 || n > s.len() {
        true
    } else {
        settled_all(s, (n - 1) as nat) && settled(s[n - 1])
    }
}

proof fn lemma_folds_any(s: Seq<ExprModel>, n: nat, k: int)
    requires
        0 <= k < n <= s.len(),
        folds(s[k]),
    ensures
        folds_any(s, n),
    decreases n,
{
    if k < n - 1 {
        lemma_folds_any(s, (n - 1) as nat, k);
    }
}

proof fn lemma_folds_some(s: Seq<ExprModel>, n: nat) -> (k: int)
    requires
        n <= s.len(),
        folds_any(s, n),
    ensures
        0 <= k < n,
        folds(s[k]),
    decreases n,
{
    if folds(s[n - 1]) {
        n - 1
    } else {
        lemma_folds_some(s, (n - 1) as nat)
    }
}

proof fn lemma_settled_each(s: Seq<ExprModel>, n: nat, k: int)
    requires
        0 <= k < n <= s.len(),
        settled_all(s, n),
    ensures
        settled(s[k]),
    decreases n,
{
    if k < n - 1 {
        lemma_settled_each(s, (n - 1) as nat, k);
    }
}

proof fn lemma_settled_all(s: Seq<ExprModel>, n: nat)
    requires
        n <= s.len(),
        forall|k: int| 0 <= k < n ==> settled(#[trigger] s[k]),
    ensures
        settled_all(s, n),
    decreases n,
{
    if n > 0 {
        lemma_settled_all(s, (n - 1) as nat);
    }
}

proof fn lemma_folds_none(s: Seq<ExprModel>, n: nat)
    requires
        n <= s.len(),
        forall|k: int| 0 <= k < n ==> !folds(#[trigger] s[k]),
    ensures
        !folds_any(s, n),
    decreases n,
{
    if n > 0 {
        lemma_folds_none(s, (n - 1) as nat);
    }
}

/// A visit leaves an expression of which no node folds.
pub proof fn lemma_fold_settles(e: ExprModel)
    ensures
        settled(fold_expr(e)),
    decreases e,
{
    match e {
        ExprModel::Binary { op, left, right } => {
            lemma_fold_settles(*left);
            lemma_fold_settles(*right);
        },
        ExprModel::Call(c) => {
            let folded = fold_exprs(c.arguments);
            assert forall|k: int| 0 <= k < folded.len() implies settled(#[trigger] folded[k]) by {
                lemma_fold_settles(c.arguments[k]);
            }
            lemma_settled_all(folded, folded.len());
        },
        _ => {},
    }
}

/// Where no node folds, a visit folds nothing and leaves the expression as it is.
pub proof fn lemma_settled_stays(e: ExprModel)
    requires
        settled(e),
    ensures
        fold_expr(e) == e,
        !folds(e),
    decreases e,
{
    match e {
        ExprModel::Binary { op, left, right } => {
            lemma_settled_stays(*left);
            lemma_settled_stays(*right);
            assert(node_of(op, *left, *right) == e);
        },
        ExprModel::Call(c) => {
            assert forall|k: int| 0 <= k < c.arguments.len() implies fold_expr(c.arguments[k])
                == c.arguments[k] && !folds(#[trigger] c.arguments[k]) by {
                lemma_settled_each(c.arguments, c.arguments.len(), k);
                lemma_settled_stays(c.arguments[k]);
            }
            assert(fold_exprs(c.arguments) =~= c.arguments);
            lemma_folds_none(c.arguments, c.arguments.len());
        },
        _ => {},
    }
}

/// A visit that folds nothing leaves the expression as it is.
pub proof fn lemma_fold_unchanged(e: ExprModel)
    requires
        !folds(e),
    ensures
        fold_expr(e) == e,
    decreases e,
{
    match e {
        ExprModel::Binary { op, left, right } => {
            lemma_fold_unchanged(*left);
            lemma_fold_unchanged(*right);
            assert(node_of(op, *left, *right) == e);
        },
        ExprModel::Call(c) => {
            assert forall|k: int| 0 <= k < c.arguments.len() implies fold_expr(c.arguments[k])
                == c.arguments[k] by {
                if folds(c.arguments[k]) {
                    lemma_folds_any(c.arguments, c.arguments.len(), k);
                }
                lemma_fold_unchanged(c.arguments[k]);
            }
            assert(fold_exprs(c.arguments) =~= c.arguments);
        },
        _ => {},
    }
}

/// A visit that folds a node changes the expression.
pub proof fn lemma_fold_changes(e: ExprModel)
    requires
        folds(e),
    ensures
        fold_expr(e) != e,
    decreases e,
{
    match e {
        ExprModel::Binary { op, left, right } => {
            let visited = node_of(op, fold_expr(*left), fold_expr(*right));
            if folded_node(visited) is None {
                if folds(*left) {
                    lemma_fold_changes(*left);
                } else {
                    lemma_fold_changes(*right);
                }
            }
        },
        ExprModel::Call(c) => {
            let k = lemma_folds_some(c.arguments, c.arguments.len());
            lemma_fold_changes(c.arguments[k]);
            assert(fold_exprs(c.arguments)[k] != c.arguments[k]);
        },
        _ => {},
    }
}

/// Folding an expression twice is folding it once, and the second visit
/// folds nothing.
pub proof fn lemma_fold_expr_idempotent(e: ExprModel)
    ensures
        fold_expr(fold_expr(e)) == fold_expr(e),
        !folds(fold_expr(e)),
{
    lemma_fold_settles(e);
    lemma_settled_stays(fold_expr(e));
}

proof fn lemma_body_folds_none(b: Seq<StatementModel>, n: nat)
    requires
        n <= b.len(),
        forall|j: int| 0 <= j < n ==> !folds_stmt(#[trigger] b[j]),
    ensures
        !folds_body(b, n),
    decreases n,
{
    if n > 0 {
        lemma_body_folds_none(b, (n - 1) as nat);
    }
}

proof fn lemma_functions_fold_none(fs: Seq<FunctionModel>, n: nat)
    requires
        n <= fs.len(),
        forall|i: int| 0 <= i < n ==> !folds_body((#[trigger] fs[i]).body, fs[i].body.len()),
    ensures
        !folds_functions(fs, n),
    decreases n,
{
    if n > 0 {
        lemma_functions_fold_none(fs, (n - 1) as nat);
    }
}

/// Folding idempotence: running constant folding twice on a module gives
/// what running it once gives, and the second run folds nothing, so it
/// reports no change.
pub proof fn lemma_folding_idempotent(m: ModuleModel)
    ensures
        fold_module(fold_module(m)) == fold_module(m),
        !folds_module(fold_module(m)),
{
    let once = fold_module(m);
    let twice = fold_module(once);
    assert forall|i: int| 0 <= i < once.functions.len() implies twice.functions[i]
        == once.functions[i] && !folds_body(
        (#[trigger] once.functions[i]).body,
        once.functions[i].body.len(),
    ) by {
        let body = m.functions[i].body;
        let folded = fold_body(body);
        assert(once.functions[i].body == folded);
        assert forall|j: int| 0 <= j < folded.len() implies fold_stmt(folded[j]) == folded[j]
            && !folds_stmt(#[trigger] folded[j]) by {
            match body[j] {
                StatementModel::Expr(e) => {
                    lemma_fold_expr_idempotent(e);
                },
                StatementModel::Return(e) => {
                    lemma_fold_expr_idempotent(e);
                },
            }
        }
        assert(fold_body(folded) =~= folded);
        lemma_body_folds_none(folded, folded.len());
    }
    assert(twice.functions =~= once.functions);
    lemma_functions_fold_none(once.functions, once.functions.len());
}

/// Constant folding: replaces operators on two integer literals by their value.
pub struct ConstantFolding {
    pub changed: bool,
}

/// The value of `l op r`, as [`fold_value`] states it.
pub fn fold_literals(op: BinaryOp, l: u64, r: u64) -> (v: Option<u64>)
    ensures
        v == fold_value(op, l, r),
{
    match op {
        BinaryOp::Add => Some(l.wrapping_add(r)),
        BinaryOp::Sub => Some(l.wrapping_sub(r)),
        BinaryOp::Mul => Some(l.wrapping_mul(r)),
        BinaryOp::Div => if r == 0 {
            None
        } else {
            Some(l / r)
        },
        BinaryOp::Shl => Some(l << (r % 64)),
        BinaryOp::Shr => Some(l >> (r % 64)),
        BinaryOp::And => Some(l & r),
    }
}

/// The literal that the node folds to, if it folds.
fn foldable(expr: &Expr) -> (v: Option<u64>)
    ensures
        v == folded_node(expr@),
{
    proof {
        reveal_with_fuel(expr_model, 2);
    }
    match expr {
        Expr::Binary { op, left, right } => match (&**left, &**right) {
            (Expr::Literal(Literal::Int(l)), Expr::Literal(Literal::Int(r))) => fold_literals(
                *op,
                *l,
                *r,
            ),
            _ => None,
        },
        _ => None,
    }
}

impl ConstantFolding {
    pub fn new() -> (pass: ConstantFolding)
        ensures
            !pass.changed,
    {
        ConstantFolding { changed: false }
    }

    /// Visits an expression from its leaves up, and notes whether a node of
    /// it was folded.
    pub fn visit_expr(&mut self, expr: &mut Expr)
        ensures
            final(expr)@ == fold_expr(old(expr)@),
            final(self).changed == (old(self).changed || folds(old(expr)@)),
        decreases *old(expr),
    {
        let ghost before = *expr;
        match expr {
            Expr::Binary { op, left, right } => {
                self.visit_expr(left);
                self.visit_expr(right);
            },
            Expr::Call(call) => {
                let ghost args = exprs_model(call.arguments);
                let ghost origin = call.arguments@;
                let ghost started = self.changed;
                proof {
                    assert(before@ == ExprModel::Call(call@));
                    assert(call@.arguments == args);
                    assert(call@.reference == call.reference@);
                    assert forall|j: int| 0 <= j < origin.len() implies decreases_to!(before => #[trigger] origin[j]) by {
                        assert(decreases_to!(before => *call));
                        assert(decreases_to!(*call => call.arguments));
                        assert(decreases_to!(call.arguments => call.arguments@[j]));
                    }
                }
                let n = call.arguments.len();
                let mut i: usize = 0;
                while i < n
                    invariant
                        i <= n,
                        n == call.arguments.len(),
                        args.len() == n,
                        origin.len() == n,
                        call.reference == old(expr)->Call_0.reference,
                        forall|j: int|
                            0 <= j < i ==> expr_model(#[trigger] call.arguments@[j]) == fold_expr(
                                args[j],
                            ),
                        forall|j: int| i <= j < n ==> #[trigger] call.arguments@[j] == origin[j],
                        forall|j: int| 0 <= j < n ==> expr_model(#[trigger] origin[j]) == args[j],
                        forall|j: int|
                            0 <= j < n ==> decreases_to!(*old(expr) => #[trigger] origin[j]),
                        self.changed == (started || folds_any(args, i as nat)),
                    decreases n - i,
                {
                    assert(call.arguments@[i as int] == origin[i as int]);
                    self.visit_expr(&mut call.arguments[i]);
                    i += 1;
                }
                proof {
                    assert(exprs_model(call.arguments) =~= fold_exprs(args));
                    assert(call@.arguments == exprs_model(call.arguments));
                    assert(call@.reference == call.reference@);
                }
            },
            _ => {},
        }
        proof {
            let after = *expr;
            if after is Call {
                assert(after@ == ExprModel::Call(after->Call_0@));
            }
        }
        if let Some(v) = foldable(expr) {
            self.changed = true;
            *expr = Expr::Literal(Literal::Int(v));
        }
    }

    /// Visits the expression of a statement.
    pub fn visit_stat(&mut self, stat: &mut Statement)
        ensures
            final(stat)@ == fold_stmt(old(stat)@),
            final(self).changed == (old(self).changed || folds_stmt(old(stat)@)),
    {
        match stat {
            Statement::Expr(expr) => {
                self.visit_expr(expr);
            },
            Statement::Return(expr) => {
                self.visit_expr(expr);
            },
        }
    }

    /// Visits each statement of a body.
    pub fn visit_body(&mut self, body: &mut Vec<Statement>)
        ensures
            stmts_model(*final(body)) == fold_body(stmts_model(*old(body))),
            final(self).changed == (old(self).changed || folds_body(
                stmts_model(*old(body)),
                old(body).len() as nat,
            )),
    {
        let ghost before = stmts_model(*body);
        let ghost started = self.changed;
        let n = body.len();
        let mut j: usize = 0;
        while j < n
            invariant
                j <= n,
                n == body.len(),
                before.len() == n,
                forall|k: int| 0 <= k < j ==> stmt_model(#[trigger] body@[k]) == fold_stmt(before[k]),
                forall|k: int| j <= k < n ==> stmt_model(#[trigger] body@[k]) == before[k],
                self.changed == (started || folds_body(before, j as nat)),
            decreases n - j,
        {
            self.visit_stat(&mut body[j]);
            j += 1;
        }
        assert(stmts_model(*body) =~= fold_body(before));
    }

    /// Folds constants in the body of every function, and says whether a node was folded.
    pub fn run(&mut self, ir: &mut Module) -> (changed: bool)
        ensures
            final(ir)@ == fold_module(old(ir)@),
            changed == folds_module(old(ir)@),
            final(self).changed == changed,
    {
        self.changed = false;
        let ghost before = ir@.functions;
        let n = ir.functions.len();
        let mut i: usize = 0;
        while i < n
            invariant
                i <= n,
                n == ir.functions.len(),
                before.len() == n,
                ir.types_def == old(ir).types_def,
                forall|k: int|
                    0 <= k < i ==> function_model(#[trigger] ir.functions@[k]) == fold_function(
                        before[k],
                    ),
                forall|k: int| i <= k < n ==> function_model(#[trigger] ir.functions@[k]) == before[k],
                self.changed == folds_functions(before, i as nat),
            decreases n - i,
        {
            self.visit_body(&mut ir.functions[i].body);
            i += 1;
        }
        assert(ir@.functions =~= fold_module(old(ir)@).functions);
        self.changed
    }
}

} // verus!
