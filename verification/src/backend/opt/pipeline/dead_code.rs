use crate::backend::ir::expr::{
    function_model, stmt_model, stmts_model, Expr, ExprModel, FunctionModel, Statement,
    StatementModel,
};
use crate::backend::ir::module::{Module, ModuleModel};
use vstd::prelude::*;

verus! {

/// Whether evaluating the expression for its own sake may have an effect.
/// An operator and a literal have none.
pub open spec fn has_effect(e: ExprModel) -> bool {
    !(e is Binary || e is Literal)
}

/// Whether a statement that is reached has to stay.
pub open spec fn keeps(s: StatementModel) -> bool {
    match s {
        StatementModel::Return(_) => true,
        StatementModel::Expr(e) => has_effect(e),
    }
}

/// The body without its dead code: nothing after the first return, and before
/// it only the statements that have to stay.
pub open spec fn prune(b: Seq<StatementModel>) -> Seq<StatementModel>
    decreases b.len(),
{
    if b.len() == 0 {
        Seq::empty()
    } else if b[0] is Return {
        seq![b[0]]
    } else if keeps(b[0]) {
        seq![b[0]] + prune(b.drop_first())
    } else {
        prune(b.drop_first())
    }
}

/// The function without the dead code of its body.
pub open spec fn prune_function(f: FunctionModel) -> FunctionModel {
    FunctionModel { body: prune(f.body), ..f }
}

/// The module without the dead code of its functions.
pub open spec fn prune_module(m: ModuleModel) -> ModuleModel {
    ModuleModel {
        types_def: m.types_def,
        functions: Seq::new(m.functions.len(), |i: int| prune_function(m.functions[i])),
    }
}

/// Whether a statement is dropped from one of the first `n` functions.
pub open spec fn drops_functions(fs: Seq<FunctionModel>, n: nat) -> bool
    decreases n,
{
    if n == 0 || n > fs.len() {
        false
    } else {
        drops_functions(fs, (n - 1) as nat) || prune(fs[n - 1].body).len() != fs[n - 1].body.len()
    }
}

/// Whether a statement of the module is dropped.
pub open spec fn drops_module(m: ModuleModel) -> bool {
    drops_functions(m.functions, m.functions.len())
}

/// Pruning never makes a body longer.
pub proof fn lemma_prune_shortens(b: Seq<StatementModel>)
    ensures
        prune(b).len() <= b.len(),
    decreases b.len(),
{
    if b.len() > 0 && !(b[0] is Return) {
        lemma_prune_shortens(b.drop_first());
    }
}

/// A body of a statement without effect, a return, another return and one
/// more statement is pruned to the first return alone.
pub proof fn lemma_prune_truncates(
    idle: ExprModel,
    first: ExprModel,
    second: ExprModel,
    last: ExprModel,
)
    requires
        !has_effect(idle),
    ensures
        prune(
            seq![
                StatementModel::Expr(idle),
                StatementModel::Return(first),
                StatementModel::Return(second),
                StatementModel::Expr(last),
            ],
        ) == seq![StatementModel::Return(first)],
{
    let b = seq![
        StatementModel::Expr(idle),
        StatementModel::Return(first),
        StatementModel::Return(second),
        StatementModel::Expr(last),
    ];
    let rest = b.drop_first();
    assert(rest[0] == StatementModel::Return(first));
    assert(prune(rest) == seq![rest[0]]);
    assert(prune(b) == prune(rest));
}

/// What is pruned once has nothing left to prune.
pub proof fn lemma_prune_idempotent(b: Seq<StatementModel>)
    ensures
        prune(prune(b)) == prune(b),
    decreases b.len(),
{
    if b.len() == 0 {
    } else if b[0] is Return {
        let one = seq![b[0]];
        assert(prune(one) == one);
    } else if keeps(b[0]) {
        lemma_prune_idempotent(b.drop_first());
        let kept = seq![b[0]] + prune(b.drop_first());
        assert(kept.drop_first() =~= prune(b.drop_first()));
        assert(kept[0] == b[0]);
    } else {
        lemma_prune_idempotent(b.drop_first());
    }
}

/// Dead code elimination: drops what cannot be reached and what has no effect.
pub struct DeadCode {
    pub changed: bool,
    pub can_die: bool,
    pub has_died: bool,
}

impl DeadCode {
    pub fn new() -> (pass: DeadCode)
        ensures
            !pass.changed,
            pass.can_die,
            !pass.has_died,
    {
        DeadCode { changed: false, can_die: true, has_died: false }
    }

    /// Whether the expression, as a statement of its own, has to stay.
    pub fn visit_expr(&mut self, expr: &Expr) -> (keep: bool)
        ensures
            keep == has_effect(expr@),
            *final(self) == *old(self),
    {
        match expr {
            Expr::Binary { .. } => false,
            Expr::Literal(_) => false,
            _ => true,
        }
    }

    /// Whether the statement has to stay. A return ends the body where the
    /// pass lets code die.
    pub fn visit_stat(&mut self, stat: &Statement) -> (keep: bool)
        ensures
            keep == keeps(stat@),
            final(self).changed == old(self).changed,
            final(self).can_die == old(self).can_die,
            final(self).has_died == (old(self).has_died || (old(self).can_die && stat@ is Return)),
    {
        match stat {
            Statement::Return(_) => {
                if self.can_die {
                    self.has_died = true;
                }
                true
            },
            Statement::Expr(expr) => self.visit_expr(expr),
        }
    }

    /// The body without its dead code.
    pub fn visit_body(&mut self, body: &Vec<Statement>) -> (kept: Vec<Statement>)
        ensures
            stmts_model(kept) == prune(stmts_model(*body)),
            final(self).changed == old(self).changed,
            final(self).can_die,
    {
        let ghost b = stmts_model(*body);
        let mut kept: Vec<Statement> = Vec::new();
        self.has_died = false;
        self.can_die = true;
        let mut i: usize = 0;
        assert(b.skip(0) =~= b);
        while i < body.len() && !self.has_died
            invariant
                i <= body.len(),
                b == stmts_model(*body),
                self.can_die,
                self.changed == old(self).changed,
                !self.has_died ==> prune(b) == stmts_model(kept) + prune(b.skip(i as int)),
                self.has_died ==> prune(b) == stmts_model(kept),
            decreases body.len() - i,
        {
            let ghost rest = b.skip(i as int);
            let ghost so_far = stmts_model(kept);
            assert(rest[0] == stmt_model(body@[i as int]));
            assert(rest.drop_first() =~= b.skip(i + 1));
            if self.visit_stat(&body[i]) {
                kept.push(body[i].duplicate());
                assert(stmts_model(kept) =~= so_far + seq![rest[0]]);
                assert(so_far + (seq![rest[0]] + prune(rest.drop_first())) =~= (so_far + seq![
                    rest[0],
                ]) + prune(rest.drop_first()));
            }
            i += 1;
        }
        assert(prune(b) =~= stmts_model(kept));
        kept
    }

    /// Prunes the body of every function, and says whether a statement was dropped.
    pub fn run(&mut self, ir: &mut Module) -> (changed: bool)
        ensures
            final(ir)@ == prune_module(old(ir)@),
            changed == drops_module(old(ir)@),
            final(self).changed == changed,
    {
        self.changed = false;
        let ghost before = ir@.functions;
        let n = ir.functions.len();
        let mut i: usize = 0;
        while i < n
            invariant
                i <= n,
                n == ir.functions.len(),
                before.len() == n,
                ir.types_def == old(ir).types_def,
                forall|k: int|
                    0 <= k < i ==> function_model(#[trigger] ir.functions@[k]) == prune_function(
                        before[k],
                    ),
                forall|k: int| i <= k < n ==> function_model(#[trigger] ir.functions@[k]) == before[k],
                self.changed == drops_functions(before, i as nat),
            decreases n - i,
        {
            let kept = self.visit_body(&ir.functions[i].body);
            if kept.len() != ir.functions[i].body.len() {
                self.changed = true;
            }
            ir.functions[i].body = kept;
            i += 1;
        }
        assert(ir@.functions =~= prune_module(old(ir)@).functions);
        self.changed
    }
}

} // verus!
