use crate::backend::ir::expr::{exprs_model, ExprModel};
use crate::backend::ir::module::{Module, ModuleModel};
use crate::backend::opt::pipeline::dead_code::{drops_module, prune_module, DeadCode};
use crate::backend::opt::pipeline::folding::{fold_module, folds_module, ConstantFolding};
use crate::backend::opt::pipeline::strength::{strength_module, Strength};
use vstd::prelude::*;

pub mod pipeline;

verus! {

/// The number of rounds after which the pass manager stops, converged or not.
pub const MAX_ITERATIONS: usize = 10;

/// What a pass is, as far as its effect goes: its kind, and for strength
/// reduction the expressions that it will not rewrite again.
pub enum PassModel {
    Folding,
    DeadCode,
    Strength { no_opts: Seq<ExprModel> },
}

/// What one run of a pass leaves: the pass, the module, and whether the module was changed.
pub struct Step {
    pub pass: PassModel,
    pub module: ModuleModel,
    pub changed: bool,
}

/// One run of a pass on a module.
pub open spec fn step(pass: PassModel, m: ModuleModel) -> Step {
    match pass {
        PassModel::Folding => Step { pass, module: fold_module(m), changed: folds_module(m) },
        PassModel::DeadCode => Step { pass, module: prune_module(m), changed: drops_module(m) },
        PassModel::Strength { no_opts } => {
            let r = strength_module(m, no_opts);
            Step {
                pass: PassModel::Strength { no_opts: r.no_opts },
                module: r.value,
                changed: r.changed,
            }
        },
    }
}

/// A pass of the closed set that the pass manager runs.
pub enum Pass {
    Folding(ConstantFolding),
    DeadCode(DeadCode),
    Strength(Strength),
}

impl View for Pass {
    type V = PassModel;

    open spec fn view(&self) -> PassModel {
        match self {
            Pass::Folding(_) => PassModel::Folding,
            Pass::DeadCode(_) => PassModel::DeadCode,
            Pass::Strength(s) => PassModel::Strength { no_opts: exprs_model(s.no_opts) },
        }
    }
}

/// A rewrite of the module that reports whether it changed anything.
pub trait OptimizationPass: Sized {
    /// What the pass is, as far as its effect goes.
    spec fn model(&self) -> PassModel;

    /// Applies the pass to the module. Returns `true` if the module was modified.
    fn run(&mut self, ir: &mut Module) -> (changed: bool)
        ensures
            step(old(self).model(), old(ir)@) == (Step {
                pass: final(self).model(),
                module: final(ir)@,
                changed,
            }),
    ;

    /// The pass as a member of the closed set.
    fn into_pass(self) -> (pass: Pass)
        ensures
            pass@ == self.model(),
    ;
}

impl OptimizationPass for ConstantFolding {
    open spec fn model(&self) -> PassModel {
        PassModel::Folding
    }

    fn run(&mut self, ir: &mut Module) -> (changed: bool) {
        ConstantFolding::run(self, ir)
    }

    /// The folding pass itself, as a member of the closed set.
    fn into_pass(self) -> (pass: Pass)
        ensures
            pass == Pass::Folding(self),
    {
        Pass::Folding(self)
    }
}

impl OptimizationPass for DeadCode {
    open spec fn model(&self) -> PassModel {
        PassModel::DeadCode
    }

    fn run(&mut self, ir: &mut Module) -> (changed: bool) {
        DeadCode::run(self, ir)
    }

    /// The dead code pass itself, as a member of the closed set.
    fn into_pass(self) -> (pass: Pass)
        ensures
            pass == Pass::DeadCode(self),
    {
        Pass::DeadCode(self)
    }
}

impl OptimizationPass for Strength {
    open spec fn model(&self) -> PassModel {
        PassModel::Strength { no_opts: exprs_model(self.no_opts) }
    }

    fn run(&mut self, ir: &mut Module) -> (changed: bool) {
        Strength::run(self, ir)
    }

    fn into_pass(self) -> (pass: Pass) {
        Pass::Strength(self)
    }
}

impl OptimizationPass for Pass {
    open spec fn model(&self) -> PassModel {
        self@
    }

    fn run(&mut self, ir: &mut Module) -> (changed: bool) {
        match self {
            Pass::Folding(p) => ConstantFolding::run(p, ir),
            Pass::DeadCode(p) => DeadCode::run(p, ir),
            Pass::Strength(p) => Strength::run(p, ir),
        }
    }

    fn into_pass(self) -> (pass: Pass) {
        self
    }
}

/// What a round leaves: the passes, the module, and whether a pass changed the module.
pub struct Round {
    pub passes: Seq<PassModel>,
    pub module: ModuleModel,
    pub changed: bool,
}

/// One run of each of the first `n` passes, in order, each on what the one before left.
pub open spec fn round(passes: Seq<PassModel>, n: nat, m: ModuleModel) -> Round
    decreases n,
{
    if n == 0 || n > passes.len() {
        Round { passes, module: m, changed: false }
    } else {
        let head = round(passes, (n - 1) as nat, m);
        let last = step(passes[n - 1], head.module);
        Round {
            passes: head.passes.update(n - 1, last.pass),
            module: last.module,
            changed: head.changed || last.changed,
        }
    }
}

/// What the rounds leave: the passes, the module, and how many rounds were run.
pub struct Run {
    pub passes: Seq<PassModel>,
    pub module: ModuleModel,
    pub rounds: nat,
}

/// Rounds until one changes nothing, and `budget` rounds at most.
pub open spec fn run_rounds(passes: Seq<PassModel>, m: ModuleModel, budget: nat) -> Run
    decreases budget,
{
    if budget == 0 {
        Run { passes, module: m, rounds: 0 }
    } else {
        let first = round(passes, passes.len(), m);
        if !first.changed {
            Run { passes: first.passes, module: first.module, rounds: 1 }
        } else {
            let rest = run_rounds(first.passes, first.module, (budget - 1) as nat);
            Run { passes: rest.passes, module: rest.module, rounds: rest.rounds + 1 }
        }
    }
}

/// No more rounds are run than the budget allows, whatever the passes are.
pub proof fn lemma_rounds_bounded(passes: Seq<PassModel>, m: ModuleModel, budget: nat)
    ensures
        run_rounds(passes, m, budget).rounds <= budget,
    decreases budget,
{
    if budget > 0 {
        let first = round(passes, passes.len(), m);
        if first.changed {
            lemma_rounds_bounded(first.passes, first.module, (budget - 1) as nat);
        }
    }
}

/// The models of a list of passes, in order.
pub open spec fn passes_model(v: Vec<Pass>) -> Seq<PassModel> {
    Seq::new(v@.len(), |i: int| v@[i]@)
}

/// Runs its passes round after round until the module stops changing.
pub struct PassManager {
    passes: Vec<Pass>,
}

impl PassManager {
    /// The passes, in the order in which they were added.
    pub closed spec fn passes(&self) -> Seq<PassModel> {
        passes_model(self.passes)
    }

    /// A manager without passes.
    pub fn new() -> (manager: PassManager)
        ensures
            manager.passes() == Seq::<PassModel>::empty(),
    {
        let manager = PassManager { passes: Vec::new() };
        assert(manager.passes() =~= Seq::<PassModel>::empty());
        manager
    }

    /// Adds a pass behind those that are there.
    pub fn add_pass<P: OptimizationPass>(&mut self, pass: P)
        ensures
            final(self).passes() == old(self).passes().push(pass.model()),
    {
        let member = pass.into_pass();
        self.passes.push(member);
        assert(self.passes() =~= old(self).passes().push(pass.model()));
    }

    /// Runs every pass once per round, until a round changes nothing or
    /// `MAX_ITERATIONS` rounds have been run.
    pub fn run_all(&mut self, ir: &mut Module)
        ensures
            ({
                let run = run_rounds(old(self).passes(), old(ir)@, MAX_ITERATIONS as nat);
                &&& final(ir)@ == run.module
                &&& final(self).passes() == run.passes
                &&& run.rounds <= MAX_ITERATIONS
            }),
    {
        proof {
            lemma_rounds_bounded(self.passes(), ir@, MAX_ITERATIONS as nat);
        }
        let mut left: usize = MAX_ITERATIONS;
        while left > 0
            invariant_except_break
                run_rounds(old(self).passes(), old(ir)@, MAX_ITERATIONS as nat).module == run_rounds(
                    self.passes(),
                    ir@,
                    left as nat,
                ).module,
                run_rounds(old(self).passes(), old(ir)@, MAX_ITERATIONS as nat).passes == run_rounds(
                    self.passes(),
                    ir@,
                    left as nat,
                ).passes,
            ensures
                run_rounds(old(self).passes(), old(ir)@, MAX_ITERATIONS as nat).module == ir@,
                run_rounds(old(self).passes(), old(ir)@, MAX_ITERATIONS as nat).passes
                    == self.passes(),
            decreases left,
        {
            let ghost start = self.passes();
            let ghost module = ir@;
            let mut changed = false;
            let n = self.passes.len();
            let mut i: usize = 0;
            while i < n
                invariant
                    i <= n,
                    n == self.passes.len(),
                    start.len() == n,
                    round(start, i as nat, module) == (Round {
                        passes: self.passes(),
                        module: ir@,
                        changed,
                    }),
                decreases n - i,
            {
                let ghost head = self.passes();
                let pass_changed = self.passes[i].run(ir);
                changed = changed || pass_changed;
                assert(self.passes() =~= head.update(i as int, self.passes@[i as int]@));
                assert(head[i as int] == start[i as int]) by {
                    lemma_round_keeps_rest(start, i as nat, module, i as int);
                }
                i += 1;
            }
            left = left - 1;
            if !changed {
                break;
            }
        }
    }
}

/// A round leaves the passes that it has not run as they were.
pub proof fn lemma_round_keeps_rest(passes: Seq<PassModel>, n: nat, m: ModuleModel, k: int)
    requires
        n <= k < passes.len(),
    ensures
        round(passes, n, m).passes[k] == passes[k],
        round(passes, n, m).passes.len() == passes.len(),
    decreases n,
{
    if n > 0 {
        lemma_round_keeps_rest(passes, (n - 1) as nat, m, k);
    }
}

} // verus!
