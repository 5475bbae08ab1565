use crate::backend::ir::types::{clone_params, params_model, same_params, DataType, TypeModel};
use vstd::prelude::*;
use vstd::std_specs::cmp::PartialEqSpecImpl;

verus! {

/// A constant. A float is held by the 64 bits of its IEEE 754 form.
#[derive(Debug)]
pub enum Literal {
    Int(u64),
    Float(u64),
    Bool(bool),
    Str(String),
}

pub enum LiteralModel {
    Int(u64),
    Float(u64),
    Bool(bool),
    Str(Seq<char>),
}

impl View for Literal {
    type V = LiteralModel;

    open spec fn view(&self) -> LiteralModel {
        match self {
            Literal::Int(v) => LiteralModel::Int(*v),
            Literal::Float(v) => LiteralModel::Float(*v),
            Literal::Bool(v) => LiteralModel::Bool(*v),
            Literal::Str(s) => LiteralModel::Str(s@),
        }
    }
}

#[derive(Debug, Clone, Copy, PartialEq, Eq, Structural)]
pub enum BinaryOp {
    Add,
    Sub,
    Mul,
    Div,
    Shl,
    Shr,
    And,
}

/// A place that an expression reads: a stack slot at a caller-assigned offset.
#[derive(Debug)]
pub enum Reference {
    Local { offset: i16, v_type: DataType },
}

pub enum ReferenceModel {
    Local { offset: i16, v_type: TypeModel },
}

impl View for Reference {
    type V = ReferenceModel;

    open spec fn view(&self) -> ReferenceModel {
        match self {
            Reference::Local { offset, v_type } => ReferenceModel::Local {
                offset: *offset,
                v_type: v_type@,
            },
        }
    }
}

/// A function: its signature, its link-time name and its straight-line body.
#[derive(Debug)]
pub struct Function {
    pub mangled: String,
    pub metadata: String,
    pub name: String,
    pub arguments: Vec<(String, DataType)>,
    pub return_type: DataType,
    pub flags: u16,
    pub body: Vec<Statement>,
}

/// A call with its callee frozen into the node.
#[derive(Debug)]
pub struct FunctionCall {
    pub reference: Function,
    pub arguments: Vec<Expr>,
}

#[derive(Debug)]
pub enum Expr {
    Literal(Literal),
    Reference(Reference),
    Call(FunctionCall),
    Binary { op: BinaryOp, left: Box<Expr>, right: Box<Expr> },
}

#[derive(Debug)]
pub enum Statement {
    Expr(Expr),
    Return(Expr),
}

pub struct FunctionModel {
    pub mangled: Seq<char>,
    pub metadata: Seq<char>,
    pub name: Seq<char>,
    pub arguments: Seq<(Seq<char>, TypeModel)>,
    pub return_type: TypeModel,
    pub flags: u16,
    pub body: Seq<StatementModel>,
}

pub struct CallModel {
    pub reference: FunctionModel,
    pub arguments: Seq<ExprModel>,
}

pub enum ExprModel {
    Literal(LiteralModel),
    Reference(ReferenceModel),
    Call(CallModel),
    Binary { op: BinaryOp, left: Box<ExprModel>, right: Box<ExprModel> },
}

pub enum StatementModel {
    Expr(ExprModel),
    Return(ExprModel),
}

/// The model of an expression.
pub open spec fn expr_model(e: Expr) -> ExprModel
    decreases e, 1nat,
{
    match e {
        Expr::Literal(l) => ExprModel::Literal(l@),
        Expr::Reference(r) => ExprModel::Reference(r@),
        Expr::Call(c) => ExprModel::Call(call_model(c)),
        Expr::Binary { op, left, right } => ExprModel::Binary {
            op,
            left: Box::new(expr_model(*left)),
            right: Box::new(expr_model(*right)),
        },
    }
}

/// The models of a list of expressions, in order.
pub open spec fn exprs_model(v: Vec<Expr>) -> Seq<ExprModel>
    decreases v, 0nat,
{
    Seq::new(
        v@.len(),
        |i: int|
            if 0 <= i < v@.len() {
                expr_model(v@[i])
            } else {
                ExprModel::Literal(LiteralModel::Int(0))
            },
    )
}

/// The model of a call.
pub open spec fn call_model(c: FunctionCall) -> CallModel
    decreases c, 1nat,
{
    CallModel { reference: function_model(c.reference), arguments: exprs_model(c.arguments) }
}

/// The model of a statement.
pub open spec fn stmt_model(s: Statement) -> StatementModel
    decreases s, 1nat,
{
    match s {
        Statement::Expr(e) => StatementModel::Expr(expr_model(e)),
        Statement::Return(e) => StatementModel::Return(expr_model(e)),
    }
}

/// The models of a list of statements, in order.
pub open spec fn stmts_model(v: Vec<Statement>) -> Seq<StatementModel>
    decreases v, 0nat,
{
    Seq::new(
        v@.len(),
        |i: int|
            if 0 <= i < v@.len() {
                stmt_model(v@[i])
            } else {
                StatementModel::Expr(ExprModel::Literal(LiteralModel::Int(0)))
            },
    )
}

/// The model of a function.
pub open spec fn function_model(f: Function) -> FunctionModel
    decreases f, 1nat,
{
    FunctionModel {
        mangled: f.mangled@,
        metadata: f.metadata@,
        name: f.name@,
        arguments: params_model(f.arguments),
        return_type: f.return_type@,
        flags: f.flags,
        body: stmts_model(f.body),
    }
}

impl View for Expr {
    type V = ExprModel;

    open spec fn view(&self) -> ExprModel {
        expr_model(*self)
    }
}

impl View for Statement {
    type V = StatementModel;

    open spec fn view(&self) -> StatementModel {
        stmt_model(*self)
    }
}

impl View for Function {
    type V = FunctionModel;

    open spec fn view(&self) -> FunctionModel {
        function_model(*self)
    }
}

impl View for FunctionCall {
    type V = CallModel;

    open spec fn view(&self) -> CallModel {
        call_model(*self)
    }
}

impl Literal {
    /// A deep copy.
    pub fn duplicate(&self) -> (r: Literal)
        ensures
            r@ == self@,
    {
        match self {
            Literal::Int(v) => Literal::Int(*v),
            Literal::Float(v) => Literal::Float(*v),
            Literal::Bool(v) => Literal::Bool(*v),
            Literal::Str(s) => Literal::Str(s.clone()),
        }
    }

    /// Structural equality.
    pub fn same(&self, other: &Literal) -> (r: bool)
        ensures
            r == (self@ == other@),
    {
        match (self, other) {
            (Literal::Int(a), Literal::Int(b)) => *a == *b,
            (Literal::Float(a), Literal::Float(b)) => *a == *b,
            (Literal::Bool(a), Literal::Bool(b)) => *a == *b,
            (Literal::Str(a), Literal::Str(b)) => *a == *b,
            _ => false,
        }
    }
}

impl Reference {
    /// A deep copy.
    pub fn duplicate(&self) -> (r: Reference)
        ensures
            r@ == self@,
    {
        match self {
            Reference::Local { offset, v_type } => Reference::Local {
                offset: *offset,
                v_type: v_type.duplicate(),
            },
        }
    }

    /// Structural equality.
    pub fn same(&self, other: &Reference) -> (r: bool)
        ensures
            r == (self@ == other@),
    {
        match (self, other) {
            (
                Reference::Local { offset: o1, v_type: t1 },
                Reference::Local { offset: o2, v_type: t2 },
            ) => *o1 == *o2 && t1.same(t2),
        }
    }
}

/// A copy of a list of expressions.
pub fn clone_exprs(v: &Vec<Expr>) -> (r: Vec<Expr>)
    ensures
        exprs_model(r) == exprs_model(*v),
    decreases *v, 0nat,
{
    let mut out: Vec<Expr> = Vec::new();
    let mut i: usize = 0;
    while i < v.len()
        invariant
            i <= v.len(),
            out.len() == i,
            forall|j: int| 0 <= j < i ==> expr_model(out@[j]) == expr_model(v@[j]),
        decreases v.len() - i,
    {
        let e = v[i].duplicate();
        out.push(e);
        i += 1;
    }
    assert(exprs_model(out) =~= exprs_model(*v));
    out
}

/// A copy of a list of statements.
pub fn clone_stmts(v: &Vec<Statement>) -> (r: Vec<Statement>)
    ensures
        stmts_model(r) == stmts_model(*v),
    decreases *v, 0nat,
{
    let mut out: Vec<Statement> = Vec::new();
    let mut i: usize = 0;
    while i < v.len()
        invariant
            i <= v.len(),
            out.len() == i,
            forall|j: int| 0 <= j < i ==> stmt_model(out@[j]) == stmt_model(v@[j]),
        decreases v.len() - i,
    {
        let s = v[i].duplicate();
        out.push(s);
        i += 1;
    }
    assert(stmts_model(out) =~= stmts_model(*v));
    out
}

/// Whether two lists of expressions are equal, item by item.
pub fn same_exprs(a: &Vec<Expr>, b: &Vec<Expr>) -> (r: bool)
    ensures
        r == (exprs_model(*a) == exprs_model(*b)),
    decreases *a, 0nat,
{
    if a.len() != b.len() {
        assert(exprs_model(*a).len() != exprs_model(*b).len());
        return false;
    }
    let mut i: usize = 0;
    while i < a.len()
        invariant
            i <= a.len(),
            a.len() == b.len(),
            forall|j: int| 0 <= j < i ==> exprs_model(*a)[j] == exprs_model(*b)[j],
        decreases a.len() - i,
    {
        if !a[i].same(&b[i]) {
            assert(exprs_model(*a)[i as int] != exprs_model(*b)[i as int]);
            return false;
        }
        i += 1;
    }
    assert(exprs_model(*a) =~= exprs_model(*b));
    true
}

/// Whether two lists of statements are equal, item by item.
pub fn same_stmts(a: &Vec<Statement>, b: &Vec<Statement>) -> (r: bool)
    ensures
        r == (stmts_model(*a) == stmts_model(*b)),
    decreases *a, 0nat,
{
    if a.len() != b.len() {
        assert(stmts_model(*a).len() != stmts_model(*b).len());
        return false;
    }
    let mut i: usize = 0;
    while i < a.len()
        invariant
            i <= a.len(),
            a.len() == b.len(),
            forall|j: int| 0 <= j < i ==> stmts_model(*a)[j] == stmts_model(*b)[j],
        decreases a.len() - i,
    {
        if !a[i].same(&b[i]) {
            assert(stmts_model(*a)[i as int] != stmts_model(*b)[i as int]);
            return false;
        }
        i += 1;
    }
    assert(stmts_model(*a) =~= stmts_model(*b));
    true
}

impl Expr {
    /// A deep copy.
    pub fn duplicate(&self) -> (r: Expr)
        ensures
            r@ == self@,
        decreases *self, 1nat,
    {
        match self {
            Expr::Literal(l) => Expr::Literal(l.duplicate()),
            Expr::Reference(r) => Expr::Reference(r.duplicate()),
            Expr::Call(c) => Expr::Call(c.duplicate()),
            Expr::Binary { op, left, right } => Expr::Binary {
                op: *op,
                left: Box::new(left.duplicate()),
                right: Box::new(right.duplicate()),
            },
        }
    }

    /// Structural equality.
    pub fn same(&self, other: &Expr) -> (r: bool)
        ensures
            r == (self@ == other@),
        decreases *self, 1nat,
    {
        match (self, other) {
            (Expr::Literal(a), Expr::Literal(b)) => a.same(b),
            (Expr::Reference(a), Expr::Reference(b)) => a.same(b),
            (Expr::Call(a), Expr::Call(b)) => a.same(b),
            (
                Expr::Binary { op: o1, left: l1, right: r1 },
                Expr::Binary { op: o2, left: l2, right: r2 },
            ) => *o1 == *o2 && l1.same(l2) && r1.same(r2),
            _ => false,
        }
    }
}

impl Statement {
    /// A deep copy.
    pub fn duplicate(&self) -> (r: Statement)
        ensures
            r@ == self@,
        decreases *self, 1nat,
    {
        match self {
            Statement::Expr(e) => Statement::Expr(e.duplicate()),
            Statement::Return(e) => Statement::Return(e.duplicate()),
        }
    }

    /// Structural equality.
    pub fn same(&self, other: &Statement) -> (r: bool)
        ensures
            r == (self@ == other@),
        decreases *self, 1nat,
    {
        match (self, other) {
            (Statement::Expr(a), Statement::Expr(b)) => a.same(b),
            (Statement::Return(a), Statement::Return(b)) => a.same(b),
            _ => false,
        }
    }
}

impl FunctionCall {
    /// A deep copy.
    pub fn duplicate(&self) -> (r: FunctionCall)
        ensures
            r@ == self@,
        decreases *self, 1nat,
    {
        FunctionCall { reference: self.reference.duplicate(), arguments: clone_exprs(&self.arguments) }
    }

    /// Structural equality.
    pub fn same(&self, other: &FunctionCall) -> (r: bool)
        ensures
            r == (self@ == other@),
        decreases *self, 1nat,
    {
        self.reference.same(&other.reference) && same_exprs(&self.arguments, &other.arguments)
    }
}

impl Function {
    /// A deep copy.
    pub fn duplicate(&self) -> (r: Function)
        ensures
            r@ == self@,
        decreases *self, 1nat,
    {
        Function {
            mangled: self.mangled.clone(),
            metadata: self.metadata.clone(),
            name: self.name.clone(),
            arguments: clone_params(&self.arguments),
            return_type: self.return_type.duplicate(),
            flags: self.flags,
            body: clone_stmts(&self.body),
        }
    }

    /// Structural equality.
    pub fn same(&self, other: &Function) -> (r: bool)
        ensures
            r == (self@ == other@),
        decreases *self, 1nat,
    {
        let mangled = self.mangled == other.mangled;
        let metadata = self.metadata == other.metadata;
        let name = self.name == other.name;
        mangled && metadata && name && same_params(&self.arguments, &other.arguments)
            && self.return_type.same(&other.return_type) && self.flags == other.flags
            && same_stmts(&self.body, &other.body)
    }
}

impl Clone for Literal {
    fn clone(&self) -> (r: Literal)
        ensures
            r@ == self@,
    {
        self.duplicate()
    }
}

impl PartialEq for Literal {
    fn eq(&self, other: &Literal) -> (r: bool) {
        self.same(other)
    }
}

impl PartialEqSpecImpl for Literal {
    open spec fn obeys_eq_spec() -> bool {
        true
    }

    open spec fn eq_spec(&self, other: &Literal) -> bool {
        self@ == other@
    }
}

impl Clone for Reference {
    fn clone(&self) -> (r: Reference)
        ensures
            r@ == self@,
    {
        self.duplicate()
    }
}

impl PartialEq for Reference {
    fn eq(&self, other: &Reference) -> (r: bool) {
        self.same(other)
    }
}

impl PartialEqSpecImpl for Reference {
    open spec fn obeys_eq_spec() -> bool {
        true
    }

    open spec fn eq_spec(&self, other: &Reference) -> bool {
        self@ == other@
    }
}

impl Clone for Expr {
    fn clone(&self) -> (r: Expr)
        ensures
            r@ == self@,
    {
        self.duplicate()
    }
}

impl PartialEq for Expr {
    fn eq(&self, other: &Expr) -> (r: bool) {
        self.same(other)
    }
}

impl PartialEqSpecImpl for Expr {
    open spec fn obeys_eq_spec() -> bool {
        true
    }

    open spec fn eq_spec(&self, other: &Expr) -> bool {
        self@ == other@
    }
}

impl Clone for Statement {
    fn clone(&self) -> (r: Statement)
        ensures
            r@ == self@,
    {
        self.duplicate()
    }
}

impl PartialEq for Statement {
    fn eq(&self, other: &Statement) -> (r: bool) {
        self.same(other)
    }
}

impl PartialEqSpecImpl for Statement {
    open spec fn obeys_eq_spec() -> bool {
        true
    }

    open spec fn eq_spec(&self, other: &Statement) -> bool {
        self@ == other@
    }
}

impl Clone for FunctionCall {
    fn clone(&self) -> (r: FunctionCall)
        ensures
            r@ == self@,
    {
        self.duplicate()
    }
}

impl PartialEq for FunctionCall {
    fn eq(&self, other: &FunctionCall) -> (r: bool) {
        self.same(other)
    }
}

impl PartialEqSpecImpl for FunctionCall {
    open spec fn obeys_eq_spec() -> bool {
        true
    }

    open spec fn eq_spec(&self, other: &FunctionCall) -> bool {
        self@ == other@
    }
}

impl Clone for Function {
    fn clone(&self) -> (r: Function)
        ensures
            r@ == self@,
    {
        self.duplicate()
    }
}

impl PartialEq for Function {
    fn eq(&self, other: &Function) -> (r: bool) {
        self.same(other)
    }
}

impl PartialEqSpecImpl for Function {
    open spec fn obeys_eq_spec() -> bool {
        true
    }

    open spec fn eq_spec(&self, other: &Function) -> bool {
        self@ == other@
    }
}

} // verus!
