use vstd::prelude::*;
use vstd::std_specs::cmp::PartialEqSpecImpl;

verus! {

/// A variable, by its name.
#[derive(Debug)]
pub struct Variable {
    pub name: String,
}

impl View for Variable {
    type V = Seq<char>;

    open spec fn view(&self) -> Seq<char> {
        self.name@
    }
}

impl Variable {
    pub fn new(name: String) -> (v: Variable)
        ensures
            v@ == name@,
    {
        Variable { name }
    }
}

impl Clone for Variable {
    fn clone(&self) -> (v: Variable)
        ensures
            v@ == self@,
    {
        Variable { name: self.name.clone() }
    }
}

impl PartialEq for Variable {
    fn eq(&self, other: &Variable) -> (r: bool) {
        self.name == other.name
    }
}

impl PartialEqSpecImpl for Variable {
    open spec fn obeys_eq_spec() -> bool {
        true
    }

    open spec fn eq_spec(&self, other: &Variable) -> bool {
        self@ == other@
    }
}

/// Where a value is kept: at an offset in the frame of its function, with
/// the name of its type.
#[derive(Debug)]
pub enum Reference {
    Local { offset: i16, v_type: String },
}

/// A reference with its text as a sequence of characters.
pub struct ReferenceModel {
    pub offset: i16,
    pub v_type: Seq<char>,
}

impl View for Reference {
    type V = ReferenceModel;

    open spec fn view(&self) -> ReferenceModel {
        match self {
            Reference::Local { offset, v_type } => ReferenceModel { offset: *offset, v_type: v_type@ },
        }
    }
}

impl Clone for Reference {
    fn clone(&self) -> (r: Reference)
        ensures
            r@ == self@,
    {
        match self {
            Reference::Local { offset, v_type } => Reference::Local {
                offset: *offset,
                v_type: v_type.clone(),
            },
        }
    }
}

impl PartialEq for Reference {
    fn eq(&self, other: &Reference) -> (r: bool) {
        match (self, other) {
            (
                Reference::Local { offset: a, v_type: s },
                Reference::Local { offset: b, v_type: t },
            ) => *a == *b && *s == *t,
        }
    }
}

impl PartialEqSpecImpl for Reference {
    open spec fn obeys_eq_spec() -> bool {
        true
    }

    open spec fn eq_spec(&self, other: &Reference) -> bool {
        self@ == other@
    }
}

/// A constant of the source text. A floating-point constant is held as it
/// is written.
#[derive(Debug)]
pub enum Literal {
    INTEGER(i64),
    FLOAT(String),
    BOOL(bool),
    STRING(String),
}

pub enum LiteralModel {
    INTEGER(i64),
    FLOAT(Seq<char>),
    BOOL(bool),
    STRING(Seq<char>),
}

impl View for Literal {
    type V = LiteralModel;

    open spec fn view(&self) -> LiteralModel {
        match self {
            Literal::INTEGER(v) => LiteralModel::INTEGER(*v),
            Literal::FLOAT(s) => LiteralModel::FLOAT(s@),
            Literal::BOOL(b) => LiteralModel::BOOL(*b),
            Literal::STRING(s) => LiteralModel::STRING(s@),
        }
    }
}

impl Clone for Literal {
    fn clone(&self) -> (r: Literal)
        ensures
            r@ == self@,
    {
        match self {
            Literal::INTEGER(v) => Literal::INTEGER(*v),
            Literal::FLOAT(s) => Literal::FLOAT(s.clone()),
            Literal::BOOL(b) => Literal::BOOL(*b),
            Literal::STRING(s) => Literal::STRING(s.clone()),
        }
    }
}

impl PartialEq for Literal {
    fn eq(&self, other: &Literal) -> (r: bool) {
        match (self, other) {
            (Literal::INTEGER(a), Literal::INTEGER(b)) => *a == *b,
            (Literal::FLOAT(a), Literal::FLOAT(b)) => *a == *b,
            (Literal::BOOL(a), Literal::BOOL(b)) => *a == *b,
            (Literal::STRING(a), Literal::STRING(b)) => *a == *b,
            _ => false,
        }
    }
}

impl PartialEqSpecImpl for Literal {
    open spec fn obeys_eq_spec() -> bool {
        true
    }

    open spec fn eq_spec(&self, other: &Literal) -> bool {
        self@ == other@
    }
}

/// An expression of the source text. The operator of a binary expression
/// is held as it is written.
#[derive(Debug)]
pub enum Expression {
    LITERAL(Literal),
    VARIABLE(Variable),
    BINARY { left: Box<Expression>, right: Box<Expression>, op: String },
}

pub enum ExpressionModel {
    LITERAL(LiteralModel),
    VARIABLE(Seq<char>),
    BINARY { left: Box<ExpressionModel>, right: Box<ExpressionModel>, op: Seq<char> },
}

/// The model of an expression.
pub open spec fn expression_model(e: Expression) -> ExpressionModel
    decreases e,
{
    match e {
        Expression::LITERAL(l) => ExpressionModel::LITERAL(l@),
        Expression::VARIABLE(v) => ExpressionModel::VARIABLE(v@),
        Expression::BINARY { left, right, op } => ExpressionModel::BINARY {
            left: Box::new(expression_model(*left)),
            right: Box::new(expression_model(*right)),
            op: op@,
        },
    }
}

impl View for Expression {
    type V = ExpressionModel;

    open spec fn view(&self) -> ExpressionModel {
        expression_model(*self)
    }
}

impl Expression {
    /// A deep copy.
    pub fn duplicate(&self) -> (r: Expression)
        ensures
            r@ == self@,
        decreases *self,
    {
        match self {
            Expression::LITERAL(l) => Expression::LITERAL(l.clone()),
            Expression::VARIABLE(v) => Expression::VARIABLE(v.clone()),
            Expression::BINARY { left, right, op } => Expression::BINARY {
                left: Box::new(left.duplicate()),
                right: Box::new(right.duplicate()),
                op: op.clone(),
            },
        }
    }

    /// Structural equality.
    pub fn same(&self, other: &Expression) -> (r: bool)
        ensures
            r == (self@ == other@),
        decreases *self,
    {
        match (self, other) {
            (Expression::LITERAL(a), Expression::LITERAL(b)) => *a == *b,
            (Expression::VARIABLE(a), Expression::VARIABLE(b)) => *a == *b,
            (
                Expression::BINARY { left: l1, right: r1, op: o1 },
                Expression::BINARY { left: l2, right: r2, op: o2 },
            ) => *o1 == *o2 && l1.same(l2) && r1.same(r2),
            _ => false,
        }
    }
}

impl Clone for Expression {
    fn clone(&self) -> (r: Expression)
        ensures
            r@ == self@,
    {
        self.duplicate()
    }
}

impl PartialEq for Expression {
    fn eq(&self, other: &Expression) -> (r: bool) {
        self.same(other)
    }
}

impl PartialEqSpecImpl for Expression {
    open spec fn obeys_eq_spec() -> bool {
        true
    }

    open spec fn eq_spec(&self, other: &Expression) -> bool {
        self@ == other@
    }
}

/// A statement of the body of a function.
#[derive(Debug)]
pub enum Statement {
    EXPRESSION(Expression),
    RETURN(Expression),
}

pub enum StatementModel {
    EXPRESSION(ExpressionModel),
    RETURN(ExpressionModel),
}

impl View for Statement {
    type V = StatementModel;

    open spec fn view(&self) -> StatementModel {
        match self {
            Statement::EXPRESSION(e) => StatementModel::EXPRESSION(e@),
            Statement::RETURN(e) => StatementModel::RETURN(e@),
        }
    }
}

impl Clone for Statement {
    fn clone(&self) -> (r: Statement)
        ensures
            r@ == self@,
    {
        match self {
            Statement::EXPRESSION(e) => Statement::EXPRESSION(e.duplicate()),
            Statement::RETURN(e) => Statement::RETURN(e.duplicate()),
        }
    }
}

impl PartialEq for Statement {
    fn eq(&self, other: &Statement) -> (r: bool) {
        match (self, other) {
            (Statement::EXPRESSION(a), Statement::EXPRESSION(b)) => a.same(b),
            (Statement::RETURN(a), Statement::RETURN(b)) => a.same(b),
            _ => false,
        }
    }
}

impl PartialEqSpecImpl for Statement {
    open spec fn obeys_eq_spec() -> bool {
        true
    }

    open spec fn eq_spec(&self, other: &Statement) -> bool {
        self@ == other@
    }
}

/// The models of a list of statements, in order.
pub open spec fn statements_model(v: Vec<Statement>) -> Seq<StatementModel> {
    Seq::new(v@.len(), |i: int| v@[i]@)
}

/// The models of a list of pairs of texts, in order.
pub open spec fn pairs_model(v: Vec<(String, String)>) -> Seq<(Seq<char>, Seq<char>)> {
    Seq::new(v@.len(), |i: int| (v@[i].0@, v@[i].1@))
}

/// A function of the source text: the types of its arguments and of its
/// result are held by their names.
#[derive(Debug)]
pub struct Function {
    pub name: String,
    pub metadata: String,
    pub arguments: Vec<(String, String)>,
    pub return_type: String,
    pub flags: u16,
    pub body: Vec<Statement>,
}

pub struct FunctionModel {
    pub name: Seq<char>,
    pub metadata: Seq<char>,
    pub arguments: Seq<(Seq<char>, Seq<char>)>,
    pub return_type: Seq<char>,
    pub flags: u16,
    pub body: Seq<StatementModel>,
}

impl View for Function {
    type V = FunctionModel;

    open spec fn view(&self) -> FunctionModel {
        FunctionModel {
            name: self.name@,
            metadata: self.metadata@,
            arguments: pairs_model(self.arguments),
            return_type: self.return_type@,
            flags: self.flags,
            body: statements_model(self.body),
        }
    }
}

/// A copy of a list of pairs of texts.
fn clone_pairs(v: &Vec<(String, String)>) -> (r: Vec<(String, String)>)
    ensures
        pairs_model(r) == pairs_model(*v),
{
    let mut out: Vec<(String, String)> = Vec::new();
    let mut i: usize = 0;
    while i < v.len()
        invariant
            i <= v.len(),
            out.len() == i,
            forall|j: int| 0 <= j < i ==> out@[j].0@ == v@[j].0@ && out@[j].1@ == v@[j].1@,
        decreases v.len() - i,
    {
        out.push((v[i].0.clone(), v[i].1.clone()));
        i += 1;
    }
    assert(pairs_model(out) =~= pairs_model(*v));
    out
}

/// Whether two lists of pairs of texts are equal.
fn same_pairs(a: &Vec<(String, String)>, b: &Vec<(String, String)>) -> (r: bool)
    ensures
        r == (pairs_model(*a) == pairs_model(*b)),
{
    if a.len() != b.len() {
        assert(pairs_model(*a).len() != pairs_model(*b).len());
        return false;
    }
    let mut i: usize = 0;
    while i < a.len()
        invariant
            i <= a.len(),
            a.len() == b.len(),
            forall|j: int| 0 <= j < i ==> pairs_model(*a)[j] == pairs_model(*b)[j],
        decreases a.len() - i,
    {
        if !(a[i].0 == b[i].0 && a[i].1 == b[i].1) {
            assert(pairs_model(*a)[i as int] != pairs_model(*b)[i as int]);
            return false;
        }
        i += 1;
    }
    assert(pairs_model(*a) =~= pairs_model(*b));
    true
}

/// A copy of a list of statements.
fn clone_statements(v: &Vec<Statement>) -> (r: Vec<Statement>)
    ensures
        statements_model(r) == statements_model(*v),
{
    let mut out: Vec<Statement> = Vec::new();
    let mut i: usize = 0;
    while i < v.len()
        invariant
            i <= v.len(),
            out.len() == i,
            forall|j: int| 0 <= j < i ==> out@[j]@ == v@[j]@,
        decreases v.len() - i,
    {
        out.push(v[i].clone());
        i += 1;
    }
    assert(statements_model(out) =~= statements_model(*v));
    out
}

/// Whether two lists of statements are equal.
fn same_statements(a: &Vec<Statement>, b: &Vec<Statement>) -> (r: bool)
    ensures
        r == (statements_model(*a) == statements_model(*b)),
{
    if a.len() != b.len() {
        assert(statements_model(*a).len() != statements_model(*b).len());
        return false;
    }
    let mut i: usize = 0;
    while i < a.len()
        invariant
            i <= a.len(),
            a.len() == b.len(),
            forall|j: int| 0 <= j < i ==> statements_model(*a)[j] == statements_model(*b)[j],
        decreases a.len() - i,
    {
        if !(a[i] == b[i]) {
            assert(statements_model(*a)[i as int] != statements_model(*b)[i as int]);
            return false;
        }
        i += 1;
    }
    assert(statements_model(*a) =~= statements_model(*b));
    true
}

impl Function {
    pub fn new(
        name: String,
        metadata: String,
        arguments: Vec<(String, String)>,
        return_type: String,
        flags: u16,
        body: Vec<Statement>,
    ) -> (f: Function)
        ensures
            f@ == (FunctionModel {
                name: name@,
                metadata: metadata@,
                arguments: pairs_model(arguments),
                return_type: return_type@,
                flags,
                body: statements_model(body),
            }),
    {
        Function { name, metadata, arguments, return_type, flags, body }
    }
}

impl Clone for Function {
    fn clone(&self) -> (r: Function)
        ensures
            r@ == self@,
    {
        Function {
            name: self.name.clone(),
            metadata: self.metadata.clone(),
            arguments: clone_pairs(&self.arguments),
            return_type: self.return_type.clone(),
            flags: self.flags,
            body: clone_statements(&self.body),
        }
    }
}

impl PartialEq for Function {
    fn eq(&self, other: &Function) -> (r: bool) {
        self.name == other.name && self.metadata == other.metadata && same_pairs(
            &self.arguments,
            &other.arguments,
        ) && self.return_type == other.return_type && self.flags == other.flags && same_statements(
            &self.body,
            &other.body,
        )
    }
}

impl PartialEqSpecImpl for Function {
    open spec fn obeys_eq_spec() -> bool {
        true
    }

    open spec fn eq_spec(&self, other: &Function) -> bool {
        self@ == other@
    }
}

/// A node of a syntax tree.
#[derive(Debug)]
pub enum ASTNode {
    EXPRESSION(Expression),
    VARIABLE(Variable),
    BODY(Body),
    RETURN(Return),
    FUNCTION(Function),
}

/// What a function gives back, where it gives anything.
#[derive(Debug)]
pub struct Return {
    pub value: Option<Box<ASTNode>>,
}

/// A list of statements, and the constants that they name, in the order in
/// which they were added.
#[derive(Debug)]
pub struct Body {
    pub statements: Vec<ASTNode>,
    pub consts_table: Vec<(String, ASTNode)>,
}

pub enum NodeModel {
    EXPRESSION(ExpressionModel),
    VARIABLE(Seq<char>),
    BODY(BodyModel),
    RETURN(ReturnModel),
    FUNCTION(FunctionModel),
}

pub struct ReturnModel {
    pub value: Option<Box<NodeModel>>,
}

pub struct BodyModel {
    pub statements: Seq<NodeModel>,
    pub consts_table: Seq<(Seq<char>, NodeModel)>,
}

/// The model of a node.
pub open spec fn node_model(n: ASTNode) -> NodeModel
    decreases n, 2nat,
{
    match n {
        ASTNode::EXPRESSION(e) => NodeModel::EXPRESSION(e@),
        ASTNode::VARIABLE(v) => NodeModel::VARIABLE(v@),
        ASTNode::BODY(b) => NodeModel::BODY(body_model(b)),
        ASTNode::RETURN(r) => NodeModel::RETURN(return_model(r)),
        ASTNode::FUNCTION(f) => NodeModel::FUNCTION(f@),
    }
}

/// The model of what a function gives back.
pub open spec fn return_model(r: Return) -> ReturnModel
    decreases r, 1nat,
{
    ReturnModel {
        value: match r.value {
            Some(node) => Some(Box::new(node_model(*node))),
            None => None,
        },
    }
}

/// The model of a body.
pub open spec fn body_model(b: Body) -> BodyModel
    decreases b, 1nat,
{
    BodyModel { statements: nodes_model(b.statements), consts_table: consts_model(b.consts_table) }
}

/// The models of a list of nodes, in order.
pub open spec fn nodes_model(v: Vec<ASTNode>) -> Seq<NodeModel>
    decreases v, 0nat,
{
    Seq::new(
        v@.len(),
        |i: int|
            if 0 <= i < v@.len() {
                node_model(v@[i])
            } else {
                NodeModel::VARIABLE(Seq::empty())
            },
    )
}

/// The models of a list of named nodes, in order.
pub open spec fn consts_model(v: Vec<(String, ASTNode)>) -> Seq<(Seq<char>, NodeModel)>
    decreases v, 0nat,
{
    Seq::new(
        v@.len(),
        |i: int|
            if 0 <= i < v@.len() {
                (v@[i].0@, node_model(v@[i].1))
            } else {
                (Seq::empty(), NodeModel::VARIABLE(Seq::empty()))
            },
    )
}

impl View for ASTNode {
    type V = NodeModel;

    open spec fn view(&self) -> NodeModel {
        node_model(*self)
    }
}

impl View for Return {
    type V = ReturnModel;

    open spec fn view(&self) -> ReturnModel {
        return_model(*self)
    }
}

impl View for Body {
    type V = BodyModel;

    open spec fn view(&self) -> BodyModel {
        body_model(*self)
    }
}

/// A copy of a list of nodes.
pub fn clone_nodes(v: &Vec<ASTNode>) -> (r: Vec<ASTNode>)
    ensures
        nodes_model(r) == nodes_model(*v),
    decreases *v, 0nat,
{
    let mut out: Vec<ASTNode> = Vec::new();
    let mut i: usize = 0;
    while i < v.len()
        invariant
            i <= v.len(),
            out.len() == i,
            forall|j: int| 0 <= j < i ==> node_model(out@[j]) == node_model(v@[j]),
        decreases v.len() - i,
    {
        let node = v[i].duplicate();
        out.push(node);
        i += 1;
    }
    assert(nodes_model(out) =~= nodes_model(*v));
    out
}

/// Whether two lists of nodes are equal, node by node.
pub fn same_nodes(a: &Vec<ASTNode>, b: &Vec<ASTNode>) -> (r: bool)
    ensures
        r == (nodes_model(*a) == nodes_model(*b)),
    decreases *a, 0nat,
{
    if a.len() != b.len() {
        assert(nodes_model(*a).len() != nodes_model(*b).len());
        return false;
    }
    let mut i: usize = 0;
    while i < a.len()
        invariant
            i <= a.len(),
            a.len() == b.len(),
            forall|j: int| 0 <= j < i ==> nodes_model(*a)[j] == nodes_model(*b)[j],
        decreases a.len() - i,
    {
        if !a[i].same(&b[i]) {
            assert(nodes_model(*a)[i as int] != nodes_model(*b)[i as int]);
            return false;
        }
        i += 1;
    }
    assert(nodes_model(*a) =~= nodes_model(*b));
    true
}

/// A copy of a list of named nodes.
fn clone_consts(v: &Vec<(String, ASTNode)>) -> (r: Vec<(String, ASTNode)>)
    ensures
        consts_model(r) == consts_model(*v),
    decreases *v, 0nat,
{
    let mut out: Vec<(String, ASTNode)> = Vec::new();
    let mut i: usize = 0;
    while i < v.len()
        invariant
            i <= v.len(),
            out.len() == i,
            forall|j: int|
                0 <= j < i ==> out@[j].0@ == v@[j].0@ && node_model(out@[j].1) == node_model(
                    v@[j].1,
                ),
        decreases v.len() - i,
    {
        let name = v[i].0.clone();
        let node = v[i].1.duplicate();
        out.push((name, node));
        i += 1;
    }
    assert(consts_model(out) =~= consts_model(*v));
    out
}

/// Whether two lists of named nodes are equal.
fn same_consts(a: &Vec<(String, ASTNode)>, b: &Vec<(String, ASTNode)>) -> (r: bool)
    ensures
        r == (consts_model(*a) == consts_model(*b)),
    decreases *a, 0nat,
{
    if a.len() != b.len() {
        assert(consts_model(*a).len() != consts_model(*b).len());
        return false;
    }
    let mut i: usize = 0;
    while i < a.len()
        invariant
            i <= a.len(),
            a.len() == b.len(),
            forall|j: int| 0 <= j < i ==> consts_model(*a)[j] == consts_model(*b)[j],
        decreases a.len() - i,
    {
        let names = a[i].0 == b[i].0;
        if !names || !a[i].1.same(&b[i].1) {
            assert(consts_model(*a)[i as int] != consts_model(*b)[i as int]);
            return false;
        }
        i += 1;
    }
    assert(consts_model(*a) =~= consts_model(*b));
    true
}

impl ASTNode {
    /// A deep copy.
    pub fn duplicate(&self) -> (r: ASTNode)
        ensures
            r@ == self@,
        decreases *self, 2nat,
    {
        match self {
            ASTNode::EXPRESSION(e) => ASTNode::EXPRESSION(e.duplicate()),
            ASTNode::VARIABLE(v) => ASTNode::VARIABLE(v.clone()),
            ASTNode::BODY(b) => ASTNode::BODY(b.duplicate()),
            ASTNode::RETURN(r) => ASTNode::RETURN(r.duplicate()),
            ASTNode::FUNCTION(f) => ASTNode::FUNCTION(f.clone()),
        }
    }

    /// Structural equality.
    pub fn same(&self, other: &ASTNode) -> (r: bool)
        ensures
            r == (self@ == other@),
        decreases *self, 2nat,
    {
        match (self, other) {
            (ASTNode::EXPRESSION(a), ASTNode::EXPRESSION(b)) => a.same(b),
            (ASTNode::VARIABLE(a), ASTNode::VARIABLE(b)) => *a == *b,
            (ASTNode::BODY(a), ASTNode::BODY(b)) => a.same(b),
            (ASTNode::RETURN(a), ASTNode::RETURN(b)) => a.same(b),
            (ASTNode::FUNCTION(a), ASTNode::FUNCTION(b)) => *a == *b,
            _ => false,
        }
    }
}

impl Return {
    pub fn new(value: Option<ASTNode>) -> (r: Return)
        ensures
            r@.value == match value {
                Some(node) => Some(Box::new(node@)),
                None => None::<Box<NodeModel>>,
            },
    {
        Return {
            value: match value {
                Some(node) => Some(Box::new(node)),
                None => None,
            },
        }
    }

    /// A deep copy.
    pub fn duplicate(&self) -> (r: Return)
        ensures
            r@ == self@,
        decreases *self, 1nat,
    {
        Return {
            value: match &self.value {
                Some(node) => Some(Box::new(node.duplicate())),
                None => None,
            },
        }
    }

    /// Structural equality.
    pub fn same(&self, other: &Return) -> (r: bool)
        ensures
            r == (self@ == other@),
        decreases *self, 1nat,
    {
        match (&self.value, &other.value) {
            (Some(a), Some(b)) => a.same(b),
            (None, None) => true,
            _ => false,
        }
    }
}

impl Body {
    /// A body of the statements given, without constants.
    pub fn new(statements: Vec<ASTNode>) -> (b: Body)
        ensures
            b@ == (BodyModel { statements: nodes_model(statements), consts_table: Seq::empty() }),
    {
        let b = Body { statements, consts_table: Vec::new() };
        assert(consts_model(b.consts_table) =~= Seq::<(Seq<char>, NodeModel)>::empty());
        b
    }

    /// A deep copy.
    pub fn duplicate(&self) -> (r: Body)
        ensures
            r@ == self@,
        decreases *self, 1nat,
    {
        Body {
            statements: clone_nodes(&self.statements),
            consts_table: clone_consts(&self.consts_table),
        }
    }

    /// Structural equality.
    pub fn same(&self, other: &Body) -> (r: bool)
        ensures
            r == (self@ == other@),
        decreases *self, 1nat,
    {
        same_nodes(&self.statements, &other.statements) && same_consts(
            &self.consts_table,
            &other.consts_table,
        )
    }
}

impl Clone for ASTNode {
    fn clone(&self) -> (r: ASTNode)
        ensures
            r@ == self@,
    {
        self.duplicate()
    }
}

impl PartialEq for ASTNode {
    fn eq(&self, other: &ASTNode) -> (r: bool) {
        self.same(other)
    }
}

impl PartialEqSpecImpl for ASTNode {
    open spec fn obeys_eq_spec() -> bool {
        true
    }

    open spec fn eq_spec(&self, other: &ASTNode) -> bool {
        self@ == other@
    }
}

impl Clone for Return {
    fn clone(&self) -> (r: Return)
        ensures
            r@ == self@,
    {
        self.duplicate()
    }
}

impl PartialEq for Return {
    fn eq(&self, other: &Return) -> (r: bool) {
        self.same(other)
    }
}

impl PartialEqSpecImpl for Return {
    open spec fn obeys_eq_spec() -> bool {
        true
    }

    open spec fn eq_spec(&self, other: &Return) -> bool {
        self@ == other@
    }
}

impl Clone for Body {
    fn clone(&self) -> (r: Body)
        ensures
            r@ == self@,
    {
        self.duplicate()
    }
}

impl PartialEq for Body {
    fn eq(&self, other: &Body) -> (r: bool) {
        self.same(other)
    }
}

impl PartialEqSpecImpl for Body {
    open spec fn obeys_eq_spec() -> bool {
        true
    }

    open spec fn eq_spec(&self, other: &Body) -> bool {
        self@ == other@
    }
}

} // verus!
