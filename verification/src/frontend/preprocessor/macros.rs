use vstd::prelude::*;
use vstd::string::StringExecFns;

verus! {

/// A piece of the body of a macro: plain text, the name of a parameter, or
/// a body that is repeated for each argument.
#[derive(Debug)]
pub enum BodyNode {
    Lexical(String),
    Param(String),
    ArgIteration(Vec<BodyNode>),
}

pub enum BodyNodeModel {
    Lexical(Seq<char>),
    Param(Seq<char>),
    ArgIteration(Seq<BodyNodeModel>),
}

/// The model of a piece of a body.
pub open spec fn node_model(n: BodyNode) -> BodyNodeModel
    decreases n, 1nat,
{
    match n {
        BodyNode::Lexical(s) => BodyNodeModel::Lexical(s@),
        BodyNode::Param(s) => BodyNodeModel::Param(s@),
        BodyNode::ArgIteration(body) => BodyNodeModel::ArgIteration(nodes_model(body)),
    }
}

/// The models of the pieces of a body, in order.
pub open spec fn nodes_model(v: Vec<BodyNode>) -> Seq<BodyNodeModel>
    decreases v, 0nat,
{
    Seq::new(
        v@.len(),
        |k: int|
            if 0 <= k < v@.len() {
                node_model(v@[k])
            } else {
                BodyNodeModel::Lexical(Seq::empty())
            },
    )
}

impl View for BodyNode {
    type V = BodyNodeModel;

    open spec fn view(&self) -> BodyNodeModel {
        node_model(*self)
    }
}

/// A copy of the pieces of a body.
pub fn clone_nodes(v: &Vec<BodyNode>) -> (r: Vec<BodyNode>)
    ensures
        nodes_model(r) == nodes_model(*v),
    decreases *v, 0nat,
{
    let mut out: Vec<BodyNode> = Vec::new();
    let mut i: usize = 0;
    while i < v.len()
        invariant
            i <= v.len(),
            out.len() == i,
            forall|j: int| 0 <= j < i ==> node_model(out@[j]) == node_model(v@[j]),
        decreases v.len() - i,
    {
        let n = v[i].duplicate();
        out.push(n);
        i += 1;
    }
    assert(nodes_model(out) =~= nodes_model(*v));
    out
}

impl BodyNode {
    /// Whether this is the name of a parameter.
    pub fn is_param(&self) -> (r: bool)
        ensures
            r == (self@ is Param),
    {
        match self {
            BodyNode::Param(_) => true,
            _ => false,
        }
    }

    /// The text of a piece that has one.
    pub fn content(&self) -> (r: Option<&String>)
        ensures
            match self@ {
                BodyNodeModel::Lexical(s) => r matches Some(text) && text@ == s,
                BodyNodeModel::Param(s) => r matches Some(text) && text@ == s,
                BodyNodeModel::ArgIteration(_) => r is None,
            },
    {
        match self {
            BodyNode::Lexical(content) => Some(content),
            BodyNode::Param(content) => Some(content),
            BodyNode::ArgIteration(_) => None,
        }
    }

    /// A deep copy.
    pub fn duplicate(&self) -> (r: BodyNode)
        ensures
            r@ == self@,
        decreases *self, 1nat,
    {
        match self {
            BodyNode::Lexical(s) => BodyNode::Lexical(s.clone()),
            BodyNode::Param(s) => BodyNode::Param(s.clone()),
            BodyNode::ArgIteration(body) => BodyNode::ArgIteration(clone_nodes(body)),
        }
    }
}

impl Clone for BodyNode {
    fn clone(&self) -> (r: BodyNode)
        ensures
            r@ == self@,
    {
        self.duplicate()
    }
}

/// A macro: its name, the names of its parameters, and its body.
pub struct Macro {
    pub name: String,
    pub body: Vec<BodyNode>,
    pub params: Vec<String>,
}

pub struct MacroModel {
    pub name: Seq<char>,
    pub body: Seq<BodyNodeModel>,
    pub params: Seq<Seq<char>>,
}

/// The texts of a list of strings.
pub open spec fn texts(v: Vec<String>) -> Seq<Seq<char>> {
    Seq::new(v@.len(), |k: int| v@[k]@)
}

impl View for Macro {
    type V = MacroModel;

    open spec fn view(&self) -> MacroModel {
        MacroModel { name: self.name@, body: nodes_model(self.body), params: texts(self.params) }
    }
}

/// A copy of a list of strings.
pub fn clone_texts(v: &Vec<String>) -> (r: Vec<String>)
    ensures
        texts(r) == texts(*v),
{
    let mut out: Vec<String> = Vec::new();
    let mut i: usize = 0;
    while i < v.len()
        invariant
            i <= v.len(),
            out.len() == i,
            forall|j: int| 0 <= j < i ==> out@[j]@ == v@[j]@,
        decreases v.len() - i,
    {
        out.push(v[i].clone());
        i += 1;
    }
    assert(texts(out) =~= texts(*v));
    out
}

/// Whether one of the first `n` pieces is the parameter `param`.
pub open spec fn names_param(body: Seq<BodyNodeModel>, param: Seq<char>, n: nat) -> bool
    decreases n,
{
    if n == 0 || n > body.len() {
        false
    } else {
        names_param(body, param, (n - 1) as nat) || body[n - 1] == BodyNodeModel::Param(param)
    }
}

impl Macro {
    pub fn new(name: String, params: Vec<String>, body: Vec<BodyNode>) -> (m: Macro)
        ensures
            m@ == (MacroModel {
                name: name@,
                body: nodes_model(body),
                params: texts(params),
            }),
    {
        Macro { name, params, body }
    }

    /// Whether the body names the parameter `param`, outside its repeated parts.
    pub fn uses_param(&self, param: &str) -> (r: bool)
        ensures
            r == names_param(self@.body, param@, self@.body.len()),
    {
        let wanted = String::from_str(param);
        let mut i: usize = 0;
        while i < self.body.len()
            invariant
                i <= self.body.len(),
                wanted@ == param@,
                !names_param(self@.body, param@, i as nat),
            decreases self.body.len() - i,
        {
            let hit = match &self.body[i] {
                BodyNode::Param(p) => *p == wanted,
                _ => false,
            };
            assert(self@.body[i as int] == self.body@[i as int]@);
            if hit {
                proof {
                    assert(names_param(self@.body, param@, (i + 1) as nat));
                    lemma_names_param_grows(self@.body, param@, (i + 1) as nat, self@.body.len());
                }
                return true;
            }
            i += 1;
        }
        false
    }

    /// A deep copy.
    pub fn duplicate(&self) -> (r: Macro)
        ensures
            r@ == self@,
    {
        Macro {
            name: self.name.clone(),
            body: clone_nodes(&self.body),
            params: clone_texts(&self.params),
        }
    }
}

impl Clone for Macro {
    fn clone(&self) -> (r: Macro)
        ensures
            r@ == self@,
    {
        self.duplicate()
    }
}

/// A parameter that is named among the first pieces is named among more of them.
pub proof fn lemma_names_param_grows(body: Seq<BodyNodeModel>, param: Seq<char>, n: nat, m: nat)
    requires
        n <= m <= body.len(),
        names_param(body, param, n),
    ensures
        names_param(body, param, m),
    decreases m,
{
    if n < m {
        lemma_names_param_grows(body, param, n, (m - 1) as nat);
    }
}

} // verus!
