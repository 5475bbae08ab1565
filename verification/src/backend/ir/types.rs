use vstd::prelude::*;
use vstd::std_specs::cmp::PartialEqSpecImpl;

verus! {

/// The type of a value in the intermediate representation.
#[derive(Debug)]
pub enum DataType {
    /// A scalar of `size` bytes; size 0 is `void`.
    Scalar { size: i16, signed: bool },
    Pointer { target: Box<DataType> },
    Array { target: Box<DataType>, capacity: i16 },
    Struct { path: String, fields: Vec<(String, DataType)> },
}

/// What a [`DataType`] stands for: the same tree, with strings and vectors as sequences.
pub enum TypeModel {
    Scalar { size: i16, signed: bool },
    Pointer { target: Box<TypeModel> },
    Array { target: Box<TypeModel>, capacity: i16 },
    Struct { path: Seq<char>, fields: Seq<(Seq<char>, TypeModel)> },
}

/// The model of a list of named types, name by name and type by type.
pub open spec fn params_model(v: Vec<(String, DataType)>) -> Seq<(Seq<char>, TypeModel)>
    decreases v, 0nat,
{
    Seq::new(
        v@.len(),
        |i: int|
            if 0 <= i < v@.len() {
                (v@[i].0@, type_model(v@[i].1))
            } else {
                (Seq::empty(), TypeModel::Scalar { size: 0, signed: false })
            },
    )
}

/// The model of a type.
pub open spec fn type_model(t: DataType) -> TypeModel
    decreases t, 1nat,
{
    match t {
        DataType::Scalar { size, signed } => TypeModel::Scalar { size, signed },
        DataType::Pointer { target } => TypeModel::Pointer { target: Box::new(type_model(*target)) },
        DataType::Array { target, capacity } => TypeModel::Array {
            target: Box::new(type_model(*target)),
            capacity,
        },
        DataType::Struct { path, fields } => TypeModel::Struct {
            path: path@,
            fields: params_model(fields),
        },
    }
}

impl View for DataType {
    type V = TypeModel;

    open spec fn view(&self) -> TypeModel {
        type_model(*self)
    }
}

/// A copy of a list of named types.
pub fn clone_params(v: &Vec<(String, DataType)>) -> (r: Vec<(String, DataType)>)
    ensures
        params_model(r) == params_model(*v),
    decreases *v, 0nat,
{
    let mut out: Vec<(String, DataType)> = Vec::new();
    let mut i: usize = 0;
    while i < v.len()
        invariant
            i <= v.len(),
            out.len() == i,
            forall|j: int| 0 <= j < i ==> out@[j].0@ == v@[j].0@ && type_model(out@[j].1) == type_model(v@[j].1),
        decreases v.len() - i,
    {
        let name = v[i].0.clone();
        let ty = v[i].1.duplicate();
        out.push((name, ty));
        i += 1;
    }
    assert(params_model(out) =~= params_model(*v));
    out
}

/// Whether two lists of named types are equal, name by name and type by type.
pub fn same_params(a: &Vec<(String, DataType)>, b: &Vec<(String, DataType)>) -> (r: bool)
    ensures
        r == (params_model(*a) == params_model(*b)),
    decreases *a, 0nat,
{
    if a.len() != b.len() {
        assert(params_model(*a).len() != params_model(*b).len());
        return false;
    }
    let mut i: usize = 0;
    while i < a.len()
        invariant
            i <= a.len(),
            a.len() == b.len(),
            forall|j: int| 0 <= j < i ==> params_model(*a)[j] == params_model(*b)[j],
        decreases a.len() - i,
    {
        let names = a[i].0 == b[i].0;
        if !names || !a[i].1.same(&b[i].1) {
            assert(params_model(*a)[i as int] != params_model(*b)[i as int]);
            return false;
        }
        i += 1;
    }
    assert(params_model(*a) =~= params_model(*b));
    true
}

impl DataType {
    /// A deep copy.
    pub fn duplicate(&self) -> (r: DataType)
        ensures
            r@ == self@,
        decreases *self, 1nat,
    {
        match self {
            DataType::Scalar { size, signed } => DataType::Scalar { size: *size, signed: *signed },
            DataType::Pointer { target } => DataType::Pointer { target: Box::new(target.duplicate()) },
            DataType::Array { target, capacity } => DataType::Array {
                target: Box::new(target.duplicate()),
                capacity: *capacity,
            },
            DataType::Struct { path, fields } => DataType::Struct {
                path: path.clone(),
                fields: clone_params(fields),
            },
        }
    }

    /// Structural equality.
    pub fn same(&self, other: &DataType) -> (r: bool)
        ensures
            r == (self@ == other@),
        decreases *self, 1nat,
    {
        match (self, other) {
            (DataType::Scalar { size: s1, signed: g1 }, DataType::Scalar { size: s2, signed: g2 }) => {
                *s1 == *s2 && *g1 == *g2
            },
            (DataType::Pointer { target: t1 }, DataType::Pointer { target: t2 }) => t1.same(t2),
            (
                DataType::Array { target: t1, capacity: c1 },
                DataType::Array { target: t2, capacity: c2 },
            ) => *c1 == *c2 && t1.same(t2),
            (DataType::Struct { path: p1, fields: f1 }, DataType::Struct { path: p2, fields: f2 }) => {
                let paths = *p1 == *p2;
                paths && same_params(f1, f2)
            },
            _ => false,
        }
    }
}

impl Clone for DataType {
    fn clone(&self) -> (r: DataType)
        ensures
            r@ == self@,
    {
        self.duplicate()
    }
}

impl PartialEq for DataType {
    fn eq(&self, other: &DataType) -> (r: bool) {
        self.same(other)
    }
}

impl PartialEqSpecImpl for DataType {
    open spec fn obeys_eq_spec() -> bool {
        true
    }

    open spec fn eq_spec(&self, other: &DataType) -> bool {
        self@ == other@
    }
}

} // verus!
