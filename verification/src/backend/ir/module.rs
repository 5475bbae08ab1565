use crate::backend::ir::expr::{
    clone_exprs, exprs_model, stmts_model, CallModel, Expr, ExprModel, Function, FunctionCall,
    FunctionModel, Literal, LiteralModel, Reference, ReferenceModel, Statement, StatementModel,
};
use crate::backend::ir::flags::NO_MANGLE;
use crate::backend::ir::helper::{hash, mangle, signature_text, symbol_text, xxh3_digest};
use crate::backend::ir::types::{
    clone_params, params_model, same_params, type_model, DataType, TypeModel,
};
use crate::reporter::comp::CompilerError;
use vstd::prelude::*;
use vstd::std_specs::cmp::PartialEqSpecImpl;
use vstd::string::StringExecFns;
use vstd::utf8::encode_utf8;

verus! {

/// The link-time name of a function: its plain name where the flags ask
/// for it, else the name made from a hash of its signature.
pub open spec fn link_name(name: Seq<char>, metadata: Seq<char>, flags: u16) -> Seq<char> {
    if flags & NO_MANGLE != 0 {
        name
    } else {
        symbol_text(xxh3_digest(encode_utf8(metadata)))
    }
}

impl Function {
    /// A function with the given signature and body; its signature text and
    /// its link-time name are worked out here.
    pub fn new(
        name: String,
        arguments: Vec<(String, DataType)>,
        return_type: DataType,
        flags: u16,
        body: Vec<Statement>,
    ) -> (f: Function)
        ensures
            f@.name == name@,
            f@.arguments == params_model(arguments),
            f@.return_type == return_type@,
            f@.flags == flags,
            f@.body == stmts_model(body),
            f@.metadata == signature_text(name@, params_model(arguments), return_type@),
            f@.mangled == link_name(name@, f@.metadata, flags),
    {
        let metadata = mangle(name.clone(), clone_params(&arguments), return_type.duplicate());
        let mangled = if (flags & NO_MANGLE) != 0 {
            name.clone()
        } else {
            hash(metadata.clone())
        };
        Function { mangled, metadata, name, arguments, return_type, flags, body }
    }
}

/// The type of a literal that nothing casts.
pub open spec fn literal_type(l: LiteralModel) -> TypeModel {
    match l {
        LiteralModel::Int(_) => TypeModel::Scalar { size: 4, signed: true },
        LiteralModel::Float(_) => TypeModel::Scalar { size: 8, signed: true },
        LiteralModel::Bool(_) => TypeModel::Scalar { size: 1, signed: false },
        LiteralModel::Str(_) => TypeModel::Pointer {
            target: Box::new(TypeModel::Scalar { size: 1, signed: false }),
        },
    }
}

/// The type of an expression, or `None` where the two sides of a binary
/// expression in it differ in type. A literal takes the cast where one is
/// given; the sides of a binary expression are inferred without one.
pub open spec fn infer_model(e: ExprModel, cast: Option<TypeModel>) -> Option<TypeModel>
    decreases e,
{
    match e {
        ExprModel::Literal(l) => Some(
            match cast {
                Some(t) => t,
                None => literal_type(l),
            },
        ),
        ExprModel::Reference(ReferenceModel::Local { v_type, .. }) => Some(v_type),
        ExprModel::Call(c) => Some(c.reference.return_type),
        ExprModel::Binary { left, right, .. } => match (
            infer_model(*left, None),
            infer_model(*right, None),
        ) {
            (Some(a), Some(b)) => if a == b {
                Some(a)
            } else {
                None
            },
            _ => None,
        },
    }
}

/// The model of a cast that may be absent.
pub open spec fn cast_model(cast: Option<DataType>) -> Option<TypeModel> {
    match cast {
        Some(t) => Some(t@),
        None => None,
    }
}

impl Expr {
    /// The type of the expression; `TypeMismatch` where the two sides of a
    /// binary expression in it differ in type.
    pub fn infer_type(&self, enforced_cast: Option<DataType>) -> (r: Result<DataType, CompilerError>)
        ensures
            match infer_model(self@, cast_model(enforced_cast)) {
                Some(t) => r is Ok && r->Ok_0@ == t,
                None => r == Err::<DataType, CompilerError>(CompilerError::TypeMismatch),
            },
        decreases *self,
    {
        match self {
            Expr::Literal(literal) => {
                if let Some(cast) = enforced_cast {
                    return Ok(cast);
                }
                proof {
                    reveal_with_fuel(type_model, 2);
                }
                let t = match literal {
                    Literal::Int(_) => DataType::Scalar { size: 4, signed: true },
                    Literal::Float(_) => DataType::Scalar { size: 8, signed: true },
                    Literal::Bool(_) => DataType::Scalar { size: 1, signed: false },
                    Literal::Str(_) => DataType::Pointer {
                        target: Box::new(DataType::Scalar { size: 1, signed: false }),
                    },
                };
                assert(t@ == literal_type(literal@));
                Ok(t)
            },
            Expr::Reference(reference) => match reference {
                Reference::Local { v_type, .. } => {
                    let t = v_type.duplicate();
                    assert(infer_model(self@, cast_model(enforced_cast)) == Some(v_type@));
                    Ok(t)
                },
            },
            Expr::Binary { left, right, .. } => {
                assert(self@ matches ExprModel::Binary { left: l, right: r, .. } && *l == left@ && *r
                    == right@);
                let left_type = match left.infer_type(None) {
                    Ok(t) => t,
                    Err(_) => {
                        return Err(CompilerError::TypeMismatch);
                    },
                };
                let right_type = match right.infer_type(None) {
                    Ok(t) => t,
                    Err(_) => {
                        return Err(CompilerError::TypeMismatch);
                    },
                };
                if !left_type.same(&right_type) {
                    return Err(CompilerError::TypeMismatch);
                }
                Ok(left_type)
            },
            Expr::Call(call) => {
                let t = call.reference.return_type.duplicate();
                assert(self@ == ExprModel::Call(call@));
                assert(call@.reference == call.reference@);
                assert(call.reference@.return_type == call.reference.return_type@);
                Ok(t)
            },
        }
    }
}

/// What a [`Module`] stands for: its types and its functions, each in the
/// order in which they were declared.
pub struct ModuleModel {
    pub types_def: Seq<(Seq<char>, TypeModel)>,
    pub functions: Seq<FunctionModel>,
}

/// The unit of compilation: named types, and functions keyed by their link-time name.
#[derive(Debug)]
pub struct Module {
    pub types_def: Vec<(String, DataType)>,
    pub functions: Vec<Function>,
}

/// The models of a list of functions, in order.
pub open spec fn functions_model(v: Vec<Function>) -> Seq<FunctionModel> {
    Seq::new(v@.len(), |i: int| v@[i]@)
}

impl View for Module {
    type V = ModuleModel;

    open spec fn view(&self) -> ModuleModel {
        ModuleModel {
            types_def: params_model(self.types_def),
            functions: functions_model(self.functions),
        }
    }
}

/// The types that every module starts with.
pub open spec fn builtin_types() -> Seq<(Seq<char>, TypeModel)> {
    seq![
        ("void"@, TypeModel::Scalar { size: 0, signed: false }),
        ("i8"@, TypeModel::Scalar { size: 1, signed: true }),
        ("u8"@, TypeModel::Scalar { size: 1, signed: false }),
        ("i16"@, TypeModel::Scalar { size: 2, signed: true }),
        ("u16"@, TypeModel::Scalar { size: 2, signed: false }),
        ("i32"@, TypeModel::Scalar { size: 4, signed: true }),
        ("u32"@, TypeModel::Scalar { size: 4, signed: false }),
        ("i64"@, TypeModel::Scalar { size: 8, signed: true }),
        ("u64"@, TypeModel::Scalar { size: 8, signed: false }),
    ]
}

/// The place of the first type named `name` from `from` on, or the length of the list.
pub open spec fn type_position(types: Seq<(Seq<char>, TypeModel)>, name: Seq<char>, from: int) -> int
    decreases types.len() - from,
{
    if from < 0 || from >= types.len() {
        types.len() as int
    } else if types[from].0 == name {
        from
    } else {
        type_position(types, name, from + 1)
    }
}

/// The place of the first function with the signature `metadata` from `from` on,
/// or the length of the list.
pub open spec fn signature_position(fs: Seq<FunctionModel>, metadata: Seq<char>, from: int) -> int
    decreases fs.len() - from,
{
    if from < 0 || from >= fs.len() {
        fs.len() as int
    } else if fs[from].metadata == metadata {
        from
    } else {
        signature_position(fs, metadata, from + 1)
    }
}

/// The place of the first function with the link-time name `key` from `from` on,
/// or the length of the list.
pub open spec fn key_position(fs: Seq<FunctionModel>, key: Seq<char>, from: int) -> int
    decreases fs.len() - from,
{
    if from < 0 || from >= fs.len() {
        fs.len() as int
    } else if fs[from].mangled == key {
        from
    } else {
        key_position(fs, key, from + 1)
    }
}

/// The function table with `f` in it: in the place of the function that had
/// its link-time name, or at the end where none had.
pub open spec fn with_function(fs: Seq<FunctionModel>, f: FunctionModel) -> Seq<FunctionModel> {
    let at = key_position(fs, f.mangled, 0);
    if at < fs.len() {
        fs.update(at, f)
    } else {
        fs.push(f)
    }
}

/// Whether a call of `name` with these arguments can go to `f`: the name and
/// the number of arguments agree, and each argument, cast to the type of its
/// parameter, has that type.
pub open spec fn accepts(f: FunctionModel, name: Seq<char>, args: Seq<ExprModel>) -> bool {
    &&& f.name == name
    &&& f.arguments.len() == args.len()
    &&& forall|i: int|
        0 <= i < args.len() ==> infer_model(#[trigger] args[i], Some(f.arguments[i].1)) == Some(
            f.arguments[i].1,
        )
}

/// The place of the first function from `from` on that accepts the call, or
/// the length of the list.
pub open spec fn callee_position(
    fs: Seq<FunctionModel>,
    name: Seq<char>,
    args: Seq<ExprModel>,
    from: int,
) -> int
    decreases fs.len() - from,
{
    if from < 0 || from >= fs.len() {
        fs.len() as int
    } else if accepts(fs[from], name, args) {
        from
    } else {
        callee_position(fs, name, args, from + 1)
    }
}

/// Where a function from `from` on accepts a call, the call has a callee.
pub proof fn lemma_callee_found(
    fs: Seq<FunctionModel>,
    name: Seq<char>,
    args: Seq<ExprModel>,
    from: int,
    at: int,
)
    requires
        0 <= from <= at < fs.len(),
        accepts(fs[at], name, args),
    ensures
        from <= callee_position(fs, name, args, from) <= at,
        accepts(fs[callee_position(fs, name, args, from)], name, args),
    decreases at - from,
{
    if !accepts(fs[from], name, args) {
        lemma_callee_found(fs, name, args, from + 1, at);
    }
}

/// The place of a link-time name is a place of the table or its length.
pub proof fn lemma_key_position_bounds(fs: Seq<FunctionModel>, key: Seq<char>, from: int)
    requires
        0 <= from,
    ensures
        from <= key_position(fs, key, from) || key_position(fs, key, from) == fs.len(),
        key_position(fs, key, from) <= fs.len() || from > fs.len(),
    decreases fs.len() - from,
{
    if from < fs.len() && fs[from].mangled != key {
        lemma_key_position_bounds(fs, key, from + 1);
    }
}

/// A function that was pushed can be called with literals: where a module
/// takes the function `f`, a call of its name with as many literals as it has
/// parameters resolves, and the type of the call is the return type that
/// its callee declares.
pub proof fn lemma_push_then_resolve(fs: Seq<FunctionModel>, f: FunctionModel, args: Seq<ExprModel>)
    requires
        signature_position(fs, f.metadata, 0) >= fs.len(),
        args.len() == f.arguments.len(),
        forall|i: int| 0 <= i < args.len() ==> args[i] is Literal,
    ensures
        ({
            let table = with_function(fs, f);
            let at = callee_position(table, f.name, args, 0);
            &&& 0 <= at < table.len()
            &&& infer_model(
                ExprModel::Call(CallModel { reference: table[at], arguments: args }),
                None,
            ) == Some(table[at].return_type)
        }),
{
    let table = with_function(fs, f);
    let place = key_position(fs, f.mangled, 0);
    lemma_key_position_bounds(fs, f.mangled, 0);
    let here = if place < fs.len() {
        place
    } else {
        fs.len() as int
    };
    assert(table[here] == f);
    assert(accepts(f, f.name, args));
    lemma_callee_found(table, f.name, args, 0, here);
}

/// Where no function from `from` on has a link-time name, none has.
pub proof fn lemma_key_absent(fs: Seq<FunctionModel>, key: Seq<char>, from: int)
    requires
        0 <= from,
        key_position(fs, key, from) >= fs.len(),
    ensures
        forall|k: int| from <= k < fs.len() ==> (#[trigger] fs[k]).mangled != key,
    decreases fs.len() - from,
{
    if from < fs.len() {
        lemma_key_absent(fs, key, from + 1);
    }
}

/// The names of the built-in types differ from each other.
proof fn lemma_builtin_names_differ()
    ensures
        forall|i: int, j: int|
            0 <= i < j < builtin_types().len() ==> builtin_types()[i].0 != builtin_types()[j].0,
{
    reveal_strlit("void");
    reveal_strlit("i8");
    reveal_strlit("u8");
    reveal_strlit("i16");
    reveal_strlit("u16");
    reveal_strlit("i32");
    reveal_strlit("u32");
    reveal_strlit("i64");
    reveal_strlit("u64");
    let t = builtin_types();
    assert(t[0].0 == "void"@ && t[1].0 == "i8"@ && t[2].0 == "u8"@ && t[3].0 == "i16"@ && t[4].0
        == "u16"@ && t[5].0 == "i32"@ && t[6].0 == "u32"@ && t[7].0 == "i64"@ && t[8].0 == "u64"@);
    assert("void"@[0] == 'v' && "void"@.len() == 4);
    assert("i8"@[0] == 'i' && "i8"@[1] == '8' && "i8"@.len() == 2);
    assert("u8"@[0] == 'u' && "u8"@[1] == '8' && "u8"@.len() == 2);
    assert("i16"@[0] == 'i' && "i16"@[1] == '1' && "i16"@.len() == 3);
    assert("u16"@[0] == 'u' && "u16"@[1] == '1' && "u16"@.len() == 3);
    assert("i32"@[0] == 'i' && "i32"@[1] == '3' && "i32"@.len() == 3);
    assert("u32"@[0] == 'u' && "u32"@[1] == '3' && "u32"@.len() == 3);
    assert("i64"@[0] == 'i' && "i64"@[1] == '6' && "i64"@.len() == 3);
    assert("u64"@[0] == 'u' && "u64"@[1] == '6' && "u64"@.len() == 3);
}

fn builtin(name: &str, size: i16, signed: bool) -> (r: (String, DataType))
    ensures
        r.0@ == name@,
        r.1@ == (TypeModel::Scalar { size, signed }),
{
    (String::from_str(name), DataType::Scalar { size, signed })
}

impl Module {
    /// Whether no two types share a name and no two functions a link-time name.
    pub open spec fn wf(&self) -> bool {
        &&& forall|i: int, j: int|
            0 <= i < j < self@.types_def.len() ==> self@.types_def[i].0 != self@.types_def[j].0
        &&& forall|i: int, j: int|
            0 <= i < j < self@.functions.len() ==> self@.functions[i].mangled
                != self@.functions[j].mangled
    }

    /// A module with the built-in scalar types and no function.
    pub fn new() -> (m: Module)
        ensures
            m@.types_def == builtin_types(),
            m@.functions == Seq::<FunctionModel>::empty(),
            m.wf(),
    {
        let mut types_def: Vec<(String, DataType)> = Vec::new();
        types_def.push(builtin("void", 0, false));
        types_def.push(builtin("i8", 1, true));
        types_def.push(builtin("u8", 1, false));
        types_def.push(builtin("i16", 2, true));
        types_def.push(builtin("u16", 2, false));
        types_def.push(builtin("i32", 4, true));
        types_def.push(builtin("u32", 4, false));
        types_def.push(builtin("i64", 8, true));
        types_def.push(builtin("u64", 8, false));
        let m = Module { types_def, functions: Vec::new() };
        assert(m@.types_def =~= builtin_types());
        assert(m@.functions =~= Seq::<FunctionModel>::empty());
        proof {
            lemma_builtin_names_differ();
        }
        m
    }

    /// Adds a function. A function with the same signature must not be there
    /// yet; one with the same link-time name gives way to the new one.
    pub fn push(&mut self, function: Function) -> (r: Result<(), CompilerError>)
        ensures
            final(self)@.types_def == old(self)@.types_def,
            signature_position(old(self)@.functions, function@.metadata, 0) < old(
                self,
            )@.functions.len() ==> {
                &&& r matches Err(CompilerError::AlreadyDefinedFunction { name })
                &&& name@ == function@.metadata
                &&& final(self)@.functions == old(self)@.functions
            },
            signature_position(old(self)@.functions, function@.metadata, 0) >= old(
                self,
            )@.functions.len() ==> {
                &&& r is Ok
                &&& final(self)@.functions == with_function(old(self)@.functions, function@)
            },
            old(self).wf() ==> final(self).wf(),
    {
        let ghost fs = self@.functions;
        let mut i: usize = 0;
        while i < self.functions.len()
            invariant
                i <= self.functions.len(),
                *self == *old(self),
                fs == self@.functions,
                signature_position(fs, function@.metadata, 0) == signature_position(
                    fs,
                    function@.metadata,
                    i as int,
                ),
            decreases self.functions.len() - i,
        {
            if self.functions[i].metadata == function.metadata {
                return Err(CompilerError::AlreadyDefinedFunction { name: function.metadata });
            }
            i += 1;
        }
        let mut k: usize = 0;
        while k < self.functions.len()
            invariant
                k <= self.functions.len(),
                *self == *old(self),
                fs == self@.functions,
                signature_position(fs, function@.metadata, 0) >= fs.len(),
                key_position(fs, function@.mangled, 0) == key_position(
                    fs,
                    function@.mangled,
                    k as int,
                ),
            decreases self.functions.len() - k,
        {
            if self.functions[k].mangled == function.mangled {
                let ghost f = function@;
                self.functions.set(k, function);
                assert(self@.functions =~= with_function(fs, f));
                assert(self@.types_def == old(self)@.types_def);
                return Ok(());
            }
            k += 1;
        }
        let ghost f = function@;
        self.functions.push(function);
        assert(self@.functions =~= with_function(fs, f));
        proof {
            lemma_key_absent(fs, f.mangled, 0);
        }
        Ok(())
    }

    /// The type of this name. Names are compared exactly.
    pub fn resolve_type(&self, name: String) -> (r: Result<DataType, CompilerError>)
        ensures
            ({
                let at = type_position(self@.types_def, name@, 0);
                if at < self@.types_def.len() {
                    r is Ok && r->Ok_0@ == self@.types_def[at].1
                } else {
                    r matches Err(CompilerError::TypeNotFound { name: n }) && n@ == name@
                }
            }),
    {
        let mut i: usize = 0;
        while i < self.types_def.len()
            invariant
                i <= self.types_def.len(),
                type_position(self@.types_def, name@, 0) == type_position(
                    self@.types_def,
                    name@,
                    i as int,
                ),
            decreases self.types_def.len() - i,
        {
            if self.types_def[i].0 == name {
                return Ok(self.types_def[i].1.duplicate());
            }
            i += 1;
        }
        Err(CompilerError::TypeNotFound { name })
    }

    /// Whether a call of `name` with these arguments can go to `function`.
    fn candidate(function: &Function, name: &String, args: &Vec<Expr>) -> (r: bool)
        ensures
            r == accepts(function@, name@, exprs_model(*args)),
    {
        if !(function.name == *name) {
            return false;
        }
        if function.arguments.len() != args.len() {
            return false;
        }
        let mut i: usize = 0;
        while i < args.len()
            invariant
                i <= args.len(),
                function.arguments.len() == args.len(),
                function@.arguments == params_model(function.arguments),
                forall|j: int|
                    0 <= j < i ==> infer_model(
                        #[trigger] exprs_model(*args)[j],
                        Some(function@.arguments[j].1),
                    ) == Some(function@.arguments[j].1),
            decreases args.len() - i,
        {
            let wanted = &function.arguments[i].1;
            let fits = match args[i].infer_type(Some(wanted.duplicate())) {
                Ok(found) => found.same(wanted),
                Err(_) => false,
            };
            if !fits {
                assert(infer_model(exprs_model(*args)[i as int], Some(function@.arguments[i as int].1))
                    != Some(function@.arguments[i as int].1));
                return false;
            }
            i += 1;
        }
        true
    }

    /// The call of `name` with these arguments, bound to the first function in
    /// declaration order that accepts it.
    pub fn resolve_call(&self, name: String, args: Vec<Expr>) -> (r: Result<Expr, CompilerError>)
        ensures
            ({
                let at = callee_position(self@.functions, name@, exprs_model(args), 0);
                if at < self@.functions.len() {
                    r is Ok && r->Ok_0@ == ExprModel::Call(
                        CallModel { reference: self@.functions[at], arguments: exprs_model(args) },
                    )
                } else {
                    r matches Err(CompilerError::FunctionNotFound { name: n }) && n@ == name@
                }
            }),
    {
        let mut i: usize = 0;
        while i < self.functions.len()
            invariant
                i <= self.functions.len(),
                callee_position(self@.functions, name@, exprs_model(args), 0) == callee_position(
                    self@.functions,
                    name@,
                    exprs_model(args),
                    i as int,
                ),
            decreases self.functions.len() - i,
        {
            if Module::candidate(&self.functions[i], &name, &args) {
                let call = FunctionCall { reference: self.functions[i].duplicate(), arguments: args };
                assert(call@.reference == call.reference@);
                assert(call@.arguments == exprs_model(call.arguments));
                return Ok(Expr::Call(call));
            }
            i += 1;
        }
        Err(CompilerError::FunctionNotFound { name })
    }
}

impl Module {
    /// A deep copy.
    pub fn duplicate(&self) -> (r: Module)
        ensures
            r@ == self@,
    {
        let mut functions: Vec<Function> = Vec::new();
        let mut i: usize = 0;
        while i < self.functions.len()
            invariant
                i <= self.functions.len(),
                functions.len() == i,
                forall|j: int| 0 <= j < i ==> functions@[j]@ == self.functions@[j]@,
            decreases self.functions.len() - i,
        {
            functions.push(self.functions[i].duplicate());
            i += 1;
        }
        let r = Module { types_def: clone_params(&self.types_def), functions };
        assert(r@.functions =~= self@.functions);
        r
    }

    /// Structural equality.
    pub fn same(&self, other: &Module) -> (r: bool)
        ensures
            r == (self@ == other@),
    {
        if !same_params(&self.types_def, &other.types_def) {
            return false;
        }
        if self.functions.len() != other.functions.len() {
            assert(self@.functions.len() != other@.functions.len());
            return false;
        }
        let mut i: usize = 0;
        while i < self.functions.len()
            invariant
                i <= self.functions.len(),
                self.functions.len() == other.functions.len(),
                forall|j: int| 0 <= j < i ==> self@.functions[j] == other@.functions[j],
            decreases self.functions.len() - i,
        {
            if !self.functions[i].same(&other.functions[i]) {
                assert(self@.functions[i as int] != other@.functions[i as int]);
                return false;
            }
            i += 1;
        }
        assert(self@.functions =~= other@.functions);
        true
    }
}

impl Clone for Module {
    fn clone(&self) -> (r: Module)
        ensures
            r@ == self@,
    {
        self.duplicate()
    }
}

impl PartialEq for Module {
    fn eq(&self, other: &Module) -> (r: bool) {
        self.same(other)
    }
}

impl PartialEqSpecImpl for Module {
    open spec fn obeys_eq_spec() -> bool {
        true
    }

    open spec fn eq_spec(&self, other: &Module) -> bool {
        self@ == other@
    }
}

} // verus!
