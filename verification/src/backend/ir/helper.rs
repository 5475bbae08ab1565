use crate::backend::ir::text::{decimal, lower_hex, push_char, push_decimal, push_lower_hex};
use crate::backend::ir::types::{params_model, DataType, TypeModel};
use vstd::prelude::*;
use vstd::string::StringExecFns;
use vstd::utf8::encode_utf8;

verus! {

/// The canonical text of a type: `void`, `i32`, `*u8`, `[i32; 4]`, and a
/// struct with one line for each field.
pub open spec fn type_text(t: TypeModel) -> Seq<char>
    decreases t, 0nat,
{
    match t {
        TypeModel::Scalar { size, signed } => if size == 0 {
            "void"@
        } else {
            seq![if signed { 'i' } else { 'u' }] + decimal(size * 8)
        },
        TypeModel::Pointer { target } => seq!['*'] + type_text(*target),
        TypeModel::Array { target, capacity } => seq!['['] + type_text(*target) + "; "@ + decimal(
            capacity as int,
        ) + seq![']'],
        TypeModel::Struct { path, fields } => "struct "@ + path + " {\n"@ + fields_text(
            fields,
            fields.len(),
        ) + seq!['}'],
    }
}

/// The lines of the first `n` fields of a struct.
pub open spec fn fields_text(fields: Seq<(Seq<char>, TypeModel)>, n: nat) -> Seq<char>
    decreases fields, n,
{
    if n == 0 || n > fields.len() {
        Seq::empty()
    } else {
        fields_text(fields, (n - 1) as nat) + "    "@ + fields[n - 1].0 + ": "@ + type_text(
            fields[n - 1].1,
        ) + ",\n"@
    }
}

/// The types of the first `n` parameters, with `, ` between them.
pub open spec fn params_text(params: Seq<(Seq<char>, TypeModel)>, n: nat) -> Seq<char>
    decreases n,
{
    if n == 0 || n > params.len() {
        Seq::empty()
    } else if n == 1 {
        type_text(params[0].1)
    } else {
        params_text(params, (n - 1) as nat) + ", "@ + type_text(params[n - 1].1)
    }
}

/// The canonical signature `name(argType, argType, ...)->returnType`.
pub open spec fn signature_text(
    name: Seq<char>,
    params: Seq<(Seq<char>, TypeModel)>,
    return_type: TypeModel,
) -> Seq<char> {
    name + seq!['('] + params_text(params, params.len()) + ")->"@ + type_text(return_type)
}

/// The link-time name that goes with a hash of the signature.
pub open spec fn symbol_text(digest: u64) -> Seq<char> {
    "func_"@ + lower_hex(digest as nat)
}

/// What `xxh3_64` of the crate `xxhash_rust` returns for these bytes.
pub uninterp spec fn xxh3_digest(input: Seq<u8>) -> u64;

/// `xxhash_rust::xxh3::xxh3_64`: the 64-bit XXH3 hash, with seed 0 and the
/// default secret, is a function of the input bytes alone.
pub assume_specification[ xxhash_rust::xxh3::xxh3_64 ](input: &[u8]) -> (digest: u64)
    ensures
        digest == xxh3_digest(input@),
;

/// Appends the canonical text of a type.
pub fn write_type(s: &mut String, t: &DataType)
    ensures
        final(s)@ == old(s)@ + type_text(t@),
    decreases *t, 1nat,
{
    match t {
        DataType::Scalar { size, signed } => {
            if *size == 0 {
                s.append("void");
            } else {
                push_char(s, if *signed { 'i' } else { 'u' });
                push_decimal(s, (*size as i64) * 8);
                assert(s@ =~= old(s)@ + type_text(t@));
            }
        },
        DataType::Pointer { target } => {
            push_char(s, '*');
            write_type(s, target);
            assert(s@ =~= old(s)@ + type_text(t@));
        },
        DataType::Array { target, capacity } => {
            push_char(s, '[');
            write_type(s, target);
            s.append("; ");
            push_decimal(s, *capacity as i64);
            push_char(s, ']');
            assert(s@ =~= old(s)@ + type_text(t@));
        },
        DataType::Struct { path, fields } => {
            s.append("struct ");
            s.append(path.as_str());
            s.append(" {\n");
            let ghost head = s@;
            let ghost model = params_model(*fields);
            let mut i: usize = 0;
            while i < fields.len()
                invariant
                    i <= fields.len(),
                    model == params_model(*fields),
                    s@ == head + fields_text(model, i as nat),
                    forall|j: int|
                        0 <= j < fields.len() ==> decreases_to!(*t => #[trigger] fields@[j]),
                decreases fields.len() - i,
            {
                s.append("    ");
                s.append(fields[i].0.as_str());
                s.append(": ");
                write_type(s, &fields[i].1);
                s.append(",\n");
                i += 1;
                assert(s@ =~= head + fields_text(model, i as nat));
            }
            push_char(s, '}');
            assert(s@ =~= old(s)@ + type_text(t@));
        },
    }
}

impl DataType {
    /// The canonical text of the type.
    pub fn to_string(&self) -> (r: String)
        ensures
            r@ == type_text(self@),
    {
        let mut s = String::new();
        write_type(&mut s, self);
        assert(s@ =~= type_text(self@));
        s
    }
}

/// The canonical signature of a function: its name, the types of its
/// arguments between parentheses, an arrow and its return type.
pub fn mangle(name: String, arguments: Vec<(String, DataType)>, return_type: DataType) -> (r:
    String)
    ensures
        r@ == signature_text(name@, params_model(arguments), return_type@),
{
    let mut metadata = name;
    push_char(&mut metadata, '(');
    let ghost head = metadata@;
    let ghost model = params_model(arguments);
    let mut i: usize = 0;
    while i < arguments.len()
        invariant
            i <= arguments.len(),
            model == params_model(arguments),
            metadata@ == head + params_text(model, i as nat),
        decreases arguments.len() - i,
    {
        if i != 0 {
            metadata.append(", ");
        }
        write_type(&mut metadata, &arguments[i].1);
        i += 1;
        assert(metadata@ =~= head + params_text(model, i as nat));
    }
    metadata.append(")->");
    write_type(&mut metadata, &return_type);
    assert(metadata@ =~= signature_text(name@, model, return_type@));
    metadata
}

/// The link-time name for a digest of the signature: `func_` and the digest
/// in lower-case hexadecimal.
pub fn symbol_for(digest: u64) -> (r: String)
    ensures
        r@ == symbol_text(digest),
{
    let mut s = String::from_str("func_");
    push_lower_hex(&mut s, digest);
    s
}

/// The link-time name of a function with the signature `metadata`.
pub fn hash(metadata: String) -> (r: String)
    ensures
        r@ == symbol_text(xxh3_digest(encode_utf8(metadata@))),
{
    let digest = xxhash_rust::xxh3::xxh3_64(metadata.as_str().as_bytes());
    symbol_for(digest)
}

} // verus!
