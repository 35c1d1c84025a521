//! The functions of a guest module: how annotated functions are found, how each is described, and
//! how its wrapper is put together.

use vstd::prelude::*;
use crate::edit::{lemma_array_of_wf, lemma_member_set_wf, lemma_object_of_wf, member_set};
use crate::json::{
    distinct_keys, find_member, has_member, lemma_array_tree, lemma_member_index,
    lemma_object_tree, member_index, members, tree_wf, trees, Json, JsonTree, Members,
};
use crate::json_text::{print_json, text_of_json};
use crate::text::{
    concat, contains, decimal, decimal_text, is_listed, lemma_decimal_digits, listed, occurs,
    same_text, texts,
};

verus! {

/// A type in a signature, as far as it matters here.
#[derive(Debug)]
pub enum TypeAst {
    /// A path, by its last segment; with the first and the last generic argument where they are
    /// types, and the whole type as text without spaces.
    Path {
        ident: String,
        first_arg: Option<Box<TypeAst>>,
        last_arg: Option<Box<TypeAst>>,
        text: String,
    },
    /// A reference.
    Reference(Box<TypeAst>),
    /// A tuple, by the number of its elements.
    Tuple(usize),
    /// Any other type.
    Other,
}

/// The annotations that are recognized, each with the type of function that it stands for.
pub open spec fn type_of_annotation(name: Seq<char>) -> Option<Seq<char>> {
    if name == "query"@ {
        Some("query"@)
    } else if name == "mutation"@ {
        Some("mutation"@)
    } else if name == "action"@ {
        Some("action"@)
    } else if name == "http_action"@ {
        Some("httpAction"@)
    } else {
        None
    }
}

fn annotation_type(name: &str) -> (r: Option<&'static str>)
    ensures
        match r {
            Some(t) => type_of_annotation(name@) == Some(t@),
            None => type_of_annotation(name@) is None,
        },
{
    if same_text(name, "query") {
        Some("query")
    } else if same_text(name, "mutation") {
        Some("mutation")
    } else if same_text(name, "action") {
        Some("action")
    } else if same_text(name, "http_action") {
        Some("httpAction")
    } else {
        None
    }
}

/// The position of the first attribute that is an annotation, or the number of attributes.
pub open spec fn annotation_index(attrs: Seq<Seq<char>>) -> nat
    decreases attrs.len(),
{
    if attrs.len() == 0 || type_of_annotation(attrs[0]) is Some {
        0
    } else {
        1 + annotation_index(attrs.skip(1))
    }
}

/// The first annotation among some attributes, which are given by the last segments of their
/// paths; with the type of function that it stands for.
pub fn function_type_from_attrs(attrs: &Vec<String>) -> (r: Option<(String, &'static str)>)
    ensures
        ({
            let i = annotation_index(texts(attrs@));
            match r {
                Some((annotation, t)) => i < attrs@.len() && annotation@ == attrs@[i as int]@
                    && type_of_annotation(annotation@) == Some(t@),
                None => i == attrs@.len(),
            }
        }),
{
    let ghost all = texts(attrs@);
    let mut i: usize = 0;
    assert(all.skip(0) =~= all);
    while i < attrs.len()
        invariant
            i <= attrs.len(),
            all == texts(attrs@),
            annotation_index(all) == i + annotation_index(all.skip(i as int)),
        decreases attrs.len() - i,
    {
        assert(all.skip(i as int).skip(1) =~= all.skip(i + 1));
        assert(all.skip(i as int)[0] == attrs@[i as int]@);
        if let Some(t) = annotation_type(attrs[i].as_str()) {
            return Some((attrs[i].clone(), t));
        }
        i += 1;
    }
    None
}

/// Whether a type is that of a context.
pub open spec fn context_type(t: TypeAst) -> bool {
    t matches TypeAst::Path { ident, .. } && ident@ == "Context"@
}

/// Whether a type is that of a context.
pub fn is_context_type(t: &TypeAst) -> (r: bool)
    ensures
        r == context_type(*t),
{
    match t {
        TypeAst::Path { ident, .. } => same_text(ident.as_str(), "Context"),
        _ => false,
    }
}

/// Whether a type is a result.
pub open spec fn result_type(t: TypeAst) -> bool {
    t matches TypeAst::Path { ident, .. } && ident@ == "Result"@
}

/// Whether a type is a result.
pub fn is_result_type(t: &TypeAst) -> (r: bool)
    ensures
        r == result_type(*t),
{
    match t {
        TypeAst::Path { ident, .. } => same_text(ident.as_str(), "Result"),
        _ => false,
    }
}

/// Whether a type is the unit type.
pub fn is_unit_type(t: &TypeAst) -> (r: bool)
    ensures
        r == (*t == TypeAst::Tuple(0)),
{
    match t {
        TypeAst::Tuple(n) => *n == 0,
        _ => false,
    }
}

/// What a result holds, where its first argument is a type.
pub open spec fn result_inner(t: TypeAst) -> Option<TypeAst> {
    match t {
        TypeAst::Path { ident, first_arg: Some(inner), .. } if ident@ == "Result"@ => Some(*inner),
        _ => None,
    }
}

/// What a result holds, where its first argument is a type.
pub fn extract_result_inner(t: &TypeAst) -> (r: Option<&TypeAst>)
    ensures
        match r {
            Some(inner) => result_inner(*t) == Some(*inner),
            None => result_inner(*t) is None,
        },
{
    match t {
        TypeAst::Path { ident, first_arg, .. } => if same_text(ident.as_str(), "Result") {
            match first_arg {
                Some(inner) => Some(&**inner),
                None => None,
            }
        } else {
            None
        },
        _ => None,
    }
}

/// A validator without parts.
pub open spec fn simple_validator(name: Seq<char>) -> JsonTree {
    JsonTree::Object(seq![("type"@, JsonTree::Text(name))])
}

/// The validator of an array.
pub open spec fn array_validator(inner: JsonTree) -> JsonTree {
    JsonTree::Object(seq![("type"@, JsonTree::Text("array"@)), ("value"@, inner)])
}

/// The names of types that are text.
pub open spec fn string_names() -> Seq<&'static str> {
    seq!["String", "str", "ConvexString", "GenericId", "Id"]
}

/// The names of types that are integers.
pub open spec fn integer_names() -> Seq<&'static str> {
    seq!["i64", "u64", "i32", "u32", "i16", "u16", "i8", "u8", "isize", "usize", "Int64"]
}

/// The names of types that can be anything.
pub open spec fn any_names() -> Seq<&'static str> {
    seq!["Document", "ConvexValue", "JsonValue", "Value", "JsonElement", "User"]
}

/// Whether a type is one of floating point numbers.
pub open spec fn is_float_name(name: Seq<char>) -> bool {
    name == "f"@ + "64"@ || name == "f"@ + "32"@ || name == "Float64"@
}

/// The validator of a type that is neither optional nor a collection.
pub open spec fn plain_validator(ident: Seq<char>, text: Seq<char>) -> JsonTree {
    if listed(string_names(), ident) {
        simple_validator("string"@)
    } else if ident == "bool"@ || ident == "Boolean"@ {
        simple_validator("boolean"@)
    } else if is_float_name(ident) {
        simple_validator("number"@)
    } else if listed(integer_names(), ident) {
        simple_validator("bigint"@)
    } else if ident == "Bytes"@ || ident == "Vec_u8"@ {
        simple_validator("bytes"@)
    } else if listed(any_names(), ident) {
        simple_validator("any"@)
    } else if occurs(text, "String"@) {
        simple_validator("string"@)
    } else if occurs(text, "Vec"@) {
        array_validator(simple_validator("any"@))
    } else {
        simple_validator("any"@)
    }
}

/// Whether a type is a list.
pub open spec fn list_name(ident: Seq<char>) -> bool {
    ident == "Vec"@ || ident == "VecDeque"@
}

/// Whether a type is a set or a map.
pub open spec fn set_name(ident: Seq<char>) -> bool {
    ident == "BTreeSet"@ || ident == "HashSet"@ || ident == "HashMap"@ || ident == "BTreeMap"@
}

/// The validator of a type, and whether the type is optional. An optional type has the validator of
/// what it holds; a list, a set and a map have that of an array of what they hold.
pub open spec fn validator_of(t: TypeAst) -> (JsonTree, bool)
    decreases t,
{
    match t {
        TypeAst::Path { ident, first_arg, last_arg, text } => if ident@ == "Option"@ {
            match first_arg {
                Some(inner) => (validator_of(*inner).0, true),
                None => (simple_validator("any"@), true),
            }
        } else if list_name(ident@) {
            match first_arg {
                Some(inner) => (array_validator(validator_of(*inner).0), false),
                None => (array_validator(simple_validator("any"@)), false),
            }
        } else if set_name(ident@) {
            match last_arg {
                Some(inner) => (array_validator(validator_of(*inner).0), false),
                None => (simple_validator("any"@), false),
            }
        } else {
            (plain_validator(ident@, text@), false)
        },
        TypeAst::Reference(inner) => validator_of(*inner),
        _ => (simple_validator("any"@), false),
    }
}

proof fn lemma_validator_names()
    ensures
        "type"@ != "value"@,
        "fieldType"@ != "optional"@,
{
    reveal_strlit("type");
    reveal_strlit("value");
    reveal_strlit("fieldType");
    reveal_strlit("optional");
    assert("type"@[0] == 't' && "value"@[0] == 'v');
    assert("fieldType"@[0] == 'f' && "optional"@[0] == 'o');
}

fn pair_object(a: &str, x: Json, b: &str, y: Json) -> (r: Json)
    requires
        a@ != b@,
        tree_wf(x.tree()),
        tree_wf(y.tree()),
    ensures
        r.tree() == JsonTree::Object(seq![(a@, x.tree()), (b@, y.tree())]),
        tree_wf(r.tree()),
{
    let ghost want = seq![(a@, x.tree()), (b@, y.tree())];
    let mut es: Vec<(String, Json)> = Vec::new();
    es.push((a.to_owned(), x));
    es.push((b.to_owned(), y));
    proof {
        lemma_object_tree(es);
        assert(members(es@) =~= want);
        lemma_object_of_wf(want);
    }
    Json::Object(es)
}

fn simple_json(name: &str) -> (r: Json)
    ensures
        r.tree() == simple_validator(name@),
        tree_wf(r.tree()),
{
    let mut es: Vec<(String, Json)> = Vec::new();
    es.push(("type".to_owned(), Json::Text(name.to_owned())));
    proof {
        lemma_object_tree(es);
        assert(members(es@) =~= simple_validator(name@)->Object_0);
        lemma_object_of_wf(members(es@));
    }
    Json::Object(es)
}

fn array_json(inner: Json) -> (r: Json)
    requires
        tree_wf(inner.tree()),
    ensures
        r.tree() == array_validator(inner.tree()),
        tree_wf(r.tree()),
{
    proof {
        lemma_validator_names();
    }
    pair_object("type", Json::Text("array".to_owned()), "value", inner)
}

fn is_string_name(name: &str) -> (r: bool)
    ensures
        r == listed(string_names(), name@),
{
    let names: [&str; 5] = ["String", "str", "ConvexString", "GenericId", "Id"];
    assert(names@ =~= string_names());
    is_listed(&names, name)
}

fn is_integer_name(name: &str) -> (r: bool)
    ensures
        r == listed(integer_names(), name@),
{
    let names: [&str; 11] = [
        "i64",
        "u64",
        "i32",
        "u32",
        "i16",
        "u16",
        "i8",
        "u8",
        "isize",
        "usize",
        "Int64",
    ];
    assert(names@ =~= integer_names());
    is_listed(&names, name)
}

fn is_any_name(name: &str) -> (r: bool)
    ensures
        r == listed(any_names(), name@),
{
    let names: [&str; 6] = ["Document", "ConvexValue", "JsonValue", "Value", "JsonElement", "User"];
    assert(names@ =~= any_names());
    is_listed(&names, name)
}

fn plain_json(ident: &str, text: &str) -> (r: Json)
    ensures
        r.tree() == plain_validator(ident@, text@),
        tree_wf(r.tree()),
{
    if is_string_name(ident) {
        simple_json("string")
    } else if same_text(ident, "bool") || same_text(ident, "Boolean") {
        simple_json("boolean")
    } else if same_text(ident, concat("f", "64").as_str()) || same_text(
        ident,
        concat("f", "32").as_str(),
    ) || same_text(ident, "Float64") {
        simple_json("number")
    } else if is_integer_name(ident) {
        simple_json("bigint")
    } else if same_text(ident, "Bytes") || same_text(ident, "Vec_u8") {
        simple_json("bytes")
    } else if is_any_name(ident) {
        simple_json("any")
    } else if contains(text, "String") {
        simple_json("string")
    } else if contains(text, "Vec") {
        array_json(simple_json("any"))
    } else {
        simple_json("any")
    }
}

/// The validator of a type, and whether the type is optional.
pub fn validator_for_type(t: &TypeAst) -> (r: (Json, bool))
    ensures
        (r.0.tree(), r.1) == validator_of(*t),
        tree_wf(r.0.tree()),
    decreases t,
{
    match t {
        TypeAst::Path { ident, first_arg, last_arg, text } => {
            let name = ident.as_str();
            if same_text(name, "Option") {
                match first_arg {
                    Some(inner) => {
                        let (v, _) = validator_for_type(&**inner);
                        (v, true)
                    },
                    None => (simple_json("any"), true),
                }
            } else if same_text(name, "Vec") || same_text(name, "VecDeque") {
                match first_arg {
                    Some(inner) => {
                        let (v, _) = validator_for_type(&**inner);
                        (array_json(v), false)
                    },
                    None => (array_json(simple_json("any")), false),
                }
            } else if same_text(name, "BTreeSet") || same_text(name, "HashSet") || same_text(
                name,
                "HashMap",
            ) || same_text(name, "BTreeMap") {
                match last_arg {
                    Some(inner) => {
                        let (v, _) = validator_for_type(&**inner);
                        (array_json(v), false)
                    },
                    None => (simple_json("any"), false),
                }
            } else {
                (plain_json(name, text.as_str()), false)
            }
        },
        TypeAst::Reference(inner) => validator_for_type(&**inner),
        _ => (simple_json("any"), false),
    }
}

/// An argument of a function: its name, where its pattern is one, and its type.
#[derive(Debug)]
pub struct ArgSpec {
    pub name: Option<String>,
    pub ty: TypeAst,
}

/// A function with an annotation.
#[derive(Debug)]
pub struct FunctionSpec {
    pub name: String,
    pub function_type: &'static str,
    pub is_async: bool,
    pub has_context: bool,
    pub args: Vec<ArgSpec>,
    pub return_ty: TypeAst,
    pub is_result_return: bool,
}

/// The validator of a field.
pub open spec fn field_validator(t: TypeAst) -> JsonTree {
    JsonTree::Object(
        seq![
            ("fieldType"@, validator_of(t).0),
            ("optional"@, JsonTree::Bool(validator_of(t).1)),
        ],
    )
}

/// The fields of the first `k` arguments that have a name.
pub open spec fn arg_fields(args: Seq<ArgSpec>, k: nat) -> Members
    decreases k,
{
    if k == 0 || k > args.len() {
        Seq::empty()
    } else {
        let before = arg_fields(args, (k - 1) as nat);
        match args[k - 1].name {
            Some(name) => member_set(before, name@, field_validator(args[k - 1].ty)),
            None => before,
        }
    }
}

/// The validator of the arguments of a function: an object with a field for each argument.
pub open spec fn args_validator(args: Seq<ArgSpec>) -> JsonTree {
    JsonTree::Object(
        seq![
            ("type"@, JsonTree::Text("object"@)),
            ("value"@, JsonTree::Object(arg_fields(args, args.len()))),
        ],
    )
}

/// The type that a function returns, without the result around it.
pub open spec fn returned_type(f: FunctionSpec) -> TypeAst {
    if f.is_result_return {
        match result_inner(f.return_ty) {
            Some(inner) => inner,
            None => f.return_ty,
        }
    } else {
        f.return_ty
    }
}

/// The validator of what a function returns: null for nothing, and a union with null for an
/// optional type.
pub open spec fn returns_validator(f: FunctionSpec) -> JsonTree {
    let t = returned_type(f);
    if t == TypeAst::Tuple(0) {
        simple_validator("null"@)
    } else if validator_of(t).1 {
        JsonTree::Object(
            seq![
                ("type"@, JsonTree::Text("union"@)),
                (
                    "value"@,
                    JsonTree::Array(seq![validator_of(t).0, simple_validator("null"@)]),
                ),
            ],
        )
    } else {
        validator_of(t).0
    }
}

/// How a wrapper calls its function.
#[derive(Debug)]
pub struct WrapperPlan {
    pub wrapped_name: String,
    /// The names of the variables that hold the arguments.
    pub arg_idents: Vec<String>,
    /// What is said where an argument has the wrong type.
    pub invalid_messages: Vec<String>,
    /// What the function is called with.
    pub call_args: Vec<String>,
    pub is_async: bool,
    /// Whether an error that the function returns is reported.
    pub maps_result: bool,
}

/// What a module lists of a function: its name and its wrapper, and how it is described.
#[derive(Debug)]
pub struct GeneratedEntry {
    pub name: String,
    pub wrapped_name: String,
    pub function_type: &'static str,
    pub args: String,
    pub returns: String,
    pub visibility: &'static str,
}

/// What an argument is called in messages.
pub open spec fn arg_label(a: ArgSpec, i: nat) -> Seq<char> {
    match a.name {
        Some(name) => name@,
        None => "argument "@ + decimal(i),
    }
}

impl FunctionSpec {
    /// The name of the wrapper of a function.
    pub fn wrapped_name(&self) -> (r: String)
        ensures
            r@ == "__convex_wrap_"@ + self.name@,
    {
        concat("__convex_wrap_", self.name.as_str())
    }

    /// What a module lists of a function.
    pub fn entry(&self) -> (r: GeneratedEntry)
        ensures
            r.name@ == self.name@,
            r.wrapped_name@ == "__convex_wrap_"@ + self.name@,
            r.function_type@ == self.function_type@,
            r.args@ == text_of_json(args_validator(self.args@)),
            r.returns@ == text_of_json(returns_validator(*self)),
            r.visibility@ == "public"@,
    {
        GeneratedEntry {
            name: self.name.clone(),
            wrapped_name: self.wrapped_name(),
            function_type: self.function_type,
            args: self.args_validator_json(),
            returns: self.returns_validator_json(),
            visibility: "public",
        }
    }

    /// How the wrapper of a function calls it.
    pub fn wrapper(&self) -> (r: WrapperPlan)
        ensures
            r.wrapped_name@ == "__convex_wrap_"@ + self.name@,
            r.is_async == self.is_async,
            r.maps_result == self.is_result_return,
            texts(r.arg_idents@) == Seq::new(
                self.args@.len(),
                |i: int| "__arg"@ + decimal(i as nat),
            ),
            texts(r.invalid_messages@) == Seq::new(
                self.args@.len(),
                |i: int| "Invalid value for "@ + arg_label(self.args@[i], i as nat),
            ),
            texts(r.call_args@) == (if self.has_context {
                seq!["ctx"@]
            } else {
                Seq::empty()
            }) + texts(r.arg_idents@),
    {
        let mut arg_idents: Vec<String> = Vec::new();
        let mut invalid_messages: Vec<String> = Vec::new();
        let mut call_args: Vec<String> = Vec::new();
        if self.has_context {
            call_args.push("ctx".to_owned());
        }
        let ghost prefix = texts(call_args@);
        proof {
            assert(prefix =~= (if self.has_context {
                seq!["ctx"@]
            } else {
                Seq::empty()
            }));
            assert(texts(arg_idents@) =~= Seq::empty());
            assert(prefix + texts(arg_idents@) =~= prefix);
        }
        let mut i: usize = 0;
        while i < self.args.len()
            invariant
                i <= self.args.len(),
                texts(arg_idents@) =~= Seq::new(i as nat, |j: int| "__arg"@ + decimal(j as nat)),
                texts(invalid_messages@) =~= Seq::new(
                    i as nat,
                    |j: int| "Invalid value for "@ + arg_label(self.args@[j], j as nat),
                ),
                texts(call_args@) == prefix + texts(arg_idents@),
            decreases self.args.len() - i,
        {
            let label = match &self.args[i].name {
                Some(name) => name.clone(),
                None => concat("argument ", decimal_text(i as u64).as_str()),
            };
            let ident = concat("__arg", decimal_text(i as u64).as_str());
            let ghost idents = texts(arg_idents@);
            let ghost calls = texts(call_args@);
            let ghost messages = texts(invalid_messages@);
            invalid_messages.push(concat("Invalid value for ", label.as_str()));
            call_args.push(ident.clone());
            arg_idents.push(ident);
            proof {
                assert(texts(arg_idents@) =~= idents.push(ident@));
                assert(texts(call_args@) =~= calls.push(ident@));
                assert(texts(invalid_messages@) =~= messages.push("Invalid value for "@ + label@));
                assert(texts(call_args@) =~= prefix + texts(arg_idents@));
            }
            i += 1;
        }
        WrapperPlan {
            wrapped_name: self.wrapped_name(),
            arg_idents,
            invalid_messages,
            call_args,
            is_async: self.is_async,
            maps_result: self.is_result_return,
        }
    }

    /// The validator of the arguments of a function, as text.
    pub fn args_validator_json(&self) -> (r: String)
        ensures
            r@ == text_of_json(args_validator(self.args@)),
    {
        let mut fields: Vec<(String, Json)> = Vec::new();
        let mut i: usize = 0;
        proof {
            lemma_validator_names();
            assert(members(fields@) =~= Seq::empty());
            lemma_object_of_wf(members(fields@));
        }
        while i < self.args.len()
            invariant
                i <= self.args.len(),
                "fieldType"@ != "optional"@,
                members(fields@) == arg_fields(self.args@, i as nat),
                tree_wf(JsonTree::Object(members(fields@))),
            decreases self.args.len() - i,
        {
            if let Some(name) = &self.args[i].name {
                let (validator, optional) = validator_for_type(&self.args[i].ty);
                let field = pair_object("fieldType", validator, "optional", Json::Bool(optional));
                let ghost before = members(fields@);
                let ghost value = field.tree();
                proof {
                    lemma_member_index(before, name@);
                    lemma_member_set_wf(before, name@, value);
                }
                match find_member(&fields, name.as_str()) {
                    Some(k) => {
                        fields.set(k, (name.clone(), field));
                    },
                    None => {
                        fields.push((name.clone(), field));
                    },
                }
                assert(members(fields@) =~= member_set(before, name@, value));
            }
            i += 1;
        }
        proof {
            lemma_object_tree(fields);
        }
        let whole = pair_object(
            "type",
            Json::Text("object".to_owned()),
            "value",
            Json::Object(fields),
        );
        print_json(&whole)
    }

    /// The validator of what a function returns, as text.
    pub fn returns_validator_json(&self) -> (r: String)
        ensures
            r@ == text_of_json(returns_validator(*self)),
    {
        let inner = if self.is_result_return {
            match extract_result_inner(&self.return_ty) {
                Some(t) => t,
                None => &self.return_ty,
            }
        } else {
            &self.return_ty
        };
        if is_unit_type(inner) {
            return print_json(&simple_json("null"));
        }
        let (validator, optional) = validator_for_type(inner);
        if optional {
            let ghost t = validator.tree();
            let mut parts: Vec<Json> = Vec::new();
            parts.push(validator);
            parts.push(simple_json("null"));
            proof {
                lemma_validator_names();
                assert(trees(parts@) =~= seq![t, simple_validator("null"@)]);
                lemma_array_tree(parts);
                lemma_array_of_wf(trees(parts@));
            }
            print_json(
                &pair_object(
                    "type",
                    Json::Text("union".to_owned()),
                    "value",
                    Json::Array(parts),
                ),
            )
        } else {
            print_json(&validator)
        }
    }
}

/// An input of a function: a receiver, or an argument with its type.
#[derive(Debug)]
pub enum FnInput {
    Receiver,
    Typed(ArgSpec),
}

/// A function of a module: the last segments of the paths of its attributes, and its signature.
#[derive(Debug)]
pub struct FunctionItem {
    pub attrs: Vec<String>,
    pub name: String,
    pub is_async: bool,
    pub inputs: Vec<FnInput>,
    /// What the function returns, where that is written down.
    pub output: Option<TypeAst>,
}

/// The type that a function returns: the unit type where none is written down.
pub open spec fn output_type(output: Option<TypeAst>) -> TypeAst {
    match output {
        Some(t) => t,
        None => TypeAst::Tuple(0),
    }
}

/// Whether the first of some inputs is a context.
pub open spec fn takes_context(inputs: Seq<FnInput>) -> bool {
    inputs.len() > 0 && match inputs[0] {
        FnInput::Typed(a) => context_type(a.ty),
        FnInput::Receiver => false,
    }
}

/// The arguments among the first `k` inputs of a function: those that are neither a receiver nor
/// the context.
pub open spec fn user_args(inputs: Seq<FnInput>, k: nat) -> Seq<ArgSpec>
    decreases k,
{
    if k == 0 || k > inputs.len() {
        Seq::empty()
    } else {
        let before = user_args(inputs, (k - 1) as nat);
        match inputs[k - 1] {
            FnInput::Typed(a) if !(k == 1 && takes_context(inputs)) => before.push(a),
            _ => before,
        }
    }
}

/// Whether `f` describes an annotated function.
pub open spec fn describes(f: FunctionSpec, item: FunctionItem) -> bool {
    let i = annotation_index(texts(item.attrs@));
    &&& f.name@ == item.name@
    &&& i < item.attrs@.len()
    &&& type_of_annotation(item.attrs@[i as int]@) == Some(f.function_type@)
    &&& f.is_async == item.is_async
    &&& f.has_context == takes_context(item.inputs@)
    &&& f.args@ == user_args(item.inputs@, item.inputs@.len())
    &&& f.return_ty == output_type(item.output)
    &&& f.is_result_return == result_type(f.return_ty)
}

/// Which of some attributes stay on a function: those that are not its annotation.
pub open spec fn stays(attrs: Seq<Seq<char>>, k: int) -> bool {
    let i = annotation_index(attrs);
    i == attrs.len() || attrs[k] != attrs[i as int]
}

/// Splits the inputs of a function into the context and the arguments.
fn split_inputs(inputs: Vec<FnInput>) -> (r: (bool, Vec<ArgSpec>))
    ensures
        r.0 == takes_context(inputs@),
        r.1@ == user_args(inputs@, inputs@.len()),
{
    let ghost all = inputs@;
    let mut rest = inputs;
    let mut has_context = false;
    let mut args: Vec<ArgSpec> = Vec::new();
    let mut k: usize = 0;
    let n: usize = rest.len();
    assert(all.skip(0) =~= all);
    while k < n
        invariant
            k <= n == all.len(),
            rest@ == all.skip(k as int),
            has_context == (k > 0 && takes_context(all)),
            args@ == user_args(all, k as nat),
        decreases n - k,
    {
        let input = rest.remove(0);
        assert(input == all[k as int]);
        assert(rest@ =~= all.skip(k + 1));
        match input {
            FnInput::Typed(a) => {
                if k == 0 && is_context_type(&a.ty) {
                    has_context = true;
                } else {
                    args.push(a);
                }
            },
            FnInput::Receiver => {},
        }
        k += 1;
    }
    (has_context, args)
}

/// What a function is described by, where it has an annotation; and which of its attributes stay.
pub fn collect_function(item: FunctionItem) -> (r: (Option<FunctionSpec>, Vec<bool>))
    ensures
        match r.0 {
            Some(f) => describes(f, item),
            None => annotation_index(texts(item.attrs@)) == item.attrs@.len(),
        },
        r.1@ == Seq::new(item.attrs@.len(), |k: int| stays(texts(item.attrs@), k)),
{
    let annotated = function_type_from_attrs(&item.attrs);
    let mut kept: Vec<bool> = Vec::new();
    let mut k: usize = 0;
    while k < item.attrs.len()
        invariant
            k <= item.attrs@.len(),
            kept@ =~= Seq::new(k as nat, |j: int| stays(texts(item.attrs@), j)),
            ({
                let i = annotation_index(texts(item.attrs@));
                match annotated {
                    Some((annotation, t)) => i < item.attrs@.len() && annotation@
                        == item.attrs@[i as int]@ && type_of_annotation(annotation@) == Some(t@),
                    None => i == item.attrs@.len(),
                }
            }),
        decreases item.attrs@.len() - k,
    {
        let keep = match &annotated {
            Some((annotation, _)) => !same_text(item.attrs[k].as_str(), annotation.as_str()),
            None => true,
        };
        assert(texts(item.attrs@)[k as int] == item.attrs@[k as int]@);
        kept.push(keep);
        k += 1;
    }
    match annotated {
        Some((_, function_type)) => {
            let (has_context, args) = split_inputs(item.inputs);
            let return_ty = match item.output {
                Some(t) => t,
                None => TypeAst::Tuple(0),
            };
            let is_result_return = is_result_type(&return_ty);
            (
                Some(
                    FunctionSpec {
                        name: item.name,
                        function_type,
                        is_async: item.is_async,
                        has_context,
                        args,
                        return_ty,
                        is_result_return,
                    },
                ),
                kept,
            )
        },
        None => (None, kept),
    }
}

/// Why a module cannot be turned into one of functions.
#[derive(Debug, Clone, Copy, PartialEq, Eq, Structural)]
pub enum MacroFault {
    HasArguments,
    NotInline,
    NoFunctions,
}

impl MacroFault {
    /// What is said of the module.
    pub fn message(&self) -> (r: &'static str)
        ensures
            r@ == match *self {
                MacroFault::HasArguments => "convex_functions takes no arguments"@,
                MacroFault::NotInline => "convex_functions can only be applied to inline modules"@,
                MacroFault::NoFunctions =>
                    "convex_functions requires at least one function annotated with #[query], #[mutation], #[action], or #[http_action]"@,
            },
    {
        match self {
            MacroFault::HasArguments => "convex_functions takes no arguments",
            MacroFault::NotInline => "convex_functions can only be applied to inline modules",
            MacroFault::NoFunctions =>
                "convex_functions requires at least one function annotated with #[query], #[mutation], #[action], or #[http_action]",
        }
    }
}

/// What is left of a module.
#[derive(Debug)]
pub struct CollectedFunctions {
    /// The functions with an annotation, in the order in which they stand in the module.
    pub functions: Vec<FunctionSpec>,
    /// For each function of the module, which of its attributes stay.
    pub kept_attrs: Vec<Vec<bool>>,
    /// A fault that is reported beside what is generated.
    pub fault: Option<MacroFault>,
}

/// The functions among the first `k` of a module that have an annotation.
pub open spec fn annotated(items: Seq<FunctionItem>, k: nat) -> Seq<FunctionItem>
    decreases k,
{
    if k == 0 || k > items.len() {
        Seq::empty()
    } else {
        let before = annotated(items, (k - 1) as nat);
        let item = items[k - 1];
        if annotation_index(texts(item.attrs@)) < item.attrs@.len() {
            before.push(item)
        } else {
            before
        }
    }
}

/// Whether the functions of a module were collected.
pub open spec fn is_collected(items: Seq<FunctionItem>, c: CollectedFunctions) -> bool {
    let found = annotated(items, items.len());
    &&& c.functions@.len() == found.len()
    &&& forall|j: int|
        0 <= j < found.len() ==> describes(#[trigger] c.functions@[j], found[j])
    &&& c.kept_attrs@.len() == items.len()
    &&& forall|j: int|
        0 <= j < items.len() ==> (#[trigger] c.kept_attrs@[j])@ == Seq::new(
            items[j].attrs@.len(),
            |k: int| stays(texts(items[j].attrs@), k),
        )
    &&& c.fault == if found.len() == 0 {
        Some(MacroFault::NoFunctions)
    } else {
        None
    }
}

/// The functions of a module, which is given by the functions in it where it is written inline.
/// The annotation of the module takes no arguments. A module without annotated functions is
/// reported, and what stands in it is kept.
pub fn convex_functions(has_arguments: bool, items: Option<Vec<FunctionItem>>) -> (r: Result<
    CollectedFunctions,
    MacroFault,
>)
    ensures
        match r {
            Ok(c) => !has_arguments && items is Some && is_collected(items->Some_0@, c),
            Err(fault) => if has_arguments {
                fault == MacroFault::HasArguments
            } else {
                items is None && fault == MacroFault::NotInline
            },
        },
{
    if has_arguments {
        return Err(MacroFault::HasArguments);
    }
    let mut rest = match items {
        Some(items) => items,
        None => {
            return Err(MacroFault::NotInline);
        },
    };
    let ghost all = rest@;
    let mut functions: Vec<FunctionSpec> = Vec::new();
    let mut kept_attrs: Vec<Vec<bool>> = Vec::new();
    let n: usize = rest.len();
    let mut i: usize = 0;
    assert(all.skip(0) =~= all);
    while i < n
        invariant
            i <= n == all.len(),
            rest@ == all.skip(i as int),
            functions@.len() == annotated(all, i as nat).len(),
            forall|j: int|
                0 <= j < functions@.len() ==> describes(
                    #[trigger] functions@[j],
                    annotated(all, i as nat)[j],
                ),
            kept_attrs@.len() == i,
            forall|j: int|
                0 <= j < i ==> (#[trigger] kept_attrs@[j])@ == Seq::new(
                    all[j].attrs@.len(),
                    |k: int| stays(texts(all[j].attrs@), k),
                ),
        decreases n - i,
    {
        let item = rest.remove(0);
        assert(item == all[i as int]);
        assert(rest@ =~= all.skip(i + 1));
        let (found, kept) = collect_function(item);
        kept_attrs.push(kept);
        match found {
            Some(f) => {
                functions.push(f);
            },
            None => {},
        }
        i += 1;
    }
    let fault = if functions.len() == 0 {
        Some(MacroFault::NoFunctions)
    } else {
        None
    };
    Ok(CollectedFunctions { functions, kept_attrs, fault })
}

/// The annotation by which a function is collected is taken off, and an attribute that is no
/// annotation stays.
pub proof fn annotations_are_stripped(attrs: Seq<Seq<char>>, k: int)
    requires
        0 <= k < attrs.len(),
    ensures
        annotation_index(attrs) == k ==> !stays(attrs, k),
        type_of_annotation(attrs[k]) is None ==> stays(attrs, k),
{
    lemma_annotation_index(attrs);
}

proof fn lemma_annotation_index(attrs: Seq<Seq<char>>)
    ensures
        annotation_index(attrs) <= attrs.len(),
        annotation_index(attrs) < attrs.len() ==> type_of_annotation(
            attrs[annotation_index(attrs) as int],
        ) is Some,
    decreases attrs.len(),
{
    if attrs.len() > 0 && type_of_annotation(attrs[0]) is None {
        lemma_annotation_index(attrs.skip(1));
    }
}

proof fn lemma_never_null(t: TypeAst)
    ensures
        validator_of(t).0 != JsonTree::Object(seq![("type"@, JsonTree::Text("null"@))]),
        validator_of(t).0 matches JsonTree::Object(es) && es.len() > 0 && es[0].0 == "type"@
            && es[0].1 != JsonTree::Text("union"@) && es[0].1 != JsonTree::Text("null"@),
    decreases t,
{
    reveal_strlit("null");
    reveal_strlit("union");
    reveal_strlit("string");
    reveal_strlit("boolean");
    reveal_strlit("number");
    reveal_strlit("bigint");
    reveal_strlit("bytes");
    reveal_strlit("any");
    reveal_strlit("array");
    assert("null"@.len() == 4 && "null"@[0] == 'n');
    assert("union"@.len() == 5 && "union"@[0] == 'u');
    assert("string"@.len() == 6);
    assert("boolean"@.len() == 7);
    assert("number"@.len() == 6);
    assert("bigint"@.len() == 6);
    assert("bytes"@.len() == 5 && "bytes"@[0] == 'b');
    assert("any"@.len() == 3);
    assert("array"@.len() == 5 && "array"@[0] == 'a');
    let null = JsonTree::Object(seq![("type"@, JsonTree::Text("null"@))]);
    assert(null->Object_0[0].1 == JsonTree::Text("null"@));
    match t {
        TypeAst::Path { ident, first_arg, last_arg, text } => {
            if ident@ == "Option"@ {
                if let Some(inner) = first_arg {
                    lemma_never_null(*inner);
                }
            }
        },
        TypeAst::Reference(inner) => lemma_never_null(*inner),
        _ => {},
    }
    let v = validator_of(t).0;
    if v is Object {
        assert(v->Object_0.len() > 0);
        assert(v->Object_0[0].1 != JsonTree::Text("null"@));
        assert(v->Object_0[0].1 != null->Object_0[0].1);
    }
}

/// What a function returns is what its type says, or what stands in the `Result` around it. The
/// validator of the result is that of this type, with null beside it where the type is an `Option`;
/// and it is the null validator exactly where the type is the unit type.
pub proof fn results_are_validated_by_their_type(f: FunctionSpec, t: TypeAst)
    requires
        f.is_result_return ==> (match f.return_ty {
            TypeAst::Path { ident, first_arg: Some(inner), .. } => if ident@ == "Result"@ {
                t == *inner
            } else {
                t == f.return_ty
            },
            _ => t == f.return_ty,
        }),
        !f.is_result_return ==> t == f.return_ty,
    ensures
        t != TypeAst::Tuple(0) && !validator_of(t).1 ==> returns_validator(f) == validator_of(t).0,
        t != TypeAst::Tuple(0) && validator_of(t).1 ==> returns_validator(f) == JsonTree::Object(
            seq![
                ("type"@, JsonTree::Text("union"@)),
                (
                    "value"@,
                    JsonTree::Array(
                        seq![
                            validator_of(t).0,
                            JsonTree::Object(seq![("type"@, JsonTree::Text("null"@))]),
                        ],
                    ),
                ),
            ],
        ),
        returns_validator(f) == JsonTree::Object(seq![("type"@, JsonTree::Text("null"@))]) <==> t
            == TypeAst::Tuple(0),
{
    lemma_never_null(t);
    let null = JsonTree::Object(seq![("type"@, JsonTree::Text("null"@))]);
    if t != TypeAst::Tuple(0) && validator_of(t).1 {
        assert(returns_validator(f)->Object_0.len() == 2);
        assert(null->Object_0.len() == 1);
    }
}

/// A type is optional exactly where it is an `Option`, with or without references around it.
pub proof fn only_options_are_optional(t: TypeAst)
    ensures
        t matches TypeAst::Path { ident, .. } ==> (validator_of(t).1 <==> ident@ == "Option"@),
        t matches TypeAst::Reference(inner) ==> validator_of(t) == validator_of(*inner),
        t is Tuple || t is Other ==> !validator_of(t).1,
{
}

/// The validator of a type with parts is made from those of its parts: that of an `Option` is the
/// one of what it holds, a list is an array of its elements, and a set or a map is an array of what
/// its last argument says. What has no validator of its own takes any value.
pub proof fn validators_follow_structure(t: TypeAst)
    ensures
        t matches TypeAst::Path { ident, first_arg: Some(inner), .. } ==> (ident@ == "Option"@
            ==> validator_of(t).0 == validator_of(*inner).0),
        t matches TypeAst::Path { ident, first_arg: Some(inner), .. } ==> (ident@ == "Vec"@
            || ident@ == "VecDeque"@ ==> validator_of(t).0 == JsonTree::Object(
            seq![("type"@, JsonTree::Text("array"@)), ("value"@, validator_of(*inner).0)],
        )),
        t matches TypeAst::Path { ident, last_arg: Some(inner), .. } ==> (ident@ == "BTreeSet"@
            || ident@ == "HashSet"@ || ident@ == "HashMap"@ || ident@ == "BTreeMap"@
            ==> validator_of(t).0 == JsonTree::Object(
            seq![("type"@, JsonTree::Text("array"@)), ("value"@, validator_of(*inner).0)],
        )),
        t is Tuple || t is Other ==> validator_of(t).0 == JsonTree::Object(
            seq![("type"@, JsonTree::Text("any"@))],
        ),
{
    lemma_type_names();
}

proof fn lemma_type_names()
    ensures
        "Option"@ != "Vec"@ && "Option"@ != "VecDeque"@ && "Option"@ != "BTreeSet"@ && "Option"@
            != "HashSet"@ && "Option"@ != "HashMap"@ && "Option"@ != "BTreeMap"@,
        "Vec"@ != "BTreeSet"@ && "Vec"@ != "HashSet"@ && "Vec"@ != "HashMap"@ && "Vec"@
            != "BTreeMap"@,
        "VecDeque"@ != "BTreeSet"@ && "VecDeque"@ != "HashSet"@ && "VecDeque"@ != "HashMap"@
            && "VecDeque"@ != "BTreeMap"@,
{
    reveal_strlit("Option");
    reveal_strlit("Vec");
    reveal_strlit("VecDeque");
    reveal_strlit("BTreeSet");
    reveal_strlit("HashSet");
    reveal_strlit("HashMap");
    reveal_strlit("BTreeMap");
    assert("Option"@[0] == 'O');
    assert("Vec"@[0] == 'V');
    assert("VecDeque"@[0] == 'V');
    assert("BTreeSet"@[0] == 'B');
    assert("HashSet"@[0] == 'H');
    assert("HashMap"@[0] == 'H');
    assert("BTreeMap"@[0] == 'B');
}

/// The annotation of a function is the first of its attributes that is one: those before it are
/// none.
pub proof fn first_annotation_counts(attrs: Seq<Seq<char>>, i: int)
    requires
        0 <= i <= attrs.len(),
        forall|j: int| 0 <= j < i ==> type_of_annotation(#[trigger] attrs[j]) is None,
        i < attrs.len() ==> type_of_annotation(attrs[i]) is Some,
    ensures
        annotation_index(attrs) == i,
    decreases i,
{
    if i > 0 {
        assert(type_of_annotation(attrs[0]) is None);
        assert forall|j: int| 0 <= j < i - 1 implies type_of_annotation(
            #[trigger] attrs.skip(1)[j],
        ) is None by {
            assert(attrs.skip(1)[j] == attrs[j + 1]);
        }
        first_annotation_counts(attrs.skip(1), i - 1);
    }
}

/// There are four annotations, each for a type of function of its own, and no other attribute is
/// one.
pub proof fn annotations_name_their_type(name: Seq<char>)
    ensures
        type_of_annotation(name) is Some <==> name == "query"@ || name == "mutation"@ || name
            == "action"@ || name == "http_action"@,
        name == "query"@ || name == "mutation"@ || name == "action"@ ==> type_of_annotation(name)
            == Some(name),
        type_of_annotation("http_action"@) == Some("httpAction"@),
{
    reveal_strlit("query");
    reveal_strlit("mutation");
    reveal_strlit("action");
    reveal_strlit("http_action");
    assert("query"@.len() == 5 && "mutation"@.len() == 8 && "action"@.len() == 6
        && "http_action"@.len() == 11);
}

/// An attribute goes exactly where it reads like the annotation of its function: an annotation of
/// another kind stays, and where there is no annotation everything does.
pub proof fn only_the_annotation_goes(attrs: Seq<Seq<char>>, i: int, k: int)
    requires
        0 <= k < attrs.len(),
        0 <= i <= attrs.len(),
        forall|j: int| 0 <= j < i ==> type_of_annotation(#[trigger] attrs[j]) is None,
        i < attrs.len() ==> type_of_annotation(attrs[i]) is Some,
    ensures
        i == attrs.len() ==> stays(attrs, k),
        i < attrs.len() ==> (stays(attrs, k) <==> attrs[k] != attrs[i]),
{
    first_annotation_counts(attrs, i);
}

proof fn lemma_annotated_prefix(items: Seq<FunctionItem>, item: FunctionItem, k: nat)
    requires
        k <= items.len(),
    ensures
        annotated(items.push(item), k) == annotated(items, k),
    decreases k,
{
    if k > 0 {
        lemma_annotated_prefix(items, item, (k - 1) as nat);
        assert(items.push(item)[k - 1] == items[k - 1]);
    }
}

/// The functions that are collected are those with an annotation among their attributes, each of
/// them once, in the order in which they stand in the module.
pub proof fn annotated_functions_are_collected(items: Seq<FunctionItem>, item: FunctionItem)
    ensures
        annotated(Seq::empty(), 0) == Seq::<FunctionItem>::empty(),
        annotated(items.push(item), items.push(item).len()) == if exists|j: int|
            0 <= j < item.attrs@.len() && type_of_annotation(#[trigger] texts(item.attrs@)[j])
                is Some {
            annotated(items, items.len()).push(item)
        } else {
            annotated(items, items.len())
        },
{
    lemma_annotated_prefix(items, item, items.len());
    lemma_annotation_index(texts(item.attrs@));
    let attrs = texts(item.attrs@);
    if annotation_index(attrs) == attrs.len() {
        assert forall|j: int| 0 <= j < attrs.len() implies type_of_annotation(#[trigger] attrs[j])
            is None by {
            lemma_before_annotation(attrs, j);
        }
    } else {
        assert(type_of_annotation(attrs[annotation_index(attrs) as int]) is Some);
    }
}

proof fn lemma_before_annotation(attrs: Seq<Seq<char>>, j: int)
    requires
        0 <= j < annotation_index(attrs),
        j < attrs.len(),
    ensures
        type_of_annotation(attrs[j]) is None,
    decreases attrs.len(),
{
    if j > 0 {
        lemma_before_annotation(attrs.skip(1), j - 1);
        assert(attrs.skip(1)[j - 1] == attrs[j]);
    }
}

proof fn lemma_user_args_prefix(inputs: Seq<FnInput>, input: FnInput, k: nat)
    requires
        k <= inputs.len(),
        inputs.len() > 0,
    ensures
        user_args(inputs.push(input), k) == user_args(inputs, k),
    decreases k,
{
    assert(inputs.push(input)[0] == inputs[0]);
    if k > 0 {
        lemma_user_args_prefix(inputs, input, (k - 1) as nat);
        assert(inputs.push(input)[k - 1] == inputs[k - 1]);
    }
}

/// The arguments of a function are its typed inputs, in order, save the first one where that is the
/// context: a context further on is an argument like any other, and a receiver is none.
pub proof fn arguments_are_the_other_inputs(inputs: Seq<FnInput>, input: FnInput)
    requires
        inputs.len() > 0,
    ensures
        user_args(inputs.push(input), inputs.push(input).len()) == match input {
            FnInput::Typed(a) => user_args(inputs, inputs.len()).push(a),
            FnInput::Receiver => user_args(inputs, inputs.len()),
        },
        takes_context(inputs.push(input)) == takes_context(inputs),
        user_args(seq![input], 1) == match input {
            FnInput::Typed(a) => if a.ty matches TypeAst::Path { ident, .. } && ident@
                == "Context"@ {
                Seq::<ArgSpec>::empty()
            } else {
                seq![a]
            },
            FnInput::Receiver => Seq::<ArgSpec>::empty(),
        },
        takes_context(seq![input]) <==> (input matches FnInput::Typed(a)
            && a.ty matches TypeAst::Path { ident, .. } && ident@ == "Context"@),
        !takes_context(Seq::empty()),
        user_args(Seq::empty(), 0) == Seq::<ArgSpec>::empty(),
{
    lemma_user_args_prefix(inputs, input, inputs.len());
    assert(inputs.push(input)[0] == inputs[0]);
    let one = seq![input];
    assert(one[0] == input);
    assert(user_args(one, 0) == Seq::<ArgSpec>::empty());
    if let FnInput::Typed(a) = input {
        assert(Seq::<ArgSpec>::empty().push(a) =~= seq![a]);
    }
}

/// Whether an argument has a name.
pub open spec fn has_name(a: ArgSpec, name: Seq<char>) -> bool {
    a.name matches Some(n) && n@ == name
}

proof fn lemma_arg_fields(args: Seq<ArgSpec>, k: nat, name: Seq<char>)
    requires
        k <= args.len(),
    ensures
        has_member(arg_fields(args, k), name) <==> exists|i: int|
            0 <= i < k && has_name(#[trigger] args[i], name),
    decreases k,
{
    if k > 0 {
        let before = arg_fields(args, (k - 1) as nat);
        let after = arg_fields(args, k);
        lemma_arg_fields(args, (k - 1) as nat, name);
        lemma_member_index(before, name);
        lemma_member_index(after, name);
        match args[k - 1].name {
            Some(n) => {
                lemma_member_index(before, n@);
                if n@ == name {
                    if has_member(before, n@) {
                        assert(after[member_index(before, n@)].0 == name);
                    } else {
                        assert(after[before.len() as int].0 == name);
                    }
                } else if has_member(before, name) {
                    assert(after[member_index(before, name)].0 == name);
                } else if has_member(after, name) {
                    let i = member_index(after, name);
                    assert(after[i].0 == name);
                    if i < before.len() {
                        assert(before[i].0 == name);
                    }
                }
            },
            None => {},
        }
    }
}

proof fn lemma_last_field(args: Seq<ArgSpec>, k: nat, i: int, name: Seq<char>)
    requires
        0 <= i < k <= args.len(),
        has_name(args[i], name),
        forall|j: int|
            i < j < k ==> !has_name(#[trigger] args[j], name),
    ensures
        has_member(arg_fields(args, k), name),
        arg_fields(args, k)[member_index(arg_fields(args, k), name)].1 == field_validator(
            args[i].ty,
        ),
        distinct_keys(arg_fields(args, k)),
    decreases k,
{
    lemma_fields_distinct(args, k);
    lemma_fields_distinct(args, (k - 1) as nat);
    lemma_arg_fields(args, k, name);
    let before = arg_fields(args, (k - 1) as nat);
    let after = arg_fields(args, k);
    lemma_member_index(before, name);
    lemma_member_index(after, name);
    if i < k - 1 {
        lemma_last_field(args, (k - 1) as nat, i, name);
        if let Some(n) = args[k - 1].name {
            lemma_member_index(before, n@);
            assert(n@ != name);
            assert(after[member_index(before, name)] == before[member_index(before, name)]);
            assert(member_index(after, name) == member_index(before, name));
        }
    } else {
        if has_member(before, name) {
            assert(after[member_index(before, name)] == (name, field_validator(args[i].ty)));
        } else {
            assert(after[before.len() as int] == (name, field_validator(args[i].ty)));
        }
        let at = member_index(after, name);
        assert(after[at].0 == name);
    }
}

proof fn lemma_fields_distinct(args: Seq<ArgSpec>, k: nat)
    requires
        k <= args.len(),
    ensures
        distinct_keys(arg_fields(args, k)),
    decreases k,
{
    if k > 0 {
        let before = arg_fields(args, (k - 1) as nat);
        lemma_fields_distinct(args, (k - 1) as nat);
        if let Some(n) = args[k - 1].name {
            lemma_member_index(before, n@);
        }
    }
}

/// The validator of the arguments is that of an object with a field for each name of an argument
/// and for nothing else. The field says what the type of the argument is and whether it may be left
/// out; where two arguments share a name, the last one counts.
pub proof fn arguments_are_validated_by_name(args: Seq<ArgSpec>, name: Seq<char>, i: int)
    ensures
        ({
            let fields = arg_fields(args, args.len());
            &&& args_validator(args) == JsonTree::Object(
                seq![
                    ("type"@, JsonTree::Text("object"@)),
                    ("value"@, JsonTree::Object(fields)),
                ],
            )
            &&& distinct_keys(fields)
            &&& has_member(fields, name) <==> exists|j: int|
                0 <= j < args.len() && has_name(#[trigger] args[j], name)
            &&& 0 <= i < args.len() && has_name(args[i], name) && (forall|j: int|
                i < j < args.len() ==> !has_name(#[trigger] args[j], name)) ==> fields[member_index(
                fields,
                name,
            )].1 == JsonTree::Object(
                seq![
                    ("fieldType"@, validator_of(args[i].ty).0),
                    ("optional"@, JsonTree::Bool(validator_of(args[i].ty).1)),
                ],
            )
        }),
{
    lemma_arg_fields(args, args.len(), name);
    lemma_fields_distinct(args, args.len());
    if 0 <= i < args.len() && has_name(args[i], name) && (forall|j: int|
        i < j < args.len() ==> !has_name(#[trigger] args[j], name)) {
        lemma_last_field(args, args.len(), i, name);
    }
}

/// A function returns a `Result` exactly where its type is a path to one, and what stands in it is
/// its first argument. A function that says nothing of what it returns gives back nothing.
pub proof fn results_are_recognized(t: TypeAst)
    ensures
        result_type(t) <==> (t matches TypeAst::Path { ident, .. } && ident@ == "Result"@),
        t matches TypeAst::Path { ident, first_arg, .. } ==> ident@ == "Result"@ ==> (
        match first_arg {
            Some(inner) => result_inner(t) == Some(*inner),
            None => result_inner(t) is None,
        }),
        !result_type(t) ==> result_inner(t) is None,
        output_type(Some(t)) == t,
        output_type(None) == TypeAst::Tuple(0),
{
}

/// What is said of an argument names it, or counts it where it has no name.
pub proof fn arguments_are_told_apart(a: ArgSpec, i: nat)
    ensures
        a.name matches Some(name) ==> arg_label(a, i) == name@,
        a.name is None ==> arg_label(a, i) == "argument "@ + decimal(i),
{
}

proof fn lemma_listed_names(name: Seq<char>)
    ensures
        listed(string_names(), name) <==> (
            name == "String"@ || name == "str"@ || name == "ConvexString"@ || name == "GenericId"@
            || name == "Id"@
        ),
        listed(integer_names(), name) <==> (
            name == "i64"@ || name == "u64"@ || name == "i32"@ || name == "u32"@ || name == "i16"@
            || name == "u16"@ || name == "i8"@ || name == "u8"@ || name == "isize"@
            || name == "usize"@ || name == "Int64"@
        ),
        listed(any_names(), name) <==> (
            name == "Document"@ || name == "ConvexValue"@ || name == "JsonValue"@
            || name == "Value"@ || name == "JsonElement"@ || name == "User"@
        ),
{
    assert(string_names()[0]@ == "String"@);
    assert(string_names()[1]@ == "str"@);
    assert(string_names()[2]@ == "ConvexString"@);
    assert(string_names()[3]@ == "GenericId"@);
    assert(string_names()[4]@ == "Id"@);
    assert(integer_names()[0]@ == "i64"@);
    assert(integer_names()[1]@ == "u64"@);
    assert(integer_names()[2]@ == "i32"@);
    assert(integer_names()[3]@ == "u32"@);
    assert(integer_names()[4]@ == "i16"@);
    assert(integer_names()[5]@ == "u16"@);
    assert(integer_names()[6]@ == "i8"@);
    assert(integer_names()[7]@ == "u8"@);
    assert(integer_names()[8]@ == "isize"@);
    assert(integer_names()[9]@ == "usize"@);
    assert(integer_names()[10]@ == "Int64"@);
    assert(any_names()[0]@ == "Document"@);
    assert(any_names()[1]@ == "ConvexValue"@);
    assert(any_names()[2]@ == "JsonValue"@);
    assert(any_names()[3]@ == "Value"@);
    assert(any_names()[4]@ == "JsonElement"@);
    assert(any_names()[5]@ == "User"@);
}

/// A type that is known by its last segment has the validator of that name, whatever its text holds
/// besides.
#[verifier::spinoff_prover]
pub proof fn plain_types_go_by_name(ident: Seq<char>, text: Seq<char>)
    ensures
        ident == "String"@ || ident == "str"@ || ident == "ConvexString"@
            || ident == "GenericId"@ || ident == "Id"@
            ==> plain_validator(ident, text) == JsonTree::Object(
            seq![("type"@, JsonTree::Text("string"@))],
        ),
        ident == "bool"@ || ident == "Boolean"@ ==> plain_validator(ident, text)
            == JsonTree::Object(seq![("type"@, JsonTree::Text("boolean"@))]),
        ident == "f"@ + "64"@ || ident == "f"@ + "32"@ || ident == "Float64"@ ==> plain_validator(
            ident,
            text,
        ) == JsonTree::Object(seq![("type"@, JsonTree::Text("number"@))]),
        ident == "i64"@ || ident == "u64"@ || ident == "i32"@ || ident == "u32"@
            || ident == "i16"@ || ident == "u16"@ || ident == "i8"@ || ident == "u8"@
            || ident == "isize"@ || ident == "usize"@ || ident == "Int64"@ ==> plain_validator(
            ident,
            text,
        ) == JsonTree::Object(seq![("type"@, JsonTree::Text("bigint"@))]),
        ident == "Bytes"@ || ident == "Vec_u8"@ ==> plain_validator(ident, text)
            == JsonTree::Object(seq![("type"@, JsonTree::Text("bytes"@))]),
        ident == "Document"@ || ident == "ConvexValue"@ || ident == "JsonValue"@
            || ident == "Value"@ || ident == "JsonElement"@ || ident == "User"@ ==> plain_validator(
            ident,
            text,
        ) == JsonTree::Object(seq![("type"@, JsonTree::Text("any"@))]),
{
    lemma_listed_names(ident);
    reveal_strlit("f");
    reveal_strlit("64");
    reveal_strlit("32");
    assert(("f"@ + "64"@).len() == 3 && ("f"@ + "64"@)[0] == 'f');
    assert(("f"@ + "32"@).len() == 3 && ("f"@ + "32"@)[0] == 'f');
    reveal_strlit("String");
    reveal_strlit("str");
    reveal_strlit("ConvexString");
    reveal_strlit("GenericId");
    reveal_strlit("Id");
    reveal_strlit("bool");
    reveal_strlit("Boolean");
    reveal_strlit("Float64");
    reveal_strlit("i64");
    reveal_strlit("u64");
    reveal_strlit("i32");
    reveal_strlit("u32");
    reveal_strlit("i16");
    reveal_strlit("u16");
    reveal_strlit("i8");
    reveal_strlit("u8");
    reveal_strlit("isize");
    reveal_strlit("usize");
    reveal_strlit("Int64");
    reveal_strlit("Bytes");
    reveal_strlit("Vec_u8");
    reveal_strlit("Document");
    reveal_strlit("ConvexValue");
    reveal_strlit("JsonValue");
    reveal_strlit("Value");
    reveal_strlit("JsonElement");
    reveal_strlit("User");
    assert("String"@.len() == 6 && "String"@[0] == 'S');
    assert("str"@.len() == 3 && "str"@[0] == 's');
    assert("ConvexString"@.len() == 12 && "ConvexString"@[0] == 'C');
    assert("GenericId"@.len() == 9 && "GenericId"@[0] == 'G');
    assert("Id"@.len() == 2 && "Id"@[0] == 'I');
    assert("bool"@.len() == 4 && "bool"@[0] == 'b');
    assert("Boolean"@.len() == 7 && "Boolean"@[0] == 'B');
    assert("Float64"@.len() == 7 && "Float64"@[0] == 'F');
    assert("i64"@.len() == 3 && "i64"@[0] == 'i');
    assert("u64"@.len() == 3 && "u64"@[0] == 'u');
    assert("i32"@.len() == 3 && "i32"@[0] == 'i');
    assert("u32"@.len() == 3 && "u32"@[0] == 'u');
    assert("i16"@.len() == 3 && "i16"@[0] == 'i');
    assert("u16"@.len() == 3 && "u16"@[0] == 'u');
    assert("i8"@.len() == 2 && "i8"@[0] == 'i');
    assert("u8"@.len() == 2 && "u8"@[0] == 'u');
    assert("isize"@.len() == 5 && "isize"@[0] == 'i');
    assert("usize"@.len() == 5 && "usize"@[0] == 'u');
    assert("Int64"@.len() == 5 && "Int64"@[0] == 'I');
    assert("Bytes"@.len() == 5 && "Bytes"@[0] == 'B');
    assert("Vec_u8"@.len() == 6 && "Vec_u8"@[0] == 'V');
    assert("Document"@.len() == 8 && "Document"@[0] == 'D');
    assert("ConvexValue"@.len() == 11 && "ConvexValue"@[0] == 'C');
    assert("JsonValue"@.len() == 9 && "JsonValue"@[0] == 'J');
    assert("Value"@.len() == 5 && "Value"@[0] == 'V');
    assert("JsonElement"@.len() == 11 && "JsonElement"@[0] == 'J');
    assert("User"@.len() == 4 && "User"@[0] == 'U');
}

/// A type that is not known by its last segment is judged by its text: it is a string where that
/// speaks of one, otherwise a list of anything where it speaks of a list, and otherwise anything.
pub proof fn unknown_types_go_by_text(ident: Seq<char>, text: Seq<char>)
    requires
        !listed(string_names(), ident) && !listed(integer_names(), ident) && !listed(
            any_names(),
            ident,
        ) && !is_float_name(ident),
        ident != "bool"@ && ident != "Boolean"@ && ident != "Bytes"@ && ident != "Vec_u8"@,
    ensures
        occurs(text, "String"@) ==> plain_validator(ident, text) == JsonTree::Object(
            seq![("type"@, JsonTree::Text("string"@))],
        ),
        !occurs(text, "String"@) && occurs(text, "Vec"@) ==> plain_validator(ident, text)
            == JsonTree::Object(
            seq![
                ("type"@, JsonTree::Text("array"@)),
                ("value"@, JsonTree::Object(seq![("type"@, JsonTree::Text("any"@))])),
            ],
        ),
        !occurs(text, "String"@) && !occurs(text, "Vec"@) ==> plain_validator(ident, text)
            == JsonTree::Object(seq![("type"@, JsonTree::Text("any"@))]),
{
}

/// A path that is neither an `Option` nor a list, a set or a map has the validator of its name and
/// text, whatever its arguments are, and is not optional.
pub proof fn other_paths_are_plain(t: TypeAst)
    ensures
        t matches TypeAst::Path { ident, text, .. } ==> (ident@ != "Option"@ && ident@ != "Vec"@
            && ident@ != "VecDeque"@ && ident@ != "BTreeSet"@ && ident@ != "HashSet"@ && ident@
            != "HashMap"@ && ident@ != "BTreeMap"@ ==> validator_of(t) == (
            plain_validator(ident@, text@),
            false,
        )),
{
}

/// The entry of a function holds its name, its type and its validators, and is public; its wrapper
/// is the one that the entry names.
pub proof fn entries_describe_their_function(f: FunctionSpec, e: GeneratedEntry, w: WrapperPlan)
    requires
        call_ensures(FunctionSpec::entry, (&f,), e),
        call_ensures(FunctionSpec::wrapper, (&f,), w),
    ensures
        e.name@ == f.name@,
        e.function_type@ == f.function_type@,
        e.wrapped_name@ == w.wrapped_name@,
        e.visibility@ == "public"@,
        e.args@ == text_of_json(args_validator(f.args@)),
        e.returns@ == text_of_json(returns_validator(f)),
        f.return_ty == TypeAst::Tuple(0) ==> e.returns@ == text_of_json(
            JsonTree::Object(seq![("type"@, JsonTree::Text("null"@))]),
        ),
{
}

/// A wrapper reads one variable for each argument, under names of their own, and calls the function
/// with them in order, behind the context where the function takes it.
#[verifier::spinoff_prover]
pub proof fn wrappers_pass_the_arguments(f: FunctionSpec, w: WrapperPlan, i: int, j: int)
    requires
        call_ensures(FunctionSpec::wrapper, (&f,), w),
        0 <= i < f.args@.len(),
        0 <= j < f.args@.len(),
    ensures
        w.arg_idents@.len() == f.args@.len() && w.invalid_messages@.len() == f.args@.len(),
        w.arg_idents@[i]@ == w.arg_idents@[j]@ ==> i == j,
        w.call_args@.len() == f.args@.len() + if f.has_context {
            1int
        } else {
            0
        },
        f.has_context ==> w.call_args@[0]@ == "ctx"@ && w.call_args@[i + 1]@ == w.arg_idents@[i]@,
        !f.has_context ==> w.call_args@[i]@ == w.arg_idents@[i]@,
        f.args@[i].name matches Some(name) ==> w.invalid_messages@[i]@ == "Invalid value for "@
            + name@,
        f.args@[i].name is None ==> w.invalid_messages@[i]@ == "Invalid value for "@ + ("argument "@
            + decimal(i as nat)),
        w.is_async == f.is_async,
        w.maps_result == f.is_result_return,
{
    let idents = texts(w.arg_idents@);
    let calls = texts(w.call_args@);
    let messages = texts(w.invalid_messages@);
    assert(idents.len() == f.args@.len());
    assert(messages.len() == f.args@.len());
    assert(idents[i] == "__arg"@ + decimal(i as nat));
    assert(idents[j] == "__arg"@ + decimal(j as nat));
    assert(messages[i] == "Invalid value for "@ + arg_label(f.args@[i], i as nat));
    let head = "__arg"@;
    assert((head + decimal(i as nat)).skip(head.len() as int) =~= decimal(i as nat));
    assert((head + decimal(j as nat)).skip(head.len() as int) =~= decimal(j as nat));
    lemma_decimal_digits(i as nat);
    lemma_decimal_digits(j as nat);
    assert(calls.len() == w.call_args@.len());
    if f.has_context {
        assert(calls =~= seq!["ctx"@] + idents);
        assert(calls.len() == 1 + idents.len());
        assert(calls[0] == w.call_args@[0]@);
        assert(calls[i + 1] == w.call_args@[i + 1]@);
        assert((seq!["ctx"@] + idents)[i + 1] == idents[i]);
        assert(idents[i] == w.arg_idents@[i]@);
    } else {
        assert(calls =~= idents);
        assert(calls[i] == w.call_args@[i]@);
    }
}

/// A module is turned down for arguments before it is looked at, and then where it is not inline;
/// otherwise its functions are collected, and that there is none is reported beside them.
pub proof fn modules_are_collected(
    has_arguments: bool,
    items: Option<Vec<FunctionItem>>,
    collected: Result<CollectedFunctions, MacroFault>,
)
    requires
        call_ensures(convex_functions, (has_arguments, items), collected),
    ensures
        collected is Ok <==> !has_arguments && items is Some,
        collected matches Err(f) ==> (f == MacroFault::HasArguments <==> has_arguments),
        collected matches Err(f) ==> f != MacroFault::NoFunctions,
        collected matches Ok(c) ==> (c.fault is Some <==> c.functions@.len() == 0),
        collected matches Ok(c) ==> (c.fault matches Some(f) ==> f == MacroFault::NoFunctions),
        collected matches Ok(c) ==> c.kept_attrs@.len() == items->0@.len(),
{
}

/// What the functions that look at a type say of it: whether it is the context, a `Result` or the
/// unit type.
pub proof fn types_are_recognized(
    t: TypeAst,
    is_context: bool,
    is_result: bool,
    is_unit: bool,
    inner: Option<&TypeAst>,
)
    requires
        call_ensures(is_context_type, (&t,), is_context),
        call_ensures(is_result_type, (&t,), is_result),
        call_ensures(is_unit_type, (&t,), is_unit),
        call_ensures(extract_result_inner, (&t,), inner),
    ensures
        is_context <==> (t matches TypeAst::Path { ident, .. } && ident@ == "Context"@),
        is_result <==> (t matches TypeAst::Path { ident, .. } && ident@ == "Result"@),
        is_unit <==> (t matches TypeAst::Tuple(n) && n == 0),
        inner is Some ==> is_result,
        is_result ==> (t matches TypeAst::Path { first_arg, .. } && (match first_arg {
            Some(a) => inner matches Some(got) && *got == *a,
            None => inner is None,
        })),
{
}

/// A function is collected exactly where one of its attributes is an annotation. What is said of it
/// is what the function says: its name, whether it is asynchronous, whether its first input is the
/// context, and its type.
pub proof fn functions_are_described(
    item: FunctionItem,
    collected: (Option<FunctionSpec>, Vec<bool>),
)
    requires
        call_ensures(collect_function, (item,), collected),
    ensures
        collected.0 is Some <==> exists|j: int|
            0 <= j < item.attrs@.len() && type_of_annotation(#[trigger] texts(item.attrs@)[j])
                is Some,
        collected.1@.len() == item.attrs@.len(),
        collected.0 matches Some(f) ==> {
            &&& f.name@ == item.name@
            &&& f.is_async == item.is_async
            &&& f.has_context <==> item.inputs@.len() > 0 && (
            item.inputs@[0] matches FnInput::Typed(a)
                && a.ty matches TypeAst::Path { ident, .. } && ident@ == "Context"@)
            &&& item.output matches Some(t) ==> f.return_ty == t
            &&& item.output is None ==> f.return_ty == TypeAst::Tuple(0) && !f.is_result_return
            &&& f.is_result_return <==> (f.return_ty matches TypeAst::Path { ident, .. } && ident@
                == "Result"@)
            &&& f.args@ == user_args(item.inputs@, item.inputs@.len())
        },
{
    let attrs = texts(item.attrs@);
    lemma_annotation_index(attrs);
    if annotation_index(attrs) == attrs.len() {
        assert forall|j: int| 0 <= j < attrs.len() implies type_of_annotation(#[trigger] attrs[j])
            is None by {
            lemma_before_annotation(attrs, j);
        }
    } else {
        assert(type_of_annotation(attrs[annotation_index(attrs) as int]) is Some);
    }
}

/// The type of a function is that of its first annotation; a function has one exactly where one of
/// its attributes is an annotation.
pub proof fn types_come_from_annotations(
    attrs: Vec<String>,
    found: Option<(String, &'static str)>,
    i: int,
)
    requires
        call_ensures(function_type_from_attrs, (&attrs,), found),
        0 <= i <= attrs@.len(),
        forall|j: int| 0 <= j < i ==> type_of_annotation(#[trigger] texts(attrs@)[j]) is None,
        i < attrs@.len() ==> type_of_annotation(texts(attrs@)[i]) is Some,
    ensures
        found is Some <==> i < attrs@.len(),
        found matches Some((annotation, t)) ==> annotation@ == attrs@[i]@ && type_of_annotation(
            attrs@[i]@,
        ) == Some(t@),
{
    first_annotation_counts(texts(attrs@), i);
}

} // verus!
