use vstd::prelude::*;

use crate::schema::{
    EnumTypeDefinition, EnumValueDefinition, InputObjectTypeDefinition, InputValueDefinition,
    SchemaDefinition, TypeDefinition, spec_find_input_value,
};
use crate::seqs::{
    lemma_views_of_add, lemma_views_of_push, lemma_take_all, lemma_take_push, single, views_of,
};
use crate::span::Span;
use crate::types::{BuiltinScalarDefinition, InputType, InputTypeReference, InputTypeShape};
use crate::value::{Name, ObjectValue, Value};

verus! {

/// One step of the location of a coercion error inside a nested value: an
/// input-object key or a list index.
pub enum PathMember {
    Key(String),
    Index(usize),
}

pub enum SpecPathMember {
    Key(Seq<char>),
    Index(int),
}

impl View for PathMember {
    type V = SpecPathMember;

    open spec fn view(&self) -> SpecPathMember {
        match self {
            PathMember::Key(s) => SpecPathMember::Key(s@),
            PathMember::Index(i) => SpecPathMember::Index(*i as int),
        }
    }
}

/// A structural fault found while coercing a value against an input type.
pub enum CoercionError {
    NullValueForRequiredType { input_type_name: String, span: Span, path: Vec<PathMember> },
    NoImplicitConversion { input_type_name: String, span: Span, path: Vec<PathMember> },
    NoEnumMemberWithName {
        name: String,
        enum_type_name: String,
        span: Span,
        path: Vec<PathMember>,
    },
    NonUniqueFieldNames {
        field_name: String,
        span: Span,
        key_spans: Vec<Span>,
        path: Vec<PathMember>,
    },
    NoInputFieldWithName {
        field_name: String,
        input_object_type_name: String,
        span: Span,
        path: Vec<PathMember>,
    },
    NoValueForRequiredFields {
        field_names: Vec<String>,
        input_object_type_name: String,
        span: Span,
        path: Vec<PathMember>,
    },
}

pub enum SpecCoercionError {
    NullValueForRequiredType { input_type_name: Seq<char>, span: Span, path: Seq<SpecPathMember> },
    NoImplicitConversion { input_type_name: Seq<char>, span: Span, path: Seq<SpecPathMember> },
    NoEnumMemberWithName {
        name: Seq<char>,
        enum_type_name: Seq<char>,
        span: Span,
        path: Seq<SpecPathMember>,
    },
    NonUniqueFieldNames {
        field_name: Seq<char>,
        span: Span,
        key_spans: Seq<Span>,
        path: Seq<SpecPathMember>,
    },
    NoInputFieldWithName {
        field_name: Seq<char>,
        input_object_type_name: Seq<char>,
        span: Span,
        path: Seq<SpecPathMember>,
    },
    NoValueForRequiredFields {
        field_names: Seq<Seq<char>>,
        input_object_type_name: Seq<char>,
        span: Span,
        path: Seq<SpecPathMember>,
    },
}

impl View for CoercionError {
    type V = SpecCoercionError;

    open spec fn view(&self) -> SpecCoercionError {
        match self {
            CoercionError::NullValueForRequiredType { input_type_name, span, path } => {
                SpecCoercionError::NullValueForRequiredType {
                    input_type_name: input_type_name@,
                    span: *span,
                    path: views_of(path@),
                }
            },
            CoercionError::NoImplicitConversion { input_type_name, span, path } => {
                SpecCoercionError::NoImplicitConversion {
                    input_type_name: input_type_name@,
                    span: *span,
                    path: views_of(path@),
                }
            },
            CoercionError::NoEnumMemberWithName { name, enum_type_name, span, path } => {
                SpecCoercionError::NoEnumMemberWithName {
                    name: name@,
                    enum_type_name: enum_type_name@,
                    span: *span,
                    path: views_of(path@),
                }
            },
            CoercionError::NonUniqueFieldNames { field_name, span, key_spans, path } => {
                SpecCoercionError::NonUniqueFieldNames {
                    field_name: field_name@,
                    span: *span,
                    key_spans: key_spans@,
                    path: views_of(path@),
                }
            },
            CoercionError::NoInputFieldWithName {
                field_name,
                input_object_type_name,
                span,
                path,
            } => {
                SpecCoercionError::NoInputFieldWithName {
                    field_name: field_name@,
                    input_object_type_name: input_object_type_name@,
                    span: *span,
                    path: views_of(path@),
                }
            },
            CoercionError::NoValueForRequiredFields {
                field_names,
                input_object_type_name,
                span,
                path,
            } => {
                SpecCoercionError::NoValueForRequiredFields {
                    field_names: views_of(field_names@),
                    input_object_type_name: input_object_type_name@,
                    span: *span,
                    path: views_of(path@),
                }
            },
        }
    }
}

/// The shape of a coercion result: `Ok` exactly when no error was found,
/// else every error that was.
pub open spec fn coercion_result_matches(
    r: Result<(), Vec<CoercionError>>,
    s: Seq<SpecCoercionError>,
) -> bool {
    match r {
        Ok(_) => s.len() == 0,
        Err(es) => views_of(es@) == s && es@.len() > 0,
    }
}

/// Structural validation of `v` against the input type `t`, every fault
/// collected with its path. `allow_implicit_list` is true only while no
/// explicit list literal has been entered: a bare value may stand for a
/// singleton list at the outermost level, but not inside a written list.
pub open spec fn spec_coerce_value(
    schema: SchemaDefinition,
    t: InputTypeShape,
    v: Value,
    path: Seq<SpecPathMember>,
    allow_implicit_list: bool,
) -> Seq<SpecCoercionError>
    decreases v, t.size(), 2int, 0int,
{
    if v is Null && t.is_required() {
        seq![
            SpecCoercionError::NullValueForRequiredType {
                input_type_name: t.display(),
                span: v.spec_span(),
                path,
            },
        ]
    } else if v is Null || v is Variable {
        Seq::empty()
    } else {
        match t {
            InputTypeShape::Base(_, _) => spec_coerce_base_value(schema, t, v, path),
            InputTypeShape::List(inner, _) => match v {
                Value::List(l) => spec_coerce_list_elements(schema, *inner, l.elements@, 0, path),
                _ => {
                    if allow_implicit_list {
                        spec_coerce_value(schema, *inner, v, path, true)
                    } else {
                        seq![
                            SpecCoercionError::NoImplicitConversion {
                                input_type_name: t.display(),
                                span: v.spec_span(),
                                path,
                            },
                        ]
                    }
                },
            },
        }
    }
}

pub open spec fn spec_coerce_list_elements(
    schema: SchemaDefinition,
    inner: InputTypeShape,
    elements: Seq<Value>,
    i: int,
    path: Seq<SpecPathMember>,
) -> Seq<SpecCoercionError>
    decreases elements, inner.size(), 3int, elements.len() - i,
{
    if i < 0 || i >= elements.len() {
        Seq::empty()
    } else {
        spec_coerce_value(schema, inner, elements[i], path.push(SpecPathMember::Index(i)), false)
            + spec_coerce_list_elements(schema, inner, elements, i + 1, path)
    }
}

pub open spec fn spec_coerce_base_value(
    schema: SchemaDefinition,
    t: InputTypeShape,
    v: Value,
    path: Seq<SpecPathMember>,
) -> Seq<SpecCoercionError>
    decreases v, t.size(), 1int, 0int,
{
    match schema.spec_get_type(t.base_name()) {
        None => Seq::empty(),
        Some(td) => match td {
            TypeDefinition::BuiltinScalar(b) => spec_coerce_builtin_scalar(t, b, v, path),
            TypeDefinition::CustomScalar(_) => Seq::empty(),
            TypeDefinition::Enum(etd) => spec_coerce_enum(t, etd, v, path),
            TypeDefinition::InputObject(iotd) => match v {
                Value::Object(o) => spec_coerce_input_object(schema, iotd, o, path),
                _ => seq![
                    SpecCoercionError::NoImplicitConversion {
                        input_type_name: t.display(),
                        span: v.spec_span(),
                        path,
                    },
                ],
            },
            _ => Seq::empty(),
        },
    }
}

/// The builtin scalar shape matrix: Boolean takes bool, Int takes int,
/// Float takes float or int, String takes string, ID takes string or int.
pub open spec fn spec_builtin_scalar_accepts(b: BuiltinScalarDefinition, v: Value) -> bool {
    match (b, v) {
        (BuiltinScalarDefinition::Boolean, Value::Boolean(_)) => true,
        (BuiltinScalarDefinition::Float, Value::Float(_)) => true,
        (BuiltinScalarDefinition::Float, Value::Integer(_)) => true,
        (BuiltinScalarDefinition::ID, Value::Integer(_)) => true,
        (BuiltinScalarDefinition::ID, Value::String(_)) => true,
        (BuiltinScalarDefinition::String, Value::String(_)) => true,
        (BuiltinScalarDefinition::Int, Value::Integer(_)) => true,
        _ => false,
    }
}

pub open spec fn spec_coerce_builtin_scalar(
    t: InputTypeShape,
    b: BuiltinScalarDefinition,
    v: Value,
    path: Seq<SpecPathMember>,
) -> Seq<SpecCoercionError> {
    if spec_builtin_scalar_accepts(b, v) {
        Seq::empty()
    } else {
        seq![
            SpecCoercionError::NoImplicitConversion {
                input_type_name: t.display(),
                span: v.spec_span(),
                path,
            },
        ]
    }
}

pub open spec fn spec_enum_has_value(
    defs: Seq<EnumValueDefinition>,
    name: Seq<char>,
    i: int,
) -> bool
    decreases defs.len() - i,
{
    if i < 0 || i >= defs.len() {
        false
    } else {
        defs[i].name@ == name || spec_enum_has_value(defs, name, i + 1)
    }
}

pub open spec fn spec_coerce_enum(
    t: InputTypeShape,
    etd: EnumTypeDefinition,
    v: Value,
    path: Seq<SpecPathMember>,
) -> Seq<SpecCoercionError> {
    match v {
        Value::Enum(n) => {
            if spec_enum_has_value(etd.enum_value_definitions@, n.value@, 0) {
                Seq::empty()
            } else {
                seq![
                    SpecCoercionError::NoEnumMemberWithName {
                        name: n.value@,
                        enum_type_name: etd.name@,
                        span: n.span,
                        path,
                    },
                ]
            }
        },
        _ => seq![
            SpecCoercionError::NoImplicitConversion {
                input_type_name: t.display(),
                span: v.spec_span(),
                path,
            },
        ],
    }
}

/// How many entries of the object literal use the given key.
pub open spec fn spec_key_count(fields: Seq<(Name, Value)>, name: Seq<char>, i: int) -> int
    decreases fields.len() - i,
{
    if i < 0 || i >= fields.len() {
        0
    } else {
        (if fields[i].0.value@ == name {
            1int
        } else {
            0int
        }) + spec_key_count(fields, name, i + 1)
    }
}

/// The index of the first entry using the given key, or the length when
/// there is none.
pub open spec fn spec_first_key_index(fields: Seq<(Name, Value)>, name: Seq<char>, i: int) -> int
    decreases fields.len() - i,
{
    if i < 0 || i >= fields.len() {
        fields.len() as int
    } else if fields[i].0.value@ == name {
        i
    } else {
        spec_first_key_index(fields, name, i + 1)
    }
}

/// The spans of every key equal to `name`, in entry order.
pub open spec fn spec_key_spans(fields: Seq<(Name, Value)>, name: Seq<char>, i: int) -> Seq<Span>
    decreases fields.len() - i,
{
    if i < 0 || i >= fields.len() {
        Seq::empty()
    } else if fields[i].0.value@ == name {
        seq![fields[i].0.span] + spec_key_spans(fields, name, i + 1)
    } else {
        spec_key_spans(fields, name, i + 1)
    }
}

/// One `NonUniqueFieldNames` error for each key used more than once,
/// reported at the key's first occurrence.
pub open spec fn spec_duplicate_key_errors(
    o: ObjectValue,
    i: int,
    path: Seq<SpecPathMember>,
) -> Seq<SpecCoercionError>
    decreases o.fields@.len() - i,
{
    if i < 0 || i >= o.fields@.len() {
        Seq::empty()
    } else {
        let key = o.fields@[i].0.value@;
        let rest = spec_duplicate_key_errors(o, i + 1, path);
        if spec_first_key_index(o.fields@, key, 0) == i && spec_key_count(o.fields@, key, 0) > 1 {
            seq![
                SpecCoercionError::NonUniqueFieldNames {
                    field_name: key,
                    span: o.span,
                    key_spans: spec_key_spans(o.fields@, key, 0),
                    path,
                },
            ] + rest
        } else {
            rest
        }
    }
}

/// One `NoInputFieldWithName` error for each entry whose key is not a
/// declared input field.
pub open spec fn spec_unknown_key_errors(
    iotd: InputObjectTypeDefinition,
    o: ObjectValue,
    i: int,
    path: Seq<SpecPathMember>,
) -> Seq<SpecCoercionError>
    decreases o.fields@.len() - i,
{
    if i < 0 || i >= o.fields@.len() {
        Seq::empty()
    } else {
        let rest = spec_unknown_key_errors(iotd, o, i + 1, path);
        if spec_find_input_value(iotd.input_field_definitions@, o.fields@[i].0.value@, 0)
            is None {
            seq![
                SpecCoercionError::NoInputFieldWithName {
                    field_name: o.fields@[i].0.value@,
                    input_object_type_name: iotd.name@,
                    span: o.fields@[i].0.span,
                    path,
                },
            ] + rest
        } else {
            rest
        }
    }
}

/// The names of declared input fields that are required, carry no default,
/// and are absent from the literal, in declaration order.
pub open spec fn spec_missing_field_names(
    defs: Seq<InputValueDefinition>,
    k: int,
    fields: Seq<(Name, Value)>,
) -> Seq<Seq<char>>
    decreases defs.len() - k,
{
    if k < 0 || k >= defs.len() {
        Seq::empty()
    } else {
        let rest = spec_missing_field_names(defs, k + 1, fields);
        if spec_first_key_index(fields, defs[k].name@, 0) == fields.len()
            && defs[k].default_value is None && defs[k].input_type@.is_required() {
            seq![defs[k].name@] + rest
        } else {
            rest
        }
    }
}

/// Coercion errors from each declared input field's value, in declaration
/// order; an absent field contributes nothing here.
pub open spec fn spec_object_field_errors(
    schema: SchemaDefinition,
    defs: Seq<InputValueDefinition>,
    k: int,
    o: ObjectValue,
    path: Seq<SpecPathMember>,
) -> Seq<SpecCoercionError>
    decreases Value::Object(o), 0int, 8int, defs.len() - k,
    via spec_object_field_errors_decreases
{
    if k < 0 || k >= defs.len() {
        Seq::empty()
    } else {
        let j = spec_first_key_index(o.fields@, defs[k].name@, 0);
        let head: Seq<SpecCoercionError> = if 0 <= j && j < o.fields@.len() {
            spec_coerce_value(
                schema,
                defs[k].input_type@,
                o.fields@[j].1,
                path.push(SpecPathMember::Key(defs[k].name@)),
                true,
            )
        } else {
            Seq::empty()
        };
        head + spec_object_field_errors(schema, defs, k + 1, o, path)
    }
}

#[via_fn]
proof fn spec_object_field_errors_decreases(
    schema: SchemaDefinition,
    defs: Seq<InputValueDefinition>,
    k: int,
    o: ObjectValue,
    path: Seq<SpecPathMember>,
) {
    if !(k < 0 || k >= defs.len()) {
        let j = spec_first_key_index(o.fields@, defs[k].name@, 0);
        if 0 <= j && j < o.fields@.len() {
            lemma_object_entry_decreases(Value::Object(o), j);
        }
    }
}

/// A field value inside an object literal is structurally below the object
/// value itself.
pub proof fn lemma_object_entry_decreases(v: Value, j: int)
    requires
        v is Object,
        0 <= j < v->Object_0.fields@.len(),
    ensures
        decreases_to!(v => v->Object_0.fields@[j].1),
{
    let o = v->Object_0;
    assert(decreases_to!(v => v->Object_0));
    assert(decreases_to!(o => o.fields));
    assert(decreases_to!(o.fields => o.fields@));
    assert(decreases_to!(o.fields@ => o.fields@[j]));
    assert(decreases_to!(o.fields@[j] => o.fields@[j].1));
}

/// All checks on an input-object literal: duplicate keys, unknown keys, the
/// declared fields' values, and one error naming every missing required
/// field.
pub open spec fn spec_coerce_input_object(
    schema: SchemaDefinition,
    iotd: InputObjectTypeDefinition,
    o: ObjectValue,
    path: Seq<SpecPathMember>,
) -> Seq<SpecCoercionError>
    decreases Value::Object(o), 0int, 9int, 0int,
{
    let missing = spec_missing_field_names(iotd.input_field_definitions@, 0, o.fields@);
    spec_duplicate_key_errors(o, 0, path) + spec_unknown_key_errors(iotd, o, 0, path)
        + spec_object_field_errors(schema, iotd.input_field_definitions@, 0, o, path) + (
    if missing.len() > 0 {
        seq![
            SpecCoercionError::NoValueForRequiredFields {
                field_names: missing,
                input_object_type_name: iotd.name@,
                span: o.span,
                path,
            },
        ]
    } else {
        Seq::empty()
    })
}

pub fn clone_path(path: &Vec<PathMember>) -> (r: Vec<PathMember>)
    ensures
        views_of(r@) == views_of(path@),
{
    let mut out: Vec<PathMember> = Vec::new();
    let mut i: usize = 0;
    proof {
        assert(path@.take(0int) =~= Seq::<PathMember>::empty());
    }
    while i < path.len()
        invariant
            i <= path@.len(),
            views_of(out@) == views_of(path@.take(i as int)),
        decreases path@.len() - i,
    {
        let ghost prev = out@;
        let m: PathMember = match &path[i] {
            PathMember::Key(s) => PathMember::Key(s.clone()),
            PathMember::Index(k) => PathMember::Index(*k),
        };
        proof {
            assert(m@ == path@[i as int]@);
        }
        let ghost gm = m;
        out.push(m);
        proof {
            lemma_views_of_push(prev, gm);
            lemma_take_push(path@, i as int);
            lemma_views_of_push(path@.take(i as int), path@[i as int]);
        }
        i += 1;
    }
    proof {
        lemma_take_all(path@);
    }
    out
}

fn path_push_key(path: &Vec<PathMember>, name: &String) -> (r: Vec<PathMember>)
    ensures
        views_of(r@) == views_of(path@).push(SpecPathMember::Key(name@)),
{
    let mut out = clone_path(path);
    let ghost prev = out@;
    let m = PathMember::Key(name.clone());
    let ghost gm = m;
    out.push(m);
    proof {
        lemma_views_of_push(prev, gm);
    }
    out
}

fn path_push_index(path: &Vec<PathMember>, i: usize) -> (r: Vec<PathMember>)
    ensures
        views_of(r@) == views_of(path@).push(SpecPathMember::Index(i as int)),
{
    let mut out = clone_path(path);
    let ghost prev = out@;
    let m = PathMember::Index(i);
    let ghost gm = m;
    out.push(m);
    proof {
        lemma_views_of_push(prev, gm);
    }
    out
}

/// Structural validation of a value against an input type; `Ok` exactly
/// when no fault was found.
pub fn coerce_value_for_input_type_reference(
    schema: &SchemaDefinition,
    input_type: &InputType,
    value: &Value,
    path: &Vec<PathMember>,
    allow_implicit_list: bool,
) -> (r: Result<(), Vec<CoercionError>>)
    ensures
        coercion_result_matches(
            r,
            spec_coerce_value(*schema, input_type@, *value, views_of(path@), allow_implicit_list),
        ),
    decreases *value, input_type@.size(), 2int, 0int,
{
    let is_null = matches!(value, Value::Null(_));
    let is_variable = matches!(value, Value::Variable(_));
    if is_null && input_type.is_required() {
        Err(
            single(
                CoercionError::NullValueForRequiredType {
                    input_type_name: input_type.display_name(),
                    span: value.span(),
                    path: clone_path(path),
                },
            ),
        )
    } else if is_null || is_variable {
        Ok(())
    } else {
        match input_type {
            InputType::Base(_, _) => coerce_value_for_base_input_type_reference(
                schema,
                input_type,
                value,
                path,
            ),
            InputType::List(inner, _) => {
                match value {
                    Value::List(l) => {
                        let errors = coerce_list_elements(schema, inner, &l.elements, 0, path);
                        proof {
                            crate::seqs::lemma_views_of_len(errors@);
                        }
                        if errors.len() == 0 {
                            Ok(())
                        } else {
                            Err(errors)
                        }
                    },
                    _ => {
                        if allow_implicit_list {
                            coerce_value_for_input_type_reference(schema, inner, value, path, true)
                        } else {
                            Err(
                                single(
                                    CoercionError::NoImplicitConversion {
                                        input_type_name: input_type.display_name(),
                                        span: value.span(),
                                        path: clone_path(path),
                                    },
                                ),
                            )
                        }
                    },
                }
            },
        }
    }
}

fn coerce_list_elements(
    schema: &SchemaDefinition,
    inner: &InputType,
    elements: &Vec<Value>,
    i: usize,
    path: &Vec<PathMember>,
) -> (r: Vec<CoercionError>)
    ensures
        views_of(r@) == spec_coerce_list_elements(
            *schema,
            inner@,
            elements@,
            i as int,
            views_of(path@),
        ),
    decreases elements@, inner@.size(), 3int, elements@.len() - i,
{
    if i >= elements.len() {
        proof {
            assert(views_of(Seq::<CoercionError>::empty()) =~= Seq::<SpecCoercionError>::empty());
        }
        Vec::new()
    } else {
        let p2 = path_push_index(path, i);
        let mut head: Vec<CoercionError> = match coerce_value_for_input_type_reference(
            schema,
            inner,
            &elements[i],
            &p2,
            false,
        ) {
            Ok(_) => Vec::new(),
            Err(es) => es,
        };
        let mut rest = coerce_list_elements(schema, inner, elements, i + 1, path);
        proof {
            lemma_views_of_add(head@, rest@);
            assert(views_of(Seq::<CoercionError>::empty()) =~= Seq::<SpecCoercionError>::empty());
        }
        head.append(&mut rest);
        head
    }
}

/// Dispatch on the base type of `input_type`, resolved against the schema.
pub fn coerce_value_for_base_input_type_reference(
    schema: &SchemaDefinition,
    input_type: &InputType,
    value: &Value,
    path: &Vec<PathMember>,
) -> (r: Result<(), Vec<CoercionError>>)
    ensures
        coercion_result_matches(
            r,
            spec_coerce_base_value(*schema, input_type@, *value, views_of(path@)),
        ),
    decreases *value, input_type@.size(), 1int, 0int,
{
    let base = input_type.base_name();
    let looked_up = schema.get_type(base);
    match looked_up {
        None => Ok(()),
        Some(td) => match crate::types::BaseInputType::core_type_from_type_definition_reference(
            td,
        ) {
            Ok(crate::schema::BaseInputTypeReference::BuiltinScalar(b)) => {
                coerce_builtin_scalar_value(input_type, b, value, path)
            },
            Ok(crate::schema::BaseInputTypeReference::CustomScalar(_)) => Ok(()),
            Ok(crate::schema::BaseInputTypeReference::Enum(etd)) => coerce_enum_value(
                input_type,
                etd,
                value,
                path,
            ),
            Ok(crate::schema::BaseInputTypeReference::InputObject(iotd)) => {
                coerce_input_object_value(schema, input_type, iotd, value, path)
            },
            Err(_) => Ok(()),
        },
    }
}

/// The builtin scalar shape matrix of the specification.
pub fn coerce_builtin_scalar_value(
    input_type: &InputType,
    bstd: BuiltinScalarDefinition,
    value: &Value,
    path: &Vec<PathMember>,
) -> (r: Result<(), Vec<CoercionError>>)
    ensures
        coercion_result_matches(
            r,
            spec_coerce_builtin_scalar(input_type@, bstd, *value, views_of(path@)),
        ),
{
    let accepts: bool = match (bstd, value) {
        (BuiltinScalarDefinition::Boolean, Value::Boolean(_)) => true,
        (BuiltinScalarDefinition::Float, Value::Float(_)) => true,
        (BuiltinScalarDefinition::Float, Value::Integer(_)) => true,
        (BuiltinScalarDefinition::ID, Value::Integer(_)) => true,
        (BuiltinScalarDefinition::ID, Value::String(_)) => true,
        (BuiltinScalarDefinition::String, Value::String(_)) => true,
        (BuiltinScalarDefinition::Int, Value::Integer(_)) => true,
        _ => false,
    };
    if accepts {
        Ok(())
    } else {
        Err(
            single(
                CoercionError::NoImplicitConversion {
                    input_type_name: input_type.display_name(),
                    span: value.span(),
                    path: clone_path(path),
                },
            ),
        )
    }
}

fn enum_has_value(defs: &Vec<EnumValueDefinition>, name: &String, i: usize) -> (r: bool)
    requires
        i <= defs@.len(),
    ensures
        r == spec_enum_has_value(defs@, name@, i as int),
    decreases defs@.len() - i,
{
    if i >= defs.len() {
        false
    } else if defs[i].name == *name {
        true
    } else {
        enum_has_value(defs, name, i + 1)
    }
}

/// An enum value must be an enum literal naming a declared member.
pub fn coerce_enum_value(
    input_type: &InputType,
    enum_type_definition: &EnumTypeDefinition,
    value: &Value,
    path: &Vec<PathMember>,
) -> (r: Result<(), Vec<CoercionError>>)
    ensures
        coercion_result_matches(
            r,
            spec_coerce_enum(input_type@, *enum_type_definition, *value, views_of(path@)),
        ),
{
    match value {
        Value::Enum(n) => {
            if enum_has_value(&enum_type_definition.enum_value_definitions, &n.value, 0) {
                Ok(())
            } else {
                Err(
                    single(
                        CoercionError::NoEnumMemberWithName {
                            name: n.value.clone(),
                            enum_type_name: enum_type_definition.name.clone(),
                            span: n.span,
                            path: clone_path(path),
                        },
                    ),
                )
            }
        },
        _ => Err(
            single(
                CoercionError::NoImplicitConversion {
                    input_type_name: input_type.display_name(),
                    span: value.span(),
                    path: clone_path(path),
                },
            ),
        ),
    }
}

fn key_count(fields: &Vec<(Name, Value)>, name: &String, i: usize) -> (r: usize)
    requires
        i <= fields@.len(),
    ensures
        r as int == spec_key_count(fields@, name@, i as int),
        r <= fields@.len() - i,
    decreases fields@.len() - i,
{
    if i >= fields.len() {
        0
    } else {
        let rest = key_count(fields, name, i + 1);
        if fields[i].0.value == *name {
            rest + 1
        } else {
            rest
        }
    }
}

fn first_key_index(fields: &Vec<(Name, Value)>, name: &String, i: usize) -> (r: usize)
    requires
        i <= fields@.len(),
    ensures
        r as int == spec_first_key_index(fields@, name@, i as int),
        r <= fields@.len(),
    decreases fields@.len() - i,
{
    if i >= fields.len() {
        fields.len()
    } else if fields[i].0.value == *name {
        i
    } else {
        first_key_index(fields, name, i + 1)
    }
}

fn key_spans(fields: &Vec<(Name, Value)>, name: &String, i: usize) -> (r: Vec<Span>)
    requires
        i <= fields@.len(),
    ensures
        r@ == spec_key_spans(fields@, name@, i as int),
    decreases fields@.len() - i,
{
    if i >= fields.len() {
        proof {
            assert(Seq::<Span>::empty() =~= spec_key_spans(fields@, name@, i as int));
        }
        Vec::new()
    } else {
        let mut rest = key_spans(fields, name, i + 1);
        if fields[i].0.value == *name {
            let mut out: Vec<Span> = Vec::new();
            out.push(fields[i].0.span);
            let ghost before = out@;
            out.append(&mut rest);
            proof {
                assert(before =~= seq![fields@[i as int].0.span]);
                assert(out@ =~= spec_key_spans(fields@, name@, i as int));
            }
            out
        } else {
            rest
        }
    }
}

fn duplicate_key_errors(o: &ObjectValue, i: usize, path: &Vec<PathMember>) -> (r: Vec<
    CoercionError,
>)
    requires
        i <= o.fields@.len(),
    ensures
        views_of(r@) == spec_duplicate_key_errors(*o, i as int, views_of(path@)),
    decreases o.fields@.len() - i,
{
    if i >= o.fields.len() {
        proof {
            assert(views_of(Seq::<CoercionError>::empty()) =~= Seq::<SpecCoercionError>::empty());
        }
        Vec::new()
    } else {
        let mut rest = duplicate_key_errors(o, i + 1, path);
        let key = &o.fields[i].0.value;
        let first = first_key_index(&o.fields, key, 0);
        let count = key_count(&o.fields, key, 0);
        if first == i && count > 1 {
            let e = CoercionError::NonUniqueFieldNames {
                field_name: key.clone(),
                span: o.span,
                key_spans: key_spans(&o.fields, key, 0),
                path: clone_path(path),
            };
            let mut out = single(e);
            proof {
                lemma_views_of_add(out@, rest@);
            }
            out.append(&mut rest);
            out
        } else {
            rest
        }
    }
}

fn unknown_key_errors(
    iotd: &InputObjectTypeDefinition,
    o: &ObjectValue,
    i: usize,
    path: &Vec<PathMember>,
) -> (r: Vec<CoercionError>)
    requires
        i <= o.fields@.len(),
    ensures
        views_of(r@) == spec_unknown_key_errors(*iotd, *o, i as int, views_of(path@)),
    decreases o.fields@.len() - i,
{
    if i >= o.fields.len() {
        proof {
            assert(views_of(Seq::<CoercionError>::empty()) =~= Seq::<SpecCoercionError>::empty());
        }
        Vec::new()
    } else {
        let mut rest = unknown_key_errors(iotd, o, i + 1, path);
        let known = crate::schema::find_input_value(
            &iotd.input_field_definitions,
            &o.fields[i].0.value,
        );
        if known.is_none() {
            let e = CoercionError::NoInputFieldWithName {
                field_name: o.fields[i].0.value.clone(),
                input_object_type_name: iotd.name.clone(),
                span: o.fields[i].0.span,
                path: clone_path(path),
            };
            let mut out = single(e);
            proof {
                lemma_views_of_add(out@, rest@);
            }
            out.append(&mut rest);
            out
        } else {
            rest
        }
    }
}

fn missing_field_names(
    defs: &Vec<InputValueDefinition>,
    k: usize,
    fields: &Vec<(Name, Value)>,
) -> (r: Vec<String>)
    requires
        k <= defs@.len(),
    ensures
        views_of(r@) == spec_missing_field_names(defs@, k as int, fields@),
    decreases defs@.len() - k,
{
    if k >= defs.len() {
        proof {
            assert(views_of(Seq::<String>::empty()) =~= Seq::<Seq<char>>::empty());
        }
        Vec::new()
    } else {
        let mut rest = missing_field_names(defs, k + 1, fields);
        let absent = first_key_index(fields, &defs[k].name, 0) == fields.len();
        let no_default = defs[k].default_value.is_none();
        if absent && no_default && defs[k].input_type.is_required() {
            let mut out = single(defs[k].name.clone());
            proof {
                lemma_views_of_add(out@, rest@);
            }
            out.append(&mut rest);
            out
        } else {
            rest
        }
    }
}

fn object_field_errors(
    schema: &SchemaDefinition,
    defs: &Vec<InputValueDefinition>,
    k: usize,
    o: &ObjectValue,
    path: &Vec<PathMember>,
) -> (r: Vec<CoercionError>)
    requires
        k <= defs@.len(),
    ensures
        views_of(r@) == spec_object_field_errors(
            *schema,
            defs@,
            k as int,
            *o,
            views_of(path@),
        ),
    decreases Value::Object(*o), 0int, 8int, defs@.len() - k,
{
    if k >= defs.len() {
        proof {
            assert(views_of(Seq::<CoercionError>::empty()) =~= Seq::<SpecCoercionError>::empty());
        }
        Vec::new()
    } else {
        let j = first_key_index(&o.fields, &defs[k].name, 0);
        let mut head: Vec<CoercionError> = if j < o.fields.len() {
            proof {
                lemma_object_entry_decreases(Value::Object(*o), j as int);
            }
            let p2 = path_push_key(path, &defs[k].name);
            match coerce_value_for_input_type_reference(
                schema,
                &defs[k].input_type,
                &o.fields[j].1,
                &p2,
                true,
            ) {
                Ok(_) => Vec::new(),
                Err(es) => es,
            }
        } else {
            Vec::new()
        };
        let mut rest = object_field_errors(schema, defs, k + 1, o, path);
        proof {
            lemma_views_of_add(head@, rest@);
            assert(views_of(Seq::<CoercionError>::empty()) =~= Seq::<SpecCoercionError>::empty());
        }
        head.append(&mut rest);
        head
    }
}

/// An input-object value must be an object literal; its keys, declared
/// fields and required fields are all checked, and every fault collected.
pub fn coerce_input_object_value(
    schema: &SchemaDefinition,
    input_type: &InputType,
    input_object_type_definition: &InputObjectTypeDefinition,
    value: &Value,
    path: &Vec<PathMember>,
) -> (r: Result<(), Vec<CoercionError>>)
    ensures
        match *value {
            Value::Object(o) => coercion_result_matches(
                r,
                spec_coerce_input_object(
                    *schema,
                    *input_object_type_definition,
                    o,
                    views_of(path@),
                ),
            ),
            _ => coercion_result_matches(
                r,
                seq![
                    SpecCoercionError::NoImplicitConversion {
                        input_type_name: input_type@.display(),
                        span: value.spec_span(),
                        path: views_of(path@),
                    },
                ],
            ),
        },
    decreases *value, 0int, 9int, 0int,
{
    match value {
        Value::Object(o) => {
            let mut errors = duplicate_key_errors(o, 0, path);
            let mut unknown = unknown_key_errors(input_object_type_definition, o, 0, path);
            let mut field_errors = object_field_errors(
                schema,
                &input_object_type_definition.input_field_definitions,
                0,
                o,
                path,
            );
            let missing = missing_field_names(
                &input_object_type_definition.input_field_definitions,
                0,
                &o.fields,
            );
            proof {
                lemma_views_of_add(errors@, unknown@);
            }
            errors.append(&mut unknown);
            proof {
                lemma_views_of_add(errors@, field_errors@);
            }
            errors.append(&mut field_errors);
            proof {
                crate::seqs::lemma_views_of_len(missing@);
            }
            if missing.len() > 0 {
                let e = CoercionError::NoValueForRequiredFields {
                    field_names: missing,
                    input_object_type_name: input_object_type_definition.name.clone(),
                    span: o.span,
                    path: clone_path(path),
                };
                let mut tail = single(e);
                proof {
                    lemma_views_of_add(errors@, tail@);
                }
                errors.append(&mut tail);
            } else {
                proof {
                    let ghost spec_all = spec_coerce_input_object(
                        *schema,
                        *input_object_type_definition,
                        *o,
                        views_of(path@),
                    );
                    assert(errors@ + Seq::<CoercionError>::empty() =~= errors@);
                    assert(views_of(errors@) + Seq::<SpecCoercionError>::empty() =~= views_of(
                        errors@,
                    ));
                }
            }
            proof {
                crate::seqs::lemma_views_of_len(errors@);
            }
            if errors.len() == 0 {
                Ok(())
            } else {
                Err(errors)
            }
        },
        _ => Err(
            single(
                CoercionError::NoImplicitConversion {
                    input_type_name: input_type.display_name(),
                    span: value.span(),
                    path: clone_path(path),
                },
            ),
        ),
    }
}

/// Anything that acts as an input type reference can coerce a value:
/// variable declared types in documents and argument or input-field types
/// in schemas share the contract.
pub trait CoerceInput {
    spec fn input_shape(&self) -> InputTypeShape;

    fn coerce_value(
        &self,
        schema: &SchemaDefinition,
        value: &Value,
        path: &Vec<PathMember>,
    ) -> (r: Result<(), Vec<CoercionError>>)
        ensures
            coercion_result_matches(
                r,
                spec_coerce_value(*schema, self.input_shape(), *value, views_of(path@), true),
            ),
    ;
}

impl CoerceInput for InputType {
    open spec fn input_shape(&self) -> InputTypeShape {
        self@
    }

    fn coerce_value(
        &self,
        schema: &SchemaDefinition,
        value: &Value,
        path: &Vec<PathMember>,
    ) -> (r: Result<(), Vec<CoercionError>>) {
        coerce_value_for_input_type_reference(schema, self, value, path, true)
    }
}

impl CoerceInput for InputTypeReference {
    open spec fn input_shape(&self) -> InputTypeShape {
        self@
    }

    fn coerce_value(
        &self,
        schema: &SchemaDefinition,
        value: &Value,
        path: &Vec<PathMember>,
    ) -> (r: Result<(), Vec<CoercionError>>) {
        let declared = self.to_input_type();
        coerce_value_for_input_type_reference(schema, &declared, value, path, true)
    }
}

} // verus!
