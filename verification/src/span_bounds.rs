use vstd::prelude::*;

use crate::arguments::{
    spec_argument_uniqueness_errors, spec_argument_value_errors, spec_directive_site_errors,
    spec_directive_uniqueness_errors, spec_directives_errors, spec_known_owner_argument_errors,
    spec_map_coercion, spec_missing_argument_errors, spec_unknown_argument_errors,
};
use crate::executable::{
    Argument, Directive, ExecutableDocument, FragmentDefinition, Selection, VariableDefinition,
    spec_find_fragment,
};
use crate::input_coercion::{
    SpecCoercionError, SpecPathMember, lemma_object_entry_decreases, spec_coerce_value,
    spec_coerce_base_value, spec_coerce_input_object, spec_coerce_list_elements,
    spec_duplicate_key_errors, spec_missing_field_names, spec_object_field_errors,
    spec_unknown_key_errors,
};
use crate::schema::{DirectiveLocation, InputValueDefinition, SchemaDefinition, TypeDefinition};
use crate::span::Span;
use crate::types::InputTypeShape;
use crate::validation_error::{SpecValidationError, spec_from_coercion};
use crate::value::{Name, ObjectValue, Value};

verus! {

/// Every error's primary span lies within the first `bound` bytes of the
/// source.
pub open spec fn all_primary_spans_within(s: Seq<SpecValidationError>, bound: nat) -> bool {
    forall|j: int|
        0 <= j < s.len() ==> (#[trigger] s[j]).spec_primary_span().within(bound)
}

pub open spec fn spec_coercion_error_span(e: SpecCoercionError) -> Span {
    match e {
        SpecCoercionError::NullValueForRequiredType { span, .. } => span,
        SpecCoercionError::NoImplicitConversion { span, .. } => span,
        SpecCoercionError::NoEnumMemberWithName { span, .. } => span,
        SpecCoercionError::NonUniqueFieldNames { span, .. } => span,
        SpecCoercionError::NoInputFieldWithName { span, .. } => span,
        SpecCoercionError::NoValueForRequiredFields { span, .. } => span,
    }
}

pub open spec fn all_coercion_spans_within(s: Seq<SpecCoercionError>, bound: nat) -> bool {
    forall|j: int|
        0 <= j < s.len() ==> spec_coercion_error_span(#[trigger] s[j]).within(bound)
}

proof fn lemma_spans_add(a: Seq<SpecValidationError>, b: Seq<SpecValidationError>, bound: nat)
    requires
        all_primary_spans_within(a, bound),
        all_primary_spans_within(b, bound),
    ensures
        all_primary_spans_within(a + b, bound),
{
    assert forall|j: int| 0 <= j < (a + b).len() implies ((a + b)[j]).spec_primary_span().within(
        bound,
    ) by {
        if j < a.len() {
            assert((a + b)[j] == a[j]);
        } else {
            assert((a + b)[j] == b[j - a.len()]);
        }
    }
}

proof fn lemma_cspans_add(a: Seq<SpecCoercionError>, b: Seq<SpecCoercionError>, bound: nat)
    requires
        all_coercion_spans_within(a, bound),
        all_coercion_spans_within(b, bound),
    ensures
        all_coercion_spans_within(a + b, bound),
{
    assert forall|j: int| 0 <= j < (a + b).len() implies spec_coercion_error_span(
        (a + b)[j],
    ).within(bound) by {
        if j < a.len() {
            assert((a + b)[j] == a[j]);
        } else {
            assert((a + b)[j] == b[j - a.len()]);
        }
    }
}

proof fn lemma_value_list_elem(s: Seq<Value>, i: int, j: int, bound: nat)
    requires
        crate::value::spec_value_list_spans_within(s, i, bound),
        0 <= i <= j < s.len(),
    ensures
        s[j].spans_within(bound),
    decreases j - i,
{
    if i < j {
        lemma_value_list_elem(s, i + 1, j, bound);
    }
}

proof fn lemma_value_fields_elem(fields: Seq<(Name, Value)>, i: int, j: int, bound: nat)
    requires
        crate::value::spec_value_fields_spans_within(fields, i, bound),
        0 <= i <= j < fields.len(),
    ensures
        fields[j].0.span.within(bound),
        fields[j].1.spans_within(bound),
    decreases j - i,
{
    if i < j {
        lemma_value_fields_elem(fields, i + 1, j, bound);
    }
}

proof fn lemma_arguments_elem(args: Seq<Argument>, i: int, j: int, bound: nat)
    requires
        crate::executable::spec_arguments_spans_within(args, i, bound),
        0 <= i <= j < args.len(),
    ensures
        args[j].spans_within(bound),
    decreases j - i,
{
    if i < j {
        lemma_arguments_elem(args, i + 1, j, bound);
    }
}

proof fn lemma_directives_elem(dirs: Seq<Directive>, i: int, j: int, bound: nat)
    requires
        crate::executable::spec_directives_spans_within(dirs, i, bound),
        0 <= i <= j < dirs.len(),
    ensures
        dirs[j].spans_within(bound),
    decreases j - i,
{
    if i < j {
        lemma_directives_elem(dirs, i + 1, j, bound);
    }
}

proof fn lemma_selections_elem(sels: Seq<Selection>, i: int, j: int, bound: nat)
    requires
        crate::executable::spec_selections_spans_within(sels, i, bound),
        0 <= i <= j < sels.len(),
    ensures
        sels[j].spans_within(bound),
    decreases j - i,
{
    if i < j {
        lemma_selections_elem(sels, i + 1, j, bound);
    }
}

proof fn lemma_variable_defs_elem(vars: Seq<VariableDefinition>, i: int, j: int, bound: nat)
    requires
        crate::executable::spec_variable_definitions_spans_within(vars, i, bound),
        0 <= i <= j < vars.len(),
    ensures
        vars[j].spans_within(bound),
    decreases j - i,
{
    if i < j {
        lemma_variable_defs_elem(vars, i + 1, j, bound);
    }
}

proof fn lemma_operations_elem(
    ops: Seq<crate::executable::OperationDefinition>,
    i: int,
    j: int,
    bound: nat,
)
    requires
        crate::executable::spec_operations_spans_within(ops, i, bound),
        0 <= i <= j < ops.len(),
    ensures
        ops[j].spans_within(bound),
    decreases j - i,
{
    if i < j {
        lemma_operations_elem(ops, i + 1, j, bound);
    }
}

proof fn lemma_fragments_elem(frags: Seq<FragmentDefinition>, i: int, j: int, bound: nat)
    requires
        crate::executable::spec_fragment_definitions_spans_within(frags, i, bound),
        0 <= i <= j < frags.len(),
    ensures
        frags[j].spans_within(bound),
    decreases j - i,
{
    if i < j {
        lemma_fragments_elem(frags, i + 1, j, bound);
    }
}

proof fn lemma_coerce_value_spans(
    schema: SchemaDefinition,
    t: InputTypeShape,
    v: Value,
    path: Seq<SpecPathMember>,
    allow_implicit_list: bool,
    bound: nat,
)
    requires
        v.spans_within(bound),
    ensures
        all_coercion_spans_within(
            spec_coerce_value(schema, t, v, path, allow_implicit_list),
            bound,
        ),
    decreases v, t.size(), 2int, 0int,
{
    if v is Null && t.is_required() {
    } else if v is Null || v is Variable {
    } else {
        match t {
            InputTypeShape::Base(_, _) => {
                lemma_coerce_base_spans(schema, t, v, path, bound);
            },
            InputTypeShape::List(inner, _) => match v {
                Value::List(l) => {
                    lemma_coerce_list_spans(schema, *inner, l, 0, path, bound);
                },
                _ => {
                    if allow_implicit_list {
                        lemma_coerce_value_spans(schema, *inner, v, path, true, bound);
                    }
                },
            },
        }
    }
}

proof fn lemma_coerce_list_spans(
    schema: SchemaDefinition,
    inner: InputTypeShape,
    l: crate::value::ListValue,
    i: int,
    path: Seq<SpecPathMember>,
    bound: nat,
)
    requires
        Value::List(l).spans_within(bound),
    ensures
        all_coercion_spans_within(
            spec_coerce_list_elements(schema, inner, l.elements@, i, path),
            bound,
        ),
    decreases l.elements@, inner.size(), 3int, l.elements@.len() - i,
{
    if !(i < 0 || i >= l.elements@.len()) {
        lemma_value_list_elem(l.elements@, 0, i, bound);
        lemma_coerce_value_spans(
            schema,
            inner,
            l.elements@[i],
            path.push(SpecPathMember::Index(i)),
            false,
            bound,
        );
        lemma_coerce_list_spans(schema, inner, l, i + 1, path, bound);
        lemma_cspans_add(
            spec_coerce_value(
                schema,
                inner,
                l.elements@[i],
                path.push(SpecPathMember::Index(i)),
                false,
            ),
            spec_coerce_list_elements(schema, inner, l.elements@, i + 1, path),
            bound,
        );
    }
}

proof fn lemma_coerce_base_spans(
    schema: SchemaDefinition,
    t: InputTypeShape,
    v: Value,
    path: Seq<SpecPathMember>,
    bound: nat,
)
    requires
        v.spans_within(bound),
    ensures
        all_coercion_spans_within(spec_coerce_base_value(schema, t, v, path), bound),
    decreases v, t.size(), 1int, 0int,
{
    match schema.spec_get_type(t.base_name()) {
        None => {},
        Some(td) => match td {
            TypeDefinition::InputObject(iotd) => match v {
                Value::Object(o) => {
                    lemma_coerce_object_spans(schema, iotd, o, path, bound);
                },
                _ => {},
            },
            _ => {},
        },
    }
}

proof fn lemma_dup_keys_spans(o: ObjectValue, i: int, path: Seq<SpecPathMember>, bound: nat)
    requires
        Value::Object(o).spans_within(bound),
    ensures
        all_coercion_spans_within(spec_duplicate_key_errors(o, i, path), bound),
    decreases o.fields@.len() - i,
{
    if !(i < 0 || i >= o.fields@.len()) {
        lemma_dup_keys_spans(o, i + 1, path, bound);
        let key = o.fields@[i].0.value@;
        if crate::input_coercion::spec_first_key_index(o.fields@, key, 0) == i
            && crate::input_coercion::spec_key_count(o.fields@, key, 0) > 1 {
            let head = seq![
                SpecCoercionError::NonUniqueFieldNames {
                    field_name: key,
                    span: o.span,
                    key_spans: crate::input_coercion::spec_key_spans(o.fields@, key, 0),
                    path,
                },
            ];
            lemma_cspans_add(head, spec_duplicate_key_errors(o, i + 1, path), bound);
        }
    }
}

proof fn lemma_unknown_keys_spans(
    iotd: crate::schema::InputObjectTypeDefinition,
    o: ObjectValue,
    i: int,
    path: Seq<SpecPathMember>,
    bound: nat,
)
    requires
        Value::Object(o).spans_within(bound),
    ensures
        all_coercion_spans_within(spec_unknown_key_errors(iotd, o, i, path), bound),
    decreases o.fields@.len() - i,
{
    if !(i < 0 || i >= o.fields@.len()) {
        lemma_value_fields_elem(o.fields@, 0, i, bound);
        lemma_unknown_keys_spans(iotd, o, i + 1, path, bound);
        if crate::schema::spec_find_input_value(
            iotd.input_field_definitions@,
            o.fields@[i].0.value@,
            0,
        ) is None {
            let head = seq![
                SpecCoercionError::NoInputFieldWithName {
                    field_name: o.fields@[i].0.value@,
                    input_object_type_name: iotd.name@,
                    span: o.fields@[i].0.span,
                    path,
                },
            ];
            lemma_cspans_add(head, spec_unknown_key_errors(iotd, o, i + 1, path), bound);
        }
    }
}

proof fn lemma_object_fields_spans(
    schema: SchemaDefinition,
    defs: Seq<InputValueDefinition>,
    k: int,
    o: ObjectValue,
    path: Seq<SpecPathMember>,
    bound: nat,
)
    requires
        Value::Object(o).spans_within(bound),
    ensures
        all_coercion_spans_within(spec_object_field_errors(schema, defs, k, o, path), bound),
    decreases Value::Object(o), 0int, 8int, defs.len() - k,
{
    if !(k < 0 || k >= defs.len()) {
        let j = crate::input_coercion::spec_first_key_index(o.fields@, defs[k].name@, 0);
        if 0 <= j && j < o.fields@.len() {
            lemma_object_entry_decreases(Value::Object(o), j);
            lemma_value_fields_elem(o.fields@, 0, j, bound);
            lemma_coerce_value_spans(
                schema,
                defs[k].input_type@,
                o.fields@[j].1,
                path.push(SpecPathMember::Key(defs[k].name@)),
                true,
                bound,
            );
        }
        lemma_object_fields_spans(schema, defs, k + 1, o, path, bound);
        let head: Seq<SpecCoercionError> = if 0 <= j && j < o.fields@.len() {
            spec_coerce_value(
                schema,
                defs[k].input_type@,
                o.fields@[j].1,
                path.push(SpecPathMember::Key(defs[k].name@)),
                true,
            )
        } else {
            Seq::empty()
        };
        lemma_cspans_add(head, spec_object_field_errors(schema, defs, k + 1, o, path), bound);
    }
}

proof fn lemma_coerce_object_spans(
    schema: SchemaDefinition,
    iotd: crate::schema::InputObjectTypeDefinition,
    o: ObjectValue,
    path: Seq<SpecPathMember>,
    bound: nat,
)
    requires
        Value::Object(o).spans_within(bound),
    ensures
        all_coercion_spans_within(spec_coerce_input_object(schema, iotd, o, path), bound),
    decreases Value::Object(o), 0int, 9int, 0int,
{
    lemma_dup_keys_spans(o, 0, path, bound);
    lemma_unknown_keys_spans(iotd, o, 0, path, bound);
    lemma_object_fields_spans(schema, iotd.input_field_definitions@, 0, o, path, bound);
    let missing = spec_missing_field_names(iotd.input_field_definitions@, 0, o.fields@);
    let tail: Seq<SpecCoercionError> = if missing.len() > 0 {
        seq![
            SpecCoercionError::NoValueForRequiredFields {
                field_names: missing,
                input_object_type_name: iotd.name@,
                span: o.span,
                path,
            },
        ]
    } else {
        Seq::empty()
    };
    lemma_cspans_add(
        spec_duplicate_key_errors(o, 0, path),
        spec_unknown_key_errors(iotd, o, 0, path),
        bound,
    );
    lemma_cspans_add(
        spec_duplicate_key_errors(o, 0, path) + spec_unknown_key_errors(iotd, o, 0, path),
        spec_object_field_errors(schema, iotd.input_field_definitions@, 0, o, path),
        bound,
    );
    lemma_cspans_add(
        spec_duplicate_key_errors(o, 0, path) + spec_unknown_key_errors(iotd, o, 0, path)
            + spec_object_field_errors(schema, iotd.input_field_definitions@, 0, o, path),
        tail,
        bound,
    );
}

proof fn lemma_map_coercion_spans(s: Seq<SpecCoercionError>, bound: nat)
    requires
        all_coercion_spans_within(s, bound),
    ensures
        all_primary_spans_within(spec_map_coercion(s), bound),
    decreases s.len(),
{
    if s.len() > 0 {
        assert(all_coercion_spans_within(s.drop_first(), bound)) by {
            assert forall|j: int| 0 <= j < s.drop_first().len() implies spec_coercion_error_span(
                s.drop_first()[j],
            ).within(bound) by {
                assert(s.drop_first()[j] == s[j + 1]);
            }
        }
        lemma_map_coercion_spans(s.drop_first(), bound);
        assert(spec_from_coercion(s[0]).spec_primary_span() == spec_coercion_error_span(s[0]))
            by {
            match s[0] {
                SpecCoercionError::NullValueForRequiredType { .. } => {},
                SpecCoercionError::NoImplicitConversion { .. } => {},
                SpecCoercionError::NoEnumMemberWithName { .. } => {},
                SpecCoercionError::NonUniqueFieldNames { .. } => {},
                SpecCoercionError::NoInputFieldWithName { .. } => {},
                SpecCoercionError::NoValueForRequiredFields { .. } => {},
            }
        }
        lemma_spans_add(
            seq![spec_from_coercion(s[0])],
            spec_map_coercion(s.drop_first()),
            bound,
        );
    }
}

proof fn lemma_spans_push(s: Seq<SpecValidationError>, e: SpecValidationError, bound: nat)
    requires
        all_primary_spans_within(s, bound),
        e.spec_primary_span().within(bound),
    ensures
        all_primary_spans_within(s.push(e), bound),
{
    assert forall|j: int| 0 <= j < s.push(e).len() implies (s.push(e)[j]).spec_primary_span()
        .within(bound) by {
        if j < s.len() {
            assert(s.push(e)[j] == s[j]);
        } else {
            assert(s.push(e)[j] == e);
        }
    }
}

proof fn lemma_uniq_args_spans(args: Seq<Argument>, i: int, bound: nat)
    requires
        crate::executable::spec_arguments_spans_within(args, 0, bound),
    ensures
        all_primary_spans_within(spec_argument_uniqueness_errors(args, i), bound),
    decreases args.len() - i,
{
    if !(i < 0 || i >= args.len()) {
        lemma_uniq_args_spans(args, i + 1, bound);
        lemma_arguments_elem(args, 0, i, bound);
        let name = args[i].name.value@;
        if crate::arguments::spec_first_argument_index(args, name, 0) == i
            && crate::arguments::spec_argument_count(args, name, 0) > 1 {
            lemma_spans_add(
                seq![
                    SpecValidationError::NonUniqueArgumentNames {
                        name,
                        span: args[i].span,
                        duplicate_spans: crate::arguments::spec_argument_spans(args, name, 0),
                    },
                ],
                spec_argument_uniqueness_errors(args, i + 1),
                bound,
            );
        }
    }
}

proof fn lemma_unknown_args_spans(
    args: Seq<Argument>,
    i: int,
    defs: Seq<InputValueDefinition>,
    owner_is_field: bool,
    owner_name: Seq<char>,
    bound: nat,
)
    requires
        crate::executable::spec_arguments_spans_within(args, 0, bound),
    ensures
        all_primary_spans_within(
            spec_unknown_argument_errors(args, i, defs, owner_is_field, owner_name),
            bound,
        ),
    decreases args.len() - i,
{
    if !(i < 0 || i >= args.len()) {
        lemma_unknown_args_spans(args, i + 1, defs, owner_is_field, owner_name, bound);
        lemma_arguments_elem(args, 0, i, bound);
        let rest = spec_unknown_argument_errors(args, i + 1, defs, owner_is_field, owner_name);
        if crate::schema::spec_find_input_value(defs, args[i].name.value@, 0) is None {
            let e = if owner_is_field {
                SpecValidationError::ArgumentDoesNotExistOnField {
                    argument_name: args[i].name.value@,
                    field_name: owner_name,
                    span: args[i].span,
                }
            } else {
                SpecValidationError::ArgumentDoesNotExistOnDirective {
                    argument_name: args[i].name.value@,
                    directive_name: owner_name,
                    span: args[i].span,
                }
            };
            lemma_spans_add(seq![e], rest, bound);
        }
    }
}

proof fn lemma_missing_args_spans(
    defs: Seq<InputValueDefinition>,
    j: int,
    args: Seq<Argument>,
    owner_name: Seq<char>,
    owner_span: Span,
    bound: nat,
)
    requires
        owner_span.within(bound),
    ensures
        all_primary_spans_within(
            spec_missing_argument_errors(defs, j, args, owner_name, owner_span),
            bound,
        ),
    decreases defs.len() - j,
{
    if !(j < 0 || j >= defs.len()) {
        lemma_missing_args_spans(defs, j + 1, args, owner_name, owner_span, bound);
        let rest = spec_missing_argument_errors(defs, j + 1, args, owner_name, owner_span);
        if defs[j].input_type@.is_required() && defs[j].default_value is None
            && crate::arguments::spec_first_argument_index(args, defs[j].name@, 0) == args.len() {
            lemma_spans_add(
                seq![
                    SpecValidationError::RequiredArgumentMissing {
                        name: defs[j].name@,
                        owner_name,
                        span: owner_span,
                    },
                ],
                rest,
                bound,
            );
        }
    }
}

proof fn lemma_value_args_spans(
    schema: SchemaDefinition,
    args: Seq<Argument>,
    i: int,
    defs: Seq<InputValueDefinition>,
    bound: nat,
)
    requires
        crate::executable::spec_arguments_spans_within(args, 0, bound),
    ensures
        all_primary_spans_within(spec_argument_value_errors(schema, args, i, defs), bound),
    decreases args.len() - i,
{
    if !(i < 0 || i >= args.len()) {
        lemma_value_args_spans(schema, args, i + 1, defs, bound);
        lemma_arguments_elem(args, 0, i, bound);
        let rest = spec_argument_value_errors(schema, args, i + 1, defs);
        match crate::schema::spec_find_input_value(defs, args[i].name.value@, 0) {
            Some(d) => {
                let coerced = spec_coerce_value(
                    schema,
                    d.input_type@,
                    args[i].value,
                    Seq::empty(),
                    true,
                );
                lemma_coerce_value_spans(
                    schema,
                    d.input_type@,
                    args[i].value,
                    Seq::empty(),
                    true,
                    bound,
                );
                lemma_map_coercion_spans(coerced, bound);
                lemma_spans_add(spec_map_coercion(coerced), rest, bound);
            },
            None => {},
        }
    }
}

proof fn lemma_known_owner_spans(
    schema: SchemaDefinition,
    args: Seq<Argument>,
    defs: Seq<InputValueDefinition>,
    owner_is_field: bool,
    owner_name: Seq<char>,
    owner_span: Span,
    bound: nat,
)
    requires
        crate::executable::spec_arguments_spans_within(args, 0, bound),
        owner_span.within(bound),
    ensures
        all_primary_spans_within(
            spec_known_owner_argument_errors(
                schema,
                args,
                defs,
                owner_is_field,
                owner_name,
                owner_span,
            ),
            bound,
        ),
{
    lemma_unknown_args_spans(args, 0, defs, owner_is_field, owner_name, bound);
    lemma_uniq_args_spans(args, 0, bound);
    lemma_missing_args_spans(defs, 0, args, owner_name, owner_span, bound);
    lemma_value_args_spans(schema, args, 0, defs, bound);
    let unknown = spec_unknown_argument_errors(args, 0, defs, owner_is_field, owner_name);
    let uniq = spec_argument_uniqueness_errors(args, 0);
    let missing = spec_missing_argument_errors(defs, 0, args, owner_name, owner_span);
    let values = spec_argument_value_errors(schema, args, 0, defs);
    lemma_spans_add(unknown, uniq, bound);
    lemma_spans_add(unknown + uniq, missing, bound);
    lemma_spans_add(unknown + uniq + missing, values, bound);
}

proof fn lemma_dir_uniq_spans(dirs: Seq<Directive>, i: int, bound: nat)
    requires
        crate::executable::spec_directives_spans_within(dirs, 0, bound),
    ensures
        all_primary_spans_within(spec_directive_uniqueness_errors(dirs, i), bound),
    decreases dirs.len() - i,
{
    if !(i < 0 || i >= dirs.len()) {
        lemma_dir_uniq_spans(dirs, i + 1, bound);
        lemma_directives_elem(dirs, 0, i, bound);
        let name = dirs[i].name.value@;
        if crate::arguments::spec_first_directive_index(dirs, name, 0) == i
            && crate::arguments::spec_directive_count(dirs, name, 0) > 1 {
            lemma_spans_add(
                seq![
                    SpecValidationError::NonUniqueDirectivesPerLocation {
                        directive_name: name,
                        span: dirs[i].span,
                        duplicate_spans: crate::arguments::spec_directive_spans(dirs, name, 0),
                    },
                ],
                spec_directive_uniqueness_errors(dirs, i + 1),
                bound,
            );
        }
    }
}

proof fn lemma_directives_spans(
    schema: SchemaDefinition,
    dirs: Seq<Directive>,
    i: int,
    location: DirectiveLocation,
    bound: nat,
)
    requires
        crate::executable::spec_directives_spans_within(dirs, 0, bound),
    ensures
        all_primary_spans_within(spec_directives_errors(schema, dirs, i, location), bound),
    decreases dirs.len() - i,
{
    if !(i < 0 || i >= dirs.len()) {
        lemma_directives_spans(schema, dirs, i + 1, location, bound);
        lemma_directives_elem(dirs, 0, i, bound);
        let d = dirs[i];
        let rest = spec_directives_errors(schema, dirs, i + 1, location);
        match schema.spec_get_directive(d.name.value@) {
            None => {
                let e = SpecValidationError::DirectiveDoesNotExist {
                    directive_name: d.name.value@,
                    span: d.span,
                };
                lemma_uniq_args_spans(d.arguments@, 0, bound);
                lemma_spans_add(seq![e], spec_argument_uniqueness_errors(d.arguments@, 0), bound);
                lemma_spans_add(
                    seq![e] + spec_argument_uniqueness_errors(d.arguments@, 0),
                    rest,
                    bound,
                );
            },
            Some(dd) => {
                let location_errors: Seq<SpecValidationError> = if !crate::arguments::spec_location_list_contains(
                    dd.locations@,
                    location,
                    0,
                ) {
                    seq![
                        SpecValidationError::DirectiveInInvalidLocation {
                            directive_name: d.name.value@,
                            location,
                            span: d.span,
                        },
                    ]
                } else {
                    Seq::empty()
                };
                let known = spec_known_owner_argument_errors(
                    schema,
                    d.arguments@,
                    dd.arguments_definition@,
                    false,
                    d.name.value@,
                    d.span,
                );
                lemma_known_owner_spans(
                    schema,
                    d.arguments@,
                    dd.arguments_definition@,
                    false,
                    d.name.value@,
                    d.span,
                    bound,
                );
                lemma_spans_add(location_errors, known, bound);
                lemma_spans_add(location_errors + known, rest, bound);
            },
        }
    }
}

proof fn lemma_dirsite_spans(
    schema: SchemaDefinition,
    dirs: Seq<Directive>,
    location: DirectiveLocation,
    bound: nat,
)
    requires
        crate::executable::spec_directives_spans_within(dirs, 0, bound),
    ensures
        all_primary_spans_within(spec_directive_site_errors(schema, dirs, location), bound),
{
    lemma_directives_spans(schema, dirs, 0, location, bound);
    lemma_dir_uniq_spans(dirs, 0, bound);
    lemma_spans_add(
        spec_directives_errors(schema, dirs, 0, location),
        spec_directive_uniqueness_errors(dirs, 0),
        bound,
    );
}

proof fn lemma_variable_defaults_spans(
    schema: SchemaDefinition,
    vars: Seq<VariableDefinition>,
    i: int,
    bound: nat,
)
    requires
        crate::executable::spec_variable_definitions_spans_within(vars, 0, bound),
    ensures
        all_primary_spans_within(crate::traversal::spec_variable_default_errors(schema, vars, i), bound),
    decreases vars.len() - i,
{
    if !(i < 0 || i >= vars.len()) {
        lemma_variable_defaults_spans(schema, vars, i + 1, bound);
        lemma_variable_defs_elem(vars, 0, i, bound);
        let rest = crate::traversal::spec_variable_default_errors(schema, vars, i + 1);
        match vars[i].default_value {
            Some(v) => {
                let coerced = spec_coerce_value(
                    schema,
                    vars[i].variable_type@,
                    v,
                    Seq::empty(),
                    true,
                );
                lemma_coerce_value_spans(
                    schema,
                    vars[i].variable_type@,
                    v,
                    Seq::empty(),
                    true,
                    bound,
                );
                lemma_map_coercion_spans(coerced, bound);
                lemma_spans_add(spec_map_coercion(coerced), rest, bound);
            },
            None => {},
        }
    }
}

proof fn lemma_spread_possible_spans(
    schema: SchemaDefinition,
    scope: Option<TypeDefinition>,
    condition: Seq<char>,
    span: Span,
    bound: nat,
)
    requires
        span.within(bound),
    ensures
        all_primary_spans_within(
            crate::traversal::spec_spread_possible_errors(schema, scope, condition, span),
            bound,
        ),
{
}

proof fn lemma_find_fragment_spans(
    frags: Seq<FragmentDefinition>,
    name: Seq<char>,
    i: int,
    bound: nat,
)
    requires
        crate::executable::spec_fragment_definitions_spans_within(frags, 0, bound),
        0 <= i,
    ensures
        match spec_find_fragment(frags, name, i) {
            Some(fd) => fd.spans_within(bound),
            None => true,
        },
    decreases frags.len() - i,
{
    if i < frags.len() {
        lemma_fragments_elem(frags, 0, i, bound);
        lemma_find_fragment_spans(frags, name, i + 1, bound);
    }
}

proof fn lemma_walk_selection_spans(
    doc: ExecutableDocument,
    schema: SchemaDefinition,
    sel: Selection,
    scope: Option<TypeDefinition>,
    bound: nat,
)
    requires
        sel.spans_within(bound),
    ensures
        all_primary_spans_within(
            crate::traversal::spec_walk_selection(doc, schema, sel, scope),
            bound,
        ),
    decreases sel, 0int,
{
    match sel {
        Selection::Field(f) => {
            let res = crate::traversal::spec_resolve_field(schema, scope, f.name.value@);
            let re: Seq<SpecValidationError> = match res {
                crate::traversal::SpecFieldResolution::NotFound => seq![
                    SpecValidationError::FieldDoesNotExistOnType {
                        field_name: f.name.value@,
                        parent_type_name: crate::traversal::spec_scope_name(scope),
                        span: f.span,
                    },
                ],
                _ => Seq::empty(),
            };
            let le: Seq<SpecValidationError> = match res {
                crate::traversal::SpecFieldResolution::Found(fd) => match schema.spec_get_type(
                    fd.output_type@.base_name(),
                ) {
                    Some(bt) => {
                        if bt.spec_is_leaf() && f.selection_set is Some {
                            seq![
                                SpecValidationError::NonLeafFieldSelectionOnLeafType {
                                    field_name: f.name.value@,
                                    base_type_name: bt.spec_name(),
                                    span: f.span,
                                },
                            ]
                        } else if bt.spec_is_composite() && f.selection_set is None {
                            seq![
                                SpecValidationError::LeafFieldSelectionsNotOnType {
                                    field_name: f.name.value@,
                                    base_type_name: bt.spec_name(),
                                    span: f.span,
                                },
                            ]
                        } else {
                            Seq::empty()
                        }
                    },
                    None => Seq::empty(),
                },
                crate::traversal::SpecFieldResolution::Meta => {
                    if f.selection_set is Some {
                        seq![
                            SpecValidationError::NonLeafFieldSelectionOnLeafType {
                                field_name: f.name.value@,
                                base_type_name: "String"@,
                                span: f.span,
                            },
                        ]
                    } else {
                        Seq::empty()
                    }
                },
                _ => Seq::empty(),
            };
            let ae: Seq<SpecValidationError> = match res {
                crate::traversal::SpecFieldResolution::Found(fd) => spec_known_owner_argument_errors(
                    schema,
                    f.arguments@,
                    fd.arguments_definition@,
                    true,
                    f.name.value@,
                    f.span,
                ),
                crate::traversal::SpecFieldResolution::Meta => spec_known_owner_argument_errors(
                    schema,
                    f.arguments@,
                    Seq::empty(),
                    true,
                    f.name.value@,
                    f.span,
                ),
                _ => spec_argument_uniqueness_errors(f.arguments@, 0),
            };
            let de = spec_directive_site_errors(schema, f.directives@, DirectiveLocation::Field);
            let sub: Seq<SpecValidationError> = match f.selection_set {
                Some(ss) => crate::traversal::spec_walk_selections(
                    doc,
                    schema,
                    ss.selections@,
                    0,
                    crate::traversal::spec_field_child_scope(schema, res),
                ),
                None => Seq::empty(),
            };
            match res {
                crate::traversal::SpecFieldResolution::Found(fd) => {
                    lemma_known_owner_spans(
                        schema,
                        f.arguments@,
                        fd.arguments_definition@,
                        true,
                        f.name.value@,
                        f.span,
                        bound,
                    );
                },
                crate::traversal::SpecFieldResolution::Meta => {
                    lemma_known_owner_spans(
                        schema,
                        f.arguments@,
                        Seq::empty(),
                        true,
                        f.name.value@,
                        f.span,
                        bound,
                    );
                },
                _ => {
                    lemma_uniq_args_spans(f.arguments@, 0, bound);
                },
            }
            lemma_dirsite_spans(schema, f.directives@, DirectiveLocation::Field, bound);
            match f.selection_set {
                Some(ss) => {
                    lemma_walk_selections_spans(
                        doc,
                        schema,
                        ss.selections@,
                        0,
                        crate::traversal::spec_field_child_scope(schema, res),
                        bound,
                    );
                },
                None => {},
            }
            lemma_spans_add(re, le, bound);
            lemma_spans_add(re + le, ae, bound);
            lemma_spans_add(re + le + ae, de, bound);
            lemma_spans_add(re + le + ae + de, sub, bound);
        },
        Selection::FragmentSpread(s) => {
            let target: Seq<SpecValidationError> = match spec_find_fragment(
                doc.fragment_definitions@,
                s.name.value@,
                0,
            ) {
                None => seq![
                    SpecValidationError::FragmentSpreadTargetNotDefined {
                        fragment_name: s.name.value@,
                        span: s.span,
                    },
                ],
                Some(fd) => crate::traversal::spec_spread_possible_errors(
                    schema,
                    scope,
                    fd.type_condition.value@,
                    s.span,
                ),
            };
            match spec_find_fragment(doc.fragment_definitions@, s.name.value@, 0) {
                None => {},
                Some(fd) => {
                    lemma_spread_possible_spans(
                        schema,
                        scope,
                        fd.type_condition.value@,
                        s.span,
                        bound,
                    );
                },
            }
            lemma_dirsite_spans(schema, s.directives@, DirectiveLocation::FragmentSpread, bound);
            lemma_spans_add(
                target,
                spec_directive_site_errors(schema, s.directives@, DirectiveLocation::FragmentSpread),
                bound,
            );
        },
        Selection::InlineFragment(inf) => {
            let ce: Seq<SpecValidationError> = match inf.type_condition {
                Some(c) => match schema.spec_get_type(c.value@) {
                    Some(t) => {
                        if !t.spec_is_composite() {
                            seq![
                                SpecValidationError::InlineFragmentTargetTypeNotComposite {
                                    target_type_name: c.value@,
                                    span: inf.span,
                                },
                            ]
                        } else {
                            Seq::empty()
                        }
                    },
                    None => Seq::empty(),
                },
                None => Seq::empty(),
            };
            let pe: Seq<SpecValidationError> = match inf.type_condition {
                Some(c) => crate::traversal::spec_spread_possible_errors(
                    schema,
                    scope,
                    c.value@,
                    inf.span,
                ),
                None => Seq::empty(),
            };
            let de = spec_directive_site_errors(
                schema,
                inf.directives@,
                DirectiveLocation::InlineFragment,
            );
            let sub = crate::traversal::spec_walk_selections(
                doc,
                schema,
                inf.selection_set.selections@,
                0,
                crate::traversal::spec_inline_scope(schema, scope, inf.type_condition),
            );
            match inf.type_condition {
                Some(c) => {
                    lemma_spread_possible_spans(schema, scope, c.value@, inf.span, bound);
                },
                None => {},
            }
            lemma_dirsite_spans(schema, inf.directives@, DirectiveLocation::InlineFragment, bound);
            lemma_walk_selections_spans(
                doc,
                schema,
                inf.selection_set.selections@,
                0,
                crate::traversal::spec_inline_scope(schema, scope, inf.type_condition),
                bound,
            );
            lemma_spans_add(ce, pe, bound);
            lemma_spans_add(ce + pe, de, bound);
            lemma_spans_add(ce + pe + de, sub, bound);
        },
    }
}

proof fn lemma_walk_selections_spans(
    doc: ExecutableDocument,
    schema: SchemaDefinition,
    sels: Seq<Selection>,
    i: int,
    scope: Option<TypeDefinition>,
    bound: nat,
)
    requires
        crate::executable::spec_selections_spans_within(sels, 0, bound),
    ensures
        all_primary_spans_within(
            crate::traversal::spec_walk_selections(doc, schema, sels, i, scope),
            bound,
        ),
    decreases sels, sels.len() - i,
{
    if !(i < 0 || i >= sels.len()) {
        lemma_selections_elem(sels, 0, i, bound);
        lemma_walk_selection_spans(doc, schema, sels[i], scope, bound);
        lemma_walk_selections_spans(doc, schema, sels, i + 1, scope, bound);
        lemma_spans_add(
            crate::traversal::spec_walk_selection(doc, schema, sels[i], scope),
            crate::traversal::spec_walk_selections(doc, schema, sels, i + 1, scope),
            bound,
        );
    }
}

proof fn lemma_walk_operation_spans(
    doc: ExecutableDocument,
    schema: SchemaDefinition,
    op: crate::executable::OperationDefinition,
    bound: nat,
)
    requires
        op.spans_within(bound),
    ensures
        all_primary_spans_within(
            crate::traversal::spec_walk_operation(doc, schema, op),
            bound,
        ),
{
    let vars = op.spec_variable_definitions();
    let location = crate::traversal::spec_operation_directive_location(op.spec_operation_type());
    let dirs = crate::traversal::spec_operation_directives(op);
    lemma_variable_defaults_spans(schema, vars, 0, bound);
    lemma_dirsite_spans(schema, dirs, location, bound);
    lemma_walk_selections_spans(
        doc,
        schema,
        op.spec_selection_set().selections@,
        0,
        crate::traversal::spec_operation_scope(schema, op),
        bound,
    );
    lemma_spans_add(
        crate::traversal::spec_variable_default_errors(schema, vars, 0),
        spec_directive_site_errors(schema, dirs, location),
        bound,
    );
    lemma_spans_add(
        crate::traversal::spec_variable_default_errors(schema, vars, 0)
            + spec_directive_site_errors(schema, dirs, location),
        crate::traversal::spec_walk_selections(
            doc,
            schema,
            op.spec_selection_set().selections@,
            0,
            crate::traversal::spec_operation_scope(schema, op),
        ),
        bound,
    );
}

proof fn lemma_walk_operations_spans(
    doc: ExecutableDocument,
    schema: SchemaDefinition,
    i: int,
    bound: nat,
)
    requires
        crate::executable::spec_operations_spans_within(doc.operation_definitions@, 0, bound),
    ensures
        all_primary_spans_within(crate::traversal::spec_walk_operations(doc, schema, i), bound),
    decreases doc.operation_definitions@.len() - i,
{
    if !(i < 0 || i >= doc.operation_definitions@.len()) {
        lemma_operations_elem(doc.operation_definitions@, 0, i, bound);
        lemma_walk_operation_spans(doc, schema, doc.operation_definitions@[i], bound);
        lemma_walk_operations_spans(doc, schema, i + 1, bound);
        lemma_spans_add(
            crate::traversal::spec_walk_operation(doc, schema, doc.operation_definitions@[i]),
            crate::traversal::spec_walk_operations(doc, schema, i + 1),
            bound,
        );
    }
}

proof fn lemma_walk_fragment_spans(
    doc: ExecutableDocument,
    schema: SchemaDefinition,
    fd: FragmentDefinition,
    bound: nat,
)
    requires
        fd.spans_within(bound),
    ensures
        all_primary_spans_within(crate::traversal::spec_walk_fragment(doc, schema, fd), bound),
{
    let ce: Seq<SpecValidationError> = match schema.spec_get_type(fd.type_condition.value@) {
        Some(td) => {
            if !td.spec_is_composite() {
                seq![
                    SpecValidationError::FragmentDefinitionTargetTypeNotComposite {
                        fragment_name: fd.name.value@,
                        target_type_name: fd.type_condition.value@,
                        span: fd.span,
                    },
                ]
            } else {
                Seq::empty()
            }
        },
        None => Seq::empty(),
    };
    let de = spec_directive_site_errors(schema, fd.directives@, DirectiveLocation::FragmentDefinition);
    let sub = crate::traversal::spec_walk_selections(
        doc,
        schema,
        fd.selection_set.selections@,
        0,
        crate::traversal::spec_fragment_scope(schema, fd),
    );
    lemma_dirsite_spans(schema, fd.directives@, DirectiveLocation::FragmentDefinition, bound);
    lemma_walk_selections_spans(
        doc,
        schema,
        fd.selection_set.selections@,
        0,
        crate::traversal::spec_fragment_scope(schema, fd),
        bound,
    );
    lemma_spans_add(ce, de, bound);
    lemma_spans_add(ce + de, sub, bound);
}

proof fn lemma_walk_fragments_spans(
    doc: ExecutableDocument,
    schema: SchemaDefinition,
    i: int,
    bound: nat,
)
    requires
        crate::executable::spec_fragment_definitions_spans_within(
            doc.fragment_definitions@,
            0,
            bound,
        ),
    ensures
        all_primary_spans_within(crate::traversal::spec_walk_fragments(doc, schema, i), bound),
    decreases doc.fragment_definitions@.len() - i,
{
    if !(i < 0 || i >= doc.fragment_definitions@.len()) {
        lemma_fragments_elem(doc.fragment_definitions@, 0, i, bound);
        lemma_walk_fragment_spans(doc, schema, doc.fragment_definitions@[i], bound);
        lemma_walk_fragments_spans(doc, schema, i + 1, bound);
        lemma_spans_add(
            crate::traversal::spec_walk_fragment(doc, schema, doc.fragment_definitions@[i]),
            crate::traversal::spec_walk_fragments(doc, schema, i + 1),
            bound,
        );
    }
}

proof fn lemma_document_walk_spans(doc: ExecutableDocument, schema: SchemaDefinition, bound: nat)
    requires
        doc.spans_within(bound),
    ensures
        all_primary_spans_within(crate::traversal::spec_document_walk(doc, schema), bound),
{
    lemma_walk_operations_spans(doc, schema, 0, bound);
    lemma_walk_fragments_spans(doc, schema, 0, bound);
    lemma_spans_add(
        crate::traversal::spec_walk_operations(doc, schema, 0),
        crate::traversal::spec_walk_fragments(doc, schema, 0),
        bound,
    );
}

pub open spec fn all_spans_within_list(s: Seq<Span>, bound: nat) -> bool {
    forall|j: int| 0 <= j < s.len() ==> (#[trigger] s[j]).within(bound)
}

proof fn lemma_anonymous_spans(
    ops: Seq<crate::executable::OperationDefinition>,
    i: int,
    bound: nat,
)
    requires
        crate::executable::spec_operations_spans_within(ops, 0, bound),
    ensures
        all_spans_within_list(crate::document_rules::spec_anonymous_spans(ops, i), bound),
    decreases ops.len() - i,
{
    if !(i < 0 || i >= ops.len()) {
        lemma_operations_elem(ops, 0, i, bound);
        lemma_anonymous_spans(ops, i + 1, bound);
        if ops[i].spec_name() is None {
            let rest = crate::document_rules::spec_anonymous_spans(ops, i + 1);
            let whole = seq![ops[i].spec_span()] + rest;
            assert forall|j: int| 0 <= j < whole.len() implies (whole[j]).within(bound) by {
                if j == 0 {
                    assert(whole[0] == ops[i].spec_span());
                } else {
                    assert(whole[j] == rest[j - 1]);
                }
            }
        }
    }
}

proof fn lemma_named_uniqueness_spans(
    ops: Seq<crate::executable::OperationDefinition>,
    i: int,
    bound: nat,
)
    requires
        crate::executable::spec_operations_spans_within(ops, 0, bound),
    ensures
        all_primary_spans_within(
            crate::document_rules::spec_named_operation_uniqueness_errors(ops, i),
            bound,
        ),
    decreases ops.len() - i,
{
    if !(i < 0 || i >= ops.len()) {
        lemma_operations_elem(ops, 0, i, bound);
        lemma_named_uniqueness_spans(ops, i + 1, bound);
        match ops[i].spec_name() {
            Some(n) => {
                if crate::document_rules::spec_first_named_index(ops, n.value@, 0) == i
                    && crate::document_rules::spec_named_count(ops, n.value@, 0) > 1 {
                    lemma_spans_add(
                        seq![
                            SpecValidationError::NonUniqueOperationNames {
                                name: n.value@,
                                span: n.span,
                                duplicate_spans: crate::document_rules::spec_named_spans(
                                    ops,
                                    n.value@,
                                    0,
                                ),
                            },
                        ],
                        crate::document_rules::spec_named_operation_uniqueness_errors(ops, i + 1),
                        bound,
                    );
                }
            },
            None => {},
        }
    }
}

proof fn lemma_subscription_spans(
    doc: ExecutableDocument,
    schema: SchemaDefinition,
    i: int,
    bound: nat,
)
    requires
        crate::executable::spec_operations_spans_within(doc.operation_definitions@, 0, bound),
    ensures
        all_primary_spans_within(
            crate::document_rules::spec_subscription_root_errors(doc, schema, i),
            bound,
        ),
    decreases doc.operation_definitions@.len() - i,
{
    if !(i < 0 || i >= doc.operation_definitions@.len()) {
        let op = doc.operation_definitions@[i];
        lemma_operations_elem(doc.operation_definitions@, 0, i, bound);
        lemma_subscription_spans(doc, schema, i + 1, bound);
        if op.spec_operation_type() == crate::executable::OperationType::Subscription {
            let entries = crate::merging::spec_expand(
                doc,
                schema,
                op.spec_selection_set().selections@,
                0,
                crate::traversal::spec_operation_scope(schema, op),
                Seq::empty(),
                crate::merging::spec_document_fuel(doc) as nat,
            );
            if crate::document_rules::spec_distinct_key_count(entries, 0) != 1 {
                lemma_spans_add(
                    seq![
                        SpecValidationError::SubscriptionRootNotSingleField {
                            span: op.spec_span(),
                        },
                    ],
                    crate::document_rules::spec_subscription_root_errors(doc, schema, i + 1),
                    bound,
                );
            }
        }
    }
}

proof fn lemma_doc_rules_spans(doc: ExecutableDocument, schema: SchemaDefinition, bound: nat)
    requires
        doc.spans_within(bound),
    ensures
        all_primary_spans_within(
            crate::document_rules::spec_document_rules_errors(doc, schema),
            bound,
        ),
{
    let ed = crate::document_rules::spec_executable_definitions_errors(doc);
    let lone = crate::document_rules::spec_lone_anonymous_operation_errors(doc);
    let named = crate::document_rules::spec_named_operation_uniqueness_errors(
        doc.operation_definitions@,
        0,
    );
    let sub = crate::document_rules::spec_subscription_root_errors(doc, schema, 0);
    lemma_anonymous_spans(doc.operation_definitions@, 0, bound);
    lemma_named_uniqueness_spans(doc.operation_definitions@, 0, bound);
    lemma_subscription_spans(doc, schema, 0, bound);
    assert(all_primary_spans_within(ed, bound));
    assert(all_primary_spans_within(lone, bound));
    lemma_spans_add(ed, lone, bound);
    lemma_spans_add(ed + lone, named, bound);
    lemma_spans_add(ed + lone + named, sub, bound);
}

/// Every entry of a flattened field set carries a field whose spans are
/// within the bound.
pub open spec fn all_entry_fields_within(
    entries: Seq<crate::merging::SpecFieldEntry>,
    bound: nat,
) -> bool {
    forall|j: int|
        0 <= j < entries.len() ==> Selection::Field((#[trigger] entries[j]).field).spans_within(
            bound,
        )
}

proof fn lemma_entries_add(
    a: Seq<crate::merging::SpecFieldEntry>,
    b: Seq<crate::merging::SpecFieldEntry>,
    bound: nat,
)
    requires
        all_entry_fields_within(a, bound),
        all_entry_fields_within(b, bound),
    ensures
        all_entry_fields_within(a + b, bound),
{
    assert forall|j: int| 0 <= j < (a + b).len() implies Selection::Field(
        ((a + b)[j]).field,
    ).spans_within(bound) by {
        if j < a.len() {
            assert((a + b)[j] == a[j]);
        } else {
            assert((a + b)[j] == b[j - a.len()]);
        }
    }
}

proof fn lemma_expand_spans(
    doc: ExecutableDocument,
    schema: SchemaDefinition,
    sels: Seq<Selection>,
    i: int,
    parent: Option<TypeDefinition>,
    visited: Seq<Seq<char>>,
    fuel: nat,
    bound: nat,
)
    requires
        crate::executable::spec_selections_spans_within(sels, 0, bound),
        doc.spans_within(bound),
    ensures
        all_entry_fields_within(
            crate::merging::spec_expand(doc, schema, sels, i, parent, visited, fuel),
            bound,
        ),
    decreases fuel, sels, sels.len() - i,
{
    if !(i < 0 || i >= sels.len()) {
        lemma_selections_elem(sels, 0, i, bound);
        lemma_expand_spans(doc, schema, sels, i + 1, parent, visited, fuel, bound);
        let head: Seq<crate::merging::SpecFieldEntry> = match sels[i] {
            Selection::Field(f) => seq![crate::merging::spec_make_entry(schema, f, parent)],
            Selection::InlineFragment(inf) => crate::merging::spec_expand(
                doc,
                schema,
                inf.selection_set.selections@,
                0,
                crate::merging::spec_inline_parent(schema, parent, inf.type_condition),
                visited,
                fuel,
            ),
            Selection::FragmentSpread(s) => {
                if crate::traversal::spec_names_contain(visited, s.name.value@, 0) {
                    Seq::empty()
                } else {
                    match spec_find_fragment(doc.fragment_definitions@, s.name.value@, 0) {
                        Some(fd) => {
                            if fuel == 0 {
                                Seq::empty()
                            } else {
                                crate::merging::spec_expand(
                                    doc,
                                    schema,
                                    fd.selection_set.selections@,
                                    0,
                                    crate::traversal::spec_fragment_scope(schema, fd),
                                    visited.push(s.name.value@),
                                    (fuel - 1) as nat,
                                )
                            }
                        },
                        None => Seq::empty(),
                    }
                }
            },
        };
        match sels[i] {
            Selection::Field(f) => {
                assert(Selection::Field(f).spans_within(bound));
                assert forall|j: int| 0 <= j < head.len() implies Selection::Field(
                    (head[j]).field,
                ).spans_within(bound) by {
                    assert(head[j] == crate::merging::spec_make_entry(schema, f, parent));
                }
            },
            Selection::InlineFragment(inf) => {
                lemma_expand_spans(
                    doc,
                    schema,
                    inf.selection_set.selections@,
                    0,
                    crate::merging::spec_inline_parent(schema, parent, inf.type_condition),
                    visited,
                    fuel,
                    bound,
                );
            },
            Selection::FragmentSpread(s) => {
                if !crate::traversal::spec_names_contain(visited, s.name.value@, 0) {
                    match spec_find_fragment(doc.fragment_definitions@, s.name.value@, 0) {
                        Some(fd) => {
                            if fuel > 0 {
                                lemma_find_fragment_spans(
                                    doc.fragment_definitions@,
                                    s.name.value@,
                                    0,
                                    bound,
                                );
                                lemma_expand_spans(
                                    doc,
                                    schema,
                                    fd.selection_set.selections@,
                                    0,
                                    crate::traversal::spec_fragment_scope(schema, fd),
                                    visited.push(s.name.value@),
                                    (fuel - 1) as nat,
                                    bound,
                                );
                            }
                        },
                        None => {},
                    }
                }
            },
        }
        lemma_entries_add(
            head,
            crate::merging::spec_expand(doc, schema, sels, i + 1, parent, visited, fuel),
            bound,
        );
    }
}

proof fn lemma_pair_row_spans(
    schema: SchemaDefinition,
    entries: Seq<crate::merging::SpecFieldEntry>,
    key: Seq<char>,
    p: int,
    q: int,
    bound: nat,
)
    requires
        all_entry_fields_within(entries, bound),
    ensures
        all_primary_spans_within(
            crate::merging::spec_pair_row_errors(schema, entries, key, p, q),
            bound,
        ),
    decreases entries.len() - q,
{
    if !(q < 0 || q >= entries.len() || p < 0 || p >= entries.len()) {
        lemma_pair_row_spans(schema, entries, key, p, q + 1, bound);
        if entries[q].field.spec_response_key() == key
            && !crate::merging::spec_entries_can_merge(schema, entries[p], entries[q]) {
            assert(Selection::Field(entries[p].field).spans_within(bound));
            lemma_spans_add(
                seq![
                    SpecValidationError::FieldSelectionsDoNotMerge {
                        response_key: key,
                        span: entries[p].field.span,
                        other_span: entries[q].field.span,
                    },
                ],
                crate::merging::spec_pair_row_errors(schema, entries, key, p, q + 1),
                bound,
            );
        }
    }
}

proof fn lemma_group_pair_spans(
    schema: SchemaDefinition,
    entries: Seq<crate::merging::SpecFieldEntry>,
    key: Seq<char>,
    p: int,
    bound: nat,
)
    requires
        all_entry_fields_within(entries, bound),
    ensures
        all_primary_spans_within(
            crate::merging::spec_group_pair_errors(schema, entries, key, p),
            bound,
        ),
    decreases entries.len() - p,
{
    if !(p < 0 || p >= entries.len()) {
        lemma_group_pair_spans(schema, entries, key, p + 1, bound);
        if entries[p].field.spec_response_key() == key {
            lemma_pair_row_spans(schema, entries, key, p, p + 1, bound);
            lemma_spans_add(
                crate::merging::spec_pair_row_errors(schema, entries, key, p, p + 1),
                crate::merging::spec_group_pair_errors(schema, entries, key, p + 1),
                bound,
            );
        }
    }
}

proof fn lemma_children_spans(
    doc: ExecutableDocument,
    schema: SchemaDefinition,
    entries: Seq<crate::merging::SpecFieldEntry>,
    key: Seq<char>,
    j: int,
    fuel: nat,
    bound: nat,
)
    requires
        all_entry_fields_within(entries, bound),
        doc.spans_within(bound),
    ensures
        all_entry_fields_within(
            crate::merging::spec_group_child_entries(doc, schema, entries, key, j, fuel),
            bound,
        ),
    decreases entries.len() - j,
{
    if !(j < 0 || j >= entries.len()) {
        lemma_children_spans(doc, schema, entries, key, j + 1, fuel, bound);
        if entries[j].field.spec_response_key() == key {
            let subsels: Seq<Selection> = match entries[j].field.selection_set {
                Some(ss) => ss.selections@,
                None => Seq::empty(),
            };
            assert(Selection::Field(entries[j].field).spans_within(bound));
            assert(crate::executable::spec_selections_spans_within(subsels, 0, bound));
            lemma_expand_spans(
                doc,
                schema,
                subsels,
                0,
                entries[j].child_scope,
                Seq::empty(),
                fuel,
                bound,
            );
            lemma_entries_add(
                crate::merging::spec_expand(
                    doc,
                    schema,
                    subsels,
                    0,
                    entries[j].child_scope,
                    Seq::empty(),
                    fuel,
                ),
                crate::merging::spec_group_child_entries(doc, schema, entries, key, j + 1, fuel),
                bound,
            );
        }
    }
}

proof fn lemma_level_spans(
    doc: ExecutableDocument,
    schema: SchemaDefinition,
    entries: Seq<crate::merging::SpecFieldEntry>,
    i: int,
    fuel: nat,
    bound: nat,
)
    requires
        all_entry_fields_within(entries, bound),
        doc.spans_within(bound),
    ensures
        all_primary_spans_within(
            crate::merging::spec_merging_level(doc, schema, entries, i, fuel),
            bound,
        ),
    decreases fuel, entries.len() - i,
{
    if !(i < 0 || i >= entries.len()) {
        let key = entries[i].field.spec_response_key();
        lemma_level_spans(doc, schema, entries, i + 1, fuel, bound);
        if crate::merging::spec_first_entry_index(entries, key, 0) == i {
            let pair_errors = crate::merging::spec_group_pair_errors(schema, entries, key, 0);
            let deeper: Seq<SpecValidationError> = if fuel == 0 {
                Seq::empty()
            } else {
                crate::merging::spec_merging_level(
                    doc,
                    schema,
                    crate::merging::spec_group_child_entries(
                        doc,
                        schema,
                        entries,
                        key,
                        0,
                        (fuel - 1) as nat,
                    ),
                    0,
                    (fuel - 1) as nat,
                )
            };
            lemma_group_pair_spans(schema, entries, key, 0, bound);
            if fuel > 0 {
                lemma_children_spans(doc, schema, entries, key, 0, (fuel - 1) as nat, bound);
                lemma_level_spans(
                    doc,
                    schema,
                    crate::merging::spec_group_child_entries(
                        doc,
                        schema,
                        entries,
                        key,
                        0,
                        (fuel - 1) as nat,
                    ),
                    0,
                    (fuel - 1) as nat,
                    bound,
                );
            }
            lemma_spans_add(pair_errors, deeper, bound);
            lemma_spans_add(
                pair_errors + deeper,
                crate::merging::spec_merging_level(doc, schema, entries, i + 1, fuel),
                bound,
            );
        }
    }
}

proof fn lemma_merging_spans(doc: ExecutableDocument, schema: SchemaDefinition, bound: nat)
    requires
        doc.spans_within(bound),
    ensures
        all_primary_spans_within(crate::merging::spec_field_merging_errors(doc, schema), bound),
{
    lemma_operation_merging_spans(doc, schema, 0, bound);
    lemma_fragment_merging_spans(doc, schema, 0, bound);
    lemma_spans_add(
        crate::merging::spec_operation_merging_errors(doc, schema, 0),
        crate::merging::spec_fragment_merging_errors(doc, schema, 0),
        bound,
    );
}

proof fn lemma_operation_merging_spans(
    doc: ExecutableDocument,
    schema: SchemaDefinition,
    i: int,
    bound: nat,
)
    requires
        doc.spans_within(bound),
    ensures
        all_primary_spans_within(
            crate::merging::spec_operation_merging_errors(doc, schema, i),
            bound,
        ),
    decreases doc.operation_definitions@.len() - i,
{
    if !(i < 0 || i >= doc.operation_definitions@.len()) {
        let op = doc.operation_definitions@[i];
        lemma_operations_elem(doc.operation_definitions@, 0, i, bound);
        lemma_operation_merging_spans(doc, schema, i + 1, bound);
        let fuel = crate::merging::spec_document_fuel(doc) as nat;
        lemma_expand_spans(
            doc,
            schema,
            op.spec_selection_set().selections@,
            0,
            crate::traversal::spec_operation_scope(schema, op),
            Seq::empty(),
            fuel,
            bound,
        );
        lemma_level_spans(
            doc,
            schema,
            crate::merging::spec_expand(
                doc,
                schema,
                op.spec_selection_set().selections@,
                0,
                crate::traversal::spec_operation_scope(schema, op),
                Seq::empty(),
                fuel,
            ),
            0,
            fuel,
            bound,
        );
        lemma_spans_add(
            crate::merging::spec_root_merging_errors(
                doc,
                schema,
                op.spec_selection_set().selections@,
                crate::traversal::spec_operation_scope(schema, op),
            ),
            crate::merging::spec_operation_merging_errors(doc, schema, i + 1),
            bound,
        );
    }
}

proof fn lemma_fragment_merging_spans(
    doc: ExecutableDocument,
    schema: SchemaDefinition,
    i: int,
    bound: nat,
)
    requires
        doc.spans_within(bound),
    ensures
        all_primary_spans_within(
            crate::merging::spec_fragment_merging_errors(doc, schema, i),
            bound,
        ),
    decreases doc.fragment_definitions@.len() - i,
{
    if !(i < 0 || i >= doc.fragment_definitions@.len()) {
        let fd = doc.fragment_definitions@[i];
        lemma_fragments_elem(doc.fragment_definitions@, 0, i, bound);
        lemma_fragment_merging_spans(doc, schema, i + 1, bound);
        let fuel = crate::merging::spec_document_fuel(doc) as nat;
        lemma_expand_spans(
            doc,
            schema,
            fd.selection_set.selections@,
            0,
            crate::traversal::spec_fragment_scope(schema, fd),
            Seq::empty(),
            fuel,
            bound,
        );
        lemma_level_spans(
            doc,
            schema,
            crate::merging::spec_expand(
                doc,
                schema,
                fd.selection_set.selections@,
                0,
                crate::traversal::spec_fragment_scope(schema, fd),
                Seq::empty(),
                fuel,
            ),
            0,
            fuel,
            bound,
        );
        lemma_spans_add(
            crate::merging::spec_root_merging_errors(
                doc,
                schema,
                fd.selection_set.selections@,
                crate::traversal::spec_fragment_scope(schema, fd),
            ),
            crate::merging::spec_fragment_merging_errors(doc, schema, i + 1),
            bound,
        );
    }
}

proof fn lemma_fragment_names_spans(frags: Seq<FragmentDefinition>, i: int, bound: nat)
    requires
        crate::executable::spec_fragment_definitions_spans_within(frags, 0, bound),
    ensures
        all_primary_spans_within(
            crate::fragments::spec_fragment_name_uniqueness_errors(frags, i),
            bound,
        ),
    decreases frags.len() - i,
{
    if !(i < 0 || i >= frags.len()) {
        lemma_fragments_elem(frags, 0, i, bound);
        lemma_fragment_names_spans(frags, i + 1, bound);
        let name = frags[i].name.value@;
        if crate::fragments::spec_first_fragment_index(frags, name, 0) == i
            && crate::fragments::spec_fragment_count(frags, name, 0) > 1 {
            lemma_spans_add(
                seq![
                    SpecValidationError::NonUniqueFragmentNames {
                        name,
                        span: frags[i].name.span,
                        duplicate_spans: crate::fragments::spec_fragment_name_spans(
                            frags,
                            name,
                            0,
                        ),
                    },
                ],
                crate::fragments::spec_fragment_name_uniqueness_errors(frags, i + 1),
                bound,
            );
        }
    }
}

proof fn lemma_unused_fragments_spans(
    frags: Seq<FragmentDefinition>,
    i: int,
    used: Seq<Seq<char>>,
    bound: nat,
)
    requires
        crate::executable::spec_fragment_definitions_spans_within(frags, 0, bound),
    ensures
        all_primary_spans_within(
            crate::fragments::spec_unused_fragment_errors(frags, i, used),
            bound,
        ),
    decreases frags.len() - i,
{
    if !(i < 0 || i >= frags.len()) {
        lemma_fragments_elem(frags, 0, i, bound);
        lemma_unused_fragments_spans(frags, i + 1, used, bound);
        if !crate::traversal::spec_names_contain(used, frags[i].name.value@, 0) {
            lemma_spans_add(
                seq![
                    SpecValidationError::FragmentDefinitionUnused {
                        fragment_name: frags[i].name.value@,
                        span: frags[i].name.span,
                    },
                ],
                crate::fragments::spec_unused_fragment_errors(frags, i + 1, used),
                bound,
            );
        }
    }
}

/// Every spread use collected from a bounded selection tree has a bounded
/// span.
pub open spec fn all_use_spans_within(
    uses: Seq<crate::fragments::SpecSpreadUse>,
    bound: nat,
) -> bool {
    forall|j: int| 0 <= j < uses.len() ==> ((#[trigger] uses[j]).span).within(bound)
}

proof fn lemma_uses_add(
    a: Seq<crate::fragments::SpecSpreadUse>,
    b: Seq<crate::fragments::SpecSpreadUse>,
    bound: nat,
)
    requires
        all_use_spans_within(a, bound),
        all_use_spans_within(b, bound),
    ensures
        all_use_spans_within(a + b, bound),
{
    assert forall|j: int| 0 <= j < (a + b).len() implies (((a + b)[j]).span).within(bound) by {
        if j < a.len() {
            assert((a + b)[j] == a[j]);
        } else {
            assert((a + b)[j] == b[j - a.len()]);
        }
    }
}

proof fn lemma_selection_uses_spans(sel: Selection, bound: nat)
    requires
        sel.spans_within(bound),
    ensures
        all_use_spans_within(crate::fragments::spec_selection_spread_uses(sel), bound),
    decreases sel, 0int,
{
    match sel {
        Selection::Field(f) => match f.selection_set {
            Some(ss) => {
                lemma_selections_uses_spans(ss.selections@, 0, bound);
            },
            None => {},
        },
        Selection::FragmentSpread(_) => {},
        Selection::InlineFragment(inf) => {
            lemma_selections_uses_spans(inf.selection_set.selections@, 0, bound);
        },
    }
}

proof fn lemma_selections_uses_spans(sels: Seq<Selection>, i: int, bound: nat)
    requires
        crate::executable::spec_selections_spans_within(sels, 0, bound),
    ensures
        all_use_spans_within(crate::fragments::spec_selections_spread_uses(sels, i), bound),
    decreases sels, sels.len() - i,
{
    if !(i < 0 || i >= sels.len()) {
        lemma_selections_elem(sels, 0, i, bound);
        lemma_selection_uses_spans(sels[i], bound);
        lemma_selections_uses_spans(sels, i + 1, bound);
        lemma_uses_add(
            crate::fragments::spec_selection_spread_uses(sels[i]),
            crate::fragments::spec_selections_spread_uses(sels, i + 1),
            bound,
        );
    }
}

proof fn lemma_cycle_dfs_spans(
    doc: ExecutableDocument,
    uses: Seq<crate::fragments::SpecSpreadUse>,
    k: int,
    visiting: Seq<Seq<char>>,
    acc: crate::fragments::SpecDfsAcc,
    fuel: nat,
    bound: nat,
)
    requires
        all_use_spans_within(uses, bound),
        doc.spans_within(bound),
        all_primary_spans_within(acc.errors, bound),
    ensures
        all_primary_spans_within(
            crate::fragments::spec_cycle_dfs(doc, uses, k, visiting, acc, fuel).errors,
            bound,
        ),
    decreases fuel, uses.len() - k,
{
    if !(k < 0 || k >= uses.len()) {
        let u = uses[k];
        if crate::traversal::spec_names_contain(visiting, u.fragment_name, 0) {
            let e = SpecValidationError::FragmentCycle {
                fragment_name: u.fragment_name,
                span: u.span,
            };
            lemma_spans_push(acc.errors, e, bound);
            lemma_cycle_dfs_spans(
                doc,
                uses,
                k + 1,
                visiting,
                crate::fragments::SpecDfsAcc { done: acc.done, errors: acc.errors.push(e) },
                fuel,
                bound,
            );
        } else if crate::traversal::spec_names_contain(acc.done, u.fragment_name, 0) {
            lemma_cycle_dfs_spans(doc, uses, k + 1, visiting, acc, fuel, bound);
        } else {
            match spec_find_fragment(doc.fragment_definitions@, u.fragment_name, 0) {
                None => {
                    lemma_cycle_dfs_spans(doc, uses, k + 1, visiting, acc, fuel, bound);
                },
                Some(fd) => {
                    if fuel == 0 {
                        lemma_cycle_dfs_spans(doc, uses, k + 1, visiting, acc, fuel, bound);
                    } else {
                        lemma_find_fragment_spans(
                            doc.fragment_definitions@,
                            u.fragment_name,
                            0,
                            bound,
                        );
                        lemma_selections_uses_spans(fd.selection_set.selections@, 0, bound);
                        lemma_cycle_dfs_spans(
                            doc,
                            crate::fragments::spec_selections_spread_uses(
                                fd.selection_set.selections@,
                                0,
                            ),
                            0,
                            visiting.push(u.fragment_name),
                            acc,
                            (fuel - 1) as nat,
                            bound,
                        );
                        let acc2 = crate::fragments::spec_cycle_dfs(
                            doc,
                            crate::fragments::spec_selections_spread_uses(
                                fd.selection_set.selections@,
                                0,
                            ),
                            0,
                            visiting.push(u.fragment_name),
                            acc,
                            (fuel - 1) as nat,
                        );
                        lemma_cycle_dfs_spans(
                            doc,
                            uses,
                            k + 1,
                            visiting,
                            crate::fragments::SpecDfsAcc {
                                done: acc2.done.push(u.fragment_name),
                                errors: acc2.errors,
                            },
                            fuel,
                            bound,
                        );
                    }
                },
            }
        }
    }
}

proof fn lemma_cycle_roots_spans(
    doc: ExecutableDocument,
    i: int,
    acc: crate::fragments::SpecDfsAcc,
    bound: nat,
)
    requires
        doc.spans_within(bound),
        all_primary_spans_within(acc.errors, bound),
    ensures
        all_primary_spans_within(crate::fragments::spec_cycle_roots(doc, i, acc).errors, bound),
    decreases doc.fragment_definitions@.len() - i,
{
    if !(i < 0 || i >= doc.fragment_definitions@.len()) {
        let fd = doc.fragment_definitions@[i];
        if crate::traversal::spec_names_contain(acc.done, fd.name.value@, 0) {
            lemma_cycle_roots_spans(doc, i + 1, acc, bound);
        } else {
            lemma_fragments_elem(doc.fragment_definitions@, 0, i, bound);
            lemma_selections_uses_spans(fd.selection_set.selections@, 0, bound);
            lemma_cycle_dfs_spans(
                doc,
                crate::fragments::spec_selections_spread_uses(fd.selection_set.selections@, 0),
                0,
                seq![fd.name.value@],
                acc,
                doc.fragment_definitions@.len() as nat,
                bound,
            );
            let acc2 = crate::fragments::spec_cycle_dfs(
                doc,
                crate::fragments::spec_selections_spread_uses(fd.selection_set.selections@, 0),
                0,
                seq![fd.name.value@],
                acc,
                doc.fragment_definitions@.len() as nat,
            );
            lemma_cycle_roots_spans(
                doc,
                i + 1,
                crate::fragments::SpecDfsAcc {
                    done: acc2.done.push(fd.name.value@),
                    errors: acc2.errors,
                },
                bound,
            );
        }
    }
}

proof fn lemma_fragments_chunk_spans(doc: ExecutableDocument, bound: nat)
    requires
        doc.spans_within(bound),
    ensures
        all_primary_spans_within(
            crate::fragments::spec_fragment_name_uniqueness_errors(doc.fragment_definitions@, 0),
            bound,
        ),
        all_primary_spans_within(
            crate::fragments::spec_fragments_must_be_used_errors(doc),
            bound,
        ),
        all_primary_spans_within(crate::fragments::spec_fragment_cycle_errors(doc), bound),
{
    lemma_fragment_names_spans(doc.fragment_definitions@, 0, bound);
    lemma_unused_fragments_spans(
        doc.fragment_definitions@,
        0,
        crate::fragments::spec_used_fragments(doc, 0, Seq::empty()),
        bound,
    );
    lemma_cycle_roots_spans(
        doc,
        0,
        crate::fragments::SpecDfsAcc { done: Seq::empty(), errors: Seq::empty() },
        bound,
    );
}

/// Every variable usage collected from a bounded tree has a bounded span.
pub open spec fn all_usage_spans_within(
    usages: Seq<crate::variables::SpecVariableUsage>,
    bound: nat,
) -> bool {
    forall|j: int| 0 <= j < usages.len() ==> ((#[trigger] usages[j]).span).within(bound)
}

proof fn lemma_usages_add(
    a: Seq<crate::variables::SpecVariableUsage>,
    b: Seq<crate::variables::SpecVariableUsage>,
    bound: nat,
)
    requires
        all_usage_spans_within(a, bound),
        all_usage_spans_within(b, bound),
    ensures
        all_usage_spans_within(a + b, bound),
{
    assert forall|j: int| 0 <= j < (a + b).len() implies (((a + b)[j]).span).within(bound) by {
        if j < a.len() {
            assert((a + b)[j] == a[j]);
        } else {
            assert((a + b)[j] == b[j - a.len()]);
        }
    }
}

proof fn lemma_value_usages_spans(
    schema: SchemaDefinition,
    v: Value,
    expected: Option<InputTypeShape>,
    has_default: bool,
    bound: nat,
)
    requires
        v.spans_within(bound),
    ensures
        all_usage_spans_within(
            crate::variables::spec_value_usages(schema, v, expected, has_default),
            bound,
        ),
    decreases v, 0int, 0int,
{
    match v {
        Value::Variable(_) => {},
        Value::List(l) => {
            let element_expected: Option<InputTypeShape> = match expected {
                Some(InputTypeShape::List(inner, _)) => Some(*inner),
                _ => None,
            };
            lemma_value_list_usages_spans(schema, l, 0, element_expected, bound);
        },
        Value::Object(o) => {
            let input_object: Option<crate::schema::InputObjectTypeDefinition> = match expected {
                Some(InputTypeShape::Base(n, _)) => match schema.spec_get_type(n) {
                    Some(TypeDefinition::InputObject(iotd)) => Some(iotd),
                    _ => None,
                },
                _ => None,
            };
            lemma_object_usages_spans(schema, o, 0, input_object, bound);
        },
        _ => {},
    }
}

proof fn lemma_value_list_usages_spans(
    schema: SchemaDefinition,
    l: crate::value::ListValue,
    i: int,
    element_expected: Option<InputTypeShape>,
    bound: nat,
)
    requires
        Value::List(l).spans_within(bound),
    ensures
        all_usage_spans_within(
            crate::variables::spec_value_list_usages(schema, l.elements@, i, element_expected),
            bound,
        ),
    decreases l.elements@, 1int, l.elements@.len() - i,
{
    if !(i < 0 || i >= l.elements@.len()) {
        lemma_value_list_elem(l.elements@, 0, i, bound);
        lemma_value_usages_spans(schema, l.elements@[i], element_expected, false, bound);
        lemma_value_list_usages_spans(schema, l, i + 1, element_expected, bound);
        lemma_usages_add(
            crate::variables::spec_value_usages(schema, l.elements@[i], element_expected, false),
            crate::variables::spec_value_list_usages(schema, l.elements@, i + 1, element_expected),
            bound,
        );
    }
}

proof fn lemma_object_usages_spans(
    schema: SchemaDefinition,
    o: crate::value::ObjectValue,
    j: int,
    input_object: Option<crate::schema::InputObjectTypeDefinition>,
    bound: nat,
)
    requires
        Value::Object(o).spans_within(bound),
    ensures
        all_usage_spans_within(
            crate::variables::spec_object_value_usages(schema, o.fields@, j, input_object),
            bound,
        ),
    decreases o.fields@, 1int, o.fields@.len() - j,
{
    if !(j < 0 || j >= o.fields@.len()) {
        lemma_value_fields_elem(o.fields@, 0, j, bound);
        let position: (Option<InputTypeShape>, bool) = match input_object {
            Some(iotd) => match crate::schema::spec_find_input_value(
                iotd.input_field_definitions@,
                o.fields@[j].0.value@,
                0,
            ) {
                Some(d) => (Some(d.input_type@), d.default_value is Some),
                None => (None, false),
            },
            None => (None, false),
        };
        lemma_value_usages_spans(schema, o.fields@[j].1, position.0, position.1, bound);
        lemma_object_usages_spans(schema, o, j + 1, input_object, bound);
        lemma_usages_add(
            crate::variables::spec_value_usages(schema, o.fields@[j].1, position.0, position.1),
            crate::variables::spec_object_value_usages(schema, o.fields@, j + 1, input_object),
            bound,
        );
    }
}

proof fn lemma_argument_usages_spans(
    schema: SchemaDefinition,
    args: Seq<Argument>,
    i: int,
    defs: Option<Seq<InputValueDefinition>>,
    bound: nat,
)
    requires
        crate::executable::spec_arguments_spans_within(args, 0, bound),
    ensures
        all_usage_spans_within(
            crate::variables::spec_argument_usages(schema, args, i, defs),
            bound,
        ),
    decreases args.len() - i,
{
    if !(i < 0 || i >= args.len()) {
        lemma_arguments_elem(args, 0, i, bound);
        let position: (Option<InputTypeShape>, bool) = match defs {
            Some(ds) => match crate::schema::spec_find_input_value(ds, args[i].name.value@, 0) {
                Some(d) => (Some(d.input_type@), d.default_value is Some),
                None => (None, false),
            },
            None => (None, false),
        };
        lemma_value_usages_spans(schema, args[i].value, position.0, position.1, bound);
        lemma_argument_usages_spans(schema, args, i + 1, defs, bound);
        lemma_usages_add(
            crate::variables::spec_value_usages(schema, args[i].value, position.0, position.1),
            crate::variables::spec_argument_usages(schema, args, i + 1, defs),
            bound,
        );
    }
}

proof fn lemma_directive_usages_spans(
    schema: SchemaDefinition,
    dirs: Seq<Directive>,
    i: int,
    bound: nat,
)
    requires
        crate::executable::spec_directives_spans_within(dirs, 0, bound),
    ensures
        all_usage_spans_within(crate::variables::spec_directive_usages(schema, dirs, i), bound),
    decreases dirs.len() - i,
{
    if !(i < 0 || i >= dirs.len()) {
        lemma_directives_elem(dirs, 0, i, bound);
        let defs: Option<Seq<InputValueDefinition>> = match schema.spec_get_directive(
            dirs[i].name.value@,
        ) {
            Some(dd) => Some(dd.arguments_definition@),
            None => None,
        };
        lemma_argument_usages_spans(schema, dirs[i].arguments@, 0, defs, bound);
        lemma_directive_usages_spans(schema, dirs, i + 1, bound);
        lemma_usages_add(
            crate::variables::spec_argument_usages(schema, dirs[i].arguments@, 0, defs),
            crate::variables::spec_directive_usages(schema, dirs, i + 1),
            bound,
        );
    }
}

proof fn lemma_selection_usages_spans(
    doc: ExecutableDocument,
    schema: SchemaDefinition,
    sel: Selection,
    scope: Option<TypeDefinition>,
    bound: nat,
)
    requires
        sel.spans_within(bound),
    ensures
        all_usage_spans_within(
            crate::variables::spec_selection_usages(doc, schema, sel, scope),
            bound,
        ),
    decreases sel, 0int,
{
    match sel {
        Selection::Field(f) => {
            let res = crate::traversal::spec_resolve_field(schema, scope, f.name.value@);
            let defs: Option<Seq<InputValueDefinition>> = match res {
                crate::traversal::SpecFieldResolution::Found(fd) => Some(fd.arguments_definition@),
                crate::traversal::SpecFieldResolution::Meta => Some(Seq::empty()),
                _ => None,
            };
            lemma_argument_usages_spans(schema, f.arguments@, 0, defs, bound);
            lemma_directive_usages_spans(schema, f.directives@, 0, bound);
            let argument_part = crate::variables::spec_argument_usages(
                schema,
                f.arguments@,
                0,
                defs,
            );
            let directive_part = crate::variables::spec_directive_usages(schema, f.directives@, 0);
            let sub: Seq<crate::variables::SpecVariableUsage> = match f.selection_set {
                Some(ss) => crate::variables::spec_selections_usages(
                    doc,
                    schema,
                    ss.selections@,
                    0,
                    crate::traversal::spec_field_child_scope(schema, res),
                ),
                None => Seq::empty(),
            };
            match f.selection_set {
                Some(ss) => {
                    lemma_selections_usages_spans(
                        doc,
                        schema,
                        ss.selections@,
                        0,
                        crate::traversal::spec_field_child_scope(schema, res),
                        bound,
                    );
                },
                None => {},
            }
            lemma_usages_add(argument_part, directive_part, bound);
            lemma_usages_add(argument_part + directive_part, sub, bound);
        },
        Selection::FragmentSpread(s) => {
            lemma_directive_usages_spans(schema, s.directives@, 0, bound);
        },
        Selection::InlineFragment(inf) => {
            lemma_directive_usages_spans(schema, inf.directives@, 0, bound);
            lemma_selections_usages_spans(
                doc,
                schema,
                inf.selection_set.selections@,
                0,
                crate::traversal::spec_inline_scope(schema, scope, inf.type_condition),
                bound,
            );
            lemma_usages_add(
                crate::variables::spec_directive_usages(schema, inf.directives@, 0),
                crate::variables::spec_selections_usages(
                    doc,
                    schema,
                    inf.selection_set.selections@,
                    0,
                    crate::traversal::spec_inline_scope(schema, scope, inf.type_condition),
                ),
                bound,
            );
        },
    }
}

proof fn lemma_selections_usages_spans(
    doc: ExecutableDocument,
    schema: SchemaDefinition,
    sels: Seq<Selection>,
    i: int,
    scope: Option<TypeDefinition>,
    bound: nat,
)
    requires
        crate::executable::spec_selections_spans_within(sels, 0, bound),
    ensures
        all_usage_spans_within(
            crate::variables::spec_selections_usages(doc, schema, sels, i, scope),
            bound,
        ),
    decreases sels, sels.len() - i,
{
    if !(i < 0 || i >= sels.len()) {
        lemma_selections_elem(sels, 0, i, bound);
        lemma_selection_usages_spans(doc, schema, sels[i], scope, bound);
        lemma_selections_usages_spans(doc, schema, sels, i + 1, scope, bound);
        lemma_usages_add(
            crate::variables::spec_selection_usages(doc, schema, sels[i], scope),
            crate::variables::spec_selections_usages(doc, schema, sels, i + 1, scope),
            bound,
        );
    }
}

proof fn lemma_fragments_usages_spans(
    doc: ExecutableDocument,
    schema: SchemaDefinition,
    names: Seq<Seq<char>>,
    i: int,
    bound: nat,
)
    requires
        doc.spans_within(bound),
    ensures
        all_usage_spans_within(
            crate::variables::spec_fragments_usages(doc, schema, names, i),
            bound,
        ),
    decreases names.len() - i,
{
    if !(i < 0 || i >= names.len()) {
        let head: Seq<crate::variables::SpecVariableUsage> = match spec_find_fragment(
            doc.fragment_definitions@,
            names[i],
            0,
        ) {
            Some(fd) => crate::variables::spec_selections_usages(
                doc,
                schema,
                fd.selection_set.selections@,
                0,
                crate::traversal::spec_fragment_scope(schema, fd),
            ),
            None => Seq::empty(),
        };
        match spec_find_fragment(doc.fragment_definitions@, names[i], 0) {
            Some(fd) => {
                lemma_find_fragment_spans(doc.fragment_definitions@, names[i], 0, bound);
                lemma_selections_usages_spans(
                    doc,
                    schema,
                    fd.selection_set.selections@,
                    0,
                    crate::traversal::spec_fragment_scope(schema, fd),
                    bound,
                );
            },
            None => {},
        }
        lemma_fragments_usages_spans(doc, schema, names, i + 1, bound);
        lemma_usages_add(
            head,
            crate::variables::spec_fragments_usages(doc, schema, names, i + 1),
            bound,
        );
    }
}

proof fn lemma_operation_usages_spans(
    doc: ExecutableDocument,
    schema: SchemaDefinition,
    op: crate::executable::OperationDefinition,
    bound: nat,
)
    requires
        doc.spans_within(bound),
        op.spans_within(bound),
    ensures
        all_usage_spans_within(
            crate::variables::spec_operation_usages(doc, schema, op),
            bound,
        ),
{
    let closure = crate::fragments::spec_closure_step(
        doc,
        crate::fragments::spec_selections_spread_uses(
            op.spec_selection_set().selections@,
            0,
        ),
        0,
        Seq::empty(),
        doc.fragment_definitions@.len() as nat,
    );
    lemma_selections_usages_spans(
        doc,
        schema,
        op.spec_selection_set().selections@,
        0,
        crate::traversal::spec_operation_scope(schema, op),
        bound,
    );
    lemma_fragments_usages_spans(doc, schema, closure, 0, bound);
    lemma_usages_add(
        crate::variables::spec_selections_usages(
            doc,
            schema,
            op.spec_selection_set().selections@,
            0,
            crate::traversal::spec_operation_scope(schema, op),
        ),
        crate::variables::spec_fragments_usages(doc, schema, closure, 0),
        bound,
    );
}

proof fn lemma_variable_defs_list_spans(vars: Seq<VariableDefinition>, i: int, bound: nat)
    requires
        crate::executable::spec_variable_definitions_spans_within(vars, 0, bound),
    ensures
        all_primary_spans_within(
            crate::variables::spec_variable_uniqueness_errors(vars, i),
            bound,
        ),
    decreases vars.len() - i,
{
    if !(i < 0 || i >= vars.len()) {
        lemma_variable_defs_elem(vars, 0, i, bound);
        lemma_variable_defs_list_spans(vars, i + 1, bound);
        let name = vars[i].variable.value@;
        if crate::variables::spec_first_variable_index(vars, name, 0) == i
            && crate::variables::spec_variable_count(vars, name, 0) > 1 {
            lemma_spans_add(
                seq![
                    SpecValidationError::NonUniqueVariableNames {
                        variable_name: name,
                        span: vars[i].variable.span,
                        duplicate_spans: crate::variables::spec_variable_spans(vars, name, 0),
                    },
                ],
                crate::variables::spec_variable_uniqueness_errors(vars, i + 1),
                bound,
            );
        }
    }
}

proof fn lemma_var_input_types_spans(
    schema: SchemaDefinition,
    vars: Seq<VariableDefinition>,
    i: int,
    bound: nat,
)
    requires
        crate::executable::spec_variable_definitions_spans_within(vars, 0, bound),
    ensures
        all_primary_spans_within(
            crate::variables::spec_variable_input_type_errors(schema, vars, i),
            bound,
        ),
    decreases vars.len() - i,
{
    if !(i < 0 || i >= vars.len()) {
        lemma_variable_defs_elem(vars, 0, i, bound);
        lemma_var_input_types_spans(schema, vars, i + 1, bound);
        match schema.spec_get_type(vars[i].variable_type@.base_name()) {
            Some(td) => {
                if !td.spec_is_input() {
                    lemma_spans_add(
                        seq![
                            SpecValidationError::VariableTypeNotInput {
                                variable_name: vars[i].variable.value@,
                                variable_type_name: vars[i].variable_type@.display(),
                                span: vars[i].variable_type.spec_span(),
                            },
                        ],
                        crate::variables::spec_variable_input_type_errors(schema, vars, i + 1),
                        bound,
                    );
                }
            },
            None => {},
        }
    }
}

proof fn lemma_undefined_vars_spans(
    vars: Seq<VariableDefinition>,
    usages: Seq<crate::variables::SpecVariableUsage>,
    i: int,
    bound: nat,
)
    requires
        all_usage_spans_within(usages, bound),
    ensures
        all_primary_spans_within(
            crate::variables::spec_undefined_variable_errors(vars, usages, i),
            bound,
        ),
    decreases usages.len() - i,
{
    if !(i < 0 || i >= usages.len()) {
        lemma_undefined_vars_spans(vars, usages, i + 1, bound);
        let name = usages[i].variable_name;
        if crate::variables::spec_first_usage_index(usages, name, 0) == i
            && crate::variables::spec_find_variable(vars, name, 0) is None {
            lemma_spans_add(
                seq![
                    SpecValidationError::VariableUndefined {
                        variable_name: name,
                        span: usages[i].span,
                    },
                ],
                crate::variables::spec_undefined_variable_errors(vars, usages, i + 1),
                bound,
            );
        }
    }
}

proof fn lemma_unused_vars_spans(
    vars: Seq<VariableDefinition>,
    i: int,
    usages: Seq<crate::variables::SpecVariableUsage>,
    bound: nat,
)
    requires
        crate::executable::spec_variable_definitions_spans_within(vars, 0, bound),
    ensures
        all_primary_spans_within(
            crate::variables::spec_unused_variable_errors(vars, i, usages),
            bound,
        ),
    decreases vars.len() - i,
{
    if !(i < 0 || i >= vars.len()) {
        lemma_variable_defs_elem(vars, 0, i, bound);
        lemma_unused_vars_spans(vars, i + 1, usages, bound);
        if crate::variables::spec_first_usage_index(usages, vars[i].variable.value@, 0)
            == usages.len() {
            lemma_spans_add(
                seq![
                    SpecValidationError::VariableUnused {
                        variable_name: vars[i].variable.value@,
                        span: vars[i].variable.span,
                    },
                ],
                crate::variables::spec_unused_variable_errors(vars, i + 1, usages),
                bound,
            );
        }
    }
}

proof fn lemma_allowed_usages_spans(
    vars: Seq<VariableDefinition>,
    usages: Seq<crate::variables::SpecVariableUsage>,
    i: int,
    bound: nat,
)
    requires
        all_usage_spans_within(usages, bound),
    ensures
        all_primary_spans_within(
            crate::variables::spec_usage_allowed_errors(vars, usages, i),
            bound,
        ),
    decreases usages.len() - i,
{
    if !(i < 0 || i >= usages.len()) {
        lemma_allowed_usages_spans(vars, usages, i + 1, bound);
        match usages[i].expected_type {
            Some(location_type) => match crate::variables::spec_find_variable(
                vars,
                usages[i].variable_name,
                0,
            ) {
                Some(vd) => {
                    let has_default = usages[i].location_has_default
                        || crate::variables::spec_has_non_null_default(vd);
                    if !crate::types::spec_variable_usage_allowed(
                        vd.variable_type@,
                        location_type,
                        has_default,
                    ) {
                        lemma_spans_add(
                            seq![
                                SpecValidationError::InvalidVariableUsage {
                                    variable_name: usages[i].variable_name,
                                    variable_type_name: vd.variable_type@.display(),
                                    location_type_name: location_type.display(),
                                    span: usages[i].span,
                                },
                            ],
                            crate::variables::spec_usage_allowed_errors(vars, usages, i + 1),
                            bound,
                        );
                    }
                },
                None => {},
            },
            None => {},
        }
    }
}

proof fn lemma_operation_vars_spans(
    doc: ExecutableDocument,
    schema: SchemaDefinition,
    op: crate::executable::OperationDefinition,
    bound: nat,
)
    requires
        doc.spans_within(bound),
        op.spans_within(bound),
    ensures
        all_primary_spans_within(
            crate::variables::spec_operation_variable_errors(doc, schema, op),
            bound,
        ),
{
    let vars = op.spec_variable_definitions();
    let usages = crate::variables::spec_operation_usages(doc, schema, op);
    lemma_operation_usages_spans(doc, schema, op, bound);
    lemma_variable_defs_list_spans(vars, 0, bound);
    lemma_var_input_types_spans(schema, vars, 0, bound);
    lemma_undefined_vars_spans(vars, usages, 0, bound);
    lemma_unused_vars_spans(vars, 0, usages, bound);
    lemma_allowed_usages_spans(vars, usages, 0, bound);
    let uniq = crate::variables::spec_variable_uniqueness_errors(vars, 0);
    let input_part = crate::variables::spec_variable_input_type_errors(schema, vars, 0);
    let undefined_part = crate::variables::spec_undefined_variable_errors(vars, usages, 0);
    let unused_part = crate::variables::spec_unused_variable_errors(vars, 0, usages);
    let allowed_part = crate::variables::spec_usage_allowed_errors(vars, usages, 0);
    lemma_spans_add(uniq, input_part, bound);
    lemma_spans_add(uniq + input_part, undefined_part, bound);
    lemma_spans_add(uniq + input_part + undefined_part, unused_part, bound);
    lemma_spans_add(uniq + input_part + undefined_part + unused_part, allowed_part, bound);
}

proof fn lemma_vars_rules_spans(
    doc: ExecutableDocument,
    schema: SchemaDefinition,
    i: int,
    bound: nat,
)
    requires
        doc.spans_within(bound),
    ensures
        all_primary_spans_within(
            crate::variables::spec_variables_rules_errors(doc, schema, i),
            bound,
        ),
    decreases doc.operation_definitions@.len() - i,
{
    if !(i < 0 || i >= doc.operation_definitions@.len()) {
        lemma_operations_elem(doc.operation_definitions@, 0, i, bound);
        lemma_operation_vars_spans(doc, schema, doc.operation_definitions@[i], bound);
        lemma_vars_rules_spans(doc, schema, i + 1, bound);
        lemma_spans_add(
            crate::variables::spec_operation_variable_errors(
                doc,
                schema,
                doc.operation_definitions@[i],
            ),
            crate::variables::spec_variables_rules_errors(doc, schema, i + 1),
            bound,
        );
    }
}

proof fn lemma_select_spans(s: Seq<SpecValidationError>, k: int, i: int, bound: nat)
    requires
        all_primary_spans_within(s, bound),
        0 <= i,
    ensures
        all_primary_spans_within(crate::validator::spec_select_rule(s, k, i), bound),
    decreases s.len() - i,
{
    if i < s.len() {
        lemma_select_spans(s, k, i + 1, bound);
        if crate::validation_error::spec_rule_of(s[i]) == k {
            lemma_spans_add(
                seq![s[i]],
                crate::validator::spec_select_rule(s, k, i + 1),
                bound,
            );
        }
    }
}

proof fn lemma_ordered_spans(s: Seq<SpecValidationError>, k: int, bound: nat)
    requires
        all_primary_spans_within(s, bound),
    ensures
        all_primary_spans_within(crate::validator::spec_ordered_errors(s, k), bound),
    decreases crate::validation_error::spec_rule_count() - k,
{
    if 0 <= k < crate::validation_error::spec_rule_count() {
        lemma_select_spans(s, k, 0, bound);
        lemma_ordered_spans(s, k + 1, bound);
        lemma_spans_add(
            crate::validator::spec_select_rule(s, k, 0),
            crate::validator::spec_ordered_errors(s, k + 1),
            bound,
        );
    }
}

/// Every emitted error's primary span is a sub-range of the input
/// document: when all the document's own spans lie within the first
/// `bound` bytes of the source, so does the primary span of every error
/// the validator returns, whatever the schema.
pub proof fn lemma_error_spans_within_document(
    doc: ExecutableDocument,
    schema: SchemaDefinition,
    bound: nat,
)
    requires
        doc.spans_within(bound),
    ensures
        all_primary_spans_within(
            crate::validator::spec_validation_errors(doc, schema),
            bound,
        ),
{
    let d = crate::document_rules::spec_document_rules_errors(doc, schema);
    let w = crate::traversal::spec_document_walk(doc, schema);
    let m = crate::merging::spec_field_merging_errors(doc, schema);
    let fnames = crate::fragments::spec_fragment_name_uniqueness_errors(
        doc.fragment_definitions@,
        0,
    );
    let unused = crate::fragments::spec_fragments_must_be_used_errors(doc);
    let cycles = crate::fragments::spec_fragment_cycle_errors(doc);
    let v = crate::variables::spec_variables_rules_errors(doc, schema, 0);
    lemma_doc_rules_spans(doc, schema, bound);
    lemma_document_walk_spans(doc, schema, bound);
    lemma_merging_spans(doc, schema, bound);
    lemma_fragments_chunk_spans(doc, bound);
    lemma_vars_rules_spans(doc, schema, 0, bound);
    lemma_spans_add(d, w, bound);
    lemma_spans_add(d + w, m, bound);
    lemma_spans_add(d + w + m, fnames, bound);
    lemma_spans_add(d + w + m + fnames, unused, bound);
    lemma_spans_add(d + w + m + fnames + unused, cycles, bound);
    lemma_spans_add(d + w + m + fnames + unused + cycles, v, bound);
    lemma_ordered_spans(crate::validator::spec_all_errors(doc, schema), 0, bound);
}

} // verus!
