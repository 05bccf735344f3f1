use vstd::prelude::*;

use crate::arguments::{
    spec_argument_uniqueness_errors, spec_argument_value_errors, spec_directive_site_errors,
    spec_directive_uniqueness_errors, spec_directives_errors, spec_known_owner_argument_errors,
    spec_map_coercion, spec_missing_argument_errors, spec_unknown_argument_errors,
};
use crate::executable::{
    Argument, Directive, ExecutableDocument, FragmentDefinition, Selection, VariableDefinition,
};
use crate::validation_error::spec_from_coercion;
use crate::schema::{DirectiveLocation, InputValueDefinition, TypeDefinition};
use crate::traversal::{
    spec_document_walk, spec_operation_directives, spec_operation_directive_location,
    spec_variable_default_errors, spec_walk_fragment, spec_walk_fragments, spec_walk_operation,
    spec_walk_operations, spec_walk_selection, spec_walk_selections,
};
use crate::variables::{
    spec_operation_variable_errors, spec_undefined_variable_errors, spec_unused_variable_errors,
    spec_usage_allowed_errors, spec_variable_input_type_errors, spec_variable_uniqueness_errors,
    spec_variables_rules_errors,
};
use crate::input_coercion::{SpecCoercionError, SpecPathMember, spec_coerce_value};
use crate::merging::{
    SpecFieldEntry, spec_arguments_equal, spec_entries_can_merge, spec_same_response_shape,
};
use crate::schema::SchemaDefinition;
use crate::types::{InputTypeShape, OutputTypeShape};
use crate::validation_error::{SpecValidationError, spec_rule_count, spec_rule_of};
use crate::validator::{spec_all_errors, spec_ordered_errors, spec_select_rule, spec_validation_errors};

verus! {

/// A document is spec-valid against a schema when no rule of the set finds
/// a violation in it.
pub open spec fn spec_document_valid(doc: ExecutableDocument, schema: SchemaDefinition) -> bool {
    spec_all_errors(doc, schema).len() == 0
}

proof fn lemma_ordered_of_empty(s: Seq<SpecValidationError>, k: int)
    requires
        s.len() == 0,
    ensures
        spec_ordered_errors(s, k).len() == 0,
    decreases spec_rule_count() - k,
{
    if 0 <= k < spec_rule_count() {
        lemma_ordered_of_empty(s, k + 1);
    }
}

proof fn lemma_rule_of_in_range(e: SpecValidationError)
    ensures
        0 <= spec_rule_of(e) < spec_rule_count(),
{
}

proof fn lemma_ordered_at_least_one_slot(s: Seq<SpecValidationError>, k: int, idx: int)
    requires
        0 <= k <= idx < spec_rule_count(),
    ensures
        spec_ordered_errors(s, k).len() >= spec_select_rule(s, idx, 0).len(),
    decreases idx - k,
{
    if k < idx {
        lemma_ordered_at_least_one_slot(s, k + 1, idx);
    }
}

/// The validator yields an empty error sequence exactly for the documents
/// that are spec-valid against the schema: every rule's check passes if
/// and only if the ordered output has nothing in it.
pub proof fn lemma_valid_iff_no_errors(doc: ExecutableDocument, schema: SchemaDefinition)
    ensures
        spec_document_valid(doc, schema) <==> spec_validation_errors(doc, schema).len() == 0,
{
    let all = spec_all_errors(doc, schema);
    if all.len() == 0 {
        lemma_ordered_of_empty(all, 0);
    }
    if all.len() > 0 {
        let idx = spec_rule_of(all[0]);
        lemma_rule_of_in_range(all[0]);
        assert(spec_select_rule(all, idx, 0).len() >= 1);
        lemma_ordered_at_least_one_slot(all, 0, idx);
    }
}

/// The validator is a pure function of the document and the schema:
/// identical inputs determine one error sequence, order included. The
/// driver's contract pins its result to exactly this sequence.
pub proof fn lemma_validator_deterministic(
    doc: ExecutableDocument,
    schema: SchemaDefinition,
    r1: Seq<SpecValidationError>,
    r2: Seq<SpecValidationError>,
)
    requires
        r1 == spec_validation_errors(doc, schema),
        r2 == spec_validation_errors(doc, schema),
    ensures
        r1 == r2,
{
}

/// Input coercion is idempotent and effect-free: coercing the same value
/// against the same type twice yields the same errors. The coercion
/// functions take only shared references, so the inputs cannot change.
pub proof fn lemma_coercion_idempotent(
    schema: SchemaDefinition,
    t: InputTypeShape,
    v: crate::value::Value,
    path: Seq<SpecPathMember>,
    allow_implicit_list: bool,
    r1: Seq<SpecCoercionError>,
    r2: Seq<SpecCoercionError>,
)
    requires
        r1 == spec_coerce_value(schema, t, v, path, allow_implicit_list),
        r2 == spec_coerce_value(schema, t, v, path, allow_implicit_list),
    ensures
        r1 == r2,
{
}

/// The rules the specification calls purely syntactic: operation name
/// uniqueness, argument uniqueness, fragment name uniqueness, fragment
/// cycles, and variable uniqueness. None of them reads the schema.
pub open spec fn spec_is_pure_syntactic_rule(k: int) -> bool {
    k == 2 || k == 8 || k == 11 || k == 16 || k == 20
}

proof fn lemma_select_single(e: SpecValidationError, k: int)
    ensures
        spec_select_rule(seq![e], k, 0) == if spec_rule_of(e) == k {
            seq![e]
        } else {
            Seq::<SpecValidationError>::empty()
        },
{
    assert(spec_select_rule(seq![e], k, 1) == Seq::<SpecValidationError>::empty());
    if spec_rule_of(e) == k {
        assert(seq![seq![e][0]] + Seq::<SpecValidationError>::empty() =~= seq![e]);
    }
}

proof fn lemma_sel_nonsyn_single(e: SpecValidationError, k: int)
    requires
        spec_rule_of(e) != k,
    ensures
        spec_select_rule(seq![e], k, 0) == Seq::<SpecValidationError>::empty(),
{
    lemma_select_single(e, k);
}

proof fn lemma_select_tail(
    a: Seq<SpecValidationError>,
    b: Seq<SpecValidationError>,
    k: int,
    j: int,
)
    requires
        a.len() <= j <= a.len() + b.len(),
    ensures
        spec_select_rule(a + b, k, j) == spec_select_rule(b, k, j - a.len()),
    decreases a.len() + b.len() - j,
{
    if j < a.len() + b.len() {
        assert((a + b)[j] == b[j - a.len()]);
        lemma_select_tail(a, b, k, j + 1);
    }
}

proof fn lemma_select_add(
    a: Seq<SpecValidationError>,
    b: Seq<SpecValidationError>,
    k: int,
    i: int,
)
    requires
        0 <= i <= a.len(),
    ensures
        spec_select_rule(a + b, k, i) == spec_select_rule(a, k, i) + spec_select_rule(b, k, 0),
    decreases a.len() - i,
{
    if i == a.len() {
        lemma_select_tail(a, b, k, i);
        assert(spec_select_rule(a, k, i) == Seq::<SpecValidationError>::empty());
        assert(Seq::<SpecValidationError>::empty() + spec_select_rule(b, k, 0) =~= spec_select_rule(
            b,
            k,
            0,
        ));
    } else {
        lemma_select_add(a, b, k, i + 1);
        assert((a + b)[i] == a[i]);
        if spec_rule_of(a[i]) == k {
            assert(seq![a[i]] + (spec_select_rule(a, k, i + 1) + spec_select_rule(b, k, 0))
                =~= (seq![a[i]] + spec_select_rule(a, k, i + 1)) + spec_select_rule(b, k, 0));
        }
    }
}

proof fn lemma_sel_map_coercion(s: Seq<SpecCoercionError>, k: int)
    requires
        spec_is_pure_syntactic_rule(k),
    ensures
        spec_select_rule(spec_map_coercion(s), k, 0) == Seq::<SpecValidationError>::empty(),
    decreases s.len(),
{
    if s.len() > 0 {
        lemma_sel_map_coercion(s.drop_first(), k);
        lemma_select_add(seq![spec_from_coercion(s[0])], spec_map_coercion(s.drop_first()), k, 0);
        assert(spec_rule_of(spec_from_coercion(s[0])) == 10) by {
            match s[0] {
                SpecCoercionError::NullValueForRequiredType { .. } => {},
                SpecCoercionError::NoImplicitConversion { .. } => {},
                SpecCoercionError::NoEnumMemberWithName { .. } => {},
                SpecCoercionError::NonUniqueFieldNames { .. } => {},
                SpecCoercionError::NoInputFieldWithName { .. } => {},
                SpecCoercionError::NoValueForRequiredFields { .. } => {},
            }
        }
        lemma_sel_nonsyn_single(spec_from_coercion(s[0]), k);
        assert(Seq::<SpecValidationError>::empty() + Seq::<SpecValidationError>::empty()
            =~= Seq::<SpecValidationError>::empty());
    }
}

proof fn lemma_sel_unknown_args(
    args: Seq<Argument>,
    i: int,
    defs: Seq<InputValueDefinition>,
    owner_is_field: bool,
    owner_name: Seq<char>,
    k: int,
)
    requires
        spec_is_pure_syntactic_rule(k),
    ensures
        spec_select_rule(
            spec_unknown_argument_errors(args, i, defs, owner_is_field, owner_name),
            k,
            0,
        ) == Seq::<SpecValidationError>::empty(),
    decreases args.len() - i,
{
    if !(i < 0 || i >= args.len()) {
        lemma_sel_unknown_args(args, i + 1, defs, owner_is_field, owner_name, k);
        let rest = spec_unknown_argument_errors(args, i + 1, defs, owner_is_field, owner_name);
        if crate::schema::spec_find_input_value(defs, args[i].name.value@, 0) is None {
            let e = if owner_is_field {
                SpecValidationError::ArgumentDoesNotExistOnField {
                    argument_name: args[i].name.value@,
                    field_name: owner_name,
                    span: args[i].span,
                }
            } else {
                SpecValidationError::ArgumentDoesNotExistOnDirective {
                    argument_name: args[i].name.value@,
                    directive_name: owner_name,
                    span: args[i].span,
                }
            };
            lemma_select_add(seq![e], rest, k, 0);
            lemma_sel_nonsyn_single(e, k);
            assert(Seq::<SpecValidationError>::empty() + Seq::<SpecValidationError>::empty()
                =~= Seq::<SpecValidationError>::empty());
        }
    }
}

proof fn lemma_sel_missing_args(
    defs: Seq<InputValueDefinition>,
    j: int,
    args: Seq<Argument>,
    owner_name: Seq<char>,
    owner_span: crate::span::Span,
    k: int,
)
    requires
        spec_is_pure_syntactic_rule(k),
    ensures
        spec_select_rule(
            spec_missing_argument_errors(defs, j, args, owner_name, owner_span),
            k,
            0,
        ) == Seq::<SpecValidationError>::empty(),
    decreases defs.len() - j,
{
    if !(j < 0 || j >= defs.len()) {
        lemma_sel_missing_args(defs, j + 1, args, owner_name, owner_span, k);
        let rest = spec_missing_argument_errors(defs, j + 1, args, owner_name, owner_span);
        if defs[j].input_type@.is_required() && defs[j].default_value is None
            && crate::arguments::spec_first_argument_index(args, defs[j].name@, 0) == args.len() {
            let e = SpecValidationError::RequiredArgumentMissing {
                name: defs[j].name@,
                owner_name,
                span: owner_span,
            };
            lemma_select_add(seq![e], rest, k, 0);
            lemma_sel_nonsyn_single(e, k);
            assert(Seq::<SpecValidationError>::empty() + Seq::<SpecValidationError>::empty()
                =~= Seq::<SpecValidationError>::empty());
        }
    }
}

proof fn lemma_sel_value_args(
    schema: SchemaDefinition,
    args: Seq<Argument>,
    i: int,
    defs: Seq<InputValueDefinition>,
    k: int,
)
    requires
        spec_is_pure_syntactic_rule(k),
    ensures
        spec_select_rule(spec_argument_value_errors(schema, args, i, defs), k, 0) == Seq::<
            SpecValidationError,
        >::empty(),
    decreases args.len() - i,
{
    if !(i < 0 || i >= args.len()) {
        lemma_sel_value_args(schema, args, i + 1, defs, k);
        let rest = spec_argument_value_errors(schema, args, i + 1, defs);
        match crate::schema::spec_find_input_value(defs, args[i].name.value@, 0) {
            Some(d) => {
                let head = spec_map_coercion(
                    spec_coerce_value(schema, d.input_type@, args[i].value, Seq::empty(), true),
                );
                lemma_select_add(head, rest, k, 0);
                lemma_sel_map_coercion(
                    spec_coerce_value(schema, d.input_type@, args[i].value, Seq::empty(), true),
                    k,
                );
                assert(Seq::<SpecValidationError>::empty() + Seq::<
                    SpecValidationError,
                >::empty() =~= Seq::<SpecValidationError>::empty());
            },
            None => {},
        }
    }
}

/// Of all the argument checks against a known declaration, only argument
/// uniqueness can carry a syntactic kind, and it does not read the schema.
proof fn lemma_sel_known_owner(
    schema: SchemaDefinition,
    args: Seq<Argument>,
    defs: Seq<InputValueDefinition>,
    owner_is_field: bool,
    owner_name: Seq<char>,
    owner_span: crate::span::Span,
    k: int,
)
    requires
        spec_is_pure_syntactic_rule(k),
    ensures
        spec_select_rule(
            spec_known_owner_argument_errors(
                schema,
                args,
                defs,
                owner_is_field,
                owner_name,
                owner_span,
            ),
            k,
            0,
        ) == spec_select_rule(spec_argument_uniqueness_errors(args, 0), k, 0),
{
    let unknown = spec_unknown_argument_errors(args, 0, defs, owner_is_field, owner_name);
    let uniq = spec_argument_uniqueness_errors(args, 0);
    let missing = spec_missing_argument_errors(defs, 0, args, owner_name, owner_span);
    let values = spec_argument_value_errors(schema, args, 0, defs);
    lemma_select_add(unknown + uniq + missing, values, k, 0);
    lemma_select_add(unknown + uniq, missing, k, 0);
    lemma_select_add(unknown, uniq, k, 0);
    lemma_sel_unknown_args(args, 0, defs, owner_is_field, owner_name, k);
    lemma_sel_missing_args(defs, 0, args, owner_name, owner_span, k);
    lemma_sel_value_args(schema, args, 0, defs, k);
    assert((Seq::<SpecValidationError>::empty() + spec_select_rule(uniq, k, 0)) + Seq::<
        SpecValidationError,
    >::empty() + Seq::<SpecValidationError>::empty() =~= spec_select_rule(uniq, k, 0));
}

proof fn lemma_sel_spread_possible(
    schema: SchemaDefinition,
    scope: Option<TypeDefinition>,
    condition: Seq<char>,
    span: crate::span::Span,
    k: int,
)
    requires
        spec_is_pure_syntactic_rule(k),
    ensures
        spec_select_rule(
            crate::traversal::spec_spread_possible_errors(schema, scope, condition, span),
            k,
            0,
        ) == Seq::<SpecValidationError>::empty(),
{
    match scope {
        None => {},
        Some(parent) => match schema.spec_get_type(condition) {
            None => {},
            Some(ct) => {
                if parent.spec_is_composite() && ct.spec_is_composite()
                    && !crate::traversal::spec_names_intersect(
                    crate::traversal::spec_possible_type_names(schema, parent),
                    crate::traversal::spec_possible_type_names(schema, ct),
                    0,
                ) {
                    lemma_sel_nonsyn_single(
                        SpecValidationError::FragmentSpreadTypeImpossible {
                            type_condition: condition,
                            parent_type_name: parent.spec_name(),
                            span,
                        },
                        k,
                    );
                }
            },
        },
    }
}

proof fn lemma_sel_directives_eq(
    s1: SchemaDefinition,
    s2: SchemaDefinition,
    dirs: Seq<Directive>,
    i: int,
    location: DirectiveLocation,
    k: int,
)
    requires
        spec_is_pure_syntactic_rule(k),
    ensures
        spec_select_rule(spec_directives_errors(s1, dirs, i, location), k, 0) == spec_select_rule(
            spec_directives_errors(s2, dirs, i, location),
            k,
            0,
        ),
    decreases dirs.len() - i,
{
    if !(i < 0 || i >= dirs.len()) {
        lemma_sel_directives_eq(s1, s2, dirs, i + 1, location, k);
        let d = dirs[i];
        let su = spec_select_rule(spec_argument_uniqueness_errors(d.arguments@, 0), k, 0);
        let head1 = spec_directive_head(s1, d, location);
        let head2 = spec_directive_head(s2, d, location);
        lemma_sel_directive_head(s1, d, location, k);
        lemma_sel_directive_head(s2, d, location, k);
        lemma_select_add(head1, spec_directives_errors(s1, dirs, i + 1, location), k, 0);
        lemma_select_add(head2, spec_directives_errors(s2, dirs, i + 1, location), k, 0);
    }
}

/// The checks of one directive occurrence, as the traversal emits them.
spec fn spec_directive_head(
    schema: SchemaDefinition,
    d: Directive,
    location: DirectiveLocation,
) -> Seq<SpecValidationError> {
    match schema.spec_get_directive(d.name.value@) {
        None => seq![
            SpecValidationError::DirectiveDoesNotExist {
                directive_name: d.name.value@,
                span: d.span,
            },
        ] + spec_argument_uniqueness_errors(d.arguments@, 0),
        Some(dd) => {
            let location_errors: Seq<SpecValidationError> = if !crate::arguments::spec_location_list_contains(
                dd.locations@,
                location,
                0,
            ) {
                seq![
                    SpecValidationError::DirectiveInInvalidLocation {
                        directive_name: d.name.value@,
                        location,
                        span: d.span,
                    },
                ]
            } else {
                Seq::empty()
            };
            location_errors + spec_known_owner_argument_errors(
                schema,
                d.arguments@,
                dd.arguments_definition@,
                false,
                d.name.value@,
                d.span,
            )
        },
    }
}

proof fn lemma_sel_directive_head(
    schema: SchemaDefinition,
    d: Directive,
    location: DirectiveLocation,
    k: int,
)
    requires
        spec_is_pure_syntactic_rule(k),
    ensures
        spec_select_rule(spec_directive_head(schema, d, location), k, 0) == spec_select_rule(
            spec_argument_uniqueness_errors(d.arguments@, 0),
            k,
            0,
        ),
{
    let uniq = spec_argument_uniqueness_errors(d.arguments@, 0);
    match schema.spec_get_directive(d.name.value@) {
        None => {
            let e = SpecValidationError::DirectiveDoesNotExist {
                directive_name: d.name.value@,
                span: d.span,
            };
            lemma_select_add(seq![e], uniq, k, 0);
            lemma_sel_nonsyn_single(e, k);
            assert(Seq::<SpecValidationError>::empty() + spec_select_rule(uniq, k, 0)
                =~= spec_select_rule(uniq, k, 0));
        },
        Some(dd) => {
            let location_errors: Seq<SpecValidationError> = if !crate::arguments::spec_location_list_contains(
                dd.locations@,
                location,
                0,
            ) {
                seq![
                    SpecValidationError::DirectiveInInvalidLocation {
                        directive_name: d.name.value@,
                        location,
                        span: d.span,
                    },
                ]
            } else {
                Seq::empty()
            };
            let known = spec_known_owner_argument_errors(
                schema,
                d.arguments@,
                dd.arguments_definition@,
                false,
                d.name.value@,
                d.span,
            );
            lemma_select_add(location_errors, known, k, 0);
            if location_errors.len() > 0 {
                lemma_sel_nonsyn_single(location_errors[0], k);
                assert(location_errors =~= seq![location_errors[0]]);
            }
            lemma_sel_known_owner(
                schema,
                d.arguments@,
                dd.arguments_definition@,
                false,
                d.name.value@,
                d.span,
                k,
            );
            assert(Seq::<SpecValidationError>::empty() + spec_select_rule(uniq, k, 0)
                =~= spec_select_rule(uniq, k, 0));
        },
    }
}

proof fn lemma_sel_dirsite_eq(
    s1: SchemaDefinition,
    s2: SchemaDefinition,
    dirs: Seq<Directive>,
    location: DirectiveLocation,
    k: int,
)
    requires
        spec_is_pure_syntactic_rule(k),
    ensures
        spec_select_rule(spec_directive_site_errors(s1, dirs, location), k, 0) == spec_select_rule(
            spec_directive_site_errors(s2, dirs, location),
            k,
            0,
        ),
{
    lemma_sel_directives_eq(s1, s2, dirs, 0, location, k);
    lemma_select_add(
        spec_directives_errors(s1, dirs, 0, location),
        spec_directive_uniqueness_errors(dirs, 0),
        k,
        0,
    );
    lemma_select_add(
        spec_directives_errors(s2, dirs, 0, location),
        spec_directive_uniqueness_errors(dirs, 0),
        k,
        0,
    );
}

proof fn lemma_sel_variable_defaults(
    schema: SchemaDefinition,
    vars: Seq<VariableDefinition>,
    i: int,
    k: int,
)
    requires
        spec_is_pure_syntactic_rule(k),
    ensures
        spec_select_rule(spec_variable_default_errors(schema, vars, i), k, 0) == Seq::<
            SpecValidationError,
        >::empty(),
    decreases vars.len() - i,
{
    if !(i < 0 || i >= vars.len()) {
        lemma_sel_variable_defaults(schema, vars, i + 1, k);
        let rest = spec_variable_default_errors(schema, vars, i + 1);
        match vars[i].default_value {
            Some(v) => {
                let coerced = spec_coerce_value(
                    schema,
                    vars[i].variable_type@,
                    v,
                    Seq::empty(),
                    true,
                );
                lemma_select_add(spec_map_coercion(coerced), rest, k, 0);
                lemma_sel_map_coercion(coerced, k);
                assert(Seq::<SpecValidationError>::empty() + Seq::<
                    SpecValidationError,
                >::empty() =~= Seq::<SpecValidationError>::empty());
            },
            None => {},
        }
    }
}

/// The kind-`k` errors the traversal emits for one selection are the same
/// under any two schemas, for a pure syntactic `k`: only the argument and
/// directive uniqueness checks carry such kinds, and they never read the
/// schema.
proof fn lemma_sel_walk_selection_eq(
    doc: ExecutableDocument,
    s1: SchemaDefinition,
    s2: SchemaDefinition,
    sel: Selection,
    sc1: Option<TypeDefinition>,
    sc2: Option<TypeDefinition>,
    k: int,
)
    requires
        spec_is_pure_syntactic_rule(k),
    ensures
        spec_select_rule(spec_walk_selection(doc, s1, sel, sc1), k, 0) == spec_select_rule(
            spec_walk_selection(doc, s2, sel, sc2),
            k,
            0,
        ),
    decreases sel, 0int,
{
    match sel {
        Selection::Field(f) => {
            lemma_sel_walk_field_parts(doc, s1, f, sc1, k);
            lemma_sel_walk_field_parts(doc, s2, f, sc2, k);
            let res1 = crate::traversal::spec_resolve_field(s1, sc1, f.name.value@);
            let res2 = crate::traversal::spec_resolve_field(s2, sc2, f.name.value@);
            lemma_sel_dirsite_eq(s1, s2, f.directives@, DirectiveLocation::Field, k);
            match f.selection_set {
                Some(ss) => {
                    lemma_sel_walk_selections_eq(
                        doc,
                        s1,
                        s2,
                        ss.selections@,
                        0,
                        crate::traversal::spec_field_child_scope(s1, res1),
                        crate::traversal::spec_field_child_scope(s2, res2),
                        k,
                    );
                },
                None => {},
            }
        },
        Selection::FragmentSpread(s) => {
            let target1: Seq<SpecValidationError> = match crate::executable::spec_find_fragment(
                doc.fragment_definitions@,
                s.name.value@,
                0,
            ) {
                None => seq![
                    SpecValidationError::FragmentSpreadTargetNotDefined {
                        fragment_name: s.name.value@,
                        span: s.span,
                    },
                ],
                Some(fd) => crate::traversal::spec_spread_possible_errors(
                    s1,
                    sc1,
                    fd.type_condition.value@,
                    s.span,
                ),
            };
            let target2: Seq<SpecValidationError> = match crate::executable::spec_find_fragment(
                doc.fragment_definitions@,
                s.name.value@,
                0,
            ) {
                None => seq![
                    SpecValidationError::FragmentSpreadTargetNotDefined {
                        fragment_name: s.name.value@,
                        span: s.span,
                    },
                ],
                Some(fd) => crate::traversal::spec_spread_possible_errors(
                    s2,
                    sc2,
                    fd.type_condition.value@,
                    s.span,
                ),
            };
            match crate::executable::spec_find_fragment(
                doc.fragment_definitions@,
                s.name.value@,
                0,
            ) {
                None => {
                    lemma_sel_nonsyn_single(
                        SpecValidationError::FragmentSpreadTargetNotDefined {
                            fragment_name: s.name.value@,
                            span: s.span,
                        },
                        k,
                    );
                },
                Some(fd) => {
                    lemma_sel_spread_possible(s1, sc1, fd.type_condition.value@, s.span, k);
                    lemma_sel_spread_possible(s2, sc2, fd.type_condition.value@, s.span, k);
                },
            }
            lemma_sel_dirsite_eq(s1, s2, s.directives@, DirectiveLocation::FragmentSpread, k);
            lemma_select_add(
                target1,
                spec_directive_site_errors(s1, s.directives@, DirectiveLocation::FragmentSpread),
                k,
                0,
            );
            lemma_select_add(
                target2,
                spec_directive_site_errors(s2, s.directives@, DirectiveLocation::FragmentSpread),
                k,
                0,
            );
        },
        Selection::InlineFragment(inf) => {
            lemma_sel_walk_inline_parts(doc, s1, inf, sc1, k);
            lemma_sel_walk_inline_parts(doc, s2, inf, sc2, k);
            lemma_sel_dirsite_eq(s1, s2, inf.directives@, DirectiveLocation::InlineFragment, k);
            lemma_sel_walk_selections_eq(
                doc,
                s1,
                s2,
                inf.selection_set.selections@,
                0,
                crate::traversal::spec_inline_scope(s1, sc1, inf.type_condition),
                crate::traversal::spec_inline_scope(s2, sc2, inf.type_condition),
                k,
            );
        },
    }
}

/// For a field selection, the traversal's non-uniqueness parts select to
/// nothing under a syntactic kind, and the argument part selects to the
/// field's argument-uniqueness errors.
proof fn lemma_sel_walk_field_parts(
    doc: ExecutableDocument,
    schema: SchemaDefinition,
    f: crate::executable::Field,
    scope: Option<TypeDefinition>,
    k: int,
)
    requires
        spec_is_pure_syntactic_rule(k),
    ensures
        spec_select_rule(
            spec_walk_selection(doc, schema, Selection::Field(f), scope),
            k,
            0,
        ) == spec_select_rule(spec_argument_uniqueness_errors(f.arguments@, 0), k, 0)
            + spec_select_rule(
            spec_directive_site_errors(schema, f.directives@, DirectiveLocation::Field),
            k,
            0,
        ) + spec_select_rule(
            match f.selection_set {
                Some(ss) => spec_walk_selections(
                    doc,
                    schema,
                    ss.selections@,
                    0,
                    crate::traversal::spec_field_child_scope(
                        schema,
                        crate::traversal::spec_resolve_field(schema, scope, f.name.value@),
                    ),
                ),
                None => Seq::empty(),
            },
            k,
            0,
        ),
{
    let res = crate::traversal::spec_resolve_field(schema, scope, f.name.value@);
    let re: Seq<SpecValidationError> = match res {
        crate::traversal::SpecFieldResolution::NotFound => seq![
            SpecValidationError::FieldDoesNotExistOnType {
                field_name: f.name.value@,
                parent_type_name: crate::traversal::spec_scope_name(scope),
                span: f.span,
            },
        ],
        _ => Seq::empty(),
    };
    let le: Seq<SpecValidationError> = match res {
        crate::traversal::SpecFieldResolution::Found(fd) => match schema.spec_get_type(
            fd.output_type@.base_name(),
        ) {
            Some(bt) => {
                if bt.spec_is_leaf() && f.selection_set is Some {
                    seq![
                        SpecValidationError::NonLeafFieldSelectionOnLeafType {
                            field_name: f.name.value@,
                            base_type_name: bt.spec_name(),
                            span: f.span,
                        },
                    ]
                } else if bt.spec_is_composite() && f.selection_set is None {
                    seq![
                        SpecValidationError::LeafFieldSelectionsNotOnType {
                            field_name: f.name.value@,
                            base_type_name: bt.spec_name(),
                            span: f.span,
                        },
                    ]
                } else {
                    Seq::empty()
                }
            },
            None => Seq::empty(),
        },
        crate::traversal::SpecFieldResolution::Meta => {
            if f.selection_set is Some {
                seq![
                    SpecValidationError::NonLeafFieldSelectionOnLeafType {
                        field_name: f.name.value@,
                        base_type_name: "String"@,
                        span: f.span,
                    },
                ]
            } else {
                Seq::empty()
            }
        },
        _ => Seq::empty(),
    };
    let ae: Seq<SpecValidationError> = match res {
        crate::traversal::SpecFieldResolution::Found(fd) => spec_known_owner_argument_errors(
            schema,
            f.arguments@,
            fd.arguments_definition@,
            true,
            f.name.value@,
            f.span,
        ),
        crate::traversal::SpecFieldResolution::Meta => spec_known_owner_argument_errors(
            schema,
            f.arguments@,
            Seq::empty(),
            true,
            f.name.value@,
            f.span,
        ),
        _ => spec_argument_uniqueness_errors(f.arguments@, 0),
    };
    let de = spec_directive_site_errors(schema, f.directives@, DirectiveLocation::Field);
    let sub: Seq<SpecValidationError> = match f.selection_set {
        Some(ss) => spec_walk_selections(
            doc,
            schema,
            ss.selections@,
            0,
            crate::traversal::spec_field_child_scope(schema, res),
        ),
        None => Seq::empty(),
    };
    assert(spec_walk_selection(doc, schema, Selection::Field(f), scope) == re + le + ae + de
        + sub);
    if re.len() > 0 {
        lemma_sel_nonsyn_single(re[0], k);
        assert(re =~= seq![re[0]]);
    }
    if le.len() > 0 {
        lemma_sel_nonsyn_single(le[0], k);
        assert(le =~= seq![le[0]]);
    }
    match res {
        crate::traversal::SpecFieldResolution::Found(fd) => {
            lemma_sel_known_owner(
                schema,
                f.arguments@,
                fd.arguments_definition@,
                true,
                f.name.value@,
                f.span,
                k,
            );
        },
        crate::traversal::SpecFieldResolution::Meta => {
            lemma_sel_known_owner(
                schema,
                f.arguments@,
                Seq::empty(),
                true,
                f.name.value@,
                f.span,
                k,
            );
        },
        _ => {},
    }
    lemma_select_add(re + le + ae + de, sub, k, 0);
    lemma_select_add(re + le + ae, de, k, 0);
    lemma_select_add(re + le, ae, k, 0);
    lemma_select_add(re, le, k, 0);
    assert(spec_select_rule(re, k, 0) == Seq::<SpecValidationError>::empty());
    assert(spec_select_rule(le, k, 0) == Seq::<SpecValidationError>::empty());
    assert(Seq::<SpecValidationError>::empty() + Seq::<SpecValidationError>::empty() =~= Seq::<
        SpecValidationError,
    >::empty());
    assert(Seq::<SpecValidationError>::empty() + spec_select_rule(
        spec_argument_uniqueness_errors(f.arguments@, 0),
        k,
        0,
    ) =~= spec_select_rule(spec_argument_uniqueness_errors(f.arguments@, 0), k, 0));
}

/// For an inline fragment, the condition checks select to nothing under a
/// syntactic kind.
proof fn lemma_sel_walk_inline_parts(
    doc: ExecutableDocument,
    schema: SchemaDefinition,
    inf: crate::executable::InlineFragment,
    scope: Option<TypeDefinition>,
    k: int,
)
    requires
        spec_is_pure_syntactic_rule(k),
    ensures
        spec_select_rule(
            spec_walk_selection(doc, schema, Selection::InlineFragment(inf), scope),
            k,
            0,
        ) == spec_select_rule(
            spec_directive_site_errors(schema, inf.directives@, DirectiveLocation::InlineFragment),
            k,
            0,
        ) + spec_select_rule(
            spec_walk_selections(
                doc,
                schema,
                inf.selection_set.selections@,
                0,
                crate::traversal::spec_inline_scope(schema, scope, inf.type_condition),
            ),
            k,
            0,
        ),
{
    let ce: Seq<SpecValidationError> = match inf.type_condition {
        Some(c) => match schema.spec_get_type(c.value@) {
            Some(t) => {
                if !t.spec_is_composite() {
                    seq![
                        SpecValidationError::InlineFragmentTargetTypeNotComposite {
                            target_type_name: c.value@,
                            span: inf.span,
                        },
                    ]
                } else {
                    Seq::empty()
                }
            },
            None => Seq::empty(),
        },
        None => Seq::empty(),
    };
    let pe: Seq<SpecValidationError> = match inf.type_condition {
        Some(c) => crate::traversal::spec_spread_possible_errors(schema, scope, c.value@, inf.span),
        None => Seq::empty(),
    };
    let de = spec_directive_site_errors(schema, inf.directives@, DirectiveLocation::InlineFragment);
    let sub = spec_walk_selections(
        doc,
        schema,
        inf.selection_set.selections@,
        0,
        crate::traversal::spec_inline_scope(schema, scope, inf.type_condition),
    );
    assert(spec_walk_selection(doc, schema, Selection::InlineFragment(inf), scope) == ce + pe + de
        + sub);
    if ce.len() > 0 {
        lemma_sel_nonsyn_single(ce[0], k);
        assert(ce =~= seq![ce[0]]);
    }
    match inf.type_condition {
        Some(c) => {
            lemma_sel_spread_possible(schema, scope, c.value@, inf.span, k);
        },
        None => {},
    }
    lemma_select_add(ce + pe + de, sub, k, 0);
    lemma_select_add(ce + pe, de, k, 0);
    lemma_select_add(ce, pe, k, 0);
    assert(spec_select_rule(ce, k, 0) == Seq::<SpecValidationError>::empty());
    assert(spec_select_rule(pe, k, 0) == Seq::<SpecValidationError>::empty());
    assert(Seq::<SpecValidationError>::empty() + Seq::<SpecValidationError>::empty() =~= Seq::<
        SpecValidationError,
    >::empty());
    assert(Seq::<SpecValidationError>::empty() + spec_select_rule(de, k, 0) =~= spec_select_rule(
        de,
        k,
        0,
    ));
}

proof fn lemma_sel_walk_selections_eq(
    doc: ExecutableDocument,
    s1: SchemaDefinition,
    s2: SchemaDefinition,
    sels: Seq<Selection>,
    i: int,
    sc1: Option<TypeDefinition>,
    sc2: Option<TypeDefinition>,
    k: int,
)
    requires
        spec_is_pure_syntactic_rule(k),
    ensures
        spec_select_rule(spec_walk_selections(doc, s1, sels, i, sc1), k, 0) == spec_select_rule(
            spec_walk_selections(doc, s2, sels, i, sc2),
            k,
            0,
        ),
    decreases sels, sels.len() - i,
{
    if !(i < 0 || i >= sels.len()) {
        lemma_sel_walk_selection_eq(doc, s1, s2, sels[i], sc1, sc2, k);
        lemma_sel_walk_selections_eq(doc, s1, s2, sels, i + 1, sc1, sc2, k);
        lemma_select_add(
            spec_walk_selection(doc, s1, sels[i], sc1),
            spec_walk_selections(doc, s1, sels, i + 1, sc1),
            k,
            0,
        );
        lemma_select_add(
            spec_walk_selection(doc, s2, sels[i], sc2),
            spec_walk_selections(doc, s2, sels, i + 1, sc2),
            k,
            0,
        );
    }
}

proof fn lemma_sel_walk_operation_eq(
    doc: ExecutableDocument,
    s1: SchemaDefinition,
    s2: SchemaDefinition,
    op: crate::executable::OperationDefinition,
    k: int,
)
    requires
        spec_is_pure_syntactic_rule(k),
    ensures
        spec_select_rule(spec_walk_operation(doc, s1, op), k, 0) == spec_select_rule(
            spec_walk_operation(doc, s2, op),
            k,
            0,
        ),
{
    let vars = op.spec_variable_definitions();
    let location = spec_operation_directive_location(op.spec_operation_type());
    let dirs = spec_operation_directives(op);
    lemma_sel_variable_defaults(s1, vars, 0, k);
    lemma_sel_variable_defaults(s2, vars, 0, k);
    lemma_sel_dirsite_eq(s1, s2, dirs, location, k);
    lemma_sel_walk_selections_eq(
        doc,
        s1,
        s2,
        op.spec_selection_set().selections@,
        0,
        crate::traversal::spec_operation_scope(s1, op),
        crate::traversal::spec_operation_scope(s2, op),
        k,
    );
    lemma_select_add(
        spec_variable_default_errors(s1, vars, 0) + spec_directive_site_errors(
            s1,
            dirs,
            location,
        ),
        spec_walk_selections(
            doc,
            s1,
            op.spec_selection_set().selections@,
            0,
            crate::traversal::spec_operation_scope(s1, op),
        ),
        k,
        0,
    );
    lemma_select_add(
        spec_variable_default_errors(s1, vars, 0),
        spec_directive_site_errors(s1, dirs, location),
        k,
        0,
    );
    lemma_select_add(
        spec_variable_default_errors(s2, vars, 0) + spec_directive_site_errors(
            s2,
            dirs,
            location,
        ),
        spec_walk_selections(
            doc,
            s2,
            op.spec_selection_set().selections@,
            0,
            crate::traversal::spec_operation_scope(s2, op),
        ),
        k,
        0,
    );
    lemma_select_add(
        spec_variable_default_errors(s2, vars, 0),
        spec_directive_site_errors(s2, dirs, location),
        k,
        0,
    );
}

proof fn lemma_sel_walk_operations_eq(
    doc: ExecutableDocument,
    s1: SchemaDefinition,
    s2: SchemaDefinition,
    i: int,
    k: int,
)
    requires
        spec_is_pure_syntactic_rule(k),
    ensures
        spec_select_rule(spec_walk_operations(doc, s1, i), k, 0) == spec_select_rule(
            spec_walk_operations(doc, s2, i),
            k,
            0,
        ),
    decreases doc.operation_definitions@.len() - i,
{
    if !(i < 0 || i >= doc.operation_definitions@.len()) {
        lemma_sel_walk_operation_eq(doc, s1, s2, doc.operation_definitions@[i], k);
        lemma_sel_walk_operations_eq(doc, s1, s2, i + 1, k);
        lemma_select_add(
            spec_walk_operation(doc, s1, doc.operation_definitions@[i]),
            spec_walk_operations(doc, s1, i + 1),
            k,
            0,
        );
        lemma_select_add(
            spec_walk_operation(doc, s2, doc.operation_definitions@[i]),
            spec_walk_operations(doc, s2, i + 1),
            k,
            0,
        );
    }
}

proof fn lemma_sel_walk_fragment_eq(
    doc: ExecutableDocument,
    s1: SchemaDefinition,
    s2: SchemaDefinition,
    fd: crate::executable::FragmentDefinition,
    k: int,
)
    requires
        spec_is_pure_syntactic_rule(k),
    ensures
        spec_select_rule(spec_walk_fragment(doc, s1, fd), k, 0) == spec_select_rule(
            spec_walk_fragment(doc, s2, fd),
            k,
            0,
        ),
{
    lemma_sel_walk_fragment_parts(doc, s1, fd, k);
    lemma_sel_walk_fragment_parts(doc, s2, fd, k);
    lemma_sel_dirsite_eq(s1, s2, fd.directives@, DirectiveLocation::FragmentDefinition, k);
    lemma_sel_walk_selections_eq(
        doc,
        s1,
        s2,
        fd.selection_set.selections@,
        0,
        crate::traversal::spec_fragment_scope(s1, fd),
        crate::traversal::spec_fragment_scope(s2, fd),
        k,
    );
}

proof fn lemma_sel_walk_fragment_parts(
    doc: ExecutableDocument,
    schema: SchemaDefinition,
    fd: crate::executable::FragmentDefinition,
    k: int,
)
    requires
        spec_is_pure_syntactic_rule(k),
    ensures
        spec_select_rule(spec_walk_fragment(doc, schema, fd), k, 0) == spec_select_rule(
            spec_directive_site_errors(
                schema,
                fd.directives@,
                DirectiveLocation::FragmentDefinition,
            ),
            k,
            0,
        ) + spec_select_rule(
            spec_walk_selections(
                doc,
                schema,
                fd.selection_set.selections@,
                0,
                crate::traversal::spec_fragment_scope(schema, fd),
            ),
            k,
            0,
        ),
{
    let ce: Seq<SpecValidationError> = match schema.spec_get_type(fd.type_condition.value@) {
        Some(td) => {
            if !td.spec_is_composite() {
                seq![
                    SpecValidationError::FragmentDefinitionTargetTypeNotComposite {
                        fragment_name: fd.name.value@,
                        target_type_name: fd.type_condition.value@,
                        span: fd.span,
                    },
                ]
            } else {
                Seq::empty()
            }
        },
        None => Seq::empty(),
    };
    let de = spec_directive_site_errors(schema, fd.directives@, DirectiveLocation::FragmentDefinition);
    let sub = spec_walk_selections(
        doc,
        schema,
        fd.selection_set.selections@,
        0,
        crate::traversal::spec_fragment_scope(schema, fd),
    );
    assert(spec_walk_fragment(doc, schema, fd) == ce + de + sub);
    if ce.len() > 0 {
        lemma_sel_nonsyn_single(ce[0], k);
        assert(ce =~= seq![ce[0]]);
    }
    lemma_select_add(ce + de, sub, k, 0);
    lemma_select_add(ce, de, k, 0);
    assert(spec_select_rule(ce, k, 0) == Seq::<SpecValidationError>::empty());
    assert(Seq::<SpecValidationError>::empty() + spec_select_rule(de, k, 0) =~= spec_select_rule(
        de,
        k,
        0,
    ));
}

proof fn lemma_sel_walk_fragments_eq(
    doc: ExecutableDocument,
    s1: SchemaDefinition,
    s2: SchemaDefinition,
    i: int,
    k: int,
)
    requires
        spec_is_pure_syntactic_rule(k),
    ensures
        spec_select_rule(spec_walk_fragments(doc, s1, i), k, 0) == spec_select_rule(
            spec_walk_fragments(doc, s2, i),
            k,
            0,
        ),
    decreases doc.fragment_definitions@.len() - i,
{
    if !(i < 0 || i >= doc.fragment_definitions@.len()) {
        lemma_sel_walk_fragment_eq(doc, s1, s2, doc.fragment_definitions@[i], k);
        lemma_sel_walk_fragments_eq(doc, s1, s2, i + 1, k);
        lemma_select_add(
            spec_walk_fragment(doc, s1, doc.fragment_definitions@[i]),
            spec_walk_fragments(doc, s1, i + 1),
            k,
            0,
        );
        lemma_select_add(
            spec_walk_fragment(doc, s2, doc.fragment_definitions@[i]),
            spec_walk_fragments(doc, s2, i + 1),
            k,
            0,
        );
    }
}

proof fn lemma_sel_document_walk_eq(
    doc: ExecutableDocument,
    s1: SchemaDefinition,
    s2: SchemaDefinition,
    k: int,
)
    requires
        spec_is_pure_syntactic_rule(k),
    ensures
        spec_select_rule(spec_document_walk(doc, s1), k, 0) == spec_select_rule(
            spec_document_walk(doc, s2),
            k,
            0,
        ),
{
    lemma_sel_walk_operations_eq(doc, s1, s2, 0, k);
    lemma_sel_walk_fragments_eq(doc, s1, s2, 0, k);
    lemma_select_add(spec_walk_operations(doc, s1, 0), spec_walk_fragments(doc, s1, 0), k, 0);
    lemma_select_add(spec_walk_operations(doc, s2, 0), spec_walk_fragments(doc, s2, 0), k, 0);
}

proof fn lemma_sel_pair_row(
    schema: SchemaDefinition,
    entries: Seq<crate::merging::SpecFieldEntry>,
    key: Seq<char>,
    p: int,
    q: int,
    k: int,
)
    requires
        spec_is_pure_syntactic_rule(k),
    ensures
        spec_select_rule(crate::merging::spec_pair_row_errors(schema, entries, key, p, q), k, 0)
            == Seq::<SpecValidationError>::empty(),
    decreases entries.len() - q,
{
    if !(q < 0 || q >= entries.len() || p < 0 || p >= entries.len()) {
        lemma_sel_pair_row(schema, entries, key, p, q + 1, k);
        let rest = crate::merging::spec_pair_row_errors(schema, entries, key, p, q + 1);
        if entries[q].field.spec_response_key() == key && !crate::merging::spec_entries_can_merge(
            schema,
            entries[p],
            entries[q],
        ) {
            let e = SpecValidationError::FieldSelectionsDoNotMerge {
                response_key: key,
                span: entries[p].field.span,
                other_span: entries[q].field.span,
            };
            lemma_select_add(seq![e], rest, k, 0);
            lemma_sel_nonsyn_single(e, k);
            assert(Seq::<SpecValidationError>::empty() + Seq::<SpecValidationError>::empty()
                =~= Seq::<SpecValidationError>::empty());
        }
    }
}

proof fn lemma_sel_group_pair(
    schema: SchemaDefinition,
    entries: Seq<crate::merging::SpecFieldEntry>,
    key: Seq<char>,
    p: int,
    k: int,
)
    requires
        spec_is_pure_syntactic_rule(k),
    ensures
        spec_select_rule(crate::merging::spec_group_pair_errors(schema, entries, key, p), k, 0)
            == Seq::<SpecValidationError>::empty(),
    decreases entries.len() - p,
{
    if !(p < 0 || p >= entries.len()) {
        lemma_sel_group_pair(schema, entries, key, p + 1, k);
        if entries[p].field.spec_response_key() == key {
            lemma_sel_pair_row(schema, entries, key, p, p + 1, k);
            lemma_select_add(
                crate::merging::spec_pair_row_errors(schema, entries, key, p, p + 1),
                crate::merging::spec_group_pair_errors(schema, entries, key, p + 1),
                k,
                0,
            );
            assert(Seq::<SpecValidationError>::empty() + Seq::<SpecValidationError>::empty()
                =~= Seq::<SpecValidationError>::empty());
        }
    }
}

proof fn lemma_sel_merging_level(
    doc: ExecutableDocument,
    schema: SchemaDefinition,
    entries: Seq<crate::merging::SpecFieldEntry>,
    i: int,
    fuel: nat,
    k: int,
)
    requires
        spec_is_pure_syntactic_rule(k),
    ensures
        spec_select_rule(crate::merging::spec_merging_level(doc, schema, entries, i, fuel), k, 0)
            == Seq::<SpecValidationError>::empty(),
    decreases fuel, entries.len() - i,
{
    if !(i < 0 || i >= entries.len()) {
        let key = entries[i].field.spec_response_key();
        lemma_sel_merging_level(doc, schema, entries, i + 1, fuel, k);
        if crate::merging::spec_first_entry_index(entries, key, 0) == i {
            let pair_errors = crate::merging::spec_group_pair_errors(schema, entries, key, 0);
            let deeper: Seq<SpecValidationError> = if fuel == 0 {
                Seq::empty()
            } else {
                crate::merging::spec_merging_level(
                    doc,
                    schema,
                    crate::merging::spec_group_child_entries(
                        doc,
                        schema,
                        entries,
                        key,
                        0,
                        (fuel - 1) as nat,
                    ),
                    0,
                    (fuel - 1) as nat,
                )
            };
            lemma_sel_group_pair(schema, entries, key, 0, k);
            if fuel > 0 {
                lemma_sel_merging_level(
                    doc,
                    schema,
                    crate::merging::spec_group_child_entries(
                        doc,
                        schema,
                        entries,
                        key,
                        0,
                        (fuel - 1) as nat,
                    ),
                    0,
                    (fuel - 1) as nat,
                    k,
                );
            }
            lemma_select_add(
                pair_errors + deeper,
                crate::merging::spec_merging_level(doc, schema, entries, i + 1, fuel),
                k,
                0,
            );
            lemma_select_add(pair_errors, deeper, k, 0);
            assert(Seq::<SpecValidationError>::empty() + Seq::<SpecValidationError>::empty()
                =~= Seq::<SpecValidationError>::empty());
        }
    }
}

proof fn lemma_sel_operation_merging(
    doc: ExecutableDocument,
    schema: SchemaDefinition,
    i: int,
    k: int,
)
    requires
        spec_is_pure_syntactic_rule(k),
    ensures
        spec_select_rule(crate::merging::spec_operation_merging_errors(doc, schema, i), k, 0)
            == Seq::<SpecValidationError>::empty(),
    decreases doc.operation_definitions@.len() - i,
{
    if !(i < 0 || i >= doc.operation_definitions@.len()) {
        let op = doc.operation_definitions@[i];
        lemma_sel_operation_merging(doc, schema, i + 1, k);
        let head = crate::merging::spec_root_merging_errors(
            doc,
            schema,
            op.spec_selection_set().selections@,
            crate::traversal::spec_operation_scope(schema, op),
        );
        let fuel = crate::merging::spec_document_fuel(doc) as nat;
        lemma_sel_merging_level(
            doc,
            schema,
            crate::merging::spec_expand(
                doc,
                schema,
                op.spec_selection_set().selections@,
                0,
                crate::traversal::spec_operation_scope(schema, op),
                Seq::empty(),
                fuel,
            ),
            0,
            fuel,
            k,
        );
        lemma_select_add(
            head,
            crate::merging::spec_operation_merging_errors(doc, schema, i + 1),
            k,
            0,
        );
        assert(Seq::<SpecValidationError>::empty() + Seq::<SpecValidationError>::empty()
            =~= Seq::<SpecValidationError>::empty());
    }
}

proof fn lemma_sel_fragment_merging(
    doc: ExecutableDocument,
    schema: SchemaDefinition,
    i: int,
    k: int,
)
    requires
        spec_is_pure_syntactic_rule(k),
    ensures
        spec_select_rule(crate::merging::spec_fragment_merging_errors(doc, schema, i), k, 0)
            == Seq::<SpecValidationError>::empty(),
    decreases doc.fragment_definitions@.len() - i,
{
    if !(i < 0 || i >= doc.fragment_definitions@.len()) {
        let fd = doc.fragment_definitions@[i];
        lemma_sel_fragment_merging(doc, schema, i + 1, k);
        let head = crate::merging::spec_root_merging_errors(
            doc,
            schema,
            fd.selection_set.selections@,
            crate::traversal::spec_fragment_scope(schema, fd),
        );
        let fuel = crate::merging::spec_document_fuel(doc) as nat;
        lemma_sel_merging_level(
            doc,
            schema,
            crate::merging::spec_expand(
                doc,
                schema,
                fd.selection_set.selections@,
                0,
                crate::traversal::spec_fragment_scope(schema, fd),
                Seq::empty(),
                fuel,
            ),
            0,
            fuel,
            k,
        );
        lemma_select_add(
            head,
            crate::merging::spec_fragment_merging_errors(doc, schema, i + 1),
            k,
            0,
        );
        assert(Seq::<SpecValidationError>::empty() + Seq::<SpecValidationError>::empty()
            =~= Seq::<SpecValidationError>::empty());
    }
}

proof fn lemma_sel_field_merging(doc: ExecutableDocument, schema: SchemaDefinition, k: int)
    requires
        spec_is_pure_syntactic_rule(k),
    ensures
        spec_select_rule(crate::merging::spec_field_merging_errors(doc, schema), k, 0) == Seq::<
            SpecValidationError,
        >::empty(),
{
    lemma_sel_operation_merging(doc, schema, 0, k);
    lemma_sel_fragment_merging(doc, schema, 0, k);
    lemma_select_add(
        crate::merging::spec_operation_merging_errors(doc, schema, 0),
        crate::merging::spec_fragment_merging_errors(doc, schema, 0),
        k,
        0,
    );
    assert(Seq::<SpecValidationError>::empty() + Seq::<SpecValidationError>::empty() =~= Seq::<
        SpecValidationError,
    >::empty());
}

proof fn lemma_sel_var_input_types(
    schema: SchemaDefinition,
    vars: Seq<VariableDefinition>,
    i: int,
    k: int,
)
    requires
        spec_is_pure_syntactic_rule(k),
    ensures
        spec_select_rule(spec_variable_input_type_errors(schema, vars, i), k, 0) == Seq::<
            SpecValidationError,
        >::empty(),
    decreases vars.len() - i,
{
    if !(i < 0 || i >= vars.len()) {
        lemma_sel_var_input_types(schema, vars, i + 1, k);
        let rest = spec_variable_input_type_errors(schema, vars, i + 1);
        match schema.spec_get_type(vars[i].variable_type@.base_name()) {
            Some(td) => {
                if !td.spec_is_input() {
                    let e = SpecValidationError::VariableTypeNotInput {
                        variable_name: vars[i].variable.value@,
                        variable_type_name: vars[i].variable_type@.display(),
                        span: vars[i].variable_type.spec_span(),
                    };
                    lemma_select_add(seq![e], rest, k, 0);
                    lemma_sel_nonsyn_single(e, k);
                    assert(Seq::<SpecValidationError>::empty() + Seq::<
                        SpecValidationError,
                    >::empty() =~= Seq::<SpecValidationError>::empty());
                }
            },
            None => {},
        }
    }
}

proof fn lemma_sel_undefined_vars(
    vars: Seq<VariableDefinition>,
    usages: Seq<crate::variables::SpecVariableUsage>,
    i: int,
    k: int,
)
    requires
        spec_is_pure_syntactic_rule(k),
    ensures
        spec_select_rule(spec_undefined_variable_errors(vars, usages, i), k, 0) == Seq::<
            SpecValidationError,
        >::empty(),
    decreases usages.len() - i,
{
    if !(i < 0 || i >= usages.len()) {
        lemma_sel_undefined_vars(vars, usages, i + 1, k);
        let rest = spec_undefined_variable_errors(vars, usages, i + 1);
        let name = usages[i].variable_name;
        if crate::variables::spec_first_usage_index(usages, name, 0) == i
            && crate::variables::spec_find_variable(vars, name, 0) is None {
            let e = SpecValidationError::VariableUndefined {
                variable_name: name,
                span: usages[i].span,
            };
            lemma_select_add(seq![e], rest, k, 0);
            lemma_sel_nonsyn_single(e, k);
            assert(Seq::<SpecValidationError>::empty() + Seq::<SpecValidationError>::empty()
                =~= Seq::<SpecValidationError>::empty());
        }
    }
}

proof fn lemma_sel_unused_vars(
    vars: Seq<VariableDefinition>,
    i: int,
    usages: Seq<crate::variables::SpecVariableUsage>,
    k: int,
)
    requires
        spec_is_pure_syntactic_rule(k),
    ensures
        spec_select_rule(spec_unused_variable_errors(vars, i, usages), k, 0) == Seq::<
            SpecValidationError,
        >::empty(),
    decreases vars.len() - i,
{
    if !(i < 0 || i >= vars.len()) {
        lemma_sel_unused_vars(vars, i + 1, usages, k);
        let rest = spec_unused_variable_errors(vars, i + 1, usages);
        if crate::variables::spec_first_usage_index(usages, vars[i].variable.value@, 0)
            == usages.len() {
            let e = SpecValidationError::VariableUnused {
                variable_name: vars[i].variable.value@,
                span: vars[i].variable.span,
            };
            lemma_select_add(seq![e], rest, k, 0);
            lemma_sel_nonsyn_single(e, k);
            assert(Seq::<SpecValidationError>::empty() + Seq::<SpecValidationError>::empty()
                =~= Seq::<SpecValidationError>::empty());
        }
    }
}

proof fn lemma_sel_allowed_usages(
    vars: Seq<VariableDefinition>,
    usages: Seq<crate::variables::SpecVariableUsage>,
    i: int,
    k: int,
)
    requires
        spec_is_pure_syntactic_rule(k),
    ensures
        spec_select_rule(spec_usage_allowed_errors(vars, usages, i), k, 0) == Seq::<
            SpecValidationError,
        >::empty(),
    decreases usages.len() - i,
{
    if !(i < 0 || i >= usages.len()) {
        lemma_sel_allowed_usages(vars, usages, i + 1, k);
        let rest = spec_usage_allowed_errors(vars, usages, i + 1);
        match usages[i].expected_type {
            Some(location_type) => match crate::variables::spec_find_variable(
                vars,
                usages[i].variable_name,
                0,
            ) {
                Some(vd) => {
                    let has_default = usages[i].location_has_default
                        || crate::variables::spec_has_non_null_default(vd);
                    if !crate::types::spec_variable_usage_allowed(
                        vd.variable_type@,
                        location_type,
                        has_default,
                    ) {
                        let e = SpecValidationError::InvalidVariableUsage {
                            variable_name: usages[i].variable_name,
                            variable_type_name: vd.variable_type@.display(),
                            location_type_name: location_type.display(),
                            span: usages[i].span,
                        };
                        lemma_select_add(seq![e], rest, k, 0);
                        lemma_sel_nonsyn_single(e, k);
                        assert(Seq::<SpecValidationError>::empty() + Seq::<
                            SpecValidationError,
                        >::empty() =~= Seq::<SpecValidationError>::empty());
                    }
                },
                None => {},
            },
            None => {},
        }
    }
}

proof fn lemma_sel_operation_vars_eq(
    doc: ExecutableDocument,
    s1: SchemaDefinition,
    s2: SchemaDefinition,
    op: crate::executable::OperationDefinition,
    k: int,
)
    requires
        spec_is_pure_syntactic_rule(k),
    ensures
        spec_select_rule(spec_operation_variable_errors(doc, s1, op), k, 0) == spec_select_rule(
            spec_operation_variable_errors(doc, s2, op),
            k,
            0,
        ),
{
    let vars = op.spec_variable_definitions();
    lemma_sel_operation_vars_one(doc, s1, op, k);
    lemma_sel_operation_vars_one(doc, s2, op, k);
}

/// For any schema, the kind-`k` errors of the variable rules for one
/// operation reduce to the variable-uniqueness errors when `k` is purely
/// syntactic.
proof fn lemma_sel_operation_vars_one(
    doc: ExecutableDocument,
    schema: SchemaDefinition,
    op: crate::executable::OperationDefinition,
    k: int,
)
    requires
        spec_is_pure_syntactic_rule(k),
    ensures
        spec_select_rule(spec_operation_variable_errors(doc, schema, op), k, 0)
            == spec_select_rule(
            spec_variable_uniqueness_errors(op.spec_variable_definitions(), 0),
            k,
            0,
        ),
{
    let vars = op.spec_variable_definitions();
    let usages = crate::variables::spec_operation_usages(doc, schema, op);
    let uniq = spec_variable_uniqueness_errors(vars, 0);
    let input_part = spec_variable_input_type_errors(schema, vars, 0);
    let undefined_part = spec_undefined_variable_errors(vars, usages, 0);
    let unused_part = spec_unused_variable_errors(vars, 0, usages);
    let allowed_part = spec_usage_allowed_errors(vars, usages, 0);
    lemma_select_add(uniq + input_part + undefined_part + unused_part, allowed_part, k, 0);
    lemma_select_add(uniq + input_part + undefined_part, unused_part, k, 0);
    lemma_select_add(uniq + input_part, undefined_part, k, 0);
    lemma_select_add(uniq, input_part, k, 0);
    lemma_sel_var_input_types(schema, vars, 0, k);
    lemma_sel_undefined_vars(vars, usages, 0, k);
    lemma_sel_unused_vars(vars, 0, usages, k);
    lemma_sel_allowed_usages(vars, usages, 0, k);
    assert(spec_select_rule(uniq, k, 0) + Seq::<SpecValidationError>::empty() + Seq::<
        SpecValidationError,
    >::empty() + Seq::<SpecValidationError>::empty() + Seq::<SpecValidationError>::empty()
        =~= spec_select_rule(uniq, k, 0));
}

proof fn lemma_sel_vars_rules_eq(
    doc: ExecutableDocument,
    s1: SchemaDefinition,
    s2: SchemaDefinition,
    i: int,
    k: int,
)
    requires
        spec_is_pure_syntactic_rule(k),
    ensures
        spec_select_rule(spec_variables_rules_errors(doc, s1, i), k, 0) == spec_select_rule(
            spec_variables_rules_errors(doc, s2, i),
            k,
            0,
        ),
    decreases doc.operation_definitions@.len() - i,
{
    if !(i < 0 || i >= doc.operation_definitions@.len()) {
        lemma_sel_operation_vars_eq(doc, s1, s2, doc.operation_definitions@[i], k);
        lemma_sel_vars_rules_eq(doc, s1, s2, i + 1, k);
        lemma_select_add(
            spec_operation_variable_errors(doc, s1, doc.operation_definitions@[i]),
            spec_variables_rules_errors(doc, s1, i + 1),
            k,
            0,
        );
        lemma_select_add(
            spec_operation_variable_errors(doc, s2, doc.operation_definitions@[i]),
            spec_variables_rules_errors(doc, s2, i + 1),
            k,
            0,
        );
    }
}

proof fn lemma_sel_subscription(doc: ExecutableDocument, schema: SchemaDefinition, i: int, k: int)
    requires
        spec_is_pure_syntactic_rule(k),
    ensures
        spec_select_rule(
            crate::document_rules::spec_subscription_root_errors(doc, schema, i),
            k,
            0,
        ) == Seq::<SpecValidationError>::empty(),
    decreases doc.operation_definitions@.len() - i,
{
    if !(i < 0 || i >= doc.operation_definitions@.len()) {
        let op = doc.operation_definitions@[i];
        lemma_sel_subscription(doc, schema, i + 1, k);
        let rest = crate::document_rules::spec_subscription_root_errors(doc, schema, i + 1);
        if op.spec_operation_type() == crate::executable::OperationType::Subscription {
            let entries = crate::merging::spec_expand(
                doc,
                schema,
                op.spec_selection_set().selections@,
                0,
                crate::traversal::spec_operation_scope(schema, op),
                Seq::empty(),
                crate::merging::spec_document_fuel(doc) as nat,
            );
            if crate::document_rules::spec_distinct_key_count(entries, 0) != 1 {
                let e = SpecValidationError::SubscriptionRootNotSingleField {
                    span: op.spec_span(),
                };
                lemma_select_add(seq![e], rest, k, 0);
                lemma_sel_nonsyn_single(e, k);
                assert(Seq::<SpecValidationError>::empty() + Seq::<
                    SpecValidationError,
                >::empty() =~= Seq::<SpecValidationError>::empty());
            }
        }
    }
}

proof fn lemma_sel_doc_rules_eq(
    doc: ExecutableDocument,
    s1: SchemaDefinition,
    s2: SchemaDefinition,
    k: int,
)
    requires
        spec_is_pure_syntactic_rule(k),
    ensures
        spec_select_rule(crate::document_rules::spec_document_rules_errors(doc, s1), k, 0)
            == spec_select_rule(crate::document_rules::spec_document_rules_errors(doc, s2), k, 0),
{
    let ed = crate::document_rules::spec_executable_definitions_errors(doc);
    let lone = crate::document_rules::spec_lone_anonymous_operation_errors(doc);
    let named = crate::document_rules::spec_named_operation_uniqueness_errors(
        doc.operation_definitions@,
        0,
    );
    let sub1 = crate::document_rules::spec_subscription_root_errors(doc, s1, 0);
    let sub2 = crate::document_rules::spec_subscription_root_errors(doc, s2, 0);
    lemma_sel_subscription(doc, s1, 0, k);
    lemma_sel_subscription(doc, s2, 0, k);
    lemma_select_add(ed + lone + named, sub1, k, 0);
    lemma_select_add(ed + lone + named, sub2, k, 0);
}

/// Replacing the schema never changes the errors of the purely syntactic
/// rules: the named-operation, argument, fragment-name and variable
/// uniqueness checks and the fragment-cycle check read only the document,
/// so their slice of the combined error stream is the same under any two
/// schemas — in particular under a superset schema that adds types or
/// fields.
pub proof fn lemma_syntactic_rules_schema_independent(
    doc: ExecutableDocument,
    s1: SchemaDefinition,
    s2: SchemaDefinition,
    k: int,
)
    requires
        spec_is_pure_syntactic_rule(k),
    ensures
        spec_select_rule(spec_all_errors(doc, s1), k, 0) == spec_select_rule(
            spec_all_errors(doc, s2),
            k,
            0,
        ),
{
    let d1 = crate::document_rules::spec_document_rules_errors(doc, s1);
    let d2 = crate::document_rules::spec_document_rules_errors(doc, s2);
    let w1 = spec_document_walk(doc, s1);
    let w2 = spec_document_walk(doc, s2);
    let m1 = crate::merging::spec_field_merging_errors(doc, s1);
    let m2 = crate::merging::spec_field_merging_errors(doc, s2);
    let fnames = crate::fragments::spec_fragment_name_uniqueness_errors(
        doc.fragment_definitions@,
        0,
    );
    let unused = crate::fragments::spec_fragments_must_be_used_errors(doc);
    let cycles = crate::fragments::spec_fragment_cycle_errors(doc);
    let v1 = spec_variables_rules_errors(doc, s1, 0);
    let v2 = spec_variables_rules_errors(doc, s2, 0);
    lemma_sel_doc_rules_eq(doc, s1, s2, k);
    lemma_sel_document_walk_eq(doc, s1, s2, k);
    lemma_sel_field_merging(doc, s1, k);
    lemma_sel_field_merging(doc, s2, k);
    lemma_sel_vars_rules_eq(doc, s1, s2, 0, k);
    lemma_select_add(d1 + w1 + m1 + fnames + unused + cycles, v1, k, 0);
    lemma_select_add(d1 + w1 + m1 + fnames + unused, cycles, k, 0);
    lemma_select_add(d1 + w1 + m1 + fnames, unused, k, 0);
    lemma_select_add(d1 + w1 + m1, fnames, k, 0);
    lemma_select_add(d1 + w1, m1, k, 0);
    lemma_select_add(d1, w1, k, 0);
    lemma_select_add(d2 + w2 + m2 + fnames + unused + cycles, v2, k, 0);
    lemma_select_add(d2 + w2 + m2 + fnames + unused, cycles, k, 0);
    lemma_select_add(d2 + w2 + m2 + fnames, unused, k, 0);
    lemma_select_add(d2 + w2 + m2, fnames, k, 0);
    lemma_select_add(d2 + w2, m2, k, 0);
    lemma_select_add(d2, w2, k, 0);
}

proof fn lemma_select_of_select(s: Seq<SpecValidationError>, j: int, k: int, i: int)
    requires
        0 <= i <= s.len(),
    ensures
        spec_select_rule(spec_select_rule(s, j, i), k, 0) == if j == k {
            spec_select_rule(s, j, i)
        } else {
            Seq::<SpecValidationError>::empty()
        },
    decreases s.len() - i,
{
    if i < s.len() {
        lemma_select_of_select(s, j, k, i + 1);
        if spec_rule_of(s[i]) == j {
            lemma_select_add(seq![s[i]], spec_select_rule(s, j, i + 1), k, 0);
            lemma_select_single(s[i], k);
            if j == k {
                assert(seq![s[i]] + spec_select_rule(spec_select_rule(s, j, i + 1), k, 0)
                    =~= seq![s[i]] + spec_select_rule(s, j, i + 1));
            } else {
                assert(Seq::<SpecValidationError>::empty() + Seq::<SpecValidationError>::empty()
                    =~= Seq::<SpecValidationError>::empty());
            }
        }
    }
}

proof fn lemma_select_of_ordered(s: Seq<SpecValidationError>, k: int, k0: int)
    requires
        0 <= k0,
    ensures
        spec_select_rule(spec_ordered_errors(s, k0), k, 0) == if k0 <= k < spec_rule_count() {
            spec_select_rule(s, k, 0)
        } else {
            Seq::<SpecValidationError>::empty()
        },
    decreases spec_rule_count() - k0,
{
    if k0 < spec_rule_count() {
        lemma_select_of_ordered(s, k, k0 + 1);
        lemma_select_add(spec_select_rule(s, k0, 0), spec_ordered_errors(s, k0 + 1), k, 0);
        lemma_select_of_select(s, k0, k, 0);
        if k0 == k {
            assert(spec_select_rule(s, k, 0) + Seq::<SpecValidationError>::empty()
                =~= spec_select_rule(s, k, 0));
        } else {
            assert(Seq::<SpecValidationError>::empty() + spec_select_rule(
                spec_ordered_errors(s, k0 + 1),
                k,
                0,
            ) =~= spec_select_rule(spec_ordered_errors(s, k0 + 1), k, 0));
        }
    }
}

/// The same law over the validator's final output: the errors of a purely
/// syntactic rule in the ordered error sequence do not depend on the
/// schema.
pub proof fn lemma_syntactic_output_schema_independent(
    doc: ExecutableDocument,
    s1: SchemaDefinition,
    s2: SchemaDefinition,
    k: int,
)
    requires
        spec_is_pure_syntactic_rule(k),
    ensures
        spec_select_rule(spec_validation_errors(doc, s1), k, 0) == spec_select_rule(
            spec_validation_errors(doc, s2),
            k,
            0,
        ),
{
    lemma_select_of_ordered(spec_all_errors(doc, s1), k, 0);
    lemma_select_of_ordered(spec_all_errors(doc, s2), k, 0);
    lemma_syntactic_rules_schema_independent(doc, s1, s2, k);
}

/// No two named operations share a name.
pub open spec fn spec_no_duplicate_operation_names(
    ops: Seq<crate::executable::OperationDefinition>,
) -> bool {
    forall|p: int, q: int|
        0 <= p < q < ops.len() ==> match (
            (#[trigger] ops[p]).spec_name(),
            (#[trigger] ops[q]).spec_name(),
        ) {
            (Some(a), Some(b)) => a.value@ != b.value@,
            _ => true,
        }
}

pub open spec fn spec_op_named(
    ops: Seq<crate::executable::OperationDefinition>,
    i: int,
    name: Seq<char>,
) -> bool {
    match ops[i].spec_name() {
        Some(n) => n.value@ == name,
        None => false,
    }
}

proof fn lemma_named_count_nonneg(
    ops: Seq<crate::executable::OperationDefinition>,
    name: Seq<char>,
    k: int,
)
    ensures
        crate::document_rules::spec_named_count(ops, name, k) >= 0,
    decreases ops.len() - k,
{
    if !(k < 0 || k >= ops.len()) {
        lemma_named_count_nonneg(ops, name, k + 1);
    }
}

proof fn lemma_named_count_at_least_one(
    ops: Seq<crate::executable::OperationDefinition>,
    name: Seq<char>,
    k: int,
    j: int,
)
    requires
        0 <= k <= j < ops.len(),
        spec_op_named(ops, j, name),
    ensures
        crate::document_rules::spec_named_count(ops, name, k) >= 1,
    decreases j - k,
{
    lemma_named_count_nonneg(ops, name, k + 1);
    if k < j {
        lemma_named_count_at_least_one(ops, name, k + 1, j);
    }
}

proof fn lemma_named_count_at_least_two(
    ops: Seq<crate::executable::OperationDefinition>,
    name: Seq<char>,
    k: int,
    i: int,
    j: int,
)
    requires
        0 <= k <= i < j < ops.len(),
        spec_op_named(ops, i, name),
        spec_op_named(ops, j, name),
    ensures
        crate::document_rules::spec_named_count(ops, name, k) >= 2,
    decreases i - k,
{
    if k == i {
        lemma_named_count_at_least_one(ops, name, k + 1, j);
    } else {
        lemma_named_count_at_least_two(ops, name, k + 1, i, j);
        lemma_named_count_nonneg(ops, name, k + 1);
    }
}

proof fn lemma_first_named_le(
    ops: Seq<crate::executable::OperationDefinition>,
    name: Seq<char>,
    k: int,
    i: int,
)
    requires
        0 <= k <= i < ops.len(),
        spec_op_named(ops, i, name),
    ensures
        k <= crate::document_rules::spec_first_named_index(ops, name, k) <= i,
        spec_op_named(ops, crate::document_rules::spec_first_named_index(ops, name, k), name),
    decreases i - k,
{
    if !spec_op_named(ops, k, name) {
        lemma_first_named_le(ops, name, k + 1, i);
    }
}

proof fn lemma_named_errors_nonempty(
    ops: Seq<crate::executable::OperationDefinition>,
    name: Seq<char>,
    k: int,
    f: int,
)
    requires
        0 <= k <= f < ops.len(),
        spec_op_named(ops, f, name),
        crate::document_rules::spec_first_named_index(ops, name, 0) == f,
        crate::document_rules::spec_named_count(ops, name, 0) > 1,
    ensures
        crate::document_rules::spec_named_operation_uniqueness_errors(ops, k).len() >= 1,
    decreases f - k,
{
    if k == f {
    } else {
        lemma_named_errors_nonempty(ops, name, k + 1, f);
    }
}

proof fn lemma_named_count_witnesses(
    ops: Seq<crate::executable::OperationDefinition>,
    name: Seq<char>,
    k: int,
)
    requires
        0 <= k,
        crate::document_rules::spec_named_count(ops, name, k) >= 2,
    ensures
        exists|p: int, q: int|
            k <= p < q < ops.len() && spec_op_named(ops, p, name) && spec_op_named(ops, q, name),
    decreases ops.len() - k,
{
    if k < ops.len() {
        if spec_op_named(ops, k, name) {
            lemma_named_count_one_witness(ops, name, k + 1);
            let j = choose|j: int|
                k + 1 <= j < ops.len() && spec_op_named(ops, j, name);
            assert(k <= k < j < ops.len() && spec_op_named(ops, k, name) && spec_op_named(
                ops,
                j,
                name,
            ));
        } else {
            lemma_named_count_witnesses(ops, name, k + 1);
        }
    }
}

proof fn lemma_named_count_one_witness(
    ops: Seq<crate::executable::OperationDefinition>,
    name: Seq<char>,
    k: int,
)
    requires
        0 <= k,
        crate::document_rules::spec_named_count(ops, name, k) >= 1,
    ensures
        exists|j: int| k <= j < ops.len() && spec_op_named(ops, j, name),
    decreases ops.len() - k,
{
    if k < ops.len() {
        if spec_op_named(ops, k, name) {
            assert(k <= k < ops.len() && spec_op_named(ops, k, name));
        } else {
            lemma_named_count_one_witness(ops, name, k + 1);
        }
    }
}

proof fn lemma_named_errors_empty(
    ops: Seq<crate::executable::OperationDefinition>,
    k: int,
)
    requires
        spec_no_duplicate_operation_names(ops),
    ensures
        crate::document_rules::spec_named_operation_uniqueness_errors(ops, k) == Seq::<
            SpecValidationError,
        >::empty(),
    decreases ops.len() - k,
{
    if !(k < 0 || k >= ops.len()) {
        lemma_named_errors_empty(ops, k + 1);
        match ops[k].spec_name() {
            Some(n) => {
                if crate::document_rules::spec_named_count(ops, n.value@, 0) > 1 {
                    lemma_named_count_witnesses(ops, n.value@, 0);
                    let (p, q) = choose|p: int, q: int|
                        0 <= p < q < ops.len() && spec_op_named(ops, p, n.value@)
                            && spec_op_named(ops, q, n.value@);
                    assert(false);
                }
            },
            None => {},
        }
    }
}

/// The semantic content of `NamedOperationUniqueness`: the rule is silent
/// exactly when no two named operations share a name.
pub proof fn lemma_operation_name_uniqueness_characterized(
    ops: Seq<crate::executable::OperationDefinition>,
)
    ensures
        crate::document_rules::spec_named_operation_uniqueness_errors(ops, 0) == Seq::<
            SpecValidationError,
        >::empty() <==> spec_no_duplicate_operation_names(ops),
{
    if spec_no_duplicate_operation_names(ops) {
        lemma_named_errors_empty(ops, 0);
    }
    if !spec_no_duplicate_operation_names(ops) {
        let (p, q) = choose|p: int, q: int|
            0 <= p < q < ops.len() && !match (
                (#[trigger] ops[p]).spec_name(),
                (#[trigger] ops[q]).spec_name(),
            ) {
                (Some(a), Some(b)) => a.value@ != b.value@,
                _ => true,
            };
        let name = ops[p].spec_name()->Some_0.value@;
        assert(spec_op_named(ops, p, name));
        assert(spec_op_named(ops, q, name));
        lemma_named_count_at_least_two(ops, name, 0, p, q);
        lemma_first_named_le(ops, name, 0, p);
        let f = crate::document_rules::spec_first_named_index(ops, name, 0);
        lemma_named_errors_nonempty(ops, name, 0, f);
    }
}

proof fn lemma_fragment_count_nonneg(frags: Seq<FragmentDefinition>, name: Seq<char>, k: int)
    ensures
        crate::fragments::spec_fragment_count(frags, name, k) >= 0,
    decreases frags.len() - k,
{
    if !(k < 0 || k >= frags.len()) {
        lemma_fragment_count_nonneg(frags, name, k + 1);
    }
}

proof fn lemma_fragment_count_at_least_one(
    frags: Seq<FragmentDefinition>,
    name: Seq<char>,
    k: int,
    j: int,
)
    requires
        0 <= k <= j < frags.len(),
        frags[j].name.value@ == name,
    ensures
        crate::fragments::spec_fragment_count(frags, name, k) >= 1,
    decreases j - k,
{
    lemma_fragment_count_nonneg(frags, name, k + 1);
    if k < j {
        lemma_fragment_count_at_least_one(frags, name, k + 1, j);
    }
}

proof fn lemma_fragment_count_at_least_two(
    frags: Seq<FragmentDefinition>,
    name: Seq<char>,
    k: int,
    i: int,
    j: int,
)
    requires
        0 <= k <= i < j < frags.len(),
        frags[i].name.value@ == name,
        frags[j].name.value@ == name,
    ensures
        crate::fragments::spec_fragment_count(frags, name, k) >= 2,
    decreases i - k,
{
    if k == i {
        lemma_fragment_count_at_least_one(frags, name, k + 1, j);
    } else {
        lemma_fragment_count_at_least_two(frags, name, k + 1, i, j);
        lemma_fragment_count_nonneg(frags, name, k + 1);
    }
}

proof fn lemma_first_fragment_le(
    frags: Seq<FragmentDefinition>,
    name: Seq<char>,
    k: int,
    i: int,
)
    requires
        0 <= k <= i < frags.len(),
        frags[i].name.value@ == name,
    ensures
        k <= crate::fragments::spec_first_fragment_index(frags, name, k) <= i,
        frags[crate::fragments::spec_first_fragment_index(frags, name, k)].name.value@ == name,
    decreases i - k,
{
    if frags[k].name.value@ != name {
        lemma_first_fragment_le(frags, name, k + 1, i);
    }
}

proof fn lemma_fragment_errors_nonempty(
    frags: Seq<FragmentDefinition>,
    name: Seq<char>,
    k: int,
    f: int,
)
    requires
        0 <= k <= f < frags.len(),
        frags[f].name.value@ == name,
        crate::fragments::spec_first_fragment_index(frags, name, 0) == f,
        crate::fragments::spec_fragment_count(frags, name, 0) > 1,
    ensures
        crate::fragments::spec_fragment_name_uniqueness_errors(frags, k).len() >= 1,
    decreases f - k,
{
    if k < f {
        lemma_fragment_errors_nonempty(frags, name, k + 1, f);
    }
}

proof fn lemma_fragment_count_one_witness(
    frags: Seq<FragmentDefinition>,
    name: Seq<char>,
    k: int,
)
    requires
        0 <= k,
        crate::fragments::spec_fragment_count(frags, name, k) >= 1,
    ensures
        exists|j: int| k <= j < frags.len() && (#[trigger] frags[j]).name.value@ == name,
    decreases frags.len() - k,
{
    if k < frags.len() {
        if frags[k].name.value@ == name {
            assert(k <= k < frags.len() && frags[k].name.value@ == name);
        } else {
            lemma_fragment_count_one_witness(frags, name, k + 1);
        }
    }
}

proof fn lemma_fragment_count_witnesses(
    frags: Seq<FragmentDefinition>,
    name: Seq<char>,
    k: int,
)
    requires
        0 <= k,
        crate::fragments::spec_fragment_count(frags, name, k) >= 2,
    ensures
        exists|p: int, q: int|
            k <= p < q < frags.len() && (#[trigger] frags[p]).name.value@ == name && (
            #[trigger] frags[q]).name.value@ == name,
    decreases frags.len() - k,
{
    if k < frags.len() {
        if frags[k].name.value@ == name {
            lemma_fragment_count_one_witness(frags, name, k + 1);
            let j = choose|j: int|
                k + 1 <= j < frags.len() && (#[trigger] frags[j]).name.value@ == name;
            assert(k <= k < j < frags.len() && frags[k].name.value@ == name
                && frags[j].name.value@ == name);
        } else {
            lemma_fragment_count_witnesses(frags, name, k + 1);
        }
    }
}

proof fn lemma_fragment_errors_empty(frags: Seq<FragmentDefinition>, k: int)
    requires
        spec_fragment_names_unique(frags),
    ensures
        crate::fragments::spec_fragment_name_uniqueness_errors(frags, k) == Seq::<
            SpecValidationError,
        >::empty(),
    decreases frags.len() - k,
{
    if !(k < 0 || k >= frags.len()) {
        lemma_fragment_errors_empty(frags, k + 1);
        let name = frags[k].name.value@;
        if crate::fragments::spec_fragment_count(frags, name, 0) > 1 {
            lemma_fragment_count_witnesses(frags, name, 0);
            assert(false);
        }
    }
}

/// The semantic content of `FragmentNameUniqueness`: the rule is silent
/// exactly when no two fragment definitions share a name.
pub proof fn lemma_fragment_name_uniqueness_characterized(frags: Seq<FragmentDefinition>)
    ensures
        crate::fragments::spec_fragment_name_uniqueness_errors(frags, 0) == Seq::<
            SpecValidationError,
        >::empty() <==> spec_fragment_names_unique(frags),
{
    if spec_fragment_names_unique(frags) {
        lemma_fragment_errors_empty(frags, 0);
    }
    if !spec_fragment_names_unique(frags) {
        let (p, q) = choose|p: int, q: int|
            0 <= p < q < frags.len() && (#[trigger] frags[p]).name.value@ == (
            #[trigger] frags[q]).name.value@;
        let name = frags[p].name.value@;
        lemma_fragment_count_at_least_two(frags, name, 0, p, q);
        lemma_first_fragment_le(frags, name, 0, p);
        let f = crate::fragments::spec_first_fragment_index(frags, name, 0);
        lemma_fragment_errors_nonempty(frags, name, 0, f);
    }
}

/// No two variable definitions of one operation share a name.
pub open spec fn spec_variable_names_unique(vars: Seq<VariableDefinition>) -> bool {
    forall|p: int, q: int|
        0 <= p < q < vars.len() ==> (#[trigger] vars[p]).variable.value@ != (
        #[trigger] vars[q]).variable.value@
}

proof fn lemma_variable_count_nonneg(vars: Seq<VariableDefinition>, name: Seq<char>, k: int)
    ensures
        crate::variables::spec_variable_count(vars, name, k) >= 0,
    decreases vars.len() - k,
{
    if !(k < 0 || k >= vars.len()) {
        lemma_variable_count_nonneg(vars, name, k + 1);
    }
}

proof fn lemma_variable_count_at_least_one(
    vars: Seq<VariableDefinition>,
    name: Seq<char>,
    k: int,
    j: int,
)
    requires
        0 <= k <= j < vars.len(),
        vars[j].variable.value@ == name,
    ensures
        crate::variables::spec_variable_count(vars, name, k) >= 1,
    decreases j - k,
{
    lemma_variable_count_nonneg(vars, name, k + 1);
    if k < j {
        lemma_variable_count_at_least_one(vars, name, k + 1, j);
    }
}

proof fn lemma_variable_count_at_least_two(
    vars: Seq<VariableDefinition>,
    name: Seq<char>,
    k: int,
    i: int,
    j: int,
)
    requires
        0 <= k <= i < j < vars.len(),
        vars[i].variable.value@ == name,
        vars[j].variable.value@ == name,
    ensures
        crate::variables::spec_variable_count(vars, name, k) >= 2,
    decreases i - k,
{
    if k == i {
        lemma_variable_count_at_least_one(vars, name, k + 1, j);
    } else {
        lemma_variable_count_at_least_two(vars, name, k + 1, i, j);
        lemma_variable_count_nonneg(vars, name, k + 1);
    }
}

proof fn lemma_first_variable_le(
    vars: Seq<VariableDefinition>,
    name: Seq<char>,
    k: int,
    i: int,
)
    requires
        0 <= k <= i < vars.len(),
        vars[i].variable.value@ == name,
    ensures
        k <= crate::variables::spec_first_variable_index(vars, name, k) <= i,
        vars[crate::variables::spec_first_variable_index(vars, name, k)].variable.value@ == name,
    decreases i - k,
{
    if vars[k].variable.value@ != name {
        lemma_first_variable_le(vars, name, k + 1, i);
    }
}

proof fn lemma_variable_errors_nonempty(
    vars: Seq<VariableDefinition>,
    name: Seq<char>,
    k: int,
    f: int,
)
    requires
        0 <= k <= f < vars.len(),
        vars[f].variable.value@ == name,
        crate::variables::spec_first_variable_index(vars, name, 0) == f,
        crate::variables::spec_variable_count(vars, name, 0) > 1,
    ensures
        crate::variables::spec_variable_uniqueness_errors(vars, k).len() >= 1,
    decreases f - k,
{
    if k < f {
        lemma_variable_errors_nonempty(vars, name, k + 1, f);
    }
}

proof fn lemma_variable_count_one_witness(
    vars: Seq<VariableDefinition>,
    name: Seq<char>,
    k: int,
)
    requires
        0 <= k,
        crate::variables::spec_variable_count(vars, name, k) >= 1,
    ensures
        exists|j: int| k <= j < vars.len() && (#[trigger] vars[j]).variable.value@ == name,
    decreases vars.len() - k,
{
    if k < vars.len() {
        if vars[k].variable.value@ == name {
            assert(k <= k < vars.len() && vars[k].variable.value@ == name);
        } else {
            lemma_variable_count_one_witness(vars, name, k + 1);
        }
    }
}

proof fn lemma_variable_count_witnesses(
    vars: Seq<VariableDefinition>,
    name: Seq<char>,
    k: int,
)
    requires
        0 <= k,
        crate::variables::spec_variable_count(vars, name, k) >= 2,
    ensures
        exists|p: int, q: int|
            k <= p < q < vars.len() && (#[trigger] vars[p]).variable.value@ == name && (
            #[trigger] vars[q]).variable.value@ == name,
    decreases vars.len() - k,
{
    if k < vars.len() {
        if vars[k].variable.value@ == name {
            lemma_variable_count_one_witness(vars, name, k + 1);
            let j = choose|j: int|
                k + 1 <= j < vars.len() && (#[trigger] vars[j]).variable.value@ == name;
            assert(k <= k < j < vars.len() && vars[k].variable.value@ == name
                && vars[j].variable.value@ == name);
        } else {
            lemma_variable_count_witnesses(vars, name, k + 1);
        }
    }
}

proof fn lemma_variable_errors_empty(vars: Seq<VariableDefinition>, k: int)
    requires
        spec_variable_names_unique(vars),
    ensures
        crate::variables::spec_variable_uniqueness_errors(vars, k) == Seq::<
            SpecValidationError,
        >::empty(),
    decreases vars.len() - k,
{
    if !(k < 0 || k >= vars.len()) {
        lemma_variable_errors_empty(vars, k + 1);
        let name = vars[k].variable.value@;
        if crate::variables::spec_variable_count(vars, name, 0) > 1 {
            lemma_variable_count_witnesses(vars, name, 0);
            assert(false);
        }
    }
}

/// The semantic content of `VariableUniqueness`: the rule is silent
/// exactly when no two variable definitions share a name.
pub proof fn lemma_variable_uniqueness_characterized(vars: Seq<VariableDefinition>)
    ensures
        crate::variables::spec_variable_uniqueness_errors(vars, 0) == Seq::<
            SpecValidationError,
        >::empty() <==> spec_variable_names_unique(vars),
{
    if spec_variable_names_unique(vars) {
        lemma_variable_errors_empty(vars, 0);
    }
    if !spec_variable_names_unique(vars) {
        let (p, q) = choose|p: int, q: int|
            0 <= p < q < vars.len() && (#[trigger] vars[p]).variable.value@ == (
            #[trigger] vars[q]).variable.value@;
        let name = vars[p].variable.value@;
        lemma_variable_count_at_least_two(vars, name, 0, p, q);
        lemma_first_variable_le(vars, name, 0, p);
        let f = crate::variables::spec_first_variable_index(vars, name, 0);
        lemma_variable_errors_nonempty(vars, name, 0, f);
    }
}

/// Whether the list of spread uses mentions the given fragment name.
pub open spec fn spec_uses_contain(
    uses: Seq<crate::fragments::SpecSpreadUse>,
    name: Seq<char>,
    i: int,
) -> bool
    decreases uses.len() - i,
{
    if i < 0 || i >= uses.len() {
        false
    } else {
        uses[i].fragment_name == name || spec_uses_contain(uses, name, i + 1)
    }
}

/// The fragment-spread graph: fragment `from` spreads fragment `to`
/// somewhere in its body. Spreads resolve through the fragment lookup, so
/// the graph depends only on the set of fragment definitions.
pub open spec fn spec_spreads_to(doc: ExecutableDocument, from: Seq<char>, to: Seq<char>) -> bool {
    match crate::executable::spec_find_fragment(doc.fragment_definitions@, from, 0) {
        Some(fd) => spec_uses_contain(
            crate::fragments::spec_selections_spread_uses(fd.selection_set.selections@, 0),
            to,
            0,
        ),
        None => false,
    }
}

pub open spec fn spec_is_cycle_path(doc: ExecutableDocument, path: Seq<Seq<char>>) -> bool {
    &&& path.len() >= 1
    &&& forall|i: int|
        0 <= i < path.len() - 1 ==> spec_spreads_to(doc, #[trigger] path[i], path[i + 1])
    &&& spec_spreads_to(doc, path.last(), path[0])
}

/// The fragment-spread graph has a cycle.
pub open spec fn spec_has_fragment_cycle(doc: ExecutableDocument) -> bool {
    exists|path: Seq<Seq<char>>| spec_is_cycle_path(doc, path)
}

pub open spec fn spec_fragment_names_unique(frags: Seq<FragmentDefinition>) -> bool {
    forall|i: int, j: int|
        0 <= i < j < frags.len() ==> (#[trigger] frags[i]).name.value@ != (
        #[trigger] frags[j]).name.value@
}

proof fn lemma_names_contain_index(names: Seq<Seq<char>>, name: Seq<char>, i: int)
    requires
        crate::traversal::spec_names_contain(names, name, i),
        0 <= i,
    ensures
        exists|p: int| i <= p < names.len() && names[p] == name,
    decreases names.len() - i,
{
    if names[i] == name {
        assert(i <= i < names.len() && names[i] == name);
    } else {
        lemma_names_contain_index(names, name, i + 1);
    }
}

proof fn lemma_uses_contain_self(
    uses: Seq<crate::fragments::SpecSpreadUse>,
    i: int,
    j: int,
)
    requires
        0 <= i <= j < uses.len(),
    ensures
        spec_uses_contain(uses, uses[j].fragment_name, i),
    decreases j - i,
{
    if i < j {
        lemma_uses_contain_self(uses, i + 1, j);
    }
}

proof fn lemma_find_fragment_at(
    frags: Seq<FragmentDefinition>,
    name: Seq<char>,
    i: int,
    p: int,
)
    requires
        0 <= i <= p < frags.len(),
        frags[p].name.value@ == name,
        forall|q: int| i <= q < p ==> (#[trigger] frags[q]).name.value@ != name,
    ensures
        crate::executable::spec_find_fragment(frags, name, i) == Some(frags[p]),
    decreases p - i,
{
    if i < p {
        lemma_find_fragment_at(frags, name, i + 1, p);
    }
}

proof fn lemma_find_fragment_member(frags: Seq<FragmentDefinition>, name: Seq<char>, i: int)
    requires
        0 <= i,
    ensures
        match crate::executable::spec_find_fragment(frags, name, i) {
            Some(fd) => frags.contains(fd) && fd.name.value@ == name,
            None => forall|q: int| i <= q < frags.len() ==> (#[trigger] frags[q]).name.value@
                != name,
        },
    decreases frags.len() - i,
{
    if i < frags.len() {
        if frags[i].name.value@ == name {
            assert(frags[i] == frags[i]);
        } else {
            lemma_find_fragment_member(frags, name, i + 1);
        }
    }
}

/// With unique fragment names, the lookup is determined by the set of
/// definitions alone: two documents holding the same definitions resolve
/// every name alike.
proof fn lemma_find_fragment_same(
    f1: Seq<FragmentDefinition>,
    f2: Seq<FragmentDefinition>,
    name: Seq<char>,
)
    requires
        spec_fragment_names_unique(f1),
        spec_fragment_names_unique(f2),
        forall|fd: FragmentDefinition| f1.contains(fd) <==> f2.contains(fd),
    ensures
        crate::executable::spec_find_fragment(f1, name, 0) == crate::executable::spec_find_fragment(
            f2,
            name,
            0,
        ),
{
    lemma_find_fragment_member(f1, name, 0);
    lemma_find_fragment_member(f2, name, 0);
    match crate::executable::spec_find_fragment(f1, name, 0) {
        Some(fd) => {
            assert(f2.contains(fd));
            let p = choose|p: int| 0 <= p < f2.len() && f2[p] == fd;
            assert forall|q: int| 0 <= q < p implies (#[trigger] f2[q]).name.value@ != name by {}
            lemma_find_fragment_at(f2, name, 0, p);
        },
        None => {
            match crate::executable::spec_find_fragment(f2, name, 0) {
                Some(gd) => {
                    assert(f1.contains(gd));
                    let p = choose|p: int| 0 <= p < f1.len() && f1[p] == gd;
                    assert(f1[p].name.value@ == name);
                },
                None => {},
            }
        },
    }
}

/// Where the spread graph has no cycle, the depth-first search never meets
/// a fragment already on its path, so it reports nothing.
proof fn lemma_dfs_acyclic_silent(
    doc: ExecutableDocument,
    uses: Seq<crate::fragments::SpecSpreadUse>,
    k: int,
    visiting: Seq<Seq<char>>,
    acc: crate::fragments::SpecDfsAcc,
    fuel: nat,
)
    requires
        !spec_has_fragment_cycle(doc),
        visiting.len() >= 1,
        forall|i: int|
            0 <= i < visiting.len() - 1 ==> spec_spreads_to(
                doc,
                #[trigger] visiting[i],
                visiting[i + 1],
            ),
        forall|j: int|
            0 <= j < uses.len() ==> spec_spreads_to(
                doc,
                visiting.last(),
                (#[trigger] uses[j]).fragment_name,
            ),
    ensures
        crate::fragments::spec_cycle_dfs(doc, uses, k, visiting, acc, fuel).errors == acc.errors,
    decreases fuel, uses.len() - k,
{
    if !(k < 0 || k >= uses.len()) {
        let u = uses[k];
        if crate::traversal::spec_names_contain(visiting, u.fragment_name, 0) {
            lemma_names_contain_index(visiting, u.fragment_name, 0);
            let p = choose|p: int| 0 <= p < visiting.len() && visiting[p] == u.fragment_name;
            let path = visiting.subrange(p, visiting.len() as int);
            assert(path.len() >= 1);
            assert forall|i: int| 0 <= i < path.len() - 1 implies spec_spreads_to(
                doc,
                #[trigger] path[i],
                path[i + 1],
            ) by {
                assert(path[i] == visiting[p + i]);
                assert(path[i + 1] == visiting[p + i + 1]);
            }
            assert(path.last() == visiting.last());
            assert(path[0] == u.fragment_name);
            assert(spec_spreads_to(doc, path.last(), path[0]));
            assert(spec_is_cycle_path(doc, path));
            assert(false);
        } else if crate::traversal::spec_names_contain(acc.done, u.fragment_name, 0) {
            lemma_dfs_acyclic_silent(doc, uses, k + 1, visiting, acc, fuel);
        } else {
            match crate::executable::spec_find_fragment(
                doc.fragment_definitions@,
                u.fragment_name,
                0,
            ) {
                None => {
                    lemma_dfs_acyclic_silent(doc, uses, k + 1, visiting, acc, fuel);
                },
                Some(fd) => {
                    if fuel == 0 {
                        lemma_dfs_acyclic_silent(doc, uses, k + 1, visiting, acc, fuel);
                    } else {
                        let visiting2 = visiting.push(u.fragment_name);
                        let inner_uses = crate::fragments::spec_selections_spread_uses(
                            fd.selection_set.selections@,
                            0,
                        );
                        assert(visiting2.last() == u.fragment_name);
                        assert forall|i: int| 0 <= i < visiting2.len() - 1 implies spec_spreads_to(
                            doc,
                            #[trigger] visiting2[i],
                            visiting2[i + 1],
                        ) by {
                            if i < visiting.len() - 1 {
                                assert(visiting2[i] == visiting[i]);
                                assert(visiting2[i + 1] == visiting[i + 1]);
                            } else {
                                assert(visiting2[i] == visiting.last());
                                assert(visiting2[i + 1] == u.fragment_name);
                            }
                        }
                        assert forall|j: int| 0 <= j < inner_uses.len() implies spec_spreads_to(
                            doc,
                            visiting2.last(),
                            (#[trigger] inner_uses[j]).fragment_name,
                        ) by {
                            lemma_uses_contain_self(inner_uses, 0, j);
                        }
                        lemma_dfs_acyclic_silent(
                            doc,
                            inner_uses,
                            0,
                            visiting2,
                            acc,
                            (fuel - 1) as nat,
                        );
                        let acc2 = crate::fragments::spec_cycle_dfs(
                            doc,
                            inner_uses,
                            0,
                            visiting2,
                            acc,
                            (fuel - 1) as nat,
                        );
                        lemma_dfs_acyclic_silent(
                            doc,
                            uses,
                            k + 1,
                            visiting,
                            crate::fragments::SpecDfsAcc {
                                done: acc2.done.push(u.fragment_name),
                                errors: acc2.errors,
                            },
                            fuel,
                        );
                    }
                },
            }
        }
    }
}

proof fn lemma_roots_acyclic_silent(
    doc: ExecutableDocument,
    i: int,
    acc: crate::fragments::SpecDfsAcc,
)
    requires
        !spec_has_fragment_cycle(doc),
        spec_fragment_names_unique(doc.fragment_definitions@),
    ensures
        crate::fragments::spec_cycle_roots(doc, i, acc).errors == acc.errors,
    decreases doc.fragment_definitions@.len() - i,
{
    if !(i < 0 || i >= doc.fragment_definitions@.len()) {
        let fd = doc.fragment_definitions@[i];
        if crate::traversal::spec_names_contain(acc.done, fd.name.value@, 0) {
            lemma_roots_acyclic_silent(doc, i + 1, acc);
        } else {
            let uses = crate::fragments::spec_selections_spread_uses(
                fd.selection_set.selections@,
                0,
            );
            lemma_find_fragment_at(doc.fragment_definitions@, fd.name.value@, 0, i);
            assert forall|j: int| 0 <= j < uses.len() implies spec_spreads_to(
                doc,
                seq![fd.name.value@].last(),
                (#[trigger] uses[j]).fragment_name,
            ) by {
                lemma_uses_contain_self(uses, 0, j);
            }
            lemma_dfs_acyclic_silent(
                doc,
                uses,
                0,
                seq![fd.name.value@],
                acc,
                doc.fragment_definitions@.len() as nat,
            );
            let acc2 = crate::fragments::spec_cycle_dfs(
                doc,
                uses,
                0,
                seq![fd.name.value@],
                acc,
                doc.fragment_definitions@.len() as nat,
            );
            lemma_roots_acyclic_silent(
                doc,
                i + 1,
                crate::fragments::SpecDfsAcc {
                    done: acc2.done.push(fd.name.value@),
                    errors: acc2.errors,
                },
            );
        }
    }
}

/// The proved part of fragment-cycle order-independence: when the
/// documents hold the same fragment definitions under unique names —
/// one a permutation of the other — and the spread graph is acyclic, both
/// orders yield the same, empty, sequence of cycle errors. The graph
/// itself depends only on the set of definitions, never on their order.
pub proof fn lemma_fragment_cycles_acyclic_order_independent(
    d1: ExecutableDocument,
    d2: ExecutableDocument,
)
    requires
        spec_fragment_names_unique(d1.fragment_definitions@),
        spec_fragment_names_unique(d2.fragment_definitions@),
        forall|fd: FragmentDefinition|
            d1.fragment_definitions@.contains(fd) <==> d2.fragment_definitions@.contains(fd),
        !spec_has_fragment_cycle(d1),
    ensures
        crate::fragments::spec_fragment_cycle_errors(d1) == crate::fragments::spec_fragment_cycle_errors(
            d2,
        ),
        crate::fragments::spec_fragment_cycle_errors(d1) == Seq::<SpecValidationError>::empty(),
{
    assert forall|a: Seq<char>, b: Seq<char>| spec_spreads_to(d1, a, b) == spec_spreads_to(
        d2,
        a,
        b,
    ) by {
        lemma_find_fragment_same(d1.fragment_definitions@, d2.fragment_definitions@, a);
    }
    assert(!spec_has_fragment_cycle(d2)) by {
        if spec_has_fragment_cycle(d2) {
            let path = choose|path: Seq<Seq<char>>| spec_is_cycle_path(d2, path);
            assert(spec_is_cycle_path(d1, path)) by {
                assert forall|i: int| 0 <= i < path.len() - 1 implies spec_spreads_to(
                    d1,
                    #[trigger] path[i],
                    path[i + 1],
                ) by {
                    lemma_find_fragment_same(
                        d1.fragment_definitions@,
                        d2.fragment_definitions@,
                        path[i],
                    );
                }
                lemma_find_fragment_same(
                    d1.fragment_definitions@,
                    d2.fragment_definitions@,
                    path.last(),
                );
            }
        }
    }
    lemma_roots_acyclic_silent(
        d1,
        0,
        crate::fragments::SpecDfsAcc { done: Seq::empty(), errors: Seq::empty() },
    );
    lemma_roots_acyclic_silent(
        d2,
        0,
        crate::fragments::SpecDfsAcc { done: Seq::empty(), errors: Seq::empty() },
    );
}

/// Response-shape compatibility does not depend on the order of the two
/// types compared.
pub proof fn lemma_same_response_shape_symmetric(
    schema: SchemaDefinition,
    t1: OutputTypeShape,
    t2: OutputTypeShape,
)
    ensures
        spec_same_response_shape(schema, t1, t2) == spec_same_response_shape(schema, t2, t1),
    decreases t1.size() + t2.size(),
{
    if t1.is_required() || t2.is_required() {
        if t1.is_required() == t2.is_required() {
            lemma_same_response_shape_symmetric(schema, t1.nullable(), t2.nullable());
        }
    } else {
        match (t1, t2) {
            (OutputTypeShape::List(a, _), OutputTypeShape::List(b, _)) => {
                lemma_same_response_shape_symmetric(schema, *a, *b);
            },
            _ => {},
        }
    }
}

/// Argument-list equality for merging is symmetric: it compares the two
/// lists as equal-sized sets of (name, value) pairs.
pub proof fn lemma_arguments_equal_symmetric(
    a: Seq<crate::executable::Argument>,
    b: Seq<crate::executable::Argument>,
)
    ensures
        spec_arguments_equal(a, b) == spec_arguments_equal(b, a),
{
}

/// The proved part of field-merging symmetry: whether two selections of
/// one response key can merge does not depend on their order. Swapping a
/// compatible pair therefore changes nothing; for an incompatible pair the
/// emitted error can differ only in which span is primary.
pub proof fn lemma_entries_can_merge_symmetric(
    schema: SchemaDefinition,
    a: SpecFieldEntry,
    b: SpecFieldEntry,
)
    ensures
        spec_entries_can_merge(schema, a, b) == spec_entries_can_merge(schema, b, a),
{
    match (a.output_type, b.output_type) {
        (Some(t1), Some(t2)) => {
            lemma_same_response_shape_symmetric(schema, t1, t2);
        },
        _ => {},
    }
    lemma_arguments_equal_symmetric(a.field.arguments@, b.field.arguments@);
}

} // verus!
