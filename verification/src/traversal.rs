use vstd::prelude::*;

use crate::arguments::{
    argument_uniqueness_errors, directive_site_errors, known_owner_argument_errors,
    map_coercion_errors, spec_argument_uniqueness_errors, spec_directive_site_errors,
    spec_known_owner_argument_errors, spec_map_coercion,
};
use crate::executable::{
    Directive, ExecutableDocument, Field, FragmentDefinition, InlineFragment, OperationDefinition,
    OperationType, Selection, VariableDefinition, find_fragment, spec_find_fragment,
};
use crate::input_coercion::{PathMember, coerce_value_for_input_type_reference, spec_coerce_value};
use crate::schema::{
    DirectiveLocation, FieldDefinition, SchemaDefinition, TypeDefinition, spec_find_field,
};
use crate::seqs::{lemma_views_of_add, single, views_of};
use crate::span::Span;
use crate::validation_error::{SpecValidationError, ValidationError};

verus! {

/// The scoped type in effect at a point of the traversal, as the ghost
/// value of an optional borrowed type definition.
pub open spec fn spec_scope(scope: Option<&TypeDefinition>) -> Option<TypeDefinition> {
    match scope {
        Some(td) => Some(*td),
        None => None,
    }
}

pub open spec fn spec_scope_name(scope: Option<TypeDefinition>) -> Seq<char> {
    match scope {
        Some(td) => td.spec_name(),
        None => Seq::empty(),
    }
}

/// How a field selection resolves against the scoped type: a declared
/// field, the `__typename` meta field, an unknown field on a known
/// composite, or no usable scope at all.
pub enum FieldResolution<'a> {
    Found(&'a FieldDefinition),
    Meta,
    NotFound,
    NoScope,
}

pub enum SpecFieldResolution {
    Found(FieldDefinition),
    Meta,
    NotFound,
    NoScope,
}

/// Field resolution per the traversal contract: on a composite scope,
/// `__typename` always resolves; a union resolves nothing else; objects and
/// interfaces resolve their declared fields.
pub open spec fn spec_resolve_field(
    schema: SchemaDefinition,
    scope: Option<TypeDefinition>,
    name: Seq<char>,
) -> SpecFieldResolution {
    match scope {
        None => SpecFieldResolution::NoScope,
        Some(td) => {
            if !td.spec_is_composite() {
                SpecFieldResolution::NoScope
            } else if name == "__typename"@ {
                SpecFieldResolution::Meta
            } else {
                match td.spec_fields_definition() {
                    Some(fields) => match spec_find_field(fields, name, 0) {
                        Some(fd) => SpecFieldResolution::Found(fd),
                        None => SpecFieldResolution::NotFound,
                    },
                    None => SpecFieldResolution::NotFound,
                }
            }
        },
    }
}

pub fn resolve_field<'s>(
    schema: &'s SchemaDefinition,
    scope: Option<&'s TypeDefinition>,
    name: &String,
) -> (r: FieldResolution<'s>)
    ensures
        match r {
            FieldResolution::Found(fd) => spec_resolve_field(*schema, spec_scope(scope), name@)
                == SpecFieldResolution::Found(*fd),
            FieldResolution::Meta => spec_resolve_field(*schema, spec_scope(scope), name@)
                == SpecFieldResolution::Meta,
            FieldResolution::NotFound => spec_resolve_field(*schema, spec_scope(scope), name@)
                == SpecFieldResolution::NotFound,
            FieldResolution::NoScope => spec_resolve_field(*schema, spec_scope(scope), name@)
                == SpecFieldResolution::NoScope,
        },
{
    match scope {
        None => FieldResolution::NoScope,
        Some(td) => {
            if !td.is_composite() {
                FieldResolution::NoScope
            } else {
                let meta = String::from_str("__typename");
                if *name == meta {
                    FieldResolution::Meta
                } else {
                    match td {
                        TypeDefinition::Object(o) => {
                            match crate::schema::find_field(&o.fields_definition, name) {
                                Some(fd) => FieldResolution::Found(fd),
                                None => FieldResolution::NotFound,
                            }
                        },
                        TypeDefinition::Interface(it) => {
                            match crate::schema::find_field(&it.fields_definition, name) {
                                Some(fd) => FieldResolution::Found(fd),
                                None => FieldResolution::NotFound,
                            }
                        },
                        _ => FieldResolution::NotFound,
                    }
                }
            }
        },
    }
}

pub open spec fn spec_name_list_contains(names: Seq<String>, name: Seq<char>, i: int) -> bool
    decreases names.len() - i,
{
    if i < 0 || i >= names.len() {
        false
    } else {
        names[i]@ == name || spec_name_list_contains(names, name, i + 1)
    }
}

fn name_list_contains(names: &Vec<String>, name: &String, i: usize) -> (r: bool)
    requires
        i <= names@.len(),
    ensures
        r == spec_name_list_contains(names@, name@, i as int),
    decreases names@.len() - i,
{
    if i >= names.len() {
        false
    } else if names[i] == *name {
        true
    } else {
        name_list_contains(names, name, i + 1)
    }
}

/// The names of the object types declared to implement the interface.
pub open spec fn spec_interface_implementors(
    defs: Seq<TypeDefinition>,
    interface_name: Seq<char>,
    i: int,
) -> Seq<Seq<char>>
    decreases defs.len() - i,
{
    if i < 0 || i >= defs.len() {
        Seq::empty()
    } else {
        let rest = spec_interface_implementors(defs, interface_name, i + 1);
        match defs[i] {
            TypeDefinition::Object(o) => {
                if spec_name_list_contains(o.interface_implementations@, interface_name, 0) {
                    seq![o.name@] + rest
                } else {
                    rest
                }
            },
            _ => rest,
        }
    }
}

fn interface_implementors(
    defs: &Vec<TypeDefinition>,
    interface_name: &String,
    i: usize,
) -> (r: Vec<String>)
    requires
        i <= defs@.len(),
    ensures
        views_of(r@) == spec_interface_implementors(defs@, interface_name@, i as int),
    decreases defs@.len() - i,
{
    if i >= defs.len() {
        proof {
            assert(views_of(Seq::<String>::empty()) =~= Seq::<Seq<char>>::empty());
        }
        Vec::new()
    } else {
        let mut rest = interface_implementors(defs, interface_name, i + 1);
        match &defs[i] {
            TypeDefinition::Object(o) => {
                if name_list_contains(&o.interface_implementations, interface_name, 0) {
                    let mut out = single(o.name.clone());
                    proof {
                        lemma_views_of_add(out@, rest@);
                    }
                    out.append(&mut rest);
                    out
                } else {
                    rest
                }
            },
            _ => rest,
        }
    }
}

/// The object type names a composite type may turn out to be at run time:
/// the object itself, an interface's implementors, a union's members.
pub open spec fn spec_possible_type_names(schema: SchemaDefinition, td: TypeDefinition) -> Seq<
    Seq<char>,
> {
    match td {
        TypeDefinition::Object(o) => seq![o.name@],
        TypeDefinition::Interface(it) => spec_interface_implementors(
            schema.type_definitions@,
            it.name@,
            0,
        ),
        TypeDefinition::Union(u) => views_of(u.member_types@),
        _ => Seq::empty(),
    }
}

fn possible_type_names(schema: &SchemaDefinition, td: &TypeDefinition) -> (r: Vec<String>)
    ensures
        views_of(r@) == spec_possible_type_names(*schema, *td),
{
    match td {
        TypeDefinition::Object(o) => {
            let out = single(o.name.clone());
            out
        },
        TypeDefinition::Interface(it) => interface_implementors(
            &schema.type_definitions,
            &it.name,
            0,
        ),
        TypeDefinition::Union(u) => {
            let mut out: Vec<String> = Vec::new();
            let mut i: usize = 0;
            proof {
                assert(u.member_types@.take(0int) =~= Seq::<String>::empty());
                assert(views_of(Seq::<String>::empty()) =~= Seq::<Seq<char>>::empty());
            }
            while i < u.member_types.len()
                invariant
                    i <= u.member_types@.len(),
                    views_of(out@) == views_of(u.member_types@.take(i as int)),
                decreases u.member_types@.len() - i,
            {
                let ghost prev = out@;
                let m = u.member_types[i].clone();
                let ghost gm = m;
                out.push(m);
                proof {
                    lemma_views_of_add(prev, seq![gm]);
                    assert(prev.push(gm) =~= prev + seq![gm]);
                    crate::seqs::lemma_views_of_singleton(gm);
                    crate::seqs::lemma_take_push(u.member_types@, i as int);
                    lemma_views_of_add(
                        u.member_types@.take(i as int),
                        seq![u.member_types@[i as int]],
                    );
                    assert(u.member_types@.take(i as int).push(u.member_types@[i as int])
                        =~= u.member_types@.take(i as int) + seq![u.member_types@[i as int]]);
                    crate::seqs::lemma_views_of_singleton(u.member_types@[i as int]);
                }
                i += 1;
            }
            proof {
                crate::seqs::lemma_take_all(u.member_types@);
            }
            out
        },
        _ => {
            proof {
                assert(views_of(Seq::<String>::empty()) =~= Seq::<Seq<char>>::empty());
            }
            Vec::new()
        },
    }
}

pub open spec fn spec_names_contain(names: Seq<Seq<char>>, name: Seq<char>, i: int) -> bool
    decreases names.len() - i,
{
    if i < 0 || i >= names.len() {
        false
    } else {
        names[i] == name || spec_names_contain(names, name, i + 1)
    }
}

pub fn names_contain(names: &Vec<String>, name: &String, i: usize) -> (r: bool)
    requires
        i <= names@.len(),
    ensures
        r == spec_names_contain(views_of(names@), name@, i as int),
    decreases names@.len() - i,
{
    proof {
        crate::seqs::lemma_views_of_len(names@);
    }
    if i >= names.len() {
        false
    } else {
        proof {
            crate::seqs::lemma_views_of_index(names@, i as int);
        }
        if names[i] == *name {
            true
        } else {
            names_contain(names, name, i + 1)
        }
    }
}

/// Whether the two name sets share a member.
pub open spec fn spec_names_intersect(a: Seq<Seq<char>>, b: Seq<Seq<char>>, i: int) -> bool
    decreases a.len() - i,
{
    if i < 0 || i >= a.len() {
        false
    } else {
        spec_names_contain(b, a[i], 0) || spec_names_intersect(a, b, i + 1)
    }
}

fn names_intersect(a: &Vec<String>, b: &Vec<String>, i: usize) -> (r: bool)
    requires
        i <= a@.len(),
    ensures
        r == spec_names_intersect(views_of(a@), views_of(b@), i as int),
    decreases a@.len() - i,
{
    proof {
        crate::seqs::lemma_views_of_len(a@);
    }
    if i >= a.len() {
        false
    } else {
        proof {
            crate::seqs::lemma_views_of_index(a@, i as int);
        }
        if names_contain(b, &a[i], 0) {
            true
        } else {
            names_intersect(a, b, i + 1)
        }
    }
}

/// `FragmentSpreadIsPossible`: a spread or inline fragment whose type
/// condition shares no possible object type with the scope in effect can
/// never apply.
pub open spec fn spec_spread_possible_errors(
    schema: SchemaDefinition,
    scope: Option<TypeDefinition>,
    condition: Seq<char>,
    span: Span,
) -> Seq<SpecValidationError> {
    match scope {
        None => Seq::empty(),
        Some(parent) => match schema.spec_get_type(condition) {
            None => Seq::empty(),
            Some(ct) => {
                if parent.spec_is_composite() && ct.spec_is_composite() && !spec_names_intersect(
                    spec_possible_type_names(schema, parent),
                    spec_possible_type_names(schema, ct),
                    0,
                ) {
                    seq![
                        SpecValidationError::FragmentSpreadTypeImpossible {
                            type_condition: condition,
                            parent_type_name: parent.spec_name(),
                            span,
                        },
                    ]
                } else {
                    Seq::empty()
                }
            },
        },
    }
}

fn spread_possible_errors(
    schema: &SchemaDefinition,
    scope: Option<&TypeDefinition>,
    condition: &String,
    span: Span,
) -> (r: Vec<ValidationError>)
    ensures
        views_of(r@) == spec_spread_possible_errors(*schema, spec_scope(scope), condition@, span),
{
    proof {
        assert(views_of(Seq::<ValidationError>::empty()) =~= Seq::<SpecValidationError>::empty());
    }
    match scope {
        None => Vec::new(),
        Some(parent) => match schema.get_type(condition) {
            None => Vec::new(),
            Some(ct) => {
                if parent.is_composite() && ct.is_composite() {
                    let parent_possible = possible_type_names(schema, parent);
                    let condition_possible = possible_type_names(schema, ct);
                    if !names_intersect(&parent_possible, &condition_possible, 0) {
                        single(
                            ValidationError::FragmentSpreadTypeImpossible {
                                type_condition: condition.clone(),
                                parent_type_name: parent.name(),
                                span,
                            },
                        )
                    } else {
                        Vec::new()
                    }
                } else {
                    Vec::new()
                }
            },
        },
    }
}

/// The scope a field's sub-selection is walked under: the field's output
/// base type when it is composite, else nothing.
pub open spec fn spec_field_child_scope(
    schema: SchemaDefinition,
    res: SpecFieldResolution,
) -> Option<TypeDefinition> {
    match res {
        SpecFieldResolution::Found(fd) => match schema.spec_get_type(fd.output_type@.base_name()) {
            Some(bt) => if bt.spec_is_composite() {
                Some(bt)
            } else {
                None
            },
            None => None,
        },
        _ => None,
    }
}

/// The scope an inline fragment's selections are walked under: the type
/// condition when it resolves to a composite, else the inherited scope.
pub open spec fn spec_inline_scope(
    schema: SchemaDefinition,
    scope: Option<TypeDefinition>,
    condition: Option<crate::value::Name>,
) -> Option<TypeDefinition> {
    match condition {
        Some(c) => match schema.spec_get_type(c.value@) {
            Some(t) => if t.spec_is_composite() {
                Some(t)
            } else {
                scope
            },
            None => scope,
        },
        None => scope,
    }
}

/// One selection's errors: field resolution (`FieldsOnCorrectType`), leaf
/// discipline (`ScalarLeafs`), argument rules, directive rules, fragment
/// spread rules, then the sub-selections under the new scope.
pub open spec fn spec_walk_selection(
    doc: ExecutableDocument,
    schema: SchemaDefinition,
    sel: Selection,
    scope: Option<TypeDefinition>,
) -> Seq<SpecValidationError>
    decreases sel, 0int,
{
    match sel {
        Selection::Field(f) => {
            let res = spec_resolve_field(schema, scope, f.name.value@);
            let resolution_errors: Seq<SpecValidationError> = match res {
                SpecFieldResolution::NotFound => seq![
                    SpecValidationError::FieldDoesNotExistOnType {
                        field_name: f.name.value@,
                        parent_type_name: spec_scope_name(scope),
                        span: f.span,
                    },
                ],
                _ => Seq::empty(),
            };
            let leaf_errors: Seq<SpecValidationError> = match res {
                SpecFieldResolution::Found(fd) => match schema.spec_get_type(
                    fd.output_type@.base_name(),
                ) {
                    Some(bt) => {
                        if bt.spec_is_leaf() && f.selection_set is Some {
                            seq![
                                SpecValidationError::NonLeafFieldSelectionOnLeafType {
                                    field_name: f.name.value@,
                                    base_type_name: bt.spec_name(),
                                    span: f.span,
                                },
                            ]
                        } else if bt.spec_is_composite() && f.selection_set is None {
                            seq![
                                SpecValidationError::LeafFieldSelectionsNotOnType {
                                    field_name: f.name.value@,
                                    base_type_name: bt.spec_name(),
                                    span: f.span,
                                },
                            ]
                        } else {
                            Seq::empty()
                        }
                    },
                    None => Seq::empty(),
                },
                SpecFieldResolution::Meta => {
                    if f.selection_set is Some {
                        seq![
                            SpecValidationError::NonLeafFieldSelectionOnLeafType {
                                field_name: f.name.value@,
                                base_type_name: "String"@,
                                span: f.span,
                            },
                        ]
                    } else {
                        Seq::empty()
                    }
                },
                _ => Seq::empty(),
            };
            let argument_errors: Seq<SpecValidationError> = match res {
                SpecFieldResolution::Found(fd) => spec_known_owner_argument_errors(
                    schema,
                    f.arguments@,
                    fd.arguments_definition@,
                    true,
                    f.name.value@,
                    f.span,
                ),
                SpecFieldResolution::Meta => spec_known_owner_argument_errors(
                    schema,
                    f.arguments@,
                    Seq::empty(),
                    true,
                    f.name.value@,
                    f.span,
                ),
                _ => spec_argument_uniqueness_errors(f.arguments@, 0),
            };
            let directive_errors = spec_directive_site_errors(
                schema,
                f.directives@,
                DirectiveLocation::Field,
            );
            let sub: Seq<SpecValidationError> = match f.selection_set {
                Some(ss) => spec_walk_selections(
                    doc,
                    schema,
                    ss.selections@,
                    0,
                    spec_field_child_scope(schema, res),
                ),
                None => Seq::empty(),
            };
            resolution_errors + leaf_errors + argument_errors + directive_errors + sub
        },
        Selection::FragmentSpread(s) => {
            let target_errors: Seq<SpecValidationError> = match spec_find_fragment(
                doc.fragment_definitions@,
                s.name.value@,
                0,
            ) {
                None => seq![
                    SpecValidationError::FragmentSpreadTargetNotDefined {
                        fragment_name: s.name.value@,
                        span: s.span,
                    },
                ],
                Some(fd) => spec_spread_possible_errors(
                    schema,
                    scope,
                    fd.type_condition.value@,
                    s.span,
                ),
            };
            target_errors + spec_directive_site_errors(
                schema,
                s.directives@,
                DirectiveLocation::FragmentSpread,
            )
        },
        Selection::InlineFragment(inf) => {
            let composite_errors: Seq<SpecValidationError> = match inf.type_condition {
                Some(c) => match schema.spec_get_type(c.value@) {
                    Some(t) => {
                        if !t.spec_is_composite() {
                            seq![
                                SpecValidationError::InlineFragmentTargetTypeNotComposite {
                                    target_type_name: c.value@,
                                    span: inf.span,
                                },
                            ]
                        } else {
                            Seq::empty()
                        }
                    },
                    None => Seq::empty(),
                },
                None => Seq::empty(),
            };
            let possible_errors: Seq<SpecValidationError> = match inf.type_condition {
                Some(c) => spec_spread_possible_errors(schema, scope, c.value@, inf.span),
                None => Seq::empty(),
            };
            let directive_errors = spec_directive_site_errors(
                schema,
                inf.directives@,
                DirectiveLocation::InlineFragment,
            );
            let sub = spec_walk_selections(
                doc,
                schema,
                inf.selection_set.selections@,
                0,
                spec_inline_scope(schema, scope, inf.type_condition),
            );
            composite_errors + possible_errors + directive_errors + sub
        },
    }
}

pub open spec fn spec_walk_selections(
    doc: ExecutableDocument,
    schema: SchemaDefinition,
    sels: Seq<Selection>,
    i: int,
    scope: Option<TypeDefinition>,
) -> Seq<SpecValidationError>
    decreases sels, sels.len() - i,
{
    if i < 0 || i >= sels.len() {
        Seq::empty()
    } else {
        spec_walk_selection(doc, schema, sels[i], scope) + spec_walk_selections(
            doc,
            schema,
            sels,
            i + 1,
            scope,
        )
    }
}

pub fn walk_selection<'s>(
    doc: &ExecutableDocument,
    schema: &'s SchemaDefinition,
    sel: &Selection,
    scope: Option<&'s TypeDefinition>,
) -> (r: Vec<ValidationError>)
    ensures
        views_of(r@) == spec_walk_selection(*doc, *schema, *sel, spec_scope(scope)),
    decreases *sel, 0int,
{
    proof {
        assert(views_of(Seq::<ValidationError>::empty()) =~= Seq::<SpecValidationError>::empty());
    }
    match sel {
        Selection::Field(f) => {
            let res = resolve_field(schema, scope, &f.name.value);
            let mut out: Vec<ValidationError> = match &res {
                FieldResolution::NotFound => {
                    let parent_type_name: String = match scope {
                        Some(td) => td.name(),
                        None => String::new(),
                    };
                    single(
                        ValidationError::FieldDoesNotExistOnType {
                            field_name: f.name.value.clone(),
                            parent_type_name,
                            span: f.span,
                        },
                    )
                },
                _ => Vec::new(),
            };
            let mut leaf_errors: Vec<ValidationError> = match &res {
                FieldResolution::Found(fd) => {
                    match schema.get_type(fd.output_type.base_name()) {
                        Some(bt) => {
                            if bt.is_leaf() && f.selection_set.is_some() {
                                single(
                                    ValidationError::NonLeafFieldSelectionOnLeafType {
                                        field_name: f.name.value.clone(),
                                        base_type_name: bt.name(),
                                        span: f.span,
                                    },
                                )
                            } else if bt.is_composite() && f.selection_set.is_none() {
                                single(
                                    ValidationError::LeafFieldSelectionsNotOnType {
                                        field_name: f.name.value.clone(),
                                        base_type_name: bt.name(),
                                        span: f.span,
                                    },
                                )
                            } else {
                                Vec::new()
                            }
                        },
                        None => Vec::new(),
                    }
                },
                FieldResolution::Meta => {
                    if f.selection_set.is_some() {
                        single(
                            ValidationError::NonLeafFieldSelectionOnLeafType {
                                field_name: f.name.value.clone(),
                                base_type_name: String::from_str("String"),
                                span: f.span,
                            },
                        )
                    } else {
                        Vec::new()
                    }
                },
                _ => Vec::new(),
            };
            proof {
                lemma_views_of_add(out@, leaf_errors@);
            }
            out.append(&mut leaf_errors);
            let empty_defs: Vec<crate::schema::InputValueDefinition> = Vec::new();
            let mut argument_errors: Vec<ValidationError> = match &res {
                FieldResolution::Found(fd) => known_owner_argument_errors(
                    schema,
                    &f.arguments,
                    &fd.arguments_definition,
                    true,
                    &f.name.value,
                    f.span,
                ),
                FieldResolution::Meta => known_owner_argument_errors(
                    schema,
                    &f.arguments,
                    &empty_defs,
                    true,
                    &f.name.value,
                    f.span,
                ),
                _ => argument_uniqueness_errors(&f.arguments, 0),
            };
            proof {
                lemma_views_of_add(out@, argument_errors@);
            }
            out.append(&mut argument_errors);
            let mut directive_errors = directive_site_errors(
                schema,
                &f.directives,
                DirectiveLocation::Field,
            );
            proof {
                lemma_views_of_add(out@, directive_errors@);
            }
            out.append(&mut directive_errors);
            match &f.selection_set {
                Some(ss) => {
                    let child_scope: Option<&TypeDefinition> = match &res {
                        FieldResolution::Found(fd) => {
                            match schema.get_type(fd.output_type.base_name()) {
                                Some(bt) => if bt.is_composite() {
                                    Some(bt)
                                } else {
                                    None
                                },
                                None => None,
                            }
                        },
                        _ => None,
                    };
                    let mut sub = walk_selections(doc, schema, &ss.selections, 0, child_scope);
                    proof {
                        lemma_views_of_add(out@, sub@);
                    }
                    out.append(&mut sub);
                },
                None => {
                    proof {
                        assert(out@ + Seq::<ValidationError>::empty() =~= out@);
                        assert(views_of(out@) + Seq::<SpecValidationError>::empty() =~= views_of(
                            out@,
                        ));
                    }
                },
            }
            out
        },
        Selection::FragmentSpread(s) => {
            let mut out: Vec<ValidationError> = match find_fragment(
                &doc.fragment_definitions,
                &s.name.value,
            ) {
                None => single(
                    ValidationError::FragmentSpreadTargetNotDefined {
                        fragment_name: s.name.value.clone(),
                        span: s.span,
                    },
                ),
                Some(fd) => spread_possible_errors(
                    schema,
                    scope,
                    &fd.type_condition.value,
                    s.span,
                ),
            };
            let mut directive_errors = directive_site_errors(
                schema,
                &s.directives,
                DirectiveLocation::FragmentSpread,
            );
            proof {
                lemma_views_of_add(out@, directive_errors@);
            }
            out.append(&mut directive_errors);
            out
        },
        Selection::InlineFragment(inf) => {
            let mut out: Vec<ValidationError> = match &inf.type_condition {
                Some(c) => match schema.get_type(&c.value) {
                    Some(t) => {
                        if !t.is_composite() {
                            single(
                                ValidationError::InlineFragmentTargetTypeNotComposite {
                                    target_type_name: c.value.clone(),
                                    span: inf.span,
                                },
                            )
                        } else {
                            Vec::new()
                        }
                    },
                    None => Vec::new(),
                },
                None => Vec::new(),
            };
            let mut possible_errors: Vec<ValidationError> = match &inf.type_condition {
                Some(c) => spread_possible_errors(schema, scope, &c.value, inf.span),
                None => Vec::new(),
            };
            proof {
                lemma_views_of_add(out@, possible_errors@);
            }
            out.append(&mut possible_errors);
            let mut directive_errors = directive_site_errors(
                schema,
                &inf.directives,
                DirectiveLocation::InlineFragment,
            );
            proof {
                lemma_views_of_add(out@, directive_errors@);
            }
            out.append(&mut directive_errors);
            let child_scope: Option<&TypeDefinition> = match &inf.type_condition {
                Some(c) => match schema.get_type(&c.value) {
                    Some(t) => if t.is_composite() {
                        Some(t)
                    } else {
                        scope
                    },
                    None => scope,
                },
                None => scope,
            };
            let mut sub = walk_selections(doc, schema, &inf.selection_set.selections, 0, child_scope);
            proof {
                lemma_views_of_add(out@, sub@);
            }
            out.append(&mut sub);
            out
        },
    }
}

pub fn walk_selections<'s>(
    doc: &ExecutableDocument,
    schema: &'s SchemaDefinition,
    sels: &Vec<Selection>,
    i: usize,
    scope: Option<&'s TypeDefinition>,
) -> (r: Vec<ValidationError>)
    requires
        i <= sels@.len(),
    ensures
        views_of(r@) == spec_walk_selections(*doc, *schema, sels@, i as int, spec_scope(scope)),
    decreases sels@, sels@.len() - i,
{
    if i >= sels.len() {
        proof {
            assert(views_of(Seq::<ValidationError>::empty()) =~= Seq::<
                SpecValidationError,
            >::empty());
        }
        Vec::new()
    } else {
        let mut out = walk_selection(doc, schema, &sels[i], scope);
        let mut rest = walk_selections(doc, schema, sels, i + 1, scope);
        proof {
            lemma_views_of_add(out@, rest@);
        }
        out.append(&mut rest);
        out
    }
}

/// `ValuesOfCorrectType` on variable definitions: each default value is
/// coerced, in const mode, against the declared variable type.
pub open spec fn spec_variable_default_errors(
    schema: SchemaDefinition,
    vars: Seq<VariableDefinition>,
    i: int,
) -> Seq<SpecValidationError>
    decreases vars.len() - i,
{
    if i < 0 || i >= vars.len() {
        Seq::empty()
    } else {
        let rest = spec_variable_default_errors(schema, vars, i + 1);
        match vars[i].default_value {
            Some(v) => spec_map_coercion(
                spec_coerce_value(schema, vars[i].variable_type@, v, Seq::empty(), true),
            ) + rest,
            None => rest,
        }
    }
}

pub fn variable_default_errors(
    schema: &SchemaDefinition,
    vars: &Vec<VariableDefinition>,
    i: usize,
) -> (r: Vec<ValidationError>)
    requires
        i <= vars@.len(),
    ensures
        views_of(r@) == spec_variable_default_errors(*schema, vars@, i as int),
    decreases vars@.len() - i,
{
    if i >= vars.len() {
        proof {
            assert(views_of(Seq::<ValidationError>::empty()) =~= Seq::<
                SpecValidationError,
            >::empty());
        }
        Vec::new()
    } else {
        let mut rest = variable_default_errors(schema, vars, i + 1);
        match &vars[i].default_value {
            Some(v) => {
                let declared = vars[i].variable_type.to_input_type();
                let empty_path: Vec<PathMember> = Vec::new();
                proof {
                    assert(views_of(empty_path@) =~= Seq::<
                        crate::input_coercion::SpecPathMember,
                    >::empty());
                }
                let mut head = match coerce_value_for_input_type_reference(
                    schema,
                    &declared,
                    v,
                    &empty_path,
                    true,
                ) {
                    Ok(_) => {
                        proof {
                            assert(views_of(Seq::<ValidationError>::empty()) =~= Seq::<
                                SpecValidationError,
                            >::empty());
                        }
                        Vec::new()
                    },
                    Err(es) => map_coercion_errors(es),
                };
                proof {
                    lemma_views_of_add(head@, rest@);
                }
                head.append(&mut rest);
                head
            },
            None => rest,
        }
    }
}

/// The scoped type an operation's selections start under: the schema's
/// root operation type for its kind.
pub open spec fn spec_operation_scope(
    schema: SchemaDefinition,
    op: OperationDefinition,
) -> Option<TypeDefinition> {
    match schema.spec_root_type_name(op.spec_operation_type()) {
        Some(n) => match schema.spec_get_type(n) {
            Some(td) => if td.spec_is_composite() {
                Some(td)
            } else {
                None
            },
            None => None,
        },
        None => None,
    }
}

pub fn operation_scope<'s>(schema: &'s SchemaDefinition, op: &OperationDefinition) -> (r: Option<
    &'s TypeDefinition,
>)
    ensures
        spec_scope(r) == spec_operation_scope(*schema, *op),
{
    match schema.root_type_name(op.operation_type()) {
        Some(n) => match schema.get_type(n) {
            Some(td) => if td.is_composite() {
                Some(td)
            } else {
                None
            },
            None => None,
        },
        None => None,
    }
}

pub open spec fn spec_operation_directive_location(kind: OperationType) -> DirectiveLocation {
    match kind {
        OperationType::Query => DirectiveLocation::Query,
        OperationType::Mutation => DirectiveLocation::Mutation,
        OperationType::Subscription => DirectiveLocation::Subscription,
    }
}

pub open spec fn spec_operation_directives(op: OperationDefinition) -> Seq<Directive> {
    match op {
        OperationDefinition::Explicit(e) => e.directives@,
        OperationDefinition::Implicit(_) => Seq::empty(),
    }
}

/// One operation definition's walk: its variable-definition defaults, its
/// directives at the operation location, then its selections under the
/// root scope.
pub open spec fn spec_walk_operation(
    doc: ExecutableDocument,
    schema: SchemaDefinition,
    op: OperationDefinition,
) -> Seq<SpecValidationError> {
    spec_variable_default_errors(schema, op.spec_variable_definitions(), 0)
        + spec_directive_site_errors(
        schema,
        spec_operation_directives(op),
        spec_operation_directive_location(op.spec_operation_type()),
    ) + spec_walk_selections(
        doc,
        schema,
        op.spec_selection_set().selections@,
        0,
        spec_operation_scope(schema, op),
    )
}

pub fn walk_operation(
    doc: &ExecutableDocument,
    schema: &SchemaDefinition,
    op: &OperationDefinition,
) -> (r: Vec<ValidationError>)
    ensures
        views_of(r@) == spec_walk_operation(*doc, *schema, *op),
{
    let scope = operation_scope(schema, op);
    let location = match op.operation_type() {
        OperationType::Query => DirectiveLocation::Query,
        OperationType::Mutation => DirectiveLocation::Mutation,
        OperationType::Subscription => DirectiveLocation::Subscription,
    };
    let empty_directives: Vec<Directive> = Vec::new();
    let mut out: Vec<ValidationError> = match op {
        OperationDefinition::Explicit(e) => variable_default_errors(
            schema,
            &e.variable_definitions,
            0,
        ),
        OperationDefinition::Implicit(_) => {
            proof {
                assert(views_of(Seq::<ValidationError>::empty()) =~= Seq::<
                    SpecValidationError,
                >::empty());
            }
            Vec::new()
        },
    };
    let mut directive_errors = match op {
        OperationDefinition::Explicit(e) => directive_site_errors(schema, &e.directives, location),
        OperationDefinition::Implicit(_) => directive_site_errors(
            schema,
            &empty_directives,
            location,
        ),
    };
    proof {
        lemma_views_of_add(out@, directive_errors@);
    }
    out.append(&mut directive_errors);
    let mut selection_errors = walk_selections(
        doc,
        schema,
        &op.selection_set().selections,
        0,
        scope,
    );
    proof {
        lemma_views_of_add(out@, selection_errors@);
    }
    out.append(&mut selection_errors);
    out
}

pub open spec fn spec_walk_operations(
    doc: ExecutableDocument,
    schema: SchemaDefinition,
    i: int,
) -> Seq<SpecValidationError>
    decreases doc.operation_definitions@.len() - i,
{
    if i < 0 || i >= doc.operation_definitions@.len() {
        Seq::empty()
    } else {
        spec_walk_operation(doc, schema, doc.operation_definitions@[i]) + spec_walk_operations(
            doc,
            schema,
            i + 1,
        )
    }
}

pub fn walk_operations(doc: &ExecutableDocument, schema: &SchemaDefinition, i: usize) -> (r: Vec<
    ValidationError,
>)
    requires
        i <= doc.operation_definitions@.len(),
    ensures
        views_of(r@) == spec_walk_operations(*doc, *schema, i as int),
    decreases doc.operation_definitions@.len() - i,
{
    if i >= doc.operation_definitions.len() {
        proof {
            assert(views_of(Seq::<ValidationError>::empty()) =~= Seq::<
                SpecValidationError,
            >::empty());
        }
        Vec::new()
    } else {
        let mut out = walk_operation(doc, schema, &doc.operation_definitions[i]);
        let mut rest = walk_operations(doc, schema, i + 1);
        proof {
            lemma_views_of_add(out@, rest@);
        }
        out.append(&mut rest);
        out
    }
}

/// The scoped type a fragment definition's selections are walked under:
/// its type condition when that resolves to a composite.
pub open spec fn spec_fragment_scope(
    schema: SchemaDefinition,
    fd: FragmentDefinition,
) -> Option<TypeDefinition> {
    match schema.spec_get_type(fd.type_condition.value@) {
        Some(td) => if td.spec_is_composite() {
            Some(td)
        } else {
            None
        },
        None => None,
    }
}

/// One fragment definition's walk: `FragmentsOnCompositeTypes`, its
/// directives, then its selections under the condition's scope.
pub open spec fn spec_walk_fragment(
    doc: ExecutableDocument,
    schema: SchemaDefinition,
    fd: FragmentDefinition,
) -> Seq<SpecValidationError> {
    let composite_errors: Seq<SpecValidationError> = match schema.spec_get_type(
        fd.type_condition.value@,
    ) {
        Some(td) => {
            if !td.spec_is_composite() {
                seq![
                    SpecValidationError::FragmentDefinitionTargetTypeNotComposite {
                        fragment_name: fd.name.value@,
                        target_type_name: fd.type_condition.value@,
                        span: fd.span,
                    },
                ]
            } else {
                Seq::empty()
            }
        },
        None => Seq::empty(),
    };
    composite_errors + spec_directive_site_errors(
        schema,
        fd.directives@,
        DirectiveLocation::FragmentDefinition,
    ) + spec_walk_selections(
        doc,
        schema,
        fd.selection_set.selections@,
        0,
        spec_fragment_scope(schema, fd),
    )
}

pub fn walk_fragment(
    doc: &ExecutableDocument,
    schema: &SchemaDefinition,
    fd: &FragmentDefinition,
) -> (r: Vec<ValidationError>)
    ensures
        views_of(r@) == spec_walk_fragment(*doc, *schema, *fd),
{
    let mut out: Vec<ValidationError> = match schema.get_type(&fd.type_condition.value) {
        Some(td) => {
            if !td.is_composite() {
                single(
                    ValidationError::FragmentDefinitionTargetTypeNotComposite {
                        fragment_name: fd.name.value.clone(),
                        target_type_name: fd.type_condition.value.clone(),
                        span: fd.span,
                    },
                )
            } else {
                Vec::new()
            }
        },
        None => Vec::new(),
    };
    proof {
        assert(views_of(Seq::<ValidationError>::empty()) =~= Seq::<SpecValidationError>::empty());
    }
    let mut directive_errors = directive_site_errors(
        schema,
        &fd.directives,
        DirectiveLocation::FragmentDefinition,
    );
    proof {
        lemma_views_of_add(out@, directive_errors@);
    }
    out.append(&mut directive_errors);
    let scope: Option<&TypeDefinition> = match schema.get_type(&fd.type_condition.value) {
        Some(td) => if td.is_composite() {
            Some(td)
        } else {
            None
        },
        None => None,
    };
    let mut selection_errors = walk_selections(doc, schema, &fd.selection_set.selections, 0, scope);
    proof {
        lemma_views_of_add(out@, selection_errors@);
    }
    out.append(&mut selection_errors);
    out
}

pub open spec fn spec_walk_fragments(
    doc: ExecutableDocument,
    schema: SchemaDefinition,
    i: int,
) -> Seq<SpecValidationError>
    decreases doc.fragment_definitions@.len() - i,
{
    if i < 0 || i >= doc.fragment_definitions@.len() {
        Seq::empty()
    } else {
        spec_walk_fragment(doc, schema, doc.fragment_definitions@[i]) + spec_walk_fragments(
            doc,
            schema,
            i + 1,
        )
    }
}

pub fn walk_fragments(doc: &ExecutableDocument, schema: &SchemaDefinition, i: usize) -> (r: Vec<
    ValidationError,
>)
    requires
        i <= doc.fragment_definitions@.len(),
    ensures
        views_of(r@) == spec_walk_fragments(*doc, *schema, i as int),
    decreases doc.fragment_definitions@.len() - i,
{
    if i >= doc.fragment_definitions.len() {
        proof {
            assert(views_of(Seq::<ValidationError>::empty()) =~= Seq::<
                SpecValidationError,
            >::empty());
        }
        Vec::new()
    } else {
        let mut out = walk_fragment(doc, schema, &doc.fragment_definitions[i]);
        let mut rest = walk_fragments(doc, schema, i + 1);
        proof {
            lemma_views_of_add(out@, rest@);
        }
        out.append(&mut rest);
        out
    }
}

/// The single ordered pass of the traversal engine: every operation
/// definition in order, then every fragment definition in order.
pub open spec fn spec_document_walk(
    doc: ExecutableDocument,
    schema: SchemaDefinition,
) -> Seq<SpecValidationError> {
    spec_walk_operations(doc, schema, 0) + spec_walk_fragments(doc, schema, 0)
}

pub fn document_walk(doc: &ExecutableDocument, schema: &SchemaDefinition) -> (r: Vec<
    ValidationError,
>)
    ensures
        views_of(r@) == spec_document_walk(*doc, *schema),
{
    let mut out = walk_operations(doc, schema, 0);
    let mut fragment_errors = walk_fragments(doc, schema, 0);
    proof {
        lemma_views_of_add(out@, fragment_errors@);
    }
    out.append(&mut fragment_errors);
    out
}

} // verus!
