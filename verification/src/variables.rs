use vstd::prelude::*;

use crate::executable::{
    Argument, Directive, ExecutableDocument, OperationDefinition, Selection, VariableDefinition,
    find_fragment, spec_find_fragment,
};
use crate::fragments::{selections_spread_uses, spec_closure_step, spec_selections_spread_uses};
use crate::schema::{
    InputObjectTypeDefinition, InputValueDefinition, SchemaDefinition, TypeDefinition,
    spec_find_input_value,
};
use crate::seqs::{lemma_views_of_add, lemma_views_of_index, lemma_views_of_len, single, views_of};
use crate::span::Span;
use crate::traversal::{
    FieldResolution, SpecFieldResolution, resolve_field, spec_field_child_scope,
    spec_fragment_scope, spec_inline_scope, spec_operation_scope, spec_resolve_field, spec_scope,
    operation_scope,
};
use crate::types::{
    InputType, InputTypeShape, clone_input_type, spec_variable_usage_allowed,
    variable_usage_allowed,
};
use crate::validation_error::{SpecValidationError, ValidationError};
use crate::value::{Name, Value};

verus! {

/// One use of a variable: its name, where it stands, the input type the
/// position expects (when known), and whether the position carries a
/// default value.
pub struct VariableUsage {
    pub variable_name: String,
    pub span: Span,
    pub expected_type: Option<InputType>,
    pub location_has_default: bool,
}

pub struct SpecVariableUsage {
    pub variable_name: Seq<char>,
    pub span: Span,
    pub expected_type: Option<InputTypeShape>,
    pub location_has_default: bool,
}

impl View for VariableUsage {
    type V = SpecVariableUsage;

    open spec fn view(&self) -> SpecVariableUsage {
        SpecVariableUsage {
            variable_name: self.variable_name@,
            span: self.span,
            expected_type: match &self.expected_type {
                Some(t) => Some(t@),
                None => None,
            },
            location_has_default: self.location_has_default,
        }
    }
}

/// The variable occurrences inside one value, each with the input type its
/// position expects.
pub open spec fn spec_value_usages(
    schema: SchemaDefinition,
    v: Value,
    expected: Option<InputTypeShape>,
    has_default: bool,
) -> Seq<SpecVariableUsage>
    decreases v, 0int, 0int,
{
    match v {
        Value::Variable(var) => seq![
            SpecVariableUsage {
                variable_name: var.name.value@,
                span: var.span,
                expected_type: expected,
                location_has_default: has_default,
            },
        ],
        Value::List(l) => {
            let element_expected: Option<InputTypeShape> = match expected {
                Some(InputTypeShape::List(inner, _)) => Some(*inner),
                _ => None,
            };
            spec_value_list_usages(schema, l.elements@, 0, element_expected)
        },
        Value::Object(o) => {
            let input_object: Option<InputObjectTypeDefinition> = match expected {
                Some(InputTypeShape::Base(n, _)) => match schema.spec_get_type(n) {
                    Some(TypeDefinition::InputObject(iotd)) => Some(iotd),
                    _ => None,
                },
                _ => None,
            };
            spec_object_value_usages(schema, o.fields@, 0, input_object)
        },
        _ => Seq::empty(),
    }
}

pub open spec fn spec_value_list_usages(
    schema: SchemaDefinition,
    elements: Seq<Value>,
    i: int,
    element_expected: Option<InputTypeShape>,
) -> Seq<SpecVariableUsage>
    decreases elements, 1int, elements.len() - i,
{
    if i < 0 || i >= elements.len() {
        Seq::empty()
    } else {
        spec_value_usages(schema, elements[i], element_expected, false)
            + spec_value_list_usages(schema, elements, i + 1, element_expected)
    }
}

pub open spec fn spec_object_value_usages(
    schema: SchemaDefinition,
    fields: Seq<(Name, Value)>,
    j: int,
    input_object: Option<InputObjectTypeDefinition>,
) -> Seq<SpecVariableUsage>
    decreases fields, 1int, fields.len() - j,
{
    if j < 0 || j >= fields.len() {
        Seq::empty()
    } else {
        let position: (Option<InputTypeShape>, bool) = match input_object {
            Some(iotd) => match spec_find_input_value(
                iotd.input_field_definitions@,
                fields[j].0.value@,
                0,
            ) {
                Some(d) => (Some(d.input_type@), d.default_value is Some),
                None => (None, false),
            },
            None => (None, false),
        };
        spec_value_usages(schema, fields[j].1, position.0, position.1)
            + spec_object_value_usages(schema, fields, j + 1, input_object)
    }
}

fn value_usages(
    schema: &SchemaDefinition,
    v: &Value,
    expected: Option<&InputType>,
    has_default: bool,
) -> (r: Vec<VariableUsage>)
    ensures
        views_of(r@) == spec_value_usages(
            *schema,
            *v,
            match expected {
                Some(t) => Some(t@),
                None => None,
            },
            has_default,
        ),
    decreases *v, 0int, 0int,
{
    proof {
        assert(views_of(Seq::<VariableUsage>::empty()) =~= Seq::<SpecVariableUsage>::empty());
    }
    match v {
        Value::Variable(var) => {
            let expected_type: Option<InputType> = match expected {
                Some(t) => Some(clone_input_type(t)),
                None => None,
            };
            single(
                VariableUsage {
                    variable_name: var.name.value.clone(),
                    span: var.span,
                    expected_type,
                    location_has_default: has_default,
                },
            )
        },
        Value::List(l) => {
            let element_expected: Option<&InputType> = match expected {
                Some(InputType::List(inner, _)) => Some(inner),
                _ => None,
            };
            value_list_usages(schema, &l.elements, 0, element_expected)
        },
        Value::Object(o) => {
            let input_object: Option<&InputObjectTypeDefinition> = match expected {
                Some(InputType::Base(n, _)) => match schema.get_type(n) {
                    Some(TypeDefinition::InputObject(iotd)) => Some(iotd),
                    _ => None,
                },
                _ => None,
            };
            object_value_usages(schema, &o.fields, 0, input_object)
        },
        _ => Vec::new(),
    }
}

fn value_list_usages(
    schema: &SchemaDefinition,
    elements: &Vec<Value>,
    i: usize,
    element_expected: Option<&InputType>,
) -> (r: Vec<VariableUsage>)
    requires
        i <= elements@.len(),
    ensures
        views_of(r@) == spec_value_list_usages(
            *schema,
            elements@,
            i as int,
            match element_expected {
                Some(t) => Some(t@),
                None => None,
            },
        ),
    decreases elements@, 1int, elements@.len() - i,
{
    if i >= elements.len() {
        proof {
            assert(views_of(Seq::<VariableUsage>::empty()) =~= Seq::<SpecVariableUsage>::empty());
        }
        Vec::new()
    } else {
        let mut out = value_usages(schema, &elements[i], element_expected, false);
        let mut rest = value_list_usages(schema, elements, i + 1, element_expected);
        proof {
            lemma_views_of_add(out@, rest@);
        }
        out.append(&mut rest);
        out
    }
}

fn object_value_usages(
    schema: &SchemaDefinition,
    fields: &Vec<(Name, Value)>,
    j: usize,
    input_object: Option<&InputObjectTypeDefinition>,
) -> (r: Vec<VariableUsage>)
    requires
        j <= fields@.len(),
    ensures
        views_of(r@) == spec_object_value_usages(
            *schema,
            fields@,
            j as int,
            match input_object {
                Some(io) => Some(*io),
                None => None,
            },
        ),
    decreases fields@, 1int, fields@.len() - j,
{
    if j >= fields.len() {
        proof {
            assert(views_of(Seq::<VariableUsage>::empty()) =~= Seq::<SpecVariableUsage>::empty());
        }
        Vec::new()
    } else {
        let position: (Option<&InputType>, bool) = match input_object {
            Some(iotd) => match crate::schema::find_input_value(
                &iotd.input_field_definitions,
                &fields[j].0.value,
            ) {
                Some(d) => (Some(&d.input_type), d.default_value.is_some()),
                None => (None, false),
            },
            None => (None, false),
        };
        let mut out = value_usages(schema, &fields[j].1, position.0, position.1);
        let mut rest = object_value_usages(schema, fields, j + 1, input_object);
        proof {
            lemma_views_of_add(out@, rest@);
        }
        out.append(&mut rest);
        out
    }
}

/// Variable usages in an argument list; for each declared argument the
/// expected type and default come from its declaration.
pub open spec fn spec_argument_usages(
    schema: SchemaDefinition,
    args: Seq<Argument>,
    i: int,
    defs: Option<Seq<InputValueDefinition>>,
) -> Seq<SpecVariableUsage>
    decreases args.len() - i,
{
    if i < 0 || i >= args.len() {
        Seq::empty()
    } else {
        let position: (Option<InputTypeShape>, bool) = match defs {
            Some(ds) => match spec_find_input_value(ds, args[i].name.value@, 0) {
                Some(d) => (Some(d.input_type@), d.default_value is Some),
                None => (None, false),
            },
            None => (None, false),
        };
        spec_value_usages(schema, args[i].value, position.0, position.1) + spec_argument_usages(
            schema,
            args,
            i + 1,
            defs,
        )
    }
}

fn argument_usages(
    schema: &SchemaDefinition,
    args: &Vec<Argument>,
    i: usize,
    defs: Option<&Vec<InputValueDefinition>>,
) -> (r: Vec<VariableUsage>)
    requires
        i <= args@.len(),
    ensures
        views_of(r@) == spec_argument_usages(
            *schema,
            args@,
            i as int,
            match defs {
                Some(ds) => Some(ds@),
                None => None,
            },
        ),
    decreases args@.len() - i,
{
    if i >= args.len() {
        proof {
            assert(views_of(Seq::<VariableUsage>::empty()) =~= Seq::<SpecVariableUsage>::empty());
        }
        Vec::new()
    } else {
        let position: (Option<&InputType>, bool) = match defs {
            Some(ds) => match crate::schema::find_input_value(ds, &args[i].name.value) {
                Some(d) => (Some(&d.input_type), d.default_value.is_some()),
                None => (None, false),
            },
            None => (None, false),
        };
        let mut out = value_usages(schema, &args[i].value, position.0, position.1);
        let mut rest = argument_usages(schema, args, i + 1, defs);
        proof {
            lemma_views_of_add(out@, rest@);
        }
        out.append(&mut rest);
        out
    }
}

/// Variable usages in a directive list, against each known directive's
/// declared arguments.
pub open spec fn spec_directive_usages(
    schema: SchemaDefinition,
    dirs: Seq<Directive>,
    i: int,
) -> Seq<SpecVariableUsage>
    decreases dirs.len() - i,
{
    if i < 0 || i >= dirs.len() {
        Seq::empty()
    } else {
        let defs: Option<Seq<InputValueDefinition>> = match schema.spec_get_directive(
            dirs[i].name.value@,
        ) {
            Some(dd) => Some(dd.arguments_definition@),
            None => None,
        };
        spec_argument_usages(schema, dirs[i].arguments@, 0, defs) + spec_directive_usages(
            schema,
            dirs,
            i + 1,
        )
    }
}

fn directive_usages(schema: &SchemaDefinition, dirs: &Vec<Directive>, i: usize) -> (r: Vec<
    VariableUsage,
>)
    requires
        i <= dirs@.len(),
    ensures
        views_of(r@) == spec_directive_usages(*schema, dirs@, i as int),
    decreases dirs@.len() - i,
{
    if i >= dirs.len() {
        proof {
            assert(views_of(Seq::<VariableUsage>::empty()) =~= Seq::<SpecVariableUsage>::empty());
        }
        Vec::new()
    } else {
        let defs: Option<&Vec<InputValueDefinition>> = match schema.get_directive(
            &dirs[i].name.value,
        ) {
            Some(dd) => Some(&dd.arguments_definition),
            None => None,
        };
        let mut out = argument_usages(schema, &dirs[i].arguments, 0, defs);
        let mut rest = directive_usages(schema, dirs, i + 1);
        proof {
            lemma_views_of_add(out@, rest@);
        }
        out.append(&mut rest);
        out
    }
}

/// Variable usages of one selection, resolved under the scoped type so
/// that argument positions carry their declared input types.
pub open spec fn spec_selection_usages(
    doc: ExecutableDocument,
    schema: SchemaDefinition,
    sel: Selection,
    scope: Option<TypeDefinition>,
) -> Seq<SpecVariableUsage>
    decreases sel, 0int,
{
    match sel {
        Selection::Field(f) => {
            let res = spec_resolve_field(schema, scope, f.name.value@);
            let defs: Option<Seq<InputValueDefinition>> = match res {
                SpecFieldResolution::Found(fd) => Some(fd.arguments_definition@),
                SpecFieldResolution::Meta => Some(Seq::empty()),
                _ => None,
            };
            let argument_part = spec_argument_usages(schema, f.arguments@, 0, defs);
            let directive_part = spec_directive_usages(schema, f.directives@, 0);
            let sub: Seq<SpecVariableUsage> = match f.selection_set {
                Some(ss) => spec_selections_usages(
                    doc,
                    schema,
                    ss.selections@,
                    0,
                    spec_field_child_scope(schema, res),
                ),
                None => Seq::empty(),
            };
            argument_part + directive_part + sub
        },
        Selection::FragmentSpread(s) => spec_directive_usages(schema, s.directives@, 0),
        Selection::InlineFragment(inf) => {
            spec_directive_usages(schema, inf.directives@, 0) + spec_selections_usages(
                doc,
                schema,
                inf.selection_set.selections@,
                0,
                spec_inline_scope(schema, scope, inf.type_condition),
            )
        },
    }
}

pub open spec fn spec_selections_usages(
    doc: ExecutableDocument,
    schema: SchemaDefinition,
    sels: Seq<Selection>,
    i: int,
    scope: Option<TypeDefinition>,
) -> Seq<SpecVariableUsage>
    decreases sels, sels.len() - i,
{
    if i < 0 || i >= sels.len() {
        Seq::empty()
    } else {
        spec_selection_usages(doc, schema, sels[i], scope) + spec_selections_usages(
            doc,
            schema,
            sels,
            i + 1,
            scope,
        )
    }
}

fn selection_usages<'s>(
    doc: &ExecutableDocument,
    schema: &'s SchemaDefinition,
    sel: &Selection,
    scope: Option<&'s TypeDefinition>,
) -> (r: Vec<VariableUsage>)
    ensures
        views_of(r@) == spec_selection_usages(*doc, *schema, *sel, spec_scope(scope)),
    decreases *sel, 0int,
{
    proof {
        assert(views_of(Seq::<VariableUsage>::empty()) =~= Seq::<SpecVariableUsage>::empty());
    }
    match sel {
        Selection::Field(f) => {
            let res = resolve_field(schema, scope, &f.name.value);
            let empty_defs: Vec<InputValueDefinition> = Vec::new();
            let defs: Option<&Vec<InputValueDefinition>> = match &res {
                FieldResolution::Found(fd) => Some(&fd.arguments_definition),
                FieldResolution::Meta => Some(&empty_defs),
                _ => None,
            };
            let mut out = argument_usages(schema, &f.arguments, 0, defs);
            let mut directive_part = directive_usages(schema, &f.directives, 0);
            proof {
                lemma_views_of_add(out@, directive_part@);
            }
            out.append(&mut directive_part);
            match &f.selection_set {
                Some(ss) => {
                    let child_scope: Option<&TypeDefinition> = match &res {
                        FieldResolution::Found(fd) => {
                            match schema.get_type(fd.output_type.base_name()) {
                                Some(bt) => if bt.is_composite() {
                                    Some(bt)
                                } else {
                                    None
                                },
                                None => None,
                            }
                        },
                        _ => None,
                    };
                    let mut sub = selections_usages(doc, schema, &ss.selections, 0, child_scope);
                    proof {
                        lemma_views_of_add(out@, sub@);
                    }
                    out.append(&mut sub);
                },
                None => {
                    proof {
                        assert(views_of(out@) + Seq::<SpecVariableUsage>::empty() =~= views_of(
                            out@,
                        ));
                    }
                },
            }
            out
        },
        Selection::FragmentSpread(s) => directive_usages(schema, &s.directives, 0),
        Selection::InlineFragment(inf) => {
            let mut out = directive_usages(schema, &inf.directives, 0);
            let child_scope: Option<&TypeDefinition> = match &inf.type_condition {
                Some(c) => match schema.get_type(&c.value) {
                    Some(t) => if t.is_composite() {
                        Some(t)
                    } else {
                        scope
                    },
                    None => scope,
                },
                None => scope,
            };
            let mut sub = selections_usages(doc, schema, &inf.selection_set.selections, 0, child_scope);
            proof {
                lemma_views_of_add(out@, sub@);
            }
            out.append(&mut sub);
            out
        },
    }
}

fn selections_usages<'s>(
    doc: &ExecutableDocument,
    schema: &'s SchemaDefinition,
    sels: &Vec<Selection>,
    i: usize,
    scope: Option<&'s TypeDefinition>,
) -> (r: Vec<VariableUsage>)
    requires
        i <= sels@.len(),
    ensures
        views_of(r@) == spec_selections_usages(*doc, *schema, sels@, i as int, spec_scope(scope)),
    decreases sels@, sels@.len() - i,
{
    if i >= sels.len() {
        proof {
            assert(views_of(Seq::<VariableUsage>::empty()) =~= Seq::<SpecVariableUsage>::empty());
        }
        Vec::new()
    } else {
        let mut out = selection_usages(doc, schema, &sels[i], scope);
        let mut rest = selections_usages(doc, schema, sels, i + 1, scope);
        proof {
            lemma_views_of_add(out@, rest@);
        }
        out.append(&mut rest);
        out
    }
}

/// Usages contributed by the fragments of an operation's closure, in
/// discovery order.
pub open spec fn spec_fragments_usages(
    doc: ExecutableDocument,
    schema: SchemaDefinition,
    names: Seq<Seq<char>>,
    i: int,
) -> Seq<SpecVariableUsage>
    decreases names.len() - i,
{
    if i < 0 || i >= names.len() {
        Seq::empty()
    } else {
        let head: Seq<SpecVariableUsage> = match spec_find_fragment(
            doc.fragment_definitions@,
            names[i],
            0,
        ) {
            Some(fd) => spec_selections_usages(
                doc,
                schema,
                fd.selection_set.selections@,
                0,
                spec_fragment_scope(schema, fd),
            ),
            None => Seq::empty(),
        };
        head + spec_fragments_usages(doc, schema, names, i + 1)
    }
}

fn fragments_usages(
    doc: &ExecutableDocument,
    schema: &SchemaDefinition,
    names: &Vec<String>,
    i: usize,
) -> (r: Vec<VariableUsage>)
    requires
        i <= names@.len(),
    ensures
        views_of(r@) == spec_fragments_usages(*doc, *schema, views_of(names@), i as int),
    decreases names@.len() - i,
{
    proof {
        lemma_views_of_len(names@);
    }
    if i >= names.len() {
        proof {
            assert(views_of(Seq::<VariableUsage>::empty()) =~= Seq::<SpecVariableUsage>::empty());
        }
        Vec::new()
    } else {
        proof {
            lemma_views_of_index(names@, i as int);
        }
        let mut out: Vec<VariableUsage> = match find_fragment(
            &doc.fragment_definitions,
            &names[i],
        ) {
            Some(fd) => {
                let scope: Option<&TypeDefinition> = match schema.get_type(
                    &fd.type_condition.value,
                ) {
                    Some(td) => if td.is_composite() {
                        Some(td)
                    } else {
                        None
                    },
                    None => None,
                };
                selections_usages(doc, schema, &fd.selection_set.selections, 0, scope)
            },
            None => Vec::new(),
        };
        let mut rest = fragments_usages(doc, schema, names, i + 1);
        proof {
            lemma_views_of_add(out@, rest@);
        }
        out.append(&mut rest);
        out
    }
}

/// Every variable usage an operation can reach: its own selections, then
/// the fragments of its closure.
pub open spec fn spec_operation_usages(
    doc: ExecutableDocument,
    schema: SchemaDefinition,
    op: OperationDefinition,
) -> Seq<SpecVariableUsage> {
    let closure = spec_closure_step(
        doc,
        spec_selections_spread_uses(op.spec_selection_set().selections@, 0),
        0,
        Seq::empty(),
        doc.fragment_definitions@.len() as nat,
    );
    spec_selections_usages(
        doc,
        schema,
        op.spec_selection_set().selections@,
        0,
        spec_operation_scope(schema, op),
    ) + spec_fragments_usages(doc, schema, closure, 0)
}

fn operation_usages(
    doc: &ExecutableDocument,
    schema: &SchemaDefinition,
    op: &OperationDefinition,
) -> (r: Vec<VariableUsage>)
    ensures
        views_of(r@) == spec_operation_usages(*doc, *schema, *op),
{
    let scope = operation_scope(schema, op);
    let mut out = selections_usages(doc, schema, &op.selection_set().selections, 0, scope);
    let root_uses = selections_spread_uses(&op.selection_set().selections, 0);
    let no_names: Vec<String> = Vec::new();
    proof {
        assert(views_of(Seq::<String>::empty()) =~= Seq::<Seq<char>>::empty());
    }
    let closure = crate::fragments::closure_step(
        doc,
        &root_uses,
        0,
        no_names,
        doc.fragment_definitions.len(),
    );
    let mut fragment_part = fragments_usages(doc, schema, &closure, 0);
    proof {
        lemma_views_of_add(out@, fragment_part@);
    }
    out.append(&mut fragment_part);
    out
}

pub open spec fn spec_variable_count(
    vars: Seq<VariableDefinition>,
    name: Seq<char>,
    i: int,
) -> int
    decreases vars.len() - i,
{
    if i < 0 || i >= vars.len() {
        0
    } else {
        (if vars[i].variable.value@ == name {
            1int
        } else {
            0int
        }) + spec_variable_count(vars, name, i + 1)
    }
}

pub open spec fn spec_first_variable_index(
    vars: Seq<VariableDefinition>,
    name: Seq<char>,
    i: int,
) -> int
    decreases vars.len() - i,
{
    if i < 0 || i >= vars.len() {
        vars.len() as int
    } else if vars[i].variable.value@ == name {
        i
    } else {
        spec_first_variable_index(vars, name, i + 1)
    }
}

pub open spec fn spec_variable_spans(
    vars: Seq<VariableDefinition>,
    name: Seq<char>,
    i: int,
) -> Seq<Span>
    decreases vars.len() - i,
{
    if i < 0 || i >= vars.len() {
        Seq::empty()
    } else if vars[i].variable.value@ == name {
        seq![vars[i].variable.span] + spec_variable_spans(vars, name, i + 1)
    } else {
        spec_variable_spans(vars, name, i + 1)
    }
}

/// The first variable definition with the given name, if any.
pub open spec fn spec_find_variable(
    vars: Seq<VariableDefinition>,
    name: Seq<char>,
    i: int,
) -> Option<VariableDefinition>
    decreases vars.len() - i,
{
    if i < 0 || i >= vars.len() {
        None
    } else if vars[i].variable.value@ == name {
        Some(vars[i])
    } else {
        spec_find_variable(vars, name, i + 1)
    }
}

fn variable_count(vars: &Vec<VariableDefinition>, name: &String, i: usize) -> (r: usize)
    requires
        i <= vars@.len(),
    ensures
        r as int == spec_variable_count(vars@, name@, i as int),
        r <= vars@.len() - i,
    decreases vars@.len() - i,
{
    if i >= vars.len() {
        0
    } else {
        let rest = variable_count(vars, name, i + 1);
        if vars[i].variable.value == *name {
            rest + 1
        } else {
            rest
        }
    }
}

fn first_variable_index(vars: &Vec<VariableDefinition>, name: &String, i: usize) -> (r: usize)
    requires
        i <= vars@.len(),
    ensures
        r as int == spec_first_variable_index(vars@, name@, i as int),
        r <= vars@.len(),
    decreases vars@.len() - i,
{
    if i >= vars.len() {
        vars.len()
    } else if vars[i].variable.value == *name {
        i
    } else {
        first_variable_index(vars, name, i + 1)
    }
}

fn variable_spans(vars: &Vec<VariableDefinition>, name: &String, i: usize) -> (r: Vec<Span>)
    requires
        i <= vars@.len(),
    ensures
        r@ == spec_variable_spans(vars@, name@, i as int),
    decreases vars@.len() - i,
{
    if i >= vars.len() {
        proof {
            assert(Seq::<Span>::empty() =~= spec_variable_spans(vars@, name@, i as int));
        }
        Vec::new()
    } else {
        let mut rest = variable_spans(vars, name, i + 1);
        if vars[i].variable.value == *name {
            let mut out: Vec<Span> = Vec::new();
            out.push(vars[i].variable.span);
            out.append(&mut rest);
            proof {
                assert(out@ =~= spec_variable_spans(vars@, name@, i as int));
            }
            out
        } else {
            rest
        }
    }
}

fn find_variable<'a>(vars: &'a Vec<VariableDefinition>, name: &String, i: usize) -> (r: Option<
    &'a VariableDefinition,
>)
    requires
        i <= vars@.len(),
    ensures
        match r {
            Some(vd) => spec_find_variable(vars@, name@, i as int) == Some(*vd),
            None => spec_find_variable(vars@, name@, i as int) is None,
        },
    decreases vars@.len() - i,
{
    if i >= vars.len() {
        None
    } else if vars[i].variable.value == *name {
        Some(&vars[i])
    } else {
        find_variable(vars, name, i + 1)
    }
}

pub open spec fn spec_first_usage_index(
    usages: Seq<SpecVariableUsage>,
    name: Seq<char>,
    i: int,
) -> int
    decreases usages.len() - i,
{
    if i < 0 || i >= usages.len() {
        usages.len() as int
    } else if usages[i].variable_name == name {
        i
    } else {
        spec_first_usage_index(usages, name, i + 1)
    }
}

fn first_usage_index(usages: &Vec<VariableUsage>, name: &String, i: usize) -> (r: usize)
    requires
        i <= usages@.len(),
    ensures
        r as int == spec_first_usage_index(views_of(usages@), name@, i as int),
        r <= usages@.len(),
    decreases usages@.len() - i,
{
    proof {
        lemma_views_of_len(usages@);
    }
    if i >= usages.len() {
        usages.len()
    } else {
        proof {
            lemma_views_of_index(usages@, i as int);
        }
        if usages[i].variable_name == *name {
            i
        } else {
            first_usage_index(usages, name, i + 1)
        }
    }
}

/// `VariableUniqueness`: one error per variable name defined more than
/// once in one operation, at its first definition. Purely syntactic.
pub open spec fn spec_variable_uniqueness_errors(vars: Seq<VariableDefinition>, i: int) -> Seq<
    SpecValidationError,
>
    decreases vars.len() - i,
{
    if i < 0 || i >= vars.len() {
        Seq::empty()
    } else {
        let name = vars[i].variable.value@;
        let rest = spec_variable_uniqueness_errors(vars, i + 1);
        if spec_first_variable_index(vars, name, 0) == i && spec_variable_count(vars, name, 0)
            > 1 {
            seq![
                SpecValidationError::NonUniqueVariableNames {
                    variable_name: name,
                    span: vars[i].variable.span,
                    duplicate_spans: spec_variable_spans(vars, name, 0),
                },
            ] + rest
        } else {
            rest
        }
    }
}

fn variable_uniqueness_errors(vars: &Vec<VariableDefinition>, i: usize) -> (r: Vec<
    ValidationError,
>)
    requires
        i <= vars@.len(),
    ensures
        views_of(r@) == spec_variable_uniqueness_errors(vars@, i as int),
    decreases vars@.len() - i,
{
    if i >= vars.len() {
        proof {
            assert(views_of(Seq::<ValidationError>::empty()) =~= Seq::<
                SpecValidationError,
            >::empty());
        }
        Vec::new()
    } else {
        let mut rest = variable_uniqueness_errors(vars, i + 1);
        let name = &vars[i].variable.value;
        let first = first_variable_index(vars, name, 0);
        let count = variable_count(vars, name, 0);
        if first == i && count > 1 {
            let e = ValidationError::NonUniqueVariableNames {
                variable_name: name.clone(),
                span: vars[i].variable.span,
                duplicate_spans: variable_spans(vars, name, 0),
            };
            let mut out = single(e);
            proof {
                lemma_views_of_add(out@, rest@);
            }
            out.append(&mut rest);
            out
        } else {
            rest
        }
    }
}

/// `VariablesAreInputTypes`: a variable's declared type must name an input
/// type: a scalar, an enum, or an input object.
pub open spec fn spec_variable_input_type_errors(
    schema: SchemaDefinition,
    vars: Seq<VariableDefinition>,
    i: int,
) -> Seq<SpecValidationError>
    decreases vars.len() - i,
{
    if i < 0 || i >= vars.len() {
        Seq::empty()
    } else {
        let rest = spec_variable_input_type_errors(schema, vars, i + 1);
        match schema.spec_get_type(vars[i].variable_type@.base_name()) {
            Some(td) => {
                if !td.spec_is_input() {
                    seq![
                        SpecValidationError::VariableTypeNotInput {
                            variable_name: vars[i].variable.value@,
                            variable_type_name: vars[i].variable_type@.display(),
                            span: vars[i].variable_type.spec_span(),
                        },
                    ] + rest
                } else {
                    rest
                }
            },
            None => rest,
        }
    }
}

fn variable_input_type_errors(
    schema: &SchemaDefinition,
    vars: &Vec<VariableDefinition>,
    i: usize,
) -> (r: Vec<ValidationError>)
    requires
        i <= vars@.len(),
    ensures
        views_of(r@) == spec_variable_input_type_errors(*schema, vars@, i as int),
    decreases vars@.len() - i,
{
    if i >= vars.len() {
        proof {
            assert(views_of(Seq::<ValidationError>::empty()) =~= Seq::<
                SpecValidationError,
            >::empty());
        }
        Vec::new()
    } else {
        let mut rest = variable_input_type_errors(schema, vars, i + 1);
        let declared = vars[i].variable_type.to_input_type();
        match schema.get_type(declared.base_name()) {
            Some(td) => {
                if !td.is_input() {
                    let e = ValidationError::VariableTypeNotInput {
                        variable_name: vars[i].variable.value.clone(),
                        variable_type_name: vars[i].variable_type.display_name(),
                        span: vars[i].variable_type.span(),
                    };
                    let mut out = single(e);
                    proof {
                        lemma_views_of_add(out@, rest@);
                    }
                    out.append(&mut rest);
                    out
                } else {
                    rest
                }
            },
            None => rest,
        }
    }
}

/// `NoUndefinedVariables`: every variable used in the operation's closure
/// must be defined by the operation; one error per distinct name, at its
/// first use.
pub open spec fn spec_undefined_variable_errors(
    vars: Seq<VariableDefinition>,
    usages: Seq<SpecVariableUsage>,
    i: int,
) -> Seq<SpecValidationError>
    decreases usages.len() - i,
{
    if i < 0 || i >= usages.len() {
        Seq::empty()
    } else {
        let rest = spec_undefined_variable_errors(vars, usages, i + 1);
        let name = usages[i].variable_name;
        if spec_first_usage_index(usages, name, 0) == i && spec_find_variable(vars, name, 0)
            is None {
            seq![
                SpecValidationError::VariableUndefined { variable_name: name, span: usages[i].span },
            ] + rest
        } else {
            rest
        }
    }
}

fn undefined_variable_errors(
    vars: &Vec<VariableDefinition>,
    usages: &Vec<VariableUsage>,
    i: usize,
) -> (r: Vec<ValidationError>)
    requires
        i <= usages@.len(),
    ensures
        views_of(r@) == spec_undefined_variable_errors(vars@, views_of(usages@), i as int),
    decreases usages@.len() - i,
{
    proof {
        lemma_views_of_len(usages@);
    }
    if i >= usages.len() {
        proof {
            assert(views_of(Seq::<ValidationError>::empty()) =~= Seq::<
                SpecValidationError,
            >::empty());
        }
        Vec::new()
    } else {
        proof {
            lemma_views_of_index(usages@, i as int);
        }
        let mut rest = undefined_variable_errors(vars, usages, i + 1);
        let name = &usages[i].variable_name;
        let first = first_usage_index(usages, name, 0);
        let defined = find_variable(vars, name, 0);
        if first == i && defined.is_none() {
            let e = ValidationError::VariableUndefined {
                variable_name: name.clone(),
                span: usages[i].span,
            };
            let mut out = single(e);
            proof {
                lemma_views_of_add(out@, rest@);
            }
            out.append(&mut rest);
            out
        } else {
            rest
        }
    }
}

/// `NoUnusedVariables`: every variable an operation defines must be used
/// somewhere in its closure.
pub open spec fn spec_unused_variable_errors(
    vars: Seq<VariableDefinition>,
    i: int,
    usages: Seq<SpecVariableUsage>,
) -> Seq<SpecValidationError>
    decreases vars.len() - i,
{
    if i < 0 || i >= vars.len() {
        Seq::empty()
    } else {
        let rest = spec_unused_variable_errors(vars, i + 1, usages);
        if spec_first_usage_index(usages, vars[i].variable.value@, 0) == usages.len() {
            seq![
                SpecValidationError::VariableUnused {
                    variable_name: vars[i].variable.value@,
                    span: vars[i].variable.span,
                },
            ] + rest
        } else {
            rest
        }
    }
}

fn unused_variable_errors(
    vars: &Vec<VariableDefinition>,
    i: usize,
    usages: &Vec<VariableUsage>,
) -> (r: Vec<ValidationError>)
    requires
        i <= vars@.len(),
    ensures
        views_of(r@) == spec_unused_variable_errors(vars@, i as int, views_of(usages@)),
    decreases vars@.len() - i,
{
    proof {
        lemma_views_of_len(usages@);
    }
    if i >= vars.len() {
        proof {
            assert(views_of(Seq::<ValidationError>::empty()) =~= Seq::<
                SpecValidationError,
            >::empty());
        }
        Vec::new()
    } else {
        let mut rest = unused_variable_errors(vars, i + 1, usages);
        let first = first_usage_index(usages, &vars[i].variable.value, 0);
        if first == usages.len() {
            let e = ValidationError::VariableUnused {
                variable_name: vars[i].variable.value.clone(),
                span: vars[i].variable.span,
            };
            let mut out = single(e);
            proof {
                lemma_views_of_add(out@, rest@);
            }
            out.append(&mut rest);
            out
        } else {
            rest
        }
    }
}

/// Whether a variable definition's default lets it stand in a non-null
/// location: a default that exists and is not null.
pub open spec fn spec_has_non_null_default(vd: VariableDefinition) -> bool {
    match vd.default_value {
        Some(d) => !(d is Null),
        None => false,
    }
}

/// `AllVariableUsagesAreAllowed`: at every usage whose position's type is
/// known, the declared variable type must fit the position.
pub open spec fn spec_usage_allowed_errors(
    vars: Seq<VariableDefinition>,
    usages: Seq<SpecVariableUsage>,
    i: int,
) -> Seq<SpecValidationError>
    decreases usages.len() - i,
{
    if i < 0 || i >= usages.len() {
        Seq::empty()
    } else {
        let rest = spec_usage_allowed_errors(vars, usages, i + 1);
        match usages[i].expected_type {
            Some(location_type) => match spec_find_variable(vars, usages[i].variable_name, 0) {
                Some(vd) => {
                    let has_default = usages[i].location_has_default
                        || spec_has_non_null_default(vd);
                    if !spec_variable_usage_allowed(
                        vd.variable_type@,
                        location_type,
                        has_default,
                    ) {
                        seq![
                            SpecValidationError::InvalidVariableUsage {
                                variable_name: usages[i].variable_name,
                                variable_type_name: vd.variable_type@.display(),
                                location_type_name: location_type.display(),
                                span: usages[i].span,
                            },
                        ] + rest
                    } else {
                        rest
                    }
                },
                None => rest,
            },
            None => rest,
        }
    }
}

fn usage_allowed_errors(
    vars: &Vec<VariableDefinition>,
    usages: &Vec<VariableUsage>,
    i: usize,
) -> (r: Vec<ValidationError>)
    requires
        i <= usages@.len(),
    ensures
        views_of(r@) == spec_usage_allowed_errors(vars@, views_of(usages@), i as int),
    decreases usages@.len() - i,
{
    proof {
        lemma_views_of_len(usages@);
    }
    if i >= usages.len() {
        proof {
            assert(views_of(Seq::<ValidationError>::empty()) =~= Seq::<
                SpecValidationError,
            >::empty());
        }
        Vec::new()
    } else {
        proof {
            lemma_views_of_index(usages@, i as int);
        }
        let mut rest = usage_allowed_errors(vars, usages, i + 1);
        match &usages[i].expected_type {
            Some(location_type) => match find_variable(vars, &usages[i].variable_name, 0) {
                Some(vd) => {
                    let has_default = usages[i].location_has_default || (match &vd.default_value {
                        Some(d) => !matches!(d, Value::Null(_)),
                        None => false,
                    });
                    let declared = vd.variable_type.to_input_type();
                    if !variable_usage_allowed(&declared, location_type, has_default) {
                        let e = ValidationError::InvalidVariableUsage {
                            variable_name: usages[i].variable_name.clone(),
                            variable_type_name: vd.variable_type.display_name(),
                            location_type_name: location_type.display_name(),
                            span: usages[i].span,
                        };
                        let mut out = single(e);
                        proof {
                            lemma_views_of_add(out@, rest@);
                        }
                        out.append(&mut rest);
                        out
                    } else {
                        rest
                    }
                },
                None => rest,
            },
            None => rest,
        }
    }
}

/// All five variable rules for one operation, each over the operation's
/// definitions and its closure's usages.
pub open spec fn spec_operation_variable_errors(
    doc: ExecutableDocument,
    schema: SchemaDefinition,
    op: OperationDefinition,
) -> Seq<SpecValidationError> {
    let vars = op.spec_variable_definitions();
    let usages = spec_operation_usages(doc, schema, op);
    spec_variable_uniqueness_errors(vars, 0) + spec_variable_input_type_errors(schema, vars, 0)
        + spec_undefined_variable_errors(vars, usages, 0) + spec_unused_variable_errors(
        vars,
        0,
        usages,
    ) + spec_usage_allowed_errors(vars, usages, 0)
}

fn operation_variable_errors(
    doc: &ExecutableDocument,
    schema: &SchemaDefinition,
    op: &OperationDefinition,
) -> (r: Vec<ValidationError>)
    ensures
        views_of(r@) == spec_operation_variable_errors(*doc, *schema, *op),
{
    let empty_vars: Vec<VariableDefinition> = Vec::new();
    let usages = operation_usages(doc, schema, op);
    let vars: &Vec<VariableDefinition> = match op {
        OperationDefinition::Explicit(e) => &e.variable_definitions,
        OperationDefinition::Implicit(_) => &empty_vars,
    };
    let mut out = variable_uniqueness_errors(vars, 0);
    let mut input_type_part = variable_input_type_errors(schema, vars, 0);
    proof {
        lemma_views_of_add(out@, input_type_part@);
    }
    out.append(&mut input_type_part);
    let mut undefined_part = undefined_variable_errors(vars, &usages, 0);
    proof {
        lemma_views_of_add(out@, undefined_part@);
    }
    out.append(&mut undefined_part);
    let mut unused_part = unused_variable_errors(vars, 0, &usages);
    proof {
        lemma_views_of_add(out@, unused_part@);
    }
    out.append(&mut unused_part);
    let mut allowed_part = usage_allowed_errors(vars, &usages, 0);
    proof {
        lemma_views_of_add(out@, allowed_part@);
    }
    out.append(&mut allowed_part);
    out
}

/// The variable rules over every operation, in document order.
pub open spec fn spec_variables_rules_errors(
    doc: ExecutableDocument,
    schema: SchemaDefinition,
    i: int,
) -> Seq<SpecValidationError>
    decreases doc.operation_definitions@.len() - i,
{
    if i < 0 || i >= doc.operation_definitions@.len() {
        Seq::empty()
    } else {
        spec_operation_variable_errors(doc, schema, doc.operation_definitions@[i])
            + spec_variables_rules_errors(doc, schema, i + 1)
    }
}

pub fn variables_rules_errors(
    doc: &ExecutableDocument,
    schema: &SchemaDefinition,
    i: usize,
) -> (r: Vec<ValidationError>)
    requires
        i <= doc.operation_definitions@.len(),
    ensures
        views_of(r@) == spec_variables_rules_errors(*doc, *schema, i as int),
    decreases doc.operation_definitions@.len() - i,
{
    if i >= doc.operation_definitions.len() {
        proof {
            assert(views_of(Seq::<ValidationError>::empty()) =~= Seq::<
                SpecValidationError,
            >::empty());
        }
        Vec::new()
    } else {
        let mut out = operation_variable_errors(doc, schema, &doc.operation_definitions[i]);
        let mut rest = variables_rules_errors(doc, schema, i + 1);
        proof {
            lemma_views_of_add(out@, rest@);
        }
        out.append(&mut rest);
        out
    }
}

} // verus!
