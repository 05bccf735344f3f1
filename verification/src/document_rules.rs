use vstd::prelude::*;

use crate::executable::{ExecutableDocument, OperationDefinition, OperationType};
use crate::merging::{
    document_fuel, expand, first_entry_index, spec_document_fuel, spec_expand,
    spec_first_entry_index, SpecFieldEntry, FieldEntry,
};
use crate::schema::SchemaDefinition;
use crate::seqs::{lemma_views_of_add, lemma_views_of_len, single, views_of};
use crate::span::Span;
use crate::traversal::{operation_scope, spec_operation_scope};
use crate::validation_error::{SpecValidationError, ValidationError};

verus! {

/// `ExecutableDefinitions`: a document must contain at least one
/// definition. Purely syntactic.
pub open spec fn spec_executable_definitions_errors(doc: ExecutableDocument) -> Seq<
    SpecValidationError,
> {
    if doc.operation_definitions@.len() == 0 && doc.fragment_definitions@.len() == 0 {
        seq![SpecValidationError::ExecutableDefinitions { span: Span { start: 0, end: 0 } }]
    } else {
        Seq::empty()
    }
}

pub fn executable_definitions_errors(doc: &ExecutableDocument) -> (r: Vec<ValidationError>)
    ensures
        views_of(r@) == spec_executable_definitions_errors(*doc),
{
    if doc.operation_definitions.len() == 0 && doc.fragment_definitions.len() == 0 {
        single(ValidationError::ExecutableDefinitions { span: Span { start: 0, end: 0 } })
    } else {
        proof {
            assert(views_of(Seq::<ValidationError>::empty()) =~= Seq::<
                SpecValidationError,
            >::empty());
        }
        Vec::new()
    }
}

/// The spans of the anonymous operations, in document order.
pub open spec fn spec_anonymous_spans(ops: Seq<OperationDefinition>, i: int) -> Seq<Span>
    decreases ops.len() - i,
{
    if i < 0 || i >= ops.len() {
        Seq::empty()
    } else if ops[i].spec_name() is None {
        seq![ops[i].spec_span()] + spec_anonymous_spans(ops, i + 1)
    } else {
        spec_anonymous_spans(ops, i + 1)
    }
}

fn anonymous_spans(ops: &Vec<OperationDefinition>, i: usize) -> (r: Vec<Span>)
    requires
        i <= ops@.len(),
    ensures
        r@ == spec_anonymous_spans(ops@, i as int),
    decreases ops@.len() - i,
{
    if i >= ops.len() {
        proof {
            assert(Seq::<Span>::empty() =~= spec_anonymous_spans(ops@, i as int));
        }
        Vec::new()
    } else {
        let mut rest = anonymous_spans(ops, i + 1);
        if ops[i].name().is_none() {
            let mut out: Vec<Span> = Vec::new();
            out.push(ops[i].span());
            out.append(&mut rest);
            proof {
                assert(out@ =~= spec_anonymous_spans(ops@, i as int));
            }
            out
        } else {
            rest
        }
    }
}

/// `LoneAnonymousOperation`: an anonymous operation must be the only
/// operation of its document. One error lists every anonymous operation.
/// Purely syntactic.
pub open spec fn spec_lone_anonymous_operation_errors(doc: ExecutableDocument) -> Seq<
    SpecValidationError,
> {
    let spans = spec_anonymous_spans(doc.operation_definitions@, 0);
    if doc.operation_definitions@.len() != 1 && spans.len() > 0 {
        seq![
            SpecValidationError::NotLoneAnonymousOperation {
                span: spans[0],
                other_spans: spans.drop_first(),
            },
        ]
    } else {
        Seq::empty()
    }
}

pub fn lone_anonymous_operation_errors(doc: &ExecutableDocument) -> (r: Vec<ValidationError>)
    ensures
        views_of(r@) == spec_lone_anonymous_operation_errors(*doc),
{
    let spans = anonymous_spans(&doc.operation_definitions, 0);
    if doc.operation_definitions.len() != 1 && spans.len() > 0 {
        let first = spans[0];
        let ghost old_spans = spans@;
        let mut rest = spans;
        let removed = rest.remove(0);
        proof {
            assert(rest@ =~= old_spans.drop_first());
        }
        single(ValidationError::NotLoneAnonymousOperation { span: first, other_spans: rest })
    } else {
        proof {
            assert(views_of(Seq::<ValidationError>::empty()) =~= Seq::<
                SpecValidationError,
            >::empty());
        }
        Vec::new()
    }
}

pub open spec fn spec_named_count(ops: Seq<OperationDefinition>, name: Seq<char>, i: int) -> int
    decreases ops.len() - i,
{
    if i < 0 || i >= ops.len() {
        0
    } else {
        (match ops[i].spec_name() {
            Some(n) => if n.value@ == name {
                1int
            } else {
                0int
            },
            None => 0int,
        }) + spec_named_count(ops, name, i + 1)
    }
}

pub open spec fn spec_first_named_index(
    ops: Seq<OperationDefinition>,
    name: Seq<char>,
    i: int,
) -> int
    decreases ops.len() - i,
{
    if i < 0 || i >= ops.len() {
        ops.len() as int
    } else {
        match ops[i].spec_name() {
            Some(n) => if n.value@ == name {
                i
            } else {
                spec_first_named_index(ops, name, i + 1)
            },
            None => spec_first_named_index(ops, name, i + 1),
        }
    }
}

pub open spec fn spec_named_spans(ops: Seq<OperationDefinition>, name: Seq<char>, i: int) -> Seq<
    Span,
>
    decreases ops.len() - i,
{
    if i < 0 || i >= ops.len() {
        Seq::empty()
    } else {
        match ops[i].spec_name() {
            Some(n) => if n.value@ == name {
                seq![n.span] + spec_named_spans(ops, name, i + 1)
            } else {
                spec_named_spans(ops, name, i + 1)
            },
            None => spec_named_spans(ops, name, i + 1),
        }
    }
}

fn named_count(ops: &Vec<OperationDefinition>, name: &String, i: usize) -> (r: usize)
    requires
        i <= ops@.len(),
    ensures
        r as int == spec_named_count(ops@, name@, i as int),
        r <= ops@.len() - i,
    decreases ops@.len() - i,
{
    if i >= ops.len() {
        0
    } else {
        let rest = named_count(ops, name, i + 1);
        match ops[i].name() {
            Some(n) => if n.value == *name {
                rest + 1
            } else {
                rest
            },
            None => rest,
        }
    }
}

fn first_named_index(ops: &Vec<OperationDefinition>, name: &String, i: usize) -> (r: usize)
    requires
        i <= ops@.len(),
    ensures
        r as int == spec_first_named_index(ops@, name@, i as int),
        r <= ops@.len(),
    decreases ops@.len() - i,
{
    if i >= ops.len() {
        ops.len()
    } else {
        match ops[i].name() {
            Some(n) => if n.value == *name {
                i
            } else {
                first_named_index(ops, name, i + 1)
            },
            None => first_named_index(ops, name, i + 1),
        }
    }
}

fn named_spans(ops: &Vec<OperationDefinition>, name: &String, i: usize) -> (r: Vec<Span>)
    requires
        i <= ops@.len(),
    ensures
        r@ == spec_named_spans(ops@, name@, i as int),
    decreases ops@.len() - i,
{
    if i >= ops.len() {
        proof {
            assert(Seq::<Span>::empty() =~= spec_named_spans(ops@, name@, i as int));
        }
        Vec::new()
    } else {
        let mut rest = named_spans(ops, name, i + 1);
        match ops[i].name() {
            Some(n) => {
                if n.value == *name {
                    let span = n.span;
                    let mut out: Vec<Span> = Vec::new();
                    out.push(span);
                    out.append(&mut rest);
                    proof {
                        assert(out@ =~= spec_named_spans(ops@, name@, i as int));
                    }
                    out
                } else {
                    rest
                }
            },
            None => rest,
        }
    }
}

/// `NamedOperationUniqueness`: one error per operation name defined more
/// than once, at its first definition. Purely syntactic.
pub open spec fn spec_named_operation_uniqueness_errors(
    ops: Seq<OperationDefinition>,
    i: int,
) -> Seq<SpecValidationError>
    decreases ops.len() - i,
{
    if i < 0 || i >= ops.len() {
        Seq::empty()
    } else {
        let rest = spec_named_operation_uniqueness_errors(ops, i + 1);
        match ops[i].spec_name() {
            Some(n) => {
                if spec_first_named_index(ops, n.value@, 0) == i && spec_named_count(
                    ops,
                    n.value@,
                    0,
                ) > 1 {
                    seq![
                        SpecValidationError::NonUniqueOperationNames {
                            name: n.value@,
                            span: n.span,
                            duplicate_spans: spec_named_spans(ops, n.value@, 0),
                        },
                    ] + rest
                } else {
                    rest
                }
            },
            None => rest,
        }
    }
}

pub fn named_operation_uniqueness_errors(ops: &Vec<OperationDefinition>, i: usize) -> (r: Vec<
    ValidationError,
>)
    requires
        i <= ops@.len(),
    ensures
        views_of(r@) == spec_named_operation_uniqueness_errors(ops@, i as int),
    decreases ops@.len() - i,
{
    if i >= ops.len() {
        proof {
            assert(views_of(Seq::<ValidationError>::empty()) =~= Seq::<
                SpecValidationError,
            >::empty());
        }
        Vec::new()
    } else {
        let mut rest = named_operation_uniqueness_errors(ops, i + 1);
        match ops[i].name() {
            Some(n) => {
                let name = n.value.clone();
                let span = n.span;
                let first = first_named_index(ops, &name, 0);
                let count = named_count(ops, &name, 0);
                if first == i && count > 1 {
                    let e = ValidationError::NonUniqueOperationNames {
                        name: name.clone(),
                        span,
                        duplicate_spans: named_spans(ops, &name, 0),
                    };
                    let mut out = single(e);
                    proof {
                        lemma_views_of_add(out@, rest@);
                    }
                    out.append(&mut rest);
                    out
                } else {
                    rest
                }
            },
            None => rest,
        }
    }
}

/// How many distinct response keys a flattened field set has.
pub open spec fn spec_distinct_key_count(entries: Seq<SpecFieldEntry>, i: int) -> int
    decreases entries.len() - i,
{
    if i < 0 || i >= entries.len() {
        0
    } else {
        (if spec_first_entry_index(entries, entries[i].field.spec_response_key(), 0) == i {
            1int
        } else {
            0int
        }) + spec_distinct_key_count(entries, i + 1)
    }
}

fn distinct_key_count(entries: &Vec<FieldEntry>, i: usize) -> (r: usize)
    requires
        i <= entries@.len(),
    ensures
        r as int == spec_distinct_key_count(views_of(entries@), i as int),
        r <= entries@.len() - i,
    decreases entries@.len() - i,
{
    proof {
        lemma_views_of_len(entries@);
    }
    if i >= entries.len() {
        0
    } else {
        proof {
            crate::seqs::lemma_views_of_index(entries@, i as int);
        }
        let rest = distinct_key_count(entries, i + 1);
        let key = entries[i].field.response_key().clone();
        let first = first_entry_index(entries, &key, 0);
        if first == i {
            rest + 1
        } else {
            rest
        }
    }
}

/// `SubscriptionSingleRootField`: a subscription operation's flattened
/// root field set must hold exactly one response key.
pub open spec fn spec_subscription_root_errors(
    doc: ExecutableDocument,
    schema: SchemaDefinition,
    i: int,
) -> Seq<SpecValidationError>
    decreases doc.operation_definitions@.len() - i,
{
    if i < 0 || i >= doc.operation_definitions@.len() {
        Seq::empty()
    } else {
        let op = doc.operation_definitions@[i];
        let rest = spec_subscription_root_errors(doc, schema, i + 1);
        if op.spec_operation_type() == OperationType::Subscription {
            let entries = spec_expand(
                doc,
                schema,
                op.spec_selection_set().selections@,
                0,
                spec_operation_scope(schema, op),
                Seq::empty(),
                spec_document_fuel(doc) as nat,
            );
            if spec_distinct_key_count(entries, 0) != 1 {
                seq![
                    SpecValidationError::SubscriptionRootNotSingleField { span: op.spec_span() },
                ] + rest
            } else {
                rest
            }
        } else {
            rest
        }
    }
}

pub fn subscription_root_errors(
    doc: &ExecutableDocument,
    schema: &SchemaDefinition,
    i: usize,
) -> (r: Vec<ValidationError>)
    requires
        i <= doc.operation_definitions@.len(),
    ensures
        views_of(r@) == spec_subscription_root_errors(*doc, *schema, i as int),
    decreases doc.operation_definitions@.len() - i,
{
    if i >= doc.operation_definitions.len() {
        proof {
            assert(views_of(Seq::<ValidationError>::empty()) =~= Seq::<
                SpecValidationError,
            >::empty());
        }
        Vec::new()
    } else {
        let op = &doc.operation_definitions[i];
        let mut rest = subscription_root_errors(doc, schema, i + 1);
        if matches!(op.operation_type(), OperationType::Subscription) {
            let scope = operation_scope(schema, op);
            let fuel = document_fuel(doc);
            let no_names: Vec<String> = Vec::new();
            proof {
                assert(views_of(Seq::<String>::empty()) =~= Seq::<Seq<char>>::empty());
            }
            let entries = expand(
                doc,
                schema,
                &op.selection_set().selections,
                0,
                scope,
                &no_names,
                fuel,
            );
            let distinct = distinct_key_count(&entries, 0);
            if distinct != 1 {
                let e = ValidationError::SubscriptionRootNotSingleField { span: op.span() };
                let mut out = single(e);
                proof {
                    lemma_views_of_add(out@, rest@);
                }
                out.append(&mut rest);
                out
            } else {
                rest
            }
        } else {
            rest
        }
    }
}

/// The four document-level rules, in registration order.
pub open spec fn spec_document_rules_errors(
    doc: ExecutableDocument,
    schema: SchemaDefinition,
) -> Seq<SpecValidationError> {
    spec_executable_definitions_errors(doc) + spec_lone_anonymous_operation_errors(doc)
        + spec_named_operation_uniqueness_errors(doc.operation_definitions@, 0)
        + spec_subscription_root_errors(doc, schema, 0)
}

pub fn document_rules_errors(doc: &ExecutableDocument, schema: &SchemaDefinition) -> (r: Vec<
    ValidationError,
>)
    ensures
        views_of(r@) == spec_document_rules_errors(*doc, *schema),
{
    let mut out = executable_definitions_errors(doc);
    let mut lone = lone_anonymous_operation_errors(doc);
    proof {
        lemma_views_of_add(out@, lone@);
    }
    out.append(&mut lone);
    let mut named = named_operation_uniqueness_errors(&doc.operation_definitions, 0);
    proof {
        lemma_views_of_add(out@, named@);
    }
    out.append(&mut named);
    let mut subscription = subscription_root_errors(doc, schema, 0);
    proof {
        lemma_views_of_add(out@, subscription@);
    }
    out.append(&mut subscription);
    out
}

} // verus!
