use vstd::prelude::*;

use crate::document_rules::{document_rules_errors, spec_document_rules_errors};
use crate::executable::ExecutableDocument;
use crate::fragments::{
    fragment_cycle_errors, fragment_name_uniqueness_errors, fragments_must_be_used_errors,
    spec_fragment_cycle_errors, spec_fragment_name_uniqueness_errors,
    spec_fragments_must_be_used_errors,
};
use crate::input_coercion::PathMember;
use crate::merging::{field_merging_errors, spec_field_merging_errors};
use crate::schema::SchemaDefinition;
use crate::seqs::{
    clone_strings, lemma_take_all, lemma_take_push, lemma_views_of_add, lemma_views_of_index,
    lemma_views_of_len, lemma_views_of_push, single, views_of,
};
use crate::span::Span;
use crate::traversal::{document_walk, spec_document_walk};
use crate::validation_error::{
    SpecValidationError, ValidationError, spec_rule_count, spec_rule_of,
};
use crate::variables::{spec_variables_rules_errors, variables_rules_errors};

verus! {

fn copy_spans(v: &Vec<Span>) -> (r: Vec<Span>)
    ensures
        r@ == v@,
{
    let mut out: Vec<Span> = Vec::new();
    let mut i: usize = 0;
    proof {
        assert(out@ =~= v@.take(0int));
    }
    while i < v.len()
        invariant
            i <= v@.len(),
            out@ == v@.take(i as int),
        decreases v@.len() - i,
    {
        out.push(v[i]);
        proof {
            lemma_take_push(v@, i as int);
        }
        i += 1;
    }
    proof {
        lemma_take_all(v@);
    }
    out
}

/// A copy of a validation error whose ghost form is the same.
pub fn clone_validation_error(e: &ValidationError) -> (r: ValidationError)
    ensures
        r@ == e@,
{
    match e {
        ValidationError::ExecutableDefinitions { span } => {
            ValidationError::ExecutableDefinitions { span: *span }
        },
        ValidationError::NotLoneAnonymousOperation { span, other_spans } => {
            ValidationError::NotLoneAnonymousOperation {
                span: *span,
                other_spans: copy_spans(other_spans),
            }
        },
        ValidationError::NonUniqueOperationNames { name, span, duplicate_spans } => {
            ValidationError::NonUniqueOperationNames {
                name: name.clone(),
                span: *span,
                duplicate_spans: copy_spans(duplicate_spans),
            }
        },
        ValidationError::SubscriptionRootNotSingleField { span } => {
            ValidationError::SubscriptionRootNotSingleField { span: *span }
        },
        ValidationError::FieldDoesNotExistOnType { field_name, parent_type_name, span } => {
            ValidationError::FieldDoesNotExistOnType {
                field_name: field_name.clone(),
                parent_type_name: parent_type_name.clone(),
                span: *span,
            }
        },
        ValidationError::LeafFieldSelectionsNotOnType { field_name, base_type_name, span } => {
            ValidationError::LeafFieldSelectionsNotOnType {
                field_name: field_name.clone(),
                base_type_name: base_type_name.clone(),
                span: *span,
            }
        },
        ValidationError::NonLeafFieldSelectionOnLeafType { field_name, base_type_name, span } => {
            ValidationError::NonLeafFieldSelectionOnLeafType {
                field_name: field_name.clone(),
                base_type_name: base_type_name.clone(),
                span: *span,
            }
        },
        ValidationError::FieldSelectionsDoNotMerge { response_key, span, other_span } => {
            ValidationError::FieldSelectionsDoNotMerge {
                response_key: response_key.clone(),
                span: *span,
                other_span: *other_span,
            }
        },
        ValidationError::ArgumentDoesNotExistOnField { argument_name, field_name, span } => {
            ValidationError::ArgumentDoesNotExistOnField {
                argument_name: argument_name.clone(),
                field_name: field_name.clone(),
                span: *span,
            }
        },
        ValidationError::ArgumentDoesNotExistOnDirective {
            argument_name,
            directive_name,
            span,
        } => {
            ValidationError::ArgumentDoesNotExistOnDirective {
                argument_name: argument_name.clone(),
                directive_name: directive_name.clone(),
                span: *span,
            }
        },
        ValidationError::NonUniqueArgumentNames { name, span, duplicate_spans } => {
            ValidationError::NonUniqueArgumentNames {
                name: name.clone(),
                span: *span,
                duplicate_spans: copy_spans(duplicate_spans),
            }
        },
        ValidationError::RequiredArgumentMissing { name, owner_name, span } => {
            ValidationError::RequiredArgumentMissing {
                name: name.clone(),
                owner_name: owner_name.clone(),
                span: *span,
            }
        },
        ValidationError::NullValueForRequiredType { input_type_name, span, path } => {
            ValidationError::NullValueForRequiredType {
                input_type_name: input_type_name.clone(),
                span: *span,
                path: crate::input_coercion::clone_path(path),
            }
        },
        ValidationError::NoImplicitConversion { input_type_name, span, path } => {
            ValidationError::NoImplicitConversion {
                input_type_name: input_type_name.clone(),
                span: *span,
                path: crate::input_coercion::clone_path(path),
            }
        },
        ValidationError::NoEnumMemberWithName { name, enum_type_name, span, path } => {
            ValidationError::NoEnumMemberWithName {
                name: name.clone(),
                enum_type_name: enum_type_name.clone(),
                span: *span,
                path: crate::input_coercion::clone_path(path),
            }
        },
        ValidationError::NonUniqueFieldNames { field_name, span, key_spans, path } => {
            ValidationError::NonUniqueFieldNames {
                field_name: field_name.clone(),
                span: *span,
                key_spans: copy_spans(key_spans),
                path: crate::input_coercion::clone_path(path),
            }
        },
        ValidationError::NoInputFieldWithName {
            field_name,
            input_object_type_name,
            span,
            path,
        } => {
            ValidationError::NoInputFieldWithName {
                field_name: field_name.clone(),
                input_object_type_name: input_object_type_name.clone(),
                span: *span,
                path: crate::input_coercion::clone_path(path),
            }
        },
        ValidationError::NoValueForRequiredFields {
            field_names,
            input_object_type_name,
            span,
            path,
        } => {
            ValidationError::NoValueForRequiredFields {
                field_names: clone_strings(field_names),
                input_object_type_name: input_object_type_name.clone(),
                span: *span,
                path: crate::input_coercion::clone_path(path),
            }
        },
        ValidationError::NonUniqueFragmentNames { name, span, duplicate_spans } => {
            ValidationError::NonUniqueFragmentNames {
                name: name.clone(),
                span: *span,
                duplicate_spans: copy_spans(duplicate_spans),
            }
        },
        ValidationError::FragmentDefinitionTargetTypeNotComposite {
            fragment_name,
            target_type_name,
            span,
        } => {
            ValidationError::FragmentDefinitionTargetTypeNotComposite {
                fragment_name: fragment_name.clone(),
                target_type_name: target_type_name.clone(),
                span: *span,
            }
        },
        ValidationError::InlineFragmentTargetTypeNotComposite { target_type_name, span } => {
            ValidationError::InlineFragmentTargetTypeNotComposite {
                target_type_name: target_type_name.clone(),
                span: *span,
            }
        },
        ValidationError::FragmentDefinitionUnused { fragment_name, span } => {
            ValidationError::FragmentDefinitionUnused {
                fragment_name: fragment_name.clone(),
                span: *span,
            }
        },
        ValidationError::FragmentSpreadTargetNotDefined { fragment_name, span } => {
            ValidationError::FragmentSpreadTargetNotDefined {
                fragment_name: fragment_name.clone(),
                span: *span,
            }
        },
        ValidationError::FragmentSpreadTypeImpossible {
            type_condition,
            parent_type_name,
            span,
        } => {
            ValidationError::FragmentSpreadTypeImpossible {
                type_condition: type_condition.clone(),
                parent_type_name: parent_type_name.clone(),
                span: *span,
            }
        },
        ValidationError::FragmentCycle { fragment_name, span } => {
            ValidationError::FragmentCycle { fragment_name: fragment_name.clone(), span: *span }
        },
        ValidationError::DirectiveDoesNotExist { directive_name, span } => {
            ValidationError::DirectiveDoesNotExist {
                directive_name: directive_name.clone(),
                span: *span,
            }
        },
        ValidationError::DirectiveInInvalidLocation { directive_name, location, span } => {
            ValidationError::DirectiveInInvalidLocation {
                directive_name: directive_name.clone(),
                location: *location,
                span: *span,
            }
        },
        ValidationError::NonUniqueDirectivesPerLocation { directive_name, span, duplicate_spans } => {
            ValidationError::NonUniqueDirectivesPerLocation {
                directive_name: directive_name.clone(),
                span: *span,
                duplicate_spans: copy_spans(duplicate_spans),
            }
        },
        ValidationError::NonUniqueVariableNames { variable_name, span, duplicate_spans } => {
            ValidationError::NonUniqueVariableNames {
                variable_name: variable_name.clone(),
                span: *span,
                duplicate_spans: copy_spans(duplicate_spans),
            }
        },
        ValidationError::VariableTypeNotInput { variable_name, variable_type_name, span } => {
            ValidationError::VariableTypeNotInput {
                variable_name: variable_name.clone(),
                variable_type_name: variable_type_name.clone(),
                span: *span,
            }
        },
        ValidationError::VariableUndefined { variable_name, span } => {
            ValidationError::VariableUndefined {
                variable_name: variable_name.clone(),
                span: *span,
            }
        },
        ValidationError::VariableUnused { variable_name, span } => {
            ValidationError::VariableUnused { variable_name: variable_name.clone(), span: *span }
        },
        ValidationError::InvalidVariableUsage {
            variable_name,
            variable_type_name,
            location_type_name,
            span,
        } => {
            ValidationError::InvalidVariableUsage {
                variable_name: variable_name.clone(),
                variable_type_name: variable_type_name.clone(),
                location_type_name: location_type_name.clone(),
                span: *span,
            }
        },
    }
}

/// The shared derivations a validation run draws on. Lookups resolve
/// against the borrowed document and schema; nothing is stored twice.
pub struct Cache<'a> {
    pub document: &'a ExecutableDocument,
    pub schema_definition: &'a SchemaDefinition,
}

impl<'a> Cache<'a> {
    pub fn new(document: &'a ExecutableDocument, schema_definition: &'a SchemaDefinition) -> (r:
        Cache<'a>)
        ensures
            r.document == document,
            r.schema_definition == schema_definition,
    {
        Cache { document, schema_definition }
    }
}

/// Every rule's errors in one undivided sequence, rule families in the
/// order the driver computes them; the driver then orders this sequence by
/// registration slot.
pub open spec fn spec_all_errors(doc: ExecutableDocument, schema: SchemaDefinition) -> Seq<
    SpecValidationError,
> {
    spec_document_rules_errors(doc, schema) + spec_document_walk(doc, schema)
        + spec_field_merging_errors(doc, schema) + spec_fragment_name_uniqueness_errors(
        doc.fragment_definitions@,
        0,
    ) + spec_fragments_must_be_used_errors(doc) + spec_fragment_cycle_errors(doc)
        + spec_variables_rules_errors(doc, schema, 0)
}

/// The errors of one registration slot, in emission order.
pub open spec fn spec_select_rule(s: Seq<SpecValidationError>, idx: int, i: int) -> Seq<
    SpecValidationError,
>
    decreases s.len() - i,
{
    if i < 0 || i >= s.len() {
        Seq::empty()
    } else {
        let rest = spec_select_rule(s, idx, i + 1);
        if spec_rule_of(s[i]) == idx {
            seq![s[i]] + rest
        } else {
            rest
        }
    }
}

fn select_rule(errors: &Vec<ValidationError>, idx: usize, i: usize) -> (r: Vec<ValidationError>)
    requires
        i <= errors@.len(),
    ensures
        views_of(r@) == spec_select_rule(views_of(errors@), idx as int, i as int),
    decreases errors@.len() - i,
{
    proof {
        lemma_views_of_len(errors@);
    }
    if i >= errors.len() {
        proof {
            assert(views_of(Seq::<ValidationError>::empty()) =~= Seq::<
                SpecValidationError,
            >::empty());
        }
        Vec::new()
    } else {
        proof {
            lemma_views_of_index(errors@, i as int);
        }
        let mut rest = select_rule(errors, idx, i + 1);
        if errors[i].rule_index() == idx {
            let mut out = single(clone_validation_error(&errors[i]));
            proof {
                lemma_views_of_add(out@, rest@);
            }
            out.append(&mut rest);
            out
        } else {
            rest
        }
    }
}

/// The driver's stable order: each rule's errors in registration order,
/// emission order within a rule.
pub open spec fn spec_ordered_errors(s: Seq<SpecValidationError>, k: int) -> Seq<
    SpecValidationError,
>
    decreases spec_rule_count() - k,
{
    if k < 0 || k >= spec_rule_count() {
        Seq::empty()
    } else {
        spec_select_rule(s, k, 0) + spec_ordered_errors(s, k + 1)
    }
}

fn ordered_errors(errors: &Vec<ValidationError>, k: usize) -> (r: Vec<ValidationError>)
    requires
        k <= crate::validation_error::RULE_COUNT,
    ensures
        views_of(r@) == spec_ordered_errors(views_of(errors@), k as int),
    decreases crate::validation_error::RULE_COUNT - k,
{
    if k >= crate::validation_error::RULE_COUNT {
        proof {
            assert(views_of(Seq::<ValidationError>::empty()) =~= Seq::<
                SpecValidationError,
            >::empty());
        }
        Vec::new()
    } else {
        let mut out = select_rule(errors, k, 0);
        let mut rest = ordered_errors(errors, k + 1);
        proof {
            lemma_views_of_add(out@, rest@);
        }
        out.append(&mut rest);
        out
    }
}

/// The full error sequence of a validation run: every rule's errors, in
/// registration order, emission order within each rule.
pub open spec fn spec_validation_errors(
    doc: ExecutableDocument,
    schema: SchemaDefinition,
) -> Seq<SpecValidationError> {
    spec_ordered_errors(spec_all_errors(doc, schema), 0)
}

/// The validator driver: builds the shared derivations, runs the single
/// traversal pass and the cache-based rules, and returns every rule's
/// errors in the driver's stable order. A pure function of the document
/// and the schema.
pub fn validate(document: &ExecutableDocument, schema_definition: &SchemaDefinition) -> (r: Vec<
    ValidationError,
>)
    ensures
        views_of(r@) == spec_validation_errors(*document, *schema_definition),
{
    let mut all = document_rules_errors(document, schema_definition);
    let mut walk = document_walk(document, schema_definition);
    proof {
        lemma_views_of_add(all@, walk@);
    }
    all.append(&mut walk);
    let mut merging = field_merging_errors(document, schema_definition);
    proof {
        lemma_views_of_add(all@, merging@);
    }
    all.append(&mut merging);
    let mut fragment_names = fragment_name_uniqueness_errors(&document.fragment_definitions, 0);
    proof {
        lemma_views_of_add(all@, fragment_names@);
    }
    all.append(&mut fragment_names);
    let mut unused = fragments_must_be_used_errors(document);
    proof {
        lemma_views_of_add(all@, unused@);
    }
    all.append(&mut unused);
    let mut cycles = fragment_cycle_errors(document);
    proof {
        lemma_views_of_add(all@, cycles@);
    }
    all.append(&mut cycles);
    let mut variable_errors = variables_rules_errors(document, schema_definition, 0);
    proof {
        lemma_views_of_add(all@, variable_errors@);
    }
    all.append(&mut variable_errors);
    ordered_errors(&all, 0)
}

/// The rule-set validator of the library's public face: one call runs
/// every rule over the document against the schema.
pub struct RulesValidator;

impl RulesValidator {
    pub fn validate(
        document: &ExecutableDocument,
        schema_definition: &SchemaDefinition,
        _cache: &Cache,
    ) -> (r: Vec<ValidationError>)
        ensures
            views_of(r@) == spec_validation_errors(*document, *schema_definition),
    {
        validate(document, schema_definition)
    }
}

} // verus!
