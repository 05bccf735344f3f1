use vstd::prelude::*;

use crate::input_coercion::{CoercionError, PathMember, SpecCoercionError, SpecPathMember};
use crate::schema::DirectiveLocation;
use crate::seqs::views_of;
use crate::span::Span;

verus! {

/// A validation error: a kind from the specification's taxonomy together
/// with the names and spans a diagnostic needs. The primary span of every
/// error is in its `span` field.
pub enum ValidationError {
    ExecutableDefinitions { span: Span },
    NotLoneAnonymousOperation { span: Span, other_spans: Vec<Span> },
    NonUniqueOperationNames { name: String, span: Span, duplicate_spans: Vec<Span> },
    SubscriptionRootNotSingleField { span: Span },
    FieldDoesNotExistOnType { field_name: String, parent_type_name: String, span: Span },
    LeafFieldSelectionsNotOnType { field_name: String, base_type_name: String, span: Span },
    NonLeafFieldSelectionOnLeafType { field_name: String, base_type_name: String, span: Span },
    FieldSelectionsDoNotMerge { response_key: String, span: Span, other_span: Span },
    ArgumentDoesNotExistOnField { argument_name: String, field_name: String, span: Span },
    ArgumentDoesNotExistOnDirective { argument_name: String, directive_name: String, span: Span },
    NonUniqueArgumentNames { name: String, span: Span, duplicate_spans: Vec<Span> },
    RequiredArgumentMissing { name: String, owner_name: String, span: Span },
    NullValueForRequiredType { input_type_name: String, span: Span, path: Vec<PathMember> },
    NoImplicitConversion { input_type_name: String, span: Span, path: Vec<PathMember> },
    NoEnumMemberWithName {
        name: String,
        enum_type_name: String,
        span: Span,
        path: Vec<PathMember>,
    },
    NonUniqueFieldNames {
        field_name: String,
        span: Span,
        key_spans: Vec<Span>,
        path: Vec<PathMember>,
    },
    NoInputFieldWithName {
        field_name: String,
        input_object_type_name: String,
        span: Span,
        path: Vec<PathMember>,
    },
    NoValueForRequiredFields {
        field_names: Vec<String>,
        input_object_type_name: String,
        span: Span,
        path: Vec<PathMember>,
    },
    NonUniqueFragmentNames { name: String, span: Span, duplicate_spans: Vec<Span> },
    FragmentDefinitionTargetTypeNotComposite {
        fragment_name: String,
        target_type_name: String,
        span: Span,
    },
    InlineFragmentTargetTypeNotComposite { target_type_name: String, span: Span },
    FragmentDefinitionUnused { fragment_name: String, span: Span },
    FragmentSpreadTargetNotDefined { fragment_name: String, span: Span },
    FragmentSpreadTypeImpossible {
        type_condition: String,
        parent_type_name: String,
        span: Span,
    },
    FragmentCycle { fragment_name: String, span: Span },
    DirectiveDoesNotExist { directive_name: String, span: Span },
    DirectiveInInvalidLocation {
        directive_name: String,
        location: DirectiveLocation,
        span: Span,
    },
    NonUniqueDirectivesPerLocation { directive_name: String, span: Span, duplicate_spans: Vec<Span> },
    NonUniqueVariableNames { variable_name: String, span: Span, duplicate_spans: Vec<Span> },
    VariableTypeNotInput { variable_name: String, variable_type_name: String, span: Span },
    VariableUndefined { variable_name: String, span: Span },
    VariableUnused { variable_name: String, span: Span },
    InvalidVariableUsage {
        variable_name: String,
        variable_type_name: String,
        location_type_name: String,
        span: Span,
    },
}

/// The ghost form of a validation error, over character sequences.
pub enum SpecValidationError {
    ExecutableDefinitions { span: Span },
    NotLoneAnonymousOperation { span: Span, other_spans: Seq<Span> },
    NonUniqueOperationNames { name: Seq<char>, span: Span, duplicate_spans: Seq<Span> },
    SubscriptionRootNotSingleField { span: Span },
    FieldDoesNotExistOnType { field_name: Seq<char>, parent_type_name: Seq<char>, span: Span },
    LeafFieldSelectionsNotOnType { field_name: Seq<char>, base_type_name: Seq<char>, span: Span },
    NonLeafFieldSelectionOnLeafType {
        field_name: Seq<char>,
        base_type_name: Seq<char>,
        span: Span,
    },
    FieldSelectionsDoNotMerge { response_key: Seq<char>, span: Span, other_span: Span },
    ArgumentDoesNotExistOnField { argument_name: Seq<char>, field_name: Seq<char>, span: Span },
    ArgumentDoesNotExistOnDirective {
        argument_name: Seq<char>,
        directive_name: Seq<char>,
        span: Span,
    },
    NonUniqueArgumentNames { name: Seq<char>, span: Span, duplicate_spans: Seq<Span> },
    RequiredArgumentMissing { name: Seq<char>, owner_name: Seq<char>, span: Span },
    NullValueForRequiredType {
        input_type_name: Seq<char>,
        span: Span,
        path: Seq<SpecPathMember>,
    },
    NoImplicitConversion { input_type_name: Seq<char>, span: Span, path: Seq<SpecPathMember> },
    NoEnumMemberWithName {
        name: Seq<char>,
        enum_type_name: Seq<char>,
        span: Span,
        path: Seq<SpecPathMember>,
    },
    NonUniqueFieldNames {
        field_name: Seq<char>,
        span: Span,
        key_spans: Seq<Span>,
        path: Seq<SpecPathMember>,
    },
    NoInputFieldWithName {
        field_name: Seq<char>,
        input_object_type_name: Seq<char>,
        span: Span,
        path: Seq<SpecPathMember>,
    },
    NoValueForRequiredFields {
        field_names: Seq<Seq<char>>,
        input_object_type_name: Seq<char>,
        span: Span,
        path: Seq<SpecPathMember>,
    },
    NonUniqueFragmentNames { name: Seq<char>, span: Span, duplicate_spans: Seq<Span> },
    FragmentDefinitionTargetTypeNotComposite {
        fragment_name: Seq<char>,
        target_type_name: Seq<char>,
        span: Span,
    },
    InlineFragmentTargetTypeNotComposite { target_type_name: Seq<char>, span: Span },
    FragmentDefinitionUnused { fragment_name: Seq<char>, span: Span },
    FragmentSpreadTargetNotDefined { fragment_name: Seq<char>, span: Span },
    FragmentSpreadTypeImpossible {
        type_condition: Seq<char>,
        parent_type_name: Seq<char>,
        span: Span,
    },
    FragmentCycle { fragment_name: Seq<char>, span: Span },
    DirectiveDoesNotExist { directive_name: Seq<char>, span: Span },
    DirectiveInInvalidLocation {
        directive_name: Seq<char>,
        location: DirectiveLocation,
        span: Span,
    },
    NonUniqueDirectivesPerLocation {
        directive_name: Seq<char>,
        span: Span,
        duplicate_spans: Seq<Span>,
    },
    NonUniqueVariableNames { variable_name: Seq<char>, span: Span, duplicate_spans: Seq<Span> },
    VariableTypeNotInput {
        variable_name: Seq<char>,
        variable_type_name: Seq<char>,
        span: Span,
    },
    VariableUndefined { variable_name: Seq<char>, span: Span },
    VariableUnused { variable_name: Seq<char>, span: Span },
    InvalidVariableUsage {
        variable_name: Seq<char>,
        variable_type_name: Seq<char>,
        location_type_name: Seq<char>,
        span: Span,
    },
}

impl View for ValidationError {
    type V = SpecValidationError;

    open spec fn view(&self) -> SpecValidationError {
        match self {
            ValidationError::ExecutableDefinitions { span } => {
                SpecValidationError::ExecutableDefinitions { span: *span }
            },
            ValidationError::NotLoneAnonymousOperation { span, other_spans } => {
                SpecValidationError::NotLoneAnonymousOperation {
                    span: *span,
                    other_spans: other_spans@,
                }
            },
            ValidationError::NonUniqueOperationNames { name, span, duplicate_spans } => {
                SpecValidationError::NonUniqueOperationNames {
                    name: name@,
                    span: *span,
                    duplicate_spans: duplicate_spans@,
                }
            },
            ValidationError::SubscriptionRootNotSingleField { span } => {
                SpecValidationError::SubscriptionRootNotSingleField { span: *span }
            },
            ValidationError::FieldDoesNotExistOnType { field_name, parent_type_name, span } => {
                SpecValidationError::FieldDoesNotExistOnType {
                    field_name: field_name@,
                    parent_type_name: parent_type_name@,
                    span: *span,
                }
            },
            ValidationError::LeafFieldSelectionsNotOnType { field_name, base_type_name, span } => {
                SpecValidationError::LeafFieldSelectionsNotOnType {
                    field_name: field_name@,
                    base_type_name: base_type_name@,
                    span: *span,
                }
            },
            ValidationError::NonLeafFieldSelectionOnLeafType {
                field_name,
                base_type_name,
                span,
            } => {
                SpecValidationError::NonLeafFieldSelectionOnLeafType {
                    field_name: field_name@,
                    base_type_name: base_type_name@,
                    span: *span,
                }
            },
            ValidationError::FieldSelectionsDoNotMerge { response_key, span, other_span } => {
                SpecValidationError::FieldSelectionsDoNotMerge {
                    response_key: response_key@,
                    span: *span,
                    other_span: *other_span,
                }
            },
            ValidationError::ArgumentDoesNotExistOnField { argument_name, field_name, span } => {
                SpecValidationError::ArgumentDoesNotExistOnField {
                    argument_name: argument_name@,
                    field_name: field_name@,
                    span: *span,
                }
            },
            ValidationError::ArgumentDoesNotExistOnDirective {
                argument_name,
                directive_name,
                span,
            } => {
                SpecValidationError::ArgumentDoesNotExistOnDirective {
                    argument_name: argument_name@,
                    directive_name: directive_name@,
                    span: *span,
                }
            },
            ValidationError::NonUniqueArgumentNames { name, span, duplicate_spans } => {
                SpecValidationError::NonUniqueArgumentNames {
                    name: name@,
                    span: *span,
                    duplicate_spans: duplicate_spans@,
                }
            },
            ValidationError::RequiredArgumentMissing { name, owner_name, span } => {
                SpecValidationError::RequiredArgumentMissing {
                    name: name@,
                    owner_name: owner_name@,
                    span: *span,
                }
            },
            ValidationError::NullValueForRequiredType { input_type_name, span, path } => {
                SpecValidationError::NullValueForRequiredType {
                    input_type_name: input_type_name@,
                    span: *span,
                    path: views_of(path@),
                }
            },
            ValidationError::NoImplicitConversion { input_type_name, span, path } => {
                SpecValidationError::NoImplicitConversion {
                    input_type_name: input_type_name@,
                    span: *span,
                    path: views_of(path@),
                }
            },
            ValidationError::NoEnumMemberWithName { name, enum_type_name, span, path } => {
                SpecValidationError::NoEnumMemberWithName {
                    name: name@,
                    enum_type_name: enum_type_name@,
                    span: *span,
                    path: views_of(path@),
                }
            },
            ValidationError::NonUniqueFieldNames { field_name, span, key_spans, path } => {
                SpecValidationError::NonUniqueFieldNames {
                    field_name: field_name@,
                    span: *span,
                    key_spans: key_spans@,
                    path: views_of(path@),
                }
            },
            ValidationError::NoInputFieldWithName {
                field_name,
                input_object_type_name,
                span,
                path,
            } => {
                SpecValidationError::NoInputFieldWithName {
                    field_name: field_name@,
                    input_object_type_name: input_object_type_name@,
                    span: *span,
                    path: views_of(path@),
                }
            },
            ValidationError::NoValueForRequiredFields {
                field_names,
                input_object_type_name,
                span,
                path,
            } => {
                SpecValidationError::NoValueForRequiredFields {
                    field_names: views_of(field_names@),
                    input_object_type_name: input_object_type_name@,
                    span: *span,
                    path: views_of(path@),
                }
            },
            ValidationError::NonUniqueFragmentNames { name, span, duplicate_spans } => {
                SpecValidationError::NonUniqueFragmentNames {
                    name: name@,
                    span: *span,
                    duplicate_spans: duplicate_spans@,
                }
            },
            ValidationError::FragmentDefinitionTargetTypeNotComposite {
                fragment_name,
                target_type_name,
                span,
            } => {
                SpecValidationError::FragmentDefinitionTargetTypeNotComposite {
                    fragment_name: fragment_name@,
                    target_type_name: target_type_name@,
                    span: *span,
                }
            },
            ValidationError::InlineFragmentTargetTypeNotComposite { target_type_name, span } => {
                SpecValidationError::InlineFragmentTargetTypeNotComposite {
                    target_type_name: target_type_name@,
                    span: *span,
                }
            },
            ValidationError::FragmentDefinitionUnused { fragment_name, span } => {
                SpecValidationError::FragmentDefinitionUnused {
                    fragment_name: fragment_name@,
                    span: *span,
                }
            },
            ValidationError::FragmentSpreadTargetNotDefined { fragment_name, span } => {
                SpecValidationError::FragmentSpreadTargetNotDefined {
                    fragment_name: fragment_name@,
                    span: *span,
                }
            },
            ValidationError::FragmentSpreadTypeImpossible {
                type_condition,
                parent_type_name,
                span,
            } => {
                SpecValidationError::FragmentSpreadTypeImpossible {
                    type_condition: type_condition@,
                    parent_type_name: parent_type_name@,
                    span: *span,
                }
            },
            ValidationError::FragmentCycle { fragment_name, span } => {
                SpecValidationError::FragmentCycle { fragment_name: fragment_name@, span: *span }
            },
            ValidationError::DirectiveDoesNotExist { directive_name, span } => {
                SpecValidationError::DirectiveDoesNotExist {
                    directive_name: directive_name@,
                    span: *span,
                }
            },
            ValidationError::DirectiveInInvalidLocation { directive_name, location, span } => {
                SpecValidationError::DirectiveInInvalidLocation {
                    directive_name: directive_name@,
                    location: *location,
                    span: *span,
                }
            },
            ValidationError::NonUniqueDirectivesPerLocation {
                directive_name,
                span,
                duplicate_spans,
            } => {
                SpecValidationError::NonUniqueDirectivesPerLocation {
                    directive_name: directive_name@,
                    span: *span,
                    duplicate_spans: duplicate_spans@,
                }
            },
            ValidationError::NonUniqueVariableNames { variable_name, span, duplicate_spans } => {
                SpecValidationError::NonUniqueVariableNames {
                    variable_name: variable_name@,
                    span: *span,
                    duplicate_spans: duplicate_spans@,
                }
            },
            ValidationError::VariableTypeNotInput { variable_name, variable_type_name, span } => {
                SpecValidationError::VariableTypeNotInput {
                    variable_name: variable_name@,
                    variable_type_name: variable_type_name@,
                    span: *span,
                }
            },
            ValidationError::VariableUndefined { variable_name, span } => {
                SpecValidationError::VariableUndefined {
                    variable_name: variable_name@,
                    span: *span,
                }
            },
            ValidationError::VariableUnused { variable_name, span } => {
                SpecValidationError::VariableUnused { variable_name: variable_name@, span: *span }
            },
            ValidationError::InvalidVariableUsage {
                variable_name,
                variable_type_name,
                location_type_name,
                span,
            } => {
                SpecValidationError::InvalidVariableUsage {
                    variable_name: variable_name@,
                    variable_type_name: variable_type_name@,
                    location_type_name: location_type_name@,
                    span: *span,
                }
            },
        }
    }
}

/// How many rules the driver registers, in the order of the rule set.
pub const RULE_COUNT: usize = 25;

pub open spec fn spec_rule_count() -> int {
    RULE_COUNT as int
}

/// The registration slot of the rule that emits each error kind. The driver
/// orders its output by this index, then by emission order within a rule.
pub open spec fn spec_rule_of(e: SpecValidationError) -> int {
    match e {
        SpecValidationError::ExecutableDefinitions { .. } => 0,
        SpecValidationError::NotLoneAnonymousOperation { .. } => 1,
        SpecValidationError::NonUniqueOperationNames { .. } => 2,
        SpecValidationError::SubscriptionRootNotSingleField { .. } => 3,
        SpecValidationError::FieldDoesNotExistOnType { .. } => 4,
        SpecValidationError::LeafFieldSelectionsNotOnType { .. } => 5,
        SpecValidationError::NonLeafFieldSelectionOnLeafType { .. } => 5,
        SpecValidationError::FieldSelectionsDoNotMerge { .. } => 6,
        SpecValidationError::ArgumentDoesNotExistOnField { .. } => 7,
        SpecValidationError::ArgumentDoesNotExistOnDirective { .. } => 7,
        SpecValidationError::NonUniqueArgumentNames { .. } => 8,
        SpecValidationError::RequiredArgumentMissing { .. } => 9,
        SpecValidationError::NullValueForRequiredType { .. } => 10,
        SpecValidationError::NoImplicitConversion { .. } => 10,
        SpecValidationError::NoEnumMemberWithName { .. } => 10,
        SpecValidationError::NonUniqueFieldNames { .. } => 10,
        SpecValidationError::NoInputFieldWithName { .. } => 10,
        SpecValidationError::NoValueForRequiredFields { .. } => 10,
        SpecValidationError::NonUniqueFragmentNames { .. } => 11,
        SpecValidationError::FragmentDefinitionTargetTypeNotComposite { .. } => 12,
        SpecValidationError::InlineFragmentTargetTypeNotComposite { .. } => 12,
        SpecValidationError::FragmentDefinitionUnused { .. } => 13,
        SpecValidationError::FragmentSpreadTargetNotDefined { .. } => 14,
        SpecValidationError::FragmentSpreadTypeImpossible { .. } => 15,
        SpecValidationError::FragmentCycle { .. } => 16,
        SpecValidationError::DirectiveDoesNotExist { .. } => 17,
        SpecValidationError::DirectiveInInvalidLocation { .. } => 18,
        SpecValidationError::NonUniqueDirectivesPerLocation { .. } => 19,
        SpecValidationError::NonUniqueVariableNames { .. } => 20,
        SpecValidationError::VariableTypeNotInput { .. } => 21,
        SpecValidationError::VariableUndefined { .. } => 22,
        SpecValidationError::VariableUnused { .. } => 23,
        SpecValidationError::InvalidVariableUsage { .. } => 24,
    }
}

impl SpecValidationError {
    /// The primary span: where a diagnostic points first.
    pub open spec fn spec_primary_span(self) -> Span {
        match self {
            SpecValidationError::ExecutableDefinitions { span } => span,
            SpecValidationError::NotLoneAnonymousOperation { span, .. } => span,
            SpecValidationError::NonUniqueOperationNames { span, .. } => span,
            SpecValidationError::SubscriptionRootNotSingleField { span } => span,
            SpecValidationError::FieldDoesNotExistOnType { span, .. } => span,
            SpecValidationError::LeafFieldSelectionsNotOnType { span, .. } => span,
            SpecValidationError::NonLeafFieldSelectionOnLeafType { span, .. } => span,
            SpecValidationError::FieldSelectionsDoNotMerge { span, .. } => span,
            SpecValidationError::ArgumentDoesNotExistOnField { span, .. } => span,
            SpecValidationError::ArgumentDoesNotExistOnDirective { span, .. } => span,
            SpecValidationError::NonUniqueArgumentNames { span, .. } => span,
            SpecValidationError::RequiredArgumentMissing { span, .. } => span,
            SpecValidationError::NullValueForRequiredType { span, .. } => span,
            SpecValidationError::NoImplicitConversion { span, .. } => span,
            SpecValidationError::NoEnumMemberWithName { span, .. } => span,
            SpecValidationError::NonUniqueFieldNames { span, .. } => span,
            SpecValidationError::NoInputFieldWithName { span, .. } => span,
            SpecValidationError::NoValueForRequiredFields { span, .. } => span,
            SpecValidationError::NonUniqueFragmentNames { span, .. } => span,
            SpecValidationError::FragmentDefinitionTargetTypeNotComposite { span, .. } => span,
            SpecValidationError::InlineFragmentTargetTypeNotComposite { span, .. } => span,
            SpecValidationError::FragmentDefinitionUnused { span, .. } => span,
            SpecValidationError::FragmentSpreadTargetNotDefined { span, .. } => span,
            SpecValidationError::FragmentSpreadTypeImpossible { span, .. } => span,
            SpecValidationError::FragmentCycle { span, .. } => span,
            SpecValidationError::DirectiveDoesNotExist { span, .. } => span,
            SpecValidationError::DirectiveInInvalidLocation { span, .. } => span,
            SpecValidationError::NonUniqueDirectivesPerLocation { span, .. } => span,
            SpecValidationError::NonUniqueVariableNames { span, .. } => span,
            SpecValidationError::VariableTypeNotInput { span, .. } => span,
            SpecValidationError::VariableUndefined { span, .. } => span,
            SpecValidationError::VariableUnused { span, .. } => span,
            SpecValidationError::InvalidVariableUsage { span, .. } => span,
        }
    }
}

impl ValidationError {
    pub fn primary_span(&self) -> (r: Span)
        ensures
            r == self@.spec_primary_span(),
    {
        match self {
            ValidationError::ExecutableDefinitions { span } => *span,
            ValidationError::NotLoneAnonymousOperation { span, .. } => *span,
            ValidationError::NonUniqueOperationNames { span, .. } => *span,
            ValidationError::SubscriptionRootNotSingleField { span } => *span,
            ValidationError::FieldDoesNotExistOnType { span, .. } => *span,
            ValidationError::LeafFieldSelectionsNotOnType { span, .. } => *span,
            ValidationError::NonLeafFieldSelectionOnLeafType { span, .. } => *span,
            ValidationError::FieldSelectionsDoNotMerge { span, .. } => *span,
            ValidationError::ArgumentDoesNotExistOnField { span, .. } => *span,
            ValidationError::ArgumentDoesNotExistOnDirective { span, .. } => *span,
            ValidationError::NonUniqueArgumentNames { span, .. } => *span,
            ValidationError::RequiredArgumentMissing { span, .. } => *span,
            ValidationError::NullValueForRequiredType { span, .. } => *span,
            ValidationError::NoImplicitConversion { span, .. } => *span,
            ValidationError::NoEnumMemberWithName { span, .. } => *span,
            ValidationError::NonUniqueFieldNames { span, .. } => *span,
            ValidationError::NoInputFieldWithName { span, .. } => *span,
            ValidationError::NoValueForRequiredFields { span, .. } => *span,
            ValidationError::NonUniqueFragmentNames { span, .. } => *span,
            ValidationError::FragmentDefinitionTargetTypeNotComposite { span, .. } => *span,
            ValidationError::InlineFragmentTargetTypeNotComposite { span, .. } => *span,
            ValidationError::FragmentDefinitionUnused { span, .. } => *span,
            ValidationError::FragmentSpreadTargetNotDefined { span, .. } => *span,
            ValidationError::FragmentSpreadTypeImpossible { span, .. } => *span,
            ValidationError::FragmentCycle { span, .. } => *span,
            ValidationError::DirectiveDoesNotExist { span, .. } => *span,
            ValidationError::DirectiveInInvalidLocation { span, .. } => *span,
            ValidationError::NonUniqueDirectivesPerLocation { span, .. } => *span,
            ValidationError::NonUniqueVariableNames { span, .. } => *span,
            ValidationError::VariableTypeNotInput { span, .. } => *span,
            ValidationError::VariableUndefined { span, .. } => *span,
            ValidationError::VariableUnused { span, .. } => *span,
            ValidationError::InvalidVariableUsage { span, .. } => *span,
        }
    }

    /// The registration slot of the rule that emitted this error.
    pub fn rule_index(&self) -> (r: usize)
        ensures
            r as int == spec_rule_of(self@),
    {
        match self {
            ValidationError::ExecutableDefinitions { .. } => 0,
            ValidationError::NotLoneAnonymousOperation { .. } => 1,
            ValidationError::NonUniqueOperationNames { .. } => 2,
            ValidationError::SubscriptionRootNotSingleField { .. } => 3,
            ValidationError::FieldDoesNotExistOnType { .. } => 4,
            ValidationError::LeafFieldSelectionsNotOnType { .. } => 5,
            ValidationError::NonLeafFieldSelectionOnLeafType { .. } => 5,
            ValidationError::FieldSelectionsDoNotMerge { .. } => 6,
            ValidationError::ArgumentDoesNotExistOnField { .. } => 7,
            ValidationError::ArgumentDoesNotExistOnDirective { .. } => 7,
            ValidationError::NonUniqueArgumentNames { .. } => 8,
            ValidationError::RequiredArgumentMissing { .. } => 9,
            ValidationError::NullValueForRequiredType { .. } => 10,
            ValidationError::NoImplicitConversion { .. } => 10,
            ValidationError::NoEnumMemberWithName { .. } => 10,
            ValidationError::NonUniqueFieldNames { .. } => 10,
            ValidationError::NoInputFieldWithName { .. } => 10,
            ValidationError::NoValueForRequiredFields { .. } => 10,
            ValidationError::NonUniqueFragmentNames { .. } => 11,
            ValidationError::FragmentDefinitionTargetTypeNotComposite { .. } => 12,
            ValidationError::InlineFragmentTargetTypeNotComposite { .. } => 12,
            ValidationError::FragmentDefinitionUnused { .. } => 13,
            ValidationError::FragmentSpreadTargetNotDefined { .. } => 14,
            ValidationError::FragmentSpreadTypeImpossible { .. } => 15,
            ValidationError::FragmentCycle { .. } => 16,
            ValidationError::DirectiveDoesNotExist { .. } => 17,
            ValidationError::DirectiveInInvalidLocation { .. } => 18,
            ValidationError::NonUniqueDirectivesPerLocation { .. } => 19,
            ValidationError::NonUniqueVariableNames { .. } => 20,
            ValidationError::VariableTypeNotInput { .. } => 21,
            ValidationError::VariableUndefined { .. } => 22,
            ValidationError::VariableUnused { .. } => 23,
            ValidationError::InvalidVariableUsage { .. } => 24,
        }
    }
}

/// How a coercion error surfaces as a validation error: same kind, same
/// names, same span and path.
pub open spec fn spec_from_coercion(e: SpecCoercionError) -> SpecValidationError {
    match e {
        SpecCoercionError::NullValueForRequiredType { input_type_name, span, path } => {
            SpecValidationError::NullValueForRequiredType { input_type_name, span, path }
        },
        SpecCoercionError::NoImplicitConversion { input_type_name, span, path } => {
            SpecValidationError::NoImplicitConversion { input_type_name, span, path }
        },
        SpecCoercionError::NoEnumMemberWithName { name, enum_type_name, span, path } => {
            SpecValidationError::NoEnumMemberWithName { name, enum_type_name, span, path }
        },
        SpecCoercionError::NonUniqueFieldNames { field_name, span, key_spans, path } => {
            SpecValidationError::NonUniqueFieldNames { field_name, span, key_spans, path }
        },
        SpecCoercionError::NoInputFieldWithName {
            field_name,
            input_object_type_name,
            span,
            path,
        } => {
            SpecValidationError::NoInputFieldWithName {
                field_name,
                input_object_type_name,
                span,
                path,
            }
        },
        SpecCoercionError::NoValueForRequiredFields {
            field_names,
            input_object_type_name,
            span,
            path,
        } => {
            SpecValidationError::NoValueForRequiredFields {
                field_names,
                input_object_type_name,
                span,
                path,
            }
        },
    }
}

pub fn from_coercion_error(e: CoercionError) -> (r: ValidationError)
    ensures
        r@ == spec_from_coercion(e@),
{
    match e {
        CoercionError::NullValueForRequiredType { input_type_name, span, path } => {
            ValidationError::NullValueForRequiredType { input_type_name, span, path }
        },
        CoercionError::NoImplicitConversion { input_type_name, span, path } => {
            ValidationError::NoImplicitConversion { input_type_name, span, path }
        },
        CoercionError::NoEnumMemberWithName { name, enum_type_name, span, path } => {
            ValidationError::NoEnumMemberWithName { name, enum_type_name, span, path }
        },
        CoercionError::NonUniqueFieldNames { field_name, span, key_spans, path } => {
            ValidationError::NonUniqueFieldNames { field_name, span, key_spans, path }
        },
        CoercionError::NoInputFieldWithName {
            field_name,
            input_object_type_name,
            span,
            path,
        } => {
            ValidationError::NoInputFieldWithName {
                field_name,
                input_object_type_name,
                span,
                path,
            }
        },
        CoercionError::NoValueForRequiredFields {
            field_names,
            input_object_type_name,
            span,
            path,
        } => {
            ValidationError::NoValueForRequiredFields {
                field_names,
                input_object_type_name,
                span,
                path,
            }
        },
    }
}

} // verus!
