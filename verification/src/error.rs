use vstd::prelude::*;

use crate::seqs::{lemma_views_of_add, lemma_views_of_index, lemma_views_of_len, views_of};
use crate::span::Span;
use crate::validation_error::{SpecValidationError, ValidationError};

verus! {

/// One annotated location of a diagnostic.
pub struct Annotation {
    pub message: String,
    pub span: Span,
}

pub struct SpecAnnotation {
    pub message: Seq<char>,
    pub span: Span,
}

impl View for Annotation {
    type V = SpecAnnotation;

    open spec fn view(&self) -> SpecAnnotation {
        SpecAnnotation { message: self.message@, span: self.span }
    }
}

/// A diagnostic ready for rendering: a message, a primary annotation, and
/// any number of secondary annotations.
pub struct Error {
    pub message: String,
    pub primary_annotation: Option<Annotation>,
    pub secondary_annotations: Vec<Annotation>,
}

pub struct SpecError {
    pub message: Seq<char>,
    pub primary_annotation: Option<SpecAnnotation>,
    pub secondary_annotations: Seq<SpecAnnotation>,
}

impl View for Error {
    type V = SpecError;

    open spec fn view(&self) -> SpecError {
        SpecError {
            message: self.message@,
            primary_annotation: match &self.primary_annotation {
                Some(a) => Some(a@),
                None => None,
            },
            secondary_annotations: views_of(self.secondary_annotations@),
        }
    }
}

/// The diagnostic message of each error kind.
pub open spec fn spec_error_message(e: SpecValidationError) -> Seq<char> {
    match e {
        SpecValidationError::ExecutableDefinitions { .. } => {
            "document does not contain any executable definitions"@
        },
        SpecValidationError::NotLoneAnonymousOperation { .. } => {
            "anonymous operation is not alone in the document"@
        },
        SpecValidationError::NonUniqueOperationNames { .. } => {
            "operation name is used more than once"@
        },
        SpecValidationError::SubscriptionRootNotSingleField { .. } => {
            "subscription does not have a single root field"@
        },
        SpecValidationError::FieldDoesNotExistOnType { .. } => {
            "field does not exist on the scoped type"@
        },
        SpecValidationError::LeafFieldSelectionsNotOnType { .. } => {
            "composite field must have a selection set"@
        },
        SpecValidationError::NonLeafFieldSelectionOnLeafType { .. } => {
            "leaf field must not have a selection set"@
        },
        SpecValidationError::FieldSelectionsDoNotMerge { .. } => {
            "field selections for the same response key do not merge"@
        },
        SpecValidationError::ArgumentDoesNotExistOnField { .. } => {
            "argument does not exist on the field"@
        },
        SpecValidationError::ArgumentDoesNotExistOnDirective { .. } => {
            "argument does not exist on the directive"@
        },
        SpecValidationError::NonUniqueArgumentNames { .. } => {
            "argument name is used more than once"@
        },
        SpecValidationError::RequiredArgumentMissing { .. } => {
            "required argument is missing"@
        },
        SpecValidationError::NullValueForRequiredType { .. } => {
            "null value provided for a required type"@
        },
        SpecValidationError::NoImplicitConversion { .. } => {
            "value cannot be implicitly converted to the expected type"@
        },
        SpecValidationError::NoEnumMemberWithName { .. } => {
            "enum has no member with the given name"@
        },
        SpecValidationError::NonUniqueFieldNames { .. } => {
            "input object key is used more than once"@
        },
        SpecValidationError::NoInputFieldWithName { .. } => {
            "input object has no field with the given name"@
        },
        SpecValidationError::NoValueForRequiredFields { .. } => {
            "required input fields have no value"@
        },
        SpecValidationError::NonUniqueFragmentNames { .. } => {
            "fragment name is used more than once"@
        },
        SpecValidationError::FragmentDefinitionTargetTypeNotComposite { .. } => {
            "fragment is defined on a non-composite type"@
        },
        SpecValidationError::InlineFragmentTargetTypeNotComposite { .. } => {
            "inline fragment targets a non-composite type"@
        },
        SpecValidationError::FragmentDefinitionUnused { .. } => {
            "fragment is never used"@
        },
        SpecValidationError::FragmentSpreadTargetNotDefined { .. } => {
            "fragment spread targets an undefined fragment"@
        },
        SpecValidationError::FragmentSpreadTypeImpossible { .. } => {
            "fragment can never apply at this spread"@
        },
        SpecValidationError::FragmentCycle { .. } => {
            "fragment spreads form a cycle"@
        },
        SpecValidationError::DirectiveDoesNotExist { .. } => {
            "directive is not defined"@
        },
        SpecValidationError::DirectiveInInvalidLocation { .. } => {
            "directive is not allowed at this location"@
        },
        SpecValidationError::NonUniqueDirectivesPerLocation { .. } => {
            "directive is used more than once at this location"@
        },
        SpecValidationError::NonUniqueVariableNames { .. } => {
            "variable name is used more than once"@
        },
        SpecValidationError::VariableTypeNotInput { .. } => {
            "variable type is not an input type"@
        },
        SpecValidationError::VariableUndefined { .. } => {
            "variable is used but never defined"@
        },
        SpecValidationError::VariableUnused { .. } => {
            "variable is defined but never used"@
        },
        SpecValidationError::InvalidVariableUsage { .. } => {
            "variable is not allowed in this position"@
        },
    }
}

impl ValidationError {
    /// The diagnostic message of this error's kind.
    pub fn message(&self) -> (r: String)
        ensures
            r@ == spec_error_message(self@),
    {
        let text: &'static str = match self {
            ValidationError::ExecutableDefinitions { .. } => {
                "document does not contain any executable definitions"
            },
            ValidationError::NotLoneAnonymousOperation { .. } => {
                "anonymous operation is not alone in the document"
            },
            ValidationError::NonUniqueOperationNames { .. } => {
                "operation name is used more than once"
            },
            ValidationError::SubscriptionRootNotSingleField { .. } => {
                "subscription does not have a single root field"
            },
            ValidationError::FieldDoesNotExistOnType { .. } => {
                "field does not exist on the scoped type"
            },
            ValidationError::LeafFieldSelectionsNotOnType { .. } => {
                "composite field must have a selection set"
            },
            ValidationError::NonLeafFieldSelectionOnLeafType { .. } => {
                "leaf field must not have a selection set"
            },
            ValidationError::FieldSelectionsDoNotMerge { .. } => {
                "field selections for the same response key do not merge"
            },
            ValidationError::ArgumentDoesNotExistOnField { .. } => {
                "argument does not exist on the field"
            },
            ValidationError::ArgumentDoesNotExistOnDirective { .. } => {
                "argument does not exist on the directive"
            },
            ValidationError::NonUniqueArgumentNames { .. } => {
                "argument name is used more than once"
            },
            ValidationError::RequiredArgumentMissing { .. } => {
                "required argument is missing"
            },
            ValidationError::NullValueForRequiredType { .. } => {
                "null value provided for a required type"
            },
            ValidationError::NoImplicitConversion { .. } => {
                "value cannot be implicitly converted to the expected type"
            },
            ValidationError::NoEnumMemberWithName { .. } => {
                "enum has no member with the given name"
            },
            ValidationError::NonUniqueFieldNames { .. } => {
                "input object key is used more than once"
            },
            ValidationError::NoInputFieldWithName { .. } => {
                "input object has no field with the given name"
            },
            ValidationError::NoValueForRequiredFields { .. } => {
                "required input fields have no value"
            },
            ValidationError::NonUniqueFragmentNames { .. } => {
                "fragment name is used more than once"
            },
            ValidationError::FragmentDefinitionTargetTypeNotComposite { .. } => {
                "fragment is defined on a non-composite type"
            },
            ValidationError::InlineFragmentTargetTypeNotComposite { .. } => {
                "inline fragment targets a non-composite type"
            },
            ValidationError::FragmentDefinitionUnused { .. } => {
                "fragment is never used"
            },
            ValidationError::FragmentSpreadTargetNotDefined { .. } => {
                "fragment spread targets an undefined fragment"
            },
            ValidationError::FragmentSpreadTypeImpossible { .. } => {
                "fragment can never apply at this spread"
            },
            ValidationError::FragmentCycle { .. } => {
                "fragment spreads form a cycle"
            },
            ValidationError::DirectiveDoesNotExist { .. } => {
                "directive is not defined"
            },
            ValidationError::DirectiveInInvalidLocation { .. } => {
                "directive is not allowed at this location"
            },
            ValidationError::NonUniqueDirectivesPerLocation { .. } => {
                "directive is used more than once at this location"
            },
            ValidationError::NonUniqueVariableNames { .. } => {
                "variable name is used more than once"
            },
            ValidationError::VariableTypeNotInput { .. } => {
                "variable type is not an input type"
            },
            ValidationError::VariableUndefined { .. } => {
                "variable is used but never defined"
            },
            ValidationError::VariableUnused { .. } => {
                "variable is defined but never used"
            },
            ValidationError::InvalidVariableUsage { .. } => {
                "variable is not allowed in this position"
            },
        };
        String::from_str(text)
    }

    /// The diagnostic form of a validation error: the kind's message and a
    /// primary annotation at the error's primary span.
    pub fn into_error(&self) -> (r: Error)
        ensures
            r@.message == spec_error_message(self@),
            r@.primary_annotation == Some(
                SpecAnnotation {
                    message: spec_error_message(self@),
                    span: self@.spec_primary_span(),
                },
            ),
            r@.secondary_annotations == Seq::<SpecAnnotation>::empty(),
    {
        let message = self.message();
        let label = self.message();
        let span = self.primary_span();
        proof {
            assert(views_of(Seq::<Annotation>::empty()) =~= Seq::<SpecAnnotation>::empty());
        }
        Error {
            message,
            primary_annotation: Some(Annotation { message: label, span }),
            secondary_annotations: Vec::new(),
        }
    }
}

/// What one rendered report holds, as a function of the source text, the
/// message and the annotations alone.
pub uninterp spec fn report_text(
    source: Seq<char>,
    message: Seq<char>,
    primary_start: int,
    primary_end: int,
    primary_label: Seq<char>,
    secondary_starts: Seq<int>,
    secondary_ends: Seq<int>,
    secondary_labels: Seq<Seq<char>>,
) -> Seq<char>;

pub open spec fn spec_annotation_starts(s: Seq<SpecAnnotation>, i: int) -> Seq<int>
    decreases s.len() - i,
{
    if i < 0 || i >= s.len() {
        Seq::empty()
    } else {
        seq![s[i].span.start as int] + spec_annotation_starts(s, i + 1)
    }
}

pub open spec fn spec_annotation_ends(s: Seq<SpecAnnotation>, i: int) -> Seq<int>
    decreases s.len() - i,
{
    if i < 0 || i >= s.len() {
        Seq::empty()
    } else {
        seq![s[i].span.end as int] + spec_annotation_ends(s, i + 1)
    }
}

pub open spec fn spec_annotation_labels(s: Seq<SpecAnnotation>, i: int) -> Seq<Seq<char>>
    decreases s.len() - i,
{
    if i < 0 || i >= s.len() {
        Seq::empty()
    } else {
        seq![s[i].message] + spec_annotation_labels(s, i + 1)
    }
}

/// Relies on ariadne's `Report`: building a report from a message and
/// labels over a `Source` of the document and writing it renders text that
/// depends on those contents alone.
#[verifier::external_body]
fn render_report(
    source: &str,
    message: &String,
    primary_start: usize,
    primary_end: usize,
    primary_label: &String,
    secondary: &Vec<Annotation>,
) -> (r: String)
    ensures
        r@ == report_text(
            source@,
            message@,
            primary_start as int,
            primary_end as int,
            primary_label@,
            spec_annotation_starts(views_of(secondary@), 0),
            spec_annotation_ends(views_of(secondary@), 0),
            spec_annotation_labels(views_of(secondary@), 0),
        ),
{
    let mut buf: Vec<u8> = Vec::new();
    let primary = ariadne::Label::new(primary_start..primary_end)
        .with_message(primary_label)
        .with_priority(1);
    let labels = secondary.iter().map(
        |a| ariadne::Label::new(a.span.start..a.span.end).with_message(&a.message),
    );
    let _ = ariadne::Report::build(ariadne::ReportKind::Error, primary_start..primary_end)
        .with_config(ariadne::Config::default().with_color(false))
        .with_message(message)
        .with_label(primary)
        .with_labels(labels)
        .finish()
        .write(&mut ariadne::Source::from(source), &mut buf);
    String::from_utf8_lossy(&buf).into_owned()
}

/// The rendered text of one diagnostic; an absent primary annotation is
/// rendered as an empty label at the start of the source.
pub open spec fn spec_error_report(source: Seq<char>, e: SpecError) -> Seq<char> {
    match e.primary_annotation {
        Some(a) => report_text(
            source,
            e.message,
            a.span.start as int,
            a.span.end as int,
            a.message,
            spec_annotation_starts(e.secondary_annotations, 0),
            spec_annotation_ends(e.secondary_annotations, 0),
            spec_annotation_labels(e.secondary_annotations, 0),
        ),
        None => report_text(
            source,
            e.message,
            0,
            0,
            Seq::empty(),
            spec_annotation_starts(e.secondary_annotations, 0),
            spec_annotation_ends(e.secondary_annotations, 0),
            spec_annotation_labels(e.secondary_annotations, 0),
        ),
    }
}

/// The rendered text of a diagnostic list: each error's report, separated
/// by line breaks.
pub open spec fn spec_format_errors(source: Seq<char>, errors: Seq<SpecError>, i: int) -> Seq<
    char,
>
    decreases errors.len() - i,
{
    if i < 0 || i >= errors.len() {
        Seq::empty()
    } else {
        let separator: Seq<char> = if i != 0 {
            "\n"@
        } else {
            Seq::empty()
        };
        separator + spec_error_report(source, errors[i]) + spec_format_errors(
            source,
            errors,
            i + 1,
        )
    }
}

fn format_from(document: &str, errors: &Vec<Error>, i: usize) -> (r: String)
    requires
        i <= errors@.len(),
    ensures
        r@ == spec_format_errors(document@, views_of(errors@), i as int),
    decreases errors@.len() - i,
{
    proof {
        lemma_views_of_len(errors@);
    }
    if i >= errors.len() {
        proof {
            assert(Seq::<char>::empty() =~= spec_format_errors(
                document@,
                views_of(errors@),
                i as int,
            ));
        }
        String::new()
    } else {
        proof {
            lemma_views_of_index(errors@, i as int);
        }
        let empty_label = String::new();
        let report: String = match &errors[i].primary_annotation {
            Some(a) => render_report(
                document,
                &errors[i].message,
                a.span.start,
                a.span.end,
                &a.message,
                &errors[i].secondary_annotations,
            ),
            None => render_report(
                document,
                &errors[i].message,
                0,
                0,
                &empty_label,
                &errors[i].secondary_annotations,
            ),
        };
        let rest = format_from(document, errors, i + 1);
        let head: String = if i != 0 {
            String::from_str("\n").concat(report.as_str())
        } else {
            report
        };
        head.concat(rest.as_str())
    }
}

impl Error {
    /// Renders every diagnostic against the document's source text, each
    /// as one annotated report.
    pub fn format_errors(document: &str, errors: Vec<Error>) -> (r: String)
        ensures
            r@ == spec_format_errors(document@, views_of(errors@), 0),
    {
        format_from(document, &errors, 0)
    }
}

} // verus!
