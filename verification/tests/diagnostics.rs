use bluejay::error::{Annotation, Error};
use bluejay::executable::{
    ExecutableDocument, Field, ImplicitOperationDefinition, OperationDefinition, Selection,
    SelectionSet,
};
use bluejay::schema::{
    FieldDefinition, InputValueDefinition, ObjectTypeDefinition, SchemaDefinition, TypeDefinition,
};
use bluejay::span::Span;
use bluejay::types::{InputType, OutputType};
use bluejay::validator::validate;
use bluejay::value::Name;

fn sp(a: usize, b: usize) -> Span {
    Span { start: a, end: b }
}

fn droid_schema() -> SchemaDefinition {
    SchemaDefinition::new(
        "Query",
        None,
        None,
        vec![TypeDefinition::Object(ObjectTypeDefinition {
            name: "Query".to_string(),
            fields_definition: vec![FieldDefinition {
                name: "droid".to_string(),
                arguments_definition: vec![InputValueDefinition {
                    name: "id".to_string(),
                    input_type: InputType::Base("ID".to_string(), true),
                    default_value: None,
                }],
                output_type: OutputType::Base("String".to_string(), false),
            }],
            interface_implementations: vec![],
        })],
        vec![],
    )
}

/// `{ droid }`, rendered: the report must actually come from the rendering
/// engine, not be the input handed back.
#[test]
fn format_errors_renders_the_diagnostics() {
    let document_text = "{ droid }";
    let droid = Selection::Field(Field {
        alias: None,
        name: Name { value: "droid".to_string(), span: sp(2, 7) },
        arguments: vec![],
        directives: vec![],
        selection_set: None,
        span: sp(2, 7),
    });
    let document = ExecutableDocument {
        operation_definitions: vec![OperationDefinition::Implicit(ImplicitOperationDefinition {
            selection_set: SelectionSet { selections: vec![droid], span: sp(0, 9) },
        })],
        fragment_definitions: vec![],
    };
    let schema = droid_schema();
    let errors = validate(&document, &schema);
    assert_eq!(errors.len(), 1);
    let diagnostics: Vec<Error> = errors.iter().map(|e| e.into_error()).collect();
    assert_eq!(diagnostics[0].message, "required argument is missing");
    let rendered = Error::format_errors(document_text, diagnostics);
    assert!(!rendered.is_empty());
    assert_ne!(rendered, document_text);
    assert!(rendered.contains("required argument is missing"));
    assert!(rendered.contains("droid"));
}

#[test]
fn format_errors_of_nothing_is_empty() {
    let rendered = Error::format_errors("{ x }", vec![]);
    assert_eq!(rendered, "");
}

#[test]
fn format_errors_separates_reports_with_line_breaks() {
    let first = Error {
        message: "first problem".to_string(),
        primary_annotation: Some(Annotation {
            message: "here".to_string(),
            span: sp(0, 1),
        }),
        secondary_annotations: vec![],
    };
    let second = Error {
        message: "second problem".to_string(),
        primary_annotation: Some(Annotation {
            message: "there".to_string(),
            span: sp(2, 3),
        }),
        secondary_annotations: vec![Annotation {
            message: "related".to_string(),
            span: sp(0, 1),
        }],
    };
    let rendered = Error::format_errors("{ x }", vec![first, second]);
    assert!(rendered.contains("first problem"));
    assert!(rendered.contains("second problem"));
    assert!(rendered.contains("related"));
}
