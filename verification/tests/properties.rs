use bluejay::executable::{
    Argument, ExecutableDocument, ExplicitOperationDefinition, Field, FragmentDefinition,
    FragmentSpread, ImplicitOperationDefinition, OperationDefinition, OperationType, Selection,
    SelectionSet,
};
use bluejay::schema::{
    EnumTypeDefinition, EnumValueDefinition, FieldDefinition, InputValueDefinition,
    InterfaceTypeDefinition, ObjectTypeDefinition, SchemaDefinition, TypeDefinition,
};
use bluejay::span::Span;
use bluejay::types::{InputType, OutputType};
use bluejay::validation_error::ValidationError;
use bluejay::validator::validate;
use bluejay::value::{Name, Value};

fn sp(a: usize, b: usize) -> Span {
    Span { start: a, end: b }
}

fn nm(s: &str, at: usize) -> Name {
    Name {
        value: s.to_string(),
        span: sp(at, at + s.len()),
    }
}

fn base_types() -> Vec<TypeDefinition> {
    vec![
        TypeDefinition::Object(ObjectTypeDefinition {
            name: "Query".to_string(),
            fields_definition: vec![FieldDefinition {
                name: "hero".to_string(),
                arguments_definition: vec![InputValueDefinition {
                    name: "episode".to_string(),
                    input_type: InputType::Base("Episode".to_string(), false),
                    default_value: None,
                }],
                output_type: OutputType::Base("Character".to_string(), false),
            }],
            interface_implementations: vec![],
        }),
        TypeDefinition::Enum(EnumTypeDefinition {
            name: "Episode".to_string(),
            enum_value_definitions: vec![EnumValueDefinition { name: "JEDI".to_string() }],
        }),
        TypeDefinition::Interface(InterfaceTypeDefinition {
            name: "Character".to_string(),
            fields_definition: vec![FieldDefinition {
                name: "name".to_string(),
                arguments_definition: vec![],
                output_type: OutputType::Base("String".to_string(), false),
            }],
            interface_implementations: vec![],
        }),
        TypeDefinition::Object(ObjectTypeDefinition {
            name: "Droid".to_string(),
            fields_definition: vec![FieldDefinition {
                name: "name".to_string(),
                arguments_definition: vec![],
                output_type: OutputType::Base("String".to_string(), false),
            }],
            interface_implementations: vec!["Character".to_string()],
        }),
    ]
}

fn schema() -> SchemaDefinition {
    SchemaDefinition::new("Query", None, None, base_types(), vec![])
}

/// The same schema with one more type and one more query field.
fn superset_schema() -> SchemaDefinition {
    let mut types = base_types();
    types.push(TypeDefinition::Object(ObjectTypeDefinition {
        name: "Starship".to_string(),
        fields_definition: vec![FieldDefinition {
            name: "model".to_string(),
            arguments_definition: vec![],
            output_type: OutputType::Base("String".to_string(), false),
        }],
        interface_implementations: vec![],
    }));
    match &mut types[0] {
        TypeDefinition::Object(q) => q.fields_definition.push(FieldDefinition {
            name: "starship".to_string(),
            arguments_definition: vec![],
            output_type: OutputType::Base("Starship".to_string(), false),
        }),
        _ => unreachable!(),
    }
    SchemaDefinition::new("Query", None, None, types, vec![])
}

fn plain_field(name: &str, at: usize, arguments: Vec<Argument>, sub: Option<SelectionSet>) -> Selection {
    Selection::Field(Field {
        alias: None,
        name: nm(name, at),
        arguments,
        directives: vec![],
        selection_set: sub,
        span: sp(at, at + name.len()),
    })
}

fn sel_set(selections: Vec<Selection>, a: usize, b: usize) -> SelectionSet {
    SelectionSet { selections, span: sp(a, b) }
}

fn name_sub(at: usize) -> SelectionSet {
    sel_set(vec![plain_field("name", at, vec![], None)], at - 2, at + 7)
}

fn episode_argument(value: &str, at: usize) -> Argument {
    Argument {
        name: nm("episode", at),
        value: Value::Enum(nm(value, at + 9)),
        span: sp(at, at + 9 + value.len()),
    }
}

/// A superset schema never changes the errors of the purely syntactic
/// rules; here a duplicated operation name and a duplicated argument name
/// survive the schema extension untouched.
#[test]
fn superset_schema_keeps_syntactic_errors() {
    let make = |name_at: usize, at: usize| {
        let first = episode_argument("JEDI", at + 6);
        let second = episode_argument("JEDI", at + 22);
        OperationDefinition::Explicit(ExplicitOperationDefinition {
            operation_type: OperationType::Query,
            name: Some(nm("Twice", name_at)),
            variable_definitions: vec![],
            directives: vec![],
            selection_set: sel_set(
                vec![plain_field("hero", at, vec![first, second], Some(name_sub(at + 42)))],
                at - 2,
                at + 52,
            ),
            span: sp(name_at - 6, at + 52),
        })
    };
    let document = ExecutableDocument {
        operation_definitions: vec![make(6, 14), make(76, 84)],
        fragment_definitions: vec![],
    };
    let base_errors = validate(&document, &schema());
    let superset_errors = validate(&document, &superset_schema());
    let pick = |errors: &Vec<ValidationError>| -> Vec<(usize, Span)> {
        errors
            .iter()
            .filter(|e| {
                matches!(
                    e,
                    ValidationError::NonUniqueOperationNames { .. }
                        | ValidationError::NonUniqueArgumentNames { .. }
                        | ValidationError::NonUniqueFragmentNames { .. }
                        | ValidationError::FragmentCycle { .. }
                        | ValidationError::NonUniqueVariableNames { .. }
                )
            })
            .map(|e| (e.rule_index(), e.primary_span()))
            .collect()
    };
    assert!(!pick(&base_errors).is_empty());
    assert_eq!(pick(&base_errors), pick(&superset_errors));
}

/// Swapping two incompatible selections of one response key still yields
/// exactly one merging error for that key; only its annotation order may
/// change.
#[test]
fn swapping_incompatible_selections_keeps_the_error() {
    let s = schema();
    let first = plain_field("hero", 2, vec![episode_argument("JEDI", 7)], Some(name_sub(24)));
    let second = plain_field("hero", 31, vec![], Some(name_sub(56)));
    let forward = ExecutableDocument {
        operation_definitions: vec![OperationDefinition::Implicit(ImplicitOperationDefinition {
            selection_set: sel_set(vec![first, second], 0, 64),
        })],
        fragment_definitions: vec![],
    };
    let first_again = plain_field("hero", 2, vec![episode_argument("JEDI", 7)], Some(name_sub(24)));
    let second_again = plain_field("hero", 31, vec![], Some(name_sub(56)));
    let backward = ExecutableDocument {
        operation_definitions: vec![OperationDefinition::Implicit(ImplicitOperationDefinition {
            selection_set: sel_set(vec![second_again, first_again], 0, 64),
        })],
        fragment_definitions: vec![],
    };
    let forward_errors = validate(&forward, &s);
    let backward_errors = validate(&backward, &s);
    assert_eq!(forward_errors.len(), 1);
    assert_eq!(backward_errors.len(), 1);
    assert!(
        matches!(&forward_errors[0], ValidationError::FieldSelectionsDoNotMerge { response_key, .. } if response_key == "hero")
    );
    assert!(
        matches!(&backward_errors[0], ValidationError::FieldSelectionsDoNotMerge { response_key, .. } if response_key == "hero")
    );
}

/// Swapping two compatible selections changes nothing at all.
#[test]
fn swapping_compatible_selections_changes_nothing() {
    let s = schema();
    let build = |swap: bool| {
        let a = plain_field("hero", 2, vec![], Some(name_sub(9)));
        let b = plain_field("hero", 16, vec![], Some(name_sub(23)));
        let sels = if swap { vec![b, a] } else { vec![a, b] };
        ExecutableDocument {
            operation_definitions: vec![OperationDefinition::Implicit(
                ImplicitOperationDefinition { selection_set: sel_set(sels, 0, 31) },
            )],
            fragment_definitions: vec![],
        }
    };
    assert_eq!(validate(&build(false), &s).len(), 0);
    assert_eq!(validate(&build(true), &s).len(), 0);
}

fn spread(name: &str, at: usize) -> Selection {
    Selection::FragmentSpread(FragmentSpread {
        name: nm(name, at + 3),
        directives: vec![],
        span: sp(at, at + 3 + name.len()),
    })
}

fn fragment(name: &str, at: usize, condition: &str, body: Vec<Selection>, end: usize) -> FragmentDefinition {
    FragmentDefinition {
        name: nm(name, at + 9),
        type_condition: nm(condition, at + 9 + name.len() + 4),
        directives: vec![],
        selection_set: SelectionSet { selections: body, span: sp(at + 20, end) },
        span: sp(at, end),
    }
}

/// Permuting the two mutually recursive fragment definitions yields the
/// same count of cycle errors; the offending spread may differ.
#[test]
fn permuting_fragments_keeps_the_cycle_count() {
    let s = schema();
    let build = |swap: bool| {
        let a = fragment("A", 0, "Character", vec![spread("B", 26)], 32);
        let b = fragment("B", 33, "Character", vec![spread("A", 59)], 65);
        let frags = if swap { vec![b, a] } else { vec![a, b] };
        let hero = plain_field("hero", 69, vec![], Some(sel_set(vec![spread("A", 76)], 74, 82)));
        ExecutableDocument {
            operation_definitions: vec![OperationDefinition::Implicit(
                ImplicitOperationDefinition { selection_set: sel_set(vec![hero], 67, 84) },
            )],
            fragment_definitions: frags,
        }
    };
    let forward: Vec<ValidationError> = validate(&build(false), &s)
        .into_iter()
        .filter(|e| matches!(e, ValidationError::FragmentCycle { .. }))
        .collect();
    let backward: Vec<ValidationError> = validate(&build(true), &s)
        .into_iter()
        .filter(|e| matches!(e, ValidationError::FragmentCycle { .. }))
        .collect();
    assert_eq!(forward.len(), 1);
    assert_eq!(backward.len(), 1);
}

/// Permuting the fragments of an acyclic document leaves every cycle check
/// silent.
#[test]
fn permuting_acyclic_fragments_stays_silent() {
    let s = schema();
    let build = |swap: bool| {
        let a = fragment("A", 0, "Character", vec![spread("B", 26)], 32);
        let b = fragment(
            "B",
            33,
            "Character",
            vec![plain_field("name", 59, vec![], None)],
            65,
        );
        let frags = if swap { vec![b, a] } else { vec![a, b] };
        let hero = plain_field("hero", 69, vec![], Some(sel_set(vec![spread("A", 76)], 74, 82)));
        ExecutableDocument {
            operation_definitions: vec![OperationDefinition::Implicit(
                ImplicitOperationDefinition { selection_set: sel_set(vec![hero], 67, 84) },
            )],
            fragment_definitions: frags,
        }
    };
    assert_eq!(validate(&build(false), &s).len(), 0);
    assert_eq!(validate(&build(true), &s).len(), 0);
}
