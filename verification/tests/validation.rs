use bluejay::executable::{
    Argument, ExecutableDocument, ExplicitOperationDefinition, Field, FragmentDefinition,
    FragmentSpread, ImplicitOperationDefinition, InlineFragment, OperationDefinition,
    OperationType, Selection, SelectionSet, VariableDefinition,
};
use bluejay::schema::{
    DirectiveDefinition, DirectiveLocation, EnumTypeDefinition, EnumValueDefinition,
    FieldDefinition, InputValueDefinition, InterfaceTypeDefinition, ObjectTypeDefinition,
    SchemaDefinition, TypeDefinition,
};
use bluejay::span::Span;
use bluejay::types::{BaseInputType, InputType, InputTypeReference, OutputType};
use bluejay::validation_error::ValidationError;
use bluejay::validator::{validate, Cache, RulesValidator};
use bluejay::value::{IntegerValue, ListValue, Name, Value, VariableValue};

fn sp(a: usize, b: usize) -> Span {
    Span { start: a, end: b }
}

fn nm(s: &str, at: usize) -> Name {
    Name {
        value: s.to_string(),
        span: sp(at, at + s.len()),
    }
}

fn field_def(name: &str, arguments: Vec<InputValueDefinition>, output: OutputType) -> FieldDefinition {
    FieldDefinition {
        name: name.to_string(),
        arguments_definition: arguments,
        output_type: output,
    }
}

fn base_out(name: &str, required: bool) -> OutputType {
    OutputType::Base(name.to_string(), required)
}

fn base_in(name: &str, required: bool) -> InputType {
    InputType::Base(name.to_string(), required)
}

/// The schema of the seed scenarios: a query root with `hero` and `droid`,
/// the `Episode` enum, the `Character` interface, and the `Droid` object.
fn star_wars_schema() -> SchemaDefinition {
    let hero = field_def(
        "hero",
        vec![InputValueDefinition {
            name: "episode".to_string(),
            input_type: base_in("Episode", false),
            default_value: None,
        }],
        base_out("Character", false),
    );
    let droid = field_def(
        "droid",
        vec![InputValueDefinition {
            name: "id".to_string(),
            input_type: base_in("ID", true),
            default_value: None,
        }],
        base_out("Droid", false),
    );
    let types = vec![
        TypeDefinition::Object(ObjectTypeDefinition {
            name: "Query".to_string(),
            fields_definition: vec![hero, droid],
            interface_implementations: vec![],
        }),
        TypeDefinition::Enum(EnumTypeDefinition {
            name: "Episode".to_string(),
            enum_value_definitions: vec![
                EnumValueDefinition { name: "NEWHOPE".to_string() },
                EnumValueDefinition { name: "EMPIRE".to_string() },
                EnumValueDefinition { name: "JEDI".to_string() },
            ],
        }),
        TypeDefinition::Interface(InterfaceTypeDefinition {
            name: "Character".to_string(),
            fields_definition: vec![field_def("name", vec![], base_out("String", false))],
            interface_implementations: vec![],
        }),
        TypeDefinition::Object(ObjectTypeDefinition {
            name: "Droid".to_string(),
            fields_definition: vec![
                field_def("name", vec![], base_out("String", false)),
                field_def("primaryFunction", vec![], base_out("String", false)),
            ],
            interface_implementations: vec!["Character".to_string()],
        }),
    ];
    SchemaDefinition::new("Query", None, None, types, vec![])
}

fn plain_field(name: &str, at: usize, arguments: Vec<Argument>, sub: Option<SelectionSet>) -> Selection {
    Selection::Field(Field {
        alias: None,
        name: nm(name, at),
        arguments,
        directives: vec![],
        selection_set: sub,
        span: sp(at, at + name.len()),
    })
}

fn sel_set(selections: Vec<Selection>, a: usize, b: usize) -> SelectionSet {
    SelectionSet { selections, span: sp(a, b) }
}

fn implicit(ss: SelectionSet) -> OperationDefinition {
    OperationDefinition::Implicit(ImplicitOperationDefinition { selection_set: ss })
}

fn doc(ops: Vec<OperationDefinition>, frags: Vec<FragmentDefinition>) -> ExecutableDocument {
    ExecutableDocument {
        operation_definitions: ops,
        fragment_definitions: frags,
    }
}

fn name_sub(at: usize) -> SelectionSet {
    sel_set(vec![plain_field("name", at, vec![], None)], at - 2, at + 7)
}

/// `{ hero { name } }`
fn hero_name_doc() -> ExecutableDocument {
    let hero = plain_field("hero", 2, vec![], Some(name_sub(9)));
    doc(vec![implicit(sel_set(vec![hero], 0, 18))], vec![])
}

#[test]
fn valid_hero_query_yields_no_errors() {
    let schema = star_wars_schema();
    let errors = validate(&hero_name_doc(), &schema);
    assert_eq!(errors.len(), 0);
}

#[test]
fn rules_validator_matches_driver() {
    let schema = star_wars_schema();
    let document = hero_name_doc();
    let cache = Cache::new(&document, &schema);
    let errors = RulesValidator::validate(&document, &schema, &cache);
    assert_eq!(errors.len(), 0);
}

#[test]
fn empty_document_reports_executable_definitions() {
    let schema = star_wars_schema();
    let errors = validate(&doc(vec![], vec![]), &schema);
    assert_eq!(errors.len(), 1);
    assert!(matches!(&errors[0], ValidationError::ExecutableDefinitions { .. }));
}

#[test]
fn lone_anonymous_operation_is_valid() {
    let schema = star_wars_schema();
    let errors = validate(&hero_name_doc(), &schema);
    assert!(errors.is_empty());
}

#[test]
fn anonymous_plus_named_operation_is_reported() {
    let schema = star_wars_schema();
    let anonymous = implicit(sel_set(vec![plain_field("hero", 2, vec![], Some(name_sub(9)))], 0, 18));
    let named = OperationDefinition::Explicit(ExplicitOperationDefinition {
        operation_type: OperationType::Query,
        name: Some(nm("Q", 26)),
        variable_definitions: vec![],
        directives: vec![],
        selection_set: sel_set(vec![plain_field("hero", 30, vec![], Some(name_sub(37)))], 28, 46),
        span: sp(20, 46),
    });
    let errors = validate(&doc(vec![anonymous, named], vec![]), &schema);
    assert_eq!(errors.len(), 1);
    assert!(matches!(&errors[0], ValidationError::NotLoneAnonymousOperation { .. }));
}

/// `{ hero { name } hero { name } }`: same response key, same arguments.
#[test]
fn identical_hero_selections_merge() {
    let schema = star_wars_schema();
    let first = plain_field("hero", 2, vec![], Some(name_sub(9)));
    let second = plain_field("hero", 16, vec![], Some(name_sub(23)));
    let errors = validate(&doc(vec![implicit(sel_set(vec![first, second], 0, 31))], vec![]), &schema);
    assert_eq!(errors.len(), 0);
}

fn episode_argument(value: &str, at: usize) -> Argument {
    Argument {
        name: nm("episode", at),
        value: Value::Enum(nm(value, at + 9)),
        span: sp(at, at + 9 + value.len()),
    }
}

/// `{ hero(episode: JEDI) { name } hero(episode: EMPIRE) { name } }`
#[test]
fn conflicting_hero_arguments_do_not_merge() {
    let schema = star_wars_schema();
    let first = plain_field("hero", 2, vec![episode_argument("JEDI", 7)], Some(name_sub(24)));
    let second = plain_field("hero", 31, vec![episode_argument("EMPIRE", 36)], Some(name_sub(56)));
    let errors = validate(&doc(vec![implicit(sel_set(vec![first, second], 0, 64))], vec![]), &schema);
    assert_eq!(errors.len(), 1);
    assert!(
        matches!(&errors[0], ValidationError::FieldSelectionsDoNotMerge { response_key, .. } if response_key == "hero")
    );
}

/// `{ droid { name } }`
#[test]
fn missing_required_argument_is_reported() {
    let schema = star_wars_schema();
    let droid = plain_field("droid", 2, vec![], Some(name_sub(10)));
    let errors = validate(&doc(vec![implicit(sel_set(vec![droid], 0, 18))], vec![]), &schema);
    assert_eq!(errors.len(), 1);
    assert!(
        matches!(&errors[0], ValidationError::RequiredArgumentMissing { name, .. } if name == "id")
    );
}

/// `query($e: Episode = FOO) { hero(episode: $e) { name } }`
#[test]
fn unknown_enum_member_in_default_is_reported() {
    let schema = star_wars_schema();
    let variable_definition = VariableDefinition {
        variable: nm("e", 7),
        variable_type: InputTypeReference::Base(
            BaseInputType { name: nm("Episode", 10) },
            false,
            sp(10, 17),
        ),
        default_value: Some(Value::Enum(nm("FOO", 20))),
        directives: vec![],
        span: sp(6, 23),
    };
    let usage = Argument {
        name: nm("episode", 32),
        value: Value::Variable(VariableValue { name: nm("e", 42), span: sp(41, 43) }),
        span: sp(32, 43),
    };
    let hero = plain_field("hero", 27, vec![usage], Some(name_sub(47)));
    let op = OperationDefinition::Explicit(ExplicitOperationDefinition {
        operation_type: OperationType::Query,
        name: None,
        variable_definitions: vec![variable_definition],
        directives: vec![],
        selection_set: sel_set(vec![hero], 25, 55),
        span: sp(0, 55),
    });
    let errors = validate(&doc(vec![op], vec![]), &schema);
    assert_eq!(errors.len(), 1);
    assert!(
        matches!(&errors[0], ValidationError::NoEnumMemberWithName { name, .. } if name == "FOO")
    );
}

fn spread(name: &str, at: usize) -> Selection {
    Selection::FragmentSpread(FragmentSpread {
        name: nm(name, at + 3),
        directives: vec![],
        span: sp(at, at + 3 + name.len()),
    })
}

fn fragment(name: &str, at: usize, condition: &str, body: Vec<Selection>, end: usize) -> FragmentDefinition {
    FragmentDefinition {
        name: nm(name, at + 9),
        type_condition: nm(condition, at + 9 + name.len() + 4),
        directives: vec![],
        selection_set: SelectionSet { selections: body, span: sp(at + 20, end) },
        span: sp(at, end),
    }
}

/// `fragment A on Character { ...B } fragment B on Character { ...A } { hero { ...A } }`
#[test]
fn mutually_recursive_fragments_report_one_cycle() {
    let schema = star_wars_schema();
    let a = fragment("A", 0, "Character", vec![spread("B", 26)], 32);
    let b = fragment("B", 33, "Character", vec![spread("A", 59)], 65);
    let hero = plain_field("hero", 69, vec![], Some(sel_set(vec![spread("A", 76)], 74, 82)));
    let errors = validate(&doc(vec![implicit(sel_set(vec![hero], 67, 84))], vec![a, b]), &schema);
    assert_eq!(errors.len(), 1);
    assert!(matches!(&errors[0], ValidationError::FragmentCycle { .. }));
}

/// Variable of type `[Int]` used where `[Int!]` is expected.
fn list_variable_schema() -> SchemaDefinition {
    let a = field_def(
        "a",
        vec![InputValueDefinition {
            name: "x".to_string(),
            input_type: InputType::List(Box::new(base_in("Int", true)), false),
            default_value: None,
        }],
        base_out("Int", false),
    );
    let b = field_def(
        "b",
        vec![InputValueDefinition {
            name: "y".to_string(),
            input_type: InputType::List(Box::new(base_in("Int", true)), true),
            default_value: None,
        }],
        base_out("Int", false),
    );
    SchemaDefinition::new(
        "Query",
        None,
        None,
        vec![TypeDefinition::Object(ObjectTypeDefinition {
            name: "Query".to_string(),
            fields_definition: vec![a, b],
            interface_implementations: vec![],
        })],
        vec![],
    )
}

fn nullable_int_list(at: usize) -> InputTypeReference {
    InputTypeReference::List(
        Box::new(InputTypeReference::Base(BaseInputType { name: nm("Int", at + 1) }, false, sp(at + 1, at + 4))),
        false,
        sp(at, at + 5),
    )
}

#[test]
fn nullable_list_variable_in_non_null_item_position_is_reported() {
    let schema = list_variable_schema();
    let variable_definition = VariableDefinition {
        variable: nm("v", 7),
        variable_type: nullable_int_list(10),
        default_value: None,
        directives: vec![],
        span: sp(6, 15),
    };
    let usage = Argument {
        name: nm("x", 21),
        value: Value::Variable(VariableValue { name: nm("v", 25), span: sp(24, 26) }),
        span: sp(21, 26),
    };
    let a = plain_field("a", 19, vec![usage], None);
    let op = OperationDefinition::Explicit(ExplicitOperationDefinition {
        operation_type: OperationType::Query,
        name: None,
        variable_definitions: vec![variable_definition],
        directives: vec![],
        selection_set: sel_set(vec![a], 17, 28),
        span: sp(0, 28),
    });
    let errors = validate(&doc(vec![op], vec![]), &schema);
    assert_eq!(errors.len(), 1);
    assert!(
        matches!(&errors[0], ValidationError::InvalidVariableUsage { variable_name, .. } if variable_name == "v")
    );
}

#[test]
fn defaulted_list_variable_in_required_list_position_is_valid() {
    let schema = list_variable_schema();
    let default_list = Value::List(ListValue {
        elements: vec![
            Value::Integer(IntegerValue { value: 1, span: sp(19, 20) }),
            Value::Integer(IntegerValue { value: 2, span: sp(21, 22) }),
        ],
        span: sp(18, 23),
    });
    let variable_definition = VariableDefinition {
        variable: nm("v", 7),
        variable_type: nullable_int_list(10),
        default_value: Some(default_list),
        directives: vec![],
        span: sp(6, 23),
    };
    let usage = Argument {
        name: nm("y", 29),
        value: Value::Variable(VariableValue { name: nm("v", 33), span: sp(32, 34) }),
        span: sp(29, 34),
    };
    let b = plain_field("b", 27, vec![usage], None);
    let op = OperationDefinition::Explicit(ExplicitOperationDefinition {
        operation_type: OperationType::Query,
        name: None,
        variable_definitions: vec![variable_definition],
        directives: vec![],
        selection_set: sel_set(vec![b], 25, 36),
        span: sp(0, 36),
    });
    let errors = validate(&doc(vec![op], vec![]), &schema);
    assert_eq!(errors.len(), 0);
}

#[test]
fn unknown_field_is_reported_once() {
    let schema = star_wars_schema();
    let bogus = plain_field("villain", 2, vec![], None);
    let errors = validate(&doc(vec![implicit(sel_set(vec![bogus], 0, 11))], vec![]), &schema);
    assert_eq!(errors.len(), 1);
    assert!(
        matches!(&errors[0], ValidationError::FieldDoesNotExistOnType { field_name, parent_type_name, .. }
            if field_name == "villain" && parent_type_name == "Query")
    );
}

#[test]
fn composite_field_without_selection_set_is_reported() {
    let schema = star_wars_schema();
    let hero = plain_field("hero", 2, vec![], None);
    let errors = validate(&doc(vec![implicit(sel_set(vec![hero], 0, 8))], vec![]), &schema);
    assert_eq!(errors.len(), 1);
    assert!(matches!(&errors[0], ValidationError::LeafFieldSelectionsNotOnType { .. }));
}

#[test]
fn leaf_field_with_selection_set_is_reported() {
    let schema = star_wars_schema();
    let inner = sel_set(vec![plain_field("length", 17, vec![], None)], 15, 25);
    let name_field = plain_field("name", 10, vec![], Some(inner));
    let hero = plain_field("hero", 2, vec![], Some(sel_set(vec![name_field], 8, 27)));
    let errors = validate(&doc(vec![implicit(sel_set(vec![hero], 0, 29))], vec![]), &schema);
    assert_eq!(errors.len(), 1);
    assert!(
        matches!(&errors[0], ValidationError::NonLeafFieldSelectionOnLeafType { field_name, .. } if field_name == "name")
    );
}

#[test]
fn unknown_argument_is_reported() {
    let schema = star_wars_schema();
    let argument = Argument {
        name: nm("rank", 7),
        value: Value::Integer(IntegerValue { value: 1, span: sp(13, 14) }),
        span: sp(7, 14),
    };
    let hero = plain_field("hero", 2, vec![argument], Some(name_sub(19)));
    let errors = validate(&doc(vec![implicit(sel_set(vec![hero], 0, 28))], vec![]), &schema);
    assert_eq!(errors.len(), 1);
    assert!(
        matches!(&errors[0], ValidationError::ArgumentDoesNotExistOnField { argument_name, field_name, .. }
            if argument_name == "rank" && field_name == "hero")
    );
}

#[test]
fn repeated_argument_name_is_reported() {
    let schema = star_wars_schema();
    let first = episode_argument("JEDI", 7);
    let second = episode_argument("EMPIRE", 22);
    let hero = plain_field("hero", 2, vec![first, second], Some(name_sub(41)));
    let errors = validate(&doc(vec![implicit(sel_set(vec![hero], 0, 50))], vec![]), &schema);
    assert_eq!(errors.len(), 1);
    assert!(
        matches!(&errors[0], ValidationError::NonUniqueArgumentNames { name, .. } if name == "episode")
    );
}

#[test]
fn duplicate_operation_names_are_reported() {
    let schema = star_wars_schema();
    let make = |name_at: usize, at: usize| {
        OperationDefinition::Explicit(ExplicitOperationDefinition {
            operation_type: OperationType::Query,
            name: Some(nm("Twice", name_at)),
            variable_definitions: vec![],
            directives: vec![],
            selection_set: sel_set(
                vec![plain_field("hero", at, vec![], Some(name_sub(at + 7)))],
                at - 2,
                at + 16,
            ),
            span: sp(name_at - 6, at + 16),
        })
    };
    let errors = validate(&doc(vec![make(6, 14), make(40, 48)], vec![]), &schema);
    assert_eq!(errors.len(), 1);
    assert!(
        matches!(&errors[0], ValidationError::NonUniqueOperationNames { name, duplicate_spans, .. }
            if name == "Twice" && duplicate_spans.len() == 2)
    );
}

#[test]
fn unused_fragment_is_reported() {
    let schema = star_wars_schema();
    let unused = fragment(
        "Unused",
        20,
        "Character",
        vec![plain_field("name", 46, vec![], None)],
        53,
    );
    let hero = plain_field("hero", 2, vec![], Some(name_sub(9)));
    let errors = validate(&doc(vec![implicit(sel_set(vec![hero], 0, 18))], vec![unused]), &schema);
    assert_eq!(errors.len(), 1);
    assert!(
        matches!(&errors[0], ValidationError::FragmentDefinitionUnused { fragment_name, .. } if fragment_name == "Unused")
    );
}

#[test]
fn dangling_fragment_spread_is_reported() {
    let schema = star_wars_schema();
    let hero = plain_field("hero", 2, vec![], Some(sel_set(vec![spread("Ghost", 9)], 7, 19)));
    let errors = validate(&doc(vec![implicit(sel_set(vec![hero], 0, 21))], vec![]), &schema);
    assert_eq!(errors.len(), 1);
    assert!(
        matches!(&errors[0], ValidationError::FragmentSpreadTargetNotDefined { fragment_name, .. } if fragment_name == "Ghost")
    );
}

#[test]
fn fragment_on_scalar_type_is_reported() {
    let schema = star_wars_schema();
    let bad = fragment("OnString", 20, "String", vec![plain_field("x", 48, vec![], None)], 52);
    let hero = plain_field("hero", 2, vec![], Some(sel_set(vec![spread("OnString", 9)], 7, 22)));
    let errors = validate(&doc(vec![implicit(sel_set(vec![hero], 0, 24))], vec![bad]), &schema);
    assert!(errors
        .iter()
        .any(|e| matches!(e, ValidationError::FragmentDefinitionTargetTypeNotComposite { .. })));
}

#[test]
fn impossible_fragment_spread_is_reported() {
    let schema = star_wars_schema();
    // `Query` and `Character` share no possible object type.
    let on_query = fragment("OnQuery", 30, "Query", vec![plain_field("hero", 58, vec![], Some(name_sub(65)))], 75);
    let hero = plain_field("hero", 2, vec![], Some(sel_set(vec![spread("OnQuery", 9)], 7, 21)));
    let errors = validate(&doc(vec![implicit(sel_set(vec![hero], 0, 23))], vec![on_query]), &schema);
    assert_eq!(errors.len(), 1);
    assert!(
        matches!(&errors[0], ValidationError::FragmentSpreadTypeImpossible { type_condition, parent_type_name, .. }
            if type_condition == "Query" && parent_type_name == "Character")
    );
}

#[test]
fn inline_fragment_on_scalar_is_reported() {
    let schema = star_wars_schema();
    let inline = Selection::InlineFragment(InlineFragment {
        type_condition: Some(nm("Episode", 13)),
        directives: vec![],
        selection_set: sel_set(vec![plain_field("x", 23, vec![], None)], 21, 27),
        span: sp(9, 27),
    });
    let hero = plain_field("hero", 2, vec![], Some(sel_set(vec![inline], 7, 29)));
    let errors = validate(&doc(vec![implicit(sel_set(vec![hero], 0, 31))], vec![]), &schema);
    assert!(errors
        .iter()
        .any(|e| matches!(e, ValidationError::InlineFragmentTargetTypeNotComposite { .. })));
}

#[test]
fn unknown_directive_is_reported() {
    let schema = star_wars_schema();
    let directive = bluejay::executable::Directive {
        name: nm("uppercase", 16),
        arguments: vec![],
        span: sp(15, 25),
    };
    let name_field = Selection::Field(Field {
        alias: None,
        name: nm("name", 10),
        arguments: vec![],
        directives: vec![directive],
        selection_set: None,
        span: sp(10, 14),
    });
    let hero = plain_field("hero", 2, vec![], Some(sel_set(vec![name_field], 8, 27)));
    let errors = validate(&doc(vec![implicit(sel_set(vec![hero], 0, 29))], vec![]), &schema);
    assert_eq!(errors.len(), 1);
    assert!(
        matches!(&errors[0], ValidationError::DirectiveDoesNotExist { directive_name, .. } if directive_name == "uppercase")
    );
}

#[test]
fn skip_directive_on_operation_is_reported_as_misplaced() {
    let schema = star_wars_schema();
    let directive = bluejay::executable::Directive {
        name: nm("skip", 7),
        arguments: vec![Argument {
            name: nm("if", 13),
            value: Value::Boolean(bluejay::value::BooleanValue { value: true, span: sp(17, 21) }),
            span: sp(13, 21),
        }],
        span: sp(6, 22),
    };
    let op = OperationDefinition::Explicit(ExplicitOperationDefinition {
        operation_type: OperationType::Query,
        name: None,
        variable_definitions: vec![],
        directives: vec![directive],
        selection_set: sel_set(vec![plain_field("hero", 25, vec![], Some(name_sub(32)))], 23, 41),
        span: sp(0, 41),
    });
    let errors = validate(&doc(vec![op], vec![]), &schema);
    assert_eq!(errors.len(), 1);
    assert!(
        matches!(&errors[0], ValidationError::DirectiveInInvalidLocation { directive_name, .. } if directive_name == "skip")
    );
}

#[test]
fn repeated_directive_at_one_location_is_reported() {
    let schema = star_wars_schema();
    let mk = |at: usize| bluejay::executable::Directive {
        name: nm("skip", at + 1),
        arguments: vec![Argument {
            name: nm("if", at + 6),
            value: Value::Boolean(bluejay::value::BooleanValue { value: false, span: sp(at + 10, at + 15) }),
            span: sp(at + 6, at + 15),
        }],
        span: sp(at, at + 16),
    };
    let name_field = Selection::Field(Field {
        alias: None,
        name: nm("name", 10),
        arguments: vec![],
        directives: vec![mk(15), mk(32)],
        selection_set: None,
        span: sp(10, 14),
    });
    let hero = plain_field("hero", 2, vec![], Some(sel_set(vec![name_field], 8, 50)));
    let errors = validate(&doc(vec![implicit(sel_set(vec![hero], 0, 52))], vec![]), &schema);
    assert_eq!(errors.len(), 1);
    assert!(
        matches!(&errors[0], ValidationError::NonUniqueDirectivesPerLocation { directive_name, .. } if directive_name == "skip")
    );
}

#[test]
fn duplicate_variable_names_are_reported() {
    let schema = star_wars_schema();
    let mk = |at: usize| VariableDefinition {
        variable: nm("e", at),
        variable_type: InputTypeReference::Base(
            BaseInputType { name: nm("Episode", at + 3) },
            false,
            sp(at + 3, at + 10),
        ),
        default_value: None,
        directives: vec![],
        span: sp(at - 1, at + 10),
    };
    let usage = Argument {
        name: nm("episode", 40),
        value: Value::Variable(VariableValue { name: nm("e", 50), span: sp(49, 51) }),
        span: sp(40, 51),
    };
    let hero = plain_field("hero", 35, vec![usage], Some(name_sub(55)));
    let op = OperationDefinition::Explicit(ExplicitOperationDefinition {
        operation_type: OperationType::Query,
        name: None,
        variable_definitions: vec![mk(7), mk(19)],
        directives: vec![],
        selection_set: sel_set(vec![hero], 33, 63),
        span: sp(0, 63),
    });
    let errors = validate(&doc(vec![op], vec![]), &schema);
    assert_eq!(errors.len(), 1);
    assert!(
        matches!(&errors[0], ValidationError::NonUniqueVariableNames { variable_name, .. } if variable_name == "e")
    );
}

#[test]
fn variable_of_composite_type_is_reported() {
    let schema = star_wars_schema();
    let vd = VariableDefinition {
        variable: nm("c", 7),
        variable_type: InputTypeReference::Base(
            BaseInputType { name: nm("Character", 10) },
            false,
            sp(10, 19),
        ),
        default_value: None,
        directives: vec![],
        span: sp(6, 19),
    };
    let usage = Argument {
        name: nm("episode", 28),
        value: Value::Variable(VariableValue { name: nm("c", 38), span: sp(37, 39) }),
        span: sp(28, 39),
    };
    let hero = plain_field("hero", 23, vec![usage], Some(name_sub(43)));
    let op = OperationDefinition::Explicit(ExplicitOperationDefinition {
        operation_type: OperationType::Query,
        name: None,
        variable_definitions: vec![vd],
        directives: vec![],
        selection_set: sel_set(vec![hero], 21, 51),
        span: sp(0, 51),
    });
    let errors = validate(&doc(vec![op], vec![]), &schema);
    // The composite variable type is reported, and the usage against the
    // Episode position cannot be allowed either.
    assert!(errors
        .iter()
        .any(|e| matches!(e, ValidationError::VariableTypeNotInput { variable_name, .. } if variable_name == "c")));
    assert!(errors
        .iter()
        .any(|e| matches!(e, ValidationError::InvalidVariableUsage { .. })));
    assert_eq!(errors.len(), 2);
}

#[test]
fn undefined_variable_is_reported() {
    let schema = star_wars_schema();
    let usage = Argument {
        name: nm("episode", 7),
        value: Value::Variable(VariableValue { name: nm("ep", 17), span: sp(16, 19) }),
        span: sp(7, 19),
    };
    let hero = plain_field("hero", 2, vec![usage], Some(name_sub(23)));
    let errors = validate(&doc(vec![implicit(sel_set(vec![hero], 0, 32))], vec![]), &schema);
    assert_eq!(errors.len(), 1);
    assert!(
        matches!(&errors[0], ValidationError::VariableUndefined { variable_name, .. } if variable_name == "ep")
    );
}

#[test]
fn unused_variable_is_reported() {
    let schema = star_wars_schema();
    let vd = VariableDefinition {
        variable: nm("e", 7),
        variable_type: InputTypeReference::Base(
            BaseInputType { name: nm("Episode", 10) },
            false,
            sp(10, 17),
        ),
        default_value: None,
        directives: vec![],
        span: sp(6, 17),
    };
    let hero = plain_field("hero", 21, vec![], Some(name_sub(28)));
    let op = OperationDefinition::Explicit(ExplicitOperationDefinition {
        operation_type: OperationType::Query,
        name: None,
        variable_definitions: vec![vd],
        directives: vec![],
        selection_set: sel_set(vec![hero], 19, 37),
        span: sp(0, 37),
    });
    let errors = validate(&doc(vec![op], vec![]), &schema);
    assert_eq!(errors.len(), 1);
    assert!(
        matches!(&errors[0], ValidationError::VariableUnused { variable_name, .. } if variable_name == "e")
    );
}

#[test]
fn subscription_with_two_root_fields_is_reported() {
    let schema = SchemaDefinition::new(
        "Query",
        None,
        Some("Sub".to_string()),
        vec![
            TypeDefinition::Object(ObjectTypeDefinition {
                name: "Query".to_string(),
                fields_definition: vec![field_def("ping", vec![], base_out("String", false))],
                interface_implementations: vec![],
            }),
            TypeDefinition::Object(ObjectTypeDefinition {
                name: "Sub".to_string(),
                fields_definition: vec![
                    field_def("left", vec![], base_out("String", false)),
                    field_def("right", vec![], base_out("String", false)),
                ],
                interface_implementations: vec![],
            }),
        ],
        vec![],
    );
    let op = OperationDefinition::Explicit(ExplicitOperationDefinition {
        operation_type: OperationType::Subscription,
        name: Some(nm("Both", 13)),
        variable_definitions: vec![],
        directives: vec![],
        selection_set: sel_set(
            vec![plain_field("left", 20, vec![], None), plain_field("right", 25, vec![], None)],
            18,
            32,
        ),
        span: sp(0, 32),
    });
    let errors = validate(&doc(vec![op], vec![]), &schema);
    assert_eq!(errors.len(), 1);
    assert!(matches!(&errors[0], ValidationError::SubscriptionRootNotSingleField { .. }));
}

/// The validator is a pure function of its inputs: running it twice gives
/// the same error sequence.
#[test]
fn validator_is_deterministic() {
    let schema = star_wars_schema();
    let document = {
        let droid = plain_field("droid", 2, vec![], Some(name_sub(10)));
        doc(vec![implicit(sel_set(vec![droid], 0, 18))], vec![])
    };
    let first = validate(&document, &schema);
    let second = validate(&document, &schema);
    assert_eq!(first.len(), second.len());
    for (a, b) in first.iter().zip(second.iter()) {
        assert_eq!(a.primary_span(), b.primary_span());
        assert_eq!(a.rule_index(), b.rule_index());
    }
}

#[test]
fn unknown_argument_on_directive_is_reported() {
    let schema = star_wars_schema();
    let directive = bluejay::executable::Directive {
        name: nm("skip", 16),
        arguments: vec![
            Argument {
                name: nm("when", 21),
                value: Value::Boolean(bluejay::value::BooleanValue {
                    value: true,
                    span: sp(27, 31),
                }),
                span: sp(21, 31),
            },
            Argument {
                name: nm("if", 33),
                value: Value::Boolean(bluejay::value::BooleanValue {
                    value: true,
                    span: sp(37, 41),
                }),
                span: sp(33, 41),
            },
        ],
        span: sp(15, 42),
    };
    let name_field = Selection::Field(Field {
        alias: None,
        name: nm("name", 10),
        arguments: vec![],
        directives: vec![directive],
        selection_set: None,
        span: sp(10, 14),
    });
    let hero = plain_field("hero", 2, vec![], Some(sel_set(vec![name_field], 8, 44)));
    let errors = validate(&doc(vec![implicit(sel_set(vec![hero], 0, 46))], vec![]), &schema);
    assert_eq!(errors.len(), 1);
    assert!(
        matches!(&errors[0], ValidationError::ArgumentDoesNotExistOnDirective { argument_name, directive_name, .. }
            if argument_name == "when" && directive_name == "skip")
    );
}

#[test]
fn duplicate_fragment_names_are_reported() {
    let schema = star_wars_schema();
    let first = fragment("Dup", 20, "Character", vec![plain_field("name", 45, vec![], None)], 51);
    let second = fragment("Dup", 52, "Character", vec![plain_field("name", 77, vec![], None)], 83);
    let hero = plain_field("hero", 2, vec![], Some(sel_set(vec![spread("Dup", 9)], 7, 18)));
    let errors = validate(
        &doc(vec![implicit(sel_set(vec![hero], 0, 19))], vec![first, second]),
        &schema,
    );
    assert_eq!(errors.len(), 1);
    assert!(
        matches!(&errors[0], ValidationError::NonUniqueFragmentNames { name, duplicate_spans, .. }
            if name == "Dup" && duplicate_spans.len() == 2)
    );
}

/// A conflict may sit below the shared response key: the merging check
/// descends into the combined sub-selections of a group.
#[test]
fn nested_selections_that_do_not_merge_are_reported() {
    let schema = star_wars_schema();
    let plain_name = plain_field("name", 9, vec![], None);
    let aliased = Selection::Field(Field {
        alias: Some(nm("name", 25)),
        name: nm("__typename", 31),
        arguments: vec![],
        directives: vec![],
        selection_set: None,
        span: sp(25, 41),
    });
    let first = plain_field("hero", 2, vec![], Some(sel_set(vec![plain_name], 7, 15)));
    let second = plain_field("hero", 18, vec![], Some(sel_set(vec![aliased], 23, 43)));
    let errors = validate(&doc(vec![implicit(sel_set(vec![first, second], 0, 45))], vec![]), &schema);
    assert_eq!(errors.len(), 1);
    assert!(
        matches!(&errors[0], ValidationError::FieldSelectionsDoNotMerge { response_key, .. } if response_key == "name")
    );
}

/// Every reported primary span lies within the extent of the document's
/// own spans.
#[test]
fn primary_spans_stay_inside_the_document() {
    let schema = star_wars_schema();
    let droid = plain_field("droid", 2, vec![], Some(name_sub(10)));
    let bogus = plain_field("villain", 20, vec![], None);
    let document = doc(vec![implicit(sel_set(vec![droid, bogus], 0, 30))], vec![]);
    let errors = validate(&document, &schema);
    assert!(!errors.is_empty());
    for e in errors.iter() {
        let span = e.primary_span();
        assert!(span.start <= span.end);
        assert!(span.end <= 30);
    }
}
