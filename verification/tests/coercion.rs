use bluejay::input_coercion::{
    coerce_value_for_input_type_reference, CoerceInput, CoercionError, PathMember,
};
use bluejay::schema::{
    EnumTypeDefinition, EnumValueDefinition, InputObjectTypeDefinition, InputValueDefinition,
    ObjectTypeDefinition, SchemaDefinition, TypeDefinition,
};
use bluejay::span::Span;
use bluejay::types::{InputType, OutputType};
use bluejay::value::{
    BooleanValue, IntegerValue, ListValue, Name, ObjectValue, StringValue, Value,
};

fn sp(a: usize, b: usize) -> Span {
    Span { start: a, end: b }
}

fn nm(s: &str, at: usize) -> Name {
    Name {
        value: s.to_string(),
        span: sp(at, at + s.len()),
    }
}

fn int_value(v: i32, at: usize) -> Value {
    Value::Integer(IntegerValue { value: v, span: sp(at, at + 1) })
}

fn schema_with_point() -> SchemaDefinition {
    let point = InputObjectTypeDefinition {
        name: "Point".to_string(),
        input_field_definitions: vec![
            InputValueDefinition {
                name: "x".to_string(),
                input_type: InputType::Base("Int".to_string(), true),
                default_value: None,
            },
            InputValueDefinition {
                name: "y".to_string(),
                input_type: InputType::Base("Int".to_string(), true),
                default_value: None,
            },
            InputValueDefinition {
                name: "label".to_string(),
                input_type: InputType::Base("String".to_string(), false),
                default_value: None,
            },
        ],
    };
    SchemaDefinition::new(
        "Query",
        None,
        None,
        vec![
            TypeDefinition::Object(ObjectTypeDefinition {
                name: "Query".to_string(),
                fields_definition: vec![bluejay::schema::FieldDefinition {
                    name: "ping".to_string(),
                    arguments_definition: vec![],
                    output_type: OutputType::Base("String".to_string(), false),
                }],
                interface_implementations: vec![],
            }),
            TypeDefinition::InputObject(point),
            TypeDefinition::Enum(EnumTypeDefinition {
                name: "Suit".to_string(),
                enum_value_definitions: vec![
                    EnumValueDefinition { name: "CLUBS".to_string() },
                    EnumValueDefinition { name: "HEARTS".to_string() },
                ],
            }),
        ],
        vec![],
    )
}

fn coerce(schema: &SchemaDefinition, ty: &InputType, value: &Value) -> Result<(), Vec<CoercionError>> {
    let path: Vec<PathMember> = Vec::new();
    coerce_value_for_input_type_reference(schema, ty, value, &path, true)
}

#[test]
fn coerce_value_for_input_type_reference_accepts_int() {
    let schema = schema_with_point();
    let ty = InputType::Base("Int".to_string(), true);
    assert!(coerce(&schema, &ty, &int_value(3, 0)).is_ok());
}

#[test]
fn coerce_builtin_scalar_value_rejects_string_for_int() {
    let schema = schema_with_point();
    let ty = InputType::Base("Int".to_string(), true);
    let value = Value::String(StringValue { value: "three".to_string(), span: sp(0, 7) });
    let errors = coerce(&schema, &ty, &value).unwrap_err();
    assert_eq!(errors.len(), 1);
    assert!(
        matches!(&errors[0], CoercionError::NoImplicitConversion { input_type_name, .. } if input_type_name == "Int!")
    );
}

#[test]
fn null_for_required_type_is_rejected() {
    let schema = schema_with_point();
    let ty = InputType::Base("Int".to_string(), true);
    let errors = coerce(&schema, &ty, &Value::Null(sp(0, 4))).unwrap_err();
    assert_eq!(errors.len(), 1);
    assert!(matches!(&errors[0], CoercionError::NullValueForRequiredType { .. }));
}

#[test]
fn null_for_nullable_type_is_accepted() {
    let schema = schema_with_point();
    let ty = InputType::Base("Int".to_string(), false);
    assert!(coerce(&schema, &ty, &Value::Null(sp(0, 4))).is_ok());
}

#[test]
fn id_accepts_both_strings_and_ints() {
    let schema = schema_with_point();
    let ty = InputType::Base("ID".to_string(), true);
    let as_string = Value::String(StringValue { value: "42".to_string(), span: sp(0, 4) });
    assert!(coerce(&schema, &ty, &as_string).is_ok());
    assert!(coerce(&schema, &ty, &int_value(42, 0)).is_ok());
    let as_bool = Value::Boolean(BooleanValue { value: true, span: sp(0, 4) });
    assert!(coerce(&schema, &ty, &as_bool).is_err());
}

#[test]
fn float_accepts_int_but_not_bool() {
    let schema = schema_with_point();
    let ty = InputType::Base("Float".to_string(), false);
    assert!(coerce(&schema, &ty, &int_value(7, 0)).is_ok());
    let as_bool = Value::Boolean(BooleanValue { value: false, span: sp(0, 5) });
    assert!(coerce(&schema, &ty, &as_bool).is_err());
}

#[test]
fn coerce_enum_value_checks_membership() {
    let schema = schema_with_point();
    let ty = InputType::Base("Suit".to_string(), true);
    assert!(coerce(&schema, &ty, &Value::Enum(nm("HEARTS", 0))).is_ok());
    let errors = coerce(&schema, &ty, &Value::Enum(nm("SPADES", 0))).unwrap_err();
    assert_eq!(errors.len(), 1);
    assert!(
        matches!(&errors[0], CoercionError::NoEnumMemberWithName { name, enum_type_name, .. }
            if name == "SPADES" && enum_type_name == "Suit")
    );
}

/// A bare value stands for a singleton list at the outermost level only.
#[test]
fn implicit_list_promotion_is_outermost_only() {
    let schema = schema_with_point();
    let int_list = InputType::List(Box::new(InputType::Base("Int".to_string(), true)), false);
    assert!(coerce(&schema, &int_list, &int_value(5, 0)).is_ok());

    let nested = InputType::List(Box::new(int_list), false);
    // A bare int promotes through both list levels when no list literal is
    // written.
    assert!(coerce(&schema, &nested, &int_value(5, 0)).is_ok());
    // But inside a written list, the inner value must have the inner shape.
    let written = Value::List(ListValue { elements: vec![int_value(5, 1)], span: sp(0, 3) });
    let errors = coerce(&schema, &nested, &written).unwrap_err();
    assert_eq!(errors.len(), 1);
    assert!(matches!(&errors[0], CoercionError::NoImplicitConversion { path, .. }
        if matches!(path[..], [PathMember::Index(0)])));
}

#[test]
fn list_elements_are_coerced_with_their_index_on_the_path() {
    let schema = schema_with_point();
    let int_list = InputType::List(Box::new(InputType::Base("Int".to_string(), true)), false);
    let value = Value::List(ListValue {
        elements: vec![
            int_value(1, 1),
            Value::String(StringValue { value: "x".to_string(), span: sp(3, 6) }),
        ],
        span: sp(0, 7),
    });
    let errors = coerce(&schema, &int_list, &value).unwrap_err();
    assert_eq!(errors.len(), 1);
    assert!(matches!(&errors[0], CoercionError::NoImplicitConversion { path, .. }
        if matches!(path[..], [PathMember::Index(1)])));
}

fn point_object(fields: Vec<(Name, Value)>, a: usize, b: usize) -> Value {
    Value::Object(ObjectValue { fields, span: sp(a, b) })
}

#[test]
fn coerce_input_object_value_accepts_a_complete_literal() {
    let schema = schema_with_point();
    let ty = InputType::Base("Point".to_string(), true);
    let value = point_object(
        vec![(nm("x", 2), int_value(1, 5)), (nm("y", 8), int_value(2, 11))],
        0,
        13,
    );
    assert!(coerce(&schema, &ty, &value).is_ok());
}

#[test]
fn missing_required_input_fields_are_reported_in_one_error() {
    let schema = schema_with_point();
    let ty = InputType::Base("Point".to_string(), true);
    let value = point_object(vec![], 0, 2);
    let errors = coerce(&schema, &ty, &value).unwrap_err();
    assert_eq!(errors.len(), 1);
    assert!(
        matches!(&errors[0], CoercionError::NoValueForRequiredFields { field_names, input_object_type_name, .. }
            if field_names.len() == 2 && field_names[0] == "x" && field_names[1] == "y"
                && input_object_type_name == "Point")
    );
}

#[test]
fn unknown_and_duplicate_keys_are_both_reported() {
    let schema = schema_with_point();
    let ty = InputType::Base("Point".to_string(), true);
    let value = point_object(
        vec![
            (nm("x", 2), int_value(1, 5)),
            (nm("x", 8), int_value(2, 11)),
            (nm("y", 14), int_value(3, 17)),
            (nm("z", 20), int_value(4, 23)),
        ],
        0,
        25,
    );
    let errors = coerce(&schema, &ty, &value).unwrap_err();
    assert_eq!(errors.len(), 2);
    assert!(
        matches!(&errors[0], CoercionError::NonUniqueFieldNames { field_name, key_spans, .. }
            if field_name == "x" && key_spans.len() == 2)
    );
    assert!(
        matches!(&errors[1], CoercionError::NoInputFieldWithName { field_name, .. } if field_name == "z")
    );
}

#[test]
fn nested_input_field_errors_carry_the_key_on_the_path() {
    let schema = schema_with_point();
    let ty = InputType::Base("Point".to_string(), true);
    let value = point_object(
        vec![
            (nm("x", 2), Value::Null(sp(5, 9))),
            (nm("y", 11), int_value(2, 14)),
        ],
        0,
        16,
    );
    let errors = coerce(&schema, &ty, &value).unwrap_err();
    assert_eq!(errors.len(), 1);
    assert!(matches!(&errors[0], CoercionError::NullValueForRequiredType { path, .. }
        if matches!(&path[..], [PathMember::Key(k)] if k == "x")));
}

#[test]
fn variables_are_accepted_in_non_const_positions() {
    let schema = schema_with_point();
    let ty = InputType::Base("Int".to_string(), true);
    let variable = Value::Variable(bluejay::value::VariableValue {
        name: nm("v", 1),
        span: sp(0, 2),
    });
    assert!(coerce(&schema, &ty, &variable).is_ok());
}

/// Coercion is a pure function: the same type and value give the same
/// errors every time, and the inputs are left untouched.
#[test]
fn coercion_is_idempotent() {
    let schema = schema_with_point();
    let ty = InputType::Base("Suit".to_string(), true);
    let value = Value::Enum(nm("SPADES", 0));
    let first = coerce(&schema, &ty, &value).unwrap_err();
    let second = coerce(&schema, &ty, &value).unwrap_err();
    assert_eq!(first.len(), second.len());
    for (a, b) in first.iter().zip(second.iter()) {
        match (a, b) {
            (
                CoercionError::NoEnumMemberWithName { name: n1, span: s1, .. },
                CoercionError::NoEnumMemberWithName { name: n2, span: s2, .. },
            ) => {
                assert_eq!(n1, n2);
                assert_eq!(s1, s2);
            },
            _ => panic!("unexpected error kinds"),
        }
    }
}

/// The `CoerceInput` contract is shared by schema input types and by the
/// declared types of variable definitions.
#[test]
fn coerce_input_trait_covers_both_type_forms() {
    let schema = schema_with_point();
    let schema_side = InputType::Base("Int".to_string(), true);
    let path: Vec<PathMember> = Vec::new();
    assert!(schema_side.coerce_value(&schema, &int_value(1, 0), &path).is_ok());

    let document_side = bluejay::types::InputTypeReference::Base(
        bluejay::types::BaseInputType { name: nm("Int", 0) },
        true,
        sp(0, 4),
    );
    assert!(document_side.coerce_value(&schema, &int_value(1, 0), &path).is_ok());
    assert!(document_side.coerce_value(&schema, &Value::Null(sp(0, 4)), &path).is_err());
}

#[test]
fn display_name_shows_wrapping() {
    let inner = InputType::Base("Foo".to_string(), true);
    let list = InputType::List(Box::new(inner), true);
    assert_eq!(list.display_name(), "[Foo!]!");
    let document_side = bluejay::types::InputTypeReference::List(
        Box::new(bluejay::types::InputTypeReference::Base(
            bluejay::types::BaseInputType { name: nm("Foo", 1) },
            false,
            sp(1, 4),
        )),
        true,
        sp(0, 6),
    );
    assert_eq!(document_side.display_name(), "[Foo]!");
}
