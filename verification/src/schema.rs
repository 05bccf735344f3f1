use vstd::prelude::*;

use crate::types::{BaseInputType, BuiltinScalarDefinition, InputType, OutputType};
use crate::value::Value;

verus! {

/// A resolved base input type: the type definition a base input type
/// reference names, restricted to the input universe.
pub enum BaseInputTypeReference<'a> {
    BuiltinScalar(BuiltinScalarDefinition),
    CustomScalar(&'a CustomScalarTypeDefinition),
    Enum(&'a EnumTypeDefinition),
    InputObject(&'a InputObjectTypeDefinition),
}

pub struct CustomScalarTypeDefinition {
    pub name: String,
}

pub struct EnumValueDefinition {
    pub name: String,
}

pub struct EnumTypeDefinition {
    pub name: String,
    pub enum_value_definitions: Vec<EnumValueDefinition>,
}

/// An argument or input-field declaration: name, declared input type, and an
/// optional default value (a const value: it holds no variables).
pub struct InputValueDefinition {
    pub name: String,
    pub input_type: InputType,
    pub default_value: Option<Value>,
}

pub struct InputObjectTypeDefinition {
    pub name: String,
    pub input_field_definitions: Vec<InputValueDefinition>,
}

pub struct FieldDefinition {
    pub name: String,
    pub arguments_definition: Vec<InputValueDefinition>,
    pub output_type: OutputType,
}

pub struct ObjectTypeDefinition {
    pub name: String,
    pub fields_definition: Vec<FieldDefinition>,
    pub interface_implementations: Vec<String>,
}

pub struct InterfaceTypeDefinition {
    pub name: String,
    pub fields_definition: Vec<FieldDefinition>,
    pub interface_implementations: Vec<String>,
}

pub struct UnionTypeDefinition {
    pub name: String,
    pub member_types: Vec<String>,
}

/// A type as the schema defines it. Types reference one another by name;
/// the schema's lookup acts as the side table resolving them.
pub enum TypeDefinition {
    BuiltinScalar(BuiltinScalarDefinition),
    CustomScalar(CustomScalarTypeDefinition),
    Object(ObjectTypeDefinition),
    Interface(InterfaceTypeDefinition),
    Union(UnionTypeDefinition),
    Enum(EnumTypeDefinition),
    InputObject(InputObjectTypeDefinition),
}

impl TypeDefinition {
    pub open spec fn spec_name(self) -> Seq<char> {
        match self {
            TypeDefinition::BuiltinScalar(b) => b.spec_name(),
            TypeDefinition::CustomScalar(t) => t.name@,
            TypeDefinition::Object(t) => t.name@,
            TypeDefinition::Interface(t) => t.name@,
            TypeDefinition::Union(t) => t.name@,
            TypeDefinition::Enum(t) => t.name@,
            TypeDefinition::InputObject(t) => t.name@,
        }
    }

    pub fn name(&self) -> (r: String)
        ensures
            r@ == self.spec_name(),
    {
        match self {
            TypeDefinition::BuiltinScalar(b) => String::from_str(b.name()),
            TypeDefinition::CustomScalar(t) => t.name.clone(),
            TypeDefinition::Object(t) => t.name.clone(),
            TypeDefinition::Interface(t) => t.name.clone(),
            TypeDefinition::Union(t) => t.name.clone(),
            TypeDefinition::Enum(t) => t.name.clone(),
            TypeDefinition::InputObject(t) => t.name.clone(),
        }
    }

    /// Composite types are those a selection set may be conditioned on:
    /// objects, interfaces and unions.
    pub open spec fn spec_is_composite(self) -> bool {
        match self {
            TypeDefinition::Object(_) => true,
            TypeDefinition::Interface(_) => true,
            TypeDefinition::Union(_) => true,
            _ => false,
        }
    }

    pub fn is_composite(&self) -> (r: bool)
        ensures
            r == self.spec_is_composite(),
    {
        match self {
            TypeDefinition::Object(_) => true,
            TypeDefinition::Interface(_) => true,
            TypeDefinition::Union(_) => true,
            _ => false,
        }
    }

    /// Input types are those a variable or argument may carry: scalars,
    /// enums and input objects.
    pub open spec fn spec_is_input(self) -> bool {
        match self {
            TypeDefinition::BuiltinScalar(_) => true,
            TypeDefinition::CustomScalar(_) => true,
            TypeDefinition::Enum(_) => true,
            TypeDefinition::InputObject(_) => true,
            _ => false,
        }
    }

    pub fn is_input(&self) -> (r: bool)
        ensures
            r == self.spec_is_input(),
    {
        match self {
            TypeDefinition::BuiltinScalar(_) => true,
            TypeDefinition::CustomScalar(_) => true,
            TypeDefinition::Enum(_) => true,
            TypeDefinition::InputObject(_) => true,
            _ => false,
        }
    }

    /// Leaf types are those whose field selections must stop: scalars and
    /// enums.
    pub open spec fn spec_is_leaf(self) -> bool {
        match self {
            TypeDefinition::BuiltinScalar(_) => true,
            TypeDefinition::CustomScalar(_) => true,
            TypeDefinition::Enum(_) => true,
            _ => false,
        }
    }

    pub fn is_leaf(&self) -> (r: bool)
        ensures
            r == self.spec_is_leaf(),
    {
        match self {
            TypeDefinition::BuiltinScalar(_) => true,
            TypeDefinition::CustomScalar(_) => true,
            TypeDefinition::Enum(_) => true,
            _ => false,
        }
    }

    /// The fields definition, for objects and interfaces.
    pub open spec fn spec_fields_definition(self) -> Option<Seq<FieldDefinition>> {
        match self {
            TypeDefinition::Object(t) => Some(t.fields_definition@),
            TypeDefinition::Interface(t) => Some(t.fields_definition@),
            _ => None,
        }
    }
}

impl BaseInputType {
    /// Classifies a resolved type definition into the input universe:
    /// scalars, enums and input objects are input types; objects,
    /// interfaces and unions are not.
    pub fn core_type_from_type_definition_reference<'a>(
        type_definition_reference: &'a TypeDefinition,
    ) -> (r: Result<BaseInputTypeReference<'a>, ()>)
        ensures
            match r {
                Ok(k) => type_definition_reference.spec_is_input() && match k {
                    BaseInputTypeReference::BuiltinScalar(b) => *type_definition_reference
                        == TypeDefinition::BuiltinScalar(b),
                    BaseInputTypeReference::CustomScalar(c) => *type_definition_reference
                        == TypeDefinition::CustomScalar(*c),
                    BaseInputTypeReference::Enum(e) => *type_definition_reference
                        == TypeDefinition::Enum(*e),
                    BaseInputTypeReference::InputObject(io) => *type_definition_reference
                        == TypeDefinition::InputObject(*io),
                },
                Err(_) => !type_definition_reference.spec_is_input(),
            },
    {
        match type_definition_reference {
            TypeDefinition::BuiltinScalar(bstd) => Ok(
                BaseInputTypeReference::BuiltinScalar(*bstd),
            ),
            TypeDefinition::CustomScalar(cstd) => Ok(BaseInputTypeReference::CustomScalar(cstd)),
            TypeDefinition::Enum(etd) => Ok(BaseInputTypeReference::Enum(etd)),
            TypeDefinition::InputObject(iotd) => Ok(BaseInputTypeReference::InputObject(iotd)),
            TypeDefinition::Interface(_) => Err(()),
            TypeDefinition::Object(_) => Err(()),
            TypeDefinition::Union(_) => Err(()),
        }
    }
}

/// Where a directive may be used in an executable document.
#[derive(Clone, Copy, Debug, PartialEq, Eq, Structural)]
pub enum DirectiveLocation {
    Query,
    Mutation,
    Subscription,
    Field,
    FragmentDefinition,
    FragmentSpread,
    InlineFragment,
    VariableDefinition,
}

pub struct DirectiveDefinition {
    pub name: String,
    pub arguments_definition: Vec<InputValueDefinition>,
    pub locations: Vec<DirectiveLocation>,
}

/// A validated schema: the root operation types by name, the type
/// definitions, and the directive definitions. The five builtin scalars and
/// the `skip` and `include` directives are part of every schema built with
/// [`SchemaDefinition::new`].
pub struct SchemaDefinition {
    pub description: Option<String>,
    pub query: String,
    pub mutation: Option<String>,
    pub subscription: Option<String>,
    pub type_definitions: Vec<TypeDefinition>,
    pub directive_definitions: Vec<DirectiveDefinition>,
}

/// The index of the first type definition with the given name, if any.
pub open spec fn spec_find_type(defs: Seq<TypeDefinition>, name: Seq<char>, i: int) -> Option<
    TypeDefinition,
>
    decreases defs.len() - i,
{
    if i < 0 || i >= defs.len() {
        None
    } else if defs[i].spec_name() == name {
        Some(defs[i])
    } else {
        spec_find_type(defs, name, i + 1)
    }
}

/// The first directive definition with the given name, if any.
pub open spec fn spec_find_directive(
    defs: Seq<DirectiveDefinition>,
    name: Seq<char>,
    i: int,
) -> Option<DirectiveDefinition>
    decreases defs.len() - i,
{
    if i < 0 || i >= defs.len() {
        None
    } else if defs[i].name@ == name {
        Some(defs[i])
    } else {
        spec_find_directive(defs, name, i + 1)
    }
}

/// The first field definition with the given name, if any.
pub open spec fn spec_find_field(defs: Seq<FieldDefinition>, name: Seq<char>, i: int) -> Option<
    FieldDefinition,
>
    decreases defs.len() - i,
{
    if i < 0 || i >= defs.len() {
        None
    } else if defs[i].name@ == name {
        Some(defs[i])
    } else {
        spec_find_field(defs, name, i + 1)
    }
}

/// The first argument or input-field declaration with the given name.
pub open spec fn spec_find_input_value(
    defs: Seq<InputValueDefinition>,
    name: Seq<char>,
    i: int,
) -> Option<InputValueDefinition>
    decreases defs.len() - i,
{
    if i < 0 || i >= defs.len() {
        None
    } else if defs[i].name@ == name {
        Some(defs[i])
    } else {
        spec_find_input_value(defs, name, i + 1)
    }
}

pub fn find_field<'a>(defs: &'a Vec<FieldDefinition>, name: &String) -> (r: Option<
    &'a FieldDefinition,
>)
    ensures
        match r {
            Some(fd) => spec_find_field(defs@, name@, 0) == Some(*fd),
            None => spec_find_field(defs@, name@, 0) is None,
        },
{
    find_field_from(defs, name, 0)
}

fn find_field_from<'a>(defs: &'a Vec<FieldDefinition>, name: &String, i: usize) -> (r: Option<
    &'a FieldDefinition,
>)
    requires
        i <= defs@.len(),
    ensures
        match r {
            Some(fd) => spec_find_field(defs@, name@, i as int) == Some(*fd),
            None => spec_find_field(defs@, name@, i as int) is None,
        },
    decreases defs@.len() - i,
{
    if i >= defs.len() {
        None
    } else if defs[i].name == *name {
        Some(&defs[i])
    } else {
        find_field_from(defs, name, i + 1)
    }
}

pub fn find_input_value<'a>(defs: &'a Vec<InputValueDefinition>, name: &String) -> (r: Option<
    &'a InputValueDefinition,
>)
    ensures
        match r {
            Some(d) => spec_find_input_value(defs@, name@, 0) == Some(*d),
            None => spec_find_input_value(defs@, name@, 0) is None,
        },
{
    find_input_value_from(defs, name, 0)
}

fn find_input_value_from<'a>(
    defs: &'a Vec<InputValueDefinition>,
    name: &String,
    i: usize,
) -> (r: Option<&'a InputValueDefinition>)
    requires
        i <= defs@.len(),
    ensures
        match r {
            Some(d) => spec_find_input_value(defs@, name@, i as int) == Some(*d),
            None => spec_find_input_value(defs@, name@, i as int) is None,
        },
    decreases defs@.len() - i,
{
    if i >= defs.len() {
        None
    } else if defs[i].name == *name {
        Some(&defs[i])
    } else {
        find_input_value_from(defs, name, i + 1)
    }
}

impl SchemaDefinition {
    /// The type definition registered under `name`, if any. The schema acts
    /// as a side table: references inside types and documents are plain
    /// names resolved through this lookup.
    pub open spec fn spec_get_type(self, name: Seq<char>) -> Option<TypeDefinition> {
        spec_find_type(self.type_definitions@, name, 0)
    }

    pub fn get_type<'a>(&'a self, name: &String) -> (r: Option<&'a TypeDefinition>)
        ensures
            match r {
                Some(td) => self.spec_get_type(name@) == Some(*td),
                None => self.spec_get_type(name@) is None,
            },
    {
        get_type_from(&self.type_definitions, name, 0)
    }

    pub open spec fn spec_get_directive(self, name: Seq<char>) -> Option<DirectiveDefinition> {
        spec_find_directive(self.directive_definitions@, name, 0)
    }

    pub fn get_directive<'a>(&'a self, name: &String) -> (r: Option<&'a DirectiveDefinition>)
        ensures
            match r {
                Some(dd) => self.spec_get_directive(name@) == Some(*dd),
                None => self.spec_get_directive(name@) is None,
            },
    {
        get_directive_from(&self.directive_definitions, name, 0)
    }

    /// The name of the root operation type for an operation kind, if the
    /// schema defines one.
    pub open spec fn spec_root_type_name(self, kind: crate::executable::OperationType) -> Option<
        Seq<char>,
    > {
        match kind {
            crate::executable::OperationType::Query => Some(self.query@),
            crate::executable::OperationType::Mutation => match self.mutation {
                Some(m) => Some(m@),
                None => None,
            },
            crate::executable::OperationType::Subscription => match self.subscription {
                Some(s) => Some(s@),
                None => None,
            },
        }
    }

    pub fn root_type_name<'a>(&'a self, kind: crate::executable::OperationType) -> (r: Option<
        &'a String,
    >)
        ensures
            match r {
                Some(n) => self.spec_root_type_name(kind) == Some(n@),
                None => self.spec_root_type_name(kind) is None,
            },
    {
        match kind {
            crate::executable::OperationType::Query => Some(&self.query),
            crate::executable::OperationType::Mutation => self.mutation.as_ref(),
            crate::executable::OperationType::Subscription => self.subscription.as_ref(),
        }
    }

    /// Builds a schema, placing the builtin scalars and the `skip` and
    /// `include` directive definitions ahead of the declared ones.
    pub fn new(
        query: &str,
        mutation: Option<String>,
        subscription: Option<String>,
        type_definitions: Vec<TypeDefinition>,
        directive_definitions: Vec<DirectiveDefinition>,
    ) -> (r: SchemaDefinition)
        ensures
            r.query@ == query@,
            r.mutation == mutation,
            r.subscription == subscription,
    {
        let mut types: Vec<TypeDefinition> = Vec::new();
        types.push(TypeDefinition::BuiltinScalar(BuiltinScalarDefinition::Boolean));
        types.push(TypeDefinition::BuiltinScalar(BuiltinScalarDefinition::Float));
        types.push(TypeDefinition::BuiltinScalar(BuiltinScalarDefinition::ID));
        types.push(TypeDefinition::BuiltinScalar(BuiltinScalarDefinition::Int));
        types.push(TypeDefinition::BuiltinScalar(BuiltinScalarDefinition::String));
        let mut declared = type_definitions;
        types.append(&mut declared);
        let mut directives: Vec<DirectiveDefinition> = Vec::new();
        directives.push(builtin_conditional_directive("skip"));
        directives.push(builtin_conditional_directive("include"));
        let mut declared_directives = directive_definitions;
        directives.append(&mut declared_directives);
        SchemaDefinition {
            description: None,
            query: query.to_string(),
            mutation,
            subscription,
            type_definitions: types,
            directive_definitions: directives,
        }
    }
}

/// `@skip` and `@include`: one required Boolean argument `if`, allowed on
/// fields, fragment spreads and inline fragments.
fn builtin_conditional_directive(name: &str) -> (r: DirectiveDefinition)
    ensures
        r.name@ == name@,
{
    let mut arguments: Vec<InputValueDefinition> = Vec::new();
    arguments.push(
        InputValueDefinition {
            name: String::from_str("if"),
            input_type: InputType::Base(String::from_str("Boolean"), true),
            default_value: None,
        },
    );
    let mut locations: Vec<DirectiveLocation> = Vec::new();
    locations.push(DirectiveLocation::Field);
    locations.push(DirectiveLocation::FragmentSpread);
    locations.push(DirectiveLocation::InlineFragment);
    DirectiveDefinition { name: name.to_string(), arguments_definition: arguments, locations }
}

fn get_type_from<'a>(defs: &'a Vec<TypeDefinition>, name: &String, i: usize) -> (r: Option<
    &'a TypeDefinition,
>)
    requires
        i <= defs@.len(),
    ensures
        match r {
            Some(td) => spec_find_type(defs@, name@, i as int) == Some(*td),
            None => spec_find_type(defs@, name@, i as int) is None,
        },
    decreases defs@.len() - i,
{
    if i >= defs.len() {
        None
    } else {
        let n = defs[i].name();
        if n == *name {
            Some(&defs[i])
        } else {
            get_type_from(defs, name, i + 1)
        }
    }
}

fn get_directive_from<'a>(defs: &'a Vec<DirectiveDefinition>, name: &String, i: usize) -> (r:
    Option<&'a DirectiveDefinition>)
    requires
        i <= defs@.len(),
    ensures
        match r {
            Some(dd) => spec_find_directive(defs@, name@, i as int) == Some(*dd),
            None => spec_find_directive(defs@, name@, i as int) is None,
        },
    decreases defs@.len() - i,
{
    if i >= defs.len() {
        None
    } else if defs[i].name == *name {
        Some(&defs[i])
    } else {
        get_directive_from(defs, name, i + 1)
    }
}

} // verus!
