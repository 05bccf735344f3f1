use vstd::prelude::*;

use crate::span::Span;
use crate::value::Name;

verus! {

/// The five scalar types every schema carries.
#[derive(Clone, Copy, Debug, PartialEq, Eq, Structural)]
pub enum BuiltinScalarDefinition {
    Boolean,
    Float,
    ID,
    Int,
    String,
}

impl BuiltinScalarDefinition {
    pub open spec fn spec_name(self) -> Seq<char> {
        match self {
            BuiltinScalarDefinition::Boolean => "Boolean"@,
            BuiltinScalarDefinition::Float => "Float"@,
            BuiltinScalarDefinition::ID => "ID"@,
            BuiltinScalarDefinition::Int => "Int"@,
            BuiltinScalarDefinition::String => "String"@,
        }
    }

    pub fn name(&self) -> (r: &'static str)
        ensures
            r@ == self.spec_name(),
    {
        match self {
            BuiltinScalarDefinition::Boolean => "Boolean",
            BuiltinScalarDefinition::Float => "Float",
            BuiltinScalarDefinition::ID => "ID",
            BuiltinScalarDefinition::Int => "Int",
            BuiltinScalarDefinition::String => "String",
        }
    }
}

/// The ghost shape of an input type reference: the base type name with the
/// list and non-null wrapping. Contracts compare types by shape.
pub enum InputTypeShape {
    Base(Seq<char>, bool),
    List(Box<InputTypeShape>, bool),
}

impl InputTypeShape {
    pub open spec fn is_required(self) -> bool {
        match self {
            InputTypeShape::Base(_, r) => r,
            InputTypeShape::List(_, r) => r,
        }
    }

    /// The same shape with the outermost non-null dropped.
    pub open spec fn nullable(self) -> InputTypeShape {
        match self {
            InputTypeShape::Base(n, _) => InputTypeShape::Base(n, false),
            InputTypeShape::List(i, _) => InputTypeShape::List(i, false),
        }
    }

    /// The name of the base type, through any list wrapping.
    pub open spec fn base_name(self) -> Seq<char>
        decreases self,
    {
        match self {
            InputTypeShape::Base(n, _) => n,
            InputTypeShape::List(i, _) => i.base_name(),
        }
    }

    /// The display form used by the specification, e.g. `[Foo!]!`.
    pub open spec fn display(self) -> Seq<char>
        decreases self,
    {
        match self {
            InputTypeShape::Base(n, r) => if r {
                n + "!"@
            } else {
                n
            },
            InputTypeShape::List(i, r) => if r {
                "["@ + i.display() + "]!"@
            } else {
                "["@ + i.display() + "]"@
            },
        }
    }

    /// A measure strictly decreased both by unwrapping a list and by
    /// dropping a non-null marker.
    pub open spec fn size(self) -> nat
        decreases self,
    {
        match self {
            InputTypeShape::Base(_, r) => if r {
                2
            } else {
                1
            },
            InputTypeShape::List(i, r) => i.size() + if r {
                2nat
            } else {
                1nat
            },
        }
    }
}

/// An input type as the schema states it, e.g. for an argument or an input
/// field: the base type is referenced by name and resolved against the
/// schema when needed.
pub enum InputType {
    Base(String, bool),
    List(Box<InputType>, bool),
}

impl View for InputType {
    type V = InputTypeShape;

    open spec fn view(&self) -> InputTypeShape
        decreases self,
    {
        match self {
            InputType::Base(n, r) => InputTypeShape::Base(n@, *r),
            InputType::List(i, r) => InputTypeShape::List(Box::new((**i)@), *r),
        }
    }
}

impl InputType {
    pub fn is_required(&self) -> (r: bool)
        ensures
            r == self@.is_required(),
    {
        match self {
            InputType::Base(_, r) => *r,
            InputType::List(_, r) => *r,
        }
    }

    pub fn base_name(&self) -> (r: &String)
        ensures
            r@ == self@.base_name(),
        decreases *self,
    {
        match self {
            InputType::Base(n, _) => n,
            InputType::List(i, _) => i.base_name(),
        }
    }

    /// The specification display form, e.g. `[Foo!]!`.
    pub fn display_name(&self) -> (r: String)
        ensures
            r@ == self@.display(),
        decreases *self,
    {
        match self {
            InputType::Base(n, req) => {
                if *req {
                    n.clone().concat("!")
                } else {
                    n.clone()
                }
            },
            InputType::List(i, req) => {
                let inner = i.display_name();
                let open = String::from_str("[");
                if *req {
                    open.concat(inner.as_str()).concat("]!")
                } else {
                    open.concat(inner.as_str()).concat("]")
                }
            },
        }
    }
}

/// An output type as the schema states it for a field.
pub enum OutputType {
    Base(String, bool),
    List(Box<OutputType>, bool),
}

/// The ghost shape of an output type.
pub enum OutputTypeShape {
    Base(Seq<char>, bool),
    List(Box<OutputTypeShape>, bool),
}

impl View for OutputType {
    type V = OutputTypeShape;

    open spec fn view(&self) -> OutputTypeShape
        decreases self,
    {
        match self {
            OutputType::Base(n, r) => OutputTypeShape::Base(n@, *r),
            OutputType::List(i, r) => OutputTypeShape::List(Box::new((**i)@), *r),
        }
    }
}

impl OutputTypeShape {
    pub open spec fn base_name(self) -> Seq<char>
        decreases self,
    {
        match self {
            OutputTypeShape::Base(n, _) => n,
            OutputTypeShape::List(i, _) => i.base_name(),
        }
    }

    pub open spec fn is_required(self) -> bool {
        match self {
            OutputTypeShape::Base(_, r) => r,
            OutputTypeShape::List(_, r) => r,
        }
    }

    pub open spec fn nullable(self) -> OutputTypeShape {
        match self {
            OutputTypeShape::Base(n, _) => OutputTypeShape::Base(n, false),
            OutputTypeShape::List(i, _) => OutputTypeShape::List(i, false),
        }
    }

    /// A measure strictly decreased both by unwrapping a list and by
    /// dropping a non-null marker.
    pub open spec fn size(self) -> nat
        decreases self,
    {
        match self {
            OutputTypeShape::Base(_, r) => if r {
                2
            } else {
                1
            },
            OutputTypeShape::List(i, r) => i.size() + if r {
                2nat
            } else {
                1nat
            },
        }
    }
}

impl OutputType {
    pub fn base_name(&self) -> (r: &String)
        ensures
            r@ == self@.base_name(),
        decreases *self,
    {
        match self {
            OutputType::Base(n, _) => n,
            OutputType::List(i, _) => i.base_name(),
        }
    }

    pub fn is_required(&self) -> (r: bool)
        ensures
            r == self@.is_required(),
    {
        match self {
            OutputType::Base(_, r) => *r,
            OutputType::List(_, r) => *r,
        }
    }
}

pub fn clone_output_type(t: &OutputType) -> (r: OutputType)
    ensures
        r@ == t@,
    decreases *t,
{
    match t {
        OutputType::Base(n, req) => OutputType::Base(n.clone(), *req),
        OutputType::List(i, req) => OutputType::List(Box::new(clone_output_type(i)), *req),
    }
}

/// The same output type with the outermost non-null dropped.
pub fn strip_required_output(t: &OutputType) -> (r: OutputType)
    ensures
        r@ == t@.nullable(),
        r@.size() <= t@.size(),
    decreases *t,
{
    proof {
        lemma_output_type_size(*t);
    }
    match t {
        OutputType::Base(n, _) => OutputType::Base(n.clone(), false),
        OutputType::List(i, _) => OutputType::List(Box::new(clone_output_type(i)), false),
    }
}

/// Every output shape's measure is at least 1, and dropping the non-null
/// marker strictly shrinks a required shape.
pub proof fn lemma_output_type_size(t: OutputType)
    ensures
        t@.size() >= 1,
        t@.is_required() ==> t@.nullable().size() < t@.size(),
        !t@.is_required() ==> t@.nullable() == t@,
    decreases t,
{
    match t {
        OutputType::Base(_, _) => {},
        OutputType::List(i, _) => {
            lemma_output_type_size(*i);
        },
    }
}

/// The base of an input type reference in a document, referenced by name;
/// it resolves against the schema's type definitions when a rule needs it.
pub struct BaseInputType {
    pub name: Name,
}

impl BaseInputType {
    pub fn name(&self) -> (r: &Name)
        ensures
            r == &self.name,
    {
        &self.name
    }
}

/// An input type reference as written in a document (a variable definition's
/// declared type), carrying source spans.
pub enum InputTypeReference {
    Base(BaseInputType, bool, Span),
    List(Box<InputTypeReference>, bool, Span),
}

impl View for InputTypeReference {
    type V = InputTypeShape;

    open spec fn view(&self) -> InputTypeShape
        decreases self,
    {
        match self {
            InputTypeReference::Base(b, r, _) => InputTypeShape::Base(b.name.value@, *r),
            InputTypeReference::List(i, r, _) => InputTypeShape::List(Box::new((**i)@), *r),
        }
    }
}

impl InputTypeReference {
    pub open spec fn spec_span(self) -> Span {
        match self {
            InputTypeReference::Base(_, _, s) => s,
            InputTypeReference::List(_, _, s) => s,
        }
    }

    pub fn span(&self) -> (r: Span)
        ensures
            r == self.spec_span(),
    {
        match self {
            InputTypeReference::Base(_, _, s) => *s,
            InputTypeReference::List(_, _, s) => *s,
        }
    }

    pub open spec fn spans_within(self, bound: nat) -> bool
        decreases self,
    {
        self.spec_span().within(bound) && match self {
            InputTypeReference::Base(b, _, _) => b.name.span.within(bound),
            InputTypeReference::List(i, _, _) => i.spans_within(bound),
        }
    }

    pub fn is_required(&self) -> (r: bool)
        ensures
            r == self@.is_required(),
    {
        match self {
            InputTypeReference::Base(_, r, _) => *r,
            InputTypeReference::List(_, r, _) => *r,
        }
    }

    /// The same type with spans dropped, in the schema's form.
    pub fn to_input_type(&self) -> (r: InputType)
        ensures
            r@ == self@,
        decreases *self,
    {
        match self {
            InputTypeReference::Base(b, req, _) => InputType::Base(b.name.value.clone(), *req),
            InputTypeReference::List(i, req, _) => InputType::List(
                Box::new(i.to_input_type()),
                *req,
            ),
        }
    }

    pub fn display_name(&self) -> (r: String)
        ensures
            r@ == self@.display(),
        decreases *self,
    {
        match self {
            InputTypeReference::Base(b, req, _) => {
                if *req {
                    b.name.value.clone().concat("!")
                } else {
                    b.name.value.clone()
                }
            },
            InputTypeReference::List(i, req, _) => {
                let inner = i.display_name();
                let open = String::from_str("[");
                if *req {
                    open.concat(inner.as_str()).concat("]!")
                } else {
                    open.concat(inner.as_str()).concat("]")
                }
            },
        }
    }
}

/// Whether a variable declared with type `var` may stand in a location of
/// type `loc`. `has_default` records that the variable carries a non-null
/// default value or the location itself has a default, which lets the
/// variable satisfy a non-null location even when its declared type is
/// nullable.
pub open spec fn spec_variable_usage_allowed(
    var: InputTypeShape,
    loc: InputTypeShape,
    has_default: bool,
) -> bool
    decreases var.size() + loc.size(),
{
    if loc.is_required() {
        if var.is_required() || has_default {
            spec_variable_usage_allowed(var.nullable(), loc.nullable(), has_default)
        } else {
            false
        }
    } else if var.is_required() {
        spec_variable_usage_allowed(var.nullable(), loc, has_default)
    } else {
        match (var, loc) {
            (InputTypeShape::List(vi, _), InputTypeShape::List(li, _)) => {
                spec_variable_usage_allowed(*vi, *li, has_default)
            },
            (InputTypeShape::Base(vn, _), InputTypeShape::Base(ln, _)) => vn == ln,
            _ => false,
        }
    }
}

/// Executable form of [`spec_variable_usage_allowed`], on the schema's shape
/// of both types.
pub fn variable_usage_allowed(var: &InputType, loc: &InputType, has_default: bool) -> (r: bool)
    ensures
        r == spec_variable_usage_allowed(var@, loc@, has_default),
    decreases var@.size() + loc@.size(),
{
    proof {
        lemma_input_type_size(*var);
        lemma_input_type_size(*loc);
    }
    let loc_required = loc.is_required();
    let var_required = var.is_required();
    if loc_required {
        if var_required || has_default {
            let v = strip_required(var);
            let l = strip_required(loc);
            variable_usage_allowed(&v, &l, has_default)
        } else {
            false
        }
    } else if var_required {
        let v = strip_required(var);
        variable_usage_allowed(&v, loc, has_default)
    } else {
        match (var, loc) {
            (InputType::List(vi, _), InputType::List(li, _)) => {
                variable_usage_allowed(vi, li, has_default)
            },
            (InputType::Base(vn, _), InputType::Base(ln, _)) => *vn == *ln,
            _ => false,
        }
    }
}

/// The same type with the outermost non-null dropped.
fn strip_required(t: &InputType) -> (r: InputType)
    ensures
        r@ == t@.nullable(),
        r@.size() <= t@.size(),
    decreases *t,
{
    proof {
        lemma_input_type_size(*t);
    }
    match t {
        InputType::Base(n, _) => InputType::Base(n.clone(), false),
        InputType::List(i, _) => {
            let inner = clone_input_type(i);
            InputType::List(Box::new(inner), false)
        },
    }
}

pub fn clone_input_type(t: &InputType) -> (r: InputType)
    ensures
        r@ == t@,
    decreases *t,
{
    match t {
        InputType::Base(n, req) => InputType::Base(n.clone(), *req),
        InputType::List(i, req) => InputType::List(Box::new(clone_input_type(i)), *req),
    }
}

/// Every shape's measure is at least 1, and dropping the non-null marker
/// strictly shrinks a required shape.
pub proof fn lemma_input_type_size(t: InputType)
    ensures
        t@.size() >= 1,
        t@.is_required() ==> t@.nullable().size() < t@.size(),
        !t@.is_required() ==> t@.nullable() == t@,
    decreases t,
{
    match t {
        InputType::Base(_, _) => {},
        InputType::List(i, _) => {
            lemma_input_type_size(*i);
        },
    }
}

} // verus!
