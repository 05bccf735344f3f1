use vstd::prelude::*;

use crate::span::Span;

verus! {

/// A lexical name together with its source span.
pub struct Name {
    pub value: String,
    pub span: Span,
}

impl Name {
    pub fn new(value: &str, start: usize, end: usize) -> (r: Name)
        ensures
            r.value@ == value@,
            r.span == (Span { start, end }),
    {
        Name { value: value.to_string(), span: Span { start, end } }
    }

    pub fn as_str(&self) -> (r: &str)
        ensures
            r@ == self.value@,
    {
        self.value.as_str()
    }
}

/// A variable occurrence `$name`; the span covers the `$` sigil.
pub struct VariableValue {
    pub name: Name,
    pub span: Span,
}

pub struct IntegerValue {
    pub value: i32,
    pub span: Span,
}

/// A float literal is kept as its source text: the validator only ever asks
/// whether a value is of float shape, never for its numeric interpretation.
pub struct FloatValue {
    pub source: String,
    pub span: Span,
}

pub struct StringValue {
    pub value: String,
    pub span: Span,
}

pub struct BooleanValue {
    pub value: bool,
    pub span: Span,
}

impl BooleanValue {
    pub fn to_bool(&self) -> (r: bool)
        ensures
            r == self.value,
    {
        self.value
    }
}

pub struct ListValue {
    pub elements: Vec<Value>,
    pub span: Span,
}

impl ListValue {
    pub fn elements(&self) -> (r: &Vec<Value>)
        ensures
            r == &self.elements,
    {
        &self.elements
    }
}

pub struct ObjectValue {
    pub fields: Vec<(Name, Value)>,
    pub span: Span,
}

impl ObjectValue {
    pub fn fields(&self) -> (r: &Vec<(Name, Value)>)
        ensures
            r == &self.fields,
    {
        &self.fields
    }
}

/// A value as it appears in an executable document. Variables may only occur
/// in non-const positions; the coercion and usage rules treat them specially.
pub enum Value {
    Variable(VariableValue),
    Integer(IntegerValue),
    Float(FloatValue),
    String(StringValue),
    Boolean(BooleanValue),
    Null(Span),
    Enum(Name),
    List(ListValue),
    Object(ObjectValue),
}

impl Value {
    pub open spec fn spec_span(self) -> Span {
        match self {
            Value::Variable(v) => v.span,
            Value::Integer(v) => v.span,
            Value::Float(v) => v.span,
            Value::String(v) => v.span,
            Value::Boolean(v) => v.span,
            Value::Null(s) => s,
            Value::Enum(n) => n.span,
            Value::List(v) => v.span,
            Value::Object(v) => v.span,
        }
    }

    pub fn span(&self) -> (r: Span)
        ensures
            r == self.spec_span(),
    {
        match self {
            Value::Variable(v) => v.span,
            Value::Integer(v) => v.span,
            Value::Float(v) => v.span,
            Value::String(v) => v.span,
            Value::Boolean(v) => v.span,
            Value::Null(s) => *s,
            Value::Enum(n) => n.span,
            Value::List(v) => v.span,
            Value::Object(v) => v.span,
        }
    }

    /// All spans of the value and its children lie within the first `bound`
    /// bytes of the source.
    pub open spec fn spans_within(self, bound: nat) -> bool
        decreases self, 0int,
    {
        self.spec_span().within(bound) && match self {
            Value::List(l) => spec_value_list_spans_within(l.elements@, 0, bound),
            Value::Object(o) => spec_value_fields_spans_within(o.fields@, 0, bound),
            _ => true,
        }
    }
}

pub open spec fn spec_value_list_spans_within(s: Seq<Value>, i: int, bound: nat) -> bool
    decreases s, 1int, s.len() - i,
{
    if i < 0 || i >= s.len() {
        true
    } else {
        s[i].spans_within(bound) && spec_value_list_spans_within(s, i + 1, bound)
    }
}

pub open spec fn spec_value_fields_spans_within(
    fields: Seq<(Name, Value)>,
    i: int,
    bound: nat,
) -> bool
    decreases fields, 1int, fields.len() - i,
{
    if i < 0 || i >= fields.len() {
        true
    } else {
        fields[i].0.span.within(bound) && fields[i].1.spans_within(bound)
            && spec_value_fields_spans_within(fields, i + 1, bound)
    }
}

/// Syntactic equality of two values: identical structure and lexical content,
/// ignoring source spans. This is the notion of argument-value equality used
/// by field-selection merging.
pub open spec fn spec_value_eq(a: Value, b: Value) -> bool
    decreases a, 0int,
{
    match (a, b) {
        (Value::Variable(x), Value::Variable(y)) => x.name.value@ == y.name.value@,
        (Value::Integer(x), Value::Integer(y)) => x.value == y.value,
        (Value::Float(x), Value::Float(y)) => x.source@ == y.source@,
        (Value::String(x), Value::String(y)) => x.value@ == y.value@,
        (Value::Boolean(x), Value::Boolean(y)) => x.value == y.value,
        (Value::Null(_), Value::Null(_)) => true,
        (Value::Enum(x), Value::Enum(y)) => x.value@ == y.value@,
        (Value::List(x), Value::List(y)) => spec_value_list_eq(x.elements@, y.elements@, 0),
        (Value::Object(x), Value::Object(y)) => spec_value_fields_eq(x.fields@, y.fields@, 0),
        _ => false,
    }
}

pub open spec fn spec_value_list_eq(xs: Seq<Value>, ys: Seq<Value>, i: int) -> bool
    decreases xs, 1int, xs.len() - i,
{
    if i < 0 || xs.len() != ys.len() {
        false
    } else if i >= xs.len() {
        true
    } else {
        spec_value_eq(xs[i], ys[i]) && spec_value_list_eq(xs, ys, i + 1)
    }
}

pub open spec fn spec_value_fields_eq(xs: Seq<(Name, Value)>, ys: Seq<(Name, Value)>, i: int) -> bool
    decreases xs, 1int, xs.len() - i,
{
    if i < 0 || xs.len() != ys.len() {
        false
    } else if i >= xs.len() {
        true
    } else {
        xs[i].0.value@ == ys[i].0.value@ && spec_value_eq(xs[i].1, ys[i].1)
            && spec_value_fields_eq(xs, ys, i + 1)
    }
}

pub fn value_eq(a: &Value, b: &Value) -> (r: bool)
    ensures
        r == spec_value_eq(*a, *b),
    decreases *a, 0int,
{
    match (a, b) {
        (Value::Variable(x), Value::Variable(y)) => x.name.value == y.name.value,
        (Value::Integer(x), Value::Integer(y)) => x.value == y.value,
        (Value::Float(x), Value::Float(y)) => x.source == y.source,
        (Value::String(x), Value::String(y)) => x.value == y.value,
        (Value::Boolean(x), Value::Boolean(y)) => x.value == y.value,
        (Value::Null(_), Value::Null(_)) => true,
        (Value::Enum(x), Value::Enum(y)) => x.value == y.value,
        (Value::List(x), Value::List(y)) => value_list_eq(&x.elements, &y.elements, 0),
        (Value::Object(x), Value::Object(y)) => value_fields_eq(&x.fields, &y.fields, 0),
        _ => false,
    }
}

fn value_list_eq(xs: &Vec<Value>, ys: &Vec<Value>, i: usize) -> (r: bool)
    requires
        i <= xs@.len(),
    ensures
        r == spec_value_list_eq(xs@, ys@, i as int),
    decreases xs@, 1int, xs@.len() - i,
{
    if xs.len() != ys.len() {
        false
    } else if i >= xs.len() {
        true
    } else {
        value_eq(&xs[i], &ys[i]) && value_list_eq(xs, ys, i + 1)
    }
}

fn value_fields_eq(xs: &Vec<(Name, Value)>, ys: &Vec<(Name, Value)>, i: usize) -> (r: bool)
    requires
        i <= xs@.len(),
    ensures
        r == spec_value_fields_eq(xs@, ys@, i as int),
    decreases xs@, 1int, xs@.len() - i,
{
    if xs.len() != ys.len() {
        false
    } else if i >= xs.len() {
        true
    } else {
        xs[i].0.value == ys[i].0.value && value_eq(&xs[i].1, &ys[i].1)
            && value_fields_eq(xs, ys, i + 1)
    }
}

} // verus!
