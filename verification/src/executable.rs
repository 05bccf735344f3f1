use vstd::prelude::*;

use crate::span::Span;
use crate::types::InputTypeReference;
use crate::value::{Name, Value};

verus! {

#[derive(Clone, Copy, Debug, PartialEq, Eq, Structural)]
pub enum OperationType {
    Query,
    Mutation,
    Subscription,
}

pub struct Argument {
    pub name: Name,
    pub value: Value,
    pub span: Span,
}

pub struct Directive {
    pub name: Name,
    pub arguments: Vec<Argument>,
    pub span: Span,
}

pub struct Field {
    pub alias: Option<Name>,
    pub name: Name,
    pub arguments: Vec<Argument>,
    pub directives: Vec<Directive>,
    pub selection_set: Option<SelectionSet>,
    pub span: Span,
}

impl Field {
    /// The response key: the alias when present, else the field name.
    pub open spec fn spec_response_key(self) -> Seq<char> {
        match self.alias {
            Some(a) => a.value@,
            None => self.name.value@,
        }
    }

    pub fn response_key(&self) -> (r: &String)
        ensures
            r@ == self.spec_response_key(),
    {
        match &self.alias {
            Some(a) => &a.value,
            None => &self.name.value,
        }
    }
}

pub struct FragmentSpread {
    pub name: Name,
    pub directives: Vec<Directive>,
    pub span: Span,
}

pub struct InlineFragment {
    pub type_condition: Option<Name>,
    pub directives: Vec<Directive>,
    pub selection_set: SelectionSet,
    pub span: Span,
}

impl InlineFragment {
    pub fn type_condition(&self) -> (r: Option<&Name>)
        ensures
            match r {
                Some(n) => self.type_condition == Some(*n),
                None => self.type_condition is None,
            },
    {
        self.type_condition.as_ref()
    }

    pub fn selection_set(&self) -> (r: &SelectionSet)
        ensures
            r == &self.selection_set,
    {
        &self.selection_set
    }

    pub fn span(&self) -> (r: Span)
        ensures
            r == self.span,
    {
        self.span
    }
}

pub enum Selection {
    Field(Field),
    FragmentSpread(FragmentSpread),
    InlineFragment(InlineFragment),
}

impl Selection {
    pub open spec fn spec_span(self) -> Span {
        match self {
            Selection::Field(f) => f.span,
            Selection::FragmentSpread(s) => s.span,
            Selection::InlineFragment(i) => i.span,
        }
    }
}

pub struct SelectionSet {
    pub selections: Vec<Selection>,
    pub span: Span,
}

pub struct VariableDefinition {
    pub variable: Name,
    pub variable_type: InputTypeReference,
    pub default_value: Option<Value>,
    pub directives: Vec<Directive>,
    pub span: Span,
}

pub struct ExplicitOperationDefinition {
    pub operation_type: OperationType,
    pub name: Option<Name>,
    pub variable_definitions: Vec<VariableDefinition>,
    pub directives: Vec<Directive>,
    pub selection_set: SelectionSet,
    pub span: Span,
}

impl ExplicitOperationDefinition {
    pub fn name(&self) -> (r: Option<&Name>)
        ensures
            match r {
                Some(n) => self.name == Some(*n),
                None => self.name is None,
            },
    {
        self.name.as_ref()
    }

    pub fn operation_type(&self) -> (r: OperationType)
        ensures
            r == self.operation_type,
    {
        self.operation_type
    }
}

/// The shorthand form: a bare selection set standing for a query.
pub struct ImplicitOperationDefinition {
    pub selection_set: SelectionSet,
}

pub enum OperationDefinition {
    Explicit(ExplicitOperationDefinition),
    Implicit(ImplicitOperationDefinition),
}

impl OperationDefinition {
    pub open spec fn spec_operation_type(self) -> OperationType {
        match self {
            OperationDefinition::Explicit(e) => e.operation_type,
            OperationDefinition::Implicit(_) => OperationType::Query,
        }
    }

    pub fn operation_type(&self) -> (r: OperationType)
        ensures
            r == self.spec_operation_type(),
    {
        match self {
            OperationDefinition::Explicit(e) => e.operation_type,
            OperationDefinition::Implicit(_) => OperationType::Query,
        }
    }

    /// The operation name: implicit operations are anonymous.
    pub open spec fn spec_name(self) -> Option<Name> {
        match self {
            OperationDefinition::Explicit(e) => e.name,
            OperationDefinition::Implicit(_) => None,
        }
    }

    pub fn name(&self) -> (r: Option<&Name>)
        ensures
            match r {
                Some(n) => self.spec_name() == Some(*n),
                None => self.spec_name() is None,
            },
    {
        match self {
            OperationDefinition::Explicit(e) => e.name.as_ref(),
            OperationDefinition::Implicit(_) => None,
        }
    }

    pub open spec fn spec_selection_set(self) -> SelectionSet {
        match self {
            OperationDefinition::Explicit(e) => e.selection_set,
            OperationDefinition::Implicit(i) => i.selection_set,
        }
    }

    pub fn selection_set(&self) -> (r: &SelectionSet)
        ensures
            *r == self.spec_selection_set(),
    {
        match self {
            OperationDefinition::Explicit(e) => &e.selection_set,
            OperationDefinition::Implicit(i) => &i.selection_set,
        }
    }

    pub open spec fn spec_variable_definitions(self) -> Seq<VariableDefinition> {
        match self {
            OperationDefinition::Explicit(e) => e.variable_definitions@,
            OperationDefinition::Implicit(_) => Seq::empty(),
        }
    }

    pub open spec fn spec_span(self) -> Span {
        match self {
            OperationDefinition::Explicit(e) => e.span,
            OperationDefinition::Implicit(i) => i.selection_set.span,
        }
    }

    pub fn span(&self) -> (r: Span)
        ensures
            r == self.spec_span(),
    {
        match self {
            OperationDefinition::Explicit(e) => e.span,
            OperationDefinition::Implicit(i) => i.selection_set.span,
        }
    }
}

pub struct FragmentDefinition {
    pub name: Name,
    pub type_condition: Name,
    pub directives: Vec<Directive>,
    pub selection_set: SelectionSet,
    pub span: Span,
}

/// A parsed executable document: its operation definitions and fragment
/// definitions, each in declaration order.
pub struct ExecutableDocument {
    pub operation_definitions: Vec<OperationDefinition>,
    pub fragment_definitions: Vec<FragmentDefinition>,
}

impl ExecutableDocument {
    pub fn operation_definitions(&self) -> (r: &Vec<OperationDefinition>)
        ensures
            r == &self.operation_definitions,
    {
        &self.operation_definitions
    }

    pub fn fragment_definitions(&self) -> (r: &Vec<FragmentDefinition>)
        ensures
            r == &self.fragment_definitions,
    {
        &self.fragment_definitions
    }
}

impl Argument {
    /// All spans of the argument lie within the first `bound` bytes.
    pub open spec fn spans_within(self, bound: nat) -> bool {
        self.span.within(bound) && self.name.span.within(bound) && self.value.spans_within(bound)
    }
}

pub open spec fn spec_arguments_spans_within(args: Seq<Argument>, i: int, bound: nat) -> bool
    decreases args.len() - i,
{
    if i < 0 || i >= args.len() {
        true
    } else {
        args[i].spans_within(bound) && spec_arguments_spans_within(args, i + 1, bound)
    }
}

impl Directive {
    pub open spec fn spans_within(self, bound: nat) -> bool {
        self.span.within(bound) && self.name.span.within(bound)
            && spec_arguments_spans_within(self.arguments@, 0, bound)
    }
}

pub open spec fn spec_directives_spans_within(dirs: Seq<Directive>, i: int, bound: nat) -> bool
    decreases dirs.len() - i,
{
    if i < 0 || i >= dirs.len() {
        true
    } else {
        dirs[i].spans_within(bound) && spec_directives_spans_within(dirs, i + 1, bound)
    }
}

/// All spans of a selection set lie within the first `bound` bytes.
pub open spec fn spec_selection_set_spans_within(ss: SelectionSet, bound: nat) -> bool
    decreases ss, 2int, 0int,
{
    ss.span.within(bound) && spec_selections_spans_within(ss.selections@, 0, bound)
}

pub open spec fn spec_selections_spans_within(sels: Seq<Selection>, i: int, bound: nat) -> bool
    decreases sels, 1int, sels.len() - i,
{
    if i < 0 || i >= sels.len() {
        true
    } else {
        sels[i].spans_within(bound) && spec_selections_spans_within(sels, i + 1, bound)
    }
}

impl Selection {
    /// All spans of the selection and its children lie within the first
    /// `bound` bytes of the source.
    pub open spec fn spans_within(self, bound: nat) -> bool
        decreases self, 0int, 0int,
    {
        match self {
            Selection::Field(f) => {
                &&& f.span.within(bound)
                &&& f.name.span.within(bound)
                &&& match f.alias {
                    Some(a) => a.span.within(bound),
                    None => true,
                }
                &&& spec_arguments_spans_within(f.arguments@, 0, bound)
                &&& spec_directives_spans_within(f.directives@, 0, bound)
                &&& match f.selection_set {
                    Some(ss) => spec_selection_set_spans_within(ss, bound),
                    None => true,
                }
            },
            Selection::FragmentSpread(s) => {
                &&& s.span.within(bound)
                &&& s.name.span.within(bound)
                &&& spec_directives_spans_within(s.directives@, 0, bound)
            },
            Selection::InlineFragment(inf) => {
                &&& inf.span.within(bound)
                &&& match inf.type_condition {
                    Some(c) => c.span.within(bound),
                    None => true,
                }
                &&& spec_directives_spans_within(inf.directives@, 0, bound)
                &&& spec_selection_set_spans_within(inf.selection_set, bound)
            },
        }
    }
}

impl VariableDefinition {
    pub open spec fn spans_within(self, bound: nat) -> bool {
        &&& self.span.within(bound)
        &&& self.variable.span.within(bound)
        &&& self.variable_type.spans_within(bound)
        &&& match self.default_value {
            Some(v) => v.spans_within(bound),
            None => true,
        }
        &&& spec_directives_spans_within(self.directives@, 0, bound)
    }
}

pub open spec fn spec_variable_definitions_spans_within(
    vars: Seq<VariableDefinition>,
    i: int,
    bound: nat,
) -> bool
    decreases vars.len() - i,
{
    if i < 0 || i >= vars.len() {
        true
    } else {
        vars[i].spans_within(bound) && spec_variable_definitions_spans_within(vars, i + 1, bound)
    }
}

impl OperationDefinition {
    pub open spec fn spans_within(self, bound: nat) -> bool {
        &&& self.spec_span().within(bound)
        &&& match self.spec_name() {
            Some(n) => n.span.within(bound),
            None => true,
        }
        &&& spec_variable_definitions_spans_within(self.spec_variable_definitions(), 0, bound)
        &&& match self {
            OperationDefinition::Explicit(e) => spec_directives_spans_within(
                e.directives@,
                0,
                bound,
            ),
            OperationDefinition::Implicit(_) => true,
        }
        &&& spec_selection_set_spans_within(self.spec_selection_set(), bound)
    }
}

pub open spec fn spec_operations_spans_within(
    ops: Seq<OperationDefinition>,
    i: int,
    bound: nat,
) -> bool
    decreases ops.len() - i,
{
    if i < 0 || i >= ops.len() {
        true
    } else {
        ops[i].spans_within(bound) && spec_operations_spans_within(ops, i + 1, bound)
    }
}

impl FragmentDefinition {
    pub open spec fn spans_within(self, bound: nat) -> bool {
        &&& self.span.within(bound)
        &&& self.name.span.within(bound)
        &&& self.type_condition.span.within(bound)
        &&& spec_directives_spans_within(self.directives@, 0, bound)
        &&& spec_selection_set_spans_within(self.selection_set, bound)
    }
}

pub open spec fn spec_fragment_definitions_spans_within(
    frags: Seq<FragmentDefinition>,
    i: int,
    bound: nat,
) -> bool
    decreases frags.len() - i,
{
    if i < 0 || i >= frags.len() {
        true
    } else {
        frags[i].spans_within(bound) && spec_fragment_definitions_spans_within(
            frags,
            i + 1,
            bound,
        )
    }
}

impl ExecutableDocument {
    /// Every span anywhere in the document lies within the first `bound`
    /// bytes of the source text.
    pub open spec fn spans_within(self, bound: nat) -> bool {
        spec_operations_spans_within(self.operation_definitions@, 0, bound)
            && spec_fragment_definitions_spans_within(self.fragment_definitions@, 0, bound)
    }
}

/// The first fragment definition carrying the given name. Duplicate names
/// are not deduplicated here; a dedicated rule reports them.
pub open spec fn spec_find_fragment(
    defs: Seq<FragmentDefinition>,
    name: Seq<char>,
    i: int,
) -> Option<FragmentDefinition>
    decreases defs.len() - i,
{
    if i < 0 || i >= defs.len() {
        None
    } else if defs[i].name.value@ == name {
        Some(defs[i])
    } else {
        spec_find_fragment(defs, name, i + 1)
    }
}

pub fn find_fragment<'a>(defs: &'a Vec<FragmentDefinition>, name: &String) -> (r: Option<
    &'a FragmentDefinition,
>)
    ensures
        match r {
            Some(fd) => spec_find_fragment(defs@, name@, 0) == Some(*fd),
            None => spec_find_fragment(defs@, name@, 0) is None,
        },
{
    find_fragment_from(defs, name, 0)
}

fn find_fragment_from<'a>(defs: &'a Vec<FragmentDefinition>, name: &String, i: usize) -> (r:
    Option<&'a FragmentDefinition>)
    requires
        i <= defs@.len(),
    ensures
        match r {
            Some(fd) => spec_find_fragment(defs@, name@, i as int) == Some(*fd),
            None => spec_find_fragment(defs@, name@, i as int) is None,
        },
    decreases defs@.len() - i,
{
    if i >= defs.len() {
        None
    } else if defs[i].name.value == *name {
        Some(&defs[i])
    } else {
        find_fragment_from(defs, name, i + 1)
    }
}

} // verus!
