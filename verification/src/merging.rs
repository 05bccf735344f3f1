use vstd::prelude::*;

use crate::executable::{
    Argument, ExecutableDocument, Field, OperationDefinition, Selection, find_fragment,
    spec_find_fragment,
};
use crate::schema::{SchemaDefinition, TypeDefinition};
use crate::seqs::{lemma_views_of_add, lemma_views_of_index, lemma_views_of_len, single, views_of};
use crate::traversal::{
    FieldResolution, SpecFieldResolution, resolve_field, spec_resolve_field, spec_scope,
    spec_scope_name, names_contain, spec_names_contain, operation_scope, spec_operation_scope,
    spec_fragment_scope,
};
use crate::types::{
    OutputType, OutputTypeShape, clone_output_type, lemma_output_type_size, strip_required_output,
};
use crate::validation_error::{SpecValidationError, ValidationError};
use crate::value::{spec_value_eq, value_eq};

verus! {

/// A generous bound on document sizes; counting saturates here so that the
/// merging recursion's budget is a plain machine integer on any target.
pub const SIZE_CAP: usize = 1000000000;

pub open spec fn spec_cap_add(a: int, b: int) -> int {
    if a + b > SIZE_CAP as int {
        SIZE_CAP as int
    } else {
        a + b
    }
}

fn cap_add(a: usize, b: usize) -> (r: usize)
    requires
        a <= SIZE_CAP,
        b <= SIZE_CAP,
    ensures
        r as int == spec_cap_add(a as int, b as int),
        r <= SIZE_CAP,
{
    if a >= SIZE_CAP {
        SIZE_CAP
    } else if b >= SIZE_CAP - a {
        SIZE_CAP
    } else {
        a + b
    }
}

/// The number of selections in a tree, saturating at the cap.
pub open spec fn spec_selection_size(sel: Selection) -> int
    decreases sel, 0int,
{
    match sel {
        Selection::Field(f) => match f.selection_set {
            Some(ss) => spec_cap_add(1, spec_selections_size(ss.selections@, 0)),
            None => 1,
        },
        Selection::FragmentSpread(_) => 1,
        Selection::InlineFragment(inf) => spec_cap_add(
            1,
            spec_selections_size(inf.selection_set.selections@, 0),
        ),
    }
}

pub open spec fn spec_selections_size(sels: Seq<Selection>, i: int) -> int
    decreases sels, sels.len() - i,
{
    if i < 0 || i >= sels.len() {
        0
    } else {
        spec_cap_add(spec_selection_size(sels[i]), spec_selections_size(sels, i + 1))
    }
}

fn selection_size(sel: &Selection) -> (r: usize)
    ensures
        r as int == spec_selection_size(*sel),
        r <= SIZE_CAP,
    decreases *sel, 0int,
{
    match sel {
        Selection::Field(f) => match &f.selection_set {
            Some(ss) => cap_add(1, selections_size(&ss.selections, 0)),
            None => 1,
        },
        Selection::FragmentSpread(_) => 1,
        Selection::InlineFragment(inf) => cap_add(1, selections_size(&inf.selection_set.selections, 0)),
    }
}

fn selections_size(sels: &Vec<Selection>, i: usize) -> (r: usize)
    requires
        i <= sels@.len(),
    ensures
        r as int == spec_selections_size(sels@, i as int),
        r <= SIZE_CAP,
    decreases sels@, sels@.len() - i,
{
    if i >= sels.len() {
        0
    } else {
        let head = selection_size(&sels[i]);
        let rest = selections_size(sels, i + 1);
        cap_add(head, rest)
    }
}

/// The recursion budget for field merging over one document: its total
/// selection count plus its fragment count, saturating at the cap. The
/// nesting depth that merging can descend is bounded by this number.
pub open spec fn spec_document_fuel(doc: ExecutableDocument) -> int {
    spec_cap_add(
        spec_operations_size(doc.operation_definitions@, 0),
        spec_cap_add(
            spec_fragments_size(doc.fragment_definitions@, 0),
            doc.fragment_definitions@.len() as int,
        ),
    )
}

pub open spec fn spec_operations_size(ops: Seq<OperationDefinition>, i: int) -> int
    decreases ops.len() - i,
{
    if i < 0 || i >= ops.len() {
        0
    } else {
        spec_cap_add(
            spec_selections_size(ops[i].spec_selection_set().selections@, 0),
            spec_operations_size(ops, i + 1),
        )
    }
}

pub open spec fn spec_fragments_size(
    frags: Seq<crate::executable::FragmentDefinition>,
    i: int,
) -> int
    decreases frags.len() - i,
{
    if i < 0 || i >= frags.len() {
        0
    } else {
        spec_cap_add(
            spec_selections_size(frags[i].selection_set.selections@, 0),
            spec_fragments_size(frags, i + 1),
        )
    }
}

pub fn document_fuel(doc: &ExecutableDocument) -> (r: usize)
    ensures
        r as int == spec_document_fuel(*doc),
{
    let ops_total = operations_size(doc, 0);
    let frags_total = fragments_size(doc, 0);
    let frag_count = if doc.fragment_definitions.len() > SIZE_CAP {
        SIZE_CAP
    } else {
        doc.fragment_definitions.len()
    };
    proof {
        if doc.fragment_definitions@.len() > SIZE_CAP as int {
            assert(spec_cap_add(
                spec_fragments_size(doc.fragment_definitions@, 0),
                doc.fragment_definitions@.len() as int,
            ) == SIZE_CAP as int);
        }
    }
    if doc.fragment_definitions.len() > SIZE_CAP {
        SIZE_CAP
    } else {
        cap_add(ops_total, cap_add(frags_total, frag_count))
    }
}

fn operations_size(doc: &ExecutableDocument, i: usize) -> (r: usize)
    requires
        i <= doc.operation_definitions@.len(),
    ensures
        r as int == spec_operations_size(doc.operation_definitions@, i as int),
        r <= SIZE_CAP,
    decreases doc.operation_definitions@.len() - i,
{
    if i >= doc.operation_definitions.len() {
        0
    } else {
        let head = selections_size(&doc.operation_definitions[i].selection_set().selections, 0);
        let rest = operations_size(doc, i + 1);
        cap_add(head, rest)
    }
}

fn fragments_size(doc: &ExecutableDocument, i: usize) -> (r: usize)
    requires
        i <= doc.fragment_definitions@.len(),
    ensures
        r as int == spec_fragments_size(doc.fragment_definitions@, i as int),
        r <= SIZE_CAP,
    decreases doc.fragment_definitions@.len() - i,
{
    if i >= doc.fragment_definitions.len() {
        0
    } else {
        let head = selections_size(&doc.fragment_definitions[i].selection_set.selections, 0);
        let rest = fragments_size(doc, i + 1);
        cap_add(head, rest)
    }
}

/// One field occurrence gathered for merging: the field itself, the type
/// it was selected on, its resolved output type, and the scope of its own
/// sub-selections.
pub struct FieldEntry<'a> {
    pub field: &'a Field,
    pub parent_known: bool,
    pub parent_name: String,
    pub parent_is_object: bool,
    pub output_type: Option<OutputType>,
    pub child_scope: Option<&'a TypeDefinition>,
}

pub struct SpecFieldEntry {
    pub field: Field,
    pub parent_known: bool,
    pub parent_name: Seq<char>,
    pub parent_is_object: bool,
    pub output_type: Option<OutputTypeShape>,
    pub child_scope: Option<TypeDefinition>,
}

impl<'a> View for FieldEntry<'a> {
    type V = SpecFieldEntry;

    open spec fn view(&self) -> SpecFieldEntry {
        SpecFieldEntry {
            field: *self.field,
            parent_known: self.parent_known,
            parent_name: self.parent_name@,
            parent_is_object: self.parent_is_object,
            output_type: match &self.output_type {
                Some(t) => Some(t@),
                None => None,
            },
            child_scope: spec_scope(self.child_scope),
        }
    }
}

/// The entry recorded for a field selected under `parent`.
pub open spec fn spec_make_entry(
    schema: SchemaDefinition,
    f: Field,
    parent: Option<TypeDefinition>,
) -> SpecFieldEntry {
    let res = spec_resolve_field(schema, parent, f.name.value@);
    SpecFieldEntry {
        field: f,
        parent_known: parent is Some,
        parent_name: spec_scope_name(parent),
        parent_is_object: match parent {
            Some(TypeDefinition::Object(_)) => true,
            _ => false,
        },
        output_type: match res {
            SpecFieldResolution::Found(fd) => Some(fd.output_type@),
            SpecFieldResolution::Meta => Some(OutputTypeShape::Base("String"@, true)),
            _ => None,
        },
        child_scope: crate::traversal::spec_field_child_scope(schema, res),
    }
}

fn make_entry<'a>(
    schema: &'a SchemaDefinition,
    f: &'a Field,
    parent: Option<&'a TypeDefinition>,
) -> (r: FieldEntry<'a>)
    ensures
        r@ == spec_make_entry(*schema, *f, spec_scope(parent)),
{
    let res = resolve_field(schema, parent, &f.name.value);
    let parent_name: String = match parent {
        Some(td) => td.name(),
        None => String::new(),
    };
    let parent_is_object = match parent {
        Some(TypeDefinition::Object(_)) => true,
        _ => false,
    };
    let output_type: Option<OutputType> = match &res {
        FieldResolution::Found(fd) => Some(clone_output_type(&fd.output_type)),
        FieldResolution::Meta => Some(OutputType::Base(String::from_str("String"), true)),
        _ => None,
    };
    let child_scope: Option<&TypeDefinition> = match &res {
        FieldResolution::Found(fd) => match schema.get_type(fd.output_type.base_name()) {
            Some(bt) => if bt.is_composite() {
                Some(bt)
            } else {
                None
            },
            None => None,
        },
        _ => None,
    };
    FieldEntry {
        field: f,
        parent_known: parent.is_some(),
        parent_name,
        parent_is_object,
        output_type,
        child_scope,
    }
}

/// Flattens a selection set into field entries, expanding inline fragments
/// under their condition's type and named spreads under their target's
/// type condition. A spread already on the expansion path is skipped, and
/// `fuel` bounds the expansion depth.
pub open spec fn spec_expand(
    doc: ExecutableDocument,
    schema: SchemaDefinition,
    sels: Seq<Selection>,
    i: int,
    parent: Option<TypeDefinition>,
    visited: Seq<Seq<char>>,
    fuel: nat,
) -> Seq<SpecFieldEntry>
    decreases fuel, sels, sels.len() - i,
{
    if i < 0 || i >= sels.len() {
        Seq::empty()
    } else {
        let head: Seq<SpecFieldEntry> = match sels[i] {
            Selection::Field(f) => seq![spec_make_entry(schema, f, parent)],
            Selection::InlineFragment(inf) => spec_expand(
                doc,
                schema,
                inf.selection_set.selections@,
                0,
                spec_inline_parent(schema, parent, inf.type_condition),
                visited,
                fuel,
            ),
            Selection::FragmentSpread(s) => {
                if spec_names_contain(visited, s.name.value@, 0) {
                    Seq::empty()
                } else {
                    match spec_find_fragment(doc.fragment_definitions@, s.name.value@, 0) {
                        Some(fd) => {
                            if fuel == 0 {
                                Seq::empty()
                            } else {
                                spec_expand(
                                    doc,
                                    schema,
                                    fd.selection_set.selections@,
                                    0,
                                    spec_fragment_scope(schema, fd),
                                    visited.push(s.name.value@),
                                    (fuel - 1) as nat,
                                )
                            }
                        },
                        None => Seq::empty(),
                    }
                }
            },
        };
        head + spec_expand(doc, schema, sels, i + 1, parent, visited, fuel)
    }
}

/// The parent type an inline fragment's fields are grouped under: the
/// condition when it resolves to a composite, else unknown when a
/// condition was written, else the inherited parent.
pub open spec fn spec_inline_parent(
    schema: SchemaDefinition,
    parent: Option<TypeDefinition>,
    condition: Option<crate::value::Name>,
) -> Option<TypeDefinition> {
    match condition {
        Some(c) => match schema.spec_get_type(c.value@) {
            Some(t) => if t.spec_is_composite() {
                Some(t)
            } else {
                None
            },
            None => None,
        },
        None => parent,
    }
}

pub fn expand<'a>(
    doc: &'a ExecutableDocument,
    schema: &'a SchemaDefinition,
    sels: &'a Vec<Selection>,
    i: usize,
    parent: Option<&'a TypeDefinition>,
    visited: &Vec<String>,
    fuel: usize,
) -> (r: Vec<FieldEntry<'a>>)
    requires
        i <= sels@.len(),
    ensures
        views_of(r@) == spec_expand(
            *doc,
            *schema,
            sels@,
            i as int,
            spec_scope(parent),
            views_of(visited@),
            fuel as nat,
        ),
    decreases fuel, sels@, sels@.len() - i,
{
    if i >= sels.len() {
        proof {
            assert(views_of(Seq::<FieldEntry<'a>>::empty()) =~= Seq::<SpecFieldEntry>::empty());
        }
        Vec::new()
    } else {
        let mut head: Vec<FieldEntry<'a>> = match &sels[i] {
            Selection::Field(f) => single(make_entry(schema, f, parent)),
            Selection::InlineFragment(inf) => {
                let inline_parent: Option<&TypeDefinition> = match &inf.type_condition {
                    Some(c) => match schema.get_type(&c.value) {
                        Some(t) => if t.is_composite() {
                            Some(t)
                        } else {
                            None
                        },
                        None => None,
                    },
                    None => parent,
                };
                expand(doc, schema, &inf.selection_set.selections, 0, inline_parent, visited, fuel)
            },
            Selection::FragmentSpread(s) => {
                if names_contain(visited, &s.name.value, 0) {
                    proof {
                        assert(views_of(Seq::<FieldEntry<'a>>::empty()) =~= Seq::<
                            SpecFieldEntry,
                        >::empty());
                    }
                    Vec::new()
                } else {
                    match find_fragment(&doc.fragment_definitions, &s.name.value) {
                        Some(fd) => {
                            if fuel == 0 {
                                proof {
                                    assert(views_of(Seq::<FieldEntry<'a>>::empty()) =~= Seq::<
                                        SpecFieldEntry,
                                    >::empty());
                                }
                                Vec::new()
                            } else {
                                let fragment_parent: Option<&TypeDefinition> = match schema
                                    .get_type(&fd.type_condition.value) {
                                    Some(t) => if t.is_composite() {
                                        Some(t)
                                    } else {
                                        None
                                    },
                                    None => None,
                                };
                                let ghost prev = visited@;
                                let mut visited2 = crate::seqs::clone_strings(visited);
                                let ghost cloned = visited2@;
                                let pushed = s.name.value.clone();
                                let ghost gpushed = pushed;
                                visited2.push(pushed);
                                proof {
                                    crate::seqs::lemma_views_of_push(cloned, gpushed);
                                }
                                expand(
                                    doc,
                                    schema,
                                    &fd.selection_set.selections,
                                    0,
                                    fragment_parent,
                                    &visited2,
                                    fuel - 1,
                                )
                            }
                        },
                        None => {
                            proof {
                                assert(views_of(Seq::<FieldEntry<'a>>::empty()) =~= Seq::<
                                    SpecFieldEntry,
                                >::empty());
                            }
                            Vec::new()
                        },
                    }
                }
            },
        };
        let mut rest = expand(doc, schema, sels, i + 1, parent, visited, fuel);
        proof {
            lemma_views_of_add(head@, rest@);
        }
        head.append(&mut rest);
        head
    }
}

/// Whether an argument with the same name and syntactically equal value
/// occurs in `args`.
pub open spec fn spec_argument_matched(args: Seq<Argument>, arg: Argument, j: int) -> bool
    decreases args.len() - j,
{
    if j < 0 || j >= args.len() {
        false
    } else {
        (args[j].name.value@ == arg.name.value@ && spec_value_eq(args[j].value, arg.value))
            || spec_argument_matched(args, arg, j + 1)
    }
}

pub open spec fn spec_arguments_subset(a: Seq<Argument>, b: Seq<Argument>, i: int) -> bool
    decreases a.len() - i,
{
    if i < 0 || i >= a.len() {
        true
    } else {
        spec_argument_matched(b, a[i], 0) && spec_arguments_subset(a, b, i + 1)
    }
}

/// Argument lists are equal as sets of (name, value) pairs with equal
/// sizes: the order of arguments does not matter for merging.
pub open spec fn spec_arguments_equal(a: Seq<Argument>, b: Seq<Argument>) -> bool {
    a.len() == b.len() && spec_arguments_subset(a, b, 0) && spec_arguments_subset(b, a, 0)
}

fn argument_matched(args: &Vec<Argument>, arg: &Argument, j: usize) -> (r: bool)
    requires
        j <= args@.len(),
    ensures
        r == spec_argument_matched(args@, *arg, j as int),
    decreases args@.len() - j,
{
    if j >= args.len() {
        false
    } else if args[j].name.value == arg.name.value && value_eq(&args[j].value, &arg.value) {
        true
    } else {
        argument_matched(args, arg, j + 1)
    }
}

fn arguments_subset(a: &Vec<Argument>, b: &Vec<Argument>, i: usize) -> (r: bool)
    requires
        i <= a@.len(),
    ensures
        r == spec_arguments_subset(a@, b@, i as int),
    decreases a@.len() - i,
{
    if i >= a.len() {
        true
    } else if argument_matched(b, &a[i], 0) {
        arguments_subset(a, b, i + 1)
    } else {
        false
    }
}

pub fn arguments_equal(a: &Vec<Argument>, b: &Vec<Argument>) -> (r: bool)
    ensures
        r == spec_arguments_equal(a@, b@),
{
    a.len() == b.len() && arguments_subset(a, b, 0) && arguments_subset(b, a, 0)
}

/// `SameResponseShape` on resolved output types: non-null and list
/// wrapping must agree, leaf bases must be the same named type, and two
/// composites are left to deeper merging.
pub open spec fn spec_same_response_shape(
    schema: SchemaDefinition,
    t1: OutputTypeShape,
    t2: OutputTypeShape,
) -> bool
    decreases t1.size() + t2.size(),
{
    if t1.is_required() || t2.is_required() {
        if t1.is_required() != t2.is_required() {
            false
        } else {
            spec_same_response_shape(schema, t1.nullable(), t2.nullable())
        }
    } else {
        match (t1, t2) {
            (OutputTypeShape::List(a, _), OutputTypeShape::List(b, _)) => {
                spec_same_response_shape(schema, *a, *b)
            },
            (OutputTypeShape::Base(n1, _), OutputTypeShape::Base(n2, _)) => {
                match (schema.spec_get_type(n1), schema.spec_get_type(n2)) {
                    (Some(d1), Some(d2)) => {
                        if d1.spec_is_leaf() || d2.spec_is_leaf() {
                            n1 == n2
                        } else {
                            d1.spec_is_composite() && d2.spec_is_composite()
                        }
                    },
                    _ => true,
                }
            },
            _ => false,
        }
    }
}

fn same_response_shape(schema: &SchemaDefinition, t1: &OutputType, t2: &OutputType) -> (r: bool)
    ensures
        r == spec_same_response_shape(*schema, t1@, t2@),
    decreases t1@.size() + t2@.size(),
{
    proof {
        lemma_output_type_size(*t1);
        lemma_output_type_size(*t2);
    }
    let r1 = t1.is_required();
    let r2 = t2.is_required();
    if r1 || r2 {
        if r1 != r2 {
            false
        } else {
            let s1 = strip_required_output(t1);
            let s2 = strip_required_output(t2);
            same_response_shape(schema, &s1, &s2)
        }
    } else {
        match (t1, t2) {
            (OutputType::List(a, _), OutputType::List(b, _)) => same_response_shape(schema, a, b),
            (OutputType::Base(n1, _), OutputType::Base(n2, _)) => {
                match (schema.get_type(n1), schema.get_type(n2)) {
                    (Some(d1), Some(d2)) => {
                        if d1.is_leaf() || d2.is_leaf() {
                            *n1 == *n2
                        } else {
                            d1.is_composite() && d2.is_composite()
                        }
                    },
                    _ => true,
                }
            },
            _ => false,
        }
    }
}

pub open spec fn spec_shapes_compatible(
    schema: SchemaDefinition,
    o1: Option<OutputTypeShape>,
    o2: Option<OutputTypeShape>,
) -> bool {
    match (o1, o2) {
        (Some(t1), Some(t2)) => spec_same_response_shape(schema, t1, t2),
        _ => true,
    }
}

/// Whether two entries of one response key merge: fields on distinct
/// object types can only conflict in response shape; otherwise the name,
/// the arguments and the shape must all agree.
pub open spec fn spec_entries_can_merge(
    schema: SchemaDefinition,
    a: SpecFieldEntry,
    b: SpecFieldEntry,
) -> bool {
    let exclusive = a.parent_known && b.parent_known && a.parent_is_object && b.parent_is_object
        && a.parent_name != b.parent_name;
    let shape_ok = spec_shapes_compatible(schema, a.output_type, b.output_type);
    if exclusive {
        shape_ok
    } else {
        a.field.name.value@ == b.field.name.value@ && spec_arguments_equal(
            a.field.arguments@,
            b.field.arguments@,
        ) && shape_ok
    }
}

fn entries_can_merge(schema: &SchemaDefinition, a: &FieldEntry, b: &FieldEntry) -> (r: bool)
    ensures
        r == spec_entries_can_merge(*schema, a@, b@),
{
    let exclusive = a.parent_known && b.parent_known && a.parent_is_object && b.parent_is_object
        && a.parent_name != b.parent_name;
    let shape_ok = match (&a.output_type, &b.output_type) {
        (Some(t1), Some(t2)) => same_response_shape(schema, t1, t2),
        _ => true,
    };
    if exclusive {
        shape_ok
    } else {
        a.field.name.value == b.field.name.value && arguments_equal(
            &a.field.arguments,
            &b.field.arguments,
        ) && shape_ok
    }
}

pub open spec fn spec_first_entry_index(
    entries: Seq<SpecFieldEntry>,
    key: Seq<char>,
    i: int,
) -> int
    decreases entries.len() - i,
{
    if i < 0 || i >= entries.len() {
        entries.len() as int
    } else if entries[i].field.spec_response_key() == key {
        i
    } else {
        spec_first_entry_index(entries, key, i + 1)
    }
}

pub fn first_entry_index(entries: &Vec<FieldEntry>, key: &String, i: usize) -> (r: usize)
    requires
        i <= entries@.len(),
    ensures
        r as int == spec_first_entry_index(views_of(entries@), key@, i as int),
        r <= entries@.len(),
    decreases entries@.len() - i,
{
    proof {
        lemma_views_of_len(entries@);
    }
    if i >= entries.len() {
        entries.len()
    } else {
        proof {
            lemma_views_of_index(entries@, i as int);
        }
        if *entries[i].field.response_key() == *key {
            i
        } else {
            first_entry_index(entries, key, i + 1)
        }
    }
}

/// The merge errors of one pair anchor `p`: every later entry of the same
/// response key is checked against entry `p`.
pub open spec fn spec_pair_row_errors(
    schema: SchemaDefinition,
    entries: Seq<SpecFieldEntry>,
    key: Seq<char>,
    p: int,
    q: int,
) -> Seq<SpecValidationError>
    decreases entries.len() - q,
{
    if q < 0 || q >= entries.len() || p < 0 || p >= entries.len() {
        Seq::empty()
    } else {
        let rest = spec_pair_row_errors(schema, entries, key, p, q + 1);
        if entries[q].field.spec_response_key() == key && !spec_entries_can_merge(
            schema,
            entries[p],
            entries[q],
        ) {
            seq![
                SpecValidationError::FieldSelectionsDoNotMerge {
                    response_key: key,
                    span: entries[p].field.span,
                    other_span: entries[q].field.span,
                },
            ] + rest
        } else {
            rest
        }
    }
}

fn pair_row_errors(
    schema: &SchemaDefinition,
    entries: &Vec<FieldEntry>,
    key: &String,
    p: usize,
    q: usize,
) -> (r: Vec<ValidationError>)
    requires
        p < entries@.len(),
        q <= entries@.len(),
    ensures
        views_of(r@) == spec_pair_row_errors(
            *schema,
            views_of(entries@),
            key@,
            p as int,
            q as int,
        ),
    decreases entries@.len() - q,
{
    proof {
        lemma_views_of_len(entries@);
    }
    if q >= entries.len() {
        proof {
            assert(views_of(Seq::<ValidationError>::empty()) =~= Seq::<
                SpecValidationError,
            >::empty());
        }
        Vec::new()
    } else {
        proof {
            lemma_views_of_index(entries@, p as int);
            lemma_views_of_index(entries@, q as int);
        }
        let mut rest = pair_row_errors(schema, entries, key, p, q + 1);
        if *entries[q].field.response_key() == *key && !entries_can_merge(
            schema,
            &entries[p],
            &entries[q],
        ) {
            let e = ValidationError::FieldSelectionsDoNotMerge {
                response_key: key.clone(),
                span: entries[p].field.span,
                other_span: entries[q].field.span,
            };
            let mut out = single(e);
            proof {
                lemma_views_of_add(out@, rest@);
            }
            out.append(&mut rest);
            out
        } else {
            rest
        }
    }
}

/// All pairwise merge errors within one response-key group, first
/// offending pair first.
pub open spec fn spec_group_pair_errors(
    schema: SchemaDefinition,
    entries: Seq<SpecFieldEntry>,
    key: Seq<char>,
    p: int,
) -> Seq<SpecValidationError>
    decreases entries.len() - p,
{
    if p < 0 || p >= entries.len() {
        Seq::empty()
    } else {
        let rest = spec_group_pair_errors(schema, entries, key, p + 1);
        if entries[p].field.spec_response_key() == key {
            spec_pair_row_errors(schema, entries, key, p, p + 1) + rest
        } else {
            rest
        }
    }
}

fn group_pair_errors(
    schema: &SchemaDefinition,
    entries: &Vec<FieldEntry>,
    key: &String,
    p: usize,
) -> (r: Vec<ValidationError>)
    requires
        p <= entries@.len(),
    ensures
        views_of(r@) == spec_group_pair_errors(*schema, views_of(entries@), key@, p as int),
    decreases entries@.len() - p,
{
    proof {
        lemma_views_of_len(entries@);
    }
    if p >= entries.len() {
        proof {
            assert(views_of(Seq::<ValidationError>::empty()) =~= Seq::<
                SpecValidationError,
            >::empty());
        }
        Vec::new()
    } else {
        proof {
            lemma_views_of_index(entries@, p as int);
        }
        let mut rest = group_pair_errors(schema, entries, key, p + 1);
        if *entries[p].field.response_key() == *key {
            let mut out = pair_row_errors(schema, entries, key, p, p + 1);
            proof {
                lemma_views_of_add(out@, rest@);
            }
            out.append(&mut rest);
            out
        } else {
            rest
        }
    }
}

/// The entries of the next level for one response-key group: each
/// member's sub-selections expanded under that member's own output type.
pub open spec fn spec_group_child_entries(
    doc: ExecutableDocument,
    schema: SchemaDefinition,
    entries: Seq<SpecFieldEntry>,
    key: Seq<char>,
    j: int,
    fuel: nat,
) -> Seq<SpecFieldEntry>
    decreases entries.len() - j,
{
    if j < 0 || j >= entries.len() {
        Seq::empty()
    } else {
        let rest = spec_group_child_entries(doc, schema, entries, key, j + 1, fuel);
        if entries[j].field.spec_response_key() == key {
            let subsels: Seq<Selection> = match entries[j].field.selection_set {
                Some(ss) => ss.selections@,
                None => Seq::empty(),
            };
            spec_expand(doc, schema, subsels, 0, entries[j].child_scope, Seq::empty(), fuel)
                + rest
        } else {
            rest
        }
    }
}

fn group_child_entries<'a>(
    doc: &'a ExecutableDocument,
    schema: &'a SchemaDefinition,
    entries: &Vec<FieldEntry<'a>>,
    key: &String,
    j: usize,
    fuel: usize,
) -> (r: Vec<FieldEntry<'a>>)
    requires
        j <= entries@.len(),
    ensures
        views_of(r@) == spec_group_child_entries(
            *doc,
            *schema,
            views_of(entries@),
            key@,
            j as int,
            fuel as nat,
        ),
    decreases entries@.len() - j,
{
    proof {
        lemma_views_of_len(entries@);
    }
    if j >= entries.len() {
        proof {
            assert(views_of(Seq::<FieldEntry<'a>>::empty()) =~= Seq::<SpecFieldEntry>::empty());
        }
        Vec::new()
    } else {
        proof {
            lemma_views_of_index(entries@, j as int);
        }
        let mut rest = group_child_entries(doc, schema, entries, key, j + 1, fuel);
        if *entries[j].field.response_key() == *key {
            let no_names: Vec<String> = Vec::new();
            proof {
                assert(views_of(Seq::<String>::empty()) =~= Seq::<Seq<char>>::empty());
            }
            let mut head: Vec<FieldEntry<'a>> = match &entries[j].field.selection_set {
                Some(ss) => expand(
                    doc,
                    schema,
                    &ss.selections,
                    0,
                    entries[j].child_scope,
                    &no_names,
                    fuel,
                ),
                None => {
                    proof {
                        assert(views_of(Seq::<FieldEntry<'a>>::empty()) =~= Seq::<
                            SpecFieldEntry,
                        >::empty());
                    }
                    Vec::new()
                },
            };
            proof {
                lemma_views_of_add(head@, rest@);
            }
            head.append(&mut rest);
            head
        } else {
            rest
        }
    }
}

/// One level of `FieldSelectionMerging`: group the entries by response
/// key, check every pair within a group, then descend into each group's
/// combined sub-selections. The descent consumes the fields of this level,
/// so its depth is bounded by the document's size; `fuel` carries that
/// bound.
pub open spec fn spec_merging_level(
    doc: ExecutableDocument,
    schema: SchemaDefinition,
    entries: Seq<SpecFieldEntry>,
    i: int,
    fuel: nat,
) -> Seq<SpecValidationError>
    decreases fuel, entries.len() - i,
{
    if i < 0 || i >= entries.len() {
        Seq::empty()
    } else {
        let key = entries[i].field.spec_response_key();
        let rest = spec_merging_level(doc, schema, entries, i + 1, fuel);
        if spec_first_entry_index(entries, key, 0) == i {
            let pair_errors = spec_group_pair_errors(schema, entries, key, 0);
            let deeper: Seq<SpecValidationError> = if fuel == 0 {
                Seq::empty()
            } else {
                spec_merging_level(
                    doc,
                    schema,
                    spec_group_child_entries(doc, schema, entries, key, 0, (fuel - 1) as nat),
                    0,
                    (fuel - 1) as nat,
                )
            };
            pair_errors + deeper + rest
        } else {
            rest
        }
    }
}

fn merging_level<'a>(
    doc: &'a ExecutableDocument,
    schema: &'a SchemaDefinition,
    entries: &Vec<FieldEntry<'a>>,
    i: usize,
    fuel: usize,
) -> (r: Vec<ValidationError>)
    requires
        i <= entries@.len(),
    ensures
        views_of(r@) == spec_merging_level(
            *doc,
            *schema,
            views_of(entries@),
            i as int,
            fuel as nat,
        ),
    decreases fuel, entries@.len() - i,
{
    proof {
        lemma_views_of_len(entries@);
    }
    if i >= entries.len() {
        proof {
            assert(views_of(Seq::<ValidationError>::empty()) =~= Seq::<
                SpecValidationError,
            >::empty());
        }
        Vec::new()
    } else {
        proof {
            lemma_views_of_index(entries@, i as int);
        }
        let key = entries[i].field.response_key().clone();
        let mut rest = merging_level(doc, schema, entries, i + 1, fuel);
        let first = first_entry_index(entries, &key, 0);
        if first == i {
            let mut out = group_pair_errors(schema, entries, &key, 0);
            if fuel > 0 {
                let children = group_child_entries(doc, schema, entries, &key, 0, fuel - 1);
                let mut deeper = merging_level(doc, schema, &children, 0, fuel - 1);
                proof {
                    lemma_views_of_add(out@, deeper@);
                }
                out.append(&mut deeper);
            } else {
                proof {
                    assert(views_of(out@) + Seq::<SpecValidationError>::empty() =~= views_of(
                        out@,
                    ));
                }
            }
            proof {
                lemma_views_of_add(out@, rest@);
            }
            out.append(&mut rest);
            out
        } else {
            rest
        }
    }
}

/// `FieldSelectionMerging` for one root selection set.
pub open spec fn spec_root_merging_errors(
    doc: ExecutableDocument,
    schema: SchemaDefinition,
    sels: Seq<Selection>,
    scope: Option<TypeDefinition>,
) -> Seq<SpecValidationError> {
    let fuel = spec_document_fuel(doc) as nat;
    spec_merging_level(doc, schema, spec_expand(doc, schema, sels, 0, scope, Seq::empty(), fuel), 0, fuel)
}

fn root_merging_errors<'a>(
    doc: &'a ExecutableDocument,
    schema: &'a SchemaDefinition,
    sels: &'a Vec<Selection>,
    scope: Option<&'a TypeDefinition>,
) -> (r: Vec<ValidationError>)
    ensures
        views_of(r@) == spec_root_merging_errors(*doc, *schema, sels@, spec_scope(scope)),
{
    let fuel = document_fuel(doc);
    let no_names: Vec<String> = Vec::new();
    proof {
        assert(views_of(Seq::<String>::empty()) =~= Seq::<Seq<char>>::empty());
    }
    let entries = expand(doc, schema, sels, 0, scope, &no_names, fuel);
    merging_level(doc, schema, &entries, 0, fuel)
}

/// `FieldSelectionMerging` over the whole document: every operation root
/// and every fragment definition root, in document order.
pub open spec fn spec_operation_merging_errors(
    doc: ExecutableDocument,
    schema: SchemaDefinition,
    i: int,
) -> Seq<SpecValidationError>
    decreases doc.operation_definitions@.len() - i,
{
    if i < 0 || i >= doc.operation_definitions@.len() {
        Seq::empty()
    } else {
        let op = doc.operation_definitions@[i];
        spec_root_merging_errors(
            doc,
            schema,
            op.spec_selection_set().selections@,
            spec_operation_scope(schema, op),
        ) + spec_operation_merging_errors(doc, schema, i + 1)
    }
}

pub open spec fn spec_fragment_merging_errors(
    doc: ExecutableDocument,
    schema: SchemaDefinition,
    i: int,
) -> Seq<SpecValidationError>
    decreases doc.fragment_definitions@.len() - i,
{
    if i < 0 || i >= doc.fragment_definitions@.len() {
        Seq::empty()
    } else {
        let fd = doc.fragment_definitions@[i];
        spec_root_merging_errors(
            doc,
            schema,
            fd.selection_set.selections@,
            spec_fragment_scope(schema, fd),
        ) + spec_fragment_merging_errors(doc, schema, i + 1)
    }
}

pub open spec fn spec_field_merging_errors(
    doc: ExecutableDocument,
    schema: SchemaDefinition,
) -> Seq<SpecValidationError> {
    spec_operation_merging_errors(doc, schema, 0) + spec_fragment_merging_errors(doc, schema, 0)
}

fn operation_merging_errors<'a>(
    doc: &'a ExecutableDocument,
    schema: &'a SchemaDefinition,
    i: usize,
) -> (r: Vec<ValidationError>)
    requires
        i <= doc.operation_definitions@.len(),
    ensures
        views_of(r@) == spec_operation_merging_errors(*doc, *schema, i as int),
    decreases doc.operation_definitions@.len() - i,
{
    if i >= doc.operation_definitions.len() {
        proof {
            assert(views_of(Seq::<ValidationError>::empty()) =~= Seq::<
                SpecValidationError,
            >::empty());
        }
        Vec::new()
    } else {
        let op = &doc.operation_definitions[i];
        let scope = operation_scope(schema, op);
        let mut out = root_merging_errors(doc, schema, &op.selection_set().selections, scope);
        let mut rest = operation_merging_errors(doc, schema, i + 1);
        proof {
            lemma_views_of_add(out@, rest@);
        }
        out.append(&mut rest);
        out
    }
}

fn fragment_merging_errors<'a>(
    doc: &'a ExecutableDocument,
    schema: &'a SchemaDefinition,
    i: usize,
) -> (r: Vec<ValidationError>)
    requires
        i <= doc.fragment_definitions@.len(),
    ensures
        views_of(r@) == spec_fragment_merging_errors(*doc, *schema, i as int),
    decreases doc.fragment_definitions@.len() - i,
{
    if i >= doc.fragment_definitions.len() {
        proof {
            assert(views_of(Seq::<ValidationError>::empty()) =~= Seq::<
                SpecValidationError,
            >::empty());
        }
        Vec::new()
    } else {
        let fd = &doc.fragment_definitions[i];
        let scope: Option<&TypeDefinition> = match schema.get_type(&fd.type_condition.value) {
            Some(td) => if td.is_composite() {
                Some(td)
            } else {
                None
            },
            None => None,
        };
        let mut out = root_merging_errors(doc, schema, &fd.selection_set.selections, scope);
        let mut rest = fragment_merging_errors(doc, schema, i + 1);
        proof {
            lemma_views_of_add(out@, rest@);
        }
        out.append(&mut rest);
        out
    }
}

pub fn field_merging_errors(doc: &ExecutableDocument, schema: &SchemaDefinition) -> (r: Vec<
    ValidationError,
>)
    ensures
        views_of(r@) == spec_field_merging_errors(*doc, *schema),
{
    let mut out = operation_merging_errors(doc, schema, 0);
    let mut fragment_part = fragment_merging_errors(doc, schema, 0);
    proof {
        lemma_views_of_add(out@, fragment_part@);
    }
    out.append(&mut fragment_part);
    out
}

} // verus!
