use vstd::prelude::*;

use crate::executable::{
    ExecutableDocument, FragmentDefinition, Selection, find_fragment, spec_find_fragment,
};
use crate::seqs::{clone_strings, lemma_views_of_add, lemma_views_of_push, single, views_of};
use crate::span::Span;
use crate::traversal::{names_contain, spec_names_contain};
use crate::validation_error::{SpecValidationError, ValidationError};

verus! {

/// One use of a fragment by name: a spread somewhere in a selection tree.
pub struct SpreadUse {
    pub fragment_name: String,
    pub span: Span,
}

pub struct SpecSpreadUse {
    pub fragment_name: Seq<char>,
    pub span: Span,
}

impl View for SpreadUse {
    type V = SpecSpreadUse;

    open spec fn view(&self) -> SpecSpreadUse {
        SpecSpreadUse { fragment_name: self.fragment_name@, span: self.span }
    }
}

/// Every fragment spread in a selection, at any depth, in source order.
pub open spec fn spec_selection_spread_uses(sel: Selection) -> Seq<SpecSpreadUse>
    decreases sel, 0int,
{
    match sel {
        Selection::Field(f) => match f.selection_set {
            Some(ss) => spec_selections_spread_uses(ss.selections@, 0),
            None => Seq::empty(),
        },
        Selection::FragmentSpread(s) => seq![
            SpecSpreadUse { fragment_name: s.name.value@, span: s.span },
        ],
        Selection::InlineFragment(inf) => spec_selections_spread_uses(
            inf.selection_set.selections@,
            0,
        ),
    }
}

pub open spec fn spec_selections_spread_uses(sels: Seq<Selection>, i: int) -> Seq<SpecSpreadUse>
    decreases sels, sels.len() - i,
{
    if i < 0 || i >= sels.len() {
        Seq::empty()
    } else {
        spec_selection_spread_uses(sels[i]) + spec_selections_spread_uses(sels, i + 1)
    }
}

pub fn selection_spread_uses(sel: &Selection) -> (r: Vec<SpreadUse>)
    ensures
        views_of(r@) == spec_selection_spread_uses(*sel),
    decreases *sel, 0int,
{
    proof {
        assert(views_of(Seq::<SpreadUse>::empty()) =~= Seq::<SpecSpreadUse>::empty());
    }
    match sel {
        Selection::Field(f) => match &f.selection_set {
            Some(ss) => selections_spread_uses(&ss.selections, 0),
            None => Vec::new(),
        },
        Selection::FragmentSpread(s) => single(
            SpreadUse { fragment_name: s.name.value.clone(), span: s.span },
        ),
        Selection::InlineFragment(inf) => selections_spread_uses(&inf.selection_set.selections, 0),
    }
}

pub fn selections_spread_uses(sels: &Vec<Selection>, i: usize) -> (r: Vec<SpreadUse>)
    requires
        i <= sels@.len(),
    ensures
        views_of(r@) == spec_selections_spread_uses(sels@, i as int),
    decreases sels@, sels@.len() - i,
{
    if i >= sels.len() {
        proof {
            assert(views_of(Seq::<SpreadUse>::empty()) =~= Seq::<SpecSpreadUse>::empty());
        }
        Vec::new()
    } else {
        let mut out = selection_spread_uses(&sels[i]);
        let mut rest = selections_spread_uses(sels, i + 1);
        proof {
            lemma_views_of_add(out@, rest@);
        }
        out.append(&mut rest);
        out
    }
}

pub open spec fn spec_fragment_count(
    frags: Seq<FragmentDefinition>,
    name: Seq<char>,
    i: int,
) -> int
    decreases frags.len() - i,
{
    if i < 0 || i >= frags.len() {
        0
    } else {
        (if frags[i].name.value@ == name {
            1int
        } else {
            0int
        }) + spec_fragment_count(frags, name, i + 1)
    }
}

pub open spec fn spec_first_fragment_index(
    frags: Seq<FragmentDefinition>,
    name: Seq<char>,
    i: int,
) -> int
    decreases frags.len() - i,
{
    if i < 0 || i >= frags.len() {
        frags.len() as int
    } else if frags[i].name.value@ == name {
        i
    } else {
        spec_first_fragment_index(frags, name, i + 1)
    }
}

pub open spec fn spec_fragment_name_spans(
    frags: Seq<FragmentDefinition>,
    name: Seq<char>,
    i: int,
) -> Seq<Span>
    decreases frags.len() - i,
{
    if i < 0 || i >= frags.len() {
        Seq::empty()
    } else if frags[i].name.value@ == name {
        seq![frags[i].name.span] + spec_fragment_name_spans(frags, name, i + 1)
    } else {
        spec_fragment_name_spans(frags, name, i + 1)
    }
}

fn fragment_count(frags: &Vec<FragmentDefinition>, name: &String, i: usize) -> (r: usize)
    requires
        i <= frags@.len(),
    ensures
        r as int == spec_fragment_count(frags@, name@, i as int),
        r <= frags@.len() - i,
    decreases frags@.len() - i,
{
    if i >= frags.len() {
        0
    } else {
        let rest = fragment_count(frags, name, i + 1);
        if frags[i].name.value == *name {
            rest + 1
        } else {
            rest
        }
    }
}

fn first_fragment_index(frags: &Vec<FragmentDefinition>, name: &String, i: usize) -> (r: usize)
    requires
        i <= frags@.len(),
    ensures
        r as int == spec_first_fragment_index(frags@, name@, i as int),
        r <= frags@.len(),
    decreases frags@.len() - i,
{
    if i >= frags.len() {
        frags.len()
    } else if frags[i].name.value == *name {
        i
    } else {
        first_fragment_index(frags, name, i + 1)
    }
}

fn fragment_name_spans(frags: &Vec<FragmentDefinition>, name: &String, i: usize) -> (r: Vec<Span>)
    requires
        i <= frags@.len(),
    ensures
        r@ == spec_fragment_name_spans(frags@, name@, i as int),
    decreases frags@.len() - i,
{
    if i >= frags.len() {
        proof {
            assert(Seq::<Span>::empty() =~= spec_fragment_name_spans(frags@, name@, i as int));
        }
        Vec::new()
    } else {
        let mut rest = fragment_name_spans(frags, name, i + 1);
        if frags[i].name.value == *name {
            let mut out: Vec<Span> = Vec::new();
            out.push(frags[i].name.span);
            out.append(&mut rest);
            proof {
                assert(out@ =~= spec_fragment_name_spans(frags@, name@, i as int));
            }
            out
        } else {
            rest
        }
    }
}

/// `FragmentNameUniqueness`: one error per fragment name defined more than
/// once, at its first definition. Purely syntactic.
pub open spec fn spec_fragment_name_uniqueness_errors(
    frags: Seq<FragmentDefinition>,
    i: int,
) -> Seq<SpecValidationError>
    decreases frags.len() - i,
{
    if i < 0 || i >= frags.len() {
        Seq::empty()
    } else {
        let name = frags[i].name.value@;
        let rest = spec_fragment_name_uniqueness_errors(frags, i + 1);
        if spec_first_fragment_index(frags, name, 0) == i && spec_fragment_count(frags, name, 0)
            > 1 {
            seq![
                SpecValidationError::NonUniqueFragmentNames {
                    name,
                    span: frags[i].name.span,
                    duplicate_spans: spec_fragment_name_spans(frags, name, 0),
                },
            ] + rest
        } else {
            rest
        }
    }
}

pub fn fragment_name_uniqueness_errors(frags: &Vec<FragmentDefinition>, i: usize) -> (r: Vec<
    ValidationError,
>)
    requires
        i <= frags@.len(),
    ensures
        views_of(r@) == spec_fragment_name_uniqueness_errors(frags@, i as int),
    decreases frags@.len() - i,
{
    if i >= frags.len() {
        proof {
            assert(views_of(Seq::<ValidationError>::empty()) =~= Seq::<
                SpecValidationError,
            >::empty());
        }
        Vec::new()
    } else {
        let mut rest = fragment_name_uniqueness_errors(frags, i + 1);
        let name = &frags[i].name.value;
        let first = first_fragment_index(frags, name, 0);
        let count = fragment_count(frags, name, 0);
        if first == i && count > 1 {
            let e = ValidationError::NonUniqueFragmentNames {
                name: name.clone(),
                span: frags[i].name.span,
                duplicate_spans: fragment_name_spans(frags, name, 0),
            };
            let mut out = single(e);
            proof {
                lemma_views_of_add(out@, rest@);
            }
            out.append(&mut rest);
            out
        } else {
            rest
        }
    }
}

/// Extends `visited` with every fragment reachable through the given
/// spread uses. Expansion recurses only into fragments not yet visited, so
/// its depth never exceeds the number of fragment definitions; `fuel`
/// carries that bound.
pub open spec fn spec_closure_step(
    doc: ExecutableDocument,
    uses: Seq<SpecSpreadUse>,
    k: int,
    visited: Seq<Seq<char>>,
    fuel: nat,
) -> Seq<Seq<char>>
    decreases fuel, uses.len() - k,
{
    if k < 0 || k >= uses.len() {
        visited
    } else {
        let n = uses[k].fragment_name;
        if spec_names_contain(visited, n, 0) {
            spec_closure_step(doc, uses, k + 1, visited, fuel)
        } else {
            match spec_find_fragment(doc.fragment_definitions@, n, 0) {
                None => spec_closure_step(doc, uses, k + 1, visited, fuel),
                Some(fd) => {
                    if fuel == 0 {
                        spec_closure_step(doc, uses, k + 1, visited, fuel)
                    } else {
                        let inner = spec_closure_step(
                            doc,
                            spec_selections_spread_uses(fd.selection_set.selections@, 0),
                            0,
                            visited.push(n),
                            (fuel - 1) as nat,
                        );
                        spec_closure_step(doc, uses, k + 1, inner, fuel)
                    }
                },
            }
        }
    }
}

pub fn closure_step(
    doc: &ExecutableDocument,
    uses: &Vec<SpreadUse>,
    k: usize,
    visited: Vec<String>,
    fuel: usize,
) -> (r: Vec<String>)
    requires
        k <= uses@.len(),
    ensures
        views_of(r@) == spec_closure_step(
            *doc,
            views_of(uses@),
            k as int,
            views_of(visited@),
            fuel as nat,
        ),
    decreases fuel, uses@.len() - k,
{
    proof {
        crate::seqs::lemma_views_of_len(uses@);
    }
    if k >= uses.len() {
        visited
    } else {
        proof {
            crate::seqs::lemma_views_of_index(uses@, k as int);
        }
        let n = &uses[k].fragment_name;
        if names_contain(&visited, n, 0) {
            closure_step(doc, uses, k + 1, visited, fuel)
        } else {
            match find_fragment(&doc.fragment_definitions, n) {
                None => closure_step(doc, uses, k + 1, visited, fuel),
                Some(fd) => {
                    if fuel == 0 {
                        closure_step(doc, uses, k + 1, visited, fuel)
                    } else {
                        let ghost prev = visited@;
                        let mut visited2 = visited;
                        let pushed = n.clone();
                        let ghost gpushed = pushed;
                        visited2.push(pushed);
                        proof {
                            lemma_views_of_push(prev, gpushed);
                        }
                        let body_uses = selections_spread_uses(&fd.selection_set.selections, 0);
                        let inner = closure_step(doc, &body_uses, 0, visited2, fuel - 1);
                        closure_step(doc, uses, k + 1, inner, fuel)
                    }
                },
            }
        }
    }
}

/// The names of every fragment reachable from any operation definition
/// through spreads: the document's used fragments.
pub open spec fn spec_used_fragments(
    doc: ExecutableDocument,
    i: int,
    visited: Seq<Seq<char>>,
) -> Seq<Seq<char>>
    decreases doc.operation_definitions@.len() - i,
{
    if i < 0 || i >= doc.operation_definitions@.len() {
        visited
    } else {
        let op = doc.operation_definitions@[i];
        let visited2 = spec_closure_step(
            doc,
            spec_selections_spread_uses(op.spec_selection_set().selections@, 0),
            0,
            visited,
            doc.fragment_definitions@.len() as nat,
        );
        spec_used_fragments(doc, i + 1, visited2)
    }
}

pub fn used_fragments(doc: &ExecutableDocument, i: usize, visited: Vec<String>) -> (r: Vec<String>)
    requires
        i <= doc.operation_definitions@.len(),
    ensures
        views_of(r@) == spec_used_fragments(*doc, i as int, views_of(visited@)),
    decreases doc.operation_definitions@.len() - i,
{
    if i >= doc.operation_definitions.len() {
        visited
    } else {
        let op = &doc.operation_definitions[i];
        let root_uses = selections_spread_uses(&op.selection_set().selections, 0);
        let visited2 = closure_step(doc, &root_uses, 0, visited, doc.fragment_definitions.len());
        used_fragments(doc, i + 1, visited2)
    }
}

/// `FragmentsMustBeUsed`: every fragment definition must be reachable from
/// some operation.
pub open spec fn spec_unused_fragment_errors(
    frags: Seq<FragmentDefinition>,
    i: int,
    used: Seq<Seq<char>>,
) -> Seq<SpecValidationError>
    decreases frags.len() - i,
{
    if i < 0 || i >= frags.len() {
        Seq::empty()
    } else {
        let rest = spec_unused_fragment_errors(frags, i + 1, used);
        if !spec_names_contain(used, frags[i].name.value@, 0) {
            seq![
                SpecValidationError::FragmentDefinitionUnused {
                    fragment_name: frags[i].name.value@,
                    span: frags[i].name.span,
                },
            ] + rest
        } else {
            rest
        }
    }
}

fn unused_fragment_errors(
    frags: &Vec<FragmentDefinition>,
    i: usize,
    used: &Vec<String>,
) -> (r: Vec<ValidationError>)
    requires
        i <= frags@.len(),
    ensures
        views_of(r@) == spec_unused_fragment_errors(frags@, i as int, views_of(used@)),
    decreases frags@.len() - i,
{
    if i >= frags.len() {
        proof {
            assert(views_of(Seq::<ValidationError>::empty()) =~= Seq::<
                SpecValidationError,
            >::empty());
        }
        Vec::new()
    } else {
        let mut rest = unused_fragment_errors(frags, i + 1, used);
        if !names_contain(used, &frags[i].name.value, 0) {
            let e = ValidationError::FragmentDefinitionUnused {
                fragment_name: frags[i].name.value.clone(),
                span: frags[i].name.span,
            };
            let mut out = single(e);
            proof {
                lemma_views_of_add(out@, rest@);
            }
            out.append(&mut rest);
            out
        } else {
            rest
        }
    }
}

/// The `FragmentsMustBeUsed` rule over the whole document.
pub open spec fn spec_fragments_must_be_used_errors(doc: ExecutableDocument) -> Seq<
    SpecValidationError,
> {
    spec_unused_fragment_errors(
        doc.fragment_definitions@,
        0,
        spec_used_fragments(doc, 0, Seq::empty()),
    )
}

pub fn fragments_must_be_used_errors(doc: &ExecutableDocument) -> (r: Vec<ValidationError>)
    ensures
        views_of(r@) == spec_fragments_must_be_used_errors(*doc),
{
    let no_names: Vec<String> = Vec::new();
    proof {
        assert(views_of(Seq::<String>::empty()) =~= Seq::<Seq<char>>::empty());
    }
    let used = used_fragments(doc, 0, no_names);
    unused_fragment_errors(&doc.fragment_definitions, 0, &used)
}

/// The accumulator threaded through the fragment-cycle search: fragments
/// already fully explored, and the cycle errors found so far.
pub struct DfsAcc {
    pub done: Vec<String>,
    pub errors: Vec<ValidationError>,
}

pub struct SpecDfsAcc {
    pub done: Seq<Seq<char>>,
    pub errors: Seq<SpecValidationError>,
}

impl View for DfsAcc {
    type V = SpecDfsAcc;

    open spec fn view(&self) -> SpecDfsAcc {
        SpecDfsAcc { done: views_of(self.done@), errors: views_of(self.errors@) }
    }
}

/// `NoFragmentCycles`, the depth-first search: fragments on the current
/// path are in `visiting`; a spread of one of them closes a cycle and is
/// reported. Path members are pairwise distinct, so the search never nests
/// deeper than the number of fragment definitions; `fuel` carries that
/// bound.
pub open spec fn spec_cycle_dfs(
    doc: ExecutableDocument,
    uses: Seq<SpecSpreadUse>,
    k: int,
    visiting: Seq<Seq<char>>,
    acc: SpecDfsAcc,
    fuel: nat,
) -> SpecDfsAcc
    decreases fuel, uses.len() - k,
{
    if k < 0 || k >= uses.len() {
        acc
    } else {
        let u = uses[k];
        if spec_names_contain(visiting, u.fragment_name, 0) {
            let acc2 = SpecDfsAcc {
                done: acc.done,
                errors: acc.errors.push(
                    SpecValidationError::FragmentCycle {
                        fragment_name: u.fragment_name,
                        span: u.span,
                    },
                ),
            };
            spec_cycle_dfs(doc, uses, k + 1, visiting, acc2, fuel)
        } else if spec_names_contain(acc.done, u.fragment_name, 0) {
            spec_cycle_dfs(doc, uses, k + 1, visiting, acc, fuel)
        } else {
            match spec_find_fragment(doc.fragment_definitions@, u.fragment_name, 0) {
                None => spec_cycle_dfs(doc, uses, k + 1, visiting, acc, fuel),
                Some(fd) => {
                    if fuel == 0 {
                        spec_cycle_dfs(doc, uses, k + 1, visiting, acc, fuel)
                    } else {
                        let acc2 = spec_cycle_dfs(
                            doc,
                            spec_selections_spread_uses(fd.selection_set.selections@, 0),
                            0,
                            visiting.push(u.fragment_name),
                            acc,
                            (fuel - 1) as nat,
                        );
                        let acc3 = SpecDfsAcc {
                            done: acc2.done.push(u.fragment_name),
                            errors: acc2.errors,
                        };
                        spec_cycle_dfs(doc, uses, k + 1, visiting, acc3, fuel)
                    }
                },
            }
        }
    }
}

fn cycle_dfs(
    doc: &ExecutableDocument,
    uses: &Vec<SpreadUse>,
    k: usize,
    visiting: &Vec<String>,
    acc: DfsAcc,
    fuel: usize,
) -> (r: DfsAcc)
    requires
        k <= uses@.len(),
    ensures
        r@ == spec_cycle_dfs(*doc, views_of(uses@), k as int, views_of(visiting@), acc@, fuel as nat),
    decreases fuel, uses@.len() - k,
{
    proof {
        crate::seqs::lemma_views_of_len(uses@);
    }
    if k >= uses.len() {
        acc
    } else {
        proof {
            crate::seqs::lemma_views_of_index(uses@, k as int);
        }
        let name = &uses[k].fragment_name;
        if names_contain(visiting, name, 0) {
            let ghost prev = acc.errors@;
            let mut acc2 = acc;
            let e = ValidationError::FragmentCycle {
                fragment_name: name.clone(),
                span: uses[k].span,
            };
            let ghost ge = e;
            acc2.errors.push(e);
            proof {
                lemma_views_of_push(prev, ge);
            }
            cycle_dfs(doc, uses, k + 1, visiting, acc2, fuel)
        } else if names_contain(&acc.done, name, 0) {
            cycle_dfs(doc, uses, k + 1, visiting, acc, fuel)
        } else {
            match find_fragment(&doc.fragment_definitions, name) {
                None => cycle_dfs(doc, uses, k + 1, visiting, acc, fuel),
                Some(fd) => {
                    if fuel == 0 {
                        cycle_dfs(doc, uses, k + 1, visiting, acc, fuel)
                    } else {
                        let ghost prev_visiting = visiting@;
                        let mut visiting2 = clone_strings(visiting);
                        let ghost cloned = visiting2@;
                        let pushed = name.clone();
                        let ghost gpushed = pushed;
                        visiting2.push(pushed);
                        proof {
                            lemma_views_of_push(cloned, gpushed);
                        }
                        let body_uses = selections_spread_uses(&fd.selection_set.selections, 0);
                        let acc2 = cycle_dfs(doc, &body_uses, 0, &visiting2, acc, fuel - 1);
                        let ghost prev_done = acc2.done@;
                        let mut acc3 = acc2;
                        let done_name = name.clone();
                        let ghost gdone = done_name;
                        acc3.done.push(done_name);
                        proof {
                            lemma_views_of_push(prev_done, gdone);
                        }
                        cycle_dfs(doc, uses, k + 1, visiting, acc3, fuel)
                    }
                },
            }
        }
    }
}

/// The cycle search started from each fragment definition in document
/// order, with the explored set carried across starts.
pub open spec fn spec_cycle_roots(
    doc: ExecutableDocument,
    i: int,
    acc: SpecDfsAcc,
) -> SpecDfsAcc
    decreases doc.fragment_definitions@.len() - i,
{
    if i < 0 || i >= doc.fragment_definitions@.len() {
        acc
    } else {
        let fd = doc.fragment_definitions@[i];
        if spec_names_contain(acc.done, fd.name.value@, 0) {
            spec_cycle_roots(doc, i + 1, acc)
        } else {
            let acc2 = spec_cycle_dfs(
                doc,
                spec_selections_spread_uses(fd.selection_set.selections@, 0),
                0,
                seq![fd.name.value@],
                acc,
                doc.fragment_definitions@.len() as nat,
            );
            let acc3 = SpecDfsAcc { done: acc2.done.push(fd.name.value@), errors: acc2.errors };
            spec_cycle_roots(doc, i + 1, acc3)
        }
    }
}

fn cycle_roots(doc: &ExecutableDocument, i: usize, acc: DfsAcc) -> (r: DfsAcc)
    requires
        i <= doc.fragment_definitions@.len(),
    ensures
        r@ == spec_cycle_roots(*doc, i as int, acc@),
    decreases doc.fragment_definitions@.len() - i,
{
    if i >= doc.fragment_definitions.len() {
        acc
    } else {
        let fd = &doc.fragment_definitions[i];
        if names_contain(&acc.done, &fd.name.value, 0) {
            cycle_roots(doc, i + 1, acc)
        } else {
            let root = single(fd.name.value.clone());
            proof {
                crate::seqs::lemma_views_of_singleton(fd.name.value);
            }
            let body_uses = selections_spread_uses(&fd.selection_set.selections, 0);
            let acc2 = cycle_dfs(
                doc,
                &body_uses,
                0,
                &root,
                acc,
                doc.fragment_definitions.len(),
            );
            let ghost prev_done = acc2.done@;
            let mut acc3 = acc2;
            let done_name = fd.name.value.clone();
            let ghost gdone = done_name;
            acc3.done.push(done_name);
            proof {
                lemma_views_of_push(prev_done, gdone);
            }
            cycle_roots(doc, i + 1, acc3)
        }
    }
}

/// `NoFragmentCycles` over the whole document: one error per spread edge
/// that closes a cycle during the depth-first search. Purely syntactic.
pub open spec fn spec_fragment_cycle_errors(doc: ExecutableDocument) -> Seq<SpecValidationError> {
    spec_cycle_roots(doc, 0, SpecDfsAcc { done: Seq::empty(), errors: Seq::empty() }).errors
}

pub fn fragment_cycle_errors(doc: &ExecutableDocument) -> (r: Vec<ValidationError>)
    ensures
        views_of(r@) == spec_fragment_cycle_errors(*doc),
{
    let acc = DfsAcc { done: Vec::new(), errors: Vec::new() };
    proof {
        assert(views_of(Seq::<String>::empty()) =~= Seq::<Seq<char>>::empty());
        assert(views_of(Seq::<ValidationError>::empty()) =~= Seq::<SpecValidationError>::empty());
    }
    let out = cycle_roots(doc, 0, acc);
    out.errors
}

} // verus!
