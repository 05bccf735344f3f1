use vstd::prelude::*;

use crate::executable::{Argument, Directive};
use crate::input_coercion::{
    CoercionError, PathMember, SpecCoercionError, coerce_value_for_input_type_reference,
    spec_coerce_value,
};
use crate::schema::{
    DirectiveLocation, InputValueDefinition, SchemaDefinition, spec_find_input_value,
};
use crate::seqs::{
    lemma_views_of_add, lemma_views_of_drop_first, lemma_views_of_index, lemma_views_of_len,
    single, views_of,
};
use crate::span::Span;
use crate::validation_error::{
    SpecValidationError, ValidationError, from_coercion_error, spec_from_coercion,
};

verus! {

pub open spec fn spec_location_list_contains(
    locations: Seq<DirectiveLocation>,
    location: DirectiveLocation,
    i: int,
) -> bool
    decreases locations.len() - i,
{
    if i < 0 || i >= locations.len() {
        false
    } else {
        locations[i] == location || spec_location_list_contains(locations, location, i + 1)
    }
}

pub fn location_list_contains(
    locations: &Vec<DirectiveLocation>,
    location: DirectiveLocation,
    i: usize,
) -> (r: bool)
    requires
        i <= locations@.len(),
    ensures
        r == spec_location_list_contains(locations@, location, i as int),
    decreases locations@.len() - i,
{
    if i >= locations.len() {
        false
    } else if locations[i] == location {
        true
    } else {
        location_list_contains(locations, location, i + 1)
    }
}

/// Coercion errors surface through the `ValuesOfCorrectType` rule under
/// their own kinds, unchanged.
pub open spec fn spec_map_coercion(s: Seq<SpecCoercionError>) -> Seq<SpecValidationError>
    decreases s.len(),
{
    if s.len() == 0 {
        Seq::empty()
    } else {
        seq![spec_from_coercion(s[0])] + spec_map_coercion(s.drop_first())
    }
}

pub fn map_coercion_errors(es: Vec<CoercionError>) -> (r: Vec<ValidationError>)
    ensures
        views_of(r@) == spec_map_coercion(views_of(es@)),
    decreases es@.len(),
{
    proof {
        lemma_views_of_len(es@);
    }
    if es.len() == 0 {
        proof {
            assert(views_of(Seq::<ValidationError>::empty()) =~= Seq::<
                SpecValidationError,
            >::empty());
        }
        Vec::new()
    } else {
        let mut es2 = es;
        let ghost old_seq = es2@;
        let e0 = es2.remove(0);
        proof {
            assert(es2@ =~= old_seq.drop_first());
            lemma_views_of_drop_first(old_seq);
            lemma_views_of_index(old_seq, 0);
        }
        let head = from_coercion_error(e0);
        let mut rest = map_coercion_errors(es2);
        let mut out = single(head);
        proof {
            lemma_views_of_add(out@, rest@);
        }
        out.append(&mut rest);
        out
    }
}

pub open spec fn spec_argument_count(args: Seq<Argument>, name: Seq<char>, i: int) -> int
    decreases args.len() - i,
{
    if i < 0 || i >= args.len() {
        0
    } else {
        (if args[i].name.value@ == name {
            1int
        } else {
            0int
        }) + spec_argument_count(args, name, i + 1)
    }
}

pub open spec fn spec_first_argument_index(args: Seq<Argument>, name: Seq<char>, i: int) -> int
    decreases args.len() - i,
{
    if i < 0 || i >= args.len() {
        args.len() as int
    } else if args[i].name.value@ == name {
        i
    } else {
        spec_first_argument_index(args, name, i + 1)
    }
}

pub open spec fn spec_argument_spans(args: Seq<Argument>, name: Seq<char>, i: int) -> Seq<Span>
    decreases args.len() - i,
{
    if i < 0 || i >= args.len() {
        Seq::empty()
    } else if args[i].name.value@ == name {
        seq![args[i].span] + spec_argument_spans(args, name, i + 1)
    } else {
        spec_argument_spans(args, name, i + 1)
    }
}

fn argument_count(args: &Vec<Argument>, name: &String, i: usize) -> (r: usize)
    requires
        i <= args@.len(),
    ensures
        r as int == spec_argument_count(args@, name@, i as int),
        r <= args@.len() - i,
    decreases args@.len() - i,
{
    if i >= args.len() {
        0
    } else {
        let rest = argument_count(args, name, i + 1);
        if args[i].name.value == *name {
            rest + 1
        } else {
            rest
        }
    }
}

fn first_argument_index(args: &Vec<Argument>, name: &String, i: usize) -> (r: usize)
    requires
        i <= args@.len(),
    ensures
        r as int == spec_first_argument_index(args@, name@, i as int),
        r <= args@.len(),
    decreases args@.len() - i,
{
    if i >= args.len() {
        args.len()
    } else if args[i].name.value == *name {
        i
    } else {
        first_argument_index(args, name, i + 1)
    }
}

fn argument_spans(args: &Vec<Argument>, name: &String, i: usize) -> (r: Vec<Span>)
    requires
        i <= args@.len(),
    ensures
        r@ == spec_argument_spans(args@, name@, i as int),
    decreases args@.len() - i,
{
    if i >= args.len() {
        proof {
            assert(Seq::<Span>::empty() =~= spec_argument_spans(args@, name@, i as int));
        }
        Vec::new()
    } else {
        let mut rest = argument_spans(args, name, i + 1);
        if args[i].name.value == *name {
            let mut out: Vec<Span> = Vec::new();
            out.push(args[i].span);
            let ghost before = out@;
            out.append(&mut rest);
            proof {
                assert(out@ =~= spec_argument_spans(args@, name@, i as int));
            }
            out
        } else {
            rest
        }
    }
}

/// `ArgumentUniqueness`: one error for each argument name used more than
/// once in the same argument list, reported at its first occurrence. Purely
/// syntactic: the schema plays no part.
pub open spec fn spec_argument_uniqueness_errors(args: Seq<Argument>, i: int) -> Seq<
    SpecValidationError,
>
    decreases args.len() - i,
{
    if i < 0 || i >= args.len() {
        Seq::empty()
    } else {
        let name = args[i].name.value@;
        let rest = spec_argument_uniqueness_errors(args, i + 1);
        if spec_first_argument_index(args, name, 0) == i && spec_argument_count(args, name, 0)
            > 1 {
            seq![
                SpecValidationError::NonUniqueArgumentNames {
                    name,
                    span: args[i].span,
                    duplicate_spans: spec_argument_spans(args, name, 0),
                },
            ] + rest
        } else {
            rest
        }
    }
}

pub fn argument_uniqueness_errors(args: &Vec<Argument>, i: usize) -> (r: Vec<ValidationError>)
    requires
        i <= args@.len(),
    ensures
        views_of(r@) == spec_argument_uniqueness_errors(args@, i as int),
    decreases args@.len() - i,
{
    if i >= args.len() {
        proof {
            assert(views_of(Seq::<ValidationError>::empty()) =~= Seq::<
                SpecValidationError,
            >::empty());
        }
        Vec::new()
    } else {
        let mut rest = argument_uniqueness_errors(args, i + 1);
        let name = &args[i].name.value;
        let first = first_argument_index(args, name, 0);
        let count = argument_count(args, name, 0);
        if first == i && count > 1 {
            let e = ValidationError::NonUniqueArgumentNames {
                name: name.clone(),
                span: args[i].span,
                duplicate_spans: argument_spans(args, name, 0),
            };
            let mut out = single(e);
            proof {
                lemma_views_of_add(out@, rest@);
            }
            out.append(&mut rest);
            out
        } else {
            rest
        }
    }
}

/// `ArgumentNames`: every argument must be declared on its field or
/// directive.
pub open spec fn spec_unknown_argument_errors(
    args: Seq<Argument>,
    i: int,
    defs: Seq<InputValueDefinition>,
    owner_is_field: bool,
    owner_name: Seq<char>,
) -> Seq<SpecValidationError>
    decreases args.len() - i,
{
    if i < 0 || i >= args.len() {
        Seq::empty()
    } else {
        let rest = spec_unknown_argument_errors(args, i + 1, defs, owner_is_field, owner_name);
        if spec_find_input_value(defs, args[i].name.value@, 0) is None {
            let e = if owner_is_field {
                SpecValidationError::ArgumentDoesNotExistOnField {
                    argument_name: args[i].name.value@,
                    field_name: owner_name,
                    span: args[i].span,
                }
            } else {
                SpecValidationError::ArgumentDoesNotExistOnDirective {
                    argument_name: args[i].name.value@,
                    directive_name: owner_name,
                    span: args[i].span,
                }
            };
            seq![e] + rest
        } else {
            rest
        }
    }
}

fn unknown_argument_errors(
    args: &Vec<Argument>,
    i: usize,
    defs: &Vec<InputValueDefinition>,
    owner_is_field: bool,
    owner_name: &String,
) -> (r: Vec<ValidationError>)
    requires
        i <= args@.len(),
    ensures
        views_of(r@) == spec_unknown_argument_errors(
            args@,
            i as int,
            defs@,
            owner_is_field,
            owner_name@,
        ),
    decreases args@.len() - i,
{
    if i >= args.len() {
        proof {
            assert(views_of(Seq::<ValidationError>::empty()) =~= Seq::<
                SpecValidationError,
            >::empty());
        }
        Vec::new()
    } else {
        let mut rest = unknown_argument_errors(args, i + 1, defs, owner_is_field, owner_name);
        let known = crate::schema::find_input_value(defs, &args[i].name.value);
        if known.is_none() {
            let e = if owner_is_field {
                ValidationError::ArgumentDoesNotExistOnField {
                    argument_name: args[i].name.value.clone(),
                    field_name: owner_name.clone(),
                    span: args[i].span,
                }
            } else {
                ValidationError::ArgumentDoesNotExistOnDirective {
                    argument_name: args[i].name.value.clone(),
                    directive_name: owner_name.clone(),
                    span: args[i].span,
                }
            };
            let mut out = single(e);
            proof {
                lemma_views_of_add(out@, rest@);
            }
            out.append(&mut rest);
            out
        } else {
            rest
        }
    }
}

/// `ValuesOfCorrectType`: each declared argument's value coerces against
/// its declared input type (variables are left to the variable rules).
pub open spec fn spec_argument_value_errors(
    schema: SchemaDefinition,
    args: Seq<Argument>,
    i: int,
    defs: Seq<InputValueDefinition>,
) -> Seq<SpecValidationError>
    decreases args.len() - i,
{
    if i < 0 || i >= args.len() {
        Seq::empty()
    } else {
        let rest = spec_argument_value_errors(schema, args, i + 1, defs);
        match spec_find_input_value(defs, args[i].name.value@, 0) {
            Some(d) => spec_map_coercion(
                spec_coerce_value(schema, d.input_type@, args[i].value, Seq::empty(), true),
            ) + rest,
            None => rest,
        }
    }
}

fn argument_value_errors(
    schema: &SchemaDefinition,
    args: &Vec<Argument>,
    i: usize,
    defs: &Vec<InputValueDefinition>,
) -> (r: Vec<ValidationError>)
    requires
        i <= args@.len(),
    ensures
        views_of(r@) == spec_argument_value_errors(*schema, args@, i as int, defs@),
    decreases args@.len() - i,
{
    if i >= args.len() {
        proof {
            assert(views_of(Seq::<ValidationError>::empty()) =~= Seq::<
                SpecValidationError,
            >::empty());
        }
        Vec::new()
    } else {
        let mut rest = argument_value_errors(schema, args, i + 1, defs);
        let found = crate::schema::find_input_value(defs, &args[i].name.value);
        match found {
            Some(d) => {
                let empty_path: Vec<PathMember> = Vec::new();
                proof {
                    assert(views_of(empty_path@) =~= Seq::<
                        crate::input_coercion::SpecPathMember,
                    >::empty());
                }
                let mut head = match coerce_value_for_input_type_reference(
                    schema,
                    &d.input_type,
                    &args[i].value,
                    &empty_path,
                    true,
                ) {
                    Ok(_) => {
                        proof {
                            assert(views_of(Seq::<ValidationError>::empty()) =~= Seq::<
                                SpecValidationError,
                            >::empty());
                        }
                        Vec::new()
                    },
                    Err(es) => map_coercion_errors(es),
                };
                proof {
                    lemma_views_of_add(head@, rest@);
                }
                head.append(&mut rest);
                head
            },
            None => rest,
        }
    }
}

/// `RequiredArguments`: a required argument without a default must be
/// supplied.
pub open spec fn spec_missing_argument_errors(
    defs: Seq<InputValueDefinition>,
    k: int,
    args: Seq<Argument>,
    owner_name: Seq<char>,
    owner_span: Span,
) -> Seq<SpecValidationError>
    decreases defs.len() - k,
{
    if k < 0 || k >= defs.len() {
        Seq::empty()
    } else {
        let rest = spec_missing_argument_errors(defs, k + 1, args, owner_name, owner_span);
        if defs[k].input_type@.is_required() && defs[k].default_value is None
            && spec_first_argument_index(args, defs[k].name@, 0) == args.len() {
            seq![
                SpecValidationError::RequiredArgumentMissing {
                    name: defs[k].name@,
                    owner_name,
                    span: owner_span,
                },
            ] + rest
        } else {
            rest
        }
    }
}

fn missing_argument_errors(
    defs: &Vec<InputValueDefinition>,
    k: usize,
    args: &Vec<Argument>,
    owner_name: &String,
    owner_span: Span,
) -> (r: Vec<ValidationError>)
    requires
        k <= defs@.len(),
    ensures
        views_of(r@) == spec_missing_argument_errors(
            defs@,
            k as int,
            args@,
            owner_name@,
            owner_span,
        ),
    decreases defs@.len() - k,
{
    if k >= defs.len() {
        proof {
            assert(views_of(Seq::<ValidationError>::empty()) =~= Seq::<
                SpecValidationError,
            >::empty());
        }
        Vec::new()
    } else {
        let mut rest = missing_argument_errors(defs, k + 1, args, owner_name, owner_span);
        let absent = first_argument_index(args, &defs[k].name, 0) == args.len();
        if defs[k].input_type.is_required() && defs[k].default_value.is_none() && absent {
            let e = ValidationError::RequiredArgumentMissing {
                name: defs[k].name.clone(),
                owner_name: owner_name.clone(),
                span: owner_span,
            };
            let mut out = single(e);
            proof {
                lemma_views_of_add(out@, rest@);
            }
            out.append(&mut rest);
            out
        } else {
            rest
        }
    }
}

/// All argument checks for one field or directive whose declaration is
/// known: unknown names, uniqueness, missing required arguments, and value
/// coercion, in that order.
pub open spec fn spec_known_owner_argument_errors(
    schema: SchemaDefinition,
    args: Seq<Argument>,
    defs: Seq<InputValueDefinition>,
    owner_is_field: bool,
    owner_name: Seq<char>,
    owner_span: Span,
) -> Seq<SpecValidationError> {
    spec_unknown_argument_errors(args, 0, defs, owner_is_field, owner_name)
        + spec_argument_uniqueness_errors(args, 0) + spec_missing_argument_errors(
        defs,
        0,
        args,
        owner_name,
        owner_span,
    ) + spec_argument_value_errors(schema, args, 0, defs)
}

pub fn known_owner_argument_errors(
    schema: &SchemaDefinition,
    args: &Vec<Argument>,
    defs: &Vec<InputValueDefinition>,
    owner_is_field: bool,
    owner_name: &String,
    owner_span: Span,
) -> (r: Vec<ValidationError>)
    ensures
        views_of(r@) == spec_known_owner_argument_errors(
            *schema,
            args@,
            defs@,
            owner_is_field,
            owner_name@,
            owner_span,
        ),
{
    let mut out = unknown_argument_errors(args, 0, defs, owner_is_field, owner_name);
    let mut uniq = argument_uniqueness_errors(args, 0);
    proof {
        lemma_views_of_add(out@, uniq@);
    }
    out.append(&mut uniq);
    let mut missing = missing_argument_errors(defs, 0, args, owner_name, owner_span);
    proof {
        lemma_views_of_add(out@, missing@);
    }
    out.append(&mut missing);
    let mut values = argument_value_errors(schema, args, 0, defs);
    proof {
        lemma_views_of_add(out@, values@);
    }
    out.append(&mut values);
    out
}

pub open spec fn spec_directive_count(dirs: Seq<Directive>, name: Seq<char>, i: int) -> int
    decreases dirs.len() - i,
{
    if i < 0 || i >= dirs.len() {
        0
    } else {
        (if dirs[i].name.value@ == name {
            1int
        } else {
            0int
        }) + spec_directive_count(dirs, name, i + 1)
    }
}

pub open spec fn spec_first_directive_index(dirs: Seq<Directive>, name: Seq<char>, i: int) -> int
    decreases dirs.len() - i,
{
    if i < 0 || i >= dirs.len() {
        dirs.len() as int
    } else if dirs[i].name.value@ == name {
        i
    } else {
        spec_first_directive_index(dirs, name, i + 1)
    }
}

pub open spec fn spec_directive_spans(dirs: Seq<Directive>, name: Seq<char>, i: int) -> Seq<Span>
    decreases dirs.len() - i,
{
    if i < 0 || i >= dirs.len() {
        Seq::empty()
    } else if dirs[i].name.value@ == name {
        seq![dirs[i].span] + spec_directive_spans(dirs, name, i + 1)
    } else {
        spec_directive_spans(dirs, name, i + 1)
    }
}

fn directive_count(dirs: &Vec<Directive>, name: &String, i: usize) -> (r: usize)
    requires
        i <= dirs@.len(),
    ensures
        r as int == spec_directive_count(dirs@, name@, i as int),
        r <= dirs@.len() - i,
    decreases dirs@.len() - i,
{
    if i >= dirs.len() {
        0
    } else {
        let rest = directive_count(dirs, name, i + 1);
        if dirs[i].name.value == *name {
            rest + 1
        } else {
            rest
        }
    }
}

fn first_directive_index(dirs: &Vec<Directive>, name: &String, i: usize) -> (r: usize)
    requires
        i <= dirs@.len(),
    ensures
        r as int == spec_first_directive_index(dirs@, name@, i as int),
        r <= dirs@.len(),
    decreases dirs@.len() - i,
{
    if i >= dirs.len() {
        dirs.len()
    } else if dirs[i].name.value == *name {
        i
    } else {
        first_directive_index(dirs, name, i + 1)
    }
}

fn directive_spans(dirs: &Vec<Directive>, name: &String, i: usize) -> (r: Vec<Span>)
    requires
        i <= dirs@.len(),
    ensures
        r@ == spec_directive_spans(dirs@, name@, i as int),
    decreases dirs@.len() - i,
{
    if i >= dirs.len() {
        proof {
            assert(Seq::<Span>::empty() =~= spec_directive_spans(dirs@, name@, i as int));
        }
        Vec::new()
    } else {
        let mut rest = directive_spans(dirs, name, i + 1);
        if dirs[i].name.value == *name {
            let mut out: Vec<Span> = Vec::new();
            out.push(dirs[i].span);
            out.append(&mut rest);
            proof {
                assert(out@ =~= spec_directive_spans(dirs@, name@, i as int));
            }
            out
        } else {
            rest
        }
    }
}

/// `DirectivesAreUniquePerLocation`: one error for each directive name used
/// more than once at the same location, reported at the first use. Purely
/// syntactic.
pub open spec fn spec_directive_uniqueness_errors(dirs: Seq<Directive>, i: int) -> Seq<
    SpecValidationError,
>
    decreases dirs.len() - i,
{
    if i < 0 || i >= dirs.len() {
        Seq::empty()
    } else {
        let name = dirs[i].name.value@;
        let rest = spec_directive_uniqueness_errors(dirs, i + 1);
        if spec_first_directive_index(dirs, name, 0) == i && spec_directive_count(dirs, name, 0)
            > 1 {
            seq![
                SpecValidationError::NonUniqueDirectivesPerLocation {
                    directive_name: name,
                    span: dirs[i].span,
                    duplicate_spans: spec_directive_spans(dirs, name, 0),
                },
            ] + rest
        } else {
            rest
        }
    }
}

fn directive_uniqueness_errors(dirs: &Vec<Directive>, i: usize) -> (r: Vec<ValidationError>)
    requires
        i <= dirs@.len(),
    ensures
        views_of(r@) == spec_directive_uniqueness_errors(dirs@, i as int),
    decreases dirs@.len() - i,
{
    if i >= dirs.len() {
        proof {
            assert(views_of(Seq::<ValidationError>::empty()) =~= Seq::<
                SpecValidationError,
            >::empty());
        }
        Vec::new()
    } else {
        let mut rest = directive_uniqueness_errors(dirs, i + 1);
        let name = &dirs[i].name.value;
        let first = first_directive_index(dirs, name, 0);
        let count = directive_count(dirs, name, 0);
        if first == i && count > 1 {
            let e = ValidationError::NonUniqueDirectivesPerLocation {
                directive_name: name.clone(),
                span: dirs[i].span,
                duplicate_spans: directive_spans(dirs, name, 0),
            };
            let mut out = single(e);
            proof {
                lemma_views_of_add(out@, rest@);
            }
            out.append(&mut rest);
            out
        } else {
            rest
        }
    }
}

/// Checks for the directives of one location: `DirectivesAreDefined`,
/// `DirectivesAreInValidLocations`, and argument checks against each known
/// directive's declaration. The arguments of an unknown directive are only
/// checked for uniqueness.
pub open spec fn spec_directives_errors(
    schema: SchemaDefinition,
    dirs: Seq<Directive>,
    i: int,
    location: DirectiveLocation,
) -> Seq<SpecValidationError>
    decreases dirs.len() - i,
{
    if i < 0 || i >= dirs.len() {
        Seq::empty()
    } else {
        let d = dirs[i];
        let rest = spec_directives_errors(schema, dirs, i + 1, location);
        let head: Seq<SpecValidationError> = match schema.spec_get_directive(d.name.value@) {
            None => seq![
                SpecValidationError::DirectiveDoesNotExist {
                    directive_name: d.name.value@,
                    span: d.span,
                },
            ] + spec_argument_uniqueness_errors(d.arguments@, 0),
            Some(dd) => {
                let location_errors: Seq<SpecValidationError> = if !spec_location_list_contains(
                    dd.locations@,
                    location,
                    0,
                ) {
                    seq![
                        SpecValidationError::DirectiveInInvalidLocation {
                            directive_name: d.name.value@,
                            location,
                            span: d.span,
                        },
                    ]
                } else {
                    Seq::empty()
                };
                location_errors + spec_known_owner_argument_errors(
                    schema,
                    d.arguments@,
                    dd.arguments_definition@,
                    false,
                    d.name.value@,
                    d.span,
                )
            },
        };
        head + rest
    }
}

fn directives_errors(
    schema: &SchemaDefinition,
    dirs: &Vec<Directive>,
    i: usize,
    location: DirectiveLocation,
) -> (r: Vec<ValidationError>)
    requires
        i <= dirs@.len(),
    ensures
        views_of(r@) == spec_directives_errors(*schema, dirs@, i as int, location),
    decreases dirs@.len() - i,
{
    if i >= dirs.len() {
        proof {
            assert(views_of(Seq::<ValidationError>::empty()) =~= Seq::<
                SpecValidationError,
            >::empty());
        }
        Vec::new()
    } else {
        let mut rest = directives_errors(schema, dirs, i + 1, location);
        let found = schema.get_directive(&dirs[i].name.value);
        let mut head: Vec<ValidationError> = match found {
            None => {
                let e = ValidationError::DirectiveDoesNotExist {
                    directive_name: dirs[i].name.value.clone(),
                    span: dirs[i].span,
                };
                let mut out = single(e);
                let mut uniq = argument_uniqueness_errors(&dirs[i].arguments, 0);
                proof {
                    lemma_views_of_add(out@, uniq@);
                }
                out.append(&mut uniq);
                out
            },
            Some(dd) => {
                let mut out: Vec<ValidationError> = if !location_list_contains(
                    &dd.locations,
                    location,
                    0,
                ) {
                    single(
                        ValidationError::DirectiveInInvalidLocation {
                            directive_name: dirs[i].name.value.clone(),
                            location,
                            span: dirs[i].span,
                        },
                    )
                } else {
                    proof {
                        assert(views_of(Seq::<ValidationError>::empty()) =~= Seq::<
                            SpecValidationError,
                        >::empty());
                    }
                    Vec::new()
                };
                let mut rest_args = known_owner_argument_errors(
                    schema,
                    &dirs[i].arguments,
                    &dd.arguments_definition,
                    false,
                    &dirs[i].name.value,
                    dirs[i].span,
                );
                proof {
                    lemma_views_of_add(out@, rest_args@);
                }
                out.append(&mut rest_args);
                out
            },
        };
        proof {
            lemma_views_of_add(head@, rest@);
        }
        head.append(&mut rest);
        head
    }
}

/// Every check on the directives of one location, rule by rule.
pub open spec fn spec_directive_site_errors(
    schema: SchemaDefinition,
    dirs: Seq<Directive>,
    location: DirectiveLocation,
) -> Seq<SpecValidationError> {
    spec_directives_errors(schema, dirs, 0, location) + spec_directive_uniqueness_errors(dirs, 0)
}

pub fn directive_site_errors(
    schema: &SchemaDefinition,
    dirs: &Vec<Directive>,
    location: DirectiveLocation,
) -> (r: Vec<ValidationError>)
    ensures
        views_of(r@) == spec_directive_site_errors(*schema, dirs@, location),
{
    let mut out = directives_errors(schema, dirs, 0, location);
    let mut uniq = directive_uniqueness_errors(dirs, 0);
    proof {
        lemma_views_of_add(out@, uniq@);
    }
    out.append(&mut uniq);
    out
}

} // verus!
