//! What it means to resolve a type, told over the mathematical view of a
//! registry.
//!
//! The telling follows the resolving step by step. A type is resolved by the
//! nearest registry that holds an object for it with the lifetime asked for.
//! The object hands out its kept value if it has one. Else the registered
//! types are validated where the object has dependencies; the dependencies
//! are resolved one after the other, each in the state that the one before it
//! left; and the constructor is called with what they gave.
//!
//! Constructors are arbitrary closures, so resolving is told as a relation:
//! it names every result and every state after that the constructors allow.
//! The relation counts the depth of the resolving with fuel: it holds for a
//! fuel if the resolves within resolves go at most that deep.

use crate::cycle_detection::{verdict_of, Visitor};
use crate::cycle_detection::adds;
use crate::dependency_builder::{lifetimes_of, lists, Declared};
use crate::dependencies::{Dependency, Lifetime};
use crate::error::ResolveError;
use crate::object_builder::{makes, Object};
use std::any::TypeId;
use std::rc::Rc;
use vstd::prelude::*;

verus! {

/// The view of a registry: its objects in the order in which they were
/// registered, for each object the visitor that tells its type and the types
/// it depends on, and the view of the parent registry.
#[verifier::reject_recursive_types(V)]
#[verifier::reject_recursive_types(E)]
#[verifier::reject_recursive_types(C)]
#[verifier::ext_equal]
pub ghost struct State<V, E, C: Fn(Vec<Dependency<V>>) -> Result<V, E>> {
    /// The registered objects.
    pub objects: Seq<Object<V, E, C>>,
    /// The visitors of the registered objects, at the same places.
    pub visitors: Seq<Visitor>,
    /// The parent, if there is one.
    pub parent: Option<Box<State<V, E, C>>>,
}

/// The object at `at` is registered for the type `key`, and has this
/// lifetime.
pub open spec fn holds_at<V, E, C: Fn(Vec<Dependency<V>>) -> Result<V, E>>(
    state: State<V, E, C>,
    key: TypeId,
    lifetime: Lifetime,
    at: int,
) -> bool {
    &&& 0 <= at < state.visitors.len()
    &&& at < state.objects.len()
    &&& state.visitors[at].ty.0 == key
    &&& state.objects[at].lifetime() == lifetime
}

/// The place of the object that the registry itself holds for the type `key`
/// with this lifetime, if it holds one.
pub open spec fn found<V, E, C: Fn(Vec<Dependency<V>>) -> Result<V, E>>(
    state: State<V, E, C>,
    key: TypeId,
    lifetime: Lifetime,
) -> Option<int> {
    if exists|at: int| holds_at(state, key, lifetime, at) {
        Some(choose|at: int| holds_at(state, key, lifetime, at))
    } else {
        None
    }
}

/// The registry and the registries above it hold an object for each visitor,
/// and at most one visitor for a type.
pub open spec fn well_formed<V, E, C: Fn(Vec<Dependency<V>>) -> Result<V, E>>(
    state: State<V, E, C>,
) -> bool
    decreases state,
{
    &&& state.objects.len() == state.visitors.len()
    &&& forall|p: int, q: int|
        0 <= p < q < state.visitors.len() ==> (#[trigger] state.visitors[p]).ty.0 != (
        #[trigger] state.visitors[q]).ty.0
    &&& match state.parent {
        Some(parent) => well_formed(*parent),
        None => true,
    }
}

/// The registry is a new one: it holds no object, and has no parent.
pub open spec fn is_new<V, E, C: Fn(Vec<Dependency<V>>) -> Result<V, E>>(
    state: State<V, E, C>,
) -> bool {
    &&& state.objects.len() == 0
    &&& state.visitors.len() == 0
    &&& state.parent is None
}

/// What a registration does to a registry: one more object, registered last
/// for the type with the id `key` and the display name `name`, with this
/// lifetime and constructor, an empty cell, and the dependencies `declared`.
/// All else stays as it was.
pub open spec fn registers<V, E, C: Fn(Vec<Dependency<V>>) -> Result<V, E>>(
    before: State<V, E, C>,
    after: State<V, E, C>,
    key: TypeId,
    name: Seq<char>,
    lifetime: Lifetime,
    ctor: C,
    declared: Seq<Declared>,
) -> bool {
    &&& after.parent == before.parent
    &&& after.objects.len() == before.objects.len() + 1
    &&& after.objects.drop_last() == before.objects
    &&& after.objects.last().lifetime() == lifetime
    &&& after.objects.last().ctor() == ctor
    &&& after.objects.last().cell() is None
    &&& after.objects.last().lifetimes() == lifetimes_of(declared)
    &&& lists(after.objects.last().deps(), declared)
    &&& adds(before.visitors, after.visitors, key, name, declared)
}

/// Always true. It names the registry and the result that a step of the
/// resolving goes by, so that a proof can point at them.
pub open spec fn step<A, B>(state: A, made: B) -> bool {
    true
}

/// The registry `after` is the registry `state` in which the object at `at`
/// keeps `kept`, if that is a value.
pub open spec fn stores<V, E, C: Fn(Vec<Dependency<V>>) -> Result<V, E>>(
    state: State<V, E, C>,
    at: int,
    kept: Option<Rc<V>>,
    after: State<V, E, C>,
) -> bool {
    match kept {
        None => after == state,
        Some(value) => {
            &&& after.parent == state.parent
            &&& after.visitors == state.visitors
            &&& after.objects.len() == state.objects.len()
            &&& forall|other: int|
                0 <= other < state.objects.len() && other != at ==> (
                #[trigger] after.objects[other]) == state.objects[other]
            &&& after.objects[at].same_recipe(state.objects[at])
            &&& after.objects[at].cell() == Some(value)
        },
    }
}

/// The last step for the object at `at`: where resolving the dependencies
/// failed, that error is the result. Else the cell of the object is still
/// empty, and the constructor is called with the resolved dependencies
/// `args`; its error is the result, or its value, which a singleton keeps.
pub open spec fn constructs<V, E, C: Fn(Vec<Dependency<V>>) -> Result<V, E>>(
    state: State<V, E, C>,
    at: int,
    args: Result<Vec<Dependency<V>>, ResolveError<E>>,
    out: Result<Dependency<V>, ResolveError<E>>,
    after: State<V, E, C>,
) -> bool {
    let object = state.objects[at];
    match args {
        Err(error) => out == Err::<Dependency<V>, ResolveError<E>>(error) && after == state,
        Ok(args) => object.cell() is None && match out {
            Ok(dep) => {
                &&& dep.lifetime() == object.lifetime()
                &&& makes(object.ctor(), args, Ok(dep.value()))
                &&& stores(state, at, dep.kept(), after)
            },
            Err(error) => makes(object.ctor(), args, Err(error)) && after == state,
        },
    }
}

/// What was resolved so far, as a sequence.
pub open spec fn lowered<V, E>(args: Result<Vec<Dependency<V>>, ResolveError<E>>) -> Result<
    Seq<Dependency<V>>,
    ResolveError<E>,
> {
    match args {
        Ok(args) => Ok(args@),
        Err(error) => Err(error),
    }
}

/// The result of resolving a transient, as the result of a resolved
/// dependency.
pub open spec fn as_transient<V, E>(out: Result<V, ResolveError<E>>) -> Result<
    Dependency<V>,
    ResolveError<E>,
> {
    match out {
        Ok(value) => Ok(Dependency::Transient(value)),
        Err(error) => Err(error),
    }
}

/// The result of resolving a singleton, as the result of a resolved
/// dependency.
pub open spec fn as_singleton<V, E>(out: Result<Rc<V>, ResolveError<E>>) -> Result<
    Dependency<V>,
    ResolveError<E>,
> {
    match out {
        Ok(value) => Ok(Dependency::Singleton(value)),
        Err(error) => Err(error),
    }
}

/// Resolving the type `key` with this lifetime can turn the registry
/// `before` into `after` and give `out`; `name` is the display name of the
/// type.
///
/// Where the registry itself holds an object for the type with this
/// lifetime, that object is invoked. Else the parent resolves the type, and
/// the registry itself stays as it was. Without a parent the type is
/// missing, and nothing changes.
pub open spec fn resolves<V, E, C: Fn(Vec<Dependency<V>>) -> Result<V, E>>(
    fuel: nat,
    before: State<V, E, C>,
    key: TypeId,
    name: Seq<char>,
    lifetime: Lifetime,
    out: Result<Dependency<V>, ResolveError<E>>,
    after: State<V, E, C>,
) -> bool
    decreases fuel, 2nat, 0nat, 0nat,
{
    match found(before, key, lifetime) {
        Some(at) => invokes(fuel, before, at, out, after),
        None => match before.parent {
            Some(parent) => {
                &&& fuel > 0
                &&& after.parent is Some
                &&& after.objects == before.objects
                &&& after.visitors == before.visitors
                &&& resolves(
                    (fuel - 1) as nat,
                    *parent,
                    key,
                    name,
                    lifetime,
                    out,
                    *after.parent->0,
                )
            },
            None => type_missing(out, name) && after == before,
        },
    }
}

/// `out` is the error that tells that the type with the display name `name`
/// is missing.
pub open spec fn type_missing<V, E>(
    out: Result<Dependency<V>, ResolveError<E>>,
    name: Seq<char>,
) -> bool {
    out matches Err(ResolveError::TypeMissing { typename }) && typename@ == name
}

/// Invoking the object at `at` can turn the registry `before` into `after`
/// and give `out`.
///
/// A singleton that is constructed already is handed out as it is, and
/// nothing changes. Else, where the object has dependencies and the
/// registered types do not pass validation, the failed validation is the
/// error, and nothing changes. Else the dependencies are gathered and the
/// constructor is called with them, by way of some registry and some
/// arguments.
pub open spec fn invokes<V, E, C: Fn(Vec<Dependency<V>>) -> Result<V, E>>(
    fuel: nat,
    before: State<V, E, C>,
    at: int,
    out: Result<Dependency<V>, ResolveError<E>>,
    after: State<V, E, C>,
) -> bool
    decreases fuel, 1nat, 0nat, 1nat,
{
    let object = before.objects[at];
    match object.cell() {
        Some(value) => out == Ok::<Dependency<V>, ResolveError<E>>(Dependency::Singleton(value))
            && after == before,
        None => match verdict_of(before.visitors) {
            Err(error) if object.deps().len() > 0 => out == Err::<
                Dependency<V>,
                ResolveError<E>,
            >(ResolveError::Validation(error)) && after == before,
            _ => exists|gathered: State<V, E, C>, args: Result<Vec<Dependency<V>>, ResolveError<E>>|
                #![trigger step(gathered, args)]
                step(gathered, args) && invokes_via(fuel, before, at, out, after, gathered, args),
        },
    }
}

/// The object at `at` is invoked by way of the registry `gathered` and the
/// arguments `args`: gathering all dependencies of the object turns `before`
/// into `gathered` and gives `args`, and the constructor, called with `args`,
/// turns `gathered` into `after` and gives `out`.
pub open spec fn invokes_via<V, E, C: Fn(Vec<Dependency<V>>) -> Result<V, E>>(
    fuel: nat,
    before: State<V, E, C>,
    at: int,
    out: Result<Dependency<V>, ResolveError<E>>,
    after: State<V, E, C>,
    gathered: State<V, E, C>,
    args: Result<Vec<Dependency<V>>, ResolveError<E>>,
) -> bool
    decreases fuel, 1nat, 0nat, 0nat,
{
    let object = before.objects[at];
    &&& gathers(
        fuel,
        before,
        object.deps(),
        object.lifetimes(),
        object.deps().len(),
        lowered(args),
        gathered,
    )
    &&& constructs(gathered, at, args, out, after)
}

/// Resolving the first `upto` of the dependencies `deps`, each with its
/// lifetime, can turn the registry `before` into `after` and give `got`.
///
/// The dependencies are resolved in their order, each in the registry as
/// the one before it left it. What they give is handed on in the same order.
/// The first error ends the gathering: it is the result, and the dependencies
/// after it are not resolved.
pub open spec fn gathers<V, E, C: Fn(Vec<Dependency<V>>) -> Result<V, E>>(
    fuel: nat,
    before: State<V, E, C>,
    deps: Seq<(TypeId, &'static str)>,
    lifetimes: Seq<Lifetime>,
    upto: nat,
    got: Result<Seq<Dependency<V>>, ResolveError<E>>,
    after: State<V, E, C>,
) -> bool
    decreases fuel, 0nat, upto, 1nat,
{
    if upto == 0 {
        got == Ok::<Seq<Dependency<V>>, ResolveError<E>>(Seq::empty()) && after == before
    } else {
        exists|middle: State<V, E, C>, first: Result<Seq<Dependency<V>>, ResolveError<E>>|
            #![trigger step(middle, first)]
            step(middle, first) && gathers_via(
                fuel,
                before,
                deps,
                lifetimes,
                upto,
                got,
                after,
                middle,
                first,
            )
    }
}

/// The first `upto` dependencies are gathered by way of the registry `middle`
/// and the result `first`: gathering all but the last of them turns `before`
/// into `middle` and gives `first`. Where that is an error, it is the result,
/// and nothing more happens. Else resolving the last of them turns `middle`
/// into `after`, and gives the error that is the result, or the last of the
/// dependencies that are the result.
pub open spec fn gathers_via<V, E, C: Fn(Vec<Dependency<V>>) -> Result<V, E>>(
    fuel: nat,
    before: State<V, E, C>,
    deps: Seq<(TypeId, &'static str)>,
    lifetimes: Seq<Lifetime>,
    upto: nat,
    got: Result<Seq<Dependency<V>>, ResolveError<E>>,
    after: State<V, E, C>,
    middle: State<V, E, C>,
    first: Result<Seq<Dependency<V>>, ResolveError<E>>,
) -> bool
    decreases fuel, 0nat, upto, 0nat,
{
    &&& upto > 0
    &&& gathers(fuel, before, deps, lifetimes, (upto - 1) as nat, first, middle)
    &&& match first {
        Err(error) => got == Err::<Seq<Dependency<V>>, ResolveError<E>>(error) && after == middle,
        Ok(args) => {
            &&& fuel > 0
            &&& match got {
                Ok(all) => {
                    &&& all.len() > 0
                    &&& all.drop_last() == args
                    &&& resolves(
                        (fuel - 1) as nat,
                        middle,
                        deps[upto - 1].0,
                        deps[upto - 1].1@,
                        lifetimes[upto - 1],
                        Ok(all.last()),
                        after,
                    )
                },
                Err(error) => resolves(
                    (fuel - 1) as nat,
                    middle,
                    deps[upto - 1].0,
                    deps[upto - 1].1@,
                    lifetimes[upto - 1],
                    Err(error),
                    after,
                ),
            }
        },
    }
}

/// What can be resolved with some fuel can be resolved with more.
pub proof fn lemma_resolves_with_more<V, E, C: Fn(Vec<Dependency<V>>) -> Result<V, E>>(
    fuel: nat,
    more: nat,
    before: State<V, E, C>,
    key: TypeId,
    name: Seq<char>,
    lifetime: Lifetime,
    out: Result<Dependency<V>, ResolveError<E>>,
    after: State<V, E, C>,
)
    requires
        resolves(fuel, before, key, name, lifetime, out, after),
        fuel <= more,
    ensures
        resolves(more, before, key, name, lifetime, out, after),
    decreases fuel, 2nat, 0nat,
{
    match found(before, key, lifetime) {
        Some(at) => lemma_invokes_with_more(fuel, more, before, at, out, after),
        None => match before.parent {
            Some(parent) => lemma_resolves_with_more(
                (fuel - 1) as nat,
                (more - 1) as nat,
                *parent,
                key,
                name,
                lifetime,
                out,
                *after.parent->0,
            ),
            None => {},
        },
    }
}

/// What can be invoked with some fuel can be invoked with more.
pub proof fn lemma_invokes_with_more<V, E, C: Fn(Vec<Dependency<V>>) -> Result<V, E>>(
    fuel: nat,
    more: nat,
    before: State<V, E, C>,
    at: int,
    out: Result<Dependency<V>, ResolveError<E>>,
    after: State<V, E, C>,
)
    requires
        invokes(fuel, before, at, out, after),
        fuel <= more,
    ensures
        invokes(more, before, at, out, after),
    decreases fuel, 1nat, 0nat,
{
    let object = before.objects[at];
    if object.cell() is None && !(verdict_of(before.visitors) is Err && object.deps().len() > 0) {
        let (gathered, args) = choose|
            gathered: State<V, E, C>,
            args: Result<Vec<Dependency<V>>, ResolveError<E>>,
        |
            #![trigger step(gathered, args)]
            step(gathered, args) && invokes_via(fuel, before, at, out, after, gathered, args);
        lemma_gathers_with_more(
            fuel,
            more,
            before,
            object.deps(),
            object.lifetimes(),
            object.deps().len(),
            lowered(args),
            gathered,
        );
        assert(step(gathered, args) && invokes_via(more, before, at, out, after, gathered, args));
    }
}

/// What can be gathered with some fuel can be gathered with more.
pub proof fn lemma_gathers_with_more<V, E, C: Fn(Vec<Dependency<V>>) -> Result<V, E>>(
    fuel: nat,
    more: nat,
    before: State<V, E, C>,
    deps: Seq<(TypeId, &'static str)>,
    lifetimes: Seq<Lifetime>,
    upto: nat,
    got: Result<Seq<Dependency<V>>, ResolveError<E>>,
    after: State<V, E, C>,
)
    requires
        gathers(fuel, before, deps, lifetimes, upto, got, after),
        fuel <= more,
    ensures
        gathers(more, before, deps, lifetimes, upto, got, after),
    decreases fuel, 0nat, upto,
{
    if upto > 0 {
        let (middle, first) = choose|
            middle: State<V, E, C>,
            first: Result<Seq<Dependency<V>>, ResolveError<E>>,
        |
            #![trigger step(middle, first)]
            step(middle, first) && gathers_via(
                fuel,
                before,
                deps,
                lifetimes,
                upto,
                got,
                after,
                middle,
                first,
            );
        lemma_gathers_with_more(
            fuel,
            more,
            before,
            deps,
            lifetimes,
            (upto - 1) as nat,
            first,
            middle,
        );
        match first {
            Err(error) => {},
            Ok(args) => {
                match got {
                    Ok(all) => lemma_resolves_with_more(
                        (fuel - 1) as nat,
                        (more - 1) as nat,
                        middle,
                        deps[upto - 1].0,
                        deps[upto - 1].1@,
                        lifetimes[upto - 1],
                        Ok(all.last()),
                        after,
                    ),
                    Err(error) => lemma_resolves_with_more(
                        (fuel - 1) as nat,
                        (more - 1) as nat,
                        middle,
                        deps[upto - 1].0,
                        deps[upto - 1].1@,
                        lifetimes[upto - 1],
                        Err(error),
                        after,
                    ),
                }
            },
        }
        assert(step(middle, first) && gathers_via(
            more,
            before,
            deps,
            lifetimes,
            upto,
            got,
            after,
            middle,
            first,
        ));
    }
}

/// What was gathered, and what resolving one more dependency gave.
pub open spec fn with_last<V, E>(
    first: Seq<Dependency<V>>,
    last: Result<Dependency<V>, ResolveError<E>>,
) -> Result<Seq<Dependency<V>>, ResolveError<E>> {
    match last {
        Ok(dep) => Ok(first.push(dep)),
        Err(error) => Err(error),
    }
}

/// The fuel that is enough for a gathering that took `fuel` and for one more
/// resolve that took `spent`.
pub open spec fn enough(fuel: nat, spent: nat) -> nat {
    if fuel > spent + 1 {
        fuel
    } else {
        spent + 1
    }
}

/// After a gathering that gave dependencies, resolving the next dependency
/// makes a gathering of one more.
pub proof fn lemma_gathers_one_more<V, E, C: Fn(Vec<Dependency<V>>) -> Result<V, E>>(
    fuel: nat,
    spent: nat,
    before: State<V, E, C>,
    deps: Seq<(TypeId, &'static str)>,
    lifetimes: Seq<Lifetime>,
    upto: nat,
    first: Seq<Dependency<V>>,
    middle: State<V, E, C>,
    last: Result<Dependency<V>, ResolveError<E>>,
    after: State<V, E, C>,
)
    requires
        gathers(fuel, before, deps, lifetimes, upto, Ok(first), middle),
        resolves(spent, middle, deps[upto as int].0, deps[upto as int].1@, lifetimes[upto as int], last, after),
    ensures
        gathers(
            enough(fuel, spent),
            before,
            deps,
            lifetimes,
            upto + 1,
            with_last(first, last),
            after,
        ),
{
    let more = enough(fuel, spent);
    let gathered = Ok::<Seq<Dependency<V>>, ResolveError<E>>(first);
    lemma_gathers_with_more(fuel, more, before, deps, lifetimes, upto, gathered, middle);
    lemma_resolves_with_more(
        spent,
        (more - 1) as nat,
        middle,
        deps[upto as int].0,
        deps[upto as int].1@,
        lifetimes[upto as int],
        last,
        after,
    );
    match last {
        Ok(dep) => {
            assert(first.push(dep).drop_last() =~= first);
        },
        Err(error) => {},
    }
    assert(step(middle, gathered) && gathers_via(
        more,
        before,
        deps,
        lifetimes,
        upto + 1,
        with_last(first, last),
        after,
        middle,
        gathered,
    ));
}

/// A gathering that has failed stays failed: the dependencies after the
/// failed one are not resolved.
pub proof fn lemma_gathers_failed<V, E, C: Fn(Vec<Dependency<V>>) -> Result<V, E>>(
    fuel: nat,
    before: State<V, E, C>,
    deps: Seq<(TypeId, &'static str)>,
    lifetimes: Seq<Lifetime>,
    upto: nat,
    later: nat,
    error: ResolveError<E>,
    after: State<V, E, C>,
)
    requires
        gathers(fuel, before, deps, lifetimes, upto, Err(error), after),
        upto <= later,
    ensures
        gathers(fuel, before, deps, lifetimes, later, Err(error), after),
    decreases later,
{
    if upto < later {
        lemma_gathers_failed(
            fuel,
            before,
            deps,
            lifetimes,
            upto,
            (later - 1) as nat,
            error,
            after,
        );
        let first = Err::<Seq<Dependency<V>>, ResolveError<E>>(error);
        assert(step(after, first) && gathers_via(
            fuel,
            before,
            deps,
            lifetimes,
            later,
            Err(error),
            after,
            after,
            first,
        ));
    }
}

/// The registry `after` is what `before` can become by resolving: it has
/// the same visitors, and the same objects with the same constructors and
/// dependencies; a singleton that was constructed is still the same; and the
/// same holds of the registries above.
pub open spec fn grows<V, E, C: Fn(Vec<Dependency<V>>) -> Result<V, E>>(
    before: State<V, E, C>,
    after: State<V, E, C>,
) -> bool
    decreases before,
{
    &&& after.visitors == before.visitors
    &&& after.objects.len() == before.objects.len()
    &&& forall|at: int|
        0 <= at < before.objects.len() ==> (#[trigger] after.objects[at]).same_recipe(
            before.objects[at],
        ) && (before.objects[at].cell() is Some ==> after.objects[at] == before.objects[at])
    &&& match before.parent {
        Some(parent) => after.parent is Some && grows(*parent, *after.parent->0),
        None => after.parent is None,
    }
}

/// A registry can become itself.
pub proof fn lemma_grows_not<V, E, C: Fn(Vec<Dependency<V>>) -> Result<V, E>>(
    state: State<V, E, C>,
)
    ensures
        grows(state, state),
    decreases state,
{
    match state.parent {
        Some(parent) => lemma_grows_not(*parent),
        None => {},
    }
}

/// What a registry can become can become more.
pub proof fn lemma_grows_on<V, E, C: Fn(Vec<Dependency<V>>) -> Result<V, E>>(
    before: State<V, E, C>,
    middle: State<V, E, C>,
    after: State<V, E, C>,
)
    requires
        grows(before, middle),
        grows(middle, after),
    ensures
        grows(before, after),
    decreases before,
{
    match before.parent {
        Some(parent) => lemma_grows_on(*parent, *middle.parent->0, *after.parent->0),
        None => {},
    }
    assert forall|at: int| 0 <= at < before.objects.len() implies (
    #[trigger] after.objects[at]).same_recipe(before.objects[at]) && (
    before.objects[at].cell() is Some ==> after.objects[at] == before.objects[at]) by {
        assert(middle.objects[at].same_recipe(before.objects[at]));
    }
}

/// A registry that has grown is still well formed, and finds the same
/// objects.
pub proof fn lemma_grows_finds<V, E, C: Fn(Vec<Dependency<V>>) -> Result<V, E>>(
    before: State<V, E, C>,
    after: State<V, E, C>,
    key: TypeId,
    lifetime: Lifetime,
)
    requires
        well_formed(before),
        grows(before, after),
    ensures
        well_formed(after),
        found(after, key, lifetime) == found(before, key, lifetime),
    decreases before,
{
    match before.parent {
        Some(parent) => lemma_grows_finds(*parent, *after.parent->0, key, lifetime),
        None => {},
    }
    assert forall|at: int| holds_at(after, key, lifetime, at) == holds_at(
        before,
        key,
        lifetime,
        at,
    ) by {
        if 0 <= at < before.objects.len() {
            assert(after.objects[at].same_recipe(before.objects[at]));
        }
    }
    match found(before, key, lifetime) {
        Some(at) => {
            assert(holds_at(before, key, lifetime, at));
            lemma_found(after, key, lifetime, at);
        },
        None => {
            assert forall|at: int| !holds_at(after, key, lifetime, at) by {
                assert(!holds_at(before, key, lifetime, at));
            }
        },
    }
}

/// A well-formed registry holds at most one object for a type: it is the one
/// that is found.
pub proof fn lemma_found<V, E, C: Fn(Vec<Dependency<V>>) -> Result<V, E>>(
    state: State<V, E, C>,
    key: TypeId,
    lifetime: Lifetime,
    at: int,
)
    requires
        well_formed(state),
        holds_at(state, key, lifetime, at),
    ensures
        found(state, key, lifetime) == Some(at),
{
    assert forall|other: int| holds_at(state, key, lifetime, other) implies other == at by {
        if other < at {
            assert(state.visitors[other].ty.0 != state.visitors[at].ty.0);
        }
        if at < other {
            assert(state.visitors[at].ty.0 != state.visitors[other].ty.0);
        }
    }
}

/// Resolving lets a registry grow, and gives what was asked for: a resolved
/// value has the lifetime that was asked for.
pub proof fn lemma_resolves_grows<V, E, C: Fn(Vec<Dependency<V>>) -> Result<V, E>>(
    fuel: nat,
    before: State<V, E, C>,
    key: TypeId,
    name: Seq<char>,
    lifetime: Lifetime,
    out: Result<Dependency<V>, ResolveError<E>>,
    after: State<V, E, C>,
)
    requires
        resolves(fuel, before, key, name, lifetime, out, after),
    ensures
        grows(before, after),
        out matches Ok(dep) ==> dep.lifetime() == lifetime,
    decreases fuel, 2nat, 0nat,
{
    match found(before, key, lifetime) {
        Some(at) => {
            assert(holds_at(before, key, lifetime, at));
            lemma_invokes_grows(fuel, before, at, out, after);
        },
        None => match before.parent {
            Some(parent) => {
                lemma_resolves_grows(
                    (fuel - 1) as nat,
                    *parent,
                    key,
                    name,
                    lifetime,
                    out,
                    *after.parent->0,
                );
            },
            None => {
                lemma_grows_not(before);
            },
        },
    }
}

/// Invoking an object lets a registry grow, and gives a value of the
/// lifetime of the object.
pub proof fn lemma_invokes_grows<V, E, C: Fn(Vec<Dependency<V>>) -> Result<V, E>>(
    fuel: nat,
    before: State<V, E, C>,
    at: int,
    out: Result<Dependency<V>, ResolveError<E>>,
    after: State<V, E, C>,
)
    requires
        0 <= at < before.objects.len(),
        invokes(fuel, before, at, out, after),
    ensures
        grows(before, after),
        out matches Ok(dep) ==> dep.lifetime() == before.objects[at].lifetime(),
        out matches Ok(dep) ==> after.objects[at].cell() == (if before.objects[at].cell() is Some {
            before.objects[at].cell()
        } else {
            dep.kept()
        }),
    decreases fuel, 1nat, 0nat,
{
    let object = before.objects[at];
    lemma_grows_not(before);
    if object.cell() is None && !(verdict_of(before.visitors) is Err && object.deps().len() > 0) {
        let (gathered, args) = choose|
            gathered: State<V, E, C>,
            args: Result<Vec<Dependency<V>>, ResolveError<E>>,
        |
            #![trigger step(gathered, args)]
            step(gathered, args) && invokes_via(fuel, before, at, out, after, gathered, args);
        lemma_gathers_grows(
            fuel,
            before,
            object.deps(),
            object.lifetimes(),
            object.deps().len(),
            lowered(args),
            gathered,
        );
        lemma_grows_not(gathered);
        assert(gathered.objects[at].same_recipe(object));
        match gathered.parent {
            Some(parent) => lemma_grows_not(*parent),
            None => {},
        }
        assert(grows(gathered, after));
        lemma_grows_on(before, gathered, after);
    }
}

/// Gathering dependencies lets a registry grow.
pub proof fn lemma_gathers_grows<V, E, C: Fn(Vec<Dependency<V>>) -> Result<V, E>>(
    fuel: nat,
    before: State<V, E, C>,
    deps: Seq<(TypeId, &'static str)>,
    lifetimes: Seq<Lifetime>,
    upto: nat,
    got: Result<Seq<Dependency<V>>, ResolveError<E>>,
    after: State<V, E, C>,
)
    requires
        gathers(fuel, before, deps, lifetimes, upto, got, after),
    ensures
        grows(before, after),
        got matches Ok(args) ==> args.len() == upto && forall|k: int|
            0 <= k < upto ==> (#[trigger] args[k]).lifetime() == lifetimes[k],
    decreases fuel, 0nat, upto,
{
    if upto == 0 {
        lemma_grows_not(before);
    } else {
        let (middle, first) = choose|
            middle: State<V, E, C>,
            first: Result<Seq<Dependency<V>>, ResolveError<E>>,
        |
            #![trigger step(middle, first)]
            step(middle, first) && gathers_via(
                fuel,
                before,
                deps,
                lifetimes,
                upto,
                got,
                after,
                middle,
                first,
            );
        lemma_gathers_grows(fuel, before, deps, lifetimes, (upto - 1) as nat, first, middle);
        match first {
            Err(error) => {},
            Ok(args) => {
                match got {
                    Ok(all) => {
                        lemma_resolves_grows(
                            (fuel - 1) as nat,
                            middle,
                            deps[upto - 1].0,
                            deps[upto - 1].1@,
                            lifetimes[upto - 1],
                            Ok(all.last()),
                            after,
                        );
                        assert forall|k: int| 0 <= k < upto implies (#[trigger] all[k]).lifetime()
                            == lifetimes[k] by {
                            if k < upto - 1 {
                                assert(all[k] == all.drop_last()[k]);
                            }
                        }
                    },
                    Err(error) => lemma_resolves_grows(
                        (fuel - 1) as nat,
                        middle,
                        deps[upto - 1].0,
                        deps[upto - 1].1@,
                        lifetimes[upto - 1],
                        Err(error),
                        after,
                    ),
                }
                lemma_grows_on(before, middle, after);
            },
        }
    }
}

/// A singleton is constructed once: after a resolve that handed out the
/// singleton of a type, every further resolve hands out the same shared
/// value and changes nothing; in particular it calls no constructor.
pub proof fn lemma_singleton_is_shared<V, E, C: Fn(Vec<Dependency<V>>) -> Result<V, E>>(
    fuel: nat,
    before: State<V, E, C>,
    key: TypeId,
    name: Seq<char>,
    first: Dependency<V>,
    between: State<V, E, C>,
    again: nat,
    second: Result<Dependency<V>, ResolveError<E>>,
    after: State<V, E, C>,
)
    requires
        well_formed(before),
        resolves(fuel, before, key, name, Lifetime::Singleton, Ok(first), between),
        resolves(again, between, key, name, Lifetime::Singleton, second, after),
    ensures
        second == Ok::<Dependency<V>, ResolveError<E>>(first),
        after == between,
    decreases fuel,
{
    let lifetime = Lifetime::Singleton;
    lemma_resolves_grows(fuel, before, key, name, lifetime, Ok(first), between);
    lemma_grows_finds(before, between, key, lifetime);
    match found(before, key, lifetime) {
        Some(at) => {
            assert(holds_at(before, key, lifetime, at));
            lemma_invokes_grows(fuel, before, at, Ok(first), between);
            assert(first.lifetime() == lifetime);
            assert(first is Singleton);
            assert(invokes(fuel, before, at, Ok(first), between));
            assert(between.objects[at].cell() == first.kept());
            assert(invokes(again, between, at, second, after));
        },
        None => {
            match before.parent {
                Some(parent) => {
                    assert(resolves(
                        (fuel - 1) as nat,
                        *parent,
                        key,
                        name,
                        lifetime,
                        Ok(first),
                        *between.parent->0,
                    ));
                    assert(found(between, key, lifetime) is None);
                    assert(resolves(
                        (again - 1) as nat,
                        *between.parent->0,
                        key,
                        name,
                        lifetime,
                        second,
                        *after.parent->0,
                    ));
                    lemma_singleton_is_shared(
                        (fuel - 1) as nat,
                        *parent,
                        key,
                        name,
                        first,
                        *between.parent->0,
                        (again - 1) as nat,
                        second,
                        *after.parent->0,
                    );
                    assert(after =~= between);
                },
                None => {},
            }
        },
    }
}

/// A child inherits from its parent: where the child itself holds no object
/// for a type with the lifetime asked for, it resolves the type exactly as
/// its parent does, and stays as it was itself.
pub proof fn lemma_child_inherits<V, E, C: Fn(Vec<Dependency<V>>) -> Result<V, E>>(
    fuel: nat,
    child: State<V, E, C>,
    key: TypeId,
    name: Seq<char>,
    lifetime: Lifetime,
    out: Result<Dependency<V>, ResolveError<E>>,
    after: State<V, E, C>,
)
    requires
        child.parent is Some,
        found(child, key, lifetime) is None,
    ensures
        resolves(fuel + 1, child, key, name, lifetime, out, after) <==> {
            &&& after.parent is Some
            &&& after.objects == child.objects
            &&& after.visitors == child.visitors
            &&& resolves(fuel, *child.parent->0, key, name, lifetime, out, *after.parent->0)
        },
{
}

/// A child overrides its parent: where the child itself holds an object for
/// a type with the lifetime asked for, it resolves the type by invoking that
/// object, whatever its parent holds.
pub proof fn lemma_child_overrides<V, E, C: Fn(Vec<Dependency<V>>) -> Result<V, E>>(
    fuel: nat,
    child: State<V, E, C>,
    key: TypeId,
    name: Seq<char>,
    lifetime: Lifetime,
    at: int,
    out: Result<Dependency<V>, ResolveError<E>>,
    after: State<V, E, C>,
)
    requires
        well_formed(child),
        holds_at(child, key, lifetime, at),
    ensures
        resolves(fuel, child, key, name, lifetime, out, after) <==> invokes(
            fuel,
            child,
            at,
            out,
            after,
        ),
{
    lemma_found(child, key, lifetime, at);
}

/// Where no registry holds an object for a type with the lifetime asked
/// for, the type is missing: a registry without a parent that has no such
/// object itself gives the error that tells so, and stays as it was.
pub proof fn lemma_type_missing<V, E, C: Fn(Vec<Dependency<V>>) -> Result<V, E>>(
    fuel: nat,
    before: State<V, E, C>,
    key: TypeId,
    name: Seq<char>,
    lifetime: Lifetime,
    out: Result<Dependency<V>, ResolveError<E>>,
    after: State<V, E, C>,
)
    requires
        before.parent is None,
        found(before, key, lifetime) is None,
    ensures
        resolves(fuel, before, key, name, lifetime, out, after) <==> type_missing(out, name)
            && after == before,
{
}

/// An object without dependencies is invoked by calling its constructor
/// without arguments, unless it has a kept value to hand out.
pub proof fn lemma_invokes_plain<V, E, C: Fn(Vec<Dependency<V>>) -> Result<V, E>>(
    fuel: nat,
    before: State<V, E, C>,
    at: int,
    out: Result<Dependency<V>, ResolveError<E>>,
    after: State<V, E, C>,
)
    requires
        before.objects[at].cell() is None,
        before.objects[at].deps().len() == 0,
        invokes(fuel, before, at, out, after),
    ensures
        exists|args: Vec<Dependency<V>>| #[trigger]
            constructs(before, at, Ok(args), out, after) && args@.len() == 0,
        crate::object_builder::infallible(before.objects[at].ctor()) ==> out is Ok,
{
    let object = before.objects[at];
    let (gathered, args) = choose|
        gathered: State<V, E, C>,
        args: Result<Vec<Dependency<V>>, ResolveError<E>>,
    |
        #![trigger step(gathered, args)]
        step(gathered, args) && invokes_via(fuel, before, at, out, after, gathered, args);
    assert(constructs(before, at, Ok(args->Ok_0), out, after));
}

/// An object whose constructor never fails is owed to succeed: invoking it
/// gives an error only where the object has dependencies, and validation or
/// the resolving of a dependency fails. The error is then that of the
/// validation or of the dependency.
pub proof fn lemma_invokes_infallible<V, E, C: Fn(Vec<Dependency<V>>) -> Result<V, E>>(
    fuel: nat,
    before: State<V, E, C>,
    at: int,
    error: ResolveError<E>,
    after: State<V, E, C>,
)
    requires
        0 <= at < before.objects.len(),
        before.objects[at].cell() is None,
        crate::object_builder::infallible(before.objects[at].ctor()),
        invokes(fuel, before, at, Err(error), after),
    ensures
        before.objects[at].deps().len() > 0,
        match verdict_of(before.visitors) {
            Err(failed) => error == ResolveError::<E>::Validation(failed) && after == before,
            Ok(()) => gathers(
                fuel,
                before,
                before.objects[at].deps(),
                before.objects[at].lifetimes(),
                before.objects[at].deps().len(),
                Err(error),
                after,
            ),
        },
{
    let object = before.objects[at];
    let out = Err::<Dependency<V>, ResolveError<E>>(error);
    if !(verdict_of(before.visitors) is Err && object.deps().len() > 0) {
        let (gathered, args) = choose|
            gathered: State<V, E, C>,
            args: Result<Vec<Dependency<V>>, ResolveError<E>>,
        |
            #![trigger step(gathered, args)]
            step(gathered, args) && invokes_via(fuel, before, at, out, after, gathered, args);
        lemma_gathers_grows(
            fuel,
            before,
            object.deps(),
            object.lifetimes(),
            object.deps().len(),
            lowered(args),
            gathered,
        );
        assert(gathered.objects[at].same_recipe(object));
        assert(args is Err);
    }
}

} // verus!
