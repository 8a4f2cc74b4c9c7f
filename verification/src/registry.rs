//! Holds all registered types that can be injected or constructed.

use crate::cycle_detection::{
    has_missing, is_index_of, is_missing_report, names_cycle, registered, renders, verdict_of,
    DependencyValidator, FullValidationError, ValidationError, Visitor,
};
use crate::dependencies::{Dependency, Lifetime};
use crate::dependency_builder::{ids_of, lifetimes_of, DepBuilder};
use crate::error::ResolveError;
use crate::model::{
    as_singleton, as_transient, constructs, enough, found, gathers, holds_at, invokes,
    invokes_via, is_new, lemma_gathers_failed, lemma_gathers_one_more, lemma_resolves_grows,
    lowered, registers, resolves, step, well_formed, State,
};
use crate::object_builder::{infallible, makes, total, Object, SingletonGetter, TransientBuilder};
use crate::sealed::SealToken;
use crate::type_index::{index_get, index_insert_vacant, index_new, TypeIndex};
use crate::types::{type_id, type_id_of, Registerable, RegisterableSingleton};
use std::any::TypeId;
use std::marker::PhantomData;
use std::rc::Rc;
use vstd::prelude::*;

verus! {

/// Registry for all types that can be constructed or otherwise injected.
///
/// `V` is the type of the registered values, `E` the error type of the
/// constructors, and `C` the type of the constructors: a constructor takes the
/// resolved dependencies, in the order in which they were declared, and
/// returns the value or an error.
#[verifier::reject_recursive_types(V)]
#[verifier::reject_recursive_types(E)]
#[verifier::reject_recursive_types(C)]
#[derive(Debug)]
pub struct Registry<V, E, C: Fn(Vec<Dependency<V>>) -> Result<V, E>> {
    /// The parent registry. None if this is the root registry.
    parent: Option<Box<Registry<V, E, C>>>,
    /// All registered objects, in the order in which they were registered.
    objects: Vec<Object<V, E, C>>,
    /// The position of each registered type among the objects.
    index: TypeIndex,
    /// Validation.
    validator: DependencyValidator,
}

impl<V, E, C: Fn(Vec<Dependency<V>>) -> Result<V, E>> View for Registry<V, E, C> {
    type V = State<V, E, C>;

    closed spec fn view(&self) -> State<V, E, C> {
        self.state()
    }
}

impl<V, E, C: Fn(Vec<Dependency<V>>) -> Result<V, E>> Registry<V, E, C> {
    /// The view of the registry: its objects, their visitors, and the view of
    /// its parent.
    spec fn state(&self) -> State<V, E, C>
        decreases self,
    {
        State {
            objects: self.objects@,
            visitors: self.validator.visitors(),
            parent: match self.parent {
                Some(parent) => Some(Box::new(parent.state())),
                None => None,
            },
        }
    }

    /// The registered objects of this registry itself, in the order in which
    /// they were registered.
    spec fn objects(&self) -> Seq<Object<V, E, C>> {
        self.objects@
    }

    /// The visitors of the registered types: for the object at each place,
    /// the type it was registered for and the types it depends on.
    spec fn visitors(&self) -> Seq<Visitor> {
        self.validator.visitors()
    }

    /// The parent registry, if there is one.
    spec fn parent(&self) -> Option<Registry<V, E, C>> {
        match self.parent {
            Some(parent) => Some(*parent),
            None => None,
        }
    }

    /// The number of registries above this one.
    spec fn depth(&self) -> nat
        decreases self,
    {
        match self.parent {
            Some(parent) => parent.depth() + 1,
            None => 0,
        }
    }

    /// This registry itself is in order, whatever its parent: each object has
    /// a visitor, which tells its type and its dependencies, and each
    /// constructor can be called.
    spec fn wf_local(&self) -> bool {
        &&& self.validator.wf()
        &&& is_index_of(self.validator.visitors(), self.index@)
        &&& self.objects@.len() == self.validator.visitors().len()
        &&& forall|at: int|
            0 <= at < self.objects@.len() ==> (#[trigger] self.objects@[at]).wf() && ids_of(
                self.objects@[at].deps(),
            ) == ids_of(self.validator.visitors()[at].deps@)
    }

    /// This registry and all registries above it are in order.
    pub closed spec fn wf(&self) -> bool
        decreases self,
    {
        &&& self.wf_local()
        &&& match self.parent {
            Some(parent) => parent.wf(),
            None => true,
        }
    }

    /// The place of the object that this registry itself holds for the type
    /// `key` with this lifetime, if it holds one.
    spec fn find(&self, key: TypeId, lifetime: Lifetime) -> Option<int> {
        found(self@, key, lifetime)
    }

    /// The object at `at` is registered for the type `key`, and has this
    /// lifetime.
    spec fn holds(&self, key: TypeId, lifetime: Lifetime, at: int) -> bool {
        holds_at(self@, key, lifetime, at)
    }

    /// The verdict of the last validation is kept: no type was registered
    /// since.
    pub closed spec fn is_validated(&self) -> bool {
        self.validator.is_cached()
    }

    /// The view of a registry that is in order is well formed.
    pub proof fn lemma_view_well_formed(&self)
        requires
            self.wf(),
        ensures
            well_formed(self@),
        decreases self,
    {
        match self.parent {
            Some(parent) => parent.lemma_view_well_formed(),
            None => {},
        }
        let visitors = self.validator.visitors();
        assert forall|p: int, q: int| 0 <= p < q < visitors.len() implies (
        #[trigger] visitors[p]).ty.0 != (#[trigger] visitors[q]).ty.0 by {
            assert(self.index@[visitors[p].ty.0] == p);
            assert(self.index@[visitors[q].ty.0] == q);
        }
    }

    /// Creates a new, empty registry without a parent.
    #[must_use]
    pub fn empty() -> (registry: Self)
        ensures
            registry.wf(),
            is_new(registry@),
            !registry.is_validated(),
    {
        Self {
            parent: None,
            objects: Vec::new(),
            index: index_new(),
            validator: DependencyValidator::new(),
        }
    }

    /// Creates a new child registry, which takes over this registry as its
    /// parent. The child resolves what is registered on itself, and falls
    /// back to its parent for what is not: a child can override the objects
    /// of its parent.
    pub fn child(self) -> (child: Self)
        requires
            self.wf(),
        ensures
            child.wf(),
            child@.objects.len() == 0,
            child@.visitors.len() == 0,
            child@.parent == Some(Box::new(self@)),
            !child.is_validated(),
    {
        Self {
            parent: Some(Box::new(self)),
            objects: Vec::new(),
            index: index_new(),
            validator: DependencyValidator::new(),
        }
    }

    /// Gives up the child and hands out its parent, if it has one.
    pub fn into_parent(self) -> (parent: Option<Self>)
        requires
            self.wf(),
        ensures
            match parent {
                Some(registry) => registry.wf() && self@.parent == Some(Box::new(registry@)),
                None => self@.parent is None,
            },
    {
        match self.parent {
            Some(parent) => Some(*parent),
            None => None,
        }
    }
}

impl<V, E, C: Fn(Vec<Dependency<V>>) -> Result<V, E>> Registry<V, E, C> {
    /// Starts the registration of a type `T` whose constructor takes the
    /// dependencies that `Deps` lists.
    pub fn with_deps<T, Deps: DepBuilder>(&mut self) -> (builder: Builder<'_, V, E, C, T, Deps>)
        ensures
            *builder.registry == *old(self),
            *final(builder.registry) == *final(self),
    {
        Builder { registry: self, marker: PhantomData, marker1: PhantomData }
    }

    /// Checks that every dependency of every registered type is registered,
    /// and that the dependencies form no cycle. The check looks at what is
    /// registered on this registry itself. Its verdict is kept until the next
    /// registration.
    pub fn validate_all(&mut self) -> (verdict: Result<(), ValidationError>)
        requires
            old(self).wf(),
        ensures
            final(self).wf(),
            final(self)@ == old(self)@,
            final(self).is_validated(),
            old(self).is_validated() ==> *final(self) == *old(self),
            verdict == verdict_of(old(self)@.visitors),
    {
        let verdict = self.validator.validate_all();
        proof {
            self.lemma_view_touched(*old(self));
        }
        verdict
    }

    /// Checks the registered dependencies like `validate_all`, and tells in
    /// detail what is wrong: what each type lacks, or the name of a type that
    /// lies on a cycle.
    pub fn validate_all_full(&self) -> (verdict: Result<(), FullValidationError>)
        requires
            self.wf(),
        ensures
            verdict is Ok <==> verdict_of(self@.visitors) is Ok,
            verdict matches Err(FullValidationError::Missing(report)) ==> has_missing(
                self@.visitors,
            ) && is_missing_report(self@.visitors, report@),
            verdict matches Err(FullValidationError::Cycle(name)) ==> !has_missing(
                self@.visitors,
            ) && name is Some && names_cycle(self@.visitors, name->0@),
    {
        self.validator.validate_all_full()
    }

    /// Checks whether the type `T` can be constructed. This checks all
    /// registered types, as `validate_all` does.
    pub fn validate<T: Registerable>(&mut self) -> (verdict: Result<(), ValidationError>)
        requires
            old(self).wf(),
        ensures
            final(self).wf(),
            final(self)@ == old(self)@,
            final(self).is_validated(),
            old(self).is_validated() ==> *final(self) == *old(self),
            verdict == verdict_of(old(self)@.visitors),
    {
        let verdict = self.validator.validate::<T>();
        proof {
            self.lemma_view_touched(*old(self));
        }
        verdict
    }

    /// Writes the dependency graph in the `dot` language of graphviz, after a
    /// validation that must find nothing wrong.
    pub fn dotgraph(&mut self) -> (text: Result<String, ValidationError>)
        requires
            old(self).wf(),
        ensures
            final(self).wf(),
            final(self)@ == old(self)@,
            final(self).is_validated(),
            old(self).is_validated() ==> *final(self) == *old(self),
            match text {
                Ok(text) => verdict_of(old(self)@.visitors) is Ok && renders(
                    old(self)@.visitors,
                    text@,
                ),
                Err(error) => verdict_of(old(self)@.visitors) == Err::<(), ValidationError>(error),
            },
    {
        let text = self.validator.dotgraph();
        proof {
            self.lemma_view_touched(*old(self));
        }
        text
    }

    /// Tells whether this registry itself holds an object for the type `T`.
    pub fn is_registered<T: Registerable>(&self) -> (found: bool)
        requires
            self.wf(),
        ensures
            found == registered(self@.visitors, type_id_of::<T>()),
    {
        self.validator.is_registered(&type_id::<T>())
    }

    /// Inserts a new object for the type `key`, which must not have one yet.
    fn insert_or_panic(&mut self, key: TypeId, value: Object<V, E, C>)
        requires
            !old(self).index@.contains_key(key),
        ensures
            final(self).objects@ == old(self).objects@.push(value),
            final(self).index@ == old(self).index@.insert(key, old(self).objects.len()),
            final(self).validator == old(self).validator,
            final(self).parent == old(self).parent,
    {
        let position = self.objects.len();
        let inserted = index_insert_vacant(&mut self.index, key, position);
        if !inserted {
            vstd::pervasive::unreached::<()>();
        }
        self.objects.push(value);
    }

    /// Registers a new transient object, without dependencies, whose
    /// constructor may fail. The constructor is called for every `T` that is
    /// asked for. The type must not be registered on this registry yet.
    pub fn try_register_transient<T: Registerable>(&mut self, ctor: C)
        requires
            old(self).wf(),
            total(ctor),
            !registered(old(self)@.visitors, type_id_of::<T>()),
        ensures
            final(self).wf(),
            !final(self).is_validated(),
            registers(
                old(self)@,
                final(self)@,
                type_id_of::<T>(),
                T::name(),
                Lifetime::Transient,
                ctor,
                Seq::empty(),
            ),
    {
        let object = Object::Transient(TransientBuilder::new(ctor, Vec::new(), Vec::new()));
        proof {
            self.lemma_index_tells(type_id_of::<T>());
        }
        self.insert_or_panic(type_id::<T>(), object);
        self.validator.add_transient_no_deps::<T>();
        proof {
            assert(self.objects@.drop_last() =~= old(self).objects@);
            assert(ids_of(self.validator.visitors().last().deps@) =~= ids_of(
                self.objects@.last().deps(),
            ));
            self.lemma_registered(*old(self), type_id_of::<T>());
            assert(self.objects@.last().lifetimes() =~= lifetimes_of(Seq::empty()));
        }
    }

    /// Registers a new transient object, without dependencies, whose
    /// constructor never fails. The constructor is called for every `T` that
    /// is asked for. The type must not be registered on this registry yet.
    pub fn register_transient<T: Registerable>(&mut self, ctor: C)
        requires
            old(self).wf(),
            total(ctor),
            infallible(ctor),
            !registered(old(self)@.visitors, type_id_of::<T>()),
        ensures
            final(self).wf(),
            !final(self).is_validated(),
            registers(
                old(self)@,
                final(self)@,
                type_id_of::<T>(),
                T::name(),
                Lifetime::Transient,
                ctor,
                Seq::empty(),
            ),
    {
        self.try_register_transient::<T>(ctor);
    }

    /// Registers a new singleton object, without dependencies, whose
    /// constructor may fail. The constructor is called when `T` is first
    /// asked for, and again on a later demand where it failed. The type must
    /// not be registered on this registry yet.
    pub fn try_register_singleton<T: RegisterableSingleton>(&mut self, ctor: C)
        requires
            old(self).wf(),
            total(ctor),
            !registered(old(self)@.visitors, type_id_of::<T>()),
        ensures
            final(self).wf(),
            !final(self).is_validated(),
            registers(
                old(self)@,
                final(self)@,
                type_id_of::<T>(),
                T::name(),
                Lifetime::Singleton,
                ctor,
                Seq::empty(),
            ),
    {
        let object = Object::Singleton(SingletonGetter::new(ctor, Vec::new(), Vec::new()));
        proof {
            self.lemma_index_tells(type_id_of::<T>());
        }
        self.insert_or_panic(type_id::<T>(), object);
        self.validator.add_singleton_no_deps::<T>();
        proof {
            assert(self.objects@.drop_last() =~= old(self).objects@);
            assert(ids_of(self.validator.visitors().last().deps@) =~= ids_of(
                self.objects@.last().deps(),
            ));
            self.lemma_registered(*old(self), type_id_of::<T>());
            assert(self.objects@.last().lifetimes() =~= lifetimes_of(Seq::empty()));
        }
    }

    /// Registers a new singleton object, without dependencies, whose
    /// constructor never fails. The constructor is called once, when `T` is
    /// first asked for. The type must not be registered on this registry yet.
    pub fn register_singleton<T: RegisterableSingleton>(&mut self, ctor: C)
        requires
            old(self).wf(),
            total(ctor),
            infallible(ctor),
            !registered(old(self)@.visitors, type_id_of::<T>()),
        ensures
            final(self).wf(),
            !final(self).is_validated(),
            registers(
                old(self)@,
                final(self)@,
                type_id_of::<T>(),
                T::name(),
                Lifetime::Singleton,
                ctor,
                Seq::empty(),
            ),
    {
        self.try_register_singleton::<T>(ctor);
    }

    /// The last validation found nothing wrong, and no type was registered
    /// since.
    spec fn settled(&self) -> bool {
        self.validator.is_cached() && verdict_of(self.validator.visitors()) is Ok
    }

    /// The rank of the object at `at`: after a validation that found nothing
    /// wrong, an object ranks above the objects that it depends on.
    spec fn rank(&self, at: int) -> nat {
        self.validator.rank(self.validator.visitors()[at].ty.0)
    }

    /// This registry is what `before` has become by resolving and
    /// validating: the same objects with the same constructors and
    /// dependencies, in this registry and in those above it; a singleton that
    /// was constructed is still the same.
    spec fn keeps(&self, before: Self) -> bool
        decreases self,
    {
        &&& self.validator.visitors() == before.validator.visitors()
        &&& self.index == before.index
        &&& self.objects@.len() == before.objects@.len()
        &&& forall|at: int|
            0 <= at < self.objects@.len() ==> (#[trigger] self.objects@[at]).same_recipe(
                before.objects@[at],
            ) && (before.objects@[at].cell() is Some ==> self.objects@[at] == before.objects@[at])
        &&& before.validator.is_cached() ==> self.validator == before.validator
        &&& match self.parent {
            Some(parent) => before.parent is Some && parent.keeps(*before.parent->0),
            None => before.parent is None,
        }
    }

    /// This registry itself is the same as `before`, whatever happened to
    /// the registries above it.
    spec fn same_local(&self, before: Self) -> bool {
        &&& self.objects == before.objects
        &&& self.index == before.index
        &&& self.validator == before.validator
    }

    /// A registry keeps itself.
    proof fn lemma_keeps_self(&self)
        ensures
            self.keeps(*self),
        decreases self,
    {
        match self.parent {
            Some(parent) => parent.lemma_keeps_self(),
            None => {},
        }
    }

    /// Keeping carries over: what keeps `middle`, which keeps `before`,
    /// keeps `before`.
    proof fn lemma_keeps_on(&self, middle: Self, before: Self)
        requires
            self.keeps(middle),
            middle.keeps(before),
        ensures
            self.keeps(before),
        decreases self,
    {
        match self.parent {
            Some(parent) => parent.lemma_keeps_on(*middle.parent->0, *before.parent->0),
            None => {},
        }
        assert forall|at: int| 0 <= at < self.objects@.len() implies (
        #[trigger] self.objects@[at]).same_recipe(before.objects@[at]) && (
        before.objects@[at].cell() is Some ==> self.objects@[at] == before.objects@[at]) by {
            assert(middle.objects@[at].same_recipe(before.objects@[at]));
        }
    }

    /// A registry of which only cells were filled keeps what it was.
    proof fn lemma_keeps_filled(&self, before: Self)
        requires
            self.parent == before.parent,
            self.index == before.index,
            self.validator == before.validator,
            self.objects@.len() == before.objects@.len(),
            forall|at: int|
                0 <= at < self.objects@.len() ==> (#[trigger] self.objects@[at]).same_recipe(
                    before.objects@[at],
                ) && (before.objects@[at].cell() is Some ==> self.objects@[at]
                    == before.objects@[at]),
        ensures
            self.keeps(before),
    {
        match self.parent {
            Some(parent) => parent.lemma_keeps_self(),
            None => {},
        }
    }

    /// A registry of which only the validator ran keeps what it was.
    proof fn lemma_keeps_touched(&self, before: Self)
        requires
            self.objects == before.objects,
            self.parent == before.parent,
            self.index == before.index,
            self.validator.visitors() == before.validator.visitors(),
            before.validator.is_cached() ==> self.validator == before.validator,
        ensures
            self.keeps(before),
    {
        match self.parent {
            Some(parent) => parent.lemma_keeps_self(),
            None => {},
        }
    }

    /// What counts against the resolving of the object at `at`: one where it
    /// has dependencies that are yet to be validated, else nothing.
    spec fn flag(&self, at: int) -> nat {
        if self.objects@[at].deps().len() > 0 && !self.settled() {
            1
        } else {
            0
        }
    }

    /// What counts against the resolving of the object at `at` once its
    /// dependencies are validated: its rank where it has dependencies, else
    /// nothing.
    spec fn weight(&self, at: int) -> nat {
        if self.objects@[at].deps().len() > 0 && self.settled() {
            self.rank(at)
        } else {
            0
        }
    }

    /// The flag of the object that this registry itself holds for `key` with
    /// this lifetime; nothing if it holds none.
    spec fn flag_of(&self, key: TypeId, lifetime: Lifetime) -> nat {
        match self.find(key, lifetime) {
            Some(at) => self.flag(at),
            None => 0,
        }
    }

    /// The weight of the object that this registry itself holds for `key`
    /// with this lifetime; nothing if it holds none.
    spec fn weight_of(&self, key: TypeId, lifetime: Lifetime) -> nat {
        match self.find(key, lifetime) {
            Some(at) => self.weight(at),
            None => 0,
        }
    }

    /// How far the resolving of the object at `at` reaches, which turns the
    /// registry `before` into `after`.
    ///
    /// A singleton that is constructed already changes nothing. An object
    /// without dependencies changes itself alone. An object with
    /// dependencies changes nothing where validation fails; else it changes
    /// itself, registries above, and of the other objects of this registry
    /// only such as rank below it.
    spec fn touched(before: Self, at: int, after: Self) -> bool {
        let object = before.objects()[at];
        &&& after.keeps(before)
        &&& match object.cell() {
            Some(value) => after == before,
            None => if object.deps().len() == 0 {
                &&& after.parent() == before.parent()
                &&& forall|other: int|
                    0 <= other < before.objects().len() && other != at ==> (
                    #[trigger] after.objects()[other]) == before.objects()[other]
            } else {
                match verdict_of(before.visitors()) {
                    Err(error) => {
                        &&& after.objects() == before.objects()
                        &&& after.parent() == before.parent()
                    },
                    Ok(()) => {
                        &&& after.settled()
                        &&& forall|other: int|
                            0 <= other < before.objects().len() && other != at && (
                            #[trigger] after.objects()[other]) != before.objects()[other]
                                ==> after.rank(other) < after.rank(at)
                    },
                }
            },
        }
    }

    /// How far the resolving of the type `key` with this lifetime reaches,
    /// which turns the registry `before` into `after`.
    ///
    /// Where the registry itself holds an object for the type with this
    /// lifetime, the resolving reaches as far as that of the object. Else it
    /// reaches into the registries above, and the registry itself stays as
    /// it was.
    spec fn reached(before: Self, key: TypeId, lifetime: Lifetime, after: Self) -> bool
        decreases before.depth(),
    {
        &&& after.keeps(before)
        &&& match before.find(key, lifetime) {
            Some(at) => Self::touched(before, at, after),
            None => match before.parent() {
                Some(parent) => {
                    &&& after.same_local(before)
                    &&& after.parent() is Some
                    &&& Self::reached(parent, key, lifetime, after.parent()->0)
                },
                None => after == before,
            },
        }
    }

    /// The registry holds at most one object for a type: it is the one that
    /// `find` finds.
    proof fn lemma_find(&self, key: TypeId, lifetime: Lifetime, at: int)
        requires
            self.wf(),
            0 <= at < self.visitors().len(),
            self.visitors()[at].ty.0 == key,
        ensures
            self.objects()[at].lifetime() == lifetime ==> self.find(key, lifetime) == Some(at),
            self.objects()[at].lifetime() != lifetime ==> self.find(key, lifetime) is None,
    {
        if self.objects()[at].lifetime() == lifetime {
            assert(self.holds(key, lifetime, at));
        }
        assert forall|other: int| self.holds(key, lifetime, other) implies other == at by {
            assert(self.index@[self.visitors()[other].ty.0] == other);
        }
    }

    /// A registry on which a type is not registered has no object to find
    /// for it.
    proof fn lemma_find_none(&self, key: TypeId, lifetime: Lifetime)
        requires
            self.wf(),
            !registered(self.visitors(), key),
        ensures
            self.find(key, lifetime) is None,
    {
        assert forall|other: int| !self.holds(key, lifetime, other) by {}
    }

    /// A registry that keeps another is as deep.
    proof fn lemma_keeps_depth(&self, before: Self)
        requires
            self.keeps(before),
        ensures
            self.depth() == before.depth(),
            self.visitors() == before.visitors(),
            self.objects().len() == before.objects().len(),
            before.settled() ==> self.settled() && forall|at: int|
                self.rank(at) == before.rank(at),
            self.parent() is Some <==> before.parent() is Some,
            self.parent() is Some ==> self.parent()->0.keeps(before.parent()->0),
            forall|at: int|
                0 <= at < self.objects().len() ==> (#[trigger] self.objects()[at]).same_recipe(
                    before.objects()[at],
                ) && (before.objects()[at].cell() is Some ==> self.objects()[at]
                    == before.objects()[at]),
        decreases self,
    {
        match self.parent {
            Some(parent) => parent.lemma_keeps_depth(*before.parent->0),
            None => {},
        }
    }

    /// Where what a registry had to resolve ranks below the object at `at`,
    /// that object is as it was, and only objects that rank below it have
    /// changed.
    proof fn lemma_reached_below(
        before: Self,
        key: TypeId,
        lifetime: Lifetime,
        after: Self,
        at: int,
    )
        requires
            before.wf(),
            before.settled(),
            Self::reached(before, key, lifetime, after),
            0 <= at < before.objects().len(),
            before.validator.rank(key) < before.rank(at),
        ensures
            after.objects()[at] == before.objects()[at],
            forall|other: int|
                0 <= other < before.objects().len() && (#[trigger] after.objects()[other])
                    != before.objects()[other] ==> before.rank(other) < before.rank(at),
    {
        after.lemma_keeps_depth(before);
        match before.find(key, lifetime) {
            Some(found) => {
                assert(before.holds(key, lifetime, found));
                assert(before.rank(found) == before.validator.rank(key));
                assert(after.rank(found) == before.rank(found));
                assert(after.rank(at) == before.rank(at));
                assert forall|other: int|
                    0 <= other < before.objects().len() && (#[trigger] after.objects()[other])
                        != before.objects()[other] implies before.rank(other) < before.rank(
                    at,
                ) by {
                    assert(after.rank(other) == before.rank(other));
                }
            },
            None => {},
        }
    }

    /// Resolving an object leaves the registry in order.
    proof fn lemma_wf_kept(&self, before: Self)
        requires
            before.wf(),
            self.keeps(before),
            self.validator.wf(),
            forall|at: int| 0 <= at < self.objects@.len() ==> (#[trigger] self.objects@[at]).wf(),
            match self.parent {
                Some(parent) => parent.wf(),
                None => true,
            },
        ensures
            self.wf(),
    {
        assert forall|at: int| 0 <= at < self.objects@.len() implies ids_of(
            (#[trigger] self.objects@[at]).deps(),
        ) == ids_of(self.validator.visitors()[at].deps@) by {
            assert(self.objects@[at].same_recipe(before.objects@[at]));
        }
    }

    /// Resolves the object at `at`: hands out the kept value of a singleton
    /// that is constructed already; else validates the registered types where
    /// the object has dependencies, resolves the dependencies in the order in
    /// which they were declared, stopping at the first that fails, and calls
    /// the constructor with them.
    fn invoke(&mut self, at: usize) -> (out: Result<Dependency<V>, ResolveError<E>>)
        requires
            old(self).wf(),
            at < old(self).objects@.len(),
        ensures
            final(self).wf(),
            Self::touched(*old(self), at as int, *final(self)),
            exists|fuel: nat| invokes(fuel, old(self)@, at as int, out, final(self)@),
        decreases old(self).depth(), old(self).flag(at as int), old(self).weight(at as int), 0int,
    {
        if let Some(value) = self.objects[at].get() {
            proof {
                self.lemma_keeps_self();
                assert(invokes(0, old(self)@, at as int, Ok(Dependency::Singleton(value)), self@));
            }
            return Ok(Dependency::Singleton(value));
        }
        let count = self.objects[at].dep_count();
        if count == 0 {
            let args: Vec<Dependency<V>> = Vec::new();
            let made = self.objects[at].construct(args);
            proof {
                self.lemma_keeps_filled(*old(self));
                self.lemma_wf_kept(*old(self));
                self.lemma_constructed(*old(self), at as int, args, made);
                let gathered = old(self)@;
                let given = Ok::<Vec<Dependency<V>>, ResolveError<E>>(args);
                assert(lowered(given) == Ok::<Seq<Dependency<V>>, ResolveError<E>>(Seq::empty()));
                assert(step(gathered, given) && invokes_via(
                    0,
                    old(self)@,
                    at as int,
                    made,
                    self@,
                    gathered,
                    given,
                ));
                assert(invokes(0, old(self)@, at as int, made, self@));
            }
            return made;
        }
        match self.validator.validate_all() {
            Err(error) => {
                proof {
                    self.lemma_keeps_touched(*old(self));
                    self.lemma_view_touched(*old(self));
                    assert(invokes(
                        0,
                        old(self)@,
                        at as int,
                        Err(ResolveError::Validation(error)),
                        self@,
                    ));
                }
                return Err(ResolveError::Validation(error));
            },
            Ok(()) => {},
        }
        let ghost ready = *self;
        let ghost mut fuel: nat = 0;
        proof {
            self.lemma_keeps_touched(*old(self));
            self.lemma_keeps_self();
            self.lemma_keeps_depth(*old(self));
            self.lemma_view_touched(*old(self));
        }
        let mut args: Vec<Dependency<V>> = Vec::new();
        let mut k: usize = 0;
        while k < count
            invariant
                ready@ == old(self)@,
                verdict_of(ready@.visitors) is Ok,
                gathers(
                    fuel,
                    ready@,
                    ready.objects@[at as int].deps(),
                    ready.objects@[at as int].lifetimes(),
                    k as nat,
                    Ok(args@),
                    self@,
                ),
                ready.wf(),
                ready.settled(),
                ready.keeps(*old(self)),
                ready.objects == old(self).objects,
                ready.depth() == old(self).depth(),
                old(self).flag(at as int) == 1 || old(self).weight(at as int) == ready.rank(
                    at as int,
                ),
                self.wf(),
                self.keeps(ready),
                at < self.objects@.len(),
                self.objects@[at as int] == ready.objects@[at as int],
                ready.objects@[at as int].cell() is None,
                count == ready.objects@[at as int].deps().len(),
                count > 0,
                0 <= k <= count,
                forall|other: int|
                    0 <= other < ready.objects@.len() && (#[trigger] self.objects@[other])
                        != ready.objects@[other] ==> ready.rank(other) < ready.rank(at as int),
                args@.len() == k,
            decreases count - k,
        {
            let dep = self.objects[at].dep(k);
            let ghost round = *self;
            proof {
                self.lemma_keeps_depth(ready);
                let listed = self.objects@[at as int].deps();
                let visited = self.validator.visitors()[at as int].deps@;
                assert(ids_of(listed).len() == ids_of(visited).len());
                assert(ids_of(listed)[k as int] == ids_of(visited)[k as int]);
                self.validator.lemma_deps_rank_below(at as int, k as int);
                assert(self.validator.rank(dep.0) < self.rank(at as int));
                match self.find(dep.0, dep.2) {
                    Some(found) => {
                        assert(self.holds(dep.0, dep.2, found));
                    },
                    None => {},
                }
            }
            let ghost deps = ready.objects@[at as int].deps();
            let ghost lifetimes = ready.objects@[at as int].lifetimes();
            let ghost first = args@;
            let got = self.resolve(dep.0, dep.1, dep.2);
            proof {
                let spent = choose|spent: nat|
                    resolves(spent, round@, dep.0, dep.1@, dep.2, got, self@);
                lemma_gathers_one_more(
                    fuel,
                    spent,
                    ready@,
                    deps,
                    lifetimes,
                    k as nat,
                    first,
                    round@,
                    got,
                    self@,
                );
                fuel = enough(fuel, spent);
                Self::lemma_reached_below(round, dep.0, dep.2, *self, at as int);
                self.lemma_keeps_on(round, ready);
            }
            match got {
                Ok(resolved) => {
                    args.push(resolved);
                },
                Err(error) => {
                    proof {
                        self.lemma_keeps_on(ready, *old(self));
                        self.lemma_keeps_depth(ready);
                        lemma_gathers_failed(
                            fuel,
                            ready@,
                            deps,
                            lifetimes,
                            (k + 1) as nat,
                            count as nat,
                            error,
                            self@,
                        );
                        let given = Err::<Vec<Dependency<V>>, ResolveError<E>>(error);
                        assert(step(self@, given) && invokes_via(
                            fuel,
                            ready@,
                            at as int,
                            Err(error),
                            self@,
                            self@,
                            given,
                        ));
                        assert(invokes(fuel, old(self)@, at as int, Err(error), self@));
                    }
                    return Err(error);
                },
            }
            k += 1;
        }
        let ghost resolved = *self;
        let ghost handed = args;
        let made = self.objects[at].construct(args);
        proof {
            resolved.lemma_keeps_depth(ready);
            self.lemma_keeps_filled(resolved);
            self.lemma_wf_kept(resolved);
            self.lemma_keeps_on(resolved, ready);
            self.lemma_keeps_on(ready, *old(self));
            self.lemma_keeps_depth(ready);
            self.lemma_constructed(resolved, at as int, handed, made);
            let given = Ok::<Vec<Dependency<V>>, ResolveError<E>>(handed);
            assert(step(resolved@, given) && invokes_via(
                fuel,
                ready@,
                at as int,
                made,
                self@,
                resolved@,
                given,
            ));
            assert(invokes(fuel, old(self)@, at as int, made, self@));
        }
        made
    }

    /// A registry of which only the validator ran has the same view.
    proof fn lemma_view_touched(&self, before: Self)
        requires
            self.objects == before.objects,
            self.parent == before.parent,
            self.validator.visitors() == before.validator.visitors(),
        ensures
            self@ == before@,
    {
    }

    /// The view of a registry of which the object at `at` was constructed.
    proof fn lemma_constructed(
        &self,
        before: Self,
        at: int,
        args: Vec<Dependency<V>>,
        made: Result<Dependency<V>, ResolveError<E>>,
    )
        requires
            0 <= at < before.objects@.len(),
            self.parent == before.parent,
            self.validator == before.validator,
            self.objects@.len() == before.objects@.len(),
            forall|other: int|
                0 <= other < before.objects@.len() && other != at ==> (
                #[trigger] self.objects@[other]) == before.objects@[other],
            before.objects@[at].cell() is None,
            self.objects@[at].same_recipe(before.objects@[at]),
            match made {
                Ok(Dependency::Transient(value)) => before.objects@[at].lifetime()
                    == Lifetime::Transient && self.objects@[at] == before.objects@[at] && makes(
                    before.objects@[at].ctor(),
                    args,
                    Ok(value),
                ),
                Ok(Dependency::Singleton(value)) => before.objects@[at].lifetime()
                    == Lifetime::Singleton && self.objects@[at].cell() == Some(value) && makes(
                    before.objects@[at].ctor(),
                    args,
                    Ok(*value),
                ),
                Err(error) => self.objects@[at] == before.objects@[at] && makes(
                    before.objects@[at].ctor(),
                    args,
                    Err(error),
                ),
            },
        ensures
            constructs(before@, at, Ok(args), made, self@),
    {
        match made {
            Ok(Dependency::Singleton(value)) => {},
            _ => {
                assert(self.objects@ =~= before.objects@);
                assert(self@ =~= before@);
            },
        }
    }

    /// Resolves the type `key` with this lifetime: by the object that this
    /// registry itself holds for it, else by the parent; `name` is the display
    /// name to report where no registry holds such an object.
    fn resolve(&mut self, key: TypeId, name: &'static str, lifetime: Lifetime) -> (out: Result<
        Dependency<V>,
        ResolveError<E>,
    >)
        requires
            old(self).wf(),
        ensures
            final(self).wf(),
            Self::reached(*old(self), key, lifetime, *final(self)),
            exists|fuel: nat| resolves(fuel, old(self)@, key, name@, lifetime, out, final(self)@),
        decreases
                old(self).depth(),
                old(self).flag_of(key, lifetime),
                old(self).weight_of(key, lifetime),
                1int,
    {
        match index_get(&self.index, &key) {
            Some(at) => {
                proof {
                    self.lemma_find(key, lifetime, at as int);
                }
                if self.objects[at].kind() == lifetime {
                    let out = self.invoke(at);
                    proof {
                        let spent = choose|spent: nat|
                            invokes(spent, old(self)@, at as int, out, self@);
                        assert(resolves(spent, old(self)@, key, name@, lifetime, out, self@));
                    }
                    return out;
                }
            },
            None => {
                proof {
                    self.lemma_index_tells(key);
                    self.lemma_find_none(key, lifetime);
                }
            },
        }
        let ghost above = old(self)@.parent;
        match &mut self.parent {
            Some(parent) => {
                let out = parent.resolve(key, name, lifetime);
                proof {
                    let spent = choose|spent: nat|
                        resolves(spent, *above->0, key, name@, lifetime, out, parent@);
                    assert(resolves(
                        spent + 1,
                        old(self)@,
                        key,
                        name@,
                        lifetime,
                        out,
                        after_borrow(self)@,
                    )) by {
                        assert(found(old(self)@, key, lifetime) is None);
                    }
                }
                out
            },
            None => {
                proof {
                    self.lemma_keeps_self();
                    assert(resolves(
                        0,
                        old(self)@,
                        key,
                        name@,
                        lifetime,
                        Err(ResolveError::TypeMissing { typename: name }),
                        self@,
                    ));
                }
                Err(ResolveError::TypeMissing { typename: name })
            },
        }
    }

    /// Retrieves a newly constructed `T` from this registry, or from the
    /// nearest registry above it that holds a transient object for `T`.
    pub fn transient<T: Registerable>(&mut self) -> (out: Result<V, ResolveError<E>>)
        requires
            old(self).wf(),
        ensures
            final(self).wf(),
            exists|fuel: nat| #[trigger]
                resolves(
                    fuel,
                    old(self)@,
                    type_id_of::<T>(),
                    T::name(),
                    Lifetime::Transient,
                    as_transient(out),
                    final(self)@,
                ),
    {
        match self.resolve(type_id::<T>(), T::display_name(), Lifetime::Transient) {
            Ok(dep) => {
                proof {
                    let fuel = choose|fuel: nat|
                        resolves(
                            fuel,
                            old(self)@,
                            type_id_of::<T>(),
                            T::name(),
                            Lifetime::Transient,
                            Ok(dep),
                            self@,
                        );
                    lemma_resolves_grows(
                        fuel,
                        old(self)@,
                        type_id_of::<T>(),
                        T::name(),
                        Lifetime::Transient,
                        Ok(dep),
                        self@,
                    );
                }
                Ok(dep.transient())
            },
            Err(error) => Err(error),
        }
    }

    /// Retrieves the singleton `T` from this registry, or from the nearest
    /// registry above it that holds a singleton object for `T`. The singleton
    /// comes as a reference-counted pointer.
    pub fn singleton<T: RegisterableSingleton>(&mut self) -> (out: Result<Rc<V>, ResolveError<E>>)
        requires
            old(self).wf(),
        ensures
            final(self).wf(),
            exists|fuel: nat| #[trigger]
                resolves(
                    fuel,
                    old(self)@,
                    type_id_of::<T>(),
                    T::name(),
                    Lifetime::Singleton,
                    as_singleton(out),
                    final(self)@,
                ),
    {
        match self.resolve(type_id::<T>(), T::display_name(), Lifetime::Singleton) {
            Ok(dep) => {
                proof {
                    let fuel = choose|fuel: nat|
                        resolves(
                            fuel,
                            old(self)@,
                            type_id_of::<T>(),
                            T::name(),
                            Lifetime::Singleton,
                            Ok(dep),
                            self@,
                        );
                    lemma_resolves_grows(
                        fuel,
                        old(self)@,
                        type_id_of::<T>(),
                        T::name(),
                        Lifetime::Singleton,
                        Ok(dep),
                        self@,
                    );
                }
                Ok(dep.singleton())
            },
            Err(error) => Err(error),
        }
    }

    /// The index of the objects has an entry for a type exactly if a visitor
    /// is registered for it.
    proof fn lemma_index_tells(&self, key: TypeId)
        requires
            self.wf(),
        ensures
            self.index@.contains_key(key) <==> registered(self.visitors(), key),
    {
        if self.index@.contains_key(key) {
            assert(self.visitors()[self.index@[key] as int].ty.0 == key);
        }
    }

    /// An object and its visitor were added at the end: the registry is in
    /// order again.
    proof fn lemma_registered(&self, before: Self, key: TypeId)
        requires
            before.wf(),
            !registered(before.visitors(), key),
            self.parent == before.parent,
            self.objects@.len() == before.objects@.len() + 1,
            self.objects@.drop_last() == before.objects@,
            self.objects@.last().wf(),
            self.index@ == before.index@.insert(key, before.objects.len()),
            self.validator.wf(),
            self.validator.visitors().len() == before.validator.visitors().len() + 1,
            self.validator.visitors().drop_last() == before.validator.visitors(),
            self.validator.visitors().last().ty.0 == key,
            ids_of(self.validator.visitors().last().deps@) == ids_of(self.objects@.last().deps()),
        ensures
            self.wf(),
            self@.parent == before@.parent,
            self@.objects.drop_last() == before@.objects,
            self@.visitors.drop_last() == before@.visitors,
    {
        let visitors = self.validator.visitors();
        let old_visitors = before.validator.visitors();
        assert forall|p: int| 0 <= p < visitors.len() implies self.index@.contains_key(
            (#[trigger] visitors[p]).ty.0,
        ) && self.index@[visitors[p].ty.0] == p by {
            if p < old_visitors.len() {
                assert(visitors[p] == old_visitors[p]);
            }
        }
        assert forall|other: TypeId| #[trigger] self.index@.contains_key(other) implies self.index@[other]
            < visitors.len() && visitors[self.index@[other] as int].ty.0 == other by {
            if other != key {
                let p = before.index@[other] as int;
                assert(visitors[p] == old_visitors[p]);
            }
        }
        assert forall|at: int| 0 <= at < self.objects@.len() implies (#[trigger] self.objects@[at]).wf()
            && ids_of(self.objects@[at].deps()) == ids_of(visitors[at].deps@) by {
            if at < before.objects@.len() {
                assert(self.objects@[at] == before.objects@[at]);
                assert(visitors[at] == old_visitors[at]);
            }
        }
    }
}

/// The first `upto` registration functions, called one after the other, can
/// turn the registry `from` into the registry `to`.
pub open spec fn populated<
    V,
    E,
    C: Fn(Vec<Dependency<V>>) -> Result<V, E>,
    F: Fn(Registry<V, E, C>) -> Registry<V, E, C>,
>(registrations: Seq<F>, upto: nat, from: Registry<V, E, C>, to: Registry<V, E, C>) -> bool
    decreases upto,
{
    if upto == 0 {
        to == from
    } else {
        exists|middle: Registry<V, E, C>|
            populated(registrations, (upto - 1) as nat, from, middle) && #[trigger] call_ensures(
                registrations[upto - 1],
                (middle,),
                to,
            )
    }
}

/// The registration function takes any registry that is in order, and hands
/// back a registry that is in order.
pub open spec fn registers_well<
    V,
    E,
    C: Fn(Vec<Dependency<V>>) -> Result<V, E>,
    F: Fn(Registry<V, E, C>) -> Registry<V, E, C>,
>(registration: F) -> bool {
    &&& forall|registry: Registry<V, E, C>|
        registry.wf() ==> call_requires(registration, (registry,))
    &&& forall|registry: Registry<V, E, C>, made: Registry<V, E, C>|
        registry.wf() && call_ensures(registration, (registry,), made) ==> made.wf()
}

impl<V, E, C: Fn(Vec<Dependency<V>>) -> Result<V, E>> Registry<V, E, C> {
    /// Creates an empty registry, and hands it to each registration function
    /// in turn, which adds its types to it.
    #[must_use]
    pub fn autoregistered<F: Fn(Self) -> Self>(registrations: &Vec<F>) -> (registry: Self)
        requires
            forall|i: int|
                0 <= i < registrations@.len() ==> registers_well(#[trigger] registrations@[i]),
        ensures
            registry.wf(),
            exists|start: Self| #[trigger]
                is_new(start@) && populated(
                    registrations@,
                    registrations@.len(),
                    start,
                    registry,
                ),
    {
        let mut registry = Self::empty();
        let ghost start = registry;
        let mut i: usize = 0;
        while i < registrations.len()
            invariant
                0 <= i <= registrations@.len(),
                registry.wf(),
                is_new(start@),
                populated(registrations@, i as nat, start, registry),
                forall|j: int|
                    0 <= j < registrations@.len() ==> registers_well(#[trigger] registrations@[j]),
            decreases registrations@.len() - i,
        {
            let ghost middle = registry;
            assert(registers_well(registrations@[i as int]));
            registry = (registrations[i])(registry);
            i += 1;
            assert(call_ensures(registrations@[i - 1], (middle,), registry));
        }
        registry
    }
}

/// A builder for objects with dependencies, made by `Registry::with_deps`.
#[verifier::reject_recursive_types(V)]
#[verifier::reject_recursive_types(E)]
#[verifier::reject_recursive_types(C)]
#[verifier::reject_recursive_types(T)]
#[verifier::reject_recursive_types(Deps)]
#[derive(Debug)]
pub struct Builder<'reg, V, E, C: Fn(Vec<Dependency<V>>) -> Result<V, E>, T, Deps> {
    /// The registry that takes the object.
    pub registry: &'reg mut Registry<V, E, C>,
    /// Marker for `T`.
    pub marker: PhantomData<T>,
    /// Marker for `Deps`.
    pub marker1: PhantomData<Deps>,
}

impl<'reg, V, E, C: Fn(Vec<Dependency<V>>) -> Result<V, E>, T: Registerable, Deps: DepBuilder> Builder<
    'reg,
    V,
    E,
    C,
    T,
    Deps,
> {
    /// Registers a new transient object whose constructor may fail. The
    /// constructor takes the dependencies that `Deps` lists, resolved in that
    /// order, and is called for every `T` that is asked for. The type must not
    /// be registered on the registry yet.
    pub fn try_register_transient(self, ctor: C)
        requires
            old(self.registry).wf(),
            total(ctor),
            !registered(old(self.registry)@.visitors, type_id_of::<T>()),
        ensures
            final(self.registry).wf(),
            !final(self.registry).is_validated(),
            registers(
                old(self.registry)@,
                final(self.registry)@,
                type_id_of::<T>(),
                T::name(),
                Lifetime::Transient,
                ctor,
                Deps::spec_deps(),
            ),
    {
        let deps = Deps::as_typeids(SealToken);
        let lifetimes = Deps::lifetimes(SealToken);

        let object = Object::Transient(TransientBuilder::new(ctor, deps, lifetimes));
        proof {
            self.registry.lemma_index_tells(type_id_of::<T>());
        }
        self.registry.insert_or_panic(type_id::<T>(), object);
        self.registry.validator.add_transient_deps::<T, Deps>();
        proof {
            assert(self.registry.objects@.drop_last() =~= old(self.registry).objects@);
            assert(ids_of(self.registry.validator.visitors().last().deps@) =~= ids_of(
                self.registry.objects@.last().deps(),
            ));
            self.registry.lemma_registered(*old(self.registry), type_id_of::<T>());
        }
    }

    /// Registers a new transient object whose constructor never fails. The
    /// constructor takes the dependencies that `Deps` lists, resolved in that
    /// order, and is called for every `T` that is asked for. The type must not
    /// be registered on the registry yet.
    pub fn register_transient(self, ctor: C)
        requires
            old(self.registry).wf(),
            total(ctor),
            infallible(ctor),
            !registered(old(self.registry)@.visitors, type_id_of::<T>()),
        ensures
            final(self.registry).wf(),
            !final(self.registry).is_validated(),
            registers(
                old(self.registry)@,
                final(self.registry)@,
                type_id_of::<T>(),
                T::name(),
                Lifetime::Transient,
                ctor,
                Deps::spec_deps(),
            ),
    {
        self.try_register_transient(ctor);
    }

    /// Registers a new singleton object whose constructor may fail. The
    /// constructor takes the dependencies that `Deps` lists, resolved in that
    /// order. It is called when `T` is first asked for, and again on a later
    /// demand where it failed. The type must not be registered on the
    /// registry yet.
    pub fn try_register_singleton(self, ctor: C)
        requires
            old(self.registry).wf(),
            total(ctor),
            !registered(old(self.registry)@.visitors, type_id_of::<T>()),
        ensures
            final(self.registry).wf(),
            !final(self.registry).is_validated(),
            registers(
                old(self.registry)@,
                final(self.registry)@,
                type_id_of::<T>(),
                T::name(),
                Lifetime::Singleton,
                ctor,
                Deps::spec_deps(),
            ),
    {
        let deps = Deps::as_typeids(SealToken);
        let lifetimes = Deps::lifetimes(SealToken);

        let object = Object::Singleton(SingletonGetter::new(ctor, deps, lifetimes));
        proof {
            self.registry.lemma_index_tells(type_id_of::<T>());
        }
        self.registry.insert_or_panic(type_id::<T>(), object);
        self.registry.validator.add_singleton_deps::<T, Deps>();
        proof {
            assert(self.registry.objects@.drop_last() =~= old(self.registry).objects@);
            assert(ids_of(self.registry.validator.visitors().last().deps@) =~= ids_of(
                self.registry.objects@.last().deps(),
            ));
            self.registry.lemma_registered(*old(self.registry), type_id_of::<T>());
        }
    }

    /// Registers a new singleton object whose constructor never fails. The
    /// constructor takes the dependencies that `Deps` lists, resolved in that
    /// order, and is called once, when `T` is first asked for. The type must
    /// not be registered on the registry yet.
    pub fn register_singleton(self, ctor: C)
        requires
            old(self.registry).wf(),
            total(ctor),
            infallible(ctor),
            !registered(old(self.registry)@.visitors, type_id_of::<T>()),
        ensures
            final(self.registry).wf(),
            !final(self.registry).is_validated(),
            registers(
                old(self.registry)@,
                final(self.registry)@,
                type_id_of::<T>(),
                T::name(),
                Lifetime::Singleton,
                ctor,
                Deps::spec_deps(),
            ),
    {
        self.try_register_singleton(ctor);
    }
}

} // verus!
