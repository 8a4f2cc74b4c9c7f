//! The registered constructors: what builds a transient, and what builds and
//! keeps a singleton.

use crate::dependencies::{Dependency, Lifetime};
use crate::error::ResolveError;
use std::any::TypeId;
use std::marker::PhantomData;
use std::rc::Rc;
use vstd::prelude::*;

verus! {

/// The constructor can be called with any dependencies.
pub open spec fn total<V, E, C: Fn(Vec<Dependency<V>>) -> Result<V, E>>(ctor: C) -> bool {
    forall|args: Vec<Dependency<V>>| call_requires(ctor, (args,))
}

/// The constructor never returns an error.
pub open spec fn infallible<V, E, C: Fn(Vec<Dependency<V>>) -> Result<V, E>>(ctor: C) -> bool {
    forall|args: Vec<Dependency<V>>, out: Result<V, E>|
        call_ensures(ctor, (args,), out) ==> out is Ok
}

/// `made` is what the constructor returned for `args`, its error wrapped as
/// the error of a constructor.
pub open spec fn makes<V, E, C: Fn(Vec<Dependency<V>>) -> Result<V, E>>(
    ctor: C,
    args: Vec<Dependency<V>>,
    made: Result<V, ResolveError<E>>,
) -> bool {
    match made {
        Ok(value) => call_ensures(ctor, (args,), Ok::<V, E>(value)),
        Err(ResolveError::Ctor(error)) => call_ensures(ctor, (args,), Err::<V, E>(error)),
        Err(_) => false,
    }
}

/// Builds a new value for each resolve. The constructor may be called any
/// number of times.
#[verifier::reject_recursive_types(V)]
#[verifier::reject_recursive_types(E)]
#[verifier::reject_recursive_types(C)]
#[derive(Debug)]
pub struct TransientBuilder<V, E, C: Fn(Vec<Dependency<V>>) -> Result<V, E>> {
    /// The constructor.
    ctor: C,
    /// The id and display name of the type of each dependency.
    deps: Vec<(TypeId, &'static str)>,
    /// The lifetime of each dependency.
    lifetimes: Vec<Lifetime>,
    /// The types of the values and errors of the constructor.
    marker: PhantomData<(V, E)>,
}

impl<V, E, C: Fn(Vec<Dependency<V>>) -> Result<V, E>> TransientBuilder<V, E, C> {
    /// The constructor.
    pub closed spec fn ctor(&self) -> C {
        self.ctor
    }

    /// The id and display name of the type of each dependency, in the order
    /// in which the constructor takes them.
    pub closed spec fn deps(&self) -> Seq<(TypeId, &'static str)> {
        self.deps@
    }

    /// The lifetime of each dependency.
    pub closed spec fn lifetimes(&self) -> Seq<Lifetime> {
        self.lifetimes@
    }

    /// The builder is in order: its constructor takes any dependencies, and
    /// each dependency has a lifetime.
    pub closed spec fn wf(&self) -> bool {
        &&& total(self.ctor)
        &&& self.deps@.len() == self.lifetimes@.len()
    }

    /// Creates a builder that makes new values with `ctor`.
    pub fn new(ctor: C, deps: Vec<(TypeId, &'static str)>, lifetimes: Vec<Lifetime>) -> (builder:
        Self)
        requires
            total(ctor),
            deps@.len() == lifetimes@.len(),
        ensures
            builder.wf(),
            builder.ctor() == ctor,
            builder.deps() == deps@,
            builder.lifetimes() == lifetimes@,
    {
        Self { ctor, deps, lifetimes, marker: PhantomData }
    }

    /// Tells how many dependencies the constructor takes.
    pub fn dep_count(&self) -> (count: usize)
        requires
            self.wf(),
        ensures
            count == self.deps().len(),
            count == self.lifetimes().len(),
    {
        self.deps.len()
    }

    /// The dependency at the place `k`: the id and display name of its type,
    /// and its lifetime.
    pub fn dep(&self, k: usize) -> (dep: (TypeId, &'static str, Lifetime))
        requires
            self.wf(),
            k < self.deps().len(),
        ensures
            dep.0 == self.deps()[k as int].0,
            dep.1 == self.deps()[k as int].1,
            dep.2 == self.lifetimes()[k as int],
    {
        (self.deps[k].0, self.deps[k].1, self.lifetimes[k])
    }

    /// Makes a new value from the resolved dependencies.
    pub fn make_transient(&self, args: Vec<Dependency<V>>) -> (made: Result<V, ResolveError<E>>)
        requires
            self.wf(),
        ensures
            makes(self.ctor(), args, made),
    {
        match (self.ctor)(args) {
            Ok(value) => Ok(value),
            Err(error) => Err(ResolveError::Ctor(error)),
        }
    }
}

/// Builds a value on first demand and keeps it. The constructor is called
/// until it succeeds once, and never after that.
#[verifier::reject_recursive_types(V)]
#[verifier::reject_recursive_types(E)]
#[verifier::reject_recursive_types(C)]
#[derive(Debug)]
pub struct SingletonGetter<V, E, C: Fn(Vec<Dependency<V>>) -> Result<V, E>> {
    /// The constructor.
    ctor: C,
    /// The id and display name of the type of each dependency.
    deps: Vec<(TypeId, &'static str)>,
    /// The lifetime of each dependency.
    lifetimes: Vec<Lifetime>,
    /// The cell that holds the value once it is constructed.
    cell: Option<Rc<V>>,
    /// The type of the errors of the constructor.
    marker: PhantomData<E>,
}

impl<V, E, C: Fn(Vec<Dependency<V>>) -> Result<V, E>> SingletonGetter<V, E, C> {
    /// The constructor.
    pub closed spec fn ctor(&self) -> C {
        self.ctor
    }

    /// The id and display name of the type of each dependency, in the order
    /// in which the constructor takes them.
    pub closed spec fn deps(&self) -> Seq<(TypeId, &'static str)> {
        self.deps@
    }

    /// The lifetime of each dependency.
    pub closed spec fn lifetimes(&self) -> Seq<Lifetime> {
        self.lifetimes@
    }

    /// The value, once it is constructed.
    pub closed spec fn cell(&self) -> Option<Rc<V>> {
        self.cell
    }

    /// The getter is in order: its constructor takes any dependencies, and
    /// each dependency has a lifetime.
    pub closed spec fn wf(&self) -> bool {
        &&& total(self.ctor)
        &&& self.deps@.len() == self.lifetimes@.len()
    }

    /// Creates a getter with an empty cell, to be filled by `ctor`.
    pub fn new(ctor: C, deps: Vec<(TypeId, &'static str)>, lifetimes: Vec<Lifetime>) -> (getter:
        Self)
        requires
            total(ctor),
            deps@.len() == lifetimes@.len(),
        ensures
            getter.wf(),
            getter.ctor() == ctor,
            getter.deps() == deps@,
            getter.lifetimes() == lifetimes@,
            getter.cell() is None,
    {
        Self { ctor, deps, lifetimes, cell: None, marker: PhantomData }
    }

    /// Tells how many dependencies the constructor takes.
    pub fn dep_count(&self) -> (count: usize)
        requires
            self.wf(),
        ensures
            count == self.deps().len(),
            count == self.lifetimes().len(),
    {
        self.deps.len()
    }

    /// The dependency at the place `k`: the id and display name of its type,
    /// and its lifetime.
    pub fn dep(&self, k: usize) -> (dep: (TypeId, &'static str, Lifetime))
        requires
            self.wf(),
            k < self.deps().len(),
        ensures
            dep.0 == self.deps()[k as int].0,
            dep.1 == self.deps()[k as int].1,
            dep.2 == self.lifetimes()[k as int],
    {
        (self.deps[k].0, self.deps[k].1, self.lifetimes[k])
    }

    /// One more pointer to the value, if it is constructed.
    pub fn get(&self) -> (value: Option<Rc<V>>)
        ensures
            value == self.cell(),
    {
        match &self.cell {
            Some(value) => Some(Rc::clone(value)),
            None => None,
        }
    }

    /// Hands out the value of the cell. Where the cell is empty, the
    /// constructor is called with the resolved dependencies first; the cell
    /// keeps what the constructor made, and stays empty where it failed. Where
    /// the cell is filled, `args` is not used.
    pub fn get_singleton(&mut self, args: Vec<Dependency<V>>) -> (got: Result<
        Rc<V>,
        ResolveError<E>,
    >)
        requires
            old(self).wf(),
        ensures
            final(self).wf(),
            final(self).ctor() == old(self).ctor(),
            final(self).deps() == old(self).deps(),
            final(self).lifetimes() == old(self).lifetimes(),
            match old(self).cell() {
                Some(value) => got == Ok::<Rc<V>, ResolveError<E>>(value) && *final(self) == *old(
                    self,
                ),
                None => match got {
                    Ok(value) => final(self).cell() == Some(value) && makes(
                        old(self).ctor(),
                        args,
                        Ok(*value),
                    ),
                    Err(error) => *final(self) == *old(self) && makes(
                        old(self).ctor(),
                        args,
                        Err(error),
                    ),
                },
            },
    {
        if let Some(value) = &self.cell {
            return Ok(Rc::clone(value));
        }
        match (self.ctor)(args) {
            Ok(value) => {
                let shared = Rc::new(value);
                self.cell = Some(Rc::clone(&shared));
                Ok(shared)
            },
            Err(error) => Err(ResolveError::Ctor(error)),
        }
    }
}

/// A registered constructor, with the lifetime of what it makes.
#[verifier::reject_recursive_types(V)]
#[verifier::reject_recursive_types(E)]
#[verifier::reject_recursive_types(C)]
#[derive(Debug)]
pub enum Object<V, E, C: Fn(Vec<Dependency<V>>) -> Result<V, E>> {
    /// A constructor of values with transient lifetime.
    Transient(TransientBuilder<V, E, C>),
    /// A constructor of a value with singleton lifetime.
    Singleton(SingletonGetter<V, E, C>),
}

impl<V, E, C: Fn(Vec<Dependency<V>>) -> Result<V, E>> Object<V, E, C> {
    /// The lifetime of what the constructor makes.
    pub open spec fn lifetime(&self) -> Lifetime {
        match self {
            Object::Transient(_) => Lifetime::Transient,
            Object::Singleton(_) => Lifetime::Singleton,
        }
    }

    /// The constructor.
    pub open spec fn ctor(&self) -> C {
        match self {
            Object::Transient(builder) => builder.ctor(),
            Object::Singleton(getter) => getter.ctor(),
        }
    }

    /// The id and display name of the type of each dependency.
    pub open spec fn deps(&self) -> Seq<(TypeId, &'static str)> {
        match self {
            Object::Transient(builder) => builder.deps(),
            Object::Singleton(getter) => getter.deps(),
        }
    }

    /// The lifetime of each dependency.
    pub open spec fn lifetimes(&self) -> Seq<Lifetime> {
        match self {
            Object::Transient(builder) => builder.lifetimes(),
            Object::Singleton(getter) => getter.lifetimes(),
        }
    }

    /// The kept value: that of a singleton, once it is constructed.
    pub open spec fn cell(&self) -> Option<Rc<V>> {
        match self {
            Object::Transient(_) => None,
            Object::Singleton(getter) => getter.cell(),
        }
    }

    /// The constructor takes any dependencies, and each dependency has a
    /// lifetime.
    pub open spec fn wf(&self) -> bool {
        match self {
            Object::Transient(builder) => builder.wf(),
            Object::Singleton(getter) => getter.wf(),
        }
    }

    /// The object is the same as `before`, but for what its cell holds.
    pub open spec fn same_recipe(&self, before: Self) -> bool {
        &&& self.lifetime() == before.lifetime()
        &&& self.ctor() == before.ctor()
        &&& self.deps() == before.deps()
        &&& self.lifetimes() == before.lifetimes()
    }

    /// Tells the lifetime of what the constructor makes.
    pub fn kind(&self) -> (lifetime: Lifetime)
        ensures
            lifetime == self.lifetime(),
    {
        match self {
            Object::Transient(_) => Lifetime::Transient,
            Object::Singleton(_) => Lifetime::Singleton,
        }
    }

    /// One more pointer to the kept value, if there is one.
    pub fn get(&self) -> (value: Option<Rc<V>>)
        ensures
            value == self.cell(),
    {
        match self {
            Object::Transient(_) => None,
            Object::Singleton(getter) => getter.get(),
        }
    }

    /// Tells how many dependencies the constructor takes.
    pub fn dep_count(&self) -> (count: usize)
        requires
            self.wf(),
        ensures
            count == self.deps().len(),
            count == self.lifetimes().len(),
    {
        match self {
            Object::Transient(builder) => builder.dep_count(),
            Object::Singleton(getter) => getter.dep_count(),
        }
    }

    /// The dependency at the place `k`: the id and display name of its type,
    /// and its lifetime.
    pub fn dep(&self, k: usize) -> (dep: (TypeId, &'static str, Lifetime))
        requires
            self.wf(),
            k < self.deps().len(),
        ensures
            dep.0 == self.deps()[k as int].0,
            dep.1 == self.deps()[k as int].1,
            dep.2 == self.lifetimes()[k as int],
    {
        match self {
            Object::Transient(builder) => builder.dep(k),
            Object::Singleton(getter) => getter.dep(k),
        }
    }

    /// Constructs the value from the resolved dependencies, or, for a
    /// singleton that is constructed already, hands out the kept value. A
    /// singleton keeps what was constructed.
    pub fn construct(&mut self, args: Vec<Dependency<V>>) -> (made: Result<
        Dependency<V>,
        ResolveError<E>,
    >)
        requires
            old(self).wf(),
        ensures
            final(self).wf(),
            final(self).same_recipe(*old(self)),
            match old(self).cell() {
                Some(value) => made == Ok::<Dependency<V>, ResolveError<E>>(
                    Dependency::Singleton(value),
                ) && *final(self) == *old(self),
                None => match made {
                    Ok(Dependency::Transient(value)) => old(self).lifetime()
                        == Lifetime::Transient && *final(self) == *old(self) && makes(
                        old(self).ctor(),
                        args,
                        Ok(value),
                    ),
                    Ok(Dependency::Singleton(value)) => old(self).lifetime()
                        == Lifetime::Singleton && final(self).cell() == Some(value) && makes(
                        old(self).ctor(),
                        args,
                        Ok(*value),
                    ),
                    Err(error) => *final(self) == *old(self) && makes(
                        old(self).ctor(),
                        args,
                        Err(error),
                    ),
                },
            },
    {
        match self {
            Object::Transient(builder) => {
                match builder.make_transient(args) {
                    Ok(value) => Ok(Dependency::Transient(value)),
                    Err(error) => Err(error),
                }
            },
            Object::Singleton(getter) => {
                match getter.get_singleton(args) {
                    Ok(value) => Ok(Dependency::Singleton(value)),
                    Err(error) => Err(error),
                }
            },
        }
    }
}

} // verus!
