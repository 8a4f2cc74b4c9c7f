//! The dependencies that a constructor can ask for.
//!
//!   * `Transient`: made from scratch each time it is asked for.
//!   * `Singleton`: made once for each registry, and shared from then on.

use crate::sealed::Sealed;
use crate::types::{type_id, type_id_of, Registerable, RegisterableSingleton};
use std::any::TypeId;
use std::rc::Rc;
use vstd::prelude::*;

verus! {

/// A reference-counted pointer, as handed out for singletons.
pub type Ref<T> = Rc<T>;

/// How long a registered value lives.
#[derive(Clone, Copy, Debug, PartialEq, Eq, Structural)]
pub enum Lifetime {
    /// A fresh value for each resolve.
    Transient,
    /// One value for each registry, shared by every resolve.
    Singleton,
}

/// A dependency that names a type and the lifetime it is resolved with. Every
/// dependency type implements this trait; it cannot be implemented outside of
/// this crate.
pub trait Dep: Sealed {
    /// The id of the type that the dependency stands for.
    spec fn spec_type_id() -> TypeId;

    /// The display name of the type that the dependency stands for.
    spec fn spec_name() -> Seq<char>;

    /// The lifetime that the dependency is resolved with.
    spec fn spec_lifetime() -> Lifetime;

    /// The id of the type that the dependency stands for.
    fn type_id() -> (id: TypeId)
        ensures
            id == Self::spec_type_id(),
    ;

    /// The display name of the type that the dependency stands for.
    fn display_name() -> (name: &'static str)
        ensures
            name@ == Self::spec_name(),
    ;

    /// The lifetime that the dependency is resolved with.
    fn lifetime() -> (lifetime: Lifetime)
        ensures
            lifetime == Self::spec_lifetime(),
    ;
}

/// A transient dependency: made from scratch every time it is asked for.
#[derive(Debug)]
pub struct Transient<T> {
    /// The resolved value.
    inner: T,
}

impl<T> View for Transient<T> {
    type V = T;

    closed spec fn view(&self) -> T {
        self.inner
    }
}

impl<T> Transient<T> {
    /// Wraps a resolved value.
    pub fn new(inner: T) -> (dep: Self)
        ensures
            dep@ == inner,
    {
        Self { inner }
    }

    /// Hands out the inner value.
    #[must_use]
    pub fn get(self) -> (inner: T)
        ensures
            inner == self@,
    {
        self.inner
    }
}

impl<T> Sealed for Transient<T> {

}

impl<T: Registerable> Dep for Transient<T> {
    open spec fn spec_type_id() -> TypeId {
        type_id_of::<T>()
    }

    open spec fn spec_name() -> Seq<char> {
        T::name()
    }

    open spec fn spec_lifetime() -> Lifetime {
        Lifetime::Transient
    }

    fn type_id() -> (id: TypeId) {
        type_id::<T>()
    }

    fn display_name() -> (name: &'static str) {
        T::display_name()
    }

    fn lifetime() -> (lifetime: Lifetime) {
        Lifetime::Transient
    }
}

/// A singleton dependency: made once for each registry, on first demand.
#[derive(Debug)]
pub struct Singleton<T> {
    /// The resolved value.
    inner: Rc<T>,
}

impl<T> View for Singleton<T> {
    type V = Rc<T>;

    closed spec fn view(&self) -> Rc<T> {
        self.inner
    }
}

impl<T> Singleton<T> {
    /// Wraps a resolved, shared value.
    pub fn new(inner: Rc<T>) -> (dep: Self)
        ensures
            dep@ == inner,
    {
        Self { inner }
    }

    /// Hands out the inner value, as a reference-counted pointer.
    #[must_use]
    pub fn get(self) -> (inner: Rc<T>)
        ensures
            inner == self@,
    {
        self.inner
    }
}

impl<T> Sealed for Singleton<T> {

}

impl<T: RegisterableSingleton> Dep for Singleton<T> {
    open spec fn spec_type_id() -> TypeId {
        type_id_of::<T>()
    }

    open spec fn spec_name() -> Seq<char> {
        T::name()
    }

    open spec fn spec_lifetime() -> Lifetime {
        Lifetime::Singleton
    }

    fn type_id() -> (id: TypeId) {
        type_id::<T>()
    }

    fn display_name() -> (name: &'static str) {
        T::display_name()
    }

    fn lifetime() -> (lifetime: Lifetime) {
        Lifetime::Singleton
    }
}

/// A resolved dependency, as handed to a constructor.
#[derive(Debug)]
pub enum Dependency<V> {
    /// A shared value, resolved as a singleton.
    Singleton(Rc<V>),
    /// An owned value, resolved as a transient.
    Transient(V),
}

impl<V> Dependency<V> {
    /// The lifetime that the dependency was resolved with.
    pub open spec fn lifetime(&self) -> Lifetime {
        match self {
            Dependency::Singleton(_) => Lifetime::Singleton,
            Dependency::Transient(_) => Lifetime::Transient,
        }
    }

    /// The value that was resolved.
    pub open spec fn value(&self) -> V {
        match self {
            Dependency::Singleton(shared) => **shared,
            Dependency::Transient(value) => *value,
        }
    }

    /// What the registry keeps of the resolved dependency: the shared value
    /// of a singleton, nothing of a transient.
    pub open spec fn kept(&self) -> Option<Rc<V>> {
        match self {
            Dependency::Singleton(shared) => Some(*shared),
            Dependency::Transient(_) => None,
        }
    }

    /// Hands out the owned value of a transient dependency.
    pub fn transient(self) -> (value: V)
        requires
            self is Transient,
        ensures
            self == Dependency::Transient(value),
    {
        match self {
            Dependency::Transient(value) => value,
            Dependency::Singleton(_) => vstd::pervasive::unreached(),
        }
    }

    /// Hands out one more pointer to the shared value of a singleton
    /// dependency.
    pub fn singleton(&self) -> (value: Rc<V>)
        requires
            self is Singleton,
        ensures
            *self == Dependency::Singleton(value),
    {
        match self {
            Dependency::Singleton(value) => Rc::clone(value),
            Dependency::Transient(_) => vstd::pervasive::unreached(),
        }
    }
}

} // verus!
