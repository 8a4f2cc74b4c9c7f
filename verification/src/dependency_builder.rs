//! Lists of dependencies, written as tuples of dependency types.

use crate::dependencies::{Dep, Lifetime};
use crate::sealed::SealToken;
use std::any::TypeId;
use vstd::prelude::*;

verus! {

/// A dependency as a constructor declares it: the id and the display name of
/// its type, and the lifetime it is resolved with.
pub ghost struct Declared {
    /// The id of the type.
    pub id: TypeId,
    /// The display name of the type.
    pub name: Seq<char>,
    /// The lifetime.
    pub lifetime: Lifetime,
}

/// The ids that `listed` lists, in order.
pub open spec fn ids_of(listed: Seq<(TypeId, &'static str)>) -> Seq<TypeId> {
    Seq::new(listed.len(), |k: int| listed[k].0)
}

/// The ids and display names in `listed` are those of the dependencies
/// `declared`, in the same order.
pub open spec fn lists(listed: Seq<(TypeId, &'static str)>, declared: Seq<Declared>) -> bool {
    &&& listed.len() == declared.len()
    &&& forall|k: int|
        0 <= k < listed.len() ==> (#[trigger] listed[k]).0 == declared[k].id && listed[k].1@
            == declared[k].name
}

/// The lifetimes of the dependencies `declared`, in the same order.
pub open spec fn lifetimes_of(declared: Seq<Declared>) -> Seq<Lifetime> {
    Seq::new(declared.len(), |k: int| declared[k].lifetime)
}

/// A list of dependencies, fixed by a type: the unit type for none, or a tuple
/// of up to eight dependency types such as `(Transient<A>, Singleton<B>)`.
/// The list is what a constructor asks for; the constructor gets the
/// resolved dependencies in the order of the tuple.
///
/// Only this crate implements the trait, and only it can call its methods.
pub trait DepBuilder {
    /// The dependencies, in the order of the tuple.
    spec fn spec_deps() -> Seq<Declared>;

    /// The id and display name of each dependency's type, in the order of the
    /// tuple.
    fn as_typeids(_token: SealToken) -> (listed: Vec<(TypeId, &'static str)>)
        ensures
            lists(listed@, Self::spec_deps()),
    ;

    /// The lifetime of each dependency, in the order of the tuple.
    fn lifetimes(_token: SealToken) -> (lifetimes: Vec<Lifetime>)
        ensures
            lifetimes@ == lifetimes_of(Self::spec_deps()),
    ;
}

impl DepBuilder for () {
    open spec fn spec_deps() -> Seq<Declared> {
        Seq::empty()
    }

    fn as_typeids(_token: SealToken) -> (listed: Vec<(TypeId, &'static str)>) {
        Vec::new()
    }

    fn lifetimes(_token: SealToken) -> (lifetimes: Vec<Lifetime>) {
        let lifetimes = Vec::new();
        assert(lifetimes@ =~= lifetimes_of(Self::spec_deps()));
        lifetimes
    }
}

impl<T1: Dep> DepBuilder for (T1,) {
    open spec fn spec_deps() -> Seq<Declared> {
        seq![
            (Declared {
                id: T1::spec_type_id(),
                name: T1::spec_name(),
                lifetime: T1::spec_lifetime(),
            }),
        ]
    }

    fn as_typeids(_token: SealToken) -> (listed: Vec<(TypeId, &'static str)>) {
        let mut listed = Vec::new();
        listed.push((T1::type_id(), T1::display_name()));
        listed
    }

    fn lifetimes(_token: SealToken) -> (lifetimes: Vec<Lifetime>) {
        let mut lifetimes = Vec::new();
        lifetimes.push(T1::lifetime());
        assert(lifetimes@ =~= lifetimes_of(Self::spec_deps()));
        lifetimes
    }
}

impl<T1: Dep, T2: Dep> DepBuilder for (T1, T2) {
    open spec fn spec_deps() -> Seq<Declared> {
        seq![
            (Declared {
                id: T1::spec_type_id(),
                name: T1::spec_name(),
                lifetime: T1::spec_lifetime(),
            }),
            (Declared {
                id: T2::spec_type_id(),
                name: T2::spec_name(),
                lifetime: T2::spec_lifetime(),
            }),
        ]
    }

    fn as_typeids(_token: SealToken) -> (listed: Vec<(TypeId, &'static str)>) {
        let mut listed = Vec::new();
        listed.push((T1::type_id(), T1::display_name()));
        listed.push((T2::type_id(), T2::display_name()));
        listed
    }

    fn lifetimes(_token: SealToken) -> (lifetimes: Vec<Lifetime>) {
        let mut lifetimes = Vec::new();
        lifetimes.push(T1::lifetime());
        lifetimes.push(T2::lifetime());
        assert(lifetimes@ =~= lifetimes_of(Self::spec_deps()));
        lifetimes
    }
}

impl<T1: Dep, T2: Dep, T3: Dep> DepBuilder for (T1, T2, T3) {
    open spec fn spec_deps() -> Seq<Declared> {
        seq![
            (Declared {
                id: T1::spec_type_id(),
                name: T1::spec_name(),
                lifetime: T1::spec_lifetime(),
            }),
            (Declared {
                id: T2::spec_type_id(),
                name: T2::spec_name(),
                lifetime: T2::spec_lifetime(),
            }),
            (Declared {
                id: T3::spec_type_id(),
                name: T3::spec_name(),
                lifetime: T3::spec_lifetime(),
            }),
        ]
    }

    fn as_typeids(_token: SealToken) -> (listed: Vec<(TypeId, &'static str)>) {
        let mut listed = Vec::new();
        listed.push((T1::type_id(), T1::display_name()));
        listed.push((T2::type_id(), T2::display_name()));
        listed.push((T3::type_id(), T3::display_name()));
        listed
    }

    fn lifetimes(_token: SealToken) -> (lifetimes: Vec<Lifetime>) {
        let mut lifetimes = Vec::new();
        lifetimes.push(T1::lifetime());
        lifetimes.push(T2::lifetime());
        lifetimes.push(T3::lifetime());
        assert(lifetimes@ =~= lifetimes_of(Self::spec_deps()));
        lifetimes
    }
}

impl<T1: Dep, T2: Dep, T3: Dep, T4: Dep> DepBuilder for (T1, T2, T3, T4) {
    open spec fn spec_deps() -> Seq<Declared> {
        seq![
            (Declared {
                id: T1::spec_type_id(),
                name: T1::spec_name(),
                lifetime: T1::spec_lifetime(),
            }),
            (Declared {
                id: T2::spec_type_id(),
                name: T2::spec_name(),
                lifetime: T2::spec_lifetime(),
            }),
            (Declared {
                id: T3::spec_type_id(),
                name: T3::spec_name(),
                lifetime: T3::spec_lifetime(),
            }),
            (Declared {
                id: T4::spec_type_id(),
                name: T4::spec_name(),
                lifetime: T4::spec_lifetime(),
            }),
        ]
    }

    fn as_typeids(_token: SealToken) -> (listed: Vec<(TypeId, &'static str)>) {
        let mut listed = Vec::new();
        listed.push((T1::type_id(), T1::display_name()));
        listed.push((T2::type_id(), T2::display_name()));
        listed.push((T3::type_id(), T3::display_name()));
        listed.push((T4::type_id(), T4::display_name()));
        listed
    }

    fn lifetimes(_token: SealToken) -> (lifetimes: Vec<Lifetime>) {
        let mut lifetimes = Vec::new();
        lifetimes.push(T1::lifetime());
        lifetimes.push(T2::lifetime());
        lifetimes.push(T3::lifetime());
        lifetimes.push(T4::lifetime());
        assert(lifetimes@ =~= lifetimes_of(Self::spec_deps()));
        lifetimes
    }
}

impl<T1: Dep, T2: Dep, T3: Dep, T4: Dep, T5: Dep> DepBuilder for (T1, T2, T3, T4, T5) {
    open spec fn spec_deps() -> Seq<Declared> {
        seq![
            (Declared {
                id: T1::spec_type_id(),
                name: T1::spec_name(),
                lifetime: T1::spec_lifetime(),
            }),
            (Declared {
                id: T2::spec_type_id(),
                name: T2::spec_name(),
                lifetime: T2::spec_lifetime(),
            }),
            (Declared {
                id: T3::spec_type_id(),
                name: T3::spec_name(),
                lifetime: T3::spec_lifetime(),
            }),
            (Declared {
                id: T4::spec_type_id(),
                name: T4::spec_name(),
                lifetime: T4::spec_lifetime(),
            }),
            (Declared {
                id: T5::spec_type_id(),
                name: T5::spec_name(),
                lifetime: T5::spec_lifetime(),
            }),
        ]
    }

    fn as_typeids(_token: SealToken) -> (listed: Vec<(TypeId, &'static str)>) {
        let mut listed = Vec::new();
        listed.push((T1::type_id(), T1::display_name()));
        listed.push((T2::type_id(), T2::display_name()));
        listed.push((T3::type_id(), T3::display_name()));
        listed.push((T4::type_id(), T4::display_name()));
        listed.push((T5::type_id(), T5::display_name()));
        listed
    }

    fn lifetimes(_token: SealToken) -> (lifetimes: Vec<Lifetime>) {
        let mut lifetimes = Vec::new();
        lifetimes.push(T1::lifetime());
        lifetimes.push(T2::lifetime());
        lifetimes.push(T3::lifetime());
        lifetimes.push(T4::lifetime());
        lifetimes.push(T5::lifetime());
        assert(lifetimes@ =~= lifetimes_of(Self::spec_deps()));
        lifetimes
    }
}

impl<T1: Dep, T2: Dep, T3: Dep, T4: Dep, T5: Dep, T6: Dep> DepBuilder for (T1, T2, T3, T4, T5, T6) {
    open spec fn spec_deps() -> Seq<Declared> {
        seq![
            (Declared {
                id: T1::spec_type_id(),
                name: T1::spec_name(),
                lifetime: T1::spec_lifetime(),
            }),
            (Declared {
                id: T2::spec_type_id(),
                name: T2::spec_name(),
                lifetime: T2::spec_lifetime(),
            }),
            (Declared {
                id: T3::spec_type_id(),
                name: T3::spec_name(),
                lifetime: T3::spec_lifetime(),
            }),
            (Declared {
                id: T4::spec_type_id(),
                name: T4::spec_name(),
                lifetime: T4::spec_lifetime(),
            }),
            (Declared {
                id: T5::spec_type_id(),
                name: T5::spec_name(),
                lifetime: T5::spec_lifetime(),
            }),
            (Declared {
                id: T6::spec_type_id(),
                name: T6::spec_name(),
                lifetime: T6::spec_lifetime(),
            }),
        ]
    }

    fn as_typeids(_token: SealToken) -> (listed: Vec<(TypeId, &'static str)>) {
        let mut listed = Vec::new();
        listed.push((T1::type_id(), T1::display_name()));
        listed.push((T2::type_id(), T2::display_name()));
        listed.push((T3::type_id(), T3::display_name()));
        listed.push((T4::type_id(), T4::display_name()));
        listed.push((T5::type_id(), T5::display_name()));
        listed.push((T6::type_id(), T6::display_name()));
        listed
    }

    fn lifetimes(_token: SealToken) -> (lifetimes: Vec<Lifetime>) {
        let mut lifetimes = Vec::new();
        lifetimes.push(T1::lifetime());
        lifetimes.push(T2::lifetime());
        lifetimes.push(T3::lifetime());
        lifetimes.push(T4::lifetime());
        lifetimes.push(T5::lifetime());
        lifetimes.push(T6::lifetime());
        assert(lifetimes@ =~= lifetimes_of(Self::spec_deps()));
        lifetimes
    }
}

impl<T1: Dep, T2: Dep, T3: Dep, T4: Dep, T5: Dep, T6: Dep, T7: Dep> DepBuilder for (T1, T2, T3, T4, T5, T6, T7) {
    open spec fn spec_deps() -> Seq<Declared> {
        seq![
            (Declared {
                id: T1::spec_type_id(),
                name: T1::spec_name(),
                lifetime: T1::spec_lifetime(),
            }),
            (Declared {
                id: T2::spec_type_id(),
                name: T2::spec_name(),
                lifetime: T2::spec_lifetime(),
            }),
            (Declared {
                id: T3::spec_type_id(),
                name: T3::spec_name(),
                lifetime: T3::spec_lifetime(),
            }),
            (Declared {
                id: T4::spec_type_id(),
                name: T4::spec_name(),
                lifetime: T4::spec_lifetime(),
            }),
            (Declared {
                id: T5::spec_type_id(),
                name: T5::spec_name(),
                lifetime: T5::spec_lifetime(),
            }),
            (Declared {
                id: T6::spec_type_id(),
                name: T6::spec_name(),
                lifetime: T6::spec_lifetime(),
            }),
            (Declared {
                id: T7::spec_type_id(),
                name: T7::spec_name(),
                lifetime: T7::spec_lifetime(),
            }),
        ]
    }

    fn as_typeids(_token: SealToken) -> (listed: Vec<(TypeId, &'static str)>) {
        let mut listed = Vec::new();
        listed.push((T1::type_id(), T1::display_name()));
        listed.push((T2::type_id(), T2::display_name()));
        listed.push((T3::type_id(), T3::display_name()));
        listed.push((T4::type_id(), T4::display_name()));
        listed.push((T5::type_id(), T5::display_name()));
        listed.push((T6::type_id(), T6::display_name()));
        listed.push((T7::type_id(), T7::display_name()));
        listed
    }

    fn lifetimes(_token: SealToken) -> (lifetimes: Vec<Lifetime>) {
        let mut lifetimes = Vec::new();
        lifetimes.push(T1::lifetime());
        lifetimes.push(T2::lifetime());
        lifetimes.push(T3::lifetime());
        lifetimes.push(T4::lifetime());
        lifetimes.push(T5::lifetime());
        lifetimes.push(T6::lifetime());
        lifetimes.push(T7::lifetime());
        assert(lifetimes@ =~= lifetimes_of(Self::spec_deps()));
        lifetimes
    }
}

impl<T1: Dep, T2: Dep, T3: Dep, T4: Dep, T5: Dep, T6: Dep, T7: Dep, T8: Dep> DepBuilder for (T1, T2, T3, T4, T5, T6, T7, T8) {
    open spec fn spec_deps() -> Seq<Declared> {
        seq![
            (Declared {
                id: T1::spec_type_id(),
                name: T1::spec_name(),
                lifetime: T1::spec_lifetime(),
            }),
            (Declared {
                id: T2::spec_type_id(),
                name: T2::spec_name(),
                lifetime: T2::spec_lifetime(),
            }),
            (Declared {
                id: T3::spec_type_id(),
                name: T3::spec_name(),
                lifetime: T3::spec_lifetime(),
            }),
            (Declared {
                id: T4::spec_type_id(),
                name: T4::spec_name(),
                lifetime: T4::spec_lifetime(),
            }),
            (Declared {
                id: T5::spec_type_id(),
                name: T5::spec_name(),
                lifetime: T5::spec_lifetime(),
            }),
            (Declared {
                id: T6::spec_type_id(),
                name: T6::spec_name(),
                lifetime: T6::spec_lifetime(),
            }),
            (Declared {
                id: T7::spec_type_id(),
                name: T7::spec_name(),
                lifetime: T7::spec_lifetime(),
            }),
            (Declared {
                id: T8::spec_type_id(),
                name: T8::spec_name(),
                lifetime: T8::spec_lifetime(),
            }),
        ]
    }

    fn as_typeids(_token: SealToken) -> (listed: Vec<(TypeId, &'static str)>) {
        let mut listed = Vec::new();
        listed.push((T1::type_id(), T1::display_name()));
        listed.push((T2::type_id(), T2::display_name()));
        listed.push((T3::type_id(), T3::display_name()));
        listed.push((T4::type_id(), T4::display_name()));
        listed.push((T5::type_id(), T5::display_name()));
        listed.push((T6::type_id(), T6::display_name()));
        listed.push((T7::type_id(), T7::display_name()));
        listed.push((T8::type_id(), T8::display_name()));
        listed
    }

    fn lifetimes(_token: SealToken) -> (lifetimes: Vec<Lifetime>) {
        let mut lifetimes = Vec::new();
        lifetimes.push(T1::lifetime());
        lifetimes.push(T2::lifetime());
        lifetimes.push(T3::lifetime());
        lifetimes.push(T4::lifetime());
        lifetimes.push(T5::lifetime());
        lifetimes.push(T6::lifetime());
        lifetimes.push(T7::lifetime());
        lifetimes.push(T8::lifetime());
        assert(lifetimes@ =~= lifetimes_of(Self::spec_deps()));
        lifetimes
    }
}

} // verus!
