//! Lists of type ids, written as a chain: `Root.and::<A>().and::<B>()` lists
//! the ids of `A` and `B`, in this order.

use crate::types::{type_id, type_id_of};
use std::any::TypeId;
use vstd::prelude::*;

verus! {

/// A chain of types, which can be turned into the list of their ids.
pub trait Dependable: Sized {
    /// The ids of the types of the chain, the first link first.
    spec fn ids(self) -> Seq<TypeId>;

    /// Appends the ids of the types of the chain to `vec`, the first link
    /// first.
    fn to_typeid(self, vec: &mut Vec<TypeId>)
        ensures
            final(vec)@ == old(vec)@ + self.ids(),
    ;
}

/// The start of a chain: it lists no type.
#[derive(Debug)]
pub struct Root;

impl Root {
    /// Appends the type `T` to the chain.
    pub fn and<T: 'static>(self) -> (chain: Dep<Self>)
        ensures
            chain.ids() == seq![type_id_of::<T>()],
    {
        let chain = Dep { head: self, args: type_id::<T>() };
        assert(chain.ids() =~= seq![type_id_of::<T>()]);
        chain
    }
}

impl Dependable for Root {
    open spec fn ids(self) -> Seq<TypeId> {
        Seq::empty()
    }

    fn to_typeid(self, vec: &mut Vec<TypeId>) {
        assert(vec@ =~= old(vec)@ + Seq::<TypeId>::empty());
    }
}

/// A link of a chain: the chain so far, and one more type.
#[derive(Debug)]
pub struct Dep<H> {
    /// The chain before this link.
    head: H,
    /// The id of the type of this link.
    args: TypeId,
}

impl<H: Dependable> Dep<H> {
    /// Appends the type `T` to the chain.
    pub fn and<T: 'static>(self) -> (chain: Dep<Self>)
        ensures
            chain.ids() == self.ids().push(type_id_of::<T>()),
    {
        Dep { head: self, args: type_id::<T>() }
    }
}

impl<H: Dependable> Dependable for Dep<H> {
    closed spec fn ids(self) -> Seq<TypeId> {
        self.head.ids().push(self.args)
    }

    fn to_typeid(self, vec: &mut Vec<TypeId>) {
        let ghost before = vec@;
        let ghost head_ids = self.head.ids();
        self.head.to_typeid(vec);
        vec.push(self.args);
        assert(vec@ =~= before + head_ids.push(self.args));
    }
}

/// The ids of the types of a chain, the first link first.
pub fn make_deps<T: Dependable>(chain: T) -> (ids: Vec<TypeId>)
    ensures
        ids@ == chain.ids(),
{
    let mut ret = Vec::new();
    chain.to_typeid(&mut ret);
    assert(ret@ =~= chain.ids());
    ret
}

} // verus!
