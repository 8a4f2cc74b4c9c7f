//! Type identities and the marker traits shared by the whole crate.

use std::any::TypeId;
use std::marker::PhantomData;
use vstd::prelude::*;

verus! {

/// `std::any::TypeId`, carried around as an opaque value. Two ids are equal in
/// specifications exactly when they are the same id.
#[verifier::external_type_specification]
#[verifier::external_body]
pub struct ExTypeId(TypeId);

/// The id of the type `T`: one fixed id per type, of which nothing else is known.
pub open spec fn type_id_of<T: ?Sized>() -> TypeId {
    arbitrary::<(TypeId, PhantomData<T>)>().0
}

/// `TypeId::of` depends on the type alone: every call for the same `T` gives
/// the same id. Nothing is claimed about the ids of different types.
pub assume_specification<T: ?Sized + 'static>[ TypeId::of::<T> ]() -> (id: TypeId)
    ensures
        id == type_id_of::<T>(),
;

/// The id of the type `T`.
pub fn type_id<T: 'static>() -> (id: TypeId)
    ensures
        id == type_id_of::<T>(),
{
    TypeId::of::<T>()
}

/// The text that `{:?}` writes for a type id.
pub uninterp spec fn type_id_debug(id: TypeId) -> Seq<char>;

/// `TypeId`'s `Debug`: the text written with `{:?}`, which depends on the id
/// alone.
#[verifier::external_body]
pub(crate) fn type_id_text(id: &TypeId) -> (text: String)
    ensures
        text@ == type_id_debug(*id),
{
    format!("{:?}", id)
}

/// `String::push_str`: appends `piece` to the end of `text`.
#[verifier::external_body]
pub(crate) fn push_str(text: &mut String, piece: &str)
    ensures
        final(text)@ == old(text)@ + piece@,
{
    text.push_str(piece);
}

/// A type that can be registered: it outlives every registry, and it has a
/// display name for diagnostics.
pub trait Registerable: 'static {
    /// The display name of the type: one fixed text for each type. An
    /// implementation that does not tell it leaves it unknown.
    open spec fn name() -> Seq<char> {
        arbitrary::<(Seq<char>, PhantomData<Self>)>().0
    }

    /// The display name of the type. It serves diagnostics only.
    fn display_name() -> (name: &'static str)
        ensures
            name@ == Self::name(),
    ;
}

/// A type that can be registered as a singleton: one value is shared by all
/// who resolve it.
pub trait RegisterableSingleton: Registerable {

}

impl<T: Registerable> RegisterableSingleton for T {

}

impl Registerable for () {
    open spec fn name() -> Seq<char> {
        "()"@
    }

    fn display_name() -> (name: &'static str) {
        "()"
    }
}

impl Registerable for bool {
    open spec fn name() -> Seq<char> {
        "bool"@
    }

    fn display_name() -> (name: &'static str) {
        "bool"
    }
}

impl Registerable for char {
    open spec fn name() -> Seq<char> {
        "char"@
    }

    fn display_name() -> (name: &'static str) {
        "char"
    }
}

impl Registerable for u8 {
    open spec fn name() -> Seq<char> {
        "u8"@
    }

    fn display_name() -> (name: &'static str) {
        "u8"
    }
}

impl Registerable for u16 {
    open spec fn name() -> Seq<char> {
        "u16"@
    }

    fn display_name() -> (name: &'static str) {
        "u16"
    }
}

impl Registerable for u32 {
    open spec fn name() -> Seq<char> {
        "u32"@
    }

    fn display_name() -> (name: &'static str) {
        "u32"
    }
}

impl Registerable for u64 {
    open spec fn name() -> Seq<char> {
        "u64"@
    }

    fn display_name() -> (name: &'static str) {
        "u64"
    }
}

impl Registerable for u128 {
    open spec fn name() -> Seq<char> {
        "u128"@
    }

    fn display_name() -> (name: &'static str) {
        "u128"
    }
}

impl Registerable for usize {
    open spec fn name() -> Seq<char> {
        "usize"@
    }

    fn display_name() -> (name: &'static str) {
        "usize"
    }
}

impl Registerable for i8 {
    open spec fn name() -> Seq<char> {
        "i8"@
    }

    fn display_name() -> (name: &'static str) {
        "i8"
    }
}

impl Registerable for i16 {
    open spec fn name() -> Seq<char> {
        "i16"@
    }

    fn display_name() -> (name: &'static str) {
        "i16"
    }
}

impl Registerable for i32 {
    open spec fn name() -> Seq<char> {
        "i32"@
    }

    fn display_name() -> (name: &'static str) {
        "i32"
    }
}

impl Registerable for i64 {
    open spec fn name() -> Seq<char> {
        "i64"@
    }

    fn display_name() -> (name: &'static str) {
        "i64"
    }
}

impl Registerable for i128 {
    open spec fn name() -> Seq<char> {
        "i128"@
    }

    fn display_name() -> (name: &'static str) {
        "i128"
    }
}

impl Registerable for isize {
    open spec fn name() -> Seq<char> {
        "isize"@
    }

    fn display_name() -> (name: &'static str) {
        "isize"
    }
}

impl Registerable for String {
    open spec fn name() -> Seq<char> {
        "alloc::string::String"@
    }

    fn display_name() -> (name: &'static str) {
        "alloc::string::String"
    }
}

impl Registerable for &'static str {
    open spec fn name() -> Seq<char> {
        "&str"@
    }

    fn display_name() -> (name: &'static str) {
        "&str"
    }
}

} // verus!
