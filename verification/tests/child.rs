#![allow(clippy::unwrap_used, clippy::panic, dead_code)]

use ferrunix::dependencies::Dependency;
use ferrunix::{Ref, Registry};
use std::any::Any;
use std::error::Error;

type Value = Box<dyn Any>;
type BoxErr = Box<dyn Error>;
type Ctor = Box<dyn Fn(Vec<Dependency<Value>>) -> Result<Value, BoxErr>>;
type Reg = Registry<Value, BoxErr, Ctor>;

/// A constructor without dependencies that never fails.
fn ctor<T: 'static>(make: impl Fn() -> T + 'static) -> Ctor {
    Box::new(move |_deps| Ok(Box::new(make()) as Value))
}

/// The value of a resolved transient.
fn value<T: 'static>(resolved: Value) -> T {
    *resolved.downcast::<T>().unwrap()
}

/// The value of a resolved singleton.
fn deref<T: 'static + Copy>(resolved: Ref<Value>) -> T {
    *(**resolved).downcast_ref::<T>().unwrap()
}

#[test]
fn simple_child() {
    let mut registry: Reg = Registry::empty();
    registry.register_transient::<u8>(ctor(|| 5_u8));
    registry.register_singleton::<u16>(ctor(|| 5_u16));
    registry.validate_all_full().unwrap();

    let mut child1 = registry.child();
    child1.register_transient::<u8>(ctor(|| 0_u8));
    child1.validate_all_full().unwrap();

    assert_eq!(value::<u8>(child1.transient::<u8>().unwrap()), 0_u8);
    assert_eq!(deref::<u16>(child1.singleton::<u16>().unwrap()), 5_u16);

    let mut registry = child1.into_parent().unwrap();

    assert_eq!(value::<u8>(registry.transient::<u8>().unwrap()), 5_u8);
    assert_eq!(deref::<u16>(registry.singleton::<u16>().unwrap()), 5_u16);

    let mut child2 = registry.child();
    child2.register_singleton::<u32>(ctor(|| 0_u32));
    child2.validate_all_full().unwrap();

    assert_eq!(value::<u8>(child2.transient::<u8>().unwrap()), 5_u8);
    assert_eq!(deref::<u16>(child2.singleton::<u16>().unwrap()), 5_u16);
    assert_eq!(deref::<u32>(child2.singleton::<u32>().unwrap()), 0_u32);
}
