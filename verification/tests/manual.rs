#![allow(clippy::unwrap_used, clippy::panic, dead_code)]

use ferrunix::dependencies::Dependency;
use ferrunix::error::ResolveError;
use ferrunix::types::Registerable;
use ferrunix::{Registry, Singleton, Transient};
use std::any::Any;
use std::error::Error;

type Value = Box<dyn Any>;
type BoxErr = Box<dyn Error>;
type Ctor = Box<dyn Fn(Vec<Dependency<Value>>) -> Result<Value, BoxErr>>;
type Reg = Registry<Value, BoxErr, Ctor>;

/// A constructor without dependencies that never fails.
fn ctor<T: 'static>(make: impl Fn() -> T + 'static) -> Ctor {
    Box::new(move |_deps| Ok(Box::new(make()) as Value))
}

/// A constructor without dependencies that may fail.
fn try_ctor<T: 'static>(make: impl Fn() -> Result<T, BoxErr> + 'static) -> Ctor {
    Box::new(move |_deps| make().map(|value| Box::new(value) as Value))
}

/// A constructor with dependencies that never fails.
fn ctor_deps<T: 'static>(make: impl Fn(Vec<Dependency<Value>>) -> T + 'static) -> Ctor {
    Box::new(move |deps| Ok(Box::new(make(deps)) as Value))
}

/// A constructor with dependencies that may fail.
fn try_ctor_deps<T: 'static>(
    make: impl Fn(Vec<Dependency<Value>>) -> Result<T, BoxErr> + 'static,
) -> Ctor {
    Box::new(move |deps| make(deps).map(|value| Box::new(value) as Value))
}

/// The value of a resolved transient.
fn value<T: 'static>(resolved: Value) -> T {
    *resolved.downcast::<T>().unwrap()
}

/// The value of the transient dependency at the place `at`.
fn owned<T: 'static + Copy>(deps: &mut Vec<Dependency<Value>>, at: usize) -> T {
    match &deps[at] {
        Dependency::Transient(value) => *value.downcast_ref::<T>().unwrap(),
        Dependency::Singleton(_) => panic!("a transient was asked for"),
    }
}

/// The value of the singleton dependency at the place `at`.
fn shared<T: 'static + Copy>(deps: &[Dependency<Value>], at: usize) -> T {
    *(**deps[at].singleton()).downcast_ref::<T>().unwrap()
}

/// The value of a resolved singleton.
fn deref<T: 'static + Clone>(resolved: &ferrunix::Ref<Value>) -> T {
    (**resolved).downcast_ref::<T>().unwrap().clone()
}

#[test]
fn simple_registry_concrete_types() {
    let mut registry: Reg = Registry::empty();
    registry.register_transient::<u8>(ctor(|| 1_u8));
    registry.register_singleton::<String>(ctor(|| String::from("Hello, World")));

    registry
        .with_deps::<u16, (Transient<u8>,)>()
        .register_transient(ctor_deps(|mut deps| {
            let i: u8 = owned(&mut deps, 0);
            u16::from(i) + 1_u16
        }));

    registry
        .with_deps::<u32, (Transient<u8>, Transient<u16>)>()
        .register_transient(ctor_deps(|mut deps| {
            let i: u8 = owned(&mut deps, 0);
            let j: u16 = owned(&mut deps, 1);
            u32::from(i) + u32::from(j) + 1_u32
        }));

    registry.validate_all().unwrap();

    let x = registry.transient::<u8>();
    assert_eq!(value::<u8>(x.unwrap()), 1_u8);

    let x1 = registry.transient::<u16>();
    assert_eq!(value::<u16>(x1.unwrap()), 2_u16);

    let x2 = registry.transient::<u32>();
    assert_eq!(value::<u32>(x2.unwrap()), 4_u32);

    let s1 = registry.singleton::<String>().unwrap();
    assert_eq!(&deref::<String>(&s1), &"Hello, World".to_owned());
}

#[test]
fn singletons_without_deps() {
    let mut registry: Reg = Registry::empty();
    registry.register_transient::<u8>(ctor(|| 1_u8));
    registry.register_transient::<u16>(ctor(|| 1_u16));
    registry.register_transient::<u32>(ctor(|| 1_u32));
    registry.register_singleton::<i8>(ctor(|| 8_i8));
    registry.register_singleton::<i16>(ctor(|| 16_i16));
    registry.register_singleton::<i32>(ctor(|| 32_i32));

    registry.validate_all().unwrap();

    let x1 = registry.singleton::<i8>();
    assert_eq!(deref::<i8>(&x1.unwrap()), 8_i8);
    let x2 = registry.singleton::<i16>();
    assert_eq!(deref::<i16>(&x2.unwrap()), 16_i16);
    let x3 = registry.singleton::<i32>();
    assert_eq!(deref::<i32>(&x3.unwrap()), 32_i32);
}

#[test]
fn singletons_with_deps() {
    let mut registry: Reg = Registry::empty();
    registry.register_transient::<u8>(ctor(|| 1_u8));
    registry.register_singleton::<i8>(ctor(|| 8_i8));

    registry
        .with_deps::<i32, (Transient<u8>, Singleton<i8>)>()
        .register_singleton(ctor_deps(|mut deps| {
            let i: u8 = owned(&mut deps, 0);
            let j: i8 = shared(&deps, 1);
            i32::from(i) + i32::from(j)
        }));

    registry.validate_all().unwrap();

    let x1 = registry.transient::<u8>();
    assert_eq!(value::<u8>(x1.unwrap()), 1_u8);
    let x2 = registry.singleton::<i8>();
    assert_eq!(deref::<i8>(&x2.unwrap()), 8_i8);
    let x3 = registry.singleton::<i32>();
    assert_eq!(deref::<i32>(&x3.unwrap()), 9_i32);
}

#[test]
fn validate_failure_missing_dependencies() {
    let mut registry: Reg = Registry::empty();

    registry
        .with_deps::<u16, (Transient<u8>,)>()
        .register_transient(ctor_deps(|mut deps| {
            let i: u8 = owned(&mut deps, 0);
            u16::from(i) + 1_u16
        }));

    registry
        .with_deps::<u32, (Transient<u8>, Transient<u16>)>()
        .register_transient(ctor_deps(|mut deps| {
            let i: u8 = owned(&mut deps, 0);
            let j: u16 = owned(&mut deps, 1);
            u32::from(i) + u32::from(j) + 1_u32
        }));

    assert!(
        registry.validate_all().is_err(),
        "should fail due to missing u8 dependency"
    );

    let x1 = registry.transient::<u16>();
    x1.unwrap_err();

    let x2 = registry.transient::<u32>();
    x2.unwrap_err();

    let s1 = registry.singleton::<String>();
    s1.unwrap_err();
}

#[test]
fn test_fallible_transient_success() {
    let mut registry: Reg = Registry::empty();
    registry.try_register_transient::<u8>(try_ctor(|| Ok(1_u8)));
    registry
        .with_deps::<u16, (Transient<u8>,)>()
        .try_register_transient(try_ctor_deps(|mut deps| {
            let first: u8 = owned(&mut deps, 0);
            Ok(u16::from(first + 15))
        }));
    registry.register_transient::<u32>(ctor(|| 1_u32));
    registry.validate_all_full().unwrap();

    let x = registry.transient::<u8>();
    assert_eq!(value::<u8>(x.unwrap()), 1_u8);
    let x1 = registry.transient::<u16>();
    assert_eq!(value::<u16>(x1.unwrap()), 16_u16);
    let x2 = registry.transient::<u32>();
    assert_eq!(value::<u32>(x2.unwrap()), 1_u32);
}

#[test]
fn test_fallible_singleton_success() {
    let mut registry: Reg = Registry::empty();
    registry.try_register_singleton::<u8>(try_ctor(|| Ok(1_u8)));
    registry
        .with_deps::<u16, (Singleton<u8>,)>()
        .try_register_singleton(try_ctor_deps(|deps| {
            let first: u8 = shared(&deps, 0);
            Ok(u16::from(first + 15))
        }));
    registry.register_singleton::<u32>(ctor(|| 1_u32));
    registry.validate_all_full().unwrap();

    let x = registry.singleton::<u8>();
    assert_eq!(deref::<u8>(&x.unwrap()), 1_u8);
    let x1 = registry.singleton::<u16>();
    assert_eq!(deref::<u16>(&x1.unwrap()), 16_u16);
    let x2 = registry.singleton::<u32>();
    assert_eq!(deref::<u32>(&x2.unwrap()), 1_u32);
}

#[test]
fn test_fallible_transient_error_simple() {
    let mut registry: Reg = Registry::empty();
    registry.try_register_transient::<u8>(try_ctor::<u8>(|| {
        Err(Box::new(std::io::Error::other("number too large")))
    }));

    registry.validate_all_full().unwrap();

    let x1 = registry.transient::<u8>();
    x1.unwrap_err();
}

#[test]
fn test_fallible_transient_error() {
    let mut registry: Reg = Registry::empty();
    registry.try_register_transient::<u16>(try_ctor(|| Ok(1000_u16)));
    registry
        .with_deps::<u8, (Transient<u16>,)>()
        .try_register_transient(try_ctor_deps(|mut deps| {
            let first: u16 = owned(&mut deps, 0);
            if first > 240 {
                return Err(Box::new(std::io::Error::other("number too large")) as BoxErr);
            }
            Ok((first + 15) as u8)
        }));
    registry.register_transient::<u32>(ctor(|| 1_u32));
    registry.validate_all_full().unwrap();

    let x = registry.transient::<u16>();
    assert_eq!(value::<u16>(x.unwrap()), 1000_u16);
    let x1 = registry.transient::<u8>();
    assert!(x1.is_err());
    assert!(x1.as_ref().unwrap_err().is_ctor_err());
    let Err(ResolveError::Ctor(_x1err)) = x1 else {
        panic!("wrong error returned")
    };
    let x2 = registry.transient::<u32>();
    assert_eq!(value::<u32>(x2.unwrap()), 1_u32);
}

#[test]
fn test_fallible_singleton_error() {
    let mut registry: Reg = Registry::empty();
    registry.try_register_singleton::<u16>(try_ctor(|| Ok(1000_u16)));
    registry
        .with_deps::<u8, (Singleton<u16>,)>()
        .try_register_singleton(try_ctor_deps(|deps| {
            let first: u16 = shared(&deps, 0);
            if first > 240 {
                return Err(Box::new(std::io::Error::other("number too large")) as BoxErr);
            }
            Ok((first + 15) as u8)
        }));
    registry.register_singleton::<u32>(ctor(|| 1_u32));
    registry.validate_all_full().unwrap();

    let x = registry.singleton::<u16>();
    assert_eq!(deref::<u16>(&x.unwrap()), 1000_u16);
    let x1 = registry.singleton::<u8>();
    x1.unwrap_err();
    let x2 = registry.singleton::<u32>();
    assert_eq!(deref::<u32>(&x2.unwrap()), 1_u32);
}

#[test]
#[should_panic]
#[allow(clippy::should_panic_without_expect)]
fn panic_when_registered_twice_diff() {
    let mut registry: Reg = Registry::empty();
    registry.register_transient::<u8>(ctor(|| 1_u8));
    registry.register_singleton::<u8>(ctor(|| 1_u8));
}

#[test]
#[should_panic]
#[allow(clippy::should_panic_without_expect)]
fn panic_when_registered_twice_transient() {
    let mut registry: Reg = Registry::empty();
    registry.register_transient::<u8>(ctor(|| 1_u8));
    registry.register_transient::<u8>(ctor(|| 1_u8));
}

#[test]
#[should_panic]
#[allow(clippy::should_panic_without_expect)]
fn panic_when_registered_twice_singleton() {
    let mut registry: Reg = Registry::empty();
    registry.register_singleton::<u8>(ctor(|| 1_u8));
    registry.register_singleton::<u8>(ctor(|| 1_u8));
}

#[derive(Debug)]
struct NotClone {
    inner: String,
}

impl Registerable for NotClone {
    fn display_name() -> &'static str {
        "NotClone"
    }
}

#[test]
fn register_not_clone() {
    let mut registry: Reg = Registry::empty();
    registry.register_transient::<NotClone>(ctor(|| NotClone {
        inner: String::new(),
    }));

    let _not_clone = value::<NotClone>(registry.transient::<NotClone>().unwrap());
}

struct TupleWithStatic(&'static str);

impl Registerable for TupleWithStatic {
    fn display_name() -> &'static str {
        "TupleWithStatic"
    }
}

#[test]
fn register_static_lifetime() {
    let mut registry: Reg = Registry::empty();
    registry.register_transient::<TupleWithStatic>(ctor(|| TupleWithStatic("TEST")));
}
