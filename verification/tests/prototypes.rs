use ferrunix::dependencies::Dependency;
use ferrunix::types::Registerable;
use ferrunix::{Registry, Transient};
use std::any::Any;
use std::error::Error;

type Value = Box<dyn Any>;
type BoxErr = Box<dyn Error>;
type Ctor = Box<dyn Fn(Vec<Dependency<Value>>) -> Result<Value, BoxErr>>;
type Reg = Registry<Value, BoxErr, Ctor>;

/// A constructor without dependencies that never fails.
fn ctor<T: 'static>(make: impl Fn() -> T + 'static) -> Ctor {
    Box::new(move |_deps| Ok(Box::new(make()) as Value))
}

/// A constructor with dependencies that never fails.
fn ctor_deps<T: 'static>(make: impl Fn(Vec<Dependency<Value>>) -> T + 'static) -> Ctor {
    Box::new(move |deps| Ok(Box::new(make(deps)) as Value))
}

/// The value of a resolved transient, if it resolved.
fn get<T: 'static>(resolved: Result<Value, ferrunix::error::ResolveError<BoxErr>>) -> Option<T> {
    resolved.ok().map(|value| *value.downcast::<T>().expect("bug"))
}

/// The value of a resolved dependency.
fn transient<T: 'static>(dep: Dependency<Value>) -> T {
    *dep.transient().downcast::<T>().expect("bug")
}

#[derive(Debug, Default, PartialEq)]
struct TestObj {
    pub str: String,
    pub real: f64,
}

impl Registerable for TestObj {
    fn display_name() -> &'static str {
        "TestObj"
    }
}

#[test]
fn poc() {
    let mut registry: Reg = Registry::empty();
    registry.register_singleton::<u16>(ctor(|| 42_u16));
    registry.register_transient::<u8>(ctor(|| -> u8 { 42_u8 }));

    let obj = get::<u8>(registry.transient::<u8>());
    assert_eq!(obj, Some(42_u8));

    registry.register_transient::<TestObj>(ctor(TestObj::default));

    let obj2 = get::<TestObj>(registry.transient::<TestObj>());
    assert_eq!(
        obj2,
        Some(TestObj {
            str: String::default(),
            real: f64::default(),
        })
    );

    let obj3 = registry.singleton::<u16>().unwrap();
    assert_eq!(*(**obj3).downcast_ref::<u16>().unwrap(), 42_u16);
}

#[test]
fn pocdep() {
    let mut registry: Reg = Registry::empty();
    registry.register_transient::<u8>(ctor(|| -> u8 { 42_u8 }));
    registry
        .with_deps::<u16, (Transient<u8>,)>()
        .register_transient(ctor_deps(|mut deps| -> u16 {
            let i = deps.pop().map(transient::<u8>).expect("bug");
            u16::from(i) * 2
        }));

    let obj = get::<u8>(registry.transient::<u8>());
    assert_eq!(obj, Some(42_u8));

    let obj2 = get::<u16>(registry.transient::<u16>());
    assert_eq!(obj2, Some(84_u16));
}

#[test]
fn multiple_deps() {
    let mut registry: Reg = Registry::empty();
    registry.register_transient::<u8>(ctor(|| -> u8 { 42_u8 }));
    registry
        .with_deps::<u16, (Transient<u8>,)>()
        .register_transient(ctor_deps(|mut deps| -> u16 {
            let i = deps.pop().map(transient::<u8>).expect("bug");
            u16::from(i) + 2
        }));
    registry
        .with_deps::<u32, (Transient<u8>, Transient<u16>)>()
        .register_transient(ctor_deps(|mut deps| -> u32 {
            let i16 = deps.pop().map(transient::<u16>).expect("bug");
            let i8 = deps.pop().map(transient::<u8>).expect("bug");
            u32::from(i16) + u32::from(i8) + 2
        }));

    let obj = get::<u32>(registry.transient::<u32>());
    assert_eq!(obj, Some(88_u32));
}

#[test]
fn test_new() {
    let mut registry: Reg = Registry::empty();
    registry.register_transient::<u8>(ctor(|| 1_u8));

    let x = get::<u8>(registry.transient::<u8>());
    assert_eq!(x, Some(1_u8));

    registry
        .with_deps::<u16, (Transient<u8>,)>()
        .register_transient(ctor_deps(|mut deps| {
            let i = transient::<u8>(deps.remove(0));
            u16::from(i) + 1_u16
        }));

    let x1 = get::<u16>(registry.transient::<u16>());
    assert_eq!(x1, Some(2_u16));

    registry
        .with_deps::<u32, (Transient<u8>, Transient<u16>)>()
        .register_transient(ctor_deps(|mut deps| {
            let i = transient::<u8>(deps.remove(0));
            let j = transient::<u16>(deps.remove(0));
            u32::from(i) + u32::from(j) + 1_u32
        }));

    let x2 = get::<u32>(registry.transient::<u32>());
    assert_eq!(x2, Some(4_u32));
}
