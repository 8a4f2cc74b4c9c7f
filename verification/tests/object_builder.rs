use ferrunix::dependencies::{Dependency, Lifetime};
use ferrunix::error::ResolveError;
use ferrunix::object_builder::{Object, SingletonGetter, TransientBuilder};
use std::any::TypeId;
use std::cell::Cell;
use std::rc::Rc;

type Ctor = Box<dyn Fn(Vec<Dependency<u32>>) -> Result<u32, String>>;

/// The sum of the resolved dependencies, or an error where there is none.
fn sum() -> Ctor {
    Box::new(|deps| {
        if deps.is_empty() {
            return Err(String::from("nothing to add"));
        }
        Ok(deps
            .iter()
            .map(|dep| match dep {
                Dependency::Transient(value) => *value,
                Dependency::Singleton(value) => **value,
            })
            .sum())
    })
}

fn two_deps() -> (Vec<(TypeId, &'static str)>, Vec<Lifetime>) {
    (
        vec![(TypeId::of::<u8>(), "u8"), (TypeId::of::<u16>(), "u16")],
        vec![Lifetime::Transient, Lifetime::Singleton],
    )
}

fn args(first: u32, second: u32) -> Vec<Dependency<u32>> {
    vec![Dependency::Transient(first), Dependency::Singleton(Rc::new(second))]
}

#[test]
fn transient_builder_calls_its_constructor() {
    let (deps, lifetimes) = two_deps();
    let builder: TransientBuilder<u32, String, Ctor> = TransientBuilder::new(sum(), deps, lifetimes);

    assert_eq!(builder.dep_count(), 2);
    assert_eq!(builder.dep(0), (TypeId::of::<u8>(), "u8", Lifetime::Transient));
    assert_eq!(builder.dep(1), (TypeId::of::<u16>(), "u16", Lifetime::Singleton));
    assert_eq!(builder.make_transient(args(1, 2)).unwrap(), 3);
    assert_eq!(builder.make_transient(args(10, 20)).unwrap(), 30);
    match builder.make_transient(Vec::new()) {
        Err(ResolveError::Ctor(error)) => assert_eq!(error, "nothing to add"),
        _ => panic!("the constructor fails"),
    }
}

#[test]
fn singleton_getter_keeps_the_first_value() {
    let (deps, lifetimes) = two_deps();
    let mut getter: SingletonGetter<u32, String, Ctor> =
        SingletonGetter::new(sum(), deps, lifetimes);

    assert_eq!(getter.dep_count(), 2);
    assert_eq!(getter.dep(1), (TypeId::of::<u16>(), "u16", Lifetime::Singleton));
    assert!(getter.get().is_none());
    match getter.get_singleton(Vec::new()) {
        Err(ResolveError::Ctor(error)) => assert_eq!(error, "nothing to add"),
        _ => panic!("the constructor fails"),
    }
    assert!(getter.get().is_none());

    let first = getter.get_singleton(args(1, 2)).unwrap();
    assert_eq!(*first, 3);
    let kept = getter.get().unwrap();
    assert!(Rc::ptr_eq(&first, &kept));

    let second = getter.get_singleton(args(10, 20)).unwrap();
    assert!(Rc::ptr_eq(&first, &second));
    let third = getter.get_singleton(Vec::new()).unwrap();
    assert!(Rc::ptr_eq(&first, &third));
}

#[test]
fn singleton_getter_calls_its_constructor_once() {
    let calls = Rc::new(Cell::new(0_u32));
    let counter = Rc::clone(&calls);
    let ctor: Ctor = Box::new(move |_deps| {
        counter.set(counter.get() + 1);
        Ok(counter.get())
    });
    let mut getter: SingletonGetter<u32, String, Ctor> =
        SingletonGetter::new(ctor, Vec::new(), Vec::new());

    assert_eq!(*getter.get_singleton(Vec::new()).unwrap(), 1);
    assert_eq!(*getter.get_singleton(Vec::new()).unwrap(), 1);
    assert_eq!(calls.get(), 1);
}

#[test]
fn object_constructs_by_its_lifetime() {
    let (deps, lifetimes) = two_deps();
    let mut transient: Object<u32, String, Ctor> =
        Object::Transient(TransientBuilder::new(sum(), deps, lifetimes));
    assert_eq!(transient.kind(), Lifetime::Transient);
    assert_eq!(transient.dep_count(), 2);
    assert_eq!(transient.dep(0), (TypeId::of::<u8>(), "u8", Lifetime::Transient));
    assert!(transient.get().is_none());
    match transient.construct(args(1, 2)) {
        Ok(Dependency::Transient(value)) => assert_eq!(value, 3),
        _ => panic!("a transient is constructed"),
    }
    assert!(transient.get().is_none());
    assert!(matches!(transient.construct(Vec::new()), Err(ResolveError::Ctor(_))));

    let mut singleton: Object<u32, String, Ctor> =
        Object::Singleton(SingletonGetter::new(sum(), Vec::new(), Vec::new()));
    assert_eq!(singleton.kind(), Lifetime::Singleton);
    assert_eq!(singleton.dep_count(), 0);
    assert!(matches!(singleton.construct(Vec::new()), Err(ResolveError::Ctor(_))));
    assert!(singleton.get().is_none());
    let Ok(Dependency::Singleton(made)) = singleton.construct(args(4, 5)) else {
        panic!("a singleton is constructed")
    };
    assert_eq!(*made, 9);
    assert!(Rc::ptr_eq(&made, &singleton.get().unwrap()));
    let Ok(Dependency::Singleton(again)) = singleton.construct(Vec::new()) else {
        panic!("the singleton is kept")
    };
    assert!(Rc::ptr_eq(&made, &again));
}
