#![allow(unused)]

use ferrunix::dependencies::Dependency;
use ferrunix::types::Registerable;
use ferrunix::{Registry, Transient};
use std::any::Any;
use std::error::Error;

type Value = Box<dyn Any>;
type BoxErr = Box<dyn Error>;
type Ctor = Box<dyn Fn(Vec<Dependency<Value>>) -> Result<Value, BoxErr>>;
type Reg = Registry<Value, BoxErr, Ctor>;

/// A constructor without dependencies that never fails.
fn ctor<T: 'static>(make: impl Fn() -> T + 'static) -> Ctor {
    Box::new(move |_deps| Ok(Box::new(make()) as Value))
}

/// A constructor that takes one transient dependency of the type `D`.
fn ctor_of<D: 'static, T: 'static>(make: impl Fn(D) -> T + 'static) -> Ctor {
    Box::new(move |mut deps| {
        let dep = *deps.remove(0).transient().downcast::<D>().unwrap();
        Ok(Box::new(make(dep)) as Value)
    })
}

pub(crate) struct TypeZero {
    pub(crate) dep0: Box<Dep0>,
}

pub(crate) struct Dep0 {
    pub(crate) dep1: Box<Dep1>,
}

pub(crate) struct Dep1 {
    pub(crate) dep2: Box<Dep2>,
}

pub(crate) struct Dep2 {
    pub(crate) dep0: Option<Box<Dep0>>,
}

pub(crate) struct Dep3 {
    pub(crate) dep_missing: Box<DepMissing>,
}

pub(crate) struct DepMissing {}

impl Registerable for TypeZero {
    fn display_name() -> &'static str {
        "TypeZero"
    }
}

impl Registerable for Dep0 {
    fn display_name() -> &'static str {
        "Dep0"
    }
}

impl Registerable for Dep1 {
    fn display_name() -> &'static str {
        "Dep1"
    }
}

impl Registerable for Dep2 {
    fn display_name() -> &'static str {
        "Dep2"
    }
}

impl Registerable for Dep3 {
    fn display_name() -> &'static str {
        "Dep3"
    }
}

impl Registerable for DepMissing {
    fn display_name() -> &'static str {
        "DepMissing"
    }
}

#[test]
fn detect_cycle() {
    let mut registry: Reg = Registry::empty();
    registry
        .with_deps::<TypeZero, (Transient<Dep0>,)>()
        .register_transient(ctor_of(|dep0: Dep0| TypeZero {
            dep0: Box::new(dep0),
        }));

    registry
        .with_deps::<Dep0, (Transient<Dep1>,)>()
        .register_transient(ctor_of(|dep1: Dep1| Dep0 {
            dep1: Box::new(dep1),
        }));

    registry
        .with_deps::<Dep1, (Transient<Dep2>,)>()
        .register_transient(ctor_of(|dep2: Dep2| Dep1 {
            dep2: Box::new(dep2),
        }));

    registry
        .with_deps::<Dep2, (Transient<Dep0>,)>()
        .register_transient(ctor_of(|dep0: Dep0| Dep2 {
            dep0: Some(Box::new(dep0)),
        }));

    assert!(registry.validate::<TypeZero>().is_err());
    assert!(registry.validate_all().is_err());
    assert!(registry.validate_all_full().is_err());
}

#[test]
fn detect_missing() {
    let mut registry: Reg = Registry::empty();
    registry
        .with_deps::<TypeZero, (Transient<Dep0>,)>()
        .register_transient(ctor_of(|dep0: Dep0| TypeZero {
            dep0: Box::new(dep0),
        }));

    registry
        .with_deps::<Dep0, (Transient<Dep1>,)>()
        .register_transient(ctor_of(|dep1: Dep1| Dep0 {
            dep1: Box::new(dep1),
        }));

    registry
        .with_deps::<Dep1, (Transient<Dep2>,)>()
        .register_transient(ctor_of(|dep2: Dep2| Dep1 {
            dep2: Box::new(dep2),
        }));

    registry
        .with_deps::<Dep3, (Transient<DepMissing>,)>()
        .register_transient(ctor_of(|dep_missing: DepMissing| Dep3 {
            dep_missing: Box::new(dep_missing),
        }));

    assert!(registry.validate::<TypeZero>().is_err());
    assert!(registry.validate_all().is_err());
    assert!(registry.validate_all_full().is_err());
}

#[test]
fn all_fine() {
    let mut registry: Reg = Registry::empty();
    registry
        .with_deps::<TypeZero, (Transient<Dep0>,)>()
        .register_transient(ctor_of(|dep0: Dep0| TypeZero {
            dep0: Box::new(dep0),
        }));

    registry
        .with_deps::<Dep0, (Transient<Dep1>,)>()
        .register_transient(ctor_of(|dep1: Dep1| Dep0 {
            dep1: Box::new(dep1),
        }));

    registry
        .with_deps::<Dep1, (Transient<Dep2>,)>()
        .register_transient(ctor_of(|dep2: Dep2| Dep1 {
            dep2: Box::new(dep2),
        }));

    registry.register_transient::<Dep2>(ctor(|| Dep2 { dep0: None }));

    registry.validate::<TypeZero>().unwrap();
    registry.validate_all().unwrap();
    registry.validate_all_full().unwrap();
}
