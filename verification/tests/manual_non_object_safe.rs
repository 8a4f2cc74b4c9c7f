use ferrunix::dependencies::Dependency;
use ferrunix::types::Registerable;
use ferrunix::Registry;
use std::any::Any;
use std::error::Error;

type Value = Box<dyn Any>;
type BoxErr = Box<dyn Error>;
type Ctor = Box<dyn Fn(Vec<Dependency<Value>>) -> Result<Value, BoxErr>>;
type Reg = Registry<Value, BoxErr, Ctor>;

/// A constructor without dependencies that never fails.
fn ctor<T: 'static>(make: impl Fn() -> T + 'static) -> Ctor {
    Box::new(move |_deps| Ok(Box::new(make()) as Value))
}

#[derive(Debug, Default, PartialEq, PartialOrd, Hash)]
struct ExampleStruct {
    num: u32,
    some_string: String,
}

impl Registerable for ExampleStruct {
    fn display_name() -> &'static str {
        "ExampleStruct"
    }
}

trait NotObjectSafe {
    fn returned(&self) -> Self;
}

impl NotObjectSafe for ExampleStruct {
    fn returned(&self) -> Self {
        Self {
            num: 1,
            some_string: "2".to_owned(),
        }
    }
}

#[test]
fn can_store_objecs_impl_non_object_safe_traits() {
    let mut registry: Reg = Registry::empty();
    registry.register_transient::<ExampleStruct>(ctor(|| ExampleStruct {
        num: 0,
        some_string: "1".to_owned(),
    }));

    let example = *registry
        .transient::<ExampleStruct>()
        .unwrap()
        .downcast::<ExampleStruct>()
        .unwrap();
    let ret = example.returned();
    assert_eq!(ret.num, 1);
    assert_eq!(ret.some_string, "2");
}
