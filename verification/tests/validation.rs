use ferrunix::cycle_detection::{
    DependencyValidator, FullValidationError, ValidationError, VisitorContext,
};
use ferrunix::dependencies::Dependency;
use ferrunix::types::Registerable;
use ferrunix::{Registry, Singleton, Transient};
use std::any::{Any, TypeId};
use std::collections::BTreeSet;
use std::error::Error;

type Value = Box<dyn Any>;
type BoxErr = Box<dyn Error>;
type Ctor = Box<dyn Fn(Vec<Dependency<Value>>) -> Result<Value, BoxErr>>;
type Reg = Registry<Value, BoxErr, Ctor>;

fn unit() -> Ctor {
    Box::new(|_deps| Ok(Box::new(()) as Value))
}

struct T0;
struct Dep0;
struct Dep1;
struct Dep2;

impl Registerable for T0 {
    fn display_name() -> &'static str {
        "T0"
    }
}

impl Registerable for Dep0 {
    fn display_name() -> &'static str {
        "Dep0"
    }
}

impl Registerable for Dep1 {
    fn display_name() -> &'static str {
        "Dep1"
    }
}

impl Registerable for Dep2 {
    fn display_name() -> &'static str {
        "Dep2"
    }
}

/// The node names and the edges, by node names, of a graph written in `dot`.
fn read_dot(text: &str) -> (BTreeSet<String>, BTreeSet<(String, String)>) {
    let mut names: Vec<(String, String)> = Vec::new();
    let mut pairs: Vec<(String, String)> = Vec::new();
    for line in text.lines() {
        let line = line.trim();
        if let Some((from, to)) = line.split_once(" -> ") {
            let to = to.split_whitespace().next().unwrap();
            pairs.push((from.to_owned(), to.to_owned()));
        } else if let Some((node, rest)) = line.split_once(" [") {
            let start = rest.find("\\\"").unwrap() + 2;
            let end = rest.rfind("\\\"").unwrap();
            names.push((node.to_owned(), rest[start..end].to_owned()));
        }
    }
    let name_of = |node: &String| {
        names
            .iter()
            .find(|(number, _)| number == node)
            .map(|(_, name)| name.clone())
            .unwrap()
    };
    let nodes: BTreeSet<String> = names.iter().map(|(_, name)| name.clone()).collect();
    assert_eq!(nodes.len(), names.len());
    let edges = pairs
        .iter()
        .map(|(from, to)| (name_of(from), name_of(to)))
        .collect();
    (nodes, edges)
}

#[test]
fn empty_registry_is_valid() {
    let mut registry: Reg = Registry::empty();
    assert_eq!(registry.validate_all(), Ok(()));
    assert_eq!(registry.validate_all_full(), Ok(()));
    assert_eq!(registry.validate::<u8>(), Ok(()));
    let (nodes, edges) = read_dot(&registry.dotgraph().unwrap());
    assert!(nodes.is_empty());
    assert!(edges.is_empty());
}

#[test]
fn validation_follows_the_registrations() {
    let mut registry: Reg = Registry::empty();
    registry.register_transient::<u8>(unit());
    assert_eq!(registry.validate_all(), Ok(()));
    assert_eq!(registry.validate_all(), Ok(()));

    registry.with_deps::<u16, (Transient<u8>,)>().register_transient(unit());
    assert_eq!(registry.validate_all(), Ok(()));

    registry.with_deps::<u32, (Transient<u64>,)>().register_transient(unit());
    assert_eq!(registry.validate_all(), Err(ValidationError::Missing));
    assert_eq!(registry.validate_all(), Err(ValidationError::Missing));

    registry.with_deps::<u64, (Singleton<u32>,)>().register_singleton(unit());
    assert_eq!(registry.validate_all(), Err(ValidationError::Cycle));
    assert_eq!(registry.validate_all(), Err(ValidationError::Cycle));
    assert_eq!(registry.validate::<u8>(), Err(ValidationError::Cycle));
}

#[test]
fn missing_is_reported_before_a_cycle() {
    let mut registry: Reg = Registry::empty();
    registry.with_deps::<Dep0, (Transient<Dep1>,)>().register_transient(unit());
    registry.with_deps::<Dep1, (Transient<Dep0>,)>().register_transient(unit());
    assert_eq!(registry.validate_all(), Err(ValidationError::Cycle));

    registry.with_deps::<T0, (Transient<Dep2>,)>().register_transient(unit());
    assert_eq!(registry.validate_all(), Err(ValidationError::Missing));
    assert!(matches!(
        registry.validate_all_full(),
        Err(FullValidationError::Missing(_))
    ));
    assert_eq!(registry.dotgraph(), Err(ValidationError::Missing));
}

#[test]
fn full_validation_lists_what_is_missing() {
    let mut registry: Reg = Registry::empty();
    registry.with_deps::<u16, (Transient<u8>,)>().register_transient(unit());

    assert_eq!(registry.validate_all(), Err(ValidationError::Missing));
    let Err(FullValidationError::Missing(report)) = registry.validate_all_full() else {
        panic!("a dependency is missing")
    };
    assert_eq!(report.len(), 1);
    assert_eq!(report[0].ty(), &(TypeId::of::<u16>(), "u16"));
    assert_eq!(report[0].missing_dependencies(), &[(TypeId::of::<u8>(), "u8")]);
}

#[test]
fn full_validation_lists_every_owner_once() {
    let mut registry: Reg = Registry::empty();
    registry.register_transient::<u8>(unit());
    registry
        .with_deps::<u16, (Transient<i8>, Transient<u8>, Singleton<i16>, Transient<i8>)>()
        .register_transient(unit());
    registry
        .with_deps::<u32, (Transient<u16>, Transient<i32>)>()
        .register_transient(unit());
    registry
        .with_deps::<u64, (Transient<u32>, Transient<u16>, Transient<u8>)>()
        .register_transient(unit());

    let Err(FullValidationError::Missing(mut report)) = registry.validate_all_full() else {
        panic!("dependencies are missing")
    };
    report.sort_by_key(|entry| entry.ty().1);
    assert_eq!(report.len(), 2);
    assert_eq!(report[0].ty(), &(TypeId::of::<u16>(), "u16"));
    assert_eq!(
        report[0].missing_dependencies(),
        &[
            (TypeId::of::<i8>(), "i8"),
            (TypeId::of::<i16>(), "i16"),
            (TypeId::of::<i8>(), "i8"),
        ]
    );
    assert_eq!(report[1].ty(), &(TypeId::of::<u32>(), "u32"));
    assert_eq!(report[1].missing_dependencies(), &[(TypeId::of::<i32>(), "i32")]);
}

#[test]
fn full_validation_names_a_type_on_the_cycle() {
    let mut registry: Reg = Registry::empty();
    registry.with_deps::<T0, (Transient<Dep0>,)>().register_transient(unit());
    registry.with_deps::<Dep0, (Transient<Dep1>,)>().register_transient(unit());
    registry.with_deps::<Dep1, (Transient<Dep2>,)>().register_transient(unit());
    registry.with_deps::<Dep2, (Transient<Dep0>,)>().register_transient(unit());

    assert_eq!(registry.validate_all(), Err(ValidationError::Cycle));
    let Err(FullValidationError::Cycle(Some(name))) = registry.validate_all_full() else {
        panic!("the dependencies form a cycle")
    };
    assert!(["Dep0", "Dep1", "Dep2"].contains(&name.as_str()));
    assert_eq!(registry.dotgraph(), Err(ValidationError::Cycle));
}

#[test]
fn dotgraph_shows_the_types_and_their_dependencies() {
    let mut registry: Reg = Registry::empty();
    registry.with_deps::<T0, (Transient<Dep0>, Singleton<Dep2>)>().register_transient(unit());
    registry.with_deps::<Dep0, (Transient<Dep1>,)>().register_transient(unit());
    registry.with_deps::<Dep1, (Singleton<Dep2>,)>().register_transient(unit());
    registry.register_singleton::<Dep2>(unit());
    registry.register_transient::<u8>(unit());

    let text = registry.dotgraph().unwrap();
    assert!(text.starts_with("digraph {"));
    let (nodes, edges) = read_dot(&text);
    let expected_nodes: BTreeSet<String> = ["T0", "Dep0", "Dep1", "Dep2", "u8"]
        .iter()
        .map(|name| (*name).to_owned())
        .collect();
    let expected_edges: BTreeSet<(String, String)> = [
        ("T0", "Dep0"),
        ("T0", "Dep2"),
        ("Dep0", "Dep1"),
        ("Dep1", "Dep2"),
    ]
    .iter()
    .map(|(from, to)| ((*from).to_owned(), (*to).to_owned()))
    .collect();
    assert_eq!(nodes, expected_nodes);
    assert_eq!(edges, expected_edges);
    assert_eq!(registry.dotgraph().unwrap(), text);
}

#[test]
fn dotgraph_of_one_type_is_one_node() {
    let mut registry: Reg = Registry::empty();
    registry.register_transient::<u8>(unit());
    assert_eq!(
        registry.dotgraph().unwrap(),
        "digraph {\n    0 [ label = \"\\\"u8\\\"\" ]\n}\n"
    );
}

#[test]
fn validator_alone_validates() {
    let mut validator = DependencyValidator::new();
    assert_eq!(validator.validate_all(), Ok(()));
    assert!(!validator.is_registered(&TypeId::of::<u8>()));

    validator.add_transient_deps::<u16, (Transient<u8>, Singleton<u32>)>();
    assert!(validator.is_registered(&TypeId::of::<u16>()));
    assert_eq!(validator.validate_all(), Err(ValidationError::Missing));
    assert_eq!(validator.dotgraph(), Err(ValidationError::Missing));

    validator.add_transient_no_deps::<u8>();
    assert_eq!(validator.validate::<u16>(), Err(ValidationError::Missing));

    validator.add_singleton_no_deps::<u32>();
    assert_eq!(validator.validate_all(), Ok(()));
    assert_eq!(validator.validate_all_full(), Ok(()));

    validator.add_singleton_deps::<u64, (Transient<u64>,)>();
    assert_eq!(validator.validate_all(), Err(ValidationError::Cycle));
    assert_eq!(
        validator.validate_all_full(),
        Err(FullValidationError::Cycle(Some("u64".to_owned())))
    );
}

#[test]
fn context_starts_and_resets_blank() {
    let mut context = VisitorContext::new();
    context.reset();
    let _ = context;
}

#[test]
fn validation_errors_have_messages() {
    assert_eq!(ValidationError::Cycle.message(), "cycle detected!");
    assert_eq!(ValidationError::Missing.message(), "dependencies missing!");
    assert_eq!(
        FullValidationError::Cycle(Some("Dep1".to_owned())).message(),
        "cycle detected at Dep1"
    );
    assert_eq!(FullValidationError::Cycle(None).message(), "cycle detected!");
    assert_eq!(
        FullValidationError::Missing(Vec::new()).message(),
        "dependencies missing:\n"
    );
}

#[test]
fn missing_dependencies_are_written_line_by_line() {
    let mut registry: Reg = Registry::empty();
    registry
        .with_deps::<u16, (Transient<u8>, Singleton<i8>)>()
        .register_transient(unit());

    let error = registry.validate_all_full().unwrap_err();
    let expected = format!(
        "dependencies missing:\ndependencies missing for u16 ({:?}):\n - u8 ({:?})\n - i8 ({:?})\n\n\n",
        TypeId::of::<u16>(),
        TypeId::of::<u8>(),
        TypeId::of::<i8>()
    );
    assert_eq!(error.message(), expected);
}
