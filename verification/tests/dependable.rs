use ferrunix::dependable::{make_deps, Root};
use std::any::TypeId;

#[test]
fn typeids() {
    let x = Root.and::<u8>().and::<u16>();
    let deps = make_deps(x);
    assert_eq!(deps.get(0), Some(TypeId::of::<u8>()).as_ref());
    assert_eq!(deps.get(1), Some(TypeId::of::<u16>()).as_ref());
}

#[test]
fn chain_lists_its_types_in_order() {
    assert_eq!(make_deps(Root), Vec::<TypeId>::new());
    assert_eq!(make_deps(Root.and::<String>()), vec![TypeId::of::<String>()]);
    let chain = Root.and::<u8>().and::<u16>().and::<u8>().and::<i64>();
    assert_eq!(
        make_deps(chain),
        vec![
            TypeId::of::<u8>(),
            TypeId::of::<u16>(),
            TypeId::of::<u8>(),
            TypeId::of::<i64>(),
        ]
    );
}
