#![allow(clippy::no_effect)]

use ferrunix::dependencies::Dependency;
use ferrunix::registry::Builder;
use ferrunix::{Registry, Singleton, Transient};

type Ctor = fn(Vec<Dependency<u32>>) -> Result<u32, String>;

struct IsDebug<T: std::fmt::Debug>(Option<T>);

#[test]
fn all_public_types_are_debug() {
    IsDebug::<Transient<u32>>(None);
    IsDebug::<Singleton<u32>>(None);
    IsDebug::<Registry<u32, String, Ctor>>(None);
    IsDebug::<Builder<'static, u32, String, Ctor, u32, ()>>(None);
}
