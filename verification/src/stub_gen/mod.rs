use vstd::prelude::*;

pub mod loongarch64;

verus! {

/// The operating system that the stubs are generated for.
#[derive(Clone, Copy, Debug, PartialEq, Eq, Structural)]
pub enum TargetOs {
    Linux,
    MacOS,
    Windows,
}

} // verus!
