//! Runtime side of weakly linked dynamic libraries: the state of a library
//! (its handle and symbol tables), symbol groups, the bookkeeping of checked
//! mode, and the text of LoongArch64 stubs.
pub mod boxed;
pub mod group;
pub mod laws;
pub mod library;
pub mod stub_gen;
pub mod text;

pub use boxed::boxed_slice;
pub use group::Group;
pub use library::{Address, DylibHandle, Error, Library};
pub use stub_gen::loongarch64::LoongArch64StubGenerator;
