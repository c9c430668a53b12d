use vstd::prelude::*;

verus! {

/// A CPU architecture a configuration record can target. These three
/// variants are the fixed universe that architecture choice lists are
/// drawn from, and their declaration order here is the canonical order
/// in which choice lists present them.
#[derive(Clone, Copy, Debug, PartialEq, Eq, Structural)]
pub enum Arch {
    X86_64,
    Aarch64,
    Riscv64,
}

} // verus!
