//! Target machine architectures a package is built for.
use vstd::prelude::*;

verus! {

#[derive(Clone, Copy, Debug, PartialEq, Eq, Structural)]
pub enum Architecture {
    Aarch64,
    Armhf,
    Riscv32,
    Riscv64,
    X86,
    X86_64,
}

impl Default for Architecture {
    fn default() -> (r: Self)
        ensures
            r == Architecture::X86_64,
    {
        Architecture::X86_64
    }
}

} // verus!
