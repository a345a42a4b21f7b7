//! The resolved toolchain: a compiler family together with the text that
//! names its executable.

use vstd::prelude::*;

verus! {

/// A compiler family. The shim only knows the two mainstream toolchains.
#[derive(Clone, Copy, Debug, PartialEq, Eq, Structural)]
pub enum Family {
    Gnu,
    Llvm,
}

/// A resolved toolchain: the family plus the text naming its executable —
/// an absolute or relative path, or a bare command name resolvable via the
/// search path.
#[derive(Debug)]
pub enum Toolchain {
    /// The GNU Compiler Collection (gcc).
    GNU(String),
    /// The LLVM toolchain (clang).
    LLVM(String),
}

impl Toolchain {
    /// The family this toolchain belongs to.
    pub open spec fn spec_family(&self) -> Family {
        match self {
            Toolchain::GNU(_) => Family::Gnu,
            Toolchain::LLVM(_) => Family::Llvm,
        }
    }

    /// The characters of the executable path carried by this toolchain.
    pub open spec fn spec_path(&self) -> Seq<char> {
        match self {
            Toolchain::GNU(s) => s@,
            Toolchain::LLVM(s) => s@,
        }
    }

    pub fn family(&self) -> (f: Family)
        ensures
            f == self.spec_family(),
    {
        match self {
            Toolchain::GNU(_) => Family::Gnu,
            Toolchain::LLVM(_) => Family::Llvm,
        }
    }

    /// The executable path to hand to process substitution.
    pub fn as_ref(&self) -> (r: &str)
        ensures
            r@ == self.spec_path(),
    {
        match self {
            Toolchain::GNU(s) => s.as_str(),
            Toolchain::LLVM(s) => s.as_str(),
        }
    }
}

/// The view of an optional string value.
pub open spec fn opt_view(v: Option<String>) -> Option<Seq<char>> {
    match v {
        Some(s) => Some(s@),
        None => None,
    }
}

/// Does the executable result `r` carry exactly the pick `p`: a toolchain of
/// the picked family with the picked path characters, and a result exactly
/// when there is a pick?
pub open spec fn matches_pick(r: Option<Toolchain>, p: Option<(Family, Seq<char>)>) -> bool {
    match (r, p) {
        (Some(t), Some(pick)) => t.spec_family() == pick.0 && t.spec_path() == pick.1,
        (None, None) => true,
        _ => false,
    }
}

} // verus!
