//! A human-readable description of the running build, logged once at
//! startup.

use vstd::prelude::*;

verus! {

/// The text `get_build_info` returns.
pub open spec fn spec_build_info() -> Seq<char> {
    "geyser_neon "@ + spec_crate_version() + ", verified streaming pipeline build"@
}

/// The crate version the build description names.
pub open spec fn spec_crate_version() -> Seq<char> {
    "0.1.0"@
}

/// Describe the running build.
pub fn get_build_info() -> (r: String)
    ensures
        r@ == spec_build_info(),
{
    let mut s = String::from_str("geyser_neon ");
    s.append("0.1.0");
    s.append(", verified streaming pipeline build");
    s
}

} // verus!
