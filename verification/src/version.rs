//! The version identifier the process reports.

use vstd::prelude::*;
use vstd::string::StringExecFns;

verus! {

/// The reported version: the base version alone, or with a free-form
/// annotation appended in parentheses.
pub open spec fn annotated_version(base: Seq<char>, extra: Option<Seq<char>>) -> Seq<char> {
    match extra {
        Some(x) => base + " ("@ + x + ")"@,
        None => base,
    }
}

/// Builds the version string the process reports. The annotation, when
/// present, comes from outside (the build environment); its absence leaves
/// the base version unchanged.
pub fn version(base: &str, extra: Option<&str>) -> (r: String)
    ensures
        r@ == annotated_version(base@, match extra {
            Some(x) => Some(x@),
            None => None,
        }),
{
    match extra {
        Some(x) => {
            let mut s: String = base.to_owned();
            s.append(" (");
            s.append(x);
            s.append(")");
            s
        },
        None => base.to_owned(),
    }
}

}
