//! Origin resolution: whether a resolved definition belongs to the
//! restricted namespace.
//!
//! Two strategies exist on purpose and must stay distinct: the
//! guarded-call rule matches the restricted name exactly, while the
//! qualification rule also accepts `-`- or `_`-joined variants of it, so
//! that sibling crates of the same family count as restricted.  An
//! unresolved callee is never matched at all: resolution fails closed, and
//! the rules skip the node.

use vstd::prelude::*;
use crate::bytes;

verus! {

/// Strategy A: the originating name equals the restricted name.
pub open spec fn exact_origin(krate: Seq<u8>, restricted: Seq<u8>) -> bool {
    krate == restricted
}

/// Strategy B: the originating name equals the restricted name, or equals
/// it followed by `-` or `_` and a suffix.
pub open spec fn family_origin(krate: Seq<u8>, restricted: Seq<u8>) -> bool {
    &&& bytes::is_prefix_at(krate, 0, restricted)
    &&& (krate.len() == restricted.len() || krate[restricted.len() as int] == 45u8
        || krate[restricted.len() as int] == 95u8)
}

/// Whether `krate` is exactly the restricted name.
pub fn is_exact_origin(krate: &Vec<u8>, restricted: &Vec<u8>) -> (r: bool)
    ensures
        r == exact_origin(krate@, restricted@),
{
    bytes::bytes_eq(krate, restricted)
}

/// Whether `krate` belongs to the restricted family: the restricted name
/// itself, or the restricted name joined to a suffix with `-` or `_`.
pub fn is_family_origin(krate: &Vec<u8>, restricted: &Vec<u8>) -> (r: bool)
    ensures
        r == family_origin(krate@, restricted@),
{
    if !bytes::prefix_at(krate, 0, restricted) {
        return false;
    }
    if krate.len() == restricted.len() {
        return true;
    }
    let joint = krate[restricted.len()];
    joint == 45u8 || joint == 95u8
}

} // verus!
