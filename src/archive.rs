use vstd::prelude::*;

verus! {

pub const SLASH: u8 = 47;

pub const DOT: u8 = 46;

/// A path component `..` starts at byte `i` of `p`.
pub open spec fn parent_step_at(p: Seq<u8>, i: int) -> bool {
    &&& 0 <= i
    &&& i + 2 <= p.len()
    &&& p[i] == DOT
    &&& p[i + 1] == DOT
    &&& (i == 0 || p[i - 1] == SLASH)
    &&& (i + 2 == p.len() || p[i + 2] == SLASH)
}

/// An archive entry path stays inside the directory it is unpacked into:
/// it is relative and has no `..` component.
pub open spec fn entry_path_safe(p: Seq<u8>) -> bool {
    &&& !(p.len() > 0 && p[0] == SLASH)
    &&& forall|i: int| 0 <= i < p.len() ==> !parent_step_at(p, i)
}

/// Whether an archive entry with path `path` may be unpacked.
pub fn entry_path_is_safe(path: &[u8]) -> (r: bool)
    ensures
        r == entry_path_safe(path@),
{
    let n = path.len();
    if n > 0 && path[0] == SLASH {
        return false;
    }
    let mut i: usize = 0;
    while i < n
        invariant
            n == path@.len(),
            i <= n,
            forall|j: int| 0 <= j < i ==> !parent_step_at(path@, j),
        decreases n - i,
    {
        if n - i >= 2 && path[i] == DOT && path[i + 1] == DOT && (i == 0 || path[i - 1] == SLASH)
            && (n - i == 2 || path[i + 2] == SLASH) {
            assert(parent_step_at(path@, i as int));
            return false;
        }
        i = i + 1;
    }
    true
}

} // verus!
