//! Unix file paths as bytes, as the OS holds them: whether a path is
//! absolute, and joining.

use vstd::prelude::*;

verus! {

/// The byte of the path separator `/`.
pub open spec fn sep() -> u8 {
    47u8
}

/// A Unix path is absolute when it starts at the root.
pub open spec fn is_absolute_path(p: Seq<u8>) -> bool {
    p.len() > 0 && p[0] == sep()
}

/// Joining `p` onto `base` as `PathBuf::join` does on Unix: an absolute `p`
/// replaces `base`; otherwise a separator goes between them unless `base` is
/// empty or already ends with one.
pub open spec fn join_path(base: Seq<u8>, p: Seq<u8>) -> Seq<u8> {
    if is_absolute_path(p) {
        p
    } else if base.len() > 0 && base.last() != sep() {
        base + seq![sep()] + p
    } else {
        base + p
    }
}

/// Tells whether `p` is an absolute path.
pub fn is_absolute(p: &[u8]) -> (b: bool)
    ensures
        b == is_absolute_path(p@),
{
    p.len() > 0 && p[0] == 47u8
}

/// Appends the bytes of `t` to the end of `v`.
pub fn extend_bytes(v: &mut Vec<u8>, t: &[u8])
    ensures
        final(v)@ == old(v)@ + t@,
{
    let n = t.len();
    for i in 0..n
        invariant
            n == t@.len(),
            v@ == old(v)@ + t@.take(i as int),
    {
        v.push(t[i]);
        assert(t@.take(i + 1) =~= t@.take(i as int).push(t@[i as int]));
    }
    assert(t@.take(n as int) =~= t@);
}

/// Joins `p` onto `base`, in the sense of [`join_path`].
pub fn join(base: &[u8], p: &[u8]) -> (r: Vec<u8>)
    ensures
        r@ == join_path(base@, p@),
{
    let mut out: Vec<u8> = Vec::new();
    if p.len() > 0 && p[0] == 47u8 {
        extend_bytes(&mut out, p);
        assert(out@ =~= p@);
        return out;
    }
    extend_bytes(&mut out, base);
    if base.len() > 0 && base[base.len() - 1] != 47u8 {
        out.push(47u8);
    }
    extend_bytes(&mut out, p);
    assert(out@ =~= join_path(base@, p@));
    out
}

} // verus!
