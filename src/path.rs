//! Control-point paths: validity, the parent/child relation, and the
//! NUL-terminated form that kernel calls take.
use vstd::prelude::*;
use crate::error::ControlError;

verus! {

/// The path separator.
pub const SEP: u8 = 0x2f;

/// The terminator of a path handed to the kernel.
pub const NUL: u8 = 0;

/// A path that a node may be created at: absolute and without NUL bytes.
/// Trailing separators are allowed and stand for nothing (see `trim`).
pub open spec fn valid_path(p: Seq<u8>) -> bool {
    &&& p.len() >= 1
    &&& p[0] == SEP
    &&& forall|i: int| 0 <= i < p.len() ==> p[i] != NUL
}

/// `p` without its trailing separators; the root `/` stays as it is.
pub open spec fn trim(p: Seq<u8>) -> Seq<u8>
    decreases p.len(),
{
    if p.len() > 1 && p[p.len() - 1] == SEP {
        trim(p.drop_last())
    } else {
        p
    }
}

/// The form in which a node's path is recorded: absolute, not the root
/// itself, without a trailing separator and without NUL bytes.
pub open spec fn node_path(p: Seq<u8>) -> bool {
    &&& valid_path(p)
    &&& p.len() >= 2
    &&& p[p.len() - 1] != SEP
}

/// Trimming a valid path keeps it a valid prefix; what is left is the root
/// or a path in recorded form.
pub proof fn lemma_trim(p: Seq<u8>)
    requires
        valid_path(p),
    ensures
        valid_path(trim(p)),
        trim(p).len() <= p.len(),
        trim(p) == p.subrange(0, trim(p).len() as int),
        trim(p).len() >= 2 ==> node_path(trim(p)),
        trim(p).len() < 2 ==> trim(p) == seq![SEP],
    decreases p.len(),
{
    if p.len() > 1 && p[p.len() - 1] == SEP {
        lemma_trim(p.drop_last());
        assert(p.drop_last().subrange(0, trim(p).len() as int) =~= p.subrange(
            0,
            trim(p).len() as int,
        ));
    } else if p.len() < 2 {
        assert(p =~= seq![SEP]);
    }
    if p.len() >= 1 {
        assert(p =~= p.subrange(0, p.len() as int));
    }
}

/// `child` names a node nested (at any depth) below the node `parent`.
pub open spec fn is_descendant(child: Seq<u8>, parent: Seq<u8>) -> bool {
    &&& parent.len() < child.len()
    &&& child.subrange(0, parent.len() as int) == parent
    &&& child[parent.len() as int] == SEP
}

/// The form of `p` that kernel calls take.
pub open spec fn kernel_form(p: Seq<u8>) -> Seq<u8> {
    p.push(NUL)
}

/// Whether a node may be created at `p`.
pub fn check_path(p: &Vec<u8>) -> (r: bool)
    ensures
        r == valid_path(p@),
{
    let n = p.len();
    if n < 1 || p[0] != SEP {
        return false;
    }
    let mut i: usize = 0;
    while i < n
        invariant
            i <= n,
            n == p@.len(),
            forall|k: int| 0 <= k < i ==> p@[k] != NUL,
        decreases n - i,
    {
        if p[i] == NUL {
            return false;
        }
        i = i + 1;
    }
    true
}

/// `p` without its trailing separators (see `trim`).
pub fn canonical(p: &Vec<u8>) -> (r: Vec<u8>)
    ensures
        r@ == trim(p@),
{
    let mut n: usize = p.len();
    assert(p@.subrange(0, n as int) =~= p@);
    while n > 1 && p[n - 1] == SEP
        invariant
            n <= p@.len(),
            trim(p@) == trim(p@.subrange(0, n as int)),
        decreases n,
    {
        assert(p@.subrange(0, n as int).drop_last() =~= p@.subrange(0, n - 1));
        n = n - 1;
    }
    let mut out: Vec<u8> = Vec::new();
    let mut i: usize = 0;
    while i < n
        invariant
            i <= n,
            n <= p@.len(),
            out@ == p@.subrange(0, i as int),
        decreases n - i,
    {
        out.push(p[i]);
        assert(out@ =~= p@.subrange(0, i + 1));
        i = i + 1;
    }
    assert(trim(out@) == out@);
    if n == p.len() {
        assert(p@.subrange(0, n as int) =~= p@);
    }
    out
}

/// Whether `child` names a node nested below the node `parent`.
pub fn check_descendant(child: &Vec<u8>, parent: &Vec<u8>) -> (r: bool)
    ensures
        r == is_descendant(child@, parent@),
{
    let n = parent.len();
    if n >= child.len() {
        return false;
    }
    let mut i: usize = 0;
    while i < n
        invariant
            i <= n,
            n == parent@.len(),
            n < child@.len(),
            forall|k: int| 0 <= k < i ==> child@[k] == parent@[k],
        decreases n - i,
    {
        if child[i] != parent[i] {
            assert(child@.subrange(0, n as int)[i as int] != parent@[i as int]);
            return false;
        }
        i = i + 1;
    }
    assert(child@.subrange(0, n as int) =~= parent@);
    child[n] == SEP
}

/// Whether two byte strings are equal.
pub fn same_bytes(a: &Vec<u8>, b: &Vec<u8>) -> (r: bool)
    ensures
        r == (a@ == b@),
{
    if a.len() != b.len() {
        return false;
    }
    let n = a.len();
    let mut i: usize = 0;
    while i < n
        invariant
            i <= n,
            n == a@.len(),
            n == b@.len(),
            forall|k: int| 0 <= k < i ==> a@[k] == b@[k],
        decreases n - i,
    {
        if a[i] != b[i] {
            return false;
        }
        i = i + 1;
    }
    assert(a@ =~= b@);
    true
}

/// The NUL-terminated form of a valid path, as the kernel takes it.
pub fn kernel_path(p: &Vec<u8>) -> (r: Result<Vec<u8>, ControlError>)
    ensures
        r is Ok <==> valid_path(p@),
        r is Ok ==> r->Ok_0@ == kernel_form(p@),
        r is Err ==> r->Err_0 == ControlError::InvalidPath,
{
    if !check_path(p) {
        return Err(ControlError::InvalidPath);
    }
    let mut out = p.clone();
    out.push(NUL);
    Ok(out)
}

} // verus!
