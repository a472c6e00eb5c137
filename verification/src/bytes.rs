//! Byte-sequence utilities shared by the gateway and the transforms:
//! copying, comparison, whitespace trimming and terminator stripping.

use vstd::prelude::*;

verus! {

/// True for the ASCII whitespace bytes that trimming removes.
pub open spec fn is_space_byte(b: u8) -> bool {
    b == 32 || (9 <= b && b <= 13)
}

/// `s` with every leading whitespace byte removed.
pub open spec fn trim_front(s: Seq<u8>) -> Seq<u8>
    decreases s.len(),
{
    if s.len() > 0 && is_space_byte(s[0]) {
        trim_front(s.drop_first())
    } else {
        s
    }
}

/// `s` with every trailing whitespace byte removed.
pub open spec fn trim_back(s: Seq<u8>) -> Seq<u8>
    decreases s.len(),
{
    if s.len() > 0 && is_space_byte(s.last()) {
        trim_back(s.drop_last())
    } else {
        s
    }
}

/// `s` with leading and trailing whitespace removed.
pub open spec fn trimmed(s: Seq<u8>) -> Seq<u8> {
    trim_back(trim_front(s))
}

/// `s` with every trailing zero byte removed.
pub open spec fn strip_trailing_nul(s: Seq<u8>) -> Seq<u8>
    decreases s.len(),
{
    if s.len() > 0 && s.last() == 0 {
        strip_trailing_nul(s.drop_last())
    } else {
        s
    }
}

/// A fresh copy of the bytes of `v`.
pub fn copy_bytes(v: &Vec<u8>) -> (r: Vec<u8>)
    ensures
        r@ == v@,
{
    let mut r: Vec<u8> = Vec::new();
    let mut i: usize = 0;
    while i < v.len()
        invariant
            i <= v.len(),
            r@ == v@.subrange(0, i as int),
        decreases v.len() - i,
    {
        r.push(v[i]);
        i = i + 1;
        proof {
            assert(r@ =~= v@.subrange(0, i as int));
        }
    }
    proof {
        assert(r@ =~= v@);
    }
    r
}

/// Whether two byte vectors hold the same bytes.
pub fn bytes_eq(a: &Vec<u8>, b: &Vec<u8>) -> (r: bool)
    ensures
        r == (a@ == b@),
{
    if a.len() != b.len() {
        return false;
    }
    let mut i: usize = 0;
    while i < a.len()
        invariant
            a@.len() == b@.len(),
            i <= a@.len(),
            forall|j: int| 0 <= j < i ==> a@[j] == b@[j],
        decreases a.len() - i,
    {
        if a[i] != b[i] {
            return false;
        }
        i = i + 1;
    }
    proof {
        assert(a@ =~= b@);
    }
    true
}

/// A copy of `v` with leading and trailing ASCII whitespace removed.
pub fn trim_bytes(v: &Vec<u8>) -> (r: Vec<u8>)
    ensures
        r@ == trimmed(v@),
{
    let len = v.len();
    proof {
        assert(v@.subrange(0, len as int) =~= v@);
    }
    let mut lo: usize = 0;
    while lo < len && (v[lo] == 32 || (9 <= v[lo] && v[lo] <= 13))
        invariant
            lo <= len,
            len == v@.len(),
            trim_front(v@) == trim_front(v@.subrange(lo as int, len as int)),
        decreases len - lo,
    {
        proof {
            assert(v@.subrange(lo as int, len as int).drop_first() =~= v@.subrange(
                lo as int + 1,
                len as int,
            ));
        }
        lo = lo + 1;
    }
    proof {
        let tail = v@.subrange(lo as int, len as int);
        assert(trim_front(tail) == tail);
    }
    let mut hi: usize = len;
    while hi > lo && (v[hi - 1] == 32 || (9 <= v[hi - 1] && v[hi - 1] <= 13))
        invariant
            lo <= hi <= len,
            len == v@.len(),
            trim_front(v@) == trim_front(v@.subrange(lo as int, len as int)),
            trim_front(v@.subrange(lo as int, len as int)) == v@.subrange(lo as int, len as int),
            trim_back(v@.subrange(lo as int, len as int)) == trim_back(
                v@.subrange(lo as int, hi as int),
            ),
        decreases hi,
    {
        proof {
            assert(v@.subrange(lo as int, hi as int).drop_last() =~= v@.subrange(
                lo as int,
                hi as int - 1,
            ));
        }
        hi = hi - 1;
    }
    proof {
        let core = v@.subrange(lo as int, hi as int);
        assert(trim_back(core) == core);
    }
    let mut r: Vec<u8> = Vec::new();
    let mut i: usize = lo;
    while i < hi
        invariant
            lo <= i <= hi <= len,
            len == v@.len(),
            r@ == v@.subrange(lo as int, i as int),
        decreases hi - i,
    {
        r.push(v[i]);
        i = i + 1;
        proof {
            assert(r@ =~= v@.subrange(lo as int, i as int));
        }
    }
    proof {
        assert(r@ == v@.subrange(lo as int, hi as int));
        assert(trimmed(v@) == r@);
    }
    r
}

/// A copy of `v` with every trailing zero byte removed.
pub fn strip_nul_bytes(v: &Vec<u8>) -> (r: Vec<u8>)
    ensures
        r@ == strip_trailing_nul(v@),
{
    let len = v.len();
    proof {
        assert(v@.subrange(0, len as int) =~= v@);
    }
    let mut hi: usize = len;
    while hi > 0 && v[hi - 1] == 0
        invariant
            hi <= len,
            len == v@.len(),
            strip_trailing_nul(v@) == strip_trailing_nul(v@.subrange(0, hi as int)),
        decreases hi,
    {
        proof {
            assert(v@.subrange(0, hi as int).drop_last() =~= v@.subrange(0, hi as int - 1));
        }
        hi = hi - 1;
    }
    proof {
        let core = v@.subrange(0, hi as int);
        assert(strip_trailing_nul(core) == core);
    }
    let mut r: Vec<u8> = Vec::new();
    let mut i: usize = 0;
    while i < hi
        invariant
            i <= hi <= len,
            len == v@.len(),
            r@ == v@.subrange(0, i as int),
        decreases hi - i,
    {
        r.push(v[i]);
        i = i + 1;
        proof {
            assert(r@ =~= v@.subrange(0, i as int));
        }
    }
    proof {
        assert(r@ == v@.subrange(0, hi as int));
    }
    r
}

} // verus!
