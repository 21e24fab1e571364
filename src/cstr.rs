//! Null-terminated byte strings, as the native SDK reads them.
use vstd::prelude::*;

verus! {

/// `s` holds a NUL byte somewhere.
pub open spec fn has_nul(s: Seq<u8>) -> bool {
    exists|i: int| 0 <= i < s.len() && s[i] == 0
}

/// The index of the first NUL byte of `s`, which must hold one.
pub open spec fn first_nul(s: Seq<u8>) -> int
    recommends
        has_nul(s),
{
    choose|i: int| 0 <= i < s.len() && s[i] == 0 && forall|j: int| 0 <= j < i ==> s[j] != 0
}

/// `s` as a C string: its bytes followed by one NUL terminator.
pub open spec fn c_bytes(s: Seq<u8>) -> Seq<u8> {
    s.push(0)
}

/// Returns the index of the first NUL byte of `bytes`, or `None` where there is none.
pub fn find_nul(bytes: &[u8]) -> (r: Option<usize>)
    ensures
        match r {
            Some(i) => {
                &&& has_nul(bytes@)
                &&& i < bytes@.len()
                &&& bytes@[i as int] == 0
                &&& forall|j: int| 0 <= j < i ==> bytes@[j] != 0
                &&& i as int == first_nul(bytes@)
            },
            None => !has_nul(bytes@),
        },
{
    let mut i: usize = 0;
    while i < bytes.len()
        invariant
            i <= bytes@.len(),
            forall|j: int| 0 <= j < i ==> bytes@[j] != 0,
        decreases bytes@.len() - i,
    {
        if bytes[i] == 0 {
            proof {
                lemma_first_nul_unique(bytes@, i as int);
            }
            return Some(i);
        }
        i = i + 1;
    }
    None
}

/// Any NUL byte with no NUL before it is the first one.
pub proof fn lemma_first_nul_unique(s: Seq<u8>, i: int)
    requires
        0 <= i < s.len(),
        s[i] == 0,
        forall|j: int| 0 <= j < i ==> s[j] != 0,
    ensures
        has_nul(s),
        first_nul(s) == i,
{
    assert(has_nul(s));
    let k = first_nul(s);
    assert(0 <= k < s.len() && s[k] == 0 && forall|j: int| 0 <= j < k ==> s[j] != 0);
    if k < i {
        assert(s[k] != 0);
    } else if i < k {
        assert(s[i] != 0);
    }
}

/// Turns `bytes` into a C string: `None` where it holds a NUL byte, which a
/// C string cannot carry; otherwise the bytes with a NUL terminator appended.
pub fn c_string(bytes: &[u8]) -> (r: Option<Vec<u8>>)
    ensures
        r.is_none() <==> has_nul(bytes@),
        r matches Some(v) ==> v@ == c_bytes(bytes@),
{
    if find_nul(bytes).is_some() {
        return None;
    }
    let mut v: Vec<u8> = Vec::new();
    let mut i: usize = 0;
    while i < bytes.len()
        invariant
            i <= bytes@.len(),
            v@ == bytes@.subrange(0, i as int),
        decreases bytes@.len() - i,
    {
        v.push(bytes[i]);
        i = i + 1;
    }
    v.push(0);
    assert(bytes@.subrange(0, bytes@.len() as int) == bytes@);
    Some(v)
}

} // verus!
