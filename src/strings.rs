//! NUL-terminated names, the string table, and UTF-8 decoding of names.
use vstd::prelude::*;
use vstd::slice::slice_subrange;
use vstd::string::StringSliceAdditionalSpecFns;
use vstd::utf8::valid_utf8;

verus! {

/// The position of the first NUL byte of `s`, or its length if it has none.
pub open spec fn nul_pos(s: Seq<u8>) -> nat
    decreases s.len(),
{
    if s.len() == 0 {
        0
    } else if s[0] == 0 {
        0
    } else {
        1 + nul_pos(s.drop_first())
    }
}

/// `s` up to its first NUL byte.
pub open spec fn trim_nul(s: Seq<u8>) -> Seq<u8> {
    s.take(nul_pos(s) as int)
}

pub proof fn lemma_nul_pos_bounds(s: Seq<u8>)
    ensures
        nul_pos(s) <= s.len(),
        nul_pos(s) < s.len() ==> s[nul_pos(s) as int] == 0,
        forall|k: int| 0 <= k < nul_pos(s) ==> s[k] != 0,
    decreases s.len(),
{
    if s.len() > 0 && s[0] != 0 {
        lemma_nul_pos_bounds(s.drop_first());
        assert forall|k: int| 0 <= k < nul_pos(s) implies s[k] != 0 by {
            if k > 0 {
                assert(s[k] == s.drop_first()[k - 1]);
            }
        }
    }
}

proof fn lemma_nul_pos_step(s: Seq<u8>, i: int)
    requires
        0 <= i < s.len(),
    ensures
        nul_pos(s.skip(i)) == if s[i] == 0 { 0 } else { 1 + nul_pos(s.skip(i + 1)) },
{
    assert(s.skip(i).drop_first() =~= s.skip(i + 1));
}

/// The position of the first NUL byte of `s`, or its length if it has none.
pub fn find_nul(s: &[u8]) -> (r: usize)
    ensures
        r == nul_pos(s@),
{
    let mut i: usize = 0;
    proof {
        assert(s@.skip(0) =~= s@);
    }
    while i < s.len() && s[i] != 0
        invariant
            i <= s@.len(),
            nul_pos(s@) == i + nul_pos(s@.skip(i as int)),
        decreases s@.len() - i,
    {
        proof {
            lemma_nul_pos_step(s@, i as int);
        }
        i = i + 1;
    }
    proof {
        if i < s@.len() {
            lemma_nul_pos_step(s@, i as int);
        } else {
            assert(s@.skip(i as int).len() == 0);
        }
    }
    i
}

/// The bytes of `s` before its first NUL byte.
pub fn trim_at_nul<'a>(s: &'a [u8]) -> (r: &'a [u8])
    ensures
        r@ == trim_nul(s@),
{
    let end = find_nul(s);
    proof {
        lemma_nul_pos_bounds(s@);
    }
    slice_subrange(s, 0, end)
}

/// The NUL-terminated string that starts at `off` in the string table `t`,
/// without its terminator; `None` if `off` is past the end of the table or
/// no NUL follows it.
pub open spec fn string_at(t: Seq<u8>, off: int) -> Option<Seq<u8>> {
    if 0 <= off <= t.len() && nul_pos(t.skip(off)) < t.len() - off {
        Some(t.skip(off).take(nul_pos(t.skip(off)) as int))
    } else {
        None
    }
}

/// Looks up the string at `off` in the string table `t`.
pub fn string_table_get<'a>(t: &'a [u8], off: u32) -> (r: Option<&'a [u8]>)
    ensures
        r is Some <==> string_at(t@, off as int) is Some,
        r matches Some(b) ==> Some(b@) == string_at(t@, off as int),
{
    if off as usize > t.len() {
        return None;
    }
    let rest = slice_subrange(t, off as usize, t.len());
    assert(rest@ =~= t@.skip(off as int));
    let end = find_nul(rest);
    if end < rest.len() {
        Some(slice_subrange(rest, 0, end))
    } else {
        None
    }
}

/// Whether two byte strings are equal.
pub fn bytes_eq(a: &[u8], b: &[u8]) -> (r: bool)
    ensures
        r == (a@ == b@),
{
    if a.len() != b.len() {
        return false;
    }
    let mut i: usize = 0;
    while i < a.len()
        invariant
            a@.len() == b@.len(),
            i <= a@.len(),
            forall|k: int| 0 <= k < i ==> a@[k] == b@[k],
        decreases a@.len() - i,
    {
        if a[i] != b[i] {
            return false;
        }
        i = i + 1;
    }
    assert(a@ =~= b@);
    true
}

/// Relies on `core::str::from_utf8`: it succeeds exactly where `b` is valid
/// UTF-8, and then returns a string whose bytes are `b`.
#[verifier::external_body]
pub(crate) fn decode_utf8<'a>(b: &'a [u8]) -> (r: Option<&'a str>)
    ensures
        r is Some <==> valid_utf8(b@),
        r matches Some(s) ==> s.spec_bytes() == b@,
{
    core::str::from_utf8(b).ok()
}

} // verus!
