use vstd::prelude::*;
use vstd::utf8::encode_utf8;

verus! {

/// The UTF-8 bytes of a text.
pub open spec fn bytes_of(s: Seq<char>) -> Seq<u8> {
    encode_utf8(s)
}

/// Whether `needle` stands in `hay` starting at position `at`.
pub open spec fn occurs_at(hay: Seq<u8>, at: int, needle: Seq<u8>) -> bool {
    0 <= at && at + needle.len() <= hay.len() && hay.subrange(at, at + needle.len()) == needle
}

/// Whether `hay` begins with `prefix`.
pub open spec fn starts_with(hay: Seq<u8>, prefix: Seq<u8>) -> bool {
    occurs_at(hay, 0, prefix)
}

/// The position of the last `b` in `s`, or -1 when there is none.
pub open spec fn last_index_of(s: Seq<u8>, b: u8) -> int
    decreases s.len(),
{
    if s.len() == 0 {
        -1
    } else if s.last() == b {
        s.len() - 1
    } else {
        last_index_of(s.drop_last(), b)
    }
}

/// Whether `needle` stands in `hay` at position `at`.
pub fn bytes_occur_at(hay: &[u8], at: usize, needle: &[u8]) -> (r: bool)
    ensures
        r == occurs_at(hay@, at as int, needle@),
{
    if at > hay.len() || needle.len() > hay.len() - at {
        return false;
    }
    let mut j: usize = 0;
    while j < needle.len()
        invariant
            hay@.len() <= usize::MAX,
            at + needle@.len() <= hay@.len(),
            j <= needle@.len(),
            forall|k: int| 0 <= k < j ==> hay@[at + k] == needle@[k],
        decreases needle@.len() - j,
    {
        if hay[at + j] != needle[j] {
            proof {
                assert(hay@.subrange(at as int, at + needle@.len())[j as int] != needle@[j as int]);
            }
            return false;
        }
        j += 1;
    }
    assert(hay@.subrange(at as int, at + needle@.len()) =~= needle@);
    true
}

/// The position of the last `b` in `s` at or after `lo` and before `hi`.
pub fn rfind_byte(s: &[u8], lo: usize, hi: usize, b: u8) -> (r: Option<usize>)
    requires
        lo <= hi <= s@.len(),
    ensures
        ({
            let idx = last_index_of(s@.subrange(lo as int, hi as int), b);
            match r {
                Some(k) => lo <= k < hi && idx == k - lo,
                None => idx == -1,
            }
        }),
{
    let mut i: usize = hi;
    while i > lo
        invariant
            lo <= i <= hi <= s@.len(),
            last_index_of(s@.subrange(lo as int, hi as int), b) == last_index_of(
                s@.subrange(lo as int, i as int),
                b,
            ),
        decreases i,
    {
        let ghost part = s@.subrange(lo as int, i as int);
        assert(part.drop_last() =~= s@.subrange(lo as int, i - 1));
        assert(part.last() == s@[i - 1]);
        if s[i - 1] == b {
            return Some(i - 1);
        }
        i -= 1;
    }
    assert(s@.subrange(lo as int, i as int).len() == 0);
    None
}

} // verus!
