//! Small searches in byte strings.

use vstd::prelude::*;

verus! {

/// The number of bytes in front of the first `stop`; the whole length where
/// `stop` does not occur.
pub open spec fn count_until(bytes: Seq<u8>, stop: u8) -> nat
    decreases bytes.len(),
{
    if bytes.len() == 0 || bytes[0] == stop {
        0
    } else {
        1 + count_until(bytes.drop_first(), stop)
    }
}

/// The number of bytes at the front that all equal `byte`.
pub open spec fn count_leading(bytes: Seq<u8>, byte: u8) -> nat
    decreases bytes.len(),
{
    if bytes.len() == 0 || bytes[0] != byte {
        0
    } else {
        1 + count_leading(bytes.drop_first(), byte)
    }
}

/// A run of `n` bytes other than `stop` that ends at a `stop`, or at the end,
/// is what `count_until` counts.
pub proof fn lemma_count_until_is(bytes: Seq<u8>, stop: u8, n: int)
    requires
        0 <= n <= bytes.len(),
        forall|k: int| 0 <= k < n ==> bytes[k] != stop,
        n == bytes.len() || bytes[n] == stop,
    ensures
        count_until(bytes, stop) == n,
    decreases n,
{
    if n > 0 {
        let tail = bytes.drop_first();
        assert forall|k: int| 0 <= k < n - 1 implies tail[k] != stop by {
            assert(tail[k] == bytes[k + 1]);
        }
        lemma_count_until_is(tail, stop, n - 1);
    }
}

/// A run of `n` bytes equal to `byte` that ends at another byte, or at the
/// end, is what `count_leading` counts.
pub proof fn lemma_count_leading_is(bytes: Seq<u8>, byte: u8, n: int)
    requires
        0 <= n <= bytes.len(),
        forall|k: int| 0 <= k < n ==> bytes[k] == byte,
        n == bytes.len() || bytes[n] != byte,
    ensures
        count_leading(bytes, byte) == n,
    decreases n,
{
    if n > 0 {
        let tail = bytes.drop_first();
        assert forall|k: int| 0 <= k < n - 1 implies tail[k] == byte by {
            assert(tail[k] == bytes[k + 1]);
        }
        lemma_count_leading_is(tail, byte, n - 1);
    }
}

/// What `count_until` counts: it stays inside the bytes, passes no `stop`,
/// and ends at one unless it reaches the end.
pub proof fn lemma_count_until_facts(bytes: Seq<u8>, stop: u8)
    ensures
        count_until(bytes, stop) <= bytes.len(),
        forall|k: int| 0 <= k < count_until(bytes, stop) ==> bytes[k] != stop,
        count_until(bytes, stop) < bytes.len() ==> bytes[count_until(bytes, stop) as int] == stop,
    decreases bytes.len(),
{
    if bytes.len() != 0 && bytes[0] != stop {
        let tail = bytes.drop_first();
        lemma_count_until_facts(tail, stop);
        assert forall|k: int| 0 <= k < count_until(bytes, stop) implies bytes[k] != stop by {
            if k > 0 {
                assert(bytes[k] == tail[k - 1]);
            }
        }
    }
}

/// What `count_leading` counts: it stays inside the bytes, passes only
/// `byte`, and ends at another byte unless it reaches the end.
pub proof fn lemma_count_leading_facts(bytes: Seq<u8>, byte: u8)
    ensures
        count_leading(bytes, byte) <= bytes.len(),
        forall|k: int| 0 <= k < count_leading(bytes, byte) ==> bytes[k] == byte,
        count_leading(bytes, byte) < bytes.len() ==> bytes[count_leading(bytes, byte) as int]
            != byte,
    decreases bytes.len(),
{
    if bytes.len() != 0 && bytes[0] == byte {
        let tail = bytes.drop_first();
        lemma_count_leading_facts(tail, byte);
        assert forall|k: int| 0 <= k < count_leading(bytes, byte) implies bytes[k] == byte by {
            if k > 0 {
                assert(bytes[k] == tail[k - 1]);
            }
        }
    }
}

/// What an optional byte string holds.
pub open spec fn bytes_model(bytes: Option<Vec<u8>>) -> Option<Seq<u8>> {
    match bytes {
        Some(bytes) => Some(bytes@),
        None => None,
    }
}

/// What an optional text holds.
pub open spec fn text_model(text: Option<String>) -> Option<Seq<char>> {
    match text {
        Some(text) => Some(text@),
        None => None,
    }
}

/// What an optional borrowed text holds.
pub open spec fn str_model(text: Option<&str>) -> Option<Seq<char>> {
    match text {
        Some(text) => Some(text@),
        None => None,
    }
}

/// The deep view of a byte vector is its view.
pub proof fn lemma_bytes_deep_view(v: Vec<u8>)
    ensures
        v.deep_view() == v@,
{
    assert(v.deep_view() =~= v@);
}

/// Whether two byte strings hold the same bytes.
pub fn bytes_equal(a: &[u8], b: &[u8]) -> (out: bool)
    ensures
        out == (a@ == b@),
{
    if a.len() != b.len() {
        return false;
    }
    let mut i: usize = 0;
    while i < a.len()
        invariant
            i <= a.len(),
            a.len() == b.len(),
            forall|k: int| 0 <= k < i ==> a@[k] == b@[k],
        decreases a.len() - i,
    {
        if a[i] != b[i] {
            return false;
        }
        i = i + 1;
    }
    assert(a@ =~= b@);
    true
}

/// Whether a byte occurs in a byte string.
pub fn contains_byte(bytes: &[u8], byte: u8) -> (out: bool)
    ensures
        out == bytes@.contains(byte),
{
    let mut i: usize = 0;
    while i < bytes.len()
        invariant
            i <= bytes.len(),
            forall|k: int| 0 <= k < i ==> bytes@[k] != byte,
        decreases bytes.len() - i,
    {
        if bytes[i] == byte {
            return true;
        }
        i = i + 1;
    }
    false
}

/// The index of the first `stop`; the length where there is none.
pub fn find_byte(bytes: &[u8], stop: u8) -> (end: usize)
    ensures
        end == count_until(bytes@, stop),
        end <= bytes.len(),
{
    let mut end: usize = 0;
    while end < bytes.len() && bytes[end] != stop
        invariant
            end <= bytes.len(),
            forall|k: int| 0 <= k < end ==> bytes@[k] != stop,
        decreases bytes.len() - end,
    {
        end = end + 1;
    }
    proof {
        lemma_count_until_is(bytes@, stop, end as int);
    }
    end
}

/// The index of the first byte other than `byte`; the length where there is
/// none.
pub fn skip_byte(bytes: &[u8], byte: u8) -> (end: usize)
    ensures
        end == count_leading(bytes@, byte),
        end <= bytes.len(),
{
    let mut end: usize = 0;
    while end < bytes.len() && bytes[end] == byte
        invariant
            end <= bytes.len(),
            forall|k: int| 0 <= k < end ==> bytes@[k] == byte,
        decreases bytes.len() - end,
    {
        end = end + 1;
    }
    proof {
        lemma_count_leading_is(bytes@, byte, end as int);
    }
    end
}

} // verus!
