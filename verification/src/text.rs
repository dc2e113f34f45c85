//! Character-level text predicates used by the configuration and sensor rules.
use vstd::prelude::*;

verus! {

/// `needle` occurs as a contiguous run of characters somewhere in `hay`.
pub open spec fn has_substring(hay: Seq<char>, needle: Seq<char>) -> bool {
    exists|i: int|
        0 <= i && i + needle.len() <= hay.len() && #[trigger] hay.subrange(i, i + needle.len())
            == needle
}

/// `needle` occurs in `hay` starting exactly at character index `i`.
pub open spec fn occurs_at(hay: Seq<char>, needle: Seq<char>, i: int) -> bool {
    &&& 0 <= i
    &&& i + needle.len() <= hay.len()
    &&& forall|k: int| 0 <= k < needle.len() ==> #[trigger] hay[i + k] == needle[k]
}

proof fn lemma_occurs_at_iff_subrange(hay: Seq<char>, needle: Seq<char>, i: int)
    requires
        0 <= i,
        i + needle.len() <= hay.len(),
    ensures
        occurs_at(hay, needle, i) <==> hay.subrange(i, i + needle.len()) == needle,
{
    if occurs_at(hay, needle, i) {
        assert forall|k: int| 0 <= k < needle.len() implies #[trigger] hay.subrange(
            i,
            i + needle.len(),
        )[k] == needle[k] by {
            assert(hay[i + k] == needle[k]);
        }
        assert(hay.subrange(i, i + needle.len()) =~= needle);
    }
    if hay.subrange(i, i + needle.len()) == needle {
        assert forall|k: int| 0 <= k < needle.len() implies #[trigger] hay[i + k] == needle[k] by {
            assert(hay.subrange(i, i + needle.len())[k] == hay[i + k]);
        }
    }
}

/// Whether the two texts hold the same characters.
pub fn text_equals(a: &str, b: &str) -> (same: bool)
    ensures
        same == (a@ == b@),
{
    let n = a.unicode_len();
    if n != b.unicode_len() {
        return false;
    }
    let mut i: usize = 0;
    while i < n
        invariant
            n == a@.len(),
            n == b@.len(),
            0 <= i <= n,
            forall|k: int| 0 <= k < i ==> a@[k] == b@[k],
        decreases n - i,
    {
        if a.get_char(i) != b.get_char(i) {
            return false;
        }
        i = i + 1;
    }
    assert(a@ =~= b@);
    true
}

/// Whether the characters of `needle` occur contiguously in `hay`.
pub fn contains_text(hay: &str, needle: &str) -> (found: bool)
    ensures
        found == has_substring(hay@, needle@),
{
    let n = hay.unicode_len();
    let m = needle.unicode_len();
    if m > n {
        assert forall|i: int|
            0 <= i && i + needle@.len() <= hay@.len() implies #[trigger] hay@.subrange(
            i,
            i + needle@.len(),
        ) != needle@ by {}
        return false;
    }
    let mut start: usize = 0;
    while start <= n - m
        invariant
            n == hay@.len(),
            m == needle@.len(),
            m <= n,
            0 <= start <= n - m + 1,
            forall|i: int| 0 <= i < start ==> !occurs_at(hay@, needle@, i),
        decreases n - m + 1 - start,
    {
        let mut k: usize = 0;
        while k < m && hay.get_char(start + k) == needle.get_char(k)
            invariant
                n == hay@.len(),
                m == needle@.len(),
                start + m <= n,
                0 <= k <= m,
                forall|j: int| 0 <= j < k ==> #[trigger] hay@[start + j] == needle@[j],
            decreases m - k,
        {
            k = k + 1;
        }
        if k == m {
            assert(occurs_at(hay@, needle@, start as int));
            proof {
                lemma_occurs_at_iff_subrange(hay@, needle@, start as int);
            }
            return true;
        }
        assert(hay@[start + k] != needle@[k as int]);
        assert(!occurs_at(hay@, needle@, start as int));
        start = start + 1;
    }
    assert forall|i: int|
        0 <= i && i + needle@.len() <= hay@.len() implies #[trigger] hay@.subrange(
        i,
        i + needle@.len(),
    ) != needle@ by {
        lemma_occurs_at_iff_subrange(hay@, needle@, i);
    }
    false
}

} // verus!
