//! Case-insensitive substring filtering for captured-frame summaries.
//!
//! The capture panel's filter is matched against the text fields of each
//! summary after folding ASCII letters to lower case on both sides, so the
//! match is case-insensitive.  Matching is done on UTF-8 bytes.

use vstd::prelude::*;

verus! {

/// ASCII upper-case letters folded to lower case; every other byte kept.
pub open spec fn fold_byte(b: u8) -> u8 {
    if 65 <= b <= 90 {
        (b + 32) as u8
    } else {
        b
    }
}

/// Byte-wise case folding of a whole sequence.
pub open spec fn fold_bytes(s: Seq<u8>) -> Seq<u8> {
    s.map_values(|b: u8| fold_byte(b))
}

/// The needle occurs in the hay at position `i`, compared case-insensitively.
pub open spec fn match_at(hay: Seq<u8>, needle: Seq<u8>, i: int) -> bool {
    &&& 0 <= i
    &&& i + needle.len() <= hay.len()
    &&& fold_bytes(hay).subrange(i, i + needle.len()) == fold_bytes(needle)
}

/// The needle occurs somewhere in the hay, compared case-insensitively.
pub open spec fn contains_ci(hay: Seq<u8>, needle: Seq<u8>) -> bool {
    exists|i: int| match_at(hay, needle, i)
}

fn fold_byte_exec(b: u8) -> (r: u8)
    ensures
        r == fold_byte(b),
{
    if 65 <= b && b <= 90 {
        b + 32
    } else {
        b
    }
}

/// Fold a byte string to lower case, as the filter is folded once when a
/// capture starts.
pub fn fold_ascii_lower(s: &[u8]) -> (r: Vec<u8>)
    ensures
        r@ == fold_bytes(s@),
{
    let mut r: Vec<u8> = Vec::new();
    let mut i: usize = 0;
    while i < s.len()
        invariant
            i <= s@.len(),
            r@ =~= fold_bytes(s@).subrange(0, i as int),
        decreases s@.len() - i,
    {
        r.push(fold_byte_exec(s[i]));
        i = i + 1;
        assert(r@ =~= fold_bytes(s@).subrange(0, i as int));
    }
    assert(fold_bytes(s@).subrange(0, s@.len() as int) =~= fold_bytes(s@));
    r
}

/// Does the needle occur in the hay, ignoring ASCII case?
pub fn contains_case_insensitive(hay: &[u8], needle: &[u8]) -> (r: bool)
    ensures
        r == contains_ci(hay@, needle@),
{
    let n = needle.len();
    let h = hay.len();
    if n > h {
        assert(!contains_ci(hay@, needle@));
        return false;
    }
    if n == 0 {
        proof {
            assert(needle@ =~= Seq::<u8>::empty());
            lemma_contains_ci_empty(hay@);
        }
        return true;
    }
    let mut i: usize = 0;
    while i <= h - n
        invariant
            n == needle@.len(),
            h == hay@.len(),
            1 <= n <= h,
            i <= h - n + 1,
            forall|k: int| 0 <= k < i ==> !match_at(hay@, needle@, k),
        decreases h + 1 - n - i,
    {
        let mut j: usize = 0;
        let mut hit = true;
        while j < n
            invariant
                n == needle@.len(),
                h == hay@.len(),
                1 <= n <= h,
                i <= h - n,
                j <= n,
                hit ==> forall|l: int|
                    0 <= l < j ==> fold_byte(hay@[i + l]) == fold_byte(needle@[l]),
                !hit ==> !match_at(hay@, needle@, i as int),
            decreases n - j,
        {
            if hit {
                let a = fold_byte_exec(hay[i + j]);
                let b = fold_byte_exec(needle[j]);
                if a != b {
                    proof {
                        assert(fold_bytes(hay@).subrange(i as int, i + needle@.len())[j as int]
                            == fold_byte(hay@[i + j]));
                        assert(fold_bytes(needle@)[j as int] == fold_byte(needle@[j as int]));
                    }
                    hit = false;
                }
            }
            j = j + 1;
        }
        if hit {
            proof {
                assert(fold_bytes(hay@).subrange(i as int, i + needle@.len()) =~= fold_bytes(
                    needle@,
                ));
                assert(match_at(hay@, needle@, i as int));
            }
            return true;
        }
        i = i + 1;
    }
    proof {
        assert forall|k: int| match_at(hay@, needle@, k) implies false by {
            assert(0 <= k < i);
        }
    }
    false
}

/// Folding is idempotent: folding an already folded sequence changes nothing.
pub proof fn lemma_fold_idempotent(s: Seq<u8>)
    ensures
        fold_bytes(fold_bytes(s)) == fold_bytes(s),
{
    assert(fold_bytes(fold_bytes(s)) =~= fold_bytes(s));
}

/// Case-insensitivity: folding either side to lower case beforehand does not
/// change whether the filter matches.
pub proof fn lemma_contains_ci_case_insensitive(hay: Seq<u8>, needle: Seq<u8>)
    ensures
        contains_ci(hay, fold_bytes(needle)) == contains_ci(hay, needle),
        contains_ci(fold_bytes(hay), needle) == contains_ci(hay, needle),
{
    lemma_fold_idempotent(hay);
    lemma_fold_idempotent(needle);
    if contains_ci(hay, needle) {
        let i = choose|i: int| match_at(hay, needle, i);
        assert(match_at(hay, fold_bytes(needle), i));
        assert(match_at(fold_bytes(hay), needle, i));
    }
    if contains_ci(hay, fold_bytes(needle)) {
        let i = choose|i: int| match_at(hay, fold_bytes(needle), i);
        assert(match_at(hay, needle, i));
    }
    if contains_ci(fold_bytes(hay), needle) {
        let i = choose|i: int| match_at(fold_bytes(hay), needle, i);
        assert(match_at(hay, needle, i));
    }
}

/// The empty needle matches everything.
pub proof fn lemma_contains_ci_empty(hay: Seq<u8>)
    ensures
        contains_ci(hay, Seq::<u8>::empty()),
{
    assert(match_at(hay, Seq::<u8>::empty(), 0)) by {
        assert(fold_bytes(hay).subrange(0, 0) =~= fold_bytes(Seq::<u8>::empty()));
    }
}

} // verus!
