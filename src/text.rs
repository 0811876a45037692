use vstd::prelude::*;

verus! {

/// The lowercase form of a text, as `str::to_lowercase` gives it.
pub uninterp spec fn lower_of(s: Seq<char>) -> Seq<char>;

/// Relies on `str::to_lowercase`: the lowercase form depends on the characters alone.
/// The result is handed back as its characters.
#[verifier::external_body]
pub(crate) fn lowercase_chars(s: &str) -> (r: Vec<char>)
    ensures
        r@ == lower_of(s@),
{
    s.to_lowercase().chars().collect()
}

/// `needle` occurs in `hay` as a contiguous run.
pub open spec fn contains_seq(hay: Seq<char>, needle: Seq<char>) -> bool {
    exists|i: int| 0 <= i <= hay.len() - needle.len() && #[trigger] hay.subrange(i, i + needle.len()) == needle
}

/// `needle` occurs in `hay` starting at `i`.
pub open spec fn occurs_at(hay: Seq<char>, needle: Seq<char>, i: int) -> bool {
    forall|k: int| 0 <= k < needle.len() ==> #[trigger] hay[i + k] == needle[k]
}

/// Whether `needle` occurs in `hay`.
pub fn contains_chars(hay: &Vec<char>, needle: &Vec<char>) -> (r: bool)
    ensures
        r == contains_seq(hay@, needle@),
{
    if needle.len() > hay.len() {
        proof {
            assert forall|i: int| 0 <= i <= hay@.len() - needle@.len() implies #[trigger] hay@.subrange(
                i,
                i + needle@.len(),
            ) != needle@ by {}
        }
        return false;
    }
    let hay_len = hay.len();
    let last = hay_len - needle.len();
    let mut i: usize = 0;
    while i <= last
        invariant
            last == hay@.len() - needle@.len(),
            hay@.len() == hay_len,
            i <= last + 1,
            forall|p: int| 0 <= p < i ==> #[trigger] hay@.subrange(p, p + needle@.len()) != needle@,
        decreases last + 1 - i,
    {
        let mut k: usize = 0;
        let mut same = true;
        while k < needle.len()
            invariant
                i <= last,
                last == hay@.len() - needle@.len(),
                k <= needle@.len(),
                needle@.len() <= hay@.len(),
                i + needle@.len() <= hay@.len(),
                hay@.len() == hay_len,
                same == (forall|q: int| 0 <= q < k ==> hay@[i + q] == needle@[q]),
            decreases needle.len() - k,
        {
            if hay[i + k] != needle[k] {
                same = false;
            }
            k = k + 1;
        }
        if same {
            assert(hay@.subrange(i as int, i + needle@.len()) =~= needle@);
            return true;
        } else {
            proof {
                let q = choose|q: int| 0 <= q < needle@.len() && hay@[i + q] != needle@[q];
                assert(hay@.subrange(i as int, i + needle@.len())[q] != needle@[q]);
            }
        }
        if i == last {
            return false;
        }
        i = i + 1;
    }
    false
}

/// Whether two texts are equal. Every character is looked at whatever the earlier ones
/// were, so that comparing checksums takes the same time wherever they differ.
pub fn same_chars(a: &str, b: &str) -> (r: bool)
    ensures
        r == (a@ == b@),
{
    let n = a.unicode_len();
    if n != b.unicode_len() {
        proof {
            assert(a@.len() != b@.len());
        }
        return false;
    }
    let mut same = true;
    let mut i: usize = 0;
    while i < n
        invariant
            n == a@.len(),
            n == b@.len(),
            i <= n,
            same == (forall|k: int| 0 <= k < i ==> a@[k] == b@[k]),
        decreases n - i,
    {
        let differs = a.get_char(i) != b.get_char(i);
        same = same && !differs;
        i = i + 1;
    }
    if same {
        assert(a@ =~= b@);
    }
    same
}

} // verus!
