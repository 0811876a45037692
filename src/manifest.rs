use vstd::prelude::*;

verus! {

/// One expected file of an installation, as listed by a manifest.
pub struct IntegrityFile {
    /// Path relative to the installation root, with forward slashes.
    pub path: String,
    /// Expected length in bytes.
    pub size: u64,
    /// Expected checksum (hexadecimal digest), compared by equality.
    pub checksum: String,
    /// Absolute URL of the canonical copy.
    pub remote_url: String,
}

impl Clone for IntegrityFile {
    fn clone(&self) -> (r: Self)
        ensures
            r == *self,
    {
        IntegrityFile {
            path: self.path.clone(),
            size: self.size,
            checksum: self.checksum.clone(),
            remote_url: self.remote_url.clone(),
        }
    }
}

/// A relative path that stays inside the installation: not empty, not starting with the
/// separator, and without `..` anywhere in it.
pub open spec fn valid_path(path: Seq<char>) -> bool {
    &&& path.len() > 0
    &&& path[0] != '/'
    &&& forall|i: int| 0 <= i < path.len() - 1 ==> !(#[trigger] path[i] == '.' && path[i + 1] == '.')
}

impl IntegrityFile {
    /// The record's path is a valid relative path.
    pub open spec fn well_formed(&self) -> bool {
        valid_path(self.path@)
    }

    /// Whether the record's path is a valid relative path.
    pub fn has_valid_path(&self) -> (r: bool)
        ensures
            r == self.well_formed(),
    {
        let path = self.path.as_str();
        let n = path.unicode_len();
        if n == 0 || path.get_char(0) == '/' {
            return false;
        }
        let mut i: usize = 0;
        while i + 1 < n
            invariant
                n == path@.len(),
                path@ == self.path@,
                n >= 1,
                i < n,
                forall|k: int| 0 <= k < i ==> !(#[trigger] path@[k] == '.' && path@[k + 1] == '.'),
            decreases n - i,
        {
            if path.get_char(i) == '.' && path.get_char(i + 1) == '.' {
                assert(path@[i as int] == '.' && path@[i + 1] == '.');
                return false;
            }
            i = i + 1;
        }
        true
    }
}

/// Every record of the list is well formed.
pub open spec fn all_well_formed(files: Seq<IntegrityFile>) -> bool {
    forall|i: int| 0 <= i < files.len() ==> (#[trigger] files[i]).well_formed()
}

/// Whether every record of the list is well formed.
pub fn check_records(files: &Vec<IntegrityFile>) -> (r: bool)
    ensures
        r == all_well_formed(files@),
{
    let mut i: usize = 0;
    while i < files.len()
        invariant
            i <= files@.len(),
            forall|k: int| 0 <= k < i ==> (#[trigger] files@[k]).well_formed(),
        decreases files.len() - i,
    {
        if !files[i].has_valid_path() {
            return false;
        }
        i = i + 1;
    }
    true
}

/// Largest value an `u64` size can take, as an integer.
pub open spec fn size_limit() -> int {
    0xffff_ffff_ffff_ffff
}

/// Sum of the sizes of a list of files.
pub open spec fn total_size(files: Seq<IntegrityFile>) -> int
    decreases files.len(),
{
    if files.len() == 0 {
        0
    } else {
        total_size(files.drop_last()) + files.last().size
    }
}

/// Largest size in a list of files (0 for an empty list).
pub open spec fn max_size(files: Seq<IntegrityFile>) -> int
    decreases files.len(),
{
    if files.len() == 0 {
        0
    } else {
        let m = max_size(files.drop_last());
        if files.last().size > m {
            files.last().size as int
        } else {
            m
        }
    }
}

/// A total of `n` sizes is at most `n` times the largest `u64`.
pub proof fn lemma_total_size_bound(files: Seq<IntegrityFile>)
    ensures
        0 <= total_size(files) <= files.len() * size_limit(),
    decreases files.len(),
{
    if files.len() > 0 {
        lemma_total_size_bound(files.drop_last());
        assert(files.len() * size_limit() == (files.len() - 1) * size_limit() + size_limit())
            by (nonlinear_arith);
    }
}

/// Every size is at most the largest one, and a total is at most the count times it.
pub proof fn lemma_max_size(files: Seq<IntegrityFile>)
    ensures
        forall|i: int| 0 <= i < files.len() ==> files[i].size <= max_size(files),
        0 <= max_size(files),
    decreases files.len(),
{
    if files.len() > 0 {
        lemma_max_size(files.drop_last());
        assert forall|i: int| 0 <= i < files.len() implies files[i].size <= max_size(files) by {
            if i < files.len() - 1 {
                assert(files[i] == files.drop_last()[i]);
            }
        }
    }
}

/// Total size of `files`. The sum is taken in `u128`, where it cannot overflow.
pub fn calc_size(files: &Vec<IntegrityFile>) -> (r: u128)
    ensures
        r == total_size(files@),
{
    let mut size: u128 = 0;
    let mut i: usize = 0;
    while i < files.len()
        invariant
            i <= files.len(),
            size == total_size(files@.take(i as int)),
            size <= i * size_limit(),
        decreases files.len() - i,
    {
        proof {
            assert(files@.take(i + 1).drop_last() =~= files@.take(i as int));
            assert(i * size_limit() + size_limit() == (i + 1) * size_limit()) by (nonlinear_arith);
            assert((i + 1) * size_limit() <= 0xffff_ffff_ffff_ffff * size_limit())
                by (nonlinear_arith)
                requires
                    i + 1 <= 0xffff_ffff_ffff_ffff,
            ;
        }
        size = size + files[i].size as u128;
        i = i + 1;
    }
    assert(files@.take(i as int) =~= files@);
    size
}

} // verus!
