use vstd::prelude::*;

use crate::manifest::IntegrityFile;
use crate::text::{contains_chars, contains_seq, lower_of, lowercase_chars};

verus! {

/// The lowercase forms of the ignore patterns.
pub open spec fn lowered_patterns(ignore: Seq<String>) -> Seq<Seq<char>> {
    ignore.map_values(|p: String| lower_of(p@))
}

/// Some pattern occurs in the (already lowercased) path.
pub open spec fn matches_any(path: Seq<char>, patterns: Seq<Seq<char>>) -> bool {
    exists|k: int| 0 <= k < patterns.len() && contains_seq(path, #[trigger] patterns[k])
}

/// A path is ignored when its lowercase form contains the lowercase form of a pattern.
pub open spec fn is_ignored(path: Seq<char>, ignore: Seq<String>) -> bool {
    matches_any(lower_of(path), lowered_patterns(ignore))
}

/// Some file of the list has this path.
pub open spec fn has_path(files: Seq<IntegrityFile>, path: Seq<char>) -> bool {
    exists|j: int| 0 <= j < files.len() && (#[trigger] files[j]).path@ == path
}

/// The manifest without ignored files and without repeated paths, the first occurrence
/// of a path being kept, in manifest order.
pub open spec fn kept_files(files: Seq<IntegrityFile>, ignore: Seq<String>) -> Seq<IntegrityFile>
    decreases files.len(),
{
    if files.len() == 0 {
        Seq::empty()
    } else {
        let prev = kept_files(files.drop_last(), ignore);
        let f = files.last();
        if is_ignored(f.path@, ignore) || has_path(prev, f.path@) {
            prev
        } else {
            prev.push(f)
        }
    }
}

/// No two files of the list share a path.
pub open spec fn unique_paths(files: Seq<IntegrityFile>) -> bool {
    forall|i: int, j: int|
        0 <= i < files.len() && 0 <= j < files.len() && i != j ==> (#[trigger] files[i]).path@
            != (#[trigger] files[j]).path@
}

/// What the filter keeps is taken from the manifest, is not ignored, and has distinct paths.
pub proof fn lemma_kept_files(files: Seq<IntegrityFile>, ignore: Seq<String>)
    ensures
        forall|i: int|
            0 <= i < kept_files(files, ignore).len() ==> files.contains(
                #[trigger] kept_files(files, ignore)[i],
            ) && !is_ignored(kept_files(files, ignore)[i].path@, ignore),
        unique_paths(kept_files(files, ignore)),
    decreases files.len(),
{
    if files.len() > 0 {
        let prev = kept_files(files.drop_last(), ignore);
        lemma_kept_files(files.drop_last(), ignore);
        let r = kept_files(files, ignore);
        assert forall|i: int| 0 <= i < r.len() implies files.contains(#[trigger] r[i]) && !is_ignored(
            r[i].path@,
            ignore,
        ) by {
            if i < prev.len() {
                assert(r[i] == prev[i]);
                let w = choose|w: int| 0 <= w < files.drop_last().len() && files.drop_last()[w] == prev[i];
                assert(files[w] == r[i]);
            } else {
                assert(r[i] == files[files.len() - 1]);
            }
        }
        assert forall|i: int, j: int|
            0 <= i < r.len() && 0 <= j < r.len() && i != j implies (#[trigger] r[i]).path@ != (
            #[trigger] r[j]).path@ by {
            if i < prev.len() && j < prev.len() {
                assert(r[i] == prev[i] && r[j] == prev[j]);
            } else if i < prev.len() {
                assert(r[i] == prev[i]);
            } else {
                assert(r[j] == prev[j]);
            }
        }
    }
}

/// Whether an already lowercased path contains one of the already lowercased patterns.
pub fn matches_lowered(path: &Vec<char>, patterns: &Vec<Vec<char>>) -> (r: bool)
    ensures
        r == matches_any(path@, patterns@.map_values(|p: Vec<char>| p@)),
{
    let ghost pv = patterns@.map_values(|p: Vec<char>| p@);
    let mut k: usize = 0;
    while k < patterns.len()
        invariant
            k <= patterns@.len(),
            pv == patterns@.map_values(|p: Vec<char>| p@),
            forall|q: int| 0 <= q < k ==> !contains_seq(path@, #[trigger] pv[q]),
        decreases patterns.len() - k,
    {
        if contains_chars(path, &patterns[k]) {
            assert(contains_seq(path@, pv[k as int]));
            return true;
        }
        k = k + 1;
    }
    false
}

/// Drops every file whose lowercase path contains the lowercase form of an ignore
/// pattern, and every later file repeating a path already kept.
pub fn filter_ignored(files: &Vec<IntegrityFile>, ignore: &Vec<String>) -> (r: Vec<IntegrityFile>)
    ensures
        r@ == kept_files(files@, ignore@),
{
    let mut patterns: Vec<Vec<char>> = Vec::new();
    let mut k: usize = 0;
    while k < ignore.len()
        invariant
            k <= ignore@.len(),
            patterns@.len() == k,
            patterns@.map_values(|p: Vec<char>| p@) == lowered_patterns(ignore@).take(k as int),
        decreases ignore.len() - k,
    {
        let lowered = lowercase_chars(ignore[k].as_str());
        let ghost before = patterns@;
        patterns.push(lowered);
        proof {
            let now = patterns@.map_values(|p: Vec<char>| p@);
            let want = lowered_patterns(ignore@).take(k + 1);
            assert forall|q: int| 0 <= q < k + 1 implies now[q] == want[q] by {
                if q < k {
                    assert(patterns@[q] == before[q]);
                    assert(before.map_values(|p: Vec<char>| p@)[q] == lowered_patterns(ignore@).take(k as int)[q]);
                }
            }
            assert(now =~= want);
        }
        k = k + 1;
    }
    assert(lowered_patterns(ignore@).take(k as int) =~= lowered_patterns(ignore@));
    let mut kept: Vec<IntegrityFile> = Vec::new();
    let mut i: usize = 0;
    while i < files.len()
        invariant
            i <= files@.len(),
            patterns@.map_values(|p: Vec<char>| p@) == lowered_patterns(ignore@),
            kept@ == kept_files(files@.take(i as int), ignore@),
        decreases files.len() - i,
    {
        let ghost prefix = files@.take(i + 1);
        assert(prefix.drop_last() =~= files@.take(i as int));
        let path = lowercase_chars(files[i].path.as_str());
        let ignored = matches_lowered(&path, &patterns);
        let mut seen = false;
        if !ignored {
            let mut j: usize = 0;
            while j < kept.len()
                invariant
                    j <= kept@.len(),
                    i < files@.len(),
                    seen == (exists|q: int| 0 <= q < j && (#[trigger] kept@[q]).path@ == files@[i as int].path@),
                decreases kept.len() - j,
            {
                if kept[j].path == files[i].path {
                    seen = true;
                }
                j = j + 1;
            }
        }
        if !ignored && !seen {
            kept.push(files[i].clone());
        }
        i = i + 1;
    }
    assert(files@.take(i as int) =~= files@);
    kept
}

} // verus!
