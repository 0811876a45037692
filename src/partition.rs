use vstd::prelude::*;

use crate::filter::unique_paths;
use crate::manifest::{
    calc_size, lemma_max_size, lemma_total_size_bound, max_size, size_limit, total_size,
    IntegrityFile,
};

verus! {

broadcast use vstd::seq_lib::group_seq_properties;

/// The contents of each batch.
pub open spec fn view_batches(batches: Seq<Vec<IntegrityFile>>) -> Seq<Seq<IntegrityFile>> {
    batches.map_values(|b: Vec<IntegrityFile>| b@)
}

/// The share of bytes each of `n` workers should get: `total / n`, rounded up.
pub open spec fn batch_target(total: int, n: int) -> int {
    if total % n == 0 {
        total / n
    } else {
        total / n + 1
    }
}

/// A batch did not reach the target before its last file was added.
pub open spec fn open_until_last(batch: Seq<IntegrityFile>, target: int) -> bool {
    batch.len() == 1 || total_size(batch.drop_last()) < target
}

/// A batch was closed by the file that brought it to the target.
pub open spec fn closed_at_target(batch: Seq<IntegrityFile>, target: int) -> bool {
    &&& batch.len() >= 1
    &&& total_size(batch) >= target
    &&& open_until_last(batch, target)
}

/// The size-weighted split of `files` among `n` workers: the batches are the files in
/// order, each batch is closed by the file that brings it to `total / n` (rounded up),
/// and the `n`-th batch, if reached, takes the rest.
pub open spec fn is_size_weighted_split(
    files: Seq<IntegrityFile>,
    n: int,
    batches: Seq<Seq<IntegrityFile>>,
) -> bool {
    let target = batch_target(total_size(files), n);
    &&& batches.flatten() == files
    &&& batches.len() <= n
    &&& forall|j: int| 0 <= j < batches.len() ==> #[trigger] batches[j].len() > 0
    &&& forall|j: int|
        0 <= j < batches.len() - 1 ==> closed_at_target(#[trigger] batches[j], target)
    &&& batches.len() > 0 && batches.len() < n ==> open_until_last(batches.last(), target)
}

/// No batch holds more than an even share plus one largest file.
pub open spec fn is_balanced(
    files: Seq<IntegrityFile>,
    n: int,
    batches: Seq<Seq<IntegrityFile>>,
) -> bool {
    forall|j: int|
        0 <= j < batches.len() ==> total_size(#[trigger] batches[j]) * n <= total_size(files) + n
            * max_size(files)
}

proof fn lemma_target(total: int, n: int)
    requires
        total >= 0,
        n >= 1,
    ensures
        n * batch_target(total, n) >= total,
        n * (batch_target(total, n) - 1) <= total,
        batch_target(total, n) >= 0,
        total / n <= total,
{
    let q = total / n;
    let r = total % n;
    vstd::arithmetic::div_mod::lemma_fundamental_div_mod(total, n);
    vstd::arithmetic::div_mod::lemma_mod_pos_bound(total, n);
    vstd::arithmetic::div_mod::lemma_div_pos_is_pos(total, n);
    vstd::arithmetic::div_mod::lemma_div_is_ordered_by_denominator(total, 1, n);
    assert(total == n * q + r);
    assert(n * (q + 1) == n * q + n) by (nonlinear_arith);
    assert(n * (q - 1) == n * q - n) by (nonlinear_arith);
    assert(n * (q + 1 - 1) == n * q) by (nonlinear_arith);
}

/// A batch that was open until its last file stays within an even share plus one file.
proof fn lemma_open_batch_balanced(batch: Seq<IntegrityFile>, target: int, total: int, n: int, m: int)
    requires
        batch.len() >= 1,
        open_until_last(batch, target),
        batch.last().size <= m,
        n * (target - 1) <= total,
        n >= 1,
        m >= 0,
        total >= 0,
    ensures
        total_size(batch) * n <= total + n * m,
{
    if batch.len() == 1 {
        assert(batch.drop_last().len() == 0);
        assert(total_size(batch.drop_last()) == 0);
        assert(total_size(batch) == batch.last().size);
        assert(total_size(batch) * n <= m * n) by (nonlinear_arith)
            requires
                total_size(batch) <= m,
                n >= 1,
        ;
        assert(m * n == n * m) by (nonlinear_arith);
    } else {
        let t = total_size(batch);
        assert(t <= target - 1 + m);
        assert(t * n <= n * (target - 1) + n * m) by (nonlinear_arith)
            requires
                t <= target - 1 + m,
                n >= 1,
        ;
    }
}

/// Every element of every batch stands in the joined batches, at its batch's offset.
proof fn lemma_in_flatten(batches: Seq<Seq<IntegrityFile>>, j: int, b: int)
    requires
        0 <= j < batches.len(),
        0 <= b < batches[j].len(),
    ensures
        exists|q: int|
            0 <= q < batches.flatten().len() && #[trigger] batches.flatten()[q] == batches[j][b],
    decreases j,
{
    let first = batches.first();
    let rest = batches.drop_first();
    assert(batches.flatten() == first + rest.flatten());
    if j == 0 {
        assert(batches.flatten()[b] == batches[0][b]);
    } else {
        assert(rest[j - 1] == batches[j]);
        lemma_in_flatten(rest, j - 1, b);
        let q = choose|q: int| 0 <= q < rest.flatten().len() && #[trigger] rest.flatten()[q] == rest[j - 1][b];
        assert(batches.flatten()[first.len() + q] == rest.flatten()[q]);
    }
}

/// Batches that together are a list with distinct paths share no path: no file is
/// handled by two workers, and no two workers write to the same path.
pub proof fn lemma_batches_share_no_path(batches: Seq<Seq<IntegrityFile>>)
    requires
        unique_paths(batches.flatten()),
    ensures
        forall|i: int, j: int, a: int, b: int|
            0 <= i < j < batches.len() && 0 <= a < batches[i].len() && 0 <= b < batches[j].len()
                ==> (#[trigger] batches[i][a]).path@ != (#[trigger] batches[j][b]).path@,
    decreases batches.len(),
{
    if batches.len() > 0 {
        let first = batches.first();
        let rest = batches.drop_first();
        let all = batches.flatten();
        let tail = rest.flatten();
        assert(all == first + tail);
        assert forall|x: int, y: int|
            0 <= x < tail.len() && 0 <= y < tail.len() && x != y implies (#[trigger] tail[x]).path@
            != (#[trigger] tail[y]).path@ by {
            assert(all[first.len() + x] == tail[x]);
            assert(all[first.len() + y] == tail[y]);
        }
        lemma_batches_share_no_path(rest);
        assert forall|i: int, j: int, a: int, b: int|
            0 <= i < j < batches.len() && 0 <= a < batches[i].len() && 0 <= b
                < batches[j].len() implies (#[trigger] batches[i][a]).path@ != (
            #[trigger] batches[j][b]).path@ by {
            assert(batches[j] == rest[j - 1]);
            if i == 0 {
                lemma_in_flatten(rest, j - 1, b);
                let q = choose|q: int| 0 <= q < tail.len() && #[trigger] tail[q] == rest[j - 1][b];
                assert(all[a] == batches[0][a]);
                assert(all[first.len() + q] == tail[q]);
            } else {
                assert(batches[i] == rest[i - 1]);
            }
        }
    }
}

/// Thread count actually used for `count` files: never more threads than files.
pub fn clamp_threads(requested: usize, count: usize) -> (r: usize)
    ensures
        r == if requested < count { requested } else { count },
{
    if requested < count {
        requested
    } else {
        count
    }
}

/// Splits `files` into at most `threads` non-empty batches of about equal byte size,
/// keeping manifest order.
#[verifier::rlimit(40)]
pub fn partition(files: &Vec<IntegrityFile>, threads: usize) -> (r: Vec<Vec<IntegrityFile>>)
    requires
        threads >= 1,
    ensures
        is_size_weighted_split(files@, threads as int, view_batches(r@)),
        is_balanced(files@, threads as int, view_batches(r@)),
        files@.len() == 0 ==> r@.len() == 0,
{
    let ghost s = total_size(files@);
    let ghost m = max_size(files@);
    let ghost n = threads as int;
    let total = calc_size(files);
    let n128 = threads as u128;
    let count = files.len();
    proof {
        lemma_target(s, n);
        lemma_max_size(files@);
        lemma_total_size_bound(files@);
        assert(files@.len() == count as int);
        assert(files@.len() * size_limit() <= 0xffff_ffff_ffff_ffff * size_limit())
            by (nonlinear_arith)
            requires
                files@.len() <= 0xffff_ffff_ffff_ffff,
        ;
    }
    let target: u128 = if total % n128 == 0 {
        total / n128
    } else {
        total / n128 + 1
    };
    let mut batches: Vec<Vec<IntegrityFile>> = Vec::new();
    let mut current: Vec<IntegrityFile> = Vec::new();
    let mut current_size: u128 = 0;
    let ghost mut closed: int = 0;
    let mut i: usize = 0;
    assert(batches@.len() == 0);
    assert(batches.len() * target == 0) by (nonlinear_arith)
        requires
            batches.len() == 0,
    ;
    assert(view_batches(batches@).flatten() + current@ =~= files@.take(0));
    while i < files.len()
        invariant
            i <= files.len(),
            n == threads,
            n >= 1,
            s == total_size(files@),
            s >= 0,
            m == max_size(files@),
            target == batch_target(s, n),
            n * target >= s,
            n * (target - 1) <= s,
            forall|k: int| 0 <= k < files@.len() ==> files@[k].size <= m,
            0 <= m,
            view_batches(batches@).flatten() + current@ == files@.take(i as int),
            current_size == total_size(current@),
            closed + current_size == total_size(files@.take(i as int)),
            closed >= batches.len() * target,
            batches.len() < n,
            batches.len() + 1 < n && current@.len() > 0 ==> current_size < target,
            current@.len() == 0 ==> current_size == 0,
            forall|j: int| 0 <= j < batches.len() ==> #[trigger] batches@[j]@.len() > 0,
            forall|j: int|
                0 <= j < batches.len() ==> closed_at_target(#[trigger] batches@[j]@, target as int),
            forall|j: int|
                0 <= j < batches.len() ==> total_size(#[trigger] batches@[j]@) * n <= s + n * m,
        decreases files.len() - i,
    {
        let ghost old_current = current@;
        let ghost old_size = current_size as int;
        proof {
            assert(files@.take(i + 1).drop_last() =~= files@.take(i as int));
            lemma_total_size_bound(files@.take(i + 1));
            assert((i + 1) * size_limit() <= 0xffff_ffff_ffff_ffff * size_limit())
                by (nonlinear_arith)
                requires
                    i + 1 <= 0xffff_ffff_ffff_ffff,
            ;
        }
        let file = files[i].clone();
        let file_size = file.size;
        current.push(file);
        current_size = current_size + file_size as u128;
        proof {
            assert(current@.drop_last() =~= old_current);
            assert(view_batches(batches@).flatten() + current@ =~= files@.take(i + 1));
        }
        if current_size >= target && batches.len() + 1 < threads {
            proof {
                assert(current@.last().size <= m);
                if old_current.len() > 0 {
                    assert(old_size < target);
                }
                lemma_open_batch_balanced(current@, target as int, s, n, m);
            }
            let ghost pushed = current@;
            let ghost old_batches = batches@;
            batches.push(current);
            proof {
                closed = closed + current_size;
                assert(view_batches(batches@) =~= view_batches(old_batches).push(pushed));
                view_batches(old_batches).lemma_flatten_push(pushed);
                assert(batches@[batches.len() - 1]@ == pushed);
                assert((batches.len() - 1) * target + target == batches.len() * target)
                    by (nonlinear_arith);
            }
            current = Vec::new();
            current_size = 0;
            proof {
                assert(view_batches(batches@).flatten() + current@ =~= view_batches(
                    batches@,
                ).flatten());
            }
        }
        i = i + 1;
    }
    assert(files@.take(i as int) =~= files@);
    if current.len() > 0 {
        proof {
            assert(current@.last().size <= m);
            if batches.len() + 1 < n {
                assert(current_size < target);
                if current@.len() > 1 {
                    assert(total_size(current@.drop_last()) <= total_size(current@));
                }
                lemma_open_batch_balanced(current@, target as int, s, n, m);
            } else {
                // The last allowed batch takes what the closed ones left.
                assert(batches.len() == n - 1);
                assert(current_size == s - closed);
                assert(n * (s - closed) <= s) by (nonlinear_arith)
                    requires
                        closed >= (n - 1) * target,
                        n * target >= s,
                        n >= 1,
                ;
                assert(n * m >= 0) by (nonlinear_arith)
                    requires
                        n >= 1,
                        m >= 0,
                ;
                assert(current_size * n == n * (s - closed)) by (nonlinear_arith)
                    requires
                        current_size == s - closed,
                ;
            }
        }
        let ghost pushed = current@;
        let ghost old_batches = batches@;
        batches.push(current);
        proof {
            assert(view_batches(batches@) =~= view_batches(old_batches).push(pushed));
            view_batches(old_batches).lemma_flatten_push(pushed);
            assert(batches@[batches.len() - 1]@ == pushed);
        }
    } else {
        assert(current@ =~= Seq::<IntegrityFile>::empty());
        assert(view_batches(batches@).flatten() + current@ =~= view_batches(batches@).flatten());
    }
    proof {
        let vb = view_batches(batches@);
        assert forall|j: int| 0 <= j < vb.len() implies #[trigger] vb[j].len() > 0 by {
            assert(vb[j] == batches@[j]@);
        }
        assert forall|j: int| 0 <= j < vb.len() - 1 implies closed_at_target(
            #[trigger] vb[j],
            target as int,
        ) by {
            assert(vb[j] == batches@[j]@);
        }
        assert forall|j: int| 0 <= j < vb.len() implies total_size(#[trigger] vb[j]) * n <= s + n
            * m by {
            assert(vb[j] == batches@[j]@);
        }
        if files@.len() == 0 {
            if batches.len() > 0 {
                assert(vb[0].len() > 0);
                vb.lemma_flatten_and_flatten_alt_are_equivalent();
                vb.lemma_flatten_length_ge_single_element_length(0);
            }
        }
    }
    batches
}

} // verus!
