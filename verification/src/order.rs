//! The orderer: a stable insertion sort of photo records by the
//! chronological comparator, and the optional descending reversal of the
//! fully sorted sequence.

use vstd::prelude::*;
use core::cmp::Ordering;
use crate::photo::{PhotoFile, lemma_cmp_flip, spec_cmp};

verus! {

/// Where an insertion sort puts `x` into `s`: scanning from the right, `x`
/// passes every element that compares strictly greater and stops at the
/// first that does not, so a tie keeps the earlier element first.
pub open spec fn spec_insert(s: Seq<PhotoFile>, x: PhotoFile) -> Seq<PhotoFile>
    decreases s.len(),
{
    if s.len() == 0 {
        seq![x]
    } else if spec_cmp(s.last(), x) == Ordering::Greater {
        spec_insert(s.drop_last(), x).push(s.last())
    } else {
        s.push(x)
    }
}

/// The stable insertion sort of `s` by the chronological comparator:
/// records tied under the comparator keep their listing order.
pub open spec fn spec_sort(s: Seq<PhotoFile>) -> Seq<PhotoFile>
    decreases s.len(),
{
    if s.len() == 0 {
        Seq::empty()
    } else {
        spec_insert(spec_sort(s.drop_last()), s.last())
    }
}

/// Adjacent order by the comparator: no record compares strictly greater
/// than its successor.
pub open spec fn spec_ordered(s: Seq<PhotoFile>) -> bool {
    forall|i: int| 0 <= i < s.len() - 1 ==> #[trigger] spec_cmp(s[i], s[i + 1]) != Ordering::Greater
}

proof fn lemma_insert_len(s: Seq<PhotoFile>, x: PhotoFile)
    ensures
        spec_insert(s, x).len() == s.len() + 1,
    decreases s.len(),
{
    if s.len() > 0 && spec_cmp(s.last(), x) == Ordering::Greater {
        lemma_insert_len(s.drop_last(), x);
    }
}

/// If everything from position `j` on compares strictly greater than `x`
/// and the element just before `j` (if any) does not, the insertion puts
/// `x` exactly at `j`.
proof fn lemma_insert_at(s: Seq<PhotoFile>, x: PhotoFile, j: int)
    requires
        0 <= j <= s.len(),
        forall|k: int| j <= k < s.len() ==> spec_cmp(#[trigger] s[k], x) == Ordering::Greater,
        j > 0 ==> spec_cmp(s[j - 1], x) != Ordering::Greater,
    ensures
        spec_insert(s, x) == s.subrange(0, j) + seq![x] + s.subrange(j, s.len() as int),
    decreases s.len(),
{
    if s.len() == 0 {
        assert(spec_insert(s, x) =~= s.subrange(0, 0) + seq![x] + s.subrange(0, 0));
    } else if j == s.len() {
        assert(spec_cmp(s.last(), x) != Ordering::Greater);
        assert(spec_insert(s, x) =~= s.subrange(0, j) + seq![x] + s.subrange(j, s.len() as int));
    } else {
        assert(spec_cmp(s.last(), x) == Ordering::Greater);
        lemma_insert_at(s.drop_last(), x, j);
        assert(spec_insert(s, x) =~= s.subrange(0, j) + seq![x] + s.subrange(j, s.len() as int));
    }
}

/// Inserting into an ordered sequence keeps it ordered.
proof fn lemma_insert_ordered(s: Seq<PhotoFile>, x: PhotoFile)
    requires
        spec_ordered(s),
    ensures
        spec_ordered(spec_insert(s, x)),
    decreases s.len(),
{
    if s.len() == 0 {
    } else if spec_cmp(s.last(), x) == Ordering::Greater {
        let dl = s.drop_last();
        assert(spec_ordered(dl)) by {
            assert forall|i: int| 0 <= i < dl.len() - 1 implies #[trigger] spec_cmp(dl[i], dl[i + 1])
                != Ordering::Greater by {
                assert(spec_cmp(s[i], s[i + 1]) != Ordering::Greater);
            }
        }
        lemma_insert_ordered(dl, x);
        lemma_insert_len(dl, x);
        let q = spec_insert(dl, x);
        let r = q.push(s.last());
        // The last element of q is either x or the last element of dl; in
        // both cases it does not compare strictly greater than s.last().
        assert(spec_cmp(q.last(), s.last()) != Ordering::Greater) by {
            if dl.len() == 0 {
                lemma_cmp_flip(s.last(), x);
            } else if spec_cmp(dl.last(), x) == Ordering::Greater {
                assert(q.last() == dl.last());
                let i = s.len() - 2;
                assert(spec_cmp(s[i], s[i + 1]) != Ordering::Greater);
            } else {
                assert(q.last() == x);
                lemma_cmp_flip(s.last(), x);
            }
        }
        assert forall|i: int| 0 <= i < r.len() - 1 implies #[trigger] spec_cmp(r[i], r[i + 1])
            != Ordering::Greater by {
            if i < q.len() - 1 {
                assert(r[i] == q[i] && r[i + 1] == q[i + 1]);
                assert(spec_cmp(q[i], q[i + 1]) != Ordering::Greater);
            } else {
                assert(r[i] == q.last() && r[i + 1] == s.last());
            }
        }
    } else {
        let r = s.push(x);
        assert forall|i: int| 0 <= i < r.len() - 1 implies #[trigger] spec_cmp(r[i], r[i + 1])
            != Ordering::Greater by {
            if i < s.len() - 1 {
                assert(r[i] == s[i] && r[i + 1] == s[i + 1]);
                assert(spec_cmp(s[i], s[i + 1]) != Ordering::Greater);
            } else {
                assert(r[i] == s.last() && r[i + 1] == x);
            }
        }
    }
}

/// Inserting adds exactly one copy of `x` to the records.
proof fn lemma_insert_multiset(s: Seq<PhotoFile>, x: PhotoFile)
    ensures
        spec_insert(s, x).to_multiset() == s.to_multiset().insert(x),
    decreases s.len(),
{
    broadcast use vstd::seq_lib::group_to_multiset_ensures;

    if s.len() == 0 {
        assert(seq![x] =~= Seq::<PhotoFile>::empty().push(x));
        assert(Seq::<PhotoFile>::empty().push(x).to_multiset() =~= Seq::<
            PhotoFile,
        >::empty().to_multiset().insert(x));
    } else if spec_cmp(s.last(), x) == Ordering::Greater {
        let dl = s.drop_last();
        lemma_insert_multiset(dl, x);
        assert(spec_insert(dl, x).push(s.last()).to_multiset() =~= spec_insert(
            dl,
            x,
        ).to_multiset().insert(s.last()));
        assert(dl.push(s.last()) =~= s);
        assert(s.to_multiset() =~= dl.to_multiset().insert(s.last()));
        assert(dl.to_multiset().insert(x).insert(s.last()) =~= dl.to_multiset().insert(
            s.last(),
        ).insert(x));
    } else {
        assert(s.push(x).to_multiset() =~= s.to_multiset().insert(x));
    }
}

/// The sort is ordered: in the sorted sequence no record compares strictly
/// greater than its successor. Together with `lemma_sort_permutation` this
/// pins down what sorting does; in particular a record with a readable
/// timestamp never stands after one with a strictly later timestamp.
pub proof fn lemma_sort_ordered(s: Seq<PhotoFile>)
    ensures
        spec_ordered(spec_sort(s)),
    decreases s.len(),
{
    if s.len() > 0 {
        lemma_sort_ordered(s.drop_last());
        lemma_insert_ordered(spec_sort(s.drop_last()), s.last());
    }
}

/// The sort is a permutation: it hands back exactly the records it was
/// given, reordered.
pub proof fn lemma_sort_permutation(s: Seq<PhotoFile>)
    ensures
        spec_sort(s).to_multiset() == s.to_multiset(),
        spec_sort(s).len() == s.len(),
    decreases s.len(),
{
    broadcast use vstd::seq_lib::group_to_multiset_ensures;

    if s.len() > 0 {
        let dl = s.drop_last();
        lemma_sort_permutation(dl);
        lemma_insert_multiset(spec_sort(dl), s.last());
        lemma_insert_len(spec_sort(dl), s.last());
        assert(dl.push(s.last()) =~= s);
        assert(s.to_multiset() =~= dl.to_multiset().insert(s.last()));
    }
}

fn insert_sorted(v: &mut Vec<PhotoFile>, x: PhotoFile)
    ensures
        final(v)@ == spec_insert(old(v)@, x),
{
    let mut j: usize = v.len();
    loop
        invariant
            j <= v@.len(),
            v@ == old(v)@,
            forall|k: int| j <= k < v@.len() ==> spec_cmp(#[trigger] v@[k], x) == Ordering::Greater,
        ensures
            j <= v@.len(),
            v@ == old(v)@,
            forall|k: int| j <= k < v@.len() ==> spec_cmp(#[trigger] v@[k], x) == Ordering::Greater,
            j > 0 ==> spec_cmp(v@[j - 1], x) != Ordering::Greater,
        decreases j,
    {
        if j == 0 {
            break;
        }
        let ord = v[j - 1].cmp(&x);
        if !matches!(ord, Ordering::Greater) {
            break;
        }
        j -= 1;
    }
    proof {
        lemma_insert_at(v@, x, j as int);
    }
    v.insert(j, x);
    proof {
        assert(old(v)@.insert(j as int, x) =~= old(v)@.subrange(0, j as int) + seq![x] + old(
            v,
        )@.subrange(j as int, old(v)@.len() as int));
    }
}

/// Sorts the records chronologically, keeping the listing order of records
/// the comparator does not separate.
pub fn sort_photos(files: Vec<PhotoFile>) -> (r: Vec<PhotoFile>)
    ensures
        r@ == spec_sort(files@),
{
    let ghost orig = files@;
    let n = files.len();
    let mut files = files;
    let mut r: Vec<PhotoFile> = Vec::new();
    let mut i: usize = 0;
    proof {
        assert(orig.skip(0) =~= orig);
    }
    while files.len() > 0
        invariant
            orig.len() == n,
            i <= orig.len(),
            files@ == orig.skip(i as int),
            r@ == spec_sort(orig.take(i as int)),
        decreases files@.len(),
    {
        let x = files.remove(0);
        proof {
            assert(x == orig[i as int]);
            assert(orig.skip(i as int).remove(0) =~= orig.skip(i + 1));
        }
        insert_sorted(&mut r, x);
        proof {
            assert(orig.take(i + 1).drop_last() =~= orig.take(i as int));
            assert(orig.take(i + 1).last() == orig[i as int]);
        }
        i += 1;
    }
    proof {
        assert(orig.take(i as int) =~= orig);
    }
    r
}

fn reverse_photos(files: Vec<PhotoFile>) -> (r: Vec<PhotoFile>)
    ensures
        r@ == files@.reverse(),
{
    let ghost orig = files@;
    let mut files = files;
    let mut r: Vec<PhotoFile> = Vec::new();
    proof {
        assert(files@ =~= orig.take(orig.len() as int));
        assert(r@ =~= orig.skip(orig.len() as int).reverse());
    }
    while files.len() > 0
        invariant
            files@.len() <= orig.len(),
            files@ == orig.take(files@.len() as int),
            r@ == orig.skip(files@.len() as int).reverse(),
        decreases files@.len(),
    {
        let ghost m = files@.len() as int;
        let x_opt = files.pop();
        let x = x_opt.unwrap();
        r.push(x);
        proof {
            assert(files@ =~= orig.take(m - 1));
            assert(x == orig[m - 1]);
            assert(r@ =~= orig.skip(m - 1).reverse());
        }
    }
    proof {
        assert(orig.skip(0) =~= orig);
    }
    r
}

/// Orders a batch of records for renaming: the stable chronological sort,
/// and in descending mode the reversal of the fully sorted sequence as a
/// whole. The comparator is never inverted, so a run of records the
/// comparator ties keeps its listing order within the run and is reversed
/// as a block.
pub fn order_files(files: Vec<PhotoFile>, desc: bool) -> (r: Vec<PhotoFile>)
    ensures
        desc ==> r@ == spec_sort(files@).reverse(),
        !desc ==> r@ == spec_sort(files@),
{
    let sorted = sort_photos(files);
    if desc {
        reverse_photos(sorted)
    } else {
        sorted
    }
}

} // verus!
