//! A user's profile and works.

use vstd::prelude::*;
use crate::api::common::PixivSearchResult;

verus! {

pub struct PixivIllustrations {
    pub illusts: Vec<u64>,
    pub manga: Vec<u64>,
}

pub struct PixivBookmarks {
    pub works: Vec<PixivSearchResult>,
    pub total: usize,
}

pub struct PixivUser {
    pub name: String,
    pub image_big: String,
    pub comment_html: String,
}

/// No id is less than the one after it.
pub open spec fn newest_first(ids: Seq<u64>) -> bool {
    forall|i: int, j: int| 0 <= i <= j < ids.len() ==> ids[i] >= ids[j]
}

/// No id is greater than the one after it.
pub open spec fn oldest_first(ids: Seq<u64>) -> bool {
    forall|i: int, j: int| 0 <= i <= j < ids.len() ==> ids[i] <= ids[j]
}

/// Sorts ids with the slice method `sort_unstable`, which by its
/// documentation sorts the slice in ascending order, and as a sort keeps
/// every element as often as it was there.
#[verifier::external_body]
fn sort_ids(ids: &mut Vec<u64>)
    ensures
        oldest_first(final(ids)@),
        final(ids)@.to_multiset() == old(ids)@.to_multiset(),
{
    ids.sort_unstable();
}

/// The ids of a user's works, illustrations and manga together, the
/// greatest, which is the newest, first.
pub fn merge_illust_ids(ids: PixivIllustrations) -> (all: Vec<u64>)
    ensures
        newest_first(all@),
        all@.to_multiset() == ids.illusts@.to_multiset().add(ids.manga@.to_multiset()),
{
    let mut sorted: Vec<u64> = ids.illusts;
    let mut manga: Vec<u64> = ids.manga;
    proof {
        vstd::seq_lib::lemma_multiset_commutative(sorted@, manga@);
    }
    sorted.append(&mut manga);
    sort_ids(&mut sorted);
    let n: usize = sorted.len();
    let mut all: Vec<u64> = Vec::new();
    let mut i: usize = n;
    while i > 0
        invariant
            0 <= i <= n,
            n == sorted@.len(),
            all@.len() == n - i,
            forall|k: int| 0 <= k < all@.len() ==> all@[k] == sorted@[n - 1 - k],
        decreases i,
    {
        i -= 1;
        all.push(sorted[i]);
    }
    proof {
        assert(all@ =~= sorted@.reverse());
        sorted@.lemma_reverse_to_multiset();
    }
    all
}

/// The keys of the pairs, in their order.
pub open spec fn keys_of(pairs: Seq<(u64, PixivSearchResult)>) -> Seq<u64> {
    Seq::new(pairs.len(), |i: int| pairs[i].0)
}

/// The works of the pairs, in their order.
pub open spec fn works_of(pairs: Seq<(u64, PixivSearchResult)>) -> Seq<PixivSearchResult> {
    Seq::new(pairs.len(), |i: int| pairs[i].1)
}

/// Sorts works by the ids they are filed under with the slice method
/// `sort_unstable_by_key`, which by its documentation sorts the slice in
/// ascending order of the key, and as a sort keeps every element as often
/// as it was there.
#[verifier::external_body]
fn sort_works(works: &mut Vec<(u64, PixivSearchResult)>)
    ensures
        oldest_first(keys_of(final(works)@)),
        final(works)@.to_multiset() == old(works)@.to_multiset(),
{
    works.sort_unstable_by_key(|work| work.0);
}

/// `ordered` is the works of `works` with the greatest id first: the
/// works of some rearrangement of the pairs in which no id is less than
/// the one after it.
pub open spec fn ordered_newest_first(
    works: Seq<(u64, PixivSearchResult)>,
    ordered: Seq<PixivSearchResult>,
) -> bool {
    exists|pairs: Seq<(u64, PixivSearchResult)>|
        {
            &&& pairs.to_multiset() == works.to_multiset()
            &&& newest_first(keys_of(pairs))
            &&& ordered == #[trigger] works_of(pairs)
        }
}

/// The works, each filed under its id, with the greatest id, which is the
/// newest work, first.
pub fn order_works(works: Vec<(u64, PixivSearchResult)>) -> (ordered: Vec<PixivSearchResult>)
    ensures
        ordered@.len() == works@.len(),
        ordered_newest_first(works@, ordered@),
{
    let mut sorted = works;
    sort_works(&mut sorted);
    let ghost ascending = sorted@;
    let ghost pairs = ascending.reverse();
    let mut ordered: Vec<PixivSearchResult> = Vec::new();
    while sorted.len() > 0
        invariant
            sorted@.len() <= ascending.len(),
            sorted@ == ascending.take(sorted@.len() as int),
            ordered@.len() == ascending.len() - sorted@.len(),
            forall|k: int|
                0 <= k < ordered@.len() ==> ordered@[k] == ascending[ascending.len() - 1 - k].1,
        decreases sorted@.len(),
    {
        let ghost m = sorted@.len();
        match sorted.pop() {
            Some(work) => {
                assert(sorted@ =~= ascending.take(m - 1));
                ordered.push(work.1);
            },
            None => {},
        }
    }
    proof {
        ascending.lemma_reverse_to_multiset();
        assert(ordered@ =~= works_of(pairs));
        assert forall|i: int, j: int| 0 <= i <= j < pairs.len() implies keys_of(pairs)[i]
            >= keys_of(pairs)[j] by {
            let n = ascending.len();
            assert(keys_of(ascending)[n - 1 - j] <= keys_of(ascending)[n - 1 - i]);
        }
        assert(ascending.len() == works@.len()) by {
            ascending.to_multiset_ensures();
            works@.to_multiset_ensures();
        }
    }
    ordered
}

} // verus!
