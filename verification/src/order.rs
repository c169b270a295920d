//! Lists of texts in order.

use crate::text::{
    is_before, lemma_precedes_irreflexive, lemma_precedes_total, lemma_precedes_transitive,
    precedes, texts,
};
use vstd::prelude::*;

verus! {

/// The list with a text put behind all that do not come after it.
pub open spec fn inserted(list: Seq<Seq<char>>, s: Seq<char>) -> Seq<Seq<char>>
    decreases list.len(),
{
    if list.len() == 0 || !precedes(s, list.last()) {
        list.push(s)
    } else {
        inserted(list.drop_last(), s).push(list.last())
    }
}

/// The texts in order.
pub open spec fn sorted(list: Seq<Seq<char>>) -> Seq<Seq<char>>
    decreases list.len(),
{
    if list.len() == 0 {
        list
    } else {
        inserted(sorted(list.drop_last()), list.last())
    }
}

/// Where a text is put.
proof fn lemma_inserted(list: Seq<Seq<char>>, s: Seq<char>, k: int)
    requires
        0 <= k <= list.len(),
        forall|j: int| k <= j < list.len() ==> precedes(s, #[trigger] list[j]),
        k > 0 ==> !precedes(s, list[k - 1]),
    ensures
        inserted(list, s) == list.insert(k, s),
    decreases list.len(),
{
    if k == list.len() {
        if list.len() > 0 {
            assert(list.last() == list[k - 1]);
        }
        assert(list.insert(k, s) =~= list.push(s));
    } else {
        assert(precedes(s, list[list.len() - 1]));
        let init = list.drop_last();
        assert forall|j: int| k <= j < init.len() implies precedes(s, #[trigger] init[j]) by {
            assert(init[j] == list[j]);
        }
        lemma_inserted(init, s, k);
        assert(init.insert(k, s).push(list.last()) =~= list.insert(k, s));
    }
}

/// The texts in order.
pub fn sort_texts(list: &Vec<String>) -> (r: Vec<String>)
    ensures
        texts(r@) == sorted(texts(list@)),
{
    let ghost all = texts(list@);
    let mut out: Vec<String> = Vec::new();
    let mut i: usize = 0;
    assert(all.take(0) =~= Seq::<Seq<char>>::empty());
    assert(texts(out@) =~= Seq::<Seq<char>>::empty());
    while i < list.len()
        invariant
            i <= list@.len(),
            all == texts(list@),
            texts(out@) == sorted(all.take(i as int)),
            out@.len() == i,
        decreases list@.len() - i,
    {
        let entry = list[i].clone();
        let mut k: usize = out.len();
        while k > 0 && is_before(entry.as_str(), out[k - 1].as_str())
            invariant
                k <= out@.len(),
                forall|j: int| k <= j < out@.len() ==> precedes(entry@, #[trigger] texts(out@)[j]),
            decreases k,
        {
            assert(texts(out@)[k - 1] == out@[k - 1]@);
            k = k - 1;
        }
        proof {
            if k > 0 {
                assert(texts(out@)[k - 1] == out@[k - 1]@);
            }
            lemma_inserted(texts(out@), entry@, k as int);
            assert(all.take(i as int + 1).drop_last() =~= all.take(i as int));
            assert(all.take(i as int + 1).last() == entry@);
        }
        let ghost before = out@;
        out.insert(k, entry);
        assert(texts(out@) =~= texts(before).insert(k as int, entry@));
        i = i + 1;
    }
    assert(all.take(all.len() as int) =~= all);
    out
}

// ----- laws -----

/// No text comes after one that it precedes.
pub open spec fn in_sequence(list: Seq<Seq<char>>) -> bool {
    forall|i: int, j: int|
        0 <= i < j < list.len() ==> !precedes(#[trigger] list[j], #[trigger] list[i])
}

/// A text put into a list in order leaves it in order, and holds the same texts and the new one.
proof fn lemma_inserted_in_sequence(list: Seq<Seq<char>>, s: Seq<char>)
    requires
        in_sequence(list),
    ensures
        in_sequence(inserted(list, s)),
        inserted(list, s).len() == list.len() + 1,
        inserted(list, s).to_multiset() == list.to_multiset().insert(s),
        forall|k: int|
            0 <= k < inserted(list, s).len() ==> #[trigger] inserted(list, s)[k] == s
                || list.contains(inserted(list, s)[k]),
    decreases list.len(),
{
    broadcast use vstd::seq_lib::group_to_multiset_ensures;

    let out = inserted(list, s);
    if list.len() == 0 || !precedes(s, list.last()) {
        assert forall|k: int| 0 <= k < out.len() implies #[trigger] out[k] == s || list.contains(
            out[k],
        ) by {
            if k < list.len() {
                assert(list[k] == out[k]);
            }
        }
        assert forall|i: int, j: int| 0 <= i < j < out.len() implies !precedes(
            #[trigger] out[j],
            #[trigger] out[i],
        ) by {
            if j == list.len() {
                let last = list.last();
                if i < list.len() - 1 {
                    assert(!precedes(last, list[i]));
                    if precedes(s, list[i]) {
                        lemma_precedes_total(list[i], last);
                        if list[i] != last {
                            lemma_precedes_transitive(s, list[i], last);
                        }
                    }
                }
            } else {
                assert(out[i] == list[i] && out[j] == list[j]);
            }
        }
    } else {
        let init = list.drop_last();
        let last = list.last();
        assert(in_sequence(init)) by {
            assert forall|i: int, j: int| 0 <= i < j < init.len() implies !precedes(
                #[trigger] init[j],
                #[trigger] init[i],
            ) by {
                assert(init[i] == list[i] && init[j] == list[j]);
            }
        }
        lemma_inserted_in_sequence(init, s);
        let head = inserted(init, s);
        assert(list =~= init.push(last));
        assert forall|k: int| 0 <= k < out.len() implies #[trigger] out[k] == s || list.contains(
            out[k],
        ) by {
            if k < head.len() {
                assert(head[k] == out[k]);
                if head[k] != s {
                    let m = init.index_of(head[k]);
                    assert(list[m] == out[k]);
                }
            } else {
                assert(list[list.len() - 1] == out[k]);
            }
        }
        assert forall|i: int, j: int| 0 <= i < j < out.len() implies !precedes(
            #[trigger] out[j],
            #[trigger] out[i],
        ) by {
            if j < head.len() {
                assert(out[i] == head[i] && out[j] == head[j]);
            } else {
                assert(out[i] == head[i]);
                if head[i] == s {
                    if precedes(last, s) {
                        lemma_precedes_transitive(s, last, s);
                        lemma_precedes_irreflexive(s);
                    }
                } else {
                    let m = init.index_of(head[i]);
                    assert(list[m] == head[i]);
                }
            }
        }
        assert(out.to_multiset() =~= list.to_multiset().insert(s));
    }
}

/// Sorting puts the same texts in order.
pub proof fn law_sorting_orders(list: Seq<Seq<char>>)
    ensures
        in_sequence(sorted(list)),
        sorted(list).to_multiset() == list.to_multiset(),
        sorted(list).len() == list.len(),
    decreases list.len(),
{
    broadcast use vstd::seq_lib::group_to_multiset_ensures;

    if list.len() > 0 {
        law_sorting_orders(list.drop_last());
        lemma_inserted_in_sequence(sorted(list.drop_last()), list.last());
        assert(list =~= list.drop_last().push(list.last()));
    }
}

} // verus!
