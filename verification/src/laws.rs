//! What holds of every batch.

use vstd::prelude::*;
use crate::batch::{
    batchable, flat_indices, flat_vertices, index_count, lemma_last_section, sections_of, vertex_count,
    BatchSection,
};
use crate::sort::{ascending, lemma_ascending_is_sorted, lemma_sorted_by_layer, on_layer, sorted_by_layer};
use crate::vertex::{Request, Vertex};

verus! {

/// Sorting is stable: the requests of any one layer are drawn in the order in
/// which they were submitted.
pub proof fn lemma_sort_is_stable<T: Vertex>(requests: Seq<Request<T>>, layer: int)
    ensures
        ascending(sorted_by_layer(requests)),
        on_layer(sorted_by_layer(requests), layer) == on_layer(requests, layer),
{
    lemma_sorted_by_layer(requests);
    assert(on_layer(sorted_by_layer(requests), layer) == on_layer(requests, layer));
}

/// Requests that all lie on one layer are drawn exactly as submitted, so
/// their sections follow the order of submission.
pub proof fn lemma_one_layer_keeps_order<T: Vertex>(requests: Seq<Request<T>>)
    requires
        forall|i: int, j: int|
            0 <= i < requests.len() && 0 <= j < requests.len() ==> requests[i].layer
                == requests[j].layer,
    ensures
        sorted_by_layer(requests) == requests,
        sections_of(sorted_by_layer(requests)) == sections_of(requests),
{
    lemma_ascending_is_sorted(requests);
}

/// The batch holds as many vertices and indices as the requests do.
pub proof fn lemma_flat_lengths<T: Vertex>(requests: Seq<Request<T>>)
    ensures
        flat_vertices(requests).len() == vertex_count(requests),
        flat_indices(requests).len() == index_count(requests),
    decreases requests.len(),
{
    if requests.len() > 0 {
        lemma_flat_lengths(requests.drop_last());
    }
}

/// The sections cover the indices exactly once: the first starts at zero,
/// each starts where the one before it ends, and the last ends at the number
/// of indices in the batch.
pub proof fn lemma_sections_cover<T: Vertex>(requests: Seq<Request<T>>)
    requires
        index_count(requests) <= u32::MAX,
    ensures
        requests.len() > 0 ==> sections_of(requests).len() > 0,
        requests.len() > 0 ==> sections_of(requests)[0].0.start == 0,
        requests.len() > 0 ==> sections_of(requests).last().0.end == flat_indices(requests).len(),
        forall|k: int|
            0 <= k < sections_of(requests).len() ==> (#[trigger] sections_of(requests)[k]).0.start
                <= sections_of(requests)[k].0.end,
        forall|k: int|
            0 <= k < sections_of(requests).len() - 1 ==> (#[trigger] sections_of(requests)[k]).0.end
                == sections_of(requests)[k + 1].0.start,
    decreases requests.len(),
{
    lemma_flat_lengths(requests);
    if requests.len() > 0 {
        let earlier = requests.drop_last();
        let before = sections_of(earlier);
        let now = sections_of(requests);
        lemma_sections_cover(earlier);
        lemma_flat_lengths(earlier);
        if earlier.len() > 0 && earlier.last().key == requests.last().key {
            assert forall|k: int| 0 <= k < now.len() - 1 implies (#[trigger] now[k]).0.end == now[k
                + 1].0.start by {
                assert(now[k] == before[k]);
            }
        } else {
            assert forall|k: int| 0 <= k < now.len() - 1 implies (#[trigger] now[k]).0.end == now[k
                + 1].0.start by {
                assert(now[k] == before[k]);
                if k + 1 < before.len() {
                    assert(now[k + 1] == before[k + 1]);
                }
            }
        }
    }
}

/// Index remapping: the local index `i` of the request at position `n` stands
/// in the batch behind the indices of the requests before it, moved up by the
/// number of vertices of those requests, and there it names the vertex that
/// it named within its request.
pub proof fn lemma_index_remapping<T: Vertex>(requests: Seq<Request<T>>, n: int, i: int)
    requires
        batchable(requests),
        0 <= n < requests.len(),
        0 <= i < requests[n].indices@.len(),
    ensures
        index_count(requests.take(n)) + i < flat_indices(requests).len(),
        flat_indices(requests)[index_count(requests.take(n)) + i] == vertex_count(requests.take(n))
            + requests[n].indices@[i],
        vertex_count(requests.take(n)) + requests[n].indices@[i] < flat_vertices(requests).len(),
        flat_vertices(requests)[vertex_count(requests.take(n)) + requests[n].indices@[i]]
            == requests[n].vertices@[requests[n].indices@[i] as int],
    decreases requests.len(),
{
    let earlier = requests.drop_last();
    lemma_flat_lengths(requests);
    lemma_flat_lengths(earlier);
    assert(requests[n].well_formed());
    if n == requests.len() - 1 {
        assert(requests.take(n) =~= earlier);
    } else {
        assert(earlier.take(n) =~= requests.take(n));
        assert(earlier[n] == requests[n]);
        assert forall|m: int| 0 <= m < earlier.len() implies (#[trigger] earlier[m]).well_formed() by {
            assert(earlier[m] == requests[m]);
        }
        lemma_index_remapping(earlier, n, i);
    }
}

/// The number of the section that holds the request at position `n`: one more
/// for every change of key on the way to it.
pub open spec fn section_index<T: Vertex>(requests: Seq<Request<T>>, n: int) -> int
    decreases n,
{
    if n <= 0 {
        0
    } else if requests[n - 1].key == requests[n].key {
        section_index(requests, n - 1)
    } else {
        section_index(requests, n - 1) + 1
    }
}

proof fn lemma_section_index_prefix<T: Vertex>(requests: Seq<Request<T>>, n: int)
    requires
        0 <= n < requests.len() - 1,
    ensures
        section_index(requests.drop_last(), n) == section_index(requests, n),
    decreases n,
{
    if n > 0 {
        lemma_section_index_prefix(requests, n - 1);
    }
}

/// Key coalescing: the request at position `n` lies in the section numbered
/// `section_index(requests, n)`, which has its key and spans its indices. A
/// neighbour with the same key lies in the same section; before a neighbour
/// with another key the section ends, exactly where the indices of the two
/// meet, and the next section starts there.
pub proof fn lemma_key_coalescing<T: Vertex>(requests: Seq<Request<T>>, n: int)
    requires
        index_count(requests) <= u32::MAX,
        0 <= n < requests.len(),
    ensures
        0 <= section_index(requests, n) < sections_of(requests).len(),
        sections_of(requests)[section_index(requests, n)].1 == requests[n].key,
        sections_of(requests)[section_index(requests, n)].0.start <= index_count(requests.take(n)),
        index_count(requests.take(n + 1)) <= sections_of(requests)[section_index(requests, n)].0.end,
        section_index(requests, requests.len() - 1) == sections_of(requests).len() - 1,
        n + 1 < requests.len() && requests[n].key == requests[n + 1].key ==> section_index(
            requests,
            n + 1,
        ) == section_index(requests, n),
        n + 1 < requests.len() && requests[n].key != requests[n + 1].key ==> {
            &&& section_index(requests, n + 1) == section_index(requests, n) + 1
            &&& sections_of(requests)[section_index(requests, n)].0.end == index_count(
                requests.take(n + 1),
            )
            &&& sections_of(requests)[section_index(requests, n) + 1].0.start == index_count(
                requests.take(n + 1),
            )
        },
    decreases requests.len(),
{
    let earlier = requests.drop_last();
    let last = requests.len() - 1;
    let before = sections_of(earlier);
    let now = sections_of(requests);
    lemma_sections_cover(requests);
    lemma_flat_lengths(requests);
    assert(requests.take(last + 1) =~= requests);
    assert(requests.take(last) =~= earlier);
    if last > 0 {
        lemma_sections_cover(earlier);
        lemma_flat_lengths(earlier);
        lemma_key_coalescing(earlier, last - 1);
        lemma_section_index_prefix(requests, last - 1);
        assert(earlier.last() == requests[last - 1]);
        assert(earlier.take(last - 1 + 1) =~= earlier);
    }
    if n < last {
        lemma_key_coalescing(earlier, n);
        lemma_section_index_prefix(requests, n);
        assert(earlier.take(n) =~= requests.take(n));
        assert(earlier.take(n + 1) =~= requests.take(n + 1));
        assert(earlier[n] == requests[n]);
        let k = section_index(requests, n);
        if n + 1 < last {
            assert(earlier[n + 1] == requests[n + 1]);
            lemma_section_index_prefix(requests, n + 1);
            if requests[n].key != requests[n + 1].key {
                lemma_key_coalescing(earlier, n + 1);
                assert(k + 1 < before.len());
                assert(now[k].0.end == before[k].0.end);
                assert(now[k + 1].0.start == before[k + 1].0.start);
            }
        } else {
            if requests[n].key != requests[n + 1].key {
                assert(k == before.len() - 1);
                assert(now =~= before.push(now.last()));
                assert(now[k] == before[k]);
                assert(now[k + 1].0.start == index_count(earlier) as u32);
            }
        }
    }
}

/// No draw is spent on a key that could have shared one: sections that
/// follow one another have different keys.
pub proof fn lemma_neighbouring_sections_differ<T: Vertex>(requests: Seq<Request<T>>, k: int)
    requires
        0 <= k < sections_of(requests).len() - 1,
    ensures
        sections_of(requests)[k].1 != sections_of(requests)[k + 1].1,
    decreases requests.len(),
{
    if requests.len() > 0 {
        let earlier = requests.drop_last();
        let before = sections_of(earlier);
        let now = sections_of(requests);
        if earlier.len() > 0 {
            lemma_last_section(earlier);
        }
        if k < before.len() - 1 {
            lemma_neighbouring_sections_differ(earlier, k);
            assert(now[k] == before[k]);
        }
    }
}

/// Without requests there is nothing in the batch and no section.
pub proof fn lemma_empty_batch<T: Vertex>()
    ensures
        sorted_by_layer(Seq::<Request<T>>::empty()) == Seq::<Request<T>>::empty(),
        flat_vertices(Seq::<Request<T>>::empty()) == Seq::<T>::empty(),
        flat_indices(Seq::<Request<T>>::empty()) == Seq::<u32>::empty(),
        sections_of(Seq::<Request<T>>::empty()) == Seq::<(BatchSection, T::Key)>::empty(),
        batchable(Seq::<Request<T>>::empty()),
{
    lemma_ascending_is_sorted(Seq::<Request<T>>::empty());
}

} // verus!
