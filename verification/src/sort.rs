//! Ordering requests by layer.

use vstd::prelude::*;
use crate::vertex::{Request, Vertex};

verus! {

/// The requests of one layer, in the order in which they stand in `requests`.
pub open spec fn on_layer<T: Vertex>(requests: Seq<Request<T>>, layer: int) -> Seq<Request<T>> {
    requests.filter(|request: Request<T>| request.layer == layer)
}

/// The requests of `layer` and of all layers below it, in the order in which
/// they stand in `requests`.
pub open spec fn up_to_layer<T: Vertex>(requests: Seq<Request<T>>, layer: int) -> Seq<Request<T>> {
    requests.filter(|request: Request<T>| request.layer <= layer)
}

/// Layers never decrease from one request to the next.
pub open spec fn ascending<T: Vertex>(requests: Seq<Request<T>>) -> bool {
    forall|i: int, j: int| 0 <= i < j < requests.len() ==> requests[i].layer <= requests[j].layer
}

/// `after` holds the requests of `before` in ascending layers, and the
/// requests of each layer are still in the order they had in `before`.
pub open spec fn stably_sorted<T: Vertex>(before: Seq<Request<T>>, after: Seq<Request<T>>) -> bool {
    &&& ascending(after)
    &&& forall|layer: int| #[trigger] on_layer(after, layer) == on_layer(before, layer)
}

/// Layer by layer from the lowest up to `layer`: the requests of each layer
/// in submission order.
pub open spec fn layers_through<T: Vertex>(requests: Seq<Request<T>>, layer: int) -> Seq<Request<T>>
    decreases layer - i32::MIN + 1,
{
    if layer < i32::MIN {
        Seq::empty()
    } else {
        layers_through(requests, layer - 1) + on_layer(requests, layer)
    }
}

/// The draw order of `requests`: lower layers first, and within a layer the
/// order of submission.
pub open spec fn sorted_by_layer<T: Vertex>(requests: Seq<Request<T>>) -> Seq<Request<T>> {
    layers_through(requests, i32::MAX as int)
}

/// The sum of a weight over the requests.
pub open spec fn total<T: Vertex>(requests: Seq<Request<T>>, weight: spec_fn(Request<T>) -> nat) -> nat
    decreases requests.len(),
{
    if requests.len() == 0 {
        0
    } else {
        total(requests.drop_last(), weight) + weight(requests.last())
    }
}

/// Sorts by `radsort::sort_by_key` with the layer as key. This is taken on
/// trust from the crate: it documents the sort as stable, so afterwards the
/// layers ascend and the requests of each layer are the same requests in
/// the same order as before. The key is read from a field, so repeated reads
/// agree, which is all that the crate asks of a key function.
#[verifier::external_body]
pub(crate) fn sort_by_layer<T: Vertex>(requests: &mut Vec<Request<T>>)
    ensures
        stably_sorted(old(requests)@, final(requests)@),
{
    radsort::sort_by_key(requests, |request| request.layer);
}

proof fn lemma_filter_none<A>(s: Seq<A>, pred: spec_fn(A) -> bool)
    requires
        forall|i: int| 0 <= i < s.len() ==> !pred(#[trigger] s[i]),
    ensures
        s.filter(pred) == Seq::<A>::empty(),
    decreases s.len(),
{
    reveal(Seq::filter);
    if s.len() > 0 {
        lemma_filter_none(s.drop_last(), pred);
    }
}

proof fn lemma_filter_all<A>(s: Seq<A>, pred: spec_fn(A) -> bool)
    requires
        forall|i: int| 0 <= i < s.len() ==> pred(#[trigger] s[i]),
    ensures
        s.filter(pred) == s,
    decreases s.len(),
{
    reveal(Seq::filter);
    if s.len() > 0 {
        lemma_filter_all(s.drop_last(), pred);
        assert(s.drop_last().push(s.last()) =~= s);
    }
}

proof fn lemma_ascending_prefix<T: Vertex>(requests: Seq<Request<T>>)
    requires
        ascending(requests),
        requests.len() > 0,
    ensures
        ascending(requests.drop_last()),
{
    let init = requests.drop_last();
    assert forall|i: int, j: int| 0 <= i < j < init.len() implies init[i].layer <= init[j].layer by {
        assert(requests[i].layer <= requests[j].layer);
    }
}

/// In an ascending sequence the requests up to a layer are those below the
/// layer followed by those on it.
proof fn lemma_ascending_split<T: Vertex>(requests: Seq<Request<T>>, layer: int)
    requires
        ascending(requests),
    ensures
        up_to_layer(requests, layer) == up_to_layer(requests, layer - 1) + on_layer(requests, layer),
    decreases requests.len(),
{
    reveal(Seq::filter);
    if requests.len() > 0 {
        let init = requests.drop_last();
        lemma_ascending_prefix(requests);
        lemma_ascending_split(init, layer);
        if requests.last().layer < layer {
            assert forall|i: int| 0 <= i < init.len() implies (#[trigger] init[i]).layer != layer by {
                assert(init[i] == requests[i]);
                assert(requests[i].layer <= requests[requests.len() - 1].layer);
            }
            lemma_filter_none(init, |request: Request<T>| request.layer == layer);
        }
    }
    assert(up_to_layer(requests, layer) =~= up_to_layer(requests, layer - 1) + on_layer(
        requests,
        layer,
    ));
}

proof fn lemma_ascending_layers_through<T: Vertex>(requests: Seq<Request<T>>, layer: int)
    requires
        ascending(requests),
        layer >= i32::MIN - 1,
    ensures
        layers_through(requests, layer) == up_to_layer(requests, layer),
    decreases layer - i32::MIN + 1,
{
    if layer < i32::MIN {
        lemma_filter_none(requests, |request: Request<T>| request.layer <= layer);
    } else {
        lemma_ascending_layers_through(requests, layer - 1);
        lemma_ascending_split(requests, layer);
    }
}

/// An ascending sequence is its own draw order.
pub proof fn lemma_ascending_is_sorted<T: Vertex>(requests: Seq<Request<T>>)
    requires
        ascending(requests),
    ensures
        sorted_by_layer(requests) == requests,
{
    lemma_ascending_layers_through(requests, i32::MAX as int);
    lemma_filter_all(requests, |request: Request<T>| request.layer <= i32::MAX as int);
}

proof fn lemma_same_layers<T: Vertex>(a: Seq<Request<T>>, b: Seq<Request<T>>, layer: int)
    requires
        forall|l: int| #[trigger] on_layer(a, l) == on_layer(b, l),
    ensures
        layers_through(a, layer) == layers_through(b, layer),
    decreases layer - i32::MIN + 1,
{
    if layer >= i32::MIN {
        lemma_same_layers(a, b, layer - 1);
        assert(on_layer(a, layer) == on_layer(b, layer));
    }
}

/// Only one arrangement of a sequence is stably sorted, and it is the draw
/// order.
pub proof fn lemma_stably_sorted_unique<T: Vertex>(before: Seq<Request<T>>, after: Seq<Request<T>>)
    requires
        stably_sorted(before, after),
    ensures
        after == sorted_by_layer(before),
{
    lemma_ascending_is_sorted(after);
    lemma_same_layers(after, before, i32::MAX as int);
}

proof fn lemma_layers_through<T: Vertex>(requests: Seq<Request<T>>, layer: int)
    requires
        layer >= i32::MIN - 1,
    ensures
        ascending(layers_through(requests, layer)),
        forall|i: int|
            0 <= i < layers_through(requests, layer).len() ==> (#[trigger] layers_through(
                requests,
                layer,
            )[i]).layer <= layer,
        forall|l: int|
            #[trigger] on_layer(layers_through(requests, layer), l) == if l <= layer {
                on_layer(requests, l)
            } else {
                Seq::empty()
            },
    decreases layer - i32::MIN + 1,
{
    let whole = layers_through(requests, layer);
    if layer < i32::MIN {
        assert forall|l: int| #[trigger] on_layer(whole, l) == if l <= layer {
            on_layer(requests, l)
        } else {
            Seq::empty()
        } by {
            lemma_filter_none(whole, |request: Request<T>| request.layer == l);
            if l <= layer {
                // no request lies on a layer below the lowest
                lemma_filter_none(requests, |request: Request<T>| request.layer == l);
            }
        }
    } else {
        let below = layers_through(requests, layer - 1);
        let here = on_layer(requests, layer);
        lemma_layers_through(requests, layer - 1);
        assert forall|i: int| 0 <= i < here.len() implies (#[trigger] here[i]).layer == layer by {
            requests.lemma_filter_pred(|request: Request<T>| request.layer == layer, i);
        }
        assert forall|i: int| 0 <= i < whole.len() implies (#[trigger] whole[i]).layer <= layer by {
            if i < below.len() {
                assert(whole[i] == below[i]);
            } else {
                assert(whole[i] == here[i - below.len()]);
            }
        }
        assert forall|i: int, j: int| 0 <= i < j < whole.len() implies whole[i].layer
            <= whole[j].layer by {
            if j < below.len() {
                assert(whole[i] == below[i] && whole[j] == below[j]);
            } else if i < below.len() {
                assert(whole[i] == below[i] && whole[j] == here[j - below.len()]);
            } else {
                assert(whole[i] == here[i - below.len()] && whole[j] == here[j - below.len()]);
            }
        }
        assert forall|l: int| #[trigger] on_layer(whole, l) == if l <= layer {
            on_layer(requests, l)
        } else {
            Seq::empty()
        } by {
            let pred = |request: Request<T>| request.layer == l;
            Seq::filter_distributes_over_add(below, here, pred);
            if l == layer {
                lemma_filter_all(here, pred);
                assert(on_layer(below, l) == Seq::<Request<T>>::empty());
                assert(on_layer(whole, l) =~= on_layer(requests, l));
            } else {
                lemma_filter_none(here, pred);
                assert(on_layer(whole, l) =~= on_layer(below, l));
            }
        }
    }
}

/// The draw order of a sequence is a stable sort of it.
pub proof fn lemma_sorted_by_layer<T: Vertex>(requests: Seq<Request<T>>)
    ensures
        stably_sorted(requests, sorted_by_layer(requests)),
{
    lemma_layers_through(requests, i32::MAX as int);
    assert forall|layer: int| #[trigger]
        on_layer(sorted_by_layer(requests), layer) == on_layer(requests, layer) by {
        if layer > i32::MAX {
            lemma_filter_none(requests, |request: Request<T>| request.layer == layer);
        }
    }
}

proof fn lemma_total_add<T: Vertex>(
    a: Seq<Request<T>>,
    b: Seq<Request<T>>,
    weight: spec_fn(Request<T>) -> nat,
)
    ensures
        total(a + b, weight) == total(a, weight) + total(b, weight),
    decreases b.len(),
{
    if b.len() == 0 {
        assert(a + b =~= a);
    } else {
        assert((a + b).drop_last() =~= a + b.drop_last());
        lemma_total_add(a, b.drop_last(), weight);
    }
}

proof fn lemma_total_split<T: Vertex>(
    requests: Seq<Request<T>>,
    weight: spec_fn(Request<T>) -> nat,
    layer: int,
)
    ensures
        total(up_to_layer(requests, layer), weight) == total(
            up_to_layer(requests, layer - 1),
            weight,
        ) + total(on_layer(requests, layer), weight),
    decreases requests.len(),
{
    reveal(Seq::filter);
    if requests.len() > 0 {
        let init = requests.drop_last();
        lemma_total_split(init, weight, layer);
        let below = |request: Request<T>| request.layer <= layer - 1;
        let through = |request: Request<T>| request.layer <= layer;
        let on = |request: Request<T>| request.layer == layer;
        assert(init.push(requests.last()) =~= requests);
        init.lemma_filter_push(requests.last(), below);
        init.lemma_filter_push(requests.last(), through);
        init.lemma_filter_push(requests.last(), on);
        if requests.last().layer <= layer {
            assert(up_to_layer(requests, layer).drop_last() =~= up_to_layer(init, layer));
        }
        if requests.last().layer <= layer - 1 {
            assert(up_to_layer(requests, layer - 1).drop_last() =~= up_to_layer(init, layer - 1));
        }
        if requests.last().layer == layer {
            assert(on_layer(requests, layer).drop_last() =~= on_layer(init, layer));
        }
    }
}

proof fn lemma_total_layers_through<T: Vertex>(
    requests: Seq<Request<T>>,
    weight: spec_fn(Request<T>) -> nat,
    layer: int,
)
    requires
        layer >= i32::MIN - 1,
    ensures
        total(layers_through(requests, layer), weight) == total(up_to_layer(requests, layer), weight),
    decreases layer - i32::MIN + 1,
{
    if layer < i32::MIN {
        lemma_filter_none(requests, |request: Request<T>| request.layer <= layer);
    } else {
        lemma_total_layers_through(requests, weight, layer - 1);
        lemma_total_add(layers_through(requests, layer - 1), on_layer(requests, layer), weight);
        lemma_total_split(requests, weight, layer);
    }
}

/// Sorting changes no sum over the requests.
pub proof fn lemma_sorted_total<T: Vertex>(requests: Seq<Request<T>>, weight: spec_fn(Request<T>) -> nat)
    ensures
        total(sorted_by_layer(requests), weight) == total(requests, weight),
{
    lemma_total_layers_through(requests, weight, i32::MAX as int);
    lemma_filter_all(requests, |request: Request<T>| request.layer <= i32::MAX as int);
}

/// Every request of the draw order is one of the requests submitted.
pub proof fn lemma_sorted_members<T: Vertex>(requests: Seq<Request<T>>)
    ensures
        forall|i: int|
            0 <= i < sorted_by_layer(requests).len() ==> requests.contains(
                #[trigger] sorted_by_layer(requests)[i],
            ),
{
    let sorted = sorted_by_layer(requests);
    lemma_sorted_by_layer(requests);
    assert forall|i: int| 0 <= i < sorted.len() implies requests.contains(#[trigger] sorted[i]) by {
        let layer = sorted[i].layer as int;
        let pred = |request: Request<T>| request.layer == layer;
        sorted.lemma_filter_contains(pred, i);
        assert(on_layer(sorted, layer) == on_layer(requests, layer));
        requests.lemma_filter_contains_rev(pred, sorted[i]);
    }
}

} // verus!
