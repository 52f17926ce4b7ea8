//! The request queue and the batch that is built from it once per frame.

use vstd::prelude::*;
use crate::sort::{
    lemma_sorted_members, lemma_sorted_total, lemma_stably_sorted_unique, sort_by_layer, sorted_by_layer,
    total,
};
use crate::vertex::{Request, Vertex, VertexKey};

verus! {

/// The requests of one frame, in the order in which they were submitted.
pub struct Requests<T: Vertex> {
    pub values: Vec<Request<T>>,
}

/// The vertex and index data of one frame.
pub struct Batch<T: Vertex> {
    pub vertices: Vec<T>,
    pub indices: Vec<u32>,
}

/// A range of `Batch::indices` that is drawn with one pipeline.
#[derive(Clone, Copy, Debug, PartialEq, Eq, Structural)]
pub struct BatchSection {
    pub start: u32,
    pub end: u32,
}

/// How many vertices the requests hold together.
pub open spec fn vertex_count<T: Vertex>(requests: Seq<Request<T>>) -> nat
    decreases requests.len(),
{
    if requests.len() == 0 {
        0
    } else {
        vertex_count(requests.drop_last()) + requests.last().vertices@.len()
    }
}

/// How many indices the requests hold together.
pub open spec fn index_count<T: Vertex>(requests: Seq<Request<T>>) -> nat
    decreases requests.len(),
{
    if requests.len() == 0 {
        0
    } else {
        index_count(requests.drop_last()) + requests.last().indices@.len()
    }
}

/// The vertices of all requests, one request after the other.
pub open spec fn flat_vertices<T: Vertex>(requests: Seq<Request<T>>) -> Seq<T>
    decreases requests.len(),
{
    if requests.len() == 0 {
        Seq::empty()
    } else {
        flat_vertices(requests.drop_last()) + requests.last().vertices@
    }
}

/// Local indices moved up by the number of vertices that precede them.
pub open spec fn rebased(indices: Seq<u32>, vertex_base: nat) -> Seq<u32> {
    Seq::new(indices.len(), |i: int| (indices[i] + vertex_base) as u32)
}

/// The indices of all requests, one request after the other, each rebased by
/// the number of vertices of the requests before it.
pub open spec fn flat_indices<T: Vertex>(requests: Seq<Request<T>>) -> Seq<u32>
    decreases requests.len(),
{
    if requests.len() == 0 {
        Seq::empty()
    } else {
        flat_indices(requests.drop_last()) + rebased(
            requests.last().indices@,
            vertex_count(requests.drop_last()),
        )
    }
}

/// The sections of requests taken in the given order: each maximal run of
/// neighbours with equal keys is one section, which spans the indices of the
/// run.
pub open spec fn sections_of<T: Vertex>(requests: Seq<Request<T>>) -> Seq<(BatchSection, T::Key)>
    decreases requests.len(),
{
    if requests.len() == 0 {
        Seq::empty()
    } else {
        let earlier = requests.drop_last();
        let end = index_count(requests) as u32;
        let key = requests.last().key;
        if earlier.len() > 0 && earlier.last().key == key {
            let start = sections_of(earlier).last().0.start;
            sections_of(earlier).drop_last().push((BatchSection { start, end }, key))
        } else {
            let start = index_count(earlier) as u32;
            sections_of(earlier).push((BatchSection { start, end }, key))
        }
    }
}

/// What a batch can take: every request is well formed, and the vertices and
/// the indices can each be counted in 32 bits.
pub open spec fn batchable<T: Vertex>(requests: Seq<Request<T>>) -> bool {
    &&& forall|n: int| 0 <= n < requests.len() ==> (#[trigger] requests[n]).well_formed()
    &&& vertex_count(requests) <= u32::MAX
    &&& index_count(requests) <= u32::MAX
}

proof fn lemma_counts_step<T: Vertex>(requests: Seq<Request<T>>, n: int)
    requires
        0 <= n < requests.len(),
    ensures
        requests.take(n + 1).drop_last() == requests.take(n),
        requests.take(n + 1).last() == requests[n],
        vertex_count(requests.take(n + 1)) == vertex_count(requests.take(n))
            + requests[n].vertices@.len(),
        index_count(requests.take(n + 1)) == index_count(requests.take(n))
            + requests[n].indices@.len(),
{
    assert(requests.take(n + 1).drop_last() =~= requests.take(n));
}

proof fn lemma_counts_monotone<T: Vertex>(requests: Seq<Request<T>>, n: int)
    requires
        0 <= n <= requests.len(),
    ensures
        vertex_count(requests.take(n)) <= vertex_count(requests),
        index_count(requests.take(n)) <= index_count(requests),
    decreases requests.len() - n,
{
    if n < requests.len() {
        lemma_counts_step(requests, n);
        lemma_counts_monotone(requests, n + 1);
    } else {
        assert(requests.take(n) =~= requests);
    }
}

/// A non-empty sequence ends in a section with the key of its last request,
/// which closes at the number of indices.
pub proof fn lemma_last_section<T: Vertex>(requests: Seq<Request<T>>)
    requires
        requests.len() > 0,
    ensures
        sections_of(requests).len() > 0,
        sections_of(requests).last().1 == requests.last().key,
        sections_of(requests).last().0.end == index_count(requests) as u32,
    decreases requests.len(),
{
    if requests.drop_last().len() > 0 {
        lemma_last_section(requests.drop_last());
    }
}

proof fn lemma_counts_are_totals<T: Vertex>(requests: Seq<Request<T>>)
    ensures
        vertex_count(requests) == total(requests, |request: Request<T>| request.vertices@.len()),
        index_count(requests) == total(requests, |request: Request<T>| request.indices@.len()),
    decreases requests.len(),
{
    if requests.len() > 0 {
        lemma_counts_are_totals(requests.drop_last());
    }
}

/// What can be batched as submitted can be batched in draw order.
pub proof fn lemma_sorted_batchable<T: Vertex>(requests: Seq<Request<T>>)
    requires
        batchable(requests),
    ensures
        batchable(sorted_by_layer(requests)),
        vertex_count(sorted_by_layer(requests)) == vertex_count(requests),
        index_count(sorted_by_layer(requests)) == index_count(requests),
{
    let sorted = sorted_by_layer(requests);
    lemma_counts_are_totals(requests);
    lemma_counts_are_totals(sorted);
    lemma_sorted_total(requests, |request: Request<T>| request.vertices@.len());
    lemma_sorted_total(requests, |request: Request<T>| request.indices@.len());
    lemma_sorted_members(requests);
    assert forall|n: int| 0 <= n < sorted.len() implies (#[trigger] sorted[n]).well_formed() by {
        assert(requests.contains(sorted[n]));
    }
}

impl<T: Vertex> Default for Requests<T> {
    /// An empty queue.
    fn default() -> (queue: Self)
        ensures
            queue.values@ == Seq::<Request<T>>::empty(),
    {
        Requests { values: Vec::new() }
    }
}

impl<T: Vertex> Default for Batch<T> {
    /// An empty batch.
    fn default() -> (batch: Self)
        ensures
            batch.vertices@ == Seq::<T>::empty(),
            batch.indices@ == Seq::<u32>::empty(),
    {
        Batch { vertices: Vec::new(), indices: Vec::new() }
    }
}

/// Whether a batch can take the requests.
pub fn is_batchable<T: Vertex>(requests: &Vec<Request<T>>) -> (fits: bool)
    ensures
        fits == batchable(requests@),
{
    let mut vertices: u32 = 0;
    let mut indices: u32 = 0;
    let mut n: usize = 0;
    while n < requests.len()
        invariant
            0 <= n <= requests.len(),
            forall|k: int| 0 <= k < n ==> (#[trigger] requests@[k]).well_formed(),
            vertices == vertex_count(requests@.take(n as int)),
            indices == index_count(requests@.take(n as int)),
        decreases requests.len() - n,
    {
        let request = &requests[n];
        proof {
            lemma_counts_step(requests@, n as int);
            lemma_counts_monotone(requests@, n as int + 1);
        }
        if !request.is_well_formed() {
            return false;
        }
        if request.vertices.len() > (u32::MAX - vertices) as usize {
            return false;
        }
        if request.indices.len() > (u32::MAX - indices) as usize {
            return false;
        }
        vertices = vertices + request.vertices.len() as u32;
        indices = indices + request.indices.len() as u32;
        n += 1;
    }
    proof {
        assert(requests@.take(n as int) =~= requests@);
    }
    true
}

impl<T: Vertex> Requests<T> {
    /// Whether a batch can take what is queued.
    pub fn is_batchable(&self) -> (fits: bool)
        ensures
            fits == batchable(self.values@),
    {
        is_batchable(&self.values)
    }

    /// Adds one request behind those already queued.
    pub fn push(&mut self, request: Request<T>)
        ensures
            final(self).values@ == old(self).values@.push(request),
    {
        self.values.push(request);
    }

    /// Moves the requests of `produced` behind those already queued and
    /// leaves `produced` empty.
    pub fn append(&mut self, produced: &mut Vec<Request<T>>)
        ensures
            final(self).values@ == old(self).values@ + old(produced)@,
            final(produced)@ == Seq::<Request<T>>::empty(),
    {
        self.values.append(produced);
    }

    /// Hands out everything that is queued, in submission order, and leaves
    /// the queue empty.
    pub fn drain(&mut self) -> (drained: Vec<Request<T>>)
        ensures
            drained@ == old(self).values@,
            final(self).values@ == Seq::<Request<T>>::empty(),
    {
        let mut drained = Vec::new();
        drained.append(&mut self.values);
        drained
    }
}

impl<T: Vertex> Batch<T> {
    /// Replaces the contents of the batch by the data of `requests`, taken in
    /// the given order, and returns the sections to draw.
    pub fn write(&mut self, requests: &Vec<Request<T>>) -> (sections: Vec<(BatchSection, T::Key)>)
        requires
            batchable(requests@),
        ensures
            final(self).vertices@ == flat_vertices(requests@),
            final(self).indices@ == flat_indices(requests@),
            sections@ == sections_of(requests@),
    {
        self.vertices.clear();
        self.indices.clear();
        let mut sections: Vec<(BatchSection, T::Key)> = Vec::new();
        let mut run: Option<(u32, T::Key)> = None;
        let mut n: usize = 0;
        while n < requests.len()
            invariant
                0 <= n <= requests.len(),
                batchable(requests@),
                self.vertices@ == flat_vertices(requests@.take(n as int)),
                self.indices@ == flat_indices(requests@.take(n as int)),
                self.vertices@.len() == vertex_count(requests@.take(n as int)),
                self.indices@.len() == index_count(requests@.take(n as int)),
                n == 0 ==> run.is_none() && sections@.len() == 0,
                n > 0 ==> run == Some(
                    (
                        sections_of(requests@.take(n as int)).last().0.start,
                        requests@[n - 1].key,
                    ),
                ) && sections@ == sections_of(requests@.take(n as int)).drop_last(),
            decreases requests.len() - n,
        {
            let request = &requests[n];
            proof {
                lemma_counts_step(requests@, n as int);
                lemma_counts_monotone(requests@, n as int);
                lemma_counts_monotone(requests@, n as int + 1);
                if n > 0 {
                    lemma_last_section(requests@.take(n as int));
                }
            }
            let base_index = self.indices.len() as u32;
            match run {
                None => {
                    run = Some((base_index, request.key));
                },
                Some((start, key)) => {
                    if !key.same(&request.key) {
                        sections.push((BatchSection { start, end: base_index }, key));
                        run = Some((base_index, request.key));
                    }
                },
            }
            proof {
                let earlier = requests@.take(n as int);
                let next = requests@.take(n as int + 1);
                if n > 0 {
                    assert(earlier.last() == requests@[n - 1]);
                    if earlier.last().key == request.key {
                        assert(sections_of(next).drop_last() =~= sections_of(earlier).drop_last());
                    } else {
                        assert(sections@ =~= sections_of(earlier));
                        assert(sections_of(next).drop_last() =~= sections_of(earlier));
                    }
                } else {
                    assert(sections_of(next).drop_last() =~= sections@);
                }
                assert(run == Some((sections_of(next).last().0.start, request.key)));
                assert(sections@ == sections_of(next).drop_last());
            }
            let vertex_base = self.vertices.len() as u32;
            let ghost vertices_before = self.vertices@;
            let ghost indices_before = self.indices@;
            let mut i: usize = 0;
            while i < request.vertices.len()
                invariant
                    0 <= i <= request.vertices.len(),
                    self.vertices@ == vertices_before + request.vertices@.take(i as int),
                    self.indices@ == indices_before,
                decreases request.vertices.len() - i,
            {
                self.vertices.push(request.vertices[i]);
                assert(request.vertices@.take(i as int).push(request.vertices@[i as int])
                    =~= request.vertices@.take(i as int + 1));
                i += 1;
            }
            assert(request.vertices@.take(i as int) =~= request.vertices@);
            let mut j: usize = 0;
            while j < request.indices.len()
                invariant
                    0 <= j <= request.indices.len(),
                    request.well_formed(),
                    vertex_base + request.vertices@.len() <= u32::MAX,
                    self.vertices@ == vertices_before + request.vertices@,
                    self.indices@ == indices_before + rebased(
                        request.indices@,
                        vertex_base as nat,
                    ).take(j as int),
                decreases request.indices.len() - j,
            {
                let local = request.indices[j];
                self.indices.push(vertex_base + local);
                assert(rebased(request.indices@, vertex_base as nat).take(j as int).push(
                    (vertex_base + local) as u32,
                ) =~= rebased(request.indices@, vertex_base as nat).take(j as int + 1));
                j += 1;
            }
            assert(rebased(request.indices@, vertex_base as nat).take(j as int) =~= rebased(
                request.indices@,
                vertex_base as nat,
            ));
            n += 1;
            proof {
                lemma_last_section(requests@.take(n as int));
            }
        }
        proof {
            assert(requests@.take(n as int) =~= requests@);
        }
        match run {
            None => {},
            Some((start, key)) => {
                proof {
                    lemma_last_section(requests@);
                }
                let end = self.indices.len() as u32;
                sections.push((BatchSection { start, end }, key));
                assert(sections@ =~= sections_of(requests@));
            },
        }
        sections
    }
}

/// Builds the batch of one frame: the requests in draw order, and the
/// sections they form in that order.
pub fn build<T: Vertex>(requests: Vec<Request<T>>) -> (built: (Batch<T>, Vec<(BatchSection, T::Key)>))
    requires
        batchable(requests@),
    ensures
        built.0.vertices@ == flat_vertices(sorted_by_layer(requests@)),
        built.0.indices@ == flat_indices(sorted_by_layer(requests@)),
        built.1@ == sections_of(sorted_by_layer(requests@)),
{
    let mut requests = requests;
    let ghost submitted = requests@;
    sort_by_layer(&mut requests);
    proof {
        lemma_stably_sorted_unique(submitted, requests@);
        lemma_sorted_batchable(submitted);
    }
    let mut batch = Batch::default();
    let sections = batch.write(&requests);
    (batch, sections)
}

/// Drains the queue into the batch: what `build` gives for the queued
/// requests replaces the contents of `batch`, and the queue is left empty.
pub fn queue_vertices<T: Vertex>(batch: &mut Batch<T>, requests: &mut Requests<T>) -> (sections: Vec<
    (BatchSection, T::Key),
>)
    requires
        batchable(old(requests).values@),
    ensures
        final(requests).values@ == Seq::<Request<T>>::empty(),
        final(batch).vertices@ == flat_vertices(sorted_by_layer(old(requests).values@)),
        final(batch).indices@ == flat_indices(sorted_by_layer(old(requests).values@)),
        sections@ == sections_of(sorted_by_layer(old(requests).values@)),
{
    let ghost submitted = requests.values@;
    sort_by_layer(&mut requests.values);
    proof {
        lemma_stably_sorted_unique(submitted, requests.values@);
        lemma_sorted_batchable(submitted);
    }
    let sections = batch.write(&requests.values);
    requests.values.clear();
    sections
}

} // verus!
