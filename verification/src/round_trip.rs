//! What comes out of the reassembler when the chunks of a datagram go in.
//!
//! The chunks of one datagram may reach the reassembler in any number of
//! drains. Since the buffer is looked at after every drain, the datagram
//! comes out whole exactly when nothing that had accumulated at the end of an
//! earlier drain already parsed as a datagram.

use crate::chunker::batches_of;
use crate::chunker::chunk_end;
use crate::chunker::chunks_of;
use crate::chunker::lemma_batch_bounds;
use crate::chunker::lemma_batch_span;
use crate::chunker::lemma_batches_cover;
use crate::chunker::lemma_batches_join_prefix;
use crate::chunker::lemma_chunks_cover;
use crate::chunker::lemma_chunks_join_prefix;
use crate::chunker::sentinel;
use crate::datagram::declared_length;
use crate::datagram::is_ip_datagram;
use crate::datagram::is_ipv4_datagram;
use crate::reassembler::accumulated;
use crate::reassembler::carries_reset;
use crate::reassembler::deliverable;
use crate::reassembler::drained;
use crate::reassembler::overflows;
use crate::reassembler::Drained;
use vstd::prelude::*;
use vstd::seq_lib::lemma_flatten_concat;

verus! {

/// The buffer content after a run of drains, and the outcome of each.
pub open spec fn fed(content: Seq<u8>, capacity: nat, drains: Seq<Seq<Seq<u8>>>) -> (
    Seq<u8>,
    Seq<Drained>,
)
    decreases drains.len(),
{
    if drains.len() == 0 {
        (content, Seq::empty())
    } else {
        let (before, outcomes) = fed(content, capacity, drains.drop_last());
        let (after, outcome) = drained(before, capacity, drains.last());
        (after, outcomes.push(outcome))
    }
}

/// The bytes that the first `k` drains carry, in order.
pub open spec fn carried(drains: Seq<Seq<Seq<u8>>>, k: int) -> Seq<u8> {
    drains.take(k).flatten().flatten()
}

/// `count` drains that led to nothing, followed by one that gave a datagram.
pub open spec fn pending_then(count: nat, datagram: Seq<u8>) -> Seq<Drained> {
    Seq::new(count, |i: int| Drained::Pending).push(Drained::Datagram(datagram))
}

/// A run of sequences joined is its first `k` joined, followed by the rest
/// joined.
pub proof fn lemma_flatten_split<A>(s: Seq<Seq<A>>, k: int)
    requires
        0 <= k <= s.len(),
    ensures
        s.flatten() == s.take(k).flatten() + s.skip(k).flatten(),
{
    assert(s =~= s.take(k) + s.skip(k));
    lemma_flatten_concat(s.take(k), s.skip(k));
}

/// Joining one more sequence appends it.
pub proof fn lemma_flatten_take_next<A>(s: Seq<Seq<A>>, k: int)
    requires
        0 <= k < s.len(),
    ensures
        s.take(k + 1).flatten() == s.take(k).flatten() + s[k],
{
    assert(s.take(k + 1) =~= s.take(k).push(s[k]));
    s.take(k).lemma_flatten_push(s[k]);
}

/// Every element of every sequence of a run is an element of the run joined.
pub proof fn lemma_flatten_holds<A>(s: Seq<Seq<A>>, k: int, j: int) -> (i: int)
    requires
        0 <= k < s.len(),
        0 <= j < s[k].len(),
    ensures
        0 <= i < s.flatten().len(),
        s.flatten()[i] == s[k][j],
{
    lemma_flatten_split(s, k + 1);
    lemma_flatten_take_next(s, k);
    s.take(k).flatten().len() + j
}

/// Chunks that all fit behind what has accumulated are appended one after
/// the other, and nothing overflows.
pub proof fn lemma_accumulated_joins(content: Seq<u8>, capacity: nat, chunks: Seq<Seq<u8>>)
    requires
        content.len() + chunks.flatten().len() <= capacity,
    ensures
        accumulated(content, capacity, chunks) == content + chunks.flatten(),
        !overflows(content, capacity, chunks),
    decreases chunks.len(),
{
    if chunks.len() == 0 {
        assert(chunks.flatten() =~= Seq::<u8>::empty());
        assert(content + chunks.flatten() =~= content);
    } else {
        assert(chunks =~= chunks.drop_last().push(chunks.last()));
        chunks.drop_last().lemma_flatten_push(chunks.last());
        lemma_accumulated_joins(content, capacity, chunks.drop_last());
        assert((content + chunks.drop_last().flatten()) + chunks.last() =~= content
            + chunks.flatten());
    }
}

/// What the first `k + 1` drains carry is what the first `k` carry followed
/// by the chunks of drain `k`, and it is the beginning of what all carry.
pub proof fn lemma_carried_next(drains: Seq<Seq<Seq<u8>>>, k: int)
    requires
        0 <= k < drains.len(),
    ensures
        carried(drains, k + 1) == carried(drains, k) + drains[k].flatten(),
        carried(drains, k + 1).len() <= drains.flatten().flatten().len(),
        carried(drains, k + 1) == drains.flatten().flatten().take(
            carried(drains, k + 1).len() as int,
        ),
{
    lemma_flatten_take_next(drains, k);
    lemma_flatten_concat(drains.take(k).flatten(), drains[k]);
    lemma_flatten_split(drains, k + 1);
    lemma_flatten_concat(drains.take(k + 1).flatten(), drains.skip(k + 1).flatten());
    assert(drains.flatten().flatten().take(carried(drains, k + 1).len() as int) =~= carried(
        drains,
        k + 1,
    ));
}

/// While no earlier drain ends on something deliverable, feeding the chunks
/// of a datagram only appends them.
pub proof fn lemma_fed_pending(
    datagram: Seq<u8>,
    capacity: nat,
    drains: Seq<Seq<Seq<u8>>>,
    k: int,
)
    requires
        datagram.len() <= capacity,
        !carries_reset(chunks_of(datagram)),
        drains.flatten() == chunks_of(datagram),
        0 <= k < drains.len(),
        forall|n: int| 0 < n < drains.len() ==> !deliverable(#[trigger] carried(drains, n)),
    ensures
        fed(Seq::empty(), capacity, drains.take(k)) == (
            carried(drains, k),
            Seq::new(k as nat, |i: int| Drained::Pending),
        ),
    decreases k,
{
    if k == 0 {
        assert(drains.take(0).flatten() =~= Seq::<Seq<u8>>::empty());
        assert(carried(drains, 0) =~= Seq::<u8>::empty());
        assert(Seq::new(0nat, |i: int| Drained::Pending) =~= Seq::<Drained>::empty());
    } else {
        lemma_fed_pending(datagram, capacity, drains, k - 1);
        lemma_drain_appends(datagram, capacity, drains, k - 1);
        assert(drains.take(k).drop_last() =~= drains.take(k - 1));
        assert(drains.take(k).last() == drains[k - 1]);
        assert(Seq::new((k - 1) as nat, |i: int| Drained::Pending).push(Drained::Pending)
            =~= Seq::new(k as nat, |i: int| Drained::Pending));
    }
}

/// Drain `k` of the chunks of a datagram carries no reset, fits behind what
/// the drains before it carried, and appends its chunks.
pub proof fn lemma_drain_appends(
    datagram: Seq<u8>,
    capacity: nat,
    drains: Seq<Seq<Seq<u8>>>,
    k: int,
)
    requires
        datagram.len() <= capacity,
        !carries_reset(chunks_of(datagram)),
        drains.flatten() == chunks_of(datagram),
        0 <= k < drains.len(),
    ensures
        !carries_reset(drains[k]),
        accumulated(carried(drains, k), capacity, drains[k]) == carried(drains, k + 1),
        !overflows(carried(drains, k), capacity, drains[k]),
{
    lemma_chunks_cover(datagram);
    lemma_carried_next(drains, k);
    lemma_accumulated_joins(carried(drains, k), capacity, drains[k]);
    if carries_reset(drains[k]) {
        let j = choose|j: int| 0 <= j < drains[k].len() && #[trigger] drains[k][j] == sentinel();
        let i = lemma_flatten_holds(drains, k, j);
        assert(chunks_of(datagram)[i] == sentinel());
    }
}

/// Feeding the chunks of a deliverable datagram, in order and in any number
/// of drains, into an empty buffer that can hold it gives that datagram back
/// byte for byte with the last drain, and leaves the buffer empty. This
/// holds where no chunk is the reset sentinel and where what has arrived by
/// the end of an earlier drain is not itself deliverable.
pub proof fn lemma_round_trip(datagram: Seq<u8>, capacity: nat, drains: Seq<Seq<Seq<u8>>>)
    requires
        deliverable(datagram),
        datagram.len() <= capacity,
        !carries_reset(chunks_of(datagram)),
        drains.len() > 0,
        drains.flatten() == chunks_of(datagram),
        forall|n: int| 0 < n < drains.len() ==> !deliverable(#[trigger] carried(drains, n)),
    ensures
        fed(Seq::empty(), capacity, drains) == (
            Seq::<u8>::empty(),
            pending_then((drains.len() - 1) as nat, datagram),
        ),
{
    let last = drains.len() - 1;
    lemma_fed_pending(datagram, capacity, drains, last);
    lemma_drain_appends(datagram, capacity, drains, last);
    lemma_chunks_cover(datagram);
    assert(drains.take(drains.len() as int) =~= drains);
    assert(drains.drop_last() =~= drains.take(last));
    assert(carried(drains, last + 1) == datagram);
}

/// No IP datagram begins with the reset sentinel: the first chunk of a
/// datagram never asks for a reset.
pub proof fn lemma_sentinel_never_leads(datagram: Seq<u8>)
    requires
        is_ip_datagram(datagram),
    ensures
        chunks_of(datagram).len() > 0,
        chunks_of(datagram)[0] != sentinel(),
{
    lemma_chunks_cover(datagram);
    let first = chunks_of(datagram)[0];
    assert(first[0] == datagram[0]);
    assert(sentinel()[0] == 0xFFu8);
    assert(0xFFu8 >> 4 == 15u8) by (bit_vector);
}

/// Fed in a single drain, the chunks of a deliverable datagram give it back.
pub proof fn lemma_round_trip_one_drain(datagram: Seq<u8>, capacity: nat)
    requires
        deliverable(datagram),
        datagram.len() <= capacity,
        !carries_reset(chunks_of(datagram)),
    ensures
        drained(Seq::empty(), capacity, chunks_of(datagram)) == (
            Seq::<u8>::empty(),
            Drained::Datagram(datagram),
        ),
{
    lemma_chunks_cover(datagram);
    lemma_accumulated_joins(Seq::empty(), capacity, chunks_of(datagram));
    assert(Seq::<u8>::empty() + datagram =~= datagram);
}

/// Nothing shorter than an IPv4 datagram whose header declares its exact
/// length is deliverable: the beginning of it declares more than it holds.
pub proof fn lemma_exact_length_prefix(datagram: Seq<u8>, n: int)
    requires
        is_ipv4_datagram(datagram),
        declared_length(datagram) == datagram.len(),
        0 <= n < datagram.len(),
    ensures
        !deliverable(datagram.take(n)),
{
    let prefix = datagram.take(n);
    if n > 0 {
        assert(prefix[0] == datagram[0]);
    }
    if n >= 4 {
        assert(prefix[2] == datagram[2]);
        assert(prefix[3] == datagram[3]);
    }
}

/// Fed batch by batch, the chunks of an IPv4 datagram whose header declares
/// its exact length give it back with the last batch.
pub proof fn lemma_round_trip_batches(datagram: Seq<u8>, capacity: nat, per_batch: nat)
    requires
        per_batch > 0,
        is_ipv4_datagram(datagram),
        declared_length(datagram) == datagram.len(),
        datagram.len() <= capacity,
        !carries_reset(chunks_of(datagram)),
    ensures
        batches_of(datagram, per_batch).len() > 0,
        fed(Seq::empty(), capacity, batches_of(datagram, per_batch)) == (
            Seq::<u8>::empty(),
            pending_then((batches_of(datagram, per_batch).len() - 1) as nat, datagram),
        ),
{
    let drains = batches_of(datagram, per_batch);
    let chunks = chunks_of(datagram);
    lemma_batches_cover(datagram, per_batch);
    lemma_chunks_cover(datagram);
    lemma_batch_bounds(chunks.len(), per_batch);
    assert forall|n: int| 0 < n < drains.len() implies !deliverable(
        #[trigger] carried(drains, n),
    ) by {
        lemma_batches_join_prefix(datagram, per_batch, n);
        lemma_batch_span(chunks.len(), per_batch, n);
        let m = per_batch * n;
        lemma_chunks_join_prefix(datagram, m);
        assert(chunk_end(datagram.len(), m - 1) < datagram.len());
        lemma_exact_length_prefix(datagram, chunk_end(datagram.len(), m - 1));
    }
    lemma_round_trip(datagram, capacity, drains);
}

} // verus!
