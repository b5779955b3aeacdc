//! Accumulating received chunks until they form a datagram.
//!
//! The radio delivers chunks without any framing. The reassembler appends
//! each drain of chunks to a fixed buffer and hands the buffer out as soon as
//! its content parses as an IP datagram. A reset sentinel among the chunks, or
//! a chunk that no longer fits, empties the buffer.

use crate::chunker::is_reset_sentinel;
use crate::chunker::sentinel;
use crate::datagram::is_ip_datagram;
use crate::datagram::parses_as_ip;
use vstd::prelude::*;
use vstd::slice::slice_subrange;
use vstd::slice::slice_to_vec;

verus! {

/// Capacity of the reassembly buffer unless configured otherwise.
pub const BUFFER_CAPACITY: usize = 4096;

/// Accumulated content is only checked for a datagram once it is longer than
/// this many bytes.
pub const CHECK_ABOVE: usize = 10;

/// The accumulated content is handed on: it is long enough to be looked at
/// and parses as an IP datagram.
pub open spec fn deliverable(content: Seq<u8>) -> bool {
    content.len() > CHECK_ABOVE && is_ip_datagram(content)
}

/// The content after one more chunk: the chunk is appended where it fits;
/// where it does not, everything is dropped, the chunk included.
pub open spec fn appended(content: Seq<u8>, capacity: nat, chunk: Seq<u8>) -> Seq<u8> {
    if content.len() + chunk.len() <= capacity {
        content + chunk
    } else {
        Seq::empty()
    }
}

/// The content after a run of chunks, each taken in as `appended` says.
pub open spec fn accumulated(content: Seq<u8>, capacity: nat, chunks: Seq<Seq<u8>>) -> Seq<u8>
    decreases chunks.len(),
{
    if chunks.len() == 0 {
        content
    } else {
        appended(accumulated(content, capacity, chunks.drop_last()), capacity, chunks.last())
    }
}

/// Some chunk of the run did not fit behind what had accumulated before it.
pub open spec fn overflows(content: Seq<u8>, capacity: nat, chunks: Seq<Seq<u8>>) -> bool
    decreases chunks.len(),
{
    chunks.len() > 0 && {
        ||| overflows(content, capacity, chunks.drop_last())
        ||| accumulated(content, capacity, chunks.drop_last()).len() + chunks.last().len()
            > capacity
    }
}

/// Some chunk of the run is the reset sentinel.
pub open spec fn carries_reset(chunks: Seq<Seq<u8>>) -> bool {
    exists|i: int| 0 <= i < chunks.len() && #[trigger] chunks[i] == sentinel()
}

/// What one drain of chunks led to, over byte sequences.
pub enum Drained {
    /// Nothing to hand on yet; the chunks were appended.
    Pending,
    /// A chunk did not fit and the buffer was restarted; what has accumulated
    /// since is not a datagram.
    Overflow,
    /// The drain carried the reset sentinel; the buffer was emptied.
    Reset,
    /// The buffer held a datagram, which was taken out.
    Datagram(Seq<u8>),
}

/// What one drain of chunks led to.
#[derive(Debug, Clone, PartialEq, Eq)]
pub enum DrainOutcome {
    /// Nothing to hand on yet; the chunks were appended.
    Pending,
    /// A chunk did not fit and the buffer was restarted; what has accumulated
    /// since is not a datagram.
    Overflow,
    /// The drain carried the reset sentinel; the buffer was emptied.
    Reset,
    /// The buffer held a datagram, which was taken out.
    Datagram(Vec<u8>),
}

impl View for DrainOutcome {
    type V = Drained;

    open spec fn view(&self) -> Drained {
        match self {
            DrainOutcome::Pending => Drained::Pending,
            DrainOutcome::Overflow => Drained::Overflow,
            DrainOutcome::Reset => Drained::Reset,
            DrainOutcome::Datagram(bytes) => Drained::Datagram(bytes@),
        }
    }
}

/// The buffer content and the outcome after a drain of chunks.
///
/// A reset sentinel anywhere in the drain empties the buffer. Otherwise the
/// chunks are accumulated, and if the content is then deliverable it is taken
/// out whole.
pub open spec fn drained(content: Seq<u8>, capacity: nat, chunks: Seq<Seq<u8>>) -> (
    Seq<u8>,
    Drained,
) {
    let gathered = accumulated(content, capacity, chunks);
    if carries_reset(chunks) {
        (Seq::empty(), Drained::Reset)
    } else if deliverable(gathered) {
        (Seq::empty(), Drained::Datagram(gathered))
    } else if overflows(content, capacity, chunks) {
        (gathered, Drained::Overflow)
    } else {
        (gathered, Drained::Pending)
    }
}

/// A fixed-capacity buffer of the bytes received since the last datagram.
#[derive(Debug)]
pub struct Reassembler {
    buf: Vec<u8>,
    end: usize,
}

impl View for Reassembler {
    type V = Seq<u8>;

    /// The accumulated bytes.
    closed spec fn view(&self) -> Seq<u8> {
        self.buf@.subrange(0, self.end as int)
    }
}

impl Reassembler {
    #[verifier::type_invariant]
    spec fn within_capacity(self) -> bool {
        self.end <= self.buf@.len()
    }

    /// The most bytes the buffer holds.
    pub closed spec fn spec_capacity(&self) -> usize {
        self.buf.len()
    }

    /// An empty buffer of the given capacity.
    pub fn new(capacity: usize) -> (fresh: Self)
        ensures
            fresh@ == Seq::<u8>::empty(),
            fresh.capacity() == capacity,
    {
        let fresh = Reassembler { buf: vec![0u8; capacity], end: 0 };
        assert(fresh@ =~= Seq::<u8>::empty());
        fresh
    }

    /// The most bytes the buffer holds.
    #[verifier::when_used_as_spec(spec_capacity)]
    pub fn capacity(&self) -> (capacity: usize)
        ensures
            capacity == self.capacity(),
    {
        self.buf.len()
    }

    /// The number of accumulated bytes, which is the next write offset.
    pub fn len(&self) -> (end: usize)
        ensures
            end == self@.len(),
            end <= self.capacity(),
    {
        proof {
            use_type_invariant(self);
        }
        self.end
    }

    /// Whether nothing has accumulated.
    pub fn is_empty(&self) -> (empty: bool)
        ensures
            empty == (self@.len() == 0),
    {
        proof {
            use_type_invariant(self);
        }
        self.end == 0
    }

    /// A copy of the accumulated bytes.
    pub fn contents(&self) -> (bytes: Vec<u8>)
        ensures
            bytes@ == self@,
    {
        proof {
            use_type_invariant(self);
        }
        slice_to_vec(slice_subrange(self.buf.as_slice(), 0, self.end))
    }

    /// Drops what has accumulated.
    pub fn reset(&mut self)
        ensures
            final(self)@ == Seq::<u8>::empty(),
            final(self).capacity() == old(self).capacity(),
    {
        self.end = 0;
        assert(self@ =~= Seq::<u8>::empty());
    }

    /// Takes in one chunk as `appended` says and reports whether it fit.
    fn append(&mut self, chunk: &[u8]) -> (stored: bool)
        ensures
            final(self)@ == appended(old(self)@, old(self).capacity() as nat, chunk@),
            final(self).capacity() == old(self).capacity(),
            stored == (old(self)@.len() + chunk@.len() <= old(self).capacity()),
    {
        proof {
            use_type_invariant(&*self);
        }
        if chunk.len() > self.buf.len() - self.end {
            self.end = 0;
            assert(self@ =~= Seq::<u8>::empty());
            return false;
        }
        let start = self.end;
        let mut j: usize = 0;
        while j < chunk.len()
            invariant
                j <= chunk@.len(),
                start == self.end,
                start + chunk@.len() <= self.buf.len(),
                self.buf@.len() == old(self).buf@.len(),
                self.buf@.subrange(0, start as int) == old(self)@,
                self.buf@.subrange(start as int, start + j) == chunk@.subrange(0, j as int),
            decreases chunk@.len() - j,
        {
            let ghost before = self.buf@;
            self.buf[start + j] = chunk[j];
            assert(self.buf@.subrange(0, start as int) =~= before.subrange(0, start as int));
            assert(self.buf@.subrange(start as int, start + j + 1) =~= before.subrange(
                start as int,
                start + j,
            ).push(chunk@[j as int]));
            assert(chunk@.subrange(0, j + 1) =~= chunk@.subrange(0, j as int).push(
                chunk@[j as int],
            ));
            j = j + 1;
        }
        self.end = start + chunk.len();
        assert(chunk@.subrange(0, chunk@.len() as int) =~= chunk@);
        assert(self@ =~= old(self)@ + chunk@);
        true
    }

    /// Takes in the chunks of one drain, in order, and then looks at what
    /// has accumulated.
    ///
    /// A reset sentinel among the chunks empties the buffer. Otherwise, when
    /// the content is deliverable, it is taken out and returned. A chunk
    /// that would not have fit empties the buffer instead of being written,
    /// and the chunks after it start over.
    pub fn drain(&mut self, chunks: &Vec<Vec<u8>>) -> (outcome: DrainOutcome)
        ensures
            final(self).capacity() == old(self).capacity(),
            final(self)@.len() <= final(self).capacity(),
            (final(self)@, outcome@) == drained(
                old(self)@,
                old(self).capacity() as nat,
                chunks.deep_view(),
            ),
            carries_reset(chunks.deep_view()) ==> final(self)@.len() == 0 && outcome
                == DrainOutcome::Reset,
            outcome is Datagram ==> final(self)@.len() == 0,
    {
        let ghost fed = chunks.deep_view();
        let mut reset = false;
        let mut overflow = false;
        let mut i: usize = 0;
        assert(fed.take(0) =~= Seq::<Seq<u8>>::empty());
        while i < chunks.len()
            invariant
                i <= chunks.len(),
                fed == chunks.deep_view(),
                self.capacity() == old(self).capacity(),
                self@ == accumulated(old(self)@, old(self).capacity() as nat, fed.take(i as int)),
                overflow == overflows(old(self)@, old(self).capacity() as nat, fed.take(i as int)),
                reset == carries_reset(fed.take(i as int)),
            decreases chunks.len() - i,
        {
            let chunk = chunks[i].as_slice();
            proof {
                let sofar = fed.take(i as int);
                let next = fed.take(i + 1);
                assert(chunks@[i as int].deep_view() =~= chunks@[i as int]@);
                assert(next.drop_last() =~= sofar);
                assert(next.last() == chunk@);
                if carries_reset(sofar) {
                    let w = choose|w: int| 0 <= w < sofar.len() && #[trigger] sofar[w] == sentinel();
                    assert(next[w] == sentinel());
                }
                if carries_reset(next) && chunk@ != sentinel() {
                    let w = choose|w: int| 0 <= w < next.len() && #[trigger] next[w] == sentinel();
                    assert(sofar[w] == sentinel());
                }
            }
            if is_reset_sentinel(chunk) {
                reset = true;
            }
            if !self.append(chunk) {
                overflow = true;
            }
            i = i + 1;
        }
        assert(fed.take(chunks.len() as int) =~= fed);
        proof {
            use_type_invariant(&*self);
        }
        if reset {
            self.end = 0;
            assert(self@ =~= Seq::<u8>::empty());
            return DrainOutcome::Reset;
        }
        if self.end > CHECK_ABOVE {
            let content = slice_subrange(self.buf.as_slice(), 0, self.end);
            if parses_as_ip(content) {
                let datagram = slice_to_vec(content);
                self.end = 0;
                assert(self@ =~= Seq::<u8>::empty());
                return DrainOutcome::Datagram(datagram);
            }
        }
        if overflow {
            DrainOutcome::Overflow
        } else {
            DrainOutcome::Pending
        }
    }
}

/// What has accumulated never exceeds the capacity, whatever chunks arrive.
pub proof fn lemma_accumulated_within(content: Seq<u8>, capacity: nat, chunks: Seq<Seq<u8>>)
    requires
        content.len() <= capacity,
    ensures
        accumulated(content, capacity, chunks).len() <= capacity,
    decreases chunks.len(),
{
    if chunks.len() > 0 {
        lemma_accumulated_within(content, capacity, chunks.drop_last());
    }
}

/// A drain whose last chunk does not fit behind what accumulated before it
/// leaves the buffer empty.
pub proof fn lemma_overflow_restarts(content: Seq<u8>, capacity: nat, chunks: Seq<Seq<u8>>)
    requires
        chunks.len() > 0,
        accumulated(content, capacity, chunks.drop_last()).len() + chunks.last().len() > capacity,
    ensures
        overflows(content, capacity, chunks),
        drained(content, capacity, chunks).0 == Seq::<u8>::empty(),
        drained(content, capacity, chunks).1 == Drained::Reset || drained(
            content,
            capacity,
            chunks,
        ).1 == Drained::Overflow,
{
}

/// A drain that carries the reset sentinel leaves the buffer empty, whatever
/// it held and whatever else the drain carries.
pub proof fn lemma_reset_empties(content: Seq<u8>, capacity: nat, chunks: Seq<Seq<u8>>)
    requires
        carries_reset(chunks),
    ensures
        drained(content, capacity, chunks) == (Seq::<u8>::empty(), Drained::Reset),
{
}

/// The sentinel on its own is a drain that carries it.
pub proof fn lemma_sentinel_alone_resets(content: Seq<u8>, capacity: nat)
    ensures
        drained(content, capacity, seq![sentinel()]) == (Seq::<u8>::empty(), Drained::Reset),
{
    assert(seq![sentinel()][0] == sentinel());
}

} // verus!
