//! Cutting a datagram into radio-sized chunks and grouping the chunks into
//! batches that are queued together before one send.

use vstd::arithmetic::div_mod::lemma_fundamental_div_mod;
use vstd::arithmetic::div_mod::lemma_fundamental_div_mod_converse;
use vstd::arithmetic::div_mod::lemma_mod_bound;
use vstd::prelude::*;
use vstd::slice::slice_subrange;
use vstd::slice::slice_to_vec;

verus! {

/// The most bytes the radio carries in one payload.
pub const CHUNK_SIZE: usize = 32;

/// Chunks queued before one send unless configured otherwise.
pub const DEFAULT_BATCH: usize = 2;

/// The radio's output queue holds this many payloads.
pub const MAX_BATCH: usize = 3;

/// How many chunks go into a batch: at least one, and no more than the
/// radio's output queue holds.
#[derive(Clone, Copy, Debug, PartialEq, Eq)]
pub struct BatchSize {
    chunks: usize,
}

impl View for BatchSize {
    type V = nat;

    closed spec fn view(&self) -> nat {
        self.chunks as nat
    }
}

impl BatchSize {
    #[verifier::type_invariant]
    spec fn in_range(self) -> bool {
        0 < self.chunks <= MAX_BATCH
    }

    /// A batch size of `chunks`; `None` where that is zero or more than
    /// the radio's output queue holds.
    pub fn new(chunks: usize) -> (size: Option<Self>)
        ensures
            size is Some <==> 0 < chunks <= MAX_BATCH,
            size matches Some(s) ==> s@ == chunks,
    {
        if chunks == 0 || chunks > MAX_BATCH {
            None
        } else {
            Some(BatchSize { chunks })
        }
    }

    /// The number of chunks in a batch.
    pub fn get(&self) -> (chunks: usize)
        ensures
            chunks == self@,
            0 < chunks <= MAX_BATCH,
    {
        proof {
            use_type_invariant(self);
        }
        self.chunks
    }
}

/// The reserved chunk that asks the receiving side to forget what it has
/// accumulated: a full chunk of `0xFF`. No datagram starts with it, because
/// its version nibble is neither 4 nor 6.
pub open spec fn sentinel() -> Seq<u8> {
    Seq::new(CHUNK_SIZE as nat, |i: int| 0xFFu8)
}

/// How many chunks a datagram of `len` bytes is cut into: `len / 32`, rounded
/// up.
pub open spec fn chunk_count(len: nat) -> nat {
    ((len + CHUNK_SIZE - 1) / (CHUNK_SIZE as int)) as nat
}

/// Where chunk `i` of a datagram of `len` bytes ends.
pub open spec fn chunk_end(len: nat, i: int) -> int {
    if CHUNK_SIZE * (i + 1) <= len {
        CHUNK_SIZE * (i + 1)
    } else {
        len as int
    }
}

/// Chunk `i` of a datagram: its bytes from `32 * i` up to the next multiple
/// of 32 or the end of the datagram, whichever comes first.
pub open spec fn chunk_at(datagram: Seq<u8>, i: int) -> Seq<u8> {
    datagram.subrange(CHUNK_SIZE * i, chunk_end(datagram.len(), i))
}

/// The chunks of a datagram, in order.
pub open spec fn chunks_of(datagram: Seq<u8>) -> Seq<Seq<u8>> {
    Seq::new(chunk_count(datagram.len()), |i: int| chunk_at(datagram, i))
}

/// How many batches `chunks` chunks make when `per_batch` go into each:
/// `chunks / per_batch`, rounded up.
pub open spec fn batch_count(chunks: nat, per_batch: nat) -> nat
    recommends
        per_batch > 0,
{
    ((chunks + per_batch - 1) / (per_batch as int)) as nat
}

/// Where batch `b` ends in a run of `chunks` chunks.
pub open spec fn batch_end(chunks: nat, per_batch: nat, b: int) -> int {
    if per_batch * (b + 1) <= chunks {
        per_batch * (b + 1)
    } else {
        chunks as int
    }
}

/// Batch `b` of a run of chunks: `per_batch` consecutive chunks, fewer in the
/// last batch when the run does not divide evenly.
pub open spec fn batch_at(chunks: Seq<Seq<u8>>, per_batch: nat, b: int) -> Seq<Seq<u8>> {
    chunks.subrange(per_batch * b, batch_end(chunks.len(), per_batch, b))
}

/// The batches of a datagram, in order.
pub open spec fn batches_of(datagram: Seq<u8>, per_batch: nat) -> Seq<Seq<Seq<u8>>>
    recommends
        per_batch > 0,
{
    Seq::new(
        batch_count(chunk_count(datagram.len()), per_batch),
        |b: int| batch_at(chunks_of(datagram), per_batch, b),
    )
}

/// The reset sentinel as a chunk ready to be sent.
pub fn reset_sentinel() -> (chunk: Vec<u8>)
    ensures
        chunk@ == sentinel(),
{
    let mut chunk: Vec<u8> = Vec::new();
    let mut i: usize = 0;
    while i < CHUNK_SIZE
        invariant
            i <= CHUNK_SIZE,
            chunk@.len() == i,
            forall|j: int| 0 <= j < i ==> chunk@[j] == 0xFFu8,
        decreases CHUNK_SIZE - i,
    {
        chunk.push(0xFF);
        i = i + 1;
    }
    assert(chunk@ =~= sentinel());
    chunk
}

/// Whether a chunk is the reset sentinel.
pub fn is_reset_sentinel(chunk: &[u8]) -> (found: bool)
    ensures
        found == (chunk@ == sentinel()),
{
    if chunk.len() != CHUNK_SIZE {
        return false;
    }
    let mut i: usize = 0;
    while i < CHUNK_SIZE
        invariant
            i <= CHUNK_SIZE,
            chunk@.len() == CHUNK_SIZE,
            forall|j: int| 0 <= j < i ==> chunk@[j] == 0xFFu8,
        decreases CHUNK_SIZE - i,
    {
        if chunk[i] != 0xFF {
            assert(sentinel()[i as int] == 0xFFu8);
            return false;
        }
        i = i + 1;
    }
    assert(chunk@ =~= sentinel());
    true
}

/// Cuts a datagram into its chunks. Every chunk but the last holds 32 bytes;
/// the last holds what is left and is not padded.
pub fn split(datagram: &[u8]) -> (chunks: Vec<Vec<u8>>)
    ensures
        chunks.deep_view() == chunks_of(datagram@),
        chunks.len() == chunk_count(datagram@.len()),
        chunks.deep_view().flatten() == datagram@,
{
    let mut chunks: Vec<Vec<u8>> = Vec::new();
    let mut start: usize = 0;
    while start < datagram.len()
        invariant
            start <= datagram.len(),
            start == CHUNK_SIZE * chunks.len() || start == datagram.len(),
            chunks.len() == chunk_count(start as nat),
            forall|i: int| 0 <= i < chunks.len() ==> chunks@[i]@ == chunk_at(datagram@, i),
        decreases datagram.len() - start,
    {
        let end: usize = if datagram.len() - start > CHUNK_SIZE {
            start + CHUNK_SIZE
        } else {
            datagram.len()
        };
        let piece = slice_to_vec(slice_subrange(datagram, start, end));
        chunks.push(piece);
        start = end;
    }
    proof {
        let got = chunks.deep_view();
        let want = chunks_of(datagram@);
        assert(got.len() == want.len());
        assert forall|i: int| 0 <= i < got.len() implies got[i] == want[i] by {
            assert(chunks@[i].deep_view() =~= chunks@[i]@);
        }
        assert(got =~= want);
        lemma_chunks_cover(datagram@);
    }
    chunks
}

/// How many chunks a datagram of `len` bytes is cut into.
pub fn count_chunks(len: usize) -> (count: usize)
    ensures
        count == chunk_count(len as nat),
{
    if len % CHUNK_SIZE == 0 {
        len / CHUNK_SIZE
    } else {
        len / CHUNK_SIZE + 1
    }
}

/// How many batches `chunks` chunks make when `per_batch` go into each.
pub fn count_batches(chunks: usize, size: BatchSize) -> (count: usize)
    ensures
        count == batch_count(chunks as nat, size@),
{
    let per_batch = size.get();
    let full = chunks / per_batch;
    let rest = chunks % per_batch;
    proof {
        lemma_fundamental_div_mod(chunks as int, per_batch as int);
        lemma_batch_count(full as nat, rest as nat, per_batch as nat);
        lemma_batch_bounds(chunks as nat, per_batch as nat);
        assert(rest > 0 ==> full < chunks) by (nonlinear_arith)
            requires
                chunks == per_batch * full + rest,
                per_batch > 0,
        ;
    }
    if rest == 0 {
        full
    } else {
        full + 1
    }
}

/// Cuts batch `index` out of a datagram without cutting the others. `None`
/// where the datagram has no such batch.
pub fn batch(datagram: &[u8], size: BatchSize, index: usize) -> (cut: Option<Vec<Vec<u8>>>)
    ensures
        cut is Some <==> index < batches_of(datagram@, size@).len(),
        cut matches Some(chunks) ==> chunks.deep_view() == batches_of(
            datagram@,
            size@,
        )[index as int],
{
    let per_batch = size.get();
    let total = count_chunks(datagram.len());
    if index >= count_batches(total, size) {
        return None;
    }
    proof {
        lemma_batch_span(total as nat, per_batch as nat, index as int);
    }
    let first: usize = per_batch * index;
    let last: usize = if total - first > per_batch {
        first + per_batch
    } else {
        total
    };
    assert(last == batch_end(total as nat, per_batch as nat, index as int)) by {
        assert(per_batch * (index + 1) == per_batch * index + per_batch) by (nonlinear_arith);
    }
    let mut chunks: Vec<Vec<u8>> = Vec::new();
    let mut c: usize = first;
    while c < last
        invariant
            first <= c <= last <= total,
            total == chunk_count(datagram@.len()),
            total == 0 || CHUNK_SIZE * (total - 1) < datagram.len(),
            chunks.len() == c - first,
            forall|j: int|
                0 <= j < chunks.len() ==> (#[trigger] chunks@[j])@ == chunk_at(
                    datagram@,
                    first + j,
                ),
        decreases last - c,
    {
        let start: usize = CHUNK_SIZE * c;
        let end: usize = if datagram.len() - start > CHUNK_SIZE {
            start + CHUNK_SIZE
        } else {
            datagram.len()
        };
        chunks.push(slice_to_vec(slice_subrange(datagram, start, end)));
        c = c + 1;
    }
    proof {
        let got = chunks.deep_view();
        let want = batch_at(chunks_of(datagram@), per_batch as nat, index as int);
        assert(got.len() == want.len());
        assert forall|j: int| 0 <= j < got.len() implies got[j] == want[j] by {
            assert(chunks@[j].deep_view() =~= chunks@[j]@);
        }
        assert(got =~= want);
    }
    Some(chunks)
}

/// Cuts a datagram into chunks and groups them, in order, into batches. The
/// last batch holds what is left.
pub fn batches(datagram: &[u8], size: BatchSize) -> (out: Vec<Vec<Vec<u8>>>)
    ensures
        out.deep_view() == batches_of(datagram@, size@),
        out.deep_view().flatten() == chunks_of(datagram@),
        out.deep_view().flatten().flatten() == datagram@,
{
    let ghost want = batches_of(datagram@, size@);
    let mut out: Vec<Vec<Vec<u8>>> = Vec::new();
    loop
        invariant
            out.len() <= want.len(),
            want == batches_of(datagram@, size@),
            forall|b: int| 0 <= b < out.len() ==> (#[trigger] out@[b]).deep_view() == want[b],
        decreases want.len() - out.len(),
    {
        match batch(datagram, size, out.len()) {
            Some(group) => out.push(group),
            None => {
                proof {
                    assert(out.deep_view() =~= want);
                    use_type_invariant(&size);
                    lemma_batches_cover(datagram@, size@);
                }
                return out;
            },
        }
    }
}

/// `batch_count` of a run made of `full` whole batches and `rest` further
/// chunks.
pub proof fn lemma_batch_count(full: nat, rest: nat, per_batch: nat)
    requires
        per_batch > 0,
        rest < per_batch,
    ensures
        batch_count(per_batch * full + rest, per_batch) == if rest == 0 {
            full
        } else {
            full + 1
        },
{
    let x = per_batch * full + rest + per_batch - 1;
    assert(per_batch * full == full * per_batch) by (nonlinear_arith);
    if rest == 0 {
        lemma_fundamental_div_mod_converse(x, per_batch as int, full as int, (per_batch - 1) as int);
    } else {
        assert((full + 1) * per_batch == full * per_batch + per_batch) by (nonlinear_arith);
        lemma_fundamental_div_mod_converse(x, per_batch as int, (full + 1) as int, (rest - 1) as int);
    }
}

/// Joining the first `k` chunks of a datagram gives its first `32 * k` bytes,
/// or all of it where it is shorter.
pub proof fn lemma_chunks_join_prefix(datagram: Seq<u8>, k: int)
    requires
        0 <= k <= chunk_count(datagram.len()),
    ensures
        chunks_of(datagram).take(k).flatten() == datagram.take(chunk_end(datagram.len(), k - 1)),
    decreases k,
{
    let chunks = chunks_of(datagram);
    if k == 0 {
        assert(chunks.take(0).flatten() =~= Seq::<u8>::empty());
        assert(datagram.take(0) =~= Seq::<u8>::empty());
    } else {
        lemma_chunks_join_prefix(datagram, k - 1);
        assert(chunks.take(k) =~= chunks.take(k - 1).push(chunks[k - 1]));
        chunks.take(k - 1).lemma_flatten_push(chunks[k - 1]);
        assert(datagram.take(chunk_end(datagram.len(), k - 2)) + chunk_at(datagram, k - 1)
            =~= datagram.take(chunk_end(datagram.len(), k - 1)));
    }
}

/// A datagram of `L` bytes is cut into `L / 32` chunks, rounded up. None is
/// empty or longer than 32 bytes, only the last can be shorter, and joined in
/// order they are the datagram, byte for byte.
pub proof fn lemma_chunks_cover(datagram: Seq<u8>)
    ensures
        chunks_of(datagram).len() == chunk_count(datagram.len()),
        CHUNK_SIZE * (chunk_count(datagram.len()) - 1) < datagram.len() || datagram.len() == 0,
        datagram.len() <= CHUNK_SIZE * chunk_count(datagram.len()),
        forall|i: int|
            0 <= i < chunks_of(datagram).len() ==> 0 < (#[trigger] chunks_of(datagram)[i]).len()
                <= CHUNK_SIZE,
        forall|i: int|
            0 <= i < chunks_of(datagram).len() - 1 ==> (#[trigger] chunks_of(datagram)[i]).len()
                == CHUNK_SIZE,
        chunks_of(datagram).flatten() == datagram,
        chunks_of(datagram).flatten().take(datagram.len() as int) == datagram,
{
    let chunks = chunks_of(datagram);
    lemma_chunks_join_prefix(datagram, chunks.len() as int);
    assert(chunks.take(chunks.len() as int) =~= chunks);
    assert(datagram.take(datagram.len() as int) =~= datagram);
}

/// The last batch of a run ends where the run ends, and every batch before
/// it is followed by at least one more chunk.
pub proof fn lemma_batch_bounds(chunks: nat, per_batch: nat)
    requires
        per_batch > 0,
    ensures
        chunks <= per_batch * batch_count(chunks, per_batch),
        chunks == 0 || per_batch * (batch_count(chunks, per_batch) - 1) < chunks,
        chunks == 0 <==> batch_count(chunks, per_batch) == 0,
{
    let x = chunks + per_batch - 1;
    let d = per_batch as int;
    lemma_fundamental_div_mod(x, d);
    lemma_mod_bound(x, d);
    let q = x / d;
    assert(d * (q - 1) == d * q - d) by (nonlinear_arith);
    if chunks == 0 {
        lemma_batch_count(0, 0, per_batch);
        assert(per_batch * 0 == 0) by (nonlinear_arith);
    } else {
        assert(q >= 1) by (nonlinear_arith)
            requires
                x == d * q + x % d,
                0 <= x % d < d,
                x >= d,
                d > 0,
        ;
    }
}

/// Where batch `b` of `count` batches starts and ends: full batches before
/// the last, and a last batch that is not empty.
pub proof fn lemma_batch_span(chunks: nat, per_batch: nat, b: int)
    requires
        per_batch > 0,
        0 <= b < batch_count(chunks, per_batch),
    ensures
        0 <= per_batch * b < batch_end(chunks, per_batch, b) <= chunks,
        batch_end(chunks, per_batch, b) - per_batch * b <= per_batch,
        b < batch_count(chunks, per_batch) - 1 ==> batch_end(chunks, per_batch, b) == per_batch
            * b + per_batch,
        b == batch_count(chunks, per_batch) - 1 ==> batch_end(chunks, per_batch, b) == chunks,
        b > 0 ==> batch_end(chunks, per_batch, b - 1) == per_batch * b,
{
    let count = batch_count(chunks, per_batch) as int;
    let n = per_batch as int;
    lemma_batch_bounds(chunks, per_batch);
    assert(n * (b + 1) == n * b + n) by (nonlinear_arith);
    assert(n * (count - 1) == n * count - n) by (nonlinear_arith);
    assert(n * b <= n * (count - 1)) by (nonlinear_arith)
        requires
            b <= count - 1,
            n > 0,
    ;
    assert(0 <= n * b) by (nonlinear_arith)
        requires
            b >= 0,
            n > 0,
    ;
    if b < count - 1 {
        assert(n * (b + 1) <= n * (count - 1)) by (nonlinear_arith)
            requires
                b + 1 <= count - 1,
                n > 0,
        ;
    } else {
        assert(n * (b + 1) == n * count);
    }
    if b > 0 {
        assert(n * ((b - 1) + 1) == n * b);
    }
}

/// Joining the first `k` batches of a datagram gives the chunks up to the end
/// of batch `k - 1`.
pub proof fn lemma_batches_join_prefix(datagram: Seq<u8>, per_batch: nat, k: int)
    requires
        per_batch > 0,
        0 <= k <= batches_of(datagram, per_batch).len(),
    ensures
        batches_of(datagram, per_batch).take(k).flatten() == chunks_of(datagram).take(
            if k == 0 {
                0
            } else {
                batch_end(chunks_of(datagram).len(), per_batch, k - 1)
            },
        ),
    decreases k,
{
    let chunks = chunks_of(datagram);
    let batches = batches_of(datagram, per_batch);
    if k == 0 {
        assert(batches.take(0).flatten() =~= Seq::<Seq<u8>>::empty());
        assert(chunks.take(0) =~= Seq::<Seq<u8>>::empty());
    } else {
        lemma_batches_join_prefix(datagram, per_batch, k - 1);
        lemma_batch_span(chunks.len(), per_batch, k - 1);
        assert(batches.take(k) =~= batches.take(k - 1).push(batches[k - 1]));
        batches.take(k - 1).lemma_flatten_push(batches[k - 1]);
        let before = if k == 1 {
            0
        } else {
            batch_end(chunks.len(), per_batch, k - 2)
        };
        assert(before == per_batch * (k - 1)) by {
            if k == 1 {
                assert(per_batch * 0 == 0) by (nonlinear_arith);
            }
        }
        assert(chunks.take(before) + batch_at(chunks, per_batch, k - 1) =~= chunks.take(
            batch_end(chunks.len(), per_batch, k - 1),
        ));
    }
}

/// The batches of a datagram hold its chunks in order, each exactly once.
/// Every batch before the last holds `per_batch` chunks; the last holds at
/// least one and at most `per_batch`.
pub proof fn lemma_batches_cover(datagram: Seq<u8>, per_batch: nat)
    requires
        per_batch > 0,
    ensures
        batches_of(datagram, per_batch).len() == batch_count(
            chunk_count(datagram.len()),
            per_batch,
        ),
        forall|b: int|
            0 <= b < batches_of(datagram, per_batch).len() ==> 0 < (#[trigger] batches_of(
                datagram,
                per_batch,
            )[b]).len() <= per_batch,
        forall|b: int|
            0 <= b < batches_of(datagram, per_batch).len() - 1 ==> (#[trigger] batches_of(
                datagram,
                per_batch,
            )[b]).len() == per_batch,
        batches_of(datagram, per_batch).flatten() == chunks_of(datagram),
        batches_of(datagram, per_batch).flatten().flatten() == datagram,
{
    let chunks = chunks_of(datagram);
    let batches = batches_of(datagram, per_batch);
    assert forall|b: int| 0 <= b < batches.len() implies 0 < (#[trigger] batches[b]).len()
        <= per_batch && (b < batches.len() - 1 ==> batches[b].len() == per_batch) by {
        lemma_batch_span(chunks.len(), per_batch, b);
    }
    lemma_batches_join_prefix(datagram, per_batch, batches.len() as int);
    assert(batches.take(batches.len() as int) =~= batches);
    if batches.len() > 0 {
        lemma_batch_span(chunks.len(), per_batch, batches.len() - 1);
    } else {
        lemma_batch_bounds(chunks.len(), per_batch);
    }
    assert(chunks.take(chunks.len() as int) =~= chunks);
    lemma_chunks_cover(datagram);
}

} // verus!
