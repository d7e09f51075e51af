//! GELF's UDP chunking: a payload too large for one datagram is split into
//! at most 128 chunks that share a random message id.
use vstd::prelude::*;

verus! {

/// Bytes in front of each chunk's body: magic, id, sequence number, count.
pub const CHUNK_HEADER_LEN: usize = 12;

/// The most chunks one message may be split into.
pub const MAX_CHUNKS: usize = 128;

/// First magic byte of a chunk.
pub const CHUNK_MAGIC_0: u8 = 0x1e;

/// Second magic byte of a chunk.
pub const CHUNK_MAGIC_1: u8 = 0x0f;

/// The largest datagram to send: one class for local networks, one for
/// paths across wide networks.
#[derive(Debug, Clone, Copy, PartialEq, Eq, Structural)]
pub enum ChunkSize {
    Lan,
    Wan,
}

/// Largest datagram of a size class, header included.
pub open spec fn datagram_size(c: ChunkSize) -> nat {
    match c {
        ChunkSize::Lan => 8154,
        ChunkSize::Wan => 1420,
    }
}

/// Largest chunk body of a size class.
pub open spec fn body_size(c: ChunkSize) -> nat {
    (datagram_size(c) - CHUNK_HEADER_LEN) as nat
}

/// How many chunks a payload of `len` bytes takes at body size `body`.
pub open spec fn chunk_count(len: nat, body: nat) -> nat
    recommends
        body > 0,
{
    if len <= body {
        1
    } else {
        ((len + body - 1) as nat / body) as nat
    }
}

/// The slice of the payload that chunk `i` carries.
pub open spec fn chunk_body(payload: Seq<u8>, body: nat, i: nat) -> Seq<u8> {
    let lo = i * body;
    let hi = if (i + 1) * body <= payload.len() {
        (i + 1) * body
    } else {
        payload.len()
    };
    payload.subrange(lo as int, hi as int)
}

/// Datagram `i` of `count`: a lone chunk is the payload itself; otherwise
/// the magic bytes, the id, the sequence number and the count precede the
/// body.
pub open spec fn chunk_datagram(id: Seq<u8>, payload: Seq<u8>, body: nat, i: nat, count: nat) -> Seq<u8> {
    if count == 1 {
        payload
    } else {
        seq![CHUNK_MAGIC_0, CHUNK_MAGIC_1] + id + seq![i as u8, count as u8] + chunk_body(
            payload,
            body,
            i,
        )
    }
}

/// All datagrams of a payload.
pub open spec fn chunk_datagrams(id: Seq<u8>, payload: Seq<u8>, c: ChunkSize) -> Seq<Seq<u8>> {
    let count = chunk_count(payload.len(), body_size(c));
    Seq::new(count, |i: int| chunk_datagram(id, payload, body_size(c), i as nat, count))
}

/// The bodies of datagrams that carry a header, joined in order.
pub open spec fn join_bodies(ds: Seq<Seq<u8>>) -> Seq<u8>
    decreases ds.len(),
{
    if ds.len() == 0 {
        seq![]
    } else {
        join_bodies(ds.drop_last()) + ds.last().subrange(
            CHUNK_HEADER_LEN as int,
            ds.last().len() as int,
        )
    }
}

/// What a receiver rebuilds from a message's datagrams, in sequence order.
pub open spec fn reassemble(ds: Seq<Seq<u8>>) -> Seq<u8> {
    if ds.len() == 1 {
        ds[0]
    } else {
        join_bodies(ds)
    }
}

/// A message split into datagrams, with the id that they share.
pub struct ChunkedMessage {
    id: [u8; 8],
    chunks: Vec<Vec<u8>>,
}

/// Abstract content of a chunked message.
pub ghost struct ChunkedView {
    pub id: Seq<u8>,
    pub chunks: Seq<Seq<u8>>,
}

impl View for ChunkedMessage {
    type V = ChunkedView;

    closed spec fn view(&self) -> ChunkedView {
        ChunkedView { id: self.id@, chunks: self.chunks@.map_values(|c: Vec<u8>| c@) }
    }
}

/// Relies on rand::random for eight random bytes; nothing is stated of them.
#[verifier::external_body]
fn random_id() -> (r: [u8; 8]) {
    rand::random::<[u8; 8]>()
}

impl ChunkSize {
    /// Largest datagram of the class, header included.
    pub fn size(&self) -> (r: usize)
        ensures
            r as nat == datagram_size(*self),
    {
        match *self {
            ChunkSize::Lan => 8154,
            ChunkSize::Wan => 1420,
        }
    }
}

proof fn lemma_count_bound(len: nat, body: nat)
    requires
        body > 0,
        len > body,
    ensures
        chunk_count(len, body) <= MAX_CHUNKS <==> len <= body * MAX_CHUNKS,
        chunk_count(len, body) * body >= len,
        (chunk_count(len, body) - 1) * body < len,
        chunk_count(len, body) >= 2,
{
    let c = (len + body - 1) as nat / body;
    vstd::arithmetic::div_mod::lemma_fundamental_div_mod((len + body - 1) as int, body as int);
    let r = (len + body - 1) as int % body as int;
    assert(0 <= r < body);
    assert(c * body + r == len + body - 1);
    assert(c * body >= len) by (nonlinear_arith)
        requires
            c * body + r == len + body - 1,
            r < body,
    ;
    assert((c - 1) * body < len) by (nonlinear_arith)
        requires
            c * body + r == len + body - 1,
            r >= 0,
    ;
    assert(c >= 2) by (nonlinear_arith)
        requires
            c * body >= len,
            len > body,
            body > 0,
    ;
    if c <= 128 {
        assert(len <= body * 128) by (nonlinear_arith)
            requires
                c * body + r == len + body - 1,
                r >= 0,
                r < body,
                c <= 128,
        ;
    }
    if len <= body * 128 {
        assert(c <= 128) by (nonlinear_arith)
            requires
                (c - 1) * body < len,
                len <= body * 128,
                body > 0,
        ;
    }
}

/// The first `k` bodies, joined, are the first `k * body` bytes.
proof fn lemma_join_prefix(id: Seq<u8>, payload: Seq<u8>, body: nat, count: nat, k: nat)
    requires
        body > 0,
        count >= 2,
        id.len() == 8,
        k <= count,
        (count - 1) * body < payload.len(),
    ensures
        join_bodies(Seq::new(k, |i: int| chunk_datagram(id, payload, body, i as nat, count)))
            == payload.subrange(0, if k * body <= payload.len() { k * body } else { payload.len() } as int),
    decreases k,
{
    let ds = Seq::new(k, |i: int| chunk_datagram(id, payload, body, i as nat, count));
    if k == 0 {
        assert(payload.subrange(0, 0) =~= Seq::<u8>::empty());
    } else {
        let prev = Seq::new((k - 1) as nat, |i: int| chunk_datagram(id, payload, body, i as nat, count));
        assert(ds.drop_last() =~= prev);
        lemma_join_prefix(id, payload, body, count, (k - 1) as nat);
        let d = ds.last();
        let i = (k - 1) as nat;
        assert(d == chunk_datagram(id, payload, body, i, count));
        assert((k - 1) * body <= (count - 1) * body) by (nonlinear_arith)
            requires
                k <= count,
        ;
        assert(k * body == (k - 1) * body + body) by (nonlinear_arith);
        assert(d.subrange(12, d.len() as int) =~= chunk_body(payload, body, i));
        assert(join_bodies(ds) =~= payload.subrange(
            0,
            if k * body <= payload.len() { k * body } else { payload.len() } as int,
        ));
    }
}

/// Joining the bodies of a payload's datagrams in sequence order gives
/// back the payload, whenever the payload fits in the most chunks allowed.
pub proof fn lemma_chunks_reassemble(id: Seq<u8>, payload: Seq<u8>, c: ChunkSize)
    requires
        id.len() == 8,
        chunk_count(payload.len(), body_size(c)) <= MAX_CHUNKS,
    ensures
        reassemble(chunk_datagrams(id, payload, c)) == payload,
{
    let body = body_size(c);
    let count = chunk_count(payload.len(), body);
    let ds = chunk_datagrams(id, payload, c);
    if payload.len() > body {
        lemma_count_bound(payload.len(), body);
        lemma_join_prefix(id, payload, body, count, count);
        assert(ds =~= Seq::new(count, |i: int| chunk_datagram(id, payload, body, i as nat, count)));
        assert(payload.subrange(0, payload.len() as int) =~= payload);
    }
}

impl ChunkedMessage {
    /// Splits `payload` into datagrams that carry `id`, or `None` where it
    /// would take more than the most chunks allowed.
    pub fn new_with_id(chunk_size: ChunkSize, payload: &Vec<u8>, id: [u8; 8]) -> (r: Option<ChunkedMessage>)
        ensures
            r is Some <==> chunk_count(payload@.len(), body_size(chunk_size)) <= MAX_CHUNKS,
            r matches Some(m) ==> m@.id == id@ && m@.chunks == chunk_datagrams(
                id@,
                payload@,
                chunk_size,
            ),
    {
        let body = chunk_size.size() - CHUNK_HEADER_LEN;
        let len = payload.len();
        let ghost p = payload@;
        let ghost b = body as nat;
        let mut chunks: Vec<Vec<u8>> = Vec::new();
        if len <= body {
            let mut d: Vec<u8> = Vec::new();
            let mut j: usize = 0;
            while j < len
                invariant
                    j <= len,
                    len == p.len(),
                    p == payload@,
                    d@ == p.subrange(0, j as int),
                decreases len - j,
            {
                d.push(payload[j]);
                assert(d@ =~= p.subrange(0, j + 1));
                j = j + 1;
            }
            assert(p.subrange(0, len as int) =~= p);
            chunks.push(d);
            let m = ChunkedMessage { id, chunks };
            assert(m@.chunks =~= chunk_datagrams(id@, p, chunk_size));
            return Some(m);
        }
        proof {
            lemma_count_bound(len as nat, b);
        }
        if len > body * MAX_CHUNKS {
            return None;
        }
        let count = (len + body - 1) / body;
        assert(count == chunk_count(len as nat, b));
        let ghost expect = chunk_datagrams(id@, p, chunk_size);
        let mut i: usize = 0;
        while i < count
            invariant
                2 <= count <= MAX_CHUNKS,
                len <= body * MAX_CHUNKS,
                body < 8154,
                count == chunk_count(len as nat, b),
                (count - 1) * b < len,
                count * b >= len,
                b == body_size(chunk_size),
                body as nat == b,
                body > 0,
                len == p.len(),
                p == payload@,
                expect == chunk_datagrams(id@, p, chunk_size),
                i <= count,
                chunks@.len() == i,
                forall|k: int| 0 <= k < i ==> (#[trigger] chunks@[k])@ == expect[k],
            decreases count - i,
        {
            let mut d: Vec<u8> = Vec::new();
            d.push(CHUNK_MAGIC_0);
            d.push(CHUNK_MAGIC_1);
            let mut k: usize = 0;
            while k < 8
                invariant
                    k <= 8,
                    d@ == seq![CHUNK_MAGIC_0, CHUNK_MAGIC_1] + id@.subrange(0, k as int),
                decreases 8 - k,
            {
                d.push(id[k]);
                assert(d@ =~= seq![CHUNK_MAGIC_0, CHUNK_MAGIC_1] + id@.subrange(0, k + 1));
                k = k + 1;
            }
            assert(id@.subrange(0, 8) =~= id@);
            d.push(i as u8);
            d.push(count as u8);
            let ghost head = d@;
            assert(i * b <= (count - 1) * b) by (nonlinear_arith)
                requires
                    i < count,
            ;
            assert((i + 1) * b == i * b + b) by (nonlinear_arith);
            let lo = i * body;
            let hi = if lo + body <= len { lo + body } else { len };
            let mut j: usize = lo;
            while j < hi
                invariant
                    lo <= j <= hi <= len,
                    len == p.len(),
                    p == payload@,
                    d@ == head + p.subrange(lo as int, j as int),
                decreases hi - j,
            {
                d.push(payload[j]);
                assert(d@ =~= head + p.subrange(lo as int, j + 1));
                j = j + 1;
            }
            assert(d@ =~= expect[i as int]);
            chunks.push(d);
            i = i + 1;
        }
        let m = ChunkedMessage { id, chunks };
        assert(m@.chunks =~= expect);
        Some(m)
    }

    /// Splits `payload` into datagrams under a fresh random id, or `None`
    /// where it would take more than the most chunks allowed.
    pub fn new(chunk_size: ChunkSize, payload: Vec<u8>) -> (r: Option<ChunkedMessage>)
        ensures
            r is Some <==> chunk_count(payload@.len(), body_size(chunk_size)) <= MAX_CHUNKS,
            r matches Some(m) ==> m@.id.len() == 8 && m@.chunks == chunk_datagrams(
                m@.id,
                payload@,
                chunk_size,
            ),
    {
        let id = random_id();
        ChunkedMessage::new_with_id(chunk_size, &payload, id)
    }

    /// The shared message id.
    pub fn id(&self) -> (r: [u8; 8])
        ensures
            r@ == self@.id,
    {
        self.id
    }

    /// How many datagrams the message takes.
    pub fn len(&self) -> (r: usize)
        ensures
            r as nat == self@.chunks.len(),
    {
        self.chunks.len()
    }

    /// The datagrams, in sequence order, taken out of the message.
    pub fn into_chunks(self) -> (r: Vec<Vec<u8>>)
        ensures
            r@.map_values(|c: Vec<u8>| c@) == self@.chunks,
    {
        self.chunks
    }

    /// The datagrams, in sequence order.
    pub fn chunks(&self) -> (r: &Vec<Vec<u8>>)
        ensures
            r@.map_values(|c: Vec<u8>| c@) == self@.chunks,
    {
        &self.chunks
    }
}

} // verus!
