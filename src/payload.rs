use vstd::prelude::*;

use crate::digest::{digest_accepts, digest_matches, lower_hex, sha256, sha256_of, to_lower_hex};
use crate::order::{
    bytes_before, bytes_lt, lemma_bytes_lt_asymmetric, lemma_bytes_lt_irreflexive,
    lemma_bytes_lt_total, lemma_bytes_lt_transitive,
};

verus! {

/// One slice of the compressed payload, as read from a file whose path is
/// `name`.
pub struct Chunk {
    pub name: Vec<u8>,
    pub data: Vec<u8>,
}

pub struct ChunkView {
    pub name: Seq<u8>,
    pub data: Seq<u8>,
}

impl View for Chunk {
    type V = ChunkView;

    open spec fn view(&self) -> ChunkView {
        ChunkView { name: self.name@, data: self.data@ }
    }
}

pub open spec fn chunk_views(cs: Seq<Chunk>) -> Seq<ChunkView> {
    cs.map_values(|c: Chunk| c@)
}

/// No two chunks carry the same path.
pub open spec fn names_distinct(cs: Seq<ChunkView>) -> bool {
    forall|i: int, j: int| 0 <= i < j < cs.len() ==> cs[i].name != cs[j].name
}

/// Paths strictly ascend along `s`.
pub open spec fn name_ascending(s: Seq<ChunkView>) -> bool {
    forall|i: int, j: int| 0 <= i < j < s.len() ==> bytes_lt(s[i].name, s[j].name)
}

pub open spec fn same_members(s: Seq<ChunkView>, t: Seq<ChunkView>) -> bool {
    forall|x: ChunkView| s.contains(x) <==> t.contains(x)
}

/// The chunks of `cs` arranged by ascending path.
pub open spec fn in_name_order(cs: Seq<ChunkView>) -> Seq<ChunkView> {
    choose|s: Seq<ChunkView>| name_ascending(s) && same_members(s, cs)
}

/// The payload that the chunks make up: their bytes concatenated in
/// ascending order of path.
pub open spec fn payload_of(cs: Seq<ChunkView>) -> Seq<u8> {
    in_name_order(cs).map_values(|c: ChunkView| c.data).flatten()
}

/// Two arrangements of the same chunks by strictly ascending path are the
/// same arrangement.
pub proof fn lemma_name_order_unique(s: Seq<ChunkView>, t: Seq<ChunkView>)
    requires
        name_ascending(s),
        name_ascending(t),
        same_members(s, t),
    ensures
        s == t,
    decreases s.len(),
{
    if s.len() == 0 {
        if t.len() > 0 {
            assert(t.contains(t[0]));
        }
        assert(s =~= t);
    } else {
        assert(s.contains(s[0]));
        let q = choose|q: int| 0 <= q < t.len() && t[q] == s[0];
        assert(t.contains(t[0]));
        let p = choose|p: int| 0 <= p < s.len() && s[p] == t[0];
        if q > 0 {
            if p > 0 {
                lemma_bytes_lt_asymmetric(s[0].name, s[p].name);
            } else {
                lemma_bytes_lt_irreflexive(s[0].name);
            }
        }
        let s1 = s.drop_first();
        let t1 = t.drop_first();
        assert forall|x: ChunkView| s1.contains(x) <==> t1.contains(x) by {
            if s1.contains(x) {
                let k = choose|k: int| 0 <= k < s1.len() && s1[k] == x;
                assert(s[k + 1] == x);
                lemma_bytes_lt_irreflexive(x.name);
                assert(s.contains(x));
                let m = choose|m: int| 0 <= m < t.len() && t[m] == x;
                assert(m != 0);
                assert(t1[m - 1] == x);
            }
            if t1.contains(x) {
                let k = choose|k: int| 0 <= k < t1.len() && t1[k] == x;
                assert(t[k + 1] == x);
                lemma_bytes_lt_irreflexive(x.name);
                assert(t.contains(x));
                let m = choose|m: int| 0 <= m < s.len() && s[m] == x;
                assert(m != 0);
                assert(s1[m - 1] == x);
            }
        }
        lemma_name_order_unique(s1, t1);
        assert(s =~= seq![s[0]] + s1);
        assert(t =~= seq![t[0]] + t1);
    }
}

pub open spec fn pick(cs: Seq<ChunkView>, order: Seq<usize>) -> Seq<ChunkView> {
    order.map_values(|i: usize| cs[i as int])
}

/// The positions of `chunks` arranged by ascending path.
pub fn name_order(chunks: &Vec<Chunk>) -> (order: Vec<usize>)
    requires
        names_distinct(chunk_views(chunks@)),
    ensures
        order@.len() == chunks@.len(),
        forall|k: int| 0 <= k < order@.len() ==> order@[k] < chunks@.len(),
        forall|m: usize| m < chunks@.len() ==> order@.contains(m),
        name_ascending(pick(chunk_views(chunks@), order@)),
{
    let ghost cs = chunk_views(chunks@);
    let mut order: Vec<usize> = Vec::new();
    let mut i: usize = 0;
    while i < chunks.len()
        invariant
            cs == chunk_views(chunks@),
            names_distinct(cs),
            i <= chunks@.len(),
            order@.len() == i,
            forall|k: int| 0 <= k < order@.len() ==> order@[k] < i,
            forall|m: usize| m < i ==> order@.contains(m),
            name_ascending(pick(cs, order@)),
        decreases chunks@.len() - i,
    {
        let mut pos: usize = 0;
        while pos < order.len() && !bytes_before(
            chunks[i].name.as_slice(),
            chunks[order[pos]].name.as_slice(),
        )
            invariant
                cs == chunk_views(chunks@),
                names_distinct(cs),
                i < chunks@.len(),
                pos <= order@.len(),
                order@.len() == i,
                forall|k: int| 0 <= k < order@.len() ==> order@[k] < i,
                forall|k: int|
                    0 <= k < pos ==> bytes_lt(#[trigger] cs[order@[k] as int].name, cs[i as int].name),
            decreases order@.len() - pos,
        {
            proof {
                let o = order@[pos as int] as int;
                assert(cs[o].name != cs[i as int].name);
                lemma_bytes_lt_total(cs[o].name, cs[i as int].name);
            }
            pos = pos + 1;
        }
        let ghost old_order = order@;
        proof {
            assert forall|k: int| pos <= k < old_order.len() implies bytes_lt(
                cs[i as int].name,
                #[trigger] cs[old_order[k] as int].name,
            ) by {
                if k > pos {
                    assert(pick(cs, old_order)[pos as int] == cs[old_order[pos as int] as int]);
                    assert(pick(cs, old_order)[k] == cs[old_order[k] as int]);
                    lemma_bytes_lt_transitive(
                        cs[i as int].name,
                        cs[old_order[pos as int] as int].name,
                        cs[old_order[k] as int].name,
                    );
                }
            }
        }
        order.insert(pos, i);
        proof {
            let p = pick(cs, order@);
            let op = pick(cs, old_order);
            assert forall|a: int, b: int| 0 <= a < b < p.len() implies bytes_lt(
                p[a].name,
                p[b].name,
            ) by {
                if b < pos {
                    assert(p[a] == op[a] && p[b] == op[b]);
                } else if b == pos {
                    assert(p[b] == cs[i as int]);
                    assert(p[a] == cs[old_order[a] as int]);
                } else if a < pos {
                    assert(p[a] == cs[old_order[a] as int]);
                    assert(p[b] == cs[old_order[b - 1] as int]);
                    lemma_bytes_lt_transitive(
                        cs[old_order[a] as int].name,
                        cs[i as int].name,
                        cs[old_order[b - 1] as int].name,
                    );
                } else if a == pos {
                    assert(p[a] == cs[i as int]);
                    assert(p[b] == cs[old_order[b - 1] as int]);
                } else {
                    assert(p[a] == op[a - 1] && p[b] == op[b - 1]);
                }
            }
            assert forall|m: usize| m < i + 1 implies order@.contains(m) by {
                if m == i {
                    assert(order@[pos as int] == i);
                } else {
                    assert(old_order.contains(m));
                    let k = choose|k: int| 0 <= k < old_order.len() && old_order[k] == m;
                    if k < pos {
                        assert(order@[k] == m);
                    } else {
                        assert(order@[k + 1] == m);
                    }
                }
            }
        }
        i = i + 1;
    }
    order
}

} // verus!

verus! {

pub open spec fn datas(s: Seq<ChunkView>) -> Seq<Seq<u8>> {
    s.map_values(|c: ChunkView| c.data)
}

/// Concatenates the chunks' bytes in ascending order of path.
pub fn assemble_payload(chunks: &Vec<Chunk>) -> (r: Vec<u8>)
    requires
        names_distinct(chunk_views(chunks@)),
    ensures
        r@ == payload_of(chunk_views(chunks@)),
{
    let ghost cs = chunk_views(chunks@);
    let order = name_order(chunks);
    let n = chunks.len();
    let ghost s = pick(cs, order@);
    proof {
        assert forall|x: ChunkView| s.contains(x) <==> cs.contains(x) by {
            if s.contains(x) {
                let k = choose|k: int| 0 <= k < s.len() && s[k] == x;
                assert(cs[order@[k] as int] == x);
            }
            if cs.contains(x) {
                let m = choose|m: int| 0 <= m < cs.len() && cs[m] == x;
                assert(0 <= m < n);
                assert(order@.contains(m as usize));
                let k = choose|k: int| 0 <= k < order@.len() && order@[k] == m as usize;
                assert(s[k] == cs[order@[k] as int]);
            }
        }
        lemma_name_order_unique(s, in_name_order(cs));
    }
    let mut out: Vec<u8> = Vec::new();
    let mut k: usize = 0;
    while k < order.len()
        invariant
            cs == chunk_views(chunks@),
            s == pick(cs, order@),
            order@.len() == chunks@.len(),
            forall|j: int| 0 <= j < order@.len() ==> order@[j] < chunks@.len(),
            k <= order@.len(),
            out@ == datas(s.take(k as int)).flatten(),
        decreases order@.len() - k,
    {
        let idx = order[k];
        proof {
            assert(datas(s.take(k + 1)) =~= datas(s.take(k as int)) + seq![
                chunks@[idx as int].data@,
            ]);
            vstd::seq_lib::lemma_flatten_concat(
                datas(s.take(k as int)),
                seq![chunks@[idx as int].data@],
            );
            seq![chunks@[idx as int].data@].lemma_flatten_one_element();
        }
        out.extend_from_slice(chunks[idx].data.as_slice());
        k = k + 1;
    }
    assert(s.take(order@.len() as int) =~= s);
    out
}

} // verus!

verus! {

/// What decompressing `data` as a gzip stream yields: the decompressed
/// bytes, or `None` where `data` is not a valid gzip stream.
pub uninterp spec fn gunzip_of(data: Seq<u8>) -> Option<Seq<u8>>;

/// Relies on flate2's `read::GzDecoder` read to its end over an in-memory
/// slice: the decompressed bytes, or an error where the stream is not valid
/// gzip.
#[verifier::external_body]
pub(crate) fn gunzip(data: &[u8]) -> (r: Option<Vec<u8>>)
    ensures
        match r {
            Some(v) => gunzip_of(data@) == Some(v@),
            None => gunzip_of(data@) is None,
        },
{
    let mut out: Vec<u8> = Vec::new();
    match std::io::Read::read_to_end(&mut flate2::read::GzDecoder::new(data), &mut out) {
        Ok(_) => Some(out),
        Err(_) => None,
    }
}

/// Why the chunks could not be turned into an archive.
pub enum ReassemblyError {
    /// There was not a single chunk.
    NoChunksFound,
    /// The payload's digest, `actual`, is not the one announced, `expected`.
    DigestMismatch { expected: String, actual: String },
    /// The payload is not a gzip stream.
    ExtractionError,
}

pub enum ReassemblyErrorView {
    NoChunksFound,
    DigestMismatch { expected: Seq<char>, actual: Seq<char> },
    ExtractionError,
}

impl View for ReassemblyError {
    type V = ReassemblyErrorView;

    open spec fn view(&self) -> ReassemblyErrorView {
        match self {
            ReassemblyError::NoChunksFound => ReassemblyErrorView::NoChunksFound,
            ReassemblyError::DigestMismatch { expected, actual } => ReassemblyErrorView::DigestMismatch {
                expected: expected@,
                actual: actual@,
            },
            ReassemblyError::ExtractionError => ReassemblyErrorView::ExtractionError,
        }
    }
}

/// The outcome of reassembling `cs` against the announced digest
/// `expected`: the uncompressed tar archive, or why there is none.
pub open spec fn reassembly(cs: Seq<ChunkView>, expected: Seq<char>) -> Result<
    Seq<u8>,
    ReassemblyErrorView,
> {
    let payload = payload_of(cs);
    if cs.len() == 0 {
        Err(ReassemblyErrorView::NoChunksFound)
    } else if !digest_matches(expected, sha256_of(payload)) {
        Err(
            ReassemblyErrorView::DigestMismatch {
                expected,
                actual: lower_hex(sha256_of(payload)),
            },
        )
    } else {
        match gunzip_of(payload) {
            Some(archive) => Ok(archive),
            None => Err(ReassemblyErrorView::ExtractionError),
        }
    }
}

/// Concatenates the chunks in ascending order of path, checks the result
/// against the announced digest and decompresses it: the tar archive that
/// the chunks carry. Nothing is decompressed unless the digest matches.
pub fn reassemble(chunks: &Vec<Chunk>, expected: &str) -> (r: Result<Vec<u8>, ReassemblyError>)
    requires
        names_distinct(chunk_views(chunks@)),
    ensures
        match r {
            Ok(archive) => reassembly(chunk_views(chunks@), expected@) == Ok::<
                Seq<u8>,
                ReassemblyErrorView,
            >(archive@),
            Err(e) => reassembly(chunk_views(chunks@), expected@) == Err::<
                Seq<u8>,
                ReassemblyErrorView,
            >(e@),
        },
{
    if chunks.len() == 0 {
        return Err(ReassemblyError::NoChunksFound);
    }
    let payload = assemble_payload(chunks);
    let digest = sha256(payload.as_slice());
    if !digest_accepts(expected, digest.as_slice()) {
        return Err(
            ReassemblyError::DigestMismatch {
                expected: expected.to_owned(),
                actual: to_lower_hex(digest.as_slice()),
            },
        );
    }
    match gunzip(payload.as_slice()) {
        Some(archive) => Ok(archive),
        None => Err(ReassemblyError::ExtractionError),
    }
}

/// Chunks named in ascending order, handed over in any order, reassemble
/// under the digest of their concatenation to exactly what that
/// concatenation decompresses to.
pub proof fn lemma_round_trip(parts: Seq<ChunkView>, given: Seq<ChunkView>, archive: Seq<u8>)
    requires
        parts.len() > 0,
        name_ascending(parts),
        same_members(given, parts),
        names_distinct(given),
        gunzip_of(datas(parts).flatten()) == Some(archive),
    ensures
        reassembly(given, lower_hex(sha256_of(datas(parts).flatten()))) == Ok::<
            Seq<u8>,
            ReassemblyErrorView,
        >(archive),
{
    assert(name_ascending(in_name_order(given)) && same_members(in_name_order(given), given));
    lemma_name_order_unique(in_name_order(given), parts);
    assert(given.contains(parts[0]));
}

/// A payload whose digest is not the announced one is never decompressed:
/// reassembly stops at the mismatch.
pub proof fn lemma_digest_gate(cs: Seq<ChunkView>, expected: Seq<char>)
    requires
        cs.len() > 0,
        !digest_matches(expected, sha256_of(payload_of(cs))),
    ensures
        reassembly(cs, expected) matches Err(ReassemblyErrorView::DigestMismatch { .. }),
{
}

} // verus!
