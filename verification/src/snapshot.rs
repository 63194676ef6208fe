//! The index snapshot and its durable byte encoding.
//!
//! Before a search index is destructively rebuilt, the tenant's canonical
//! documents are extracted into a snapshot and persisted as a recovery
//! artifact. The encoding is self-contained and replayable: decoding the
//! persisted bytes reproduces the snapshot exactly, with no access to the
//! original database state.
//!
//! Layout: a document count (8 bytes, little endian), then for each
//! document its identifier (16 bytes), its content length (8 bytes) and its
//! content.

use vstd::prelude::*;

use vstd::bytes::{
    lemma_auto_spec_u128_to_from_le_bytes, lemma_auto_spec_u64_to_from_le_bytes,
    spec_u128_from_le_bytes, spec_u128_to_le_bytes, spec_u64_from_le_bytes, spec_u64_to_le_bytes,
    u128_from_le_bytes, u128_to_le_bytes, u64_from_le_bytes, u64_to_le_bytes,
};
use vstd::slice::{slice_subrange, slice_to_vec};

use crate::ErrorKind;

verus! {

/// One document of a snapshot: an identifier and its serialized content,
/// both opaque to the coordinator.
#[derive(Debug)]
pub struct SnapshotDocument {
    pub document_id: u128,
    pub content: Vec<u8>,
}

/// The abstract value of a snapshot document.
pub struct DocumentView {
    pub document_id: u128,
    pub content: Seq<u8>,
}

impl View for SnapshotDocument {
    type V = DocumentView;

    open spec fn view(&self) -> DocumentView {
        DocumentView { document_id: self.document_id, content: self.content@ }
    }
}

impl Clone for SnapshotDocument {
    fn clone(&self) -> (res: Self)
        ensures
            res@ == self@,
    {
        SnapshotDocument { document_id: self.document_id, content: clone_bytes(&self.content) }
    }
}

/// The ordered documents extracted from a tenant's canonical state.
#[derive(Debug)]
pub struct IndexSnapshot {
    pub documents: Vec<SnapshotDocument>,
}

impl View for IndexSnapshot {
    type V = Seq<DocumentView>;

    open spec fn view(&self) -> Seq<DocumentView> {
        self.documents@.map_values(|d: SnapshotDocument| d@)
    }
}

impl Clone for IndexSnapshot {
    fn clone(&self) -> (res: Self)
        ensures
            res@ == self@,
    {
        let n = self.documents.len();
        let mut documents: Vec<SnapshotDocument> = Vec::new();
        let mut i: usize = 0;
        while i < n
            invariant
                i <= n,
                n == self.documents@.len(),
                documents@.len() == i,
                forall|j: int| 0 <= j < i ==> (#[trigger] documents@[j])@ == self.documents@[j]@,
            decreases n - i,
        {
            documents.push(self.documents[i].clone());
            i = i + 1;
        }
        let res = IndexSnapshot { documents };
        proof {
            assert(res@ =~= self@);
        }
        res
    }
}

/// Copies a byte buffer.
fn clone_bytes(v: &Vec<u8>) -> (r: Vec<u8>)
    ensures
        r@ == v@,
{
    let n = v.len();
    let mut out: Vec<u8> = Vec::new();
    let mut i: usize = 0;
    while i < n
        invariant
            i <= n,
            n == v@.len(),
            out@ == v@.take(i as int),
        decreases n - i,
    {
        out.push(v[i]);
        proof {
            assert(v@.take(i as int + 1) =~= v@.take(i as int).push(v@[i as int]));
        }
        i = i + 1;
    }
    proof {
        assert(v@.take(n as int) =~= v@);
    }
    out
}

/// The byte encoding of one document.
pub open spec fn encode_doc(d: DocumentView) -> Seq<u8> {
    spec_u128_to_le_bytes(d.document_id) + spec_u64_to_le_bytes(d.content.len() as u64) + d.content
}

/// The byte encoding of a document list.
pub open spec fn encode_docs(docs: Seq<DocumentView>) -> Seq<u8>
    decreases docs.len(),
{
    if docs.len() == 0 {
        Seq::empty()
    } else {
        encode_doc(docs.first()) + encode_docs(docs.drop_first())
    }
}

/// The byte encoding of a whole snapshot: the count, then the documents.
pub open spec fn encode_snapshot_spec(docs: Seq<DocumentView>) -> Seq<u8> {
    spec_u64_to_le_bytes(docs.len() as u64) + encode_docs(docs)
}

/// Lengths small enough for the fixed-width count and length fields. Every
/// snapshot held in memory satisfies this.
pub open spec fn docs_wf(docs: Seq<DocumentView>) -> bool {
    &&& docs.len() <= u64::MAX
    &&& forall|i: int| 0 <= i < docs.len() ==> (#[trigger] docs[i]).content.len() <= u64::MAX
}

/// Appending a document extends the encoding on the right.
proof fn lemma_encode_docs_push(docs: Seq<DocumentView>, d: DocumentView)
    ensures
        encode_docs(docs.push(d)) == encode_docs(docs) + encode_doc(d),
    decreases docs.len(),
{
    let p = docs.push(d);
    if docs.len() == 0 {
        assert(p.drop_first() =~= Seq::<DocumentView>::empty());
        assert(p.first() == d);
        assert(encode_docs(Seq::<DocumentView>::empty()) =~= Seq::<u8>::empty());
        assert(encode_docs(p) =~= encode_doc(d));
        assert(encode_docs(docs) + encode_doc(d) =~= encode_doc(d));
    } else {
        assert(p.first() == docs.first());
        assert(p.drop_first() =~= docs.drop_first().push(d));
        lemma_encode_docs_push(docs.drop_first(), d);
        assert(encode_doc(p.first()) + (encode_docs(docs.drop_first()) + encode_doc(d))
            =~= (encode_doc(docs.first()) + encode_docs(docs.drop_first())) + encode_doc(d));
    }
}

/// Encodes a snapshot into its durable byte form. The result is never
/// empty: even an empty snapshot encodes to its count header.
pub fn encode_snapshot(snapshot: &IndexSnapshot) -> (out: Vec<u8>)
    ensures
        out@ == encode_snapshot_spec(snapshot@),
        out@.len() > 0,
{
    let n = snapshot.documents.len();
    let mut out: Vec<u8> = u64_to_le_bytes(n as u64);
    let ghost header = out@;
    let mut i: usize = 0;
    proof {
        assert(snapshot@.len() == n);
        assert(snapshot@.take(0) =~= Seq::<DocumentView>::empty());
        assert(out@ =~= header + encode_docs(snapshot@.take(0)));
    }
    while i < n
        invariant
            i <= n,
            n == snapshot.documents@.len(),
            header == spec_u64_to_le_bytes(n as u64),
            out@ == header + encode_docs(snapshot@.take(i as int)),
        decreases n - i,
    {
        let doc = &snapshot.documents[i];
        let ghost before = out@;
        let mut id_bytes = u128_to_le_bytes(doc.document_id);
        out.append(&mut id_bytes);
        let mut len_bytes = u64_to_le_bytes(doc.content.len() as u64);
        out.append(&mut len_bytes);
        let mut content = clone_bytes(&doc.content);
        out.append(&mut content);
        proof {
            assert(snapshot@[i as int] == snapshot.documents@[i as int]@);
            assert(out@ =~= before + encode_doc(snapshot@[i as int]));
            assert(snapshot@.take(i as int + 1) =~= snapshot@.take(i as int).push(
                snapshot@[i as int],
            ));
            lemma_encode_docs_push(snapshot@.take(i as int), snapshot@[i as int]);
            assert(out@ =~= header + encode_docs(snapshot@.take(i as int + 1)));
        }
        i = i + 1;
    }
    proof {
        assert(snapshot@.take(n as int) =~= snapshot@);
        lemma_auto_spec_u64_to_from_le_bytes();
        assert(out@.len() >= 8);
    }
    out
}

/// The parse of `count` documents from `bytes`; the whole input must be
/// consumed.
pub open spec fn decode_docs(bytes: Seq<u8>, count: nat) -> Option<Seq<DocumentView>>
    decreases count,
{
    if count == 0 {
        if bytes.len() == 0 {
            Some(Seq::empty())
        } else {
            None
        }
    } else if bytes.len() < 24 {
        None
    } else {
        let id = spec_u128_from_le_bytes(bytes.subrange(0, 16));
        let len = spec_u64_from_le_bytes(bytes.subrange(16, 24));
        if bytes.len() < 24 + len {
            None
        } else {
            let d = DocumentView { document_id: id, content: bytes.subrange(24, 24 + len) };
            match decode_docs(bytes.skip(24 + len), (count - 1) as nat) {
                Some(rest) => Some(seq![d] + rest),
                None => None,
            }
        }
    }
}

/// The parse of a whole snapshot.
pub open spec fn decode_snapshot_spec(bytes: Seq<u8>) -> Option<Seq<DocumentView>> {
    if bytes.len() < 8 {
        None
    } else {
        decode_docs(bytes.skip(8), spec_u64_from_le_bytes(bytes.take(8)) as nat)
    }
}

/// The encoding is replayable: decoding what `encode_snapshot` wrote yields
/// exactly the snapshot that was written.
pub proof fn lemma_snapshot_round_trip(docs: Seq<DocumentView>)
    requires
        docs_wf(docs),
    ensures
        decode_snapshot_spec(encode_snapshot_spec(docs)) == Some(docs),
{
    lemma_auto_spec_u64_to_from_le_bytes();
    let bytes = encode_snapshot_spec(docs);
    let header = spec_u64_to_le_bytes(docs.len() as u64);
    assert(header.len() == 8);
    assert(bytes.take(8) =~= header);
    assert(bytes.skip(8) =~= encode_docs(docs));
    assert(spec_u64_from_le_bytes(header) == docs.len() as u64);
    lemma_decode_docs_round_trip(docs);
}

/// Decoding inverts the document-list encoding.
proof fn lemma_decode_docs_round_trip(docs: Seq<DocumentView>)
    requires
        forall|i: int| 0 <= i < docs.len() ==> (#[trigger] docs[i]).content.len() <= u64::MAX,
    ensures
        decode_docs(encode_docs(docs), docs.len()) == Some(docs),
    decreases docs.len(),
{
    lemma_auto_spec_u64_to_from_le_bytes();
    lemma_auto_spec_u128_to_from_le_bytes();
    if docs.len() == 0 {
        assert(decode_docs(encode_docs(docs), 0) =~= Some(Seq::<DocumentView>::empty()));
        assert(docs =~= Seq::<DocumentView>::empty());
    } else {
        let d = docs.first();
        let rest = docs.drop_first();
        let bytes = encode_docs(docs);
        let id_bytes = spec_u128_to_le_bytes(d.document_id);
        let len_bytes = spec_u64_to_le_bytes(d.content.len() as u64);
        assert(id_bytes.len() == 16) by {
            assert(spec_u128_from_le_bytes(spec_u128_to_le_bytes(d.document_id))
                == d.document_id);
        }
        assert(bytes =~= id_bytes + len_bytes + d.content + encode_docs(rest));
        assert(bytes.len() >= 24 + d.content.len());
        assert(bytes.subrange(0, 16) =~= id_bytes);
        assert(bytes.subrange(16, 24) =~= len_bytes);
        assert(spec_u128_from_le_bytes(bytes.subrange(0, 16)) == d.document_id);
        let len = spec_u64_from_le_bytes(bytes.subrange(16, 24));
        assert(docs[0] == d);
        assert(len == d.content.len());
        assert(bytes.subrange(24, 24 + len) =~= d.content);
        assert(bytes.skip(24 + len) =~= encode_docs(rest));
        assert forall|i: int| 0 <= i < rest.len() implies (#[trigger] rest[i]).content.len()
            <= u64::MAX by {
            assert(rest[i] == docs[i + 1]);
        }
        lemma_decode_docs_round_trip(rest);
        assert(seq![DocumentView { document_id: d.document_id, content: d.content }] + rest
            =~= docs);
    }
}

/// Decodes a persisted snapshot, reporting `ValidationError` exactly when
/// the bytes are not a complete, well-formed encoding.
pub fn decode_snapshot(bytes: &Vec<u8>) -> (r: Result<IndexSnapshot, ErrorKind>)
    ensures
        match r {
            Ok(s) => decode_snapshot_spec(bytes@) == Some(s@),
            Err(e) => e == ErrorKind::ValidationError && decode_snapshot_spec(bytes@) is None,
        },
{
    let n = bytes.len();
    if n < 8 {
        return Err(ErrorKind::ValidationError);
    }
    let count = u64_from_le_bytes(slice_subrange(bytes.as_slice(), 0, 8));
    proof {
        assert(bytes@.subrange(0, 8) =~= bytes@.take(8));
    }
    let mut documents: Vec<SnapshotDocument> = Vec::new();
    let mut pos: usize = 8;
    let mut k: u64 = 0;
    proof {
        assert(documents@.map_values(|d: SnapshotDocument| d@) =~= Seq::<DocumentView>::empty());
        assert(Seq::<DocumentView>::empty() + decode_docs(bytes@.skip(8), count as nat)->Some_0
            =~= decode_docs(bytes@.skip(8), count as nat)->Some_0);
    }
    while k < count
        invariant
            8 <= pos <= n,
            n == bytes@.len(),
            k <= count,
            ({
                let parsed = documents@.map_values(|d: SnapshotDocument| d@);
                match decode_docs(bytes@.skip(pos as int), (count - k) as nat) {
                    Some(rest) => decode_snapshot_spec(bytes@) == Some(parsed + rest),
                    None => decode_snapshot_spec(bytes@) is None,
                }
            }),
        decreases count - k,
    {
        let ghost parsed_before = documents@.map_values(|d: SnapshotDocument| d@);
        let ghost remaining = bytes@.skip(pos as int);
        let remaining_len = n - pos;
        if remaining_len < 24 {
            proof {
                assert(decode_docs(remaining, (count - k) as nat) is None);
            }
            return Err(ErrorKind::ValidationError);
        }
        let id = u128_from_le_bytes(slice_subrange(bytes.as_slice(), pos, pos + 16));
        let len = u64_from_le_bytes(slice_subrange(bytes.as_slice(), pos + 16, pos + 24));
        proof {
            assert(remaining.subrange(0, 16) =~= bytes@.subrange(pos as int, pos as int + 16));
            assert(remaining.subrange(16, 24) =~= bytes@.subrange(pos as int + 16, pos as int + 24));
        }
        let body_budget = remaining_len - 24;
        if len > body_budget as u64 {
            proof {
                assert(remaining.len() < 24 + len);
                assert(decode_docs(remaining, (count - k) as nat) is None);
            }
            return Err(ErrorKind::ValidationError);
        }
        let len_usize = len as usize;
        let content = slice_to_vec(slice_subrange(bytes.as_slice(), pos + 24, pos + 24 + len_usize));
        proof {
            assert(remaining.subrange(24, 24 + len as int) =~= bytes@.subrange(
                pos as int + 24,
                pos as int + 24 + len as int,
            ));
        }
        let doc = SnapshotDocument { document_id: id, content };
        documents.push(doc);
        let ghost dview = DocumentView {
            document_id: spec_u128_from_le_bytes(remaining.subrange(0, 16)),
            content: remaining.subrange(24, 24 + len as int),
        };
        let old_pos = pos;
        pos = pos + 24 + len_usize;
        k = k + 1;
        proof {
            assert(documents@.map_values(|d: SnapshotDocument| d@) =~= parsed_before.push(dview));
            assert(bytes@.skip(pos as int) =~= remaining.skip(24 + len as int));
            match decode_docs(bytes@.skip(pos as int), (count - k) as nat) {
                Some(rest) => {
                    assert(decode_docs(remaining, (count - (k - 1)) as nat) == Some(
                        seq![dview] + rest,
                    ));
                    assert(parsed_before + (seq![dview] + rest) =~= parsed_before.push(dview)
                        + rest);
                },
                None => {
                    assert(decode_docs(remaining, (count - (k - 1)) as nat) is None);
                },
            }
        }
    }
    if pos < n {
        proof {
            assert(bytes@.skip(pos as int).len() > 0);
            assert(decode_docs(bytes@.skip(pos as int), 0) is None);
        }
        return Err(ErrorKind::ValidationError);
    }
    let snapshot = IndexSnapshot { documents };
    proof {
        assert(bytes@.skip(pos as int).len() == 0);
        assert(bytes@.skip(pos as int) =~= Seq::<u8>::empty());
        assert(decode_docs(bytes@.skip(pos as int), 0) == Some(Seq::<DocumentView>::empty()));
        assert(snapshot@ + Seq::<DocumentView>::empty() =~= snapshot@);
    }
    Ok(snapshot)
}


/// Any snapshot held in memory fits the fixed-width count and length
/// fields of the encoding: its document count and every content length are
/// bounded by the vector lengths that hold them.
pub proof fn lemma_snapshot_fits(s: IndexSnapshot)
    ensures
        docs_wf(s@),
{
    assert(vstd::std_specs::vec::spec_vec_len(&s.documents) == s.documents@.len());
    assert forall|i: int| 0 <= i < s@.len() implies (#[trigger] s@[i]).content.len()
        <= u64::MAX by {
        assert(s@[i] == s.documents@[i]@);
        assert(vstd::std_specs::vec::spec_vec_len(&s.documents@[i].content)
            == s.documents@[i].content@.len());
    }
}

} // verus!
