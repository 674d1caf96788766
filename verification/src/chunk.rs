use vstd::prelude::*;

verus! {

/// `bytes::Bytes`: one chunk of streamed data, immutable once made.
#[verifier::external_type_specification]
#[verifier::external_body]
pub struct ExBytes(bytes::Bytes);

/// The bytes that a chunk holds, in order.
pub uninterp spec fn chunk_bytes(chunk: bytes::Bytes) -> Seq<u8>;

/// Borrows the content of a chunk through `AsRef<[u8]>` of `bytes::Bytes`.
/// Trusted: the slice is what the chunk holds.
#[verifier::external_body]
pub(crate) fn chunk_slice(chunk: &bytes::Bytes) -> (content: &[u8])
    ensures
        content@ == chunk_bytes(*chunk),
{
    chunk.as_ref()
}

/// The contents of a sequence of chunks, chunk by chunk.
pub open spec fn contents(chunks: Seq<bytes::Bytes>) -> Seq<Seq<u8>> {
    chunks.map_values(|chunk: bytes::Bytes| chunk_bytes(chunk))
}

/// All bytes of `chunks`, one chunk after the other.
pub open spec fn concat(chunks: Seq<Seq<u8>>) -> Seq<u8>
    decreases chunks.len(),
{
    if chunks.len() == 0 {
        Seq::empty()
    } else {
        concat(chunks.drop_last()) + chunks.last()
    }
}

/// Taking the first chunk off a sequence takes its bytes off the front.
pub proof fn lemma_concat_first(chunks: Seq<Seq<u8>>)
    requires
        chunks.len() > 0,
    ensures
        concat(chunks) == chunks.first() + concat(chunks.drop_first()),
    decreases chunks.len(),
{
    if chunks.len() == 1 {
        assert(chunks.drop_last() =~= Seq::<Seq<u8>>::empty());
        assert(chunks.drop_first() =~= Seq::<Seq<u8>>::empty());
        assert(concat(chunks) =~= chunks.first() + concat(chunks.drop_first()));
    } else {
        lemma_concat_first(chunks.drop_last());
        assert(chunks.drop_last().drop_first() =~= chunks.drop_first().drop_last());
        assert(chunks.drop_first().last() == chunks.last());
        assert(chunks.drop_last().first() == chunks.first());
        assert(concat(chunks) =~= chunks.first() + concat(chunks.drop_first()));
    }
}

} // verus!
