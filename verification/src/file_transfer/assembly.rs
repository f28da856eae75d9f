//! Cutting contents into chunks, and putting chunks together again.
use crate::bytes::put_slice;
use crate::digest::{sha256, sha256_digest};
use crate::error::{DcError, DcErrorView};
use crate::file_transfer::manifest::{
    chunk_count, chunk_of, chunk_size_allowed, chunk_size_error, chunk_table, intact,
    lemma_chunk_position, manifest_of, validate_chunk_size, ChunkView, FileChunk, FileManifest,
    ManifestView,
};
use crate::transport::state::same_fingerprint;
use vstd::prelude::*;
use vstd::slice::slice_subrange;

verus! {

/// The smaller of two numbers.
pub open spec fn lesser(a: nat, b: nat) -> nat {
    if a < b {
        a
    } else {
        b
    }
}

/// The bytes of the chunk with the given number.
pub open spec fn piece_of(bytes: Seq<u8>, chunk_size: nat, index: nat) -> Seq<u8> {
    bytes.subrange(
        (index * chunk_size) as int,
        lesser(bytes.len(), (index + 1) * chunk_size) as int,
    )
}

/// Contents cut into chunks.
pub open spec fn chunked(bytes: Seq<u8>, chunk_size: nat) -> Seq<ChunkView> {
    Seq::new(
        chunk_count(bytes.len(), chunk_size),
        |i: int| chunk_of((i * chunk_size) as u64, piece_of(bytes, chunk_size, i as nat)),
    )
}

/// What chunks hold.
pub open spec fn chunk_views(chunks: Seq<FileChunk>) -> Seq<ChunkView> {
    chunks.map_values(|chunk: FileChunk| chunk@)
}

/// The bytes after one more chunk, or why it cannot be added. `verified` tells whether the chunk
/// has the digest that it carries.
pub open spec fn with_chunk(
    manifest: ManifestView,
    bytes: Seq<u8>,
    chunk: ChunkView,
    verified: bool,
) -> Result<Seq<u8>, DcErrorView> {
    if chunk.offset != bytes.len() || !verified || chunk.data.len() > manifest.chunk_size {
        Err(DcErrorView::Codec("invalid or out-of-order file chunk"@))
    } else if bytes.len() + chunk.data.len() > manifest.size {
        Err(DcErrorView::Codec("file chunk exceeds manifest size"@))
    } else {
        Ok(bytes + chunk.data)
    }
}

/// The bytes of chunks that are added one after the other, or the first failure.
pub open spec fn gathered(manifest: ManifestView, chunks: Seq<ChunkView>) -> Result<
    Seq<u8>,
    DcErrorView,
>
    decreases chunks.len(),
{
    if chunks.len() == 0 {
        Ok(Seq::empty())
    } else {
        match gathered(manifest, chunks.drop_last()) {
            Err(error) => Err(error),
            Ok(bytes) => with_chunk(manifest, bytes, chunks.last(), intact(chunks.last())),
        }
    }
}

/// Whether contents with the given size and digest are those of a manifest.
pub open spec fn described_by(manifest: ManifestView, size: nat, digest: Seq<u8>) -> bool {
    size == manifest.size && digest == manifest.sha256
}

/// The contents that chunks make up, or why they do not.
pub open spec fn assembled(manifest: ManifestView, chunks: Seq<ChunkView>) -> Result<
    Seq<u8>,
    DcErrorView,
> {
    if manifest.size > usize::MAX {
        Err(DcErrorView::InvalidInput("manifest size exceeds addressable memory"@))
    } else {
        match gathered(manifest, chunks) {
            Err(error) => Err(error),
            Ok(bytes) => if described_by(manifest, bytes.len(), sha256(bytes)) {
                Ok(bytes)
            } else {
                Err(DcErrorView::Codec("assembled file does not match manifest checksum"@))
            },
        }
    }
}

/// Cuts contents into chunks; the last one may be shorter than the others.
pub fn chunk_bytes(bytes: &[u8], chunk_size: u32) -> (result: Result<Vec<FileChunk>, DcError>)
    ensures
        match result {
            Ok(chunks) => chunk_size_allowed(chunk_size) && chunk_views(chunks@) == chunked(
                bytes@,
                chunk_size as nat,
            ),
            Err(error) => !chunk_size_allowed(chunk_size) && error@ == chunk_size_error(),
        },
{
    validate_chunk_size(chunk_size)?;
    let available: usize = bytes.len();
    let ghost step = chunk_size as nat;
    let mut chunks: Vec<FileChunk> = Vec::new();
    let mut start: usize = 0;
    proof {
        lemma_chunk_position(bytes@.len(), step, 0);
    }
    while start < available
        invariant
            available == bytes@.len(),
            start <= available,
            step == chunk_size,
            chunk_size_allowed(chunk_size),
            start < available ==> start == chunks@.len() * step,
            chunks@.len() <= chunk_count(bytes@.len(), step),
            start == available ==> chunks@.len() == chunk_count(bytes@.len(), step),
            forall|i: int|
                0 <= i < chunks@.len() ==> (#[trigger] chunks@[i])@ == chunk_of(
                    (i * step) as u64,
                    piece_of(bytes@, step, i as nat),
                ),
        decreases available - start,
    {
        let end: usize = if available - start < chunk_size as usize {
            available
        } else {
            start + chunk_size as usize
        };
        let ghost count = chunks@.len();
        proof {
            lemma_chunk_position(bytes@.len(), step, count);
            lemma_chunk_position(bytes@.len(), step, count + 1);
            assert((count + 1) * step == count * step + step) by (nonlinear_arith);
        }
        let mut data: Vec<u8> = Vec::new();
        put_slice(&mut data, slice_subrange(bytes, start, end));
        assert(data@ =~= piece_of(bytes@, step, count));
        chunks.push(FileChunk::new(start as u64, data));
        start = end;
    }
    assert(chunk_views(chunks@) =~= chunked(bytes@, step));
    Ok(chunks)
}

/// Adds a chunk to the bytes that came before it. `verified` tells whether the chunk has the
/// digest that it carries.
pub fn add_chunk(
    manifest: &FileManifest,
    output: &mut Vec<u8>,
    chunk: &FileChunk,
    verified: bool,
) -> (result: Result<(), DcError>)
    ensures
        match result {
            Ok(_) => with_chunk(manifest@, old(output)@, chunk@, verified) == Ok::<
                Seq<u8>,
                DcErrorView,
            >(final(output)@),
            Err(error) => final(output)@ == old(output)@ && with_chunk(
                manifest@,
                old(output)@,
                chunk@,
                verified,
            ) == Err::<Seq<u8>, DcErrorView>(error@),
        },
{
    let expected: u64 = output.len() as u64;
    if chunk.offset != expected || !verified || chunk.data.len() as u64 > manifest.chunk_size as u64 {
        return Err(DcError::codec("invalid or out-of-order file chunk"));
    }
    if expected > manifest.size || manifest.size - expected < chunk.data.len() as u64 {
        return Err(DcError::codec("file chunk exceeds manifest size"));
    }
    put_slice(output, chunk.data.as_slice());
    Ok(())
}

/// Whether contents with the given size and digest are those of a manifest.
pub fn check_digest(manifest: &FileManifest, size: u64, digest: &[u8; 32]) -> (matching: bool)
    ensures
        matching == described_by(manifest@, size as nat, digest@),
{
    size == manifest.size && same_fingerprint(digest, &manifest.sha256)
}

/// Puts chunks together and compares the contents with their manifest.
pub fn assemble_chunks(manifest: &FileManifest, chunks: &[FileChunk]) -> (result: Result<
    Vec<u8>,
    DcError,
>)
    ensures
        match result {
            Ok(bytes) => assembled(manifest@, chunk_views(chunks@)) == Ok::<Seq<u8>, DcErrorView>(
                bytes@,
            ),
            Err(error) => assembled(manifest@, chunk_views(chunks@)) == Err::<
                Seq<u8>,
                DcErrorView,
            >(error@),
        },
{
    if manifest.size > usize::MAX as u64 {
        return Err(DcError::invalid_input("manifest size exceeds addressable memory"));
    }
    let ghost views = chunk_views(chunks@);
    let mut output: Vec<u8> = Vec::new();
    let mut index: usize = 0;
    assert(output@ =~= Seq::<u8>::empty());
    while index < chunks.len()
        invariant
            index <= chunks@.len(),
            views == chunk_views(chunks@),
            manifest.size <= usize::MAX,
            gathered(manifest@, views.take(index as int)) == Ok::<Seq<u8>, DcErrorView>(output@),
        decreases chunks@.len() - index,
    {
        let verified = chunks[index].verify();
        let ghost before = output@;
        assert(views.take(index + 1).drop_last() =~= views.take(index as int));
        assert(views[index as int] == chunks@[index as int]@);
        match add_chunk(manifest, &mut output, &chunks[index], verified) {
            Ok(_) => {},
            Err(error) => {
                proof {
                    lemma_failure_stays(manifest@, views, index + 1);
                }
                return Err(error);
            },
        }
        index = index + 1;
    }
    assert(views.take(index as int) =~= views);
    let digest = sha256_digest(output.as_slice());
    if !check_digest(manifest, output.len() as u64, &digest) {
        return Err(DcError::codec("assembled file does not match manifest checksum"));
    }
    Ok(output)
}

/// A failure on the first chunks is the failure on all of them.
proof fn lemma_failure_stays(manifest: ManifestView, chunks: Seq<ChunkView>, count: int)
    requires
        0 <= count <= chunks.len(),
        gathered(manifest, chunks.take(count)) is Err,
    ensures
        gathered(manifest, chunks) == gathered(manifest, chunks.take(count)),
    decreases chunks.len() - count,
{
    if count < chunks.len() {
        assert(chunks.take(count + 1).drop_last() =~= chunks.take(count));
        lemma_failure_stays(manifest, chunks, count + 1);
    } else {
        assert(chunks.take(count) =~= chunks);
    }
}

proof fn lemma_gathered_chunks(name: Seq<char>, bytes: Seq<u8>, chunk_size: u32, count: nat)
    requires
        chunk_size_allowed(chunk_size),
        bytes.len() <= u64::MAX,
        count <= chunk_count(bytes.len(), chunk_size as nat),
    ensures
        gathered(
            manifest_of(name, bytes, chunk_size),
            chunked(bytes, chunk_size as nat).take(count as int),
        ) == Ok::<Seq<u8>, DcErrorView>(
            bytes.take(lesser(bytes.len(), count * chunk_size as nat) as int),
        ),
    decreases count,
{
    let step = chunk_size as nat;
    let manifest = manifest_of(name, bytes, chunk_size);
    let chunks = chunked(bytes, step);
    if count == 0 {
        assert(bytes.take(0) =~= Seq::<u8>::empty());
        assert(0 * step == 0);
    } else {
        let index = (count - 1) as nat;
        lemma_gathered_chunks(name, bytes, chunk_size, index);
        lemma_chunk_position(bytes.len(), step, index);
        assert((index + 1) * step == index * step + step) by (nonlinear_arith);
        assert(chunks.take(count as int).drop_last() =~= chunks.take(index as int));
        assert(chunks.take(count as int).last() == chunks[index as int]);
        let before = bytes.take((index * step) as int);
        assert(lesser(bytes.len(), index * step) == index * step);
        assert(before + piece_of(bytes, step, index) =~= bytes.take(
            lesser(bytes.len(), count * step) as int,
        ));
    }
}

/// Contents that were cut into chunks are put together again under their own manifest.
pub proof fn law_assembly_reads_back_chunking(name: Seq<char>, bytes: Seq<u8>, chunk_size: u32)
    requires
        chunk_size_allowed(chunk_size),
        bytes.len() <= usize::MAX,
    ensures
        assembled(manifest_of(name, bytes, chunk_size), chunked(bytes, chunk_size as nat)) == Ok::<
            Seq<u8>,
            DcErrorView,
        >(bytes),
{
    let step = chunk_size as nat;
    let chunks = chunked(bytes, step);
    let count = chunk_count(bytes.len(), step);
    lemma_gathered_chunks(name, bytes, chunk_size, count);
    lemma_chunk_position(bytes.len(), step, count);
    assert(chunks.take(count as int) =~= chunks);
    assert(bytes.take(bytes.len() as int) =~= bytes);
}

/// What is put together has the size and the digest of its manifest, whatever the chunks were.
pub proof fn law_assembled_contents_match(manifest: ManifestView, chunks: Seq<ChunkView>)
    requires
        assembled(manifest, chunks) is Ok,
    ensures
        assembled(manifest, chunks)->Ok_0.len() == manifest.size,
        sha256(assembled(manifest, chunks)->Ok_0) == manifest.sha256,
{
}

/// The pieces that contents are cut into lie where the chunk table of their manifest says, one for
/// one, and each has the digest that it carries.
pub proof fn law_pieces_follow_the_chunk_table(name: Seq<char>, bytes: Seq<u8>, chunk_size: u32)
    requires
        chunk_size_allowed(chunk_size),
        bytes.len() <= u64::MAX,
    ensures
        ({
            let manifest = manifest_of(name, bytes, chunk_size);
            let pieces = chunked(bytes, chunk_size as nat);
            let table = chunk_table(manifest.size as nat, manifest.chunk_size as nat);
            &&& pieces.len() == table.len()
            &&& forall|i: int|
                0 <= i < pieces.len() ==> {
                    &&& (#[trigger] pieces[i]).offset == table[i].offset
                    &&& pieces[i].data.len() == table[i].length
                    &&& intact(pieces[i])
                    &&& pieces[i].data == bytes.subrange(
                        table[i].offset as int,
                        table[i].offset + table[i].length,
                    )
                }
        }),
{
    let step = chunk_size as nat;
    let size = bytes.len();
    let pieces = chunked(bytes, step);
    let table = chunk_table(size, step);
    assert forall|i: int| 0 <= i < pieces.len() implies {
        &&& (#[trigger] pieces[i]).offset == table[i].offset
        &&& pieces[i].data.len() == table[i].length
        &&& intact(pieces[i])
        &&& pieces[i].data == bytes.subrange(
            table[i].offset as int,
            table[i].offset + table[i].length,
        )
    } by {
        lemma_chunk_position(size, step, i as nat);
        assert((i + 1) * step == i * step + step) by (nonlinear_arith);
    }
}

/// A chunk is taken exactly where it continues what was gathered, was found intact, is no longer than
/// the chunks are said to be and does not reach beyond the file; then its data is added and nothing
/// else changes.
pub proof fn law_only_the_next_chunk_is_taken(
    manifest: ManifestView,
    bytes: Seq<u8>,
    chunk: ChunkView,
    verified: bool,
)
    ensures
        with_chunk(manifest, bytes, chunk, verified) is Ok <==> {
            &&& chunk.offset == bytes.len()
            &&& verified
            &&& chunk.data.len() <= manifest.chunk_size
            &&& bytes.len() + chunk.data.len() <= manifest.size
        },
        with_chunk(manifest, bytes, chunk, verified) is Ok ==> with_chunk(
            manifest,
            bytes,
            chunk,
            verified,
        )->Ok_0 == bytes + chunk.data,
{
}

/// A file is what its manifest describes exactly where both its length and its hash are, and only
/// then is it handed out.
pub proof fn law_only_the_described_file_is_assembled(
    manifest: ManifestView,
    chunks: Seq<ChunkView>,
    chunk: ChunkView,
    size: nat,
    digest: Seq<u8>,
)
    ensures
        described_by(manifest, size, digest) <==> size == manifest.size && digest
            == manifest.sha256,
        gathered(manifest, Seq::empty()) == Ok::<Seq<u8>, DcErrorView>(Seq::empty()),
        gathered(manifest, chunks) is Err ==> gathered(manifest, chunks.push(chunk)) is Err,
        gathered(manifest, chunks) is Ok ==> gathered(manifest, chunks.push(chunk)) == with_chunk(
            manifest,
            gathered(manifest, chunks)->Ok_0,
            chunk,
            chunk.sha256 == sha256(chunk.data),
        ),
        manifest.size <= usize::MAX && gathered(manifest, chunks) is Ok && gathered(
            manifest,
            chunks,
        )->Ok_0.len() == manifest.size && sha256(gathered(manifest, chunks)->Ok_0)
            == manifest.sha256 ==> assembled(manifest, chunks) == gathered(manifest, chunks),
{
    assert(chunks.push(chunk).drop_last() =~= chunks);
}

} // verus!
