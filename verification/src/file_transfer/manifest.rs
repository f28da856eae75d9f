//! What is transferred: the manifest of a file, its chunks and where a transfer resumes.
use crate::digest::{constant_time_equal, sha256, sha256_digest, StreamDigest};
use crate::error::{DcError, DcErrorView};
use crate::protocol::types::MessageView;
use crate::protocol::WireMessage;
use crate::text::owned;
use vstd::prelude::*;

verus! {

pub const DEFAULT_CHUNK_SIZE: u32 = 256 * 1024;

/// The largest chunk that a manifest may announce.
pub const MAX_CHUNK_SIZE: u32 = 4 * 1024 * 1024;

/// Whether a chunk size may be announced.
pub open spec fn chunk_size_allowed(chunk_size: u32) -> bool {
    0 < chunk_size <= MAX_CHUNK_SIZE
}

/// The error for any other chunk size.
pub open spec fn chunk_size_error() -> DcErrorView {
    DcErrorView::InvalidInput("chunk size must be between 1 and 4 MiB"@)
}

/// Accepts the chunk sizes from one byte to four mebibytes.
pub fn validate_chunk_size(chunk_size: u32) -> (result: Result<(), DcError>)
    ensures
        match result {
            Ok(_) => chunk_size_allowed(chunk_size),
            Err(error) => !chunk_size_allowed(chunk_size) && error@ == chunk_size_error(),
        },
{
    if chunk_size == 0 || chunk_size > MAX_CHUNK_SIZE {
        return Err(DcError::invalid_input("chunk size must be between 1 and 4 MiB"));
    }
    Ok(())
}

/// A range of bytes of a file.
#[derive(Clone, Copy, Debug, Eq, PartialEq, Structural)]
pub struct ChunkDescriptor {
    pub offset: u64,
    pub length: u32,
}

impl ChunkDescriptor {
    /// A chunk that is read from a file has at least one byte.
    pub fn validate_length(self) -> (result: Result<(), DcError>)
        ensures
            match result {
                Ok(_) => self.length > 0,
                Err(error) => self.length == 0 && error@ == DcErrorView::InvalidInput(
                    "file chunk length must be non-zero"@,
                ),
            },
    {
        if self.length == 0 {
            return Err(DcError::invalid_input("file chunk length must be non-zero"));
        }
        Ok(())
    }

    /// Whether a chunk lies inside a file.
    pub open spec fn lies_inside(self, file_size: u64) -> bool {
        self.offset + self.length <= file_size
    }

    /// A chunk that is read from a file lies inside it.
    pub fn validate_range(self, file_size: u64) -> (result: Result<(), DcError>)
        ensures
            result is Ok <==> self.lies_inside(file_size),
            match result {
                Ok(_) => self.offset + self.length <= file_size,
                Err(error) => self.offset + self.length > file_size && error@
                    == DcErrorView::InvalidInput(
                    if self.offset + self.length > u64::MAX {
                        "file chunk range overflows u64"@
                    } else {
                        "file chunk exceeds file size"@
                    },
                ),
            },
    {
        match self.offset.checked_add(self.length as u64) {
            None => Err(DcError::invalid_input("file chunk range overflows u64")),
            Some(end) => {
                if end > file_size {
                    Err(DcError::invalid_input("file chunk exceeds file size"))
                } else {
                    Ok(())
                }
            },
        }
    }
}

/// The number of chunks of a file: the last one may be shorter than the others.
pub open spec fn chunk_count(size: nat, chunk_size: nat) -> nat
    recommends
        chunk_size > 0,
{
    (size + chunk_size - 1) as nat / chunk_size
}

/// The chunk with the given number.
pub open spec fn chunk_at(size: nat, chunk_size: nat, index: nat) -> ChunkDescriptor {
    let offset = index * chunk_size;
    ChunkDescriptor {
        offset: offset as u64,
        length: if size - offset < chunk_size {
            (size - offset) as u32
        } else {
            chunk_size as u32
        },
    }
}

/// The chunks of a file in order.
pub open spec fn chunk_table(size: nat, chunk_size: nat) -> Seq<ChunkDescriptor> {
    Seq::new(chunk_count(size, chunk_size), |i: int| chunk_at(size, chunk_size, i as nat))
}

/// The number of chunks before a position that is reached after whole chunks.
pub proof fn lemma_chunk_position(size: nat, chunk_size: nat, index: nat)
    requires
        chunk_size > 0,
    ensures
        index < chunk_count(size, chunk_size) <==> index * chunk_size < size,
{
    let total = size + chunk_size - 1;
    let count = chunk_count(size, chunk_size);
    assert(count * chunk_size <= total < (count + 1) * chunk_size) by (nonlinear_arith)
        requires
            chunk_size > 0,
            count == total / (chunk_size as int),
            total >= 0,
    ;
    if index < count {
        assert(index * chunk_size <= (count - 1) * chunk_size) by (nonlinear_arith)
            requires
                index <= count - 1,
                chunk_size > 0,
        ;
        assert((count - 1) * chunk_size == count * chunk_size - chunk_size) by (nonlinear_arith);
    } else {
        assert(index * chunk_size >= count * chunk_size) by (nonlinear_arith)
            requires
                index >= count,
                chunk_size > 0,
        ;
        assert((count + 1) * chunk_size == count * chunk_size + chunk_size) by (nonlinear_arith);
    }
}

/// What is known of a file before it is transferred.
#[derive(Clone, Debug, Eq, PartialEq)]
pub struct FileManifest {
    pub name: String,
    pub size: u64,
    pub chunk_size: u32,
    pub sha256: [u8; 32],
}

/// The contents of a [`FileManifest`].
pub struct ManifestView {
    pub name: Seq<char>,
    pub size: u64,
    pub chunk_size: u32,
    pub sha256: Seq<u8>,
}

impl View for FileManifest {
    type V = ManifestView;

    open spec fn view(&self) -> ManifestView {
        ManifestView {
            name: self.name@,
            size: self.size,
            chunk_size: self.chunk_size,
            sha256: self.sha256@,
        }
    }
}

/// The manifest of the given contents.
pub open spec fn manifest_of(name: Seq<char>, bytes: Seq<u8>, chunk_size: u32) -> ManifestView {
    ManifestView { name, size: bytes.len() as u64, chunk_size, sha256: sha256(bytes) }
}

/// The message that offers a file.
pub open spec fn offer_of(manifest: ManifestView, transfer_id: Seq<u8>) -> MessageView {
    MessageView::FileOffer {
        transfer_id,
        name: manifest.name,
        size: manifest.size,
        chunk_size: manifest.chunk_size,
        sha256: manifest.sha256,
    }
}

/// The manifest and the transfer that a message offers, or why it offers none.
pub open spec fn offered(message: MessageView) -> Result<(ManifestView, Seq<u8>), DcErrorView> {
    match message {
        MessageView::FileOffer { transfer_id, name, size, chunk_size, sha256 } =>
            if chunk_size_allowed(chunk_size) {
                Ok((ManifestView { name, size, chunk_size, sha256 }, transfer_id))
            } else {
                Err(chunk_size_error())
            },
        _ => Err(DcErrorView::InvalidInput("expected file offer message"@)),
    }
}

impl FileManifest {
    /// The manifest of a file with the given contents.
    pub fn from_bytes(name: &str, bytes: &[u8], chunk_size: u32) -> (result: Result<
        FileManifest,
        DcError,
    >)
        ensures
            match result {
                Ok(manifest) => chunk_size_allowed(chunk_size) && manifest@ == manifest_of(
                    name@,
                    bytes@,
                    chunk_size,
                ),
                Err(error) => !chunk_size_allowed(chunk_size) && error@ == chunk_size_error(),
            },
    {
        validate_chunk_size(chunk_size)?;
        let sha256 = sha256_digest(bytes);
        Ok(FileManifest { name: owned(name), size: bytes.len() as u64, chunk_size, sha256 })
    }

    /// The manifest of a file that was read in parts. `size` is what the file system says of it.
    pub fn from_digest(name: &str, size: u64, chunk_size: u32, contents: StreamDigest) -> (result:
        Result<FileManifest, DcError>)
        ensures
            match result {
                Ok(manifest) => chunk_size_allowed(chunk_size) && manifest@ == (ManifestView {
                    name: name@,
                    size,
                    chunk_size,
                    sha256: sha256(contents@),
                }),
                Err(error) => !chunk_size_allowed(chunk_size) && error@ == chunk_size_error(),
            },
    {
        validate_chunk_size(chunk_size)?;
        Ok(FileManifest { name: owned(name), size, chunk_size, sha256: contents.finish() })
    }

    /// The name under which a file is offered, before the file is read: `name` is its last path
    /// component if that is valid UTF-8.
    pub fn offered_name(name: Option<String>, chunk_size: u32) -> (result: Result<String, DcError>)
        ensures
            match result {
                Ok(text) => chunk_size_allowed(chunk_size) && name == Some(text),
                Err(error) => if !chunk_size_allowed(chunk_size) {
                    error@ == chunk_size_error()
                } else {
                    name is None && error@ == DcErrorView::InvalidInput(
                        "file name is not valid UTF-8"@,
                    )
                },
            },
    {
        validate_chunk_size(chunk_size)?;
        match name {
            Some(text) => Ok(text),
            None => Err(DcError::invalid_input("file name is not valid UTF-8")),
        }
    }

    /// The chunks of the file in order.
    pub fn chunks(&self) -> (chunks: Vec<ChunkDescriptor>)
        requires
            self.chunk_size > 0 || self.size == 0,
        ensures
            self.size == 0 ==> chunks@.len() == 0,
            self.size > 0 ==> chunks@ == chunk_table(self.size as nat, self.chunk_size as nat),
    {
        let ghost size = self.size as nat;
        let ghost step = self.chunk_size as nat;
        let mut chunks: Vec<ChunkDescriptor> = Vec::new();
        let mut offset: u64 = 0;
        proof {
            if step > 0 {
                lemma_chunk_position(size, step, 0);
            }
        }
        while offset < self.size
            invariant
                self.chunk_size > 0 || self.size == 0,
                size == self.size,
                step == self.chunk_size,
                offset <= self.size,
                offset < self.size ==> offset == chunks@.len() * step,
                step > 0 ==> chunks@.len() <= chunk_count(size, step),
                offset == self.size && size > 0 ==> chunks@.len() == chunk_count(size, step),
                size == 0 ==> chunks@.len() == 0,
                forall|i: int|
                    0 <= i < chunks@.len() ==> #[trigger] chunks@[i] == chunk_at(
                        size,
                        step,
                        i as nat,
                    ),
            decreases self.size - offset,
        {
            let remaining: u64 = self.size - offset;
            let length: u32 = if remaining < self.chunk_size as u64 {
                remaining as u32
            } else {
                self.chunk_size
            };
            let ghost count = chunks@.len();
            proof {
                lemma_chunk_position(size, step, count);
                lemma_chunk_position(size, step, count + 1);
                assert((count + 1) * step == count * step + step) by (nonlinear_arith);
            }
            chunks.push(ChunkDescriptor { offset, length });
            offset = offset + length as u64;
        }
        assert(size > 0 ==> chunks@ =~= chunk_table(size, step));
        chunks
    }

    /// The message that offers the file.
    pub fn to_wire(&self, transfer_id: [u8; 16]) -> (message: WireMessage)
        ensures
            message@ == offer_of(self@, transfer_id@),
    {
        WireMessage::FileOffer {
            transfer_id,
            name: owned(self.name.as_str()),
            size: self.size,
            chunk_size: self.chunk_size,
            sha256: self.sha256,
        }
    }

    /// The manifest and the transfer that a message offers.
    pub fn from_wire(message: WireMessage) -> (result: Result<(FileManifest, [u8; 16]), DcError>)
        ensures
            match result {
                Ok(value) => offered(message@) == Ok::<(ManifestView, Seq<u8>), DcErrorView>(
                    (value.0@, value.1@),
                ),
                Err(error) => offered(message@) == Err::<(ManifestView, Seq<u8>), DcErrorView>(
                    error@,
                ),
            },
    {
        match message {
            WireMessage::FileOffer { transfer_id, name, size, chunk_size, sha256 } => {
                validate_chunk_size(chunk_size)?;
                Ok((FileManifest { name, size, chunk_size, sha256 }, transfer_id))
            },
            _ => Err(DcError::invalid_input("expected file offer message")),
        }
    }
}

/// A piece of a file with its digest.
#[derive(Clone, Debug, Eq, PartialEq)]
pub struct FileChunk {
    pub offset: u64,
    pub data: Vec<u8>,
    pub sha256: [u8; 32],
}

/// The contents of a [`FileChunk`].
pub struct ChunkView {
    pub offset: u64,
    pub data: Seq<u8>,
    pub sha256: Seq<u8>,
}

impl View for FileChunk {
    type V = ChunkView;

    open spec fn view(&self) -> ChunkView {
        ChunkView { offset: self.offset, data: self.data@, sha256: self.sha256@ }
    }
}

/// The chunk with the given bytes.
pub open spec fn chunk_of(offset: u64, data: Seq<u8>) -> ChunkView {
    ChunkView { offset, data, sha256: sha256(data) }
}

/// Whether the bytes of a chunk have the digest that it carries.
pub open spec fn intact(chunk: ChunkView) -> bool {
    chunk.sha256 == sha256(chunk.data)
}

/// The message that carries a chunk.
pub open spec fn chunk_message(chunk: ChunkView, transfer_id: Seq<u8>) -> MessageView {
    MessageView::FileChunk {
        transfer_id,
        offset: chunk.offset,
        data: chunk.data,
        sha256: chunk.sha256,
    }
}

/// The chunk and the transfer that a message belongs to, or why it carries none.
pub open spec fn carried(message: MessageView) -> Result<(ChunkView, Seq<u8>), DcErrorView> {
    match message {
        MessageView::FileChunk { transfer_id, offset, data, sha256 } => Ok(
            (ChunkView { offset, data, sha256 }, transfer_id),
        ),
        _ => Err(DcErrorView::InvalidInput("expected file chunk message"@)),
    }
}

impl FileChunk {
    /// The chunk with the given bytes and their digest.
    pub fn new(offset: u64, data: Vec<u8>) -> (chunk: FileChunk)
        ensures
            chunk@ == chunk_of(offset, data@),
    {
        let sha256 = sha256_digest(data.as_slice());
        FileChunk { offset, data, sha256 }
    }

    /// Whether the bytes have the digest that the chunk carries.
    pub fn verify(&self) -> (result: bool)
        ensures
            result == intact(self@),
    {
        let actual = sha256_digest(self.data.as_slice());
        constant_time_equal(&self.sha256, &actual)
    }

    /// The message that carries the chunk.
    pub fn to_wire(&self, transfer_id: [u8; 16]) -> (message: WireMessage)
        ensures
            message@ == chunk_message(self@, transfer_id@),
    {
        let mut data: Vec<u8> = Vec::new();
        data.extend_from_slice(self.data.as_slice());
        assert(data@ =~= self.data@);
        WireMessage::FileChunk { transfer_id, offset: self.offset, data, sha256: self.sha256 }
    }

    /// The chunk and the transfer that a message belongs to.
    pub fn from_wire(message: WireMessage) -> (result: Result<(FileChunk, [u8; 16]), DcError>)
        ensures
            match result {
                Ok(value) => carried(message@) == Ok::<(ChunkView, Seq<u8>), DcErrorView>(
                    (value.0@, value.1@),
                ),
                Err(error) => carried(message@) == Err::<(ChunkView, Seq<u8>), DcErrorView>(error@),
            },
    {
        match message {
            WireMessage::FileChunk { transfer_id, offset, data, sha256 } => Ok(
                (FileChunk { offset, data, sha256 }, transfer_id),
            ),
            _ => Err(DcError::invalid_input("expected file chunk message")),
        }
    }
}

/// Where an interrupted transfer continues.
#[derive(Clone, Copy, Debug, Eq, PartialEq, Structural)]
pub struct ResumeState {
    pub next_offset: u64,
}

/// Whether a transfer can continue at a position: at the end of the file or at the start of one
/// of its chunks.
pub open spec fn resumable(manifest: ManifestView, next_offset: u64) -> bool {
    &&& next_offset <= manifest.size
    &&& next_offset % (manifest.chunk_size as u64) == 0 || next_offset == manifest.size
}

/// Why a transfer cannot continue at a position, if it cannot.
pub open spec fn resume_failure(manifest: ManifestView, next_offset: u64) -> Option<DcErrorView> {
    if !chunk_size_allowed(manifest.chunk_size) {
        Some(chunk_size_error())
    } else if !resumable(manifest, next_offset) {
        Some(DcErrorView::InvalidInput("resume offset is not a valid chunk boundary"@))
    } else {
        None
    }
}

impl ResumeState {
    pub fn new(next_offset: u64) -> (state: ResumeState)
        ensures
            state == (ResumeState { next_offset }),
    {
        ResumeState { next_offset }
    }

    /// Accepts the end of the file and the starts of its chunks.
    pub fn validate(self, manifest: &FileManifest) -> (result: Result<(), DcError>)
        ensures
            match result {
                Ok(_) => resume_failure(manifest@, self.next_offset) is None,
                Err(error) => resume_failure(manifest@, self.next_offset) == Some(error@),
            },
    {
        validate_chunk_size(manifest.chunk_size)?;
        if self.next_offset > manifest.size || (self.next_offset % (manifest.chunk_size as u64) != 0
            && self.next_offset != manifest.size) {
            return Err(DcError::invalid_input("resume offset is not a valid chunk boundary"));
        }
        Ok(())
    }
}

/// The chunks of a file follow one another without gap or overlap from its first byte to its
/// last, none is empty and none is longer than the chunk size.
pub proof fn law_chunks_partition_the_file(size: nat, chunk_size: nat, index: int)
    requires
        0 < chunk_size <= MAX_CHUNK_SIZE,
        size <= u64::MAX,
        0 <= index < chunk_table(size, chunk_size).len(),
    ensures
        ({
            let chunks = chunk_table(size, chunk_size);
            &&& chunks[0].offset == 0
            &&& 0 < chunks[index].length <= chunk_size
            &&& index + 1 < chunks.len() ==> chunks[index + 1].offset == chunks[index].offset
                + chunks[index].length
            &&& index + 1 == chunks.len() ==> chunks[index].offset + chunks[index].length == size
        }),
{
    let count = chunk_count(size, chunk_size);
    lemma_chunk_position(size, chunk_size, index as nat);
    lemma_chunk_position(size, chunk_size, (index + 1) as nat);
    assert((index + 1) * chunk_size == index * chunk_size + chunk_size) by (nonlinear_arith);
}

/// A transfer can continue exactly at the end of the file or where one of its chunks starts.
pub proof fn law_transfer_resumes_at_chunks(manifest: ManifestView, next_offset: u64)
    requires
        chunk_size_allowed(manifest.chunk_size),
    ensures
        resumable(manifest, next_offset) <==> next_offset == manifest.size || exists|i: int|
            0 <= i < chunk_table(manifest.size as nat, manifest.chunk_size as nat).len() && (
            #[trigger] chunk_table(manifest.size as nat, manifest.chunk_size as nat)[i]).offset
                == next_offset,
{
    let size = manifest.size as nat;
    let step = manifest.chunk_size as nat;
    let chunks = chunk_table(size, step);
    if resumable(manifest, next_offset) && next_offset < manifest.size {
        let index = next_offset as nat / step;
        assert(index * step == next_offset) by (nonlinear_arith)
            requires
                step > 0,
                next_offset as nat % step == 0,
                index == next_offset as nat / step,
        ;
        lemma_chunk_position(size, step, index);
        assert(chunks[index as int].offset == next_offset);
    }
    assert forall|i: int| 0 <= i < chunks.len() && (#[trigger] chunks[i]).offset
        == next_offset implies resumable(manifest, next_offset) by {
        lemma_chunk_position(size, step, i as nat);
        assert((i * step) % (step as int) == 0) by (nonlinear_arith)
            requires
                step > 0,
        ;
    }
}

/// An offered manifest comes back from its message.
pub proof fn law_manifest_survives_wire(manifest: ManifestView, transfer_id: Seq<u8>)
    requires
        chunk_size_allowed(manifest.chunk_size),
    ensures
        offered(offer_of(manifest, transfer_id)) == Ok::<(ManifestView, Seq<u8>), DcErrorView>(
            (manifest, transfer_id),
        ),
{
}

/// A chunk comes back from its message.
pub proof fn law_chunk_survives_wire(chunk: ChunkView, transfer_id: Seq<u8>)
    ensures
        carried(chunk_message(chunk, transfer_id)) == Ok::<(ChunkView, Seq<u8>), DcErrorView>(
            (chunk, transfer_id),
        ),
{
}

/// Chunks have from one byte to four mebibytes, and every chunk of a file but the last has as many as
/// the manifest says.
pub proof fn law_chunks_are_full(size: nat, chunk_size: u32, index: int)
    ensures
        chunk_size_allowed(chunk_size) <==> 1 <= chunk_size && chunk_size <= 4_194_304,
        size <= u64::MAX && chunk_size_allowed(chunk_size) && 0 <= index < chunk_table(
            size,
            chunk_size as nat,
        ).len() ==> {
            let chunk = chunk_table(size, chunk_size as nat)[index];
            &&& chunk.offset == index * chunk_size
            &&& index + 1 < chunk_table(size, chunk_size as nat).len() ==> chunk.length
                == chunk_size
            &&& chunk.offset < size
            &&& chunk.offset + chunk.length <= size
        },
        chunk_size_allowed(chunk_size) && size > 0 ==> chunk_table(size, chunk_size as nat).len()
            > 0,
{
    if size <= u64::MAX && chunk_size_allowed(chunk_size) && 0 <= index < chunk_table(
        size,
        chunk_size as nat,
    ).len() {
        let count = chunk_table(size, chunk_size as nat).len() as int;
        let above = size + chunk_size - 1;
        vstd::arithmetic::div_mod::lemma_fundamental_div_mod(above, chunk_size as int);
        vstd::arithmetic::div_mod::lemma_mod_bound(above, chunk_size as int);
        assert(index * chunk_size < size && 0 <= index * chunk_size) by (nonlinear_arith)
            requires
                above == size + chunk_size - 1,
                above == chunk_size * count + above % (chunk_size as int),
                0 <= above % (chunk_size as int) < chunk_size,
                0 <= index < count,
                chunk_size > 0,
        ;
        if index + 1 < count {
            assert(index * chunk_size + chunk_size < size) by (nonlinear_arith)
                requires
                    above == size + chunk_size - 1,
                    above == chunk_size * count + above % (chunk_size as int),
                    0 <= above % (chunk_size as int) < chunk_size,
                    0 <= index < count - 1,
                    chunk_size > 0,
            ;
        }
    }
    if chunk_size_allowed(chunk_size) && size > 0 {
        let above = size + chunk_size - 1;
        assert(above / (chunk_size as int) >= 1) by (nonlinear_arith)
            requires
                above >= chunk_size,
                chunk_size > 0,
        ;
    }
}

/// A manifest says how long a file is and what its hash is, an offer says what the manifest says, and
/// an offer with chunks of a size that is not allowed is refused.
pub proof fn law_offer_says_what_the_manifest_says(
    name: Seq<char>,
    bytes: Seq<u8>,
    chunk_size: u32,
    transfer_id: Seq<u8>,
    message: MessageView,
)
    requires
        bytes.len() <= u64::MAX,
    ensures
        ({
            let manifest = manifest_of(name, bytes, chunk_size);
            let offer = offer_of(manifest, transfer_id);
            &&& manifest.name == name
            &&& manifest.size == bytes.len()
            &&& manifest.chunk_size == chunk_size
            &&& manifest.sha256 == sha256(bytes)
            &&& offer == (MessageView::FileOffer {
                transfer_id,
                name,
                size: bytes.len() as u64,
                chunk_size,
                sha256: sha256(bytes),
            })
        }),
        message is FileOffer ==> (offered(message) is Ok <==> 1 <= message->chunk_size
            && message->chunk_size <= 4_194_304),
        !(message is FileOffer) ==> offered(message) is Err,
{
}

/// A chunk is intact exactly where its hash is that of its data, and goes over the wire with its
/// place, its data and its hash.
pub proof fn law_chunk_says_what_it_holds(
    offset: u64,
    data: Seq<u8>,
    transfer_id: Seq<u8>,
    chunk: ChunkView,
)
    ensures
        intact(chunk) <==> chunk.sha256 == sha256(chunk.data),
        chunk_of(offset, data).offset == offset,
        chunk_of(offset, data).data == data,
        chunk_of(offset, data).sha256 == sha256(data),
        chunk_message(chunk, transfer_id) == (MessageView::FileChunk {
            transfer_id,
            offset: chunk.offset,
            data: chunk.data,
            sha256: chunk.sha256,
        }),
{
}

/// A chunk lies inside a file exactly where each of its bytes has a place there; one without bytes
/// begins behind the end at the latest.
pub proof fn law_chunk_lies_inside_its_file(chunk: ChunkDescriptor, file_size: u64, place: int)
    requires
        0 <= place < chunk.length,
    ensures
        chunk.lies_inside(file_size) ==> chunk.offset + place < file_size,
        !chunk.lies_inside(file_size) ==> chunk.offset + (chunk.length - 1) >= file_size,
{
}

} // verus!
