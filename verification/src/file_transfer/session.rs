//! The decisions of the two ends of a file transfer.
//!
//! The program around the library moves the messages and the bytes: it hands each message to
//! [`FileSender`] or [`FileReceiver`] and does what the answer says.

use crate::digest::{sha256, StreamDigest};
use crate::error::{DcError, DcErrorView};
use crate::file_transfer::assembly::{check_digest, described_by};
use crate::file_transfer::manifest::{
    carried, chunk_at, chunk_message, chunk_of, chunk_size_allowed, chunk_size_error, intact,
    manifest_of, offer_of, offered, resumable, resume_failure, validate_chunk_size,
    ChunkDescriptor, ChunkView, FileChunk, FileManifest, ManifestView, ResumeState,
};
use crate::file_transfer::paths::{check_relative, checked_path};
use crate::protocol::types::MessageView;
use crate::protocol::WireMessage;
use crate::text::owned;
use crate::transport::fingerprint::{hex_string, hex_text};
use vstd::prelude::*;
use vstd::string::StringExecFns;

verus! {

/// What the sender of a file does next.
#[derive(Clone, Copy, Debug, Eq, PartialEq, Structural)]
pub enum SendStep {
    /// Read this chunk of the file, send it and wait for its acknowledgement.
    Send(ChunkDescriptor),
    /// The receiver has the whole file.
    Done,
}

/// The position that a message acknowledges, or why it acknowledges none.
pub open spec fn acknowledged(message: MessageView, transfer_id: Seq<u8>) -> Result<
    u64,
    DcErrorView,
> {
    match message {
        MessageView::FileAck { transfer_id: id, next_offset } => if id == transfer_id {
            Ok(next_offset)
        } else {
            Err(DcErrorView::Codec("file acknowledgement has the wrong transfer id"@))
        },
        _ => Err(DcErrorView::Codec("expected file acknowledgement"@)),
    }
}

/// The step of a sender whose receiver has everything before a position.
pub open spec fn step_at(manifest: ManifestView, next_offset: u64) -> SendStep {
    if next_offset < manifest.size {
        SendStep::Send(
            chunk_at(
                manifest.size as nat,
                manifest.chunk_size as nat,
                next_offset as nat / manifest.chunk_size as nat,
            ),
        )
    } else {
        SendStep::Done
    }
}

/// The position that has to be acknowledged after a step.
pub open spec fn awaited(step: SendStep, next_offset: u64) -> u64 {
    match step {
        SendStep::Send(chunk) => (chunk.offset + chunk.length) as u64,
        SendStep::Done => next_offset,
    }
}

/// A sender: what it sends, and the position whose acknowledgement it awaits. Before the first
/// acknowledgement the receiver chooses where the transfer resumes.
pub struct SenderView {
    pub manifest: ManifestView,
    pub transfer_id: Seq<u8>,
    pub awaited: Option<u64>,
}

impl SenderView {
    /// Why an acknowledged position is refused, if it is.
    pub open spec fn refusal(self, next_offset: u64) -> Option<DcErrorView> {
        match self.awaited {
            None => resume_failure(self.manifest, next_offset),
            Some(end) => if next_offset == end {
                None
            } else {
                Some(DcErrorView::Codec("receiver acknowledged an unexpected file offset"@))
            },
        }
    }

    /// The next step after a message, and the sender afterwards.
    pub open spec fn after(self, message: MessageView) -> Result<
        (SendStep, SenderView),
        DcErrorView,
    > {
        match acknowledged(message, self.transfer_id) {
            Err(error) => Err(error),
            Ok(next_offset) => match self.refusal(next_offset) {
                Some(error) => Err(error),
                None => {
                    let step = step_at(self.manifest, next_offset);
                    Ok((step, SenderView { awaited: Some(awaited(step, next_offset)), ..self }))
                },
            },
        }
    }
}

/// The sending end of a transfer.
#[derive(Debug)]
pub struct FileSender {
    manifest: FileManifest,
    transfer_id: [u8; 16],
    awaited: Option<u64>,
}

impl View for FileSender {
    type V = SenderView;

    closed spec fn view(&self) -> SenderView {
        SenderView {
            manifest: self.manifest@,
            transfer_id: self.transfer_id@,
            awaited: self.awaited,
        }
    }
}

proof fn lemma_step(manifest: ManifestView, next_offset: u64)
    requires
        chunk_size_allowed(manifest.chunk_size),
        resumable(manifest, next_offset),
    ensures
        step_at(manifest, next_offset) matches SendStep::Send(chunk) ==> {
            &&& chunk.offset == next_offset
            &&& 0 < chunk.length <= manifest.chunk_size
            &&& chunk.offset + chunk.length <= manifest.size
            &&& chunk.length as int == manifest.size - next_offset || chunk.length
                == manifest.chunk_size
            &&& chunk.length < manifest.chunk_size ==> chunk.length as int == manifest.size
                - next_offset
        },
        resumable(manifest, awaited(step_at(manifest, next_offset), next_offset)),
{
    let step = manifest.chunk_size as nat;
    if next_offset < manifest.size {
        let index = next_offset as nat / step;
        assert(index * step == next_offset) by (nonlinear_arith)
            requires
                step > 0,
                next_offset as nat % step == 0,
                index == next_offset as nat / step,
        ;
        let end = awaited(step_at(manifest, next_offset), next_offset);
        if end < manifest.size {
            assert(end as nat == (index + 1) * step) by (nonlinear_arith)
                requires
                    end as nat == index * step + step,
            ;
            assert(((index + 1) * step) % step == 0) by (nonlinear_arith)
                requires
                    step > 0,
            ;
        }
    }
}

impl FileSender {
    #[verifier::type_invariant]
    spec fn at_a_chunk(self) -> bool {
        &&& chunk_size_allowed(self.manifest.chunk_size)
        &&& self.awaited matches Some(end) ==> resumable(self.manifest@, end)
    }

    /// A sender that has not heard of its receiver yet.
    pub fn new(manifest: FileManifest, transfer_id: [u8; 16]) -> (result: Result<
        FileSender,
        DcError,
    >)
        ensures
            match result {
                Ok(sender) => {
                    &&& chunk_size_allowed(manifest.chunk_size)
                    &&& sender@ == (SenderView {
                        manifest: manifest@,
                        transfer_id: transfer_id@,
                        awaited: None,
                    })
                },
                Err(error) => !chunk_size_allowed(manifest.chunk_size) && error@
                    == chunk_size_error(),
            },
    {
        validate_chunk_size(manifest.chunk_size)?;
        Ok(FileSender { manifest, transfer_id, awaited: None })
    }

    /// The message that starts the transfer.
    pub fn offer(&self) -> (message: WireMessage)
        ensures
            message@ == offer_of(self@.manifest, self@.transfer_id),
    {
        self.manifest.to_wire(self.transfer_id)
    }

    /// The message that carries a chunk of the file.
    pub fn carry(&self, chunk: &FileChunk) -> (message: WireMessage)
        ensures
            message@ == chunk_message(chunk@, self@.transfer_id),
    {
        chunk.to_wire(self.transfer_id)
    }

    /// Takes a message of the receiver and tells what to do next.
    pub fn on_message(&mut self, message: WireMessage) -> (result: Result<SendStep, DcError>)
        ensures
            match result {
                Ok(step) => old(self)@.after(message@) == Ok::<
                    (SendStep, SenderView),
                    DcErrorView,
                >((step, final(self)@)),
                Err(error) => *final(self) == *old(self) && old(self)@.after(message@) == Err::<
                    (SendStep, SenderView),
                    DcErrorView,
                >(error@),
            },
    {
        proof {
            use_type_invariant(&*self);
        }
        let resume = receive_ack(message, &self.transfer_id)?;
        let next_offset: u64 = resume.next_offset;
        match self.awaited {
            None => {
                resume.validate(&self.manifest)?;
            },
            Some(end) => {
                if next_offset != end {
                    return Err(
                        DcError::codec("receiver acknowledged an unexpected file offset"),
                    );
                }
            },
        }
        proof {
            lemma_step(self.manifest@, next_offset);
        }
        if next_offset < self.manifest.size {
            let remaining: u64 = self.manifest.size - next_offset;
            let length: u32 = if remaining < self.manifest.chunk_size as u64 {
                remaining as u32
            } else {
                self.manifest.chunk_size
            };
            self.awaited = Some(next_offset + length as u64);
            Ok(SendStep::Send(ChunkDescriptor { offset: next_offset, length }))
        } else {
            self.awaited = Some(next_offset);
            Ok(SendStep::Done)
        }
    }

    /// The manifest of the file.
    pub fn manifest(&self) -> (manifest: &FileManifest)
        ensures
            manifest@ == self@.manifest,
    {
        &self.manifest
    }
}

/// Whether two transfer identifiers are equal.
fn same_transfer(first: &[u8; 16], second: &[u8; 16]) -> (same: bool)
    ensures
        same == (first@ == second@),
{
    let mut index: usize = 0;
    while index < 16
        invariant
            index <= 16,
            forall|i: int| 0 <= i < index ==> first@[i] == second@[i],
        decreases 16 - index,
    {
        if first[index] != second[index] {
            return false;
        }
        index = index + 1;
    }
    assert(first@ =~= second@);
    true
}

/// The position that a message acknowledges.
pub fn receive_ack(message: WireMessage, transfer_id: &[u8; 16]) -> (result: Result<
    ResumeState,
    DcError,
>)
    ensures
        match result {
            Ok(state) => acknowledged(message@, transfer_id@) == Ok::<u64, DcErrorView>(
                state.next_offset,
            ),
            Err(error) => acknowledged(message@, transfer_id@) == Err::<u64, DcErrorView>(error@),
        },
{
    match message {
        WireMessage::FileAck { transfer_id: id, next_offset } => {
            if !same_transfer(&id, transfer_id) {
                return Err(DcError::codec("file acknowledgement has the wrong transfer id"));
            }
            Ok(ResumeState::new(next_offset))
        },
        _ => Err(DcError::codec("expected file acknowledgement")),
    }
}

/// A receiver: what it receives, and how much of it is stored.
pub struct ReceiverView {
    pub manifest: ManifestView,
    pub transfer_id: Seq<u8>,
    pub next_offset: u64,
}

impl ReceiverView {
    /// A receiver that goes on where it has as much as it says.
    pub open spec fn resumed(self, existing: u64) -> ReceiverView {
        ReceiverView { next_offset: existing, ..self }
    }

    /// Whether all has arrived.
    pub open spec fn complete(self) -> bool {
        self.next_offset >= self.manifest.size
    }

    /// The position after a chunk, or why the chunk is refused. `verified` tells whether the
    /// chunk has the digest that it carries.
    pub open spec fn after_chunk(self, chunk: ChunkView, id: Seq<u8>, verified: bool) -> Result<
        u64,
        DcErrorView,
    > {
        let end = self.next_offset + chunk.data.len();
        if id != self.transfer_id || chunk.offset != self.next_offset || !verified
            || chunk.data.len() > self.manifest.chunk_size {
            Err(DcErrorView::Codec("invalid file chunk received"@))
        } else if end > u64::MAX {
            Err(DcErrorView::Codec("file offset overflow"@))
        } else if end > self.manifest.size {
            Err(DcErrorView::Codec("file chunk exceeds manifest size"@))
        } else {
            Ok(end as u64)
        }
    }

    /// The position after a message, or why the message is refused.
    pub open spec fn after(self, message: MessageView) -> Result<u64, DcErrorView> {
        match carried(message) {
            Err(error) => Err(error),
            Ok((chunk, id)) => self.after_chunk(chunk, id, intact(chunk)),
        }
    }

    /// The message that acknowledges what is stored.
    pub open spec fn acknowledgement(self) -> MessageView {
        MessageView::FileAck { transfer_id: self.transfer_id, next_offset: self.next_offset }
    }
}

/// The name of the file that holds an unfinished transfer.
pub open spec fn part_name(transfer_id: Seq<u8>) -> Seq<char> {
    ".direct-computing-"@ + hex_text(transfer_id) + ".part"@
}

/// The receiving end of a transfer.
#[derive(Debug)]
pub struct FileReceiver {
    manifest: FileManifest,
    transfer_id: [u8; 16],
    next_offset: u64,
}

impl View for FileReceiver {
    type V = ReceiverView;

    closed spec fn view(&self) -> ReceiverView {
        ReceiverView {
            manifest: self.manifest@,
            transfer_id: self.transfer_id@,
            next_offset: self.next_offset,
        }
    }
}

impl FileReceiver {
    /// A receiver for an offered file, unless its name leads out of the directory that it would
    /// be stored in.
    pub fn new(message: WireMessage) -> (result: Result<FileReceiver, DcError>)
        ensures
            match offered(message@) {
                Err(error) => result matches Err(e) && e@ == error,
                Ok((manifest, transfer_id)) => {
                    &&& checked_path(manifest.name, result)
                    &&& result matches Ok(receiver) ==> receiver@ == (ReceiverView {
                        manifest,
                        transfer_id,
                        next_offset: 0,
                    })
                },
            },
    {
        let (manifest, transfer_id) = FileManifest::from_wire(message)?;
        check_relative(manifest.name.as_str())?;
        Ok(FileReceiver { manifest, transfer_id, next_offset: 0 })
    }

    /// The name of the file that holds the unfinished transfer.
    pub fn temporary_name(&self) -> (name: String)
        ensures
            name@ == part_name(self@.transfer_id),
    {
        let mut name = owned(".direct-computing-");
        name.append(transfer_id_hex(self.transfer_id).as_str());
        name.append(".part");
        name
    }

    /// Resumes behind what an earlier attempt stored, and gives the message that says so.
    pub fn resume(&mut self, existing: u64) -> (result: Result<WireMessage, DcError>)
        ensures
            match result {
                Ok(message) => {
                    &&& resume_failure(old(self)@.manifest, existing) is None
                    &&& final(self)@ == (ReceiverView { next_offset: existing, ..old(self)@ })
                    &&& message@ == final(self)@.acknowledgement()
                },
                Err(error) => *final(self) == *old(self) && resume_failure(
                    old(self)@.manifest,
                    existing,
                ) == Some(error@),
            },
            result is Ok ==> final(self)@ == old(self)@.resumed(existing),
    {
        ResumeState::new(existing).validate(&self.manifest)?;
        self.next_offset = existing;
        Ok(self.acknowledgement())
    }

    /// Whether the whole file is stored.
    pub fn is_complete(&self) -> (complete: bool)
        ensures
            complete == (self@.next_offset >= self@.manifest.size),
            complete == self@.complete(),
    {
        self.next_offset >= self.manifest.size
    }

    /// Takes a message of the sender and gives the chunk that has to be stored.
    pub fn on_message(&mut self, message: WireMessage) -> (result: Result<FileChunk, DcError>)
        ensures
            match result {
                Ok(chunk) => {
                    &&& carried(message@) matches Ok(value) && value.0 == chunk@
                    &&& old(self)@.after(message@) == Ok::<u64, DcErrorView>(
                        final(self)@.next_offset,
                    )
                    &&& final(self)@ == (ReceiverView {
                        next_offset: final(self)@.next_offset,
                        ..old(self)@
                    })
                },
                Err(error) => *final(self) == *old(self) && old(self)@.after(message@) == Err::<
                    u64,
                    DcErrorView,
                >(error@),
            },
    {
        let (chunk, id) = FileChunk::from_wire(message)?;
        let verified = chunk.verify();
        self.take_chunk(&chunk, &id, verified)?;
        Ok(chunk)
    }

    /// Takes a chunk, given whether it has the digest that it carries.
    pub fn take_chunk(&mut self, chunk: &FileChunk, id: &[u8; 16], verified: bool) -> (result:
        Result<(), DcError>)
        ensures
            match result {
                Ok(_) => {
                    &&& old(self)@.after_chunk(chunk@, id@, verified) == Ok::<u64, DcErrorView>(
                        final(self)@.next_offset,
                    )
                    &&& final(self)@ == (ReceiverView {
                        next_offset: final(self)@.next_offset,
                        ..old(self)@
                    })
                },
                Err(error) => *final(self) == *old(self) && old(self)@.after_chunk(
                    chunk@,
                    id@,
                    verified,
                ) == Err::<u64, DcErrorView>(error@),
            },
    {
        if !same_transfer(id, &self.transfer_id) || chunk.offset != self.next_offset || !verified
            || chunk.data.len() as u64 > self.manifest.chunk_size as u64 {
            return Err(DcError::codec("invalid file chunk received"));
        }
        match self.next_offset.checked_add(chunk.data.len() as u64) {
            None => Err(DcError::codec("file offset overflow")),
            Some(end) => {
                if end > self.manifest.size {
                    return Err(DcError::codec("file chunk exceeds manifest size"));
                }
                self.next_offset = end;
                Ok(())
            },
        }
    }

    /// The message that acknowledges what is stored.
    pub fn acknowledgement(&self) -> (message: WireMessage)
        ensures
            message@ == self@.acknowledgement(),
    {
        WireMessage::FileAck { transfer_id: self.transfer_id, next_offset: self.next_offset }
    }

    /// Compares the stored file with its manifest: the size that the file system says it has, and
    /// its contents, which were read in parts.
    pub fn finish(&self, size: u64, contents: StreamDigest) -> (result: Result<(), DcError>)
        ensures
            match result {
                Ok(_) => described_by(self@.manifest, size as nat, sha256(contents@)),
                Err(error) => !described_by(self@.manifest, size as nat, sha256(contents@))
                    && error@ == DcErrorView::Codec(
                    "received file does not match manifest checksum"@,
                ),
            },
    {
        let digest = contents.finish();
        if !check_digest(&self.manifest, size, &digest) {
            return Err(DcError::codec("received file does not match manifest checksum"));
        }
        Ok(())
    }

    /// The manifest of the file.
    pub fn manifest(&self) -> (manifest: &FileManifest)
        ensures
            manifest@ == self@.manifest,
    {
        &self.manifest
    }
}

/// The hexadecimal form of a transfer identifier.
pub fn transfer_id_hex(transfer_id: [u8; 16]) -> (text: String)
    ensures
        text@ == hex_text(transfer_id@),
{
    hex_string(transfer_id.as_slice())
}

/// The chunk that a sender sends at a position is accepted by a receiver at the same position,
/// and the acknowledgement that follows is the one that the sender awaits: the transfer advances
/// from chunk to chunk until the receiver has the whole file.
pub proof fn law_transfer_advances(
    sender: SenderView,
    receiver: ReceiverView,
    name: Seq<char>,
    bytes: Seq<u8>,
    message: MessageView,
)
    requires
        bytes.len() <= u64::MAX,
        sender.manifest == manifest_of(name, bytes, sender.manifest.chunk_size),
        chunk_size_allowed(sender.manifest.chunk_size),
        receiver.manifest == sender.manifest,
        receiver.transfer_id == sender.transfer_id,
        resumable(receiver.manifest, receiver.next_offset),
        message == receiver.acknowledgement(),
        sender.awaited is None || sender.awaited == Some(receiver.next_offset),
    ensures
        sender.after(message) is Ok,
        ({
            let (step, next) = sender.after(message)->Ok_0;
            match step {
                SendStep::Done => receiver.next_offset == receiver.manifest.size,
                SendStep::Send(range) => {
                    let data = bytes.subrange(range.offset as int, range.offset + range.length);
                    let sent = chunk_message(chunk_of(range.offset, data), sender.transfer_id);
                    &&& range.offset == receiver.next_offset
                    &&& receiver.after(sent) matches Ok(end) && {
                        &&& end > receiver.next_offset
                        &&& next.awaited == Some(end)
                        &&& resumable(receiver.manifest, end)
                    }
                },
            }
        }),
{
    lemma_step(sender.manifest, receiver.next_offset);
    assert(resume_failure(sender.manifest, receiver.next_offset) is None);
}

/// What a receiver has stored when the sender is done, if no end refuses a message: each answers
/// the other, the sender reads its chunks out of the file, and the receiver stores each behind
/// what it already has.
pub open spec fn delivered(
    sender: SenderView,
    receiver: ReceiverView,
    file: Seq<u8>,
    stored: Seq<u8>,
) -> Option<Seq<u8>>
    decreases receiver.manifest.size - receiver.next_offset,
{
    match sender.after(receiver.acknowledgement()) {
        Err(_) => None,
        Ok((SendStep::Done, _)) => Some(stored),
        Ok((SendStep::Send(range), next)) => {
            let data = file.subrange(range.offset as int, range.offset + range.length);
            let sent = chunk_message(chunk_of(range.offset, data), sender.transfer_id);
            match receiver.after(sent) {
                Err(_) => None,
                Ok(end) => if receiver.next_offset < end <= receiver.manifest.size {
                    delivered(
                        next,
                        ReceiverView { next_offset: end, ..receiver },
                        file,
                        stored + data,
                    )
                } else {
                    None
                },
            }
        },
    }
}

/// A transfer delivers the file, wherever an earlier attempt stopped, and the receiver finds it as
/// its manifest describes it.
pub proof fn law_transfer_delivers_the_file(
    sender: SenderView,
    receiver: ReceiverView,
    name: Seq<char>,
    file: Seq<u8>,
    stored: Seq<u8>,
)
    requires
        file.len() <= u64::MAX,
        sender.manifest == manifest_of(name, file, sender.manifest.chunk_size),
        chunk_size_allowed(sender.manifest.chunk_size),
        receiver.manifest == sender.manifest,
        receiver.transfer_id == sender.transfer_id,
        resumable(receiver.manifest, receiver.next_offset),
        sender.awaited is None || sender.awaited == Some(receiver.next_offset),
        stored == file.take(receiver.next_offset as int),
    ensures
        delivered(sender, receiver, file, stored) == Some(file),
        described_by(receiver.manifest, file.len(), sha256(file)),
    decreases receiver.manifest.size - receiver.next_offset,
{
    let message = receiver.acknowledgement();
    law_transfer_advances(sender, receiver, name, file, message);
    lemma_step(sender.manifest, receiver.next_offset);
    let (step, next) = sender.after(message)->Ok_0;
    match step {
        SendStep::Done => {
            assert(file.take(file.len() as int) =~= file);
        },
        SendStep::Send(range) => {
            let data = file.subrange(range.offset as int, range.offset + range.length);
            let sent = chunk_message(chunk_of(range.offset, data), sender.transfer_id);
            let end = receiver.after(sent)->Ok_0;
            assert(stored + data =~= file.take(end as int));
            law_transfer_delivers_the_file(
                next,
                ReceiverView { next_offset: end, ..receiver },
                name,
                file,
                stored + data,
            );
        },
    }
}

/// A sender takes the first acknowledgement at the start of any chunk or at the end of the file, and
/// each later one only at the end of the chunk that it sent; one of another transfer it refuses. It
/// then sends the chunk that begins there, and is done at the end of the file.
pub proof fn law_sender_follows_the_acknowledgements(sender: SenderView, message: MessageView)
    requires
        chunk_size_allowed(sender.manifest.chunk_size),
    ensures
        ({
            let result = sender.after(message);
            let size = sender.manifest.size;
            let chunk = sender.manifest.chunk_size;
            let offset = message->next_offset;
            let mine = message is FileAck && message->FileAck_transfer_id == sender.transfer_id;
            &&& !mine ==> result is Err
            &&& mine && sender.awaited is Some ==> (result is Ok <==> offset
                == sender.awaited->Some_0)
            &&& mine && sender.awaited is None ==> (result is Ok <==> offset <= size && (offset
                % (chunk as u64) == 0 || offset == size))
            &&& result is Ok && offset >= size ==> result->Ok_0.0 is Done
            &&& result is Ok && offset < size && offset % (chunk as u64) == 0 ==> {
                &&& result->Ok_0.0 matches SendStep::Send(part) && {
                    &&& part.offset == offset
                    &&& part.length == (if size - offset < chunk {
                        size - offset
                    } else {
                        chunk as int
                    })
                    &&& result->Ok_0.1.awaited == Some((offset + part.length) as u64)
                }
            }
            &&& result is Ok ==> result->Ok_0.1.manifest == sender.manifest
                && result->Ok_0.1.transfer_id == sender.transfer_id
        }),
{
    let size = sender.manifest.size;
    let chunk = sender.manifest.chunk_size as int;
    let offset = message->next_offset as int;
    if offset % chunk == 0 {
        vstd::arithmetic::div_mod::lemma_fundamental_div_mod(offset, chunk);
        assert((offset / chunk) * chunk == chunk * (offset / chunk)) by (nonlinear_arith);
    }
}

/// A receiver takes a chunk exactly where it is of its transfer, continues what it has, was found
/// intact, is not too long and does not reach beyond the file; it then has as much more as the chunk
/// holds, and says so.
pub proof fn law_receiver_takes_the_next_chunk(
    receiver: ReceiverView,
    chunk: ChunkView,
    id: Seq<u8>,
    verified: bool,
)
    ensures
        ({
            let result = receiver.after_chunk(chunk, id, verified);
            &&& result is Ok <==> {
                &&& id == receiver.transfer_id
                &&& chunk.offset == receiver.next_offset
                &&& verified
                &&& chunk.data.len() <= receiver.manifest.chunk_size
                &&& receiver.next_offset + chunk.data.len() <= receiver.manifest.size
            }
            &&& result is Ok ==> result->Ok_0 == receiver.next_offset + chunk.data.len()
            &&& receiver.acknowledgement() == (MessageView::FileAck {
                transfer_id: receiver.transfer_id,
                next_offset: receiver.next_offset,
            })
            &&& receiver.after(chunk_message(chunk, id)) == receiver.after_chunk(
                chunk,
                id,
                chunk.sha256 == sha256(chunk.data),
            )
        }),
{
}

/// A transfer goes on at the offset that the receiver has, which it says, and is complete when it has
/// all of the file.
pub proof fn law_transfer_goes_on_where_it_stopped(receiver: ReceiverView, existing: u64)
    ensures
        receiver.resumed(existing).acknowledgement() == (MessageView::FileAck {
            transfer_id: receiver.transfer_id,
            next_offset: existing,
        }),
        receiver.resumed(existing).manifest == receiver.manifest,
        receiver.resumed(existing).transfer_id == receiver.transfer_id,
        existing <= receiver.manifest.size ==> (receiver.resumed(existing).complete() <==> existing
            == receiver.manifest.size),
        chunk_size_allowed(receiver.manifest.chunk_size) ==> (resume_failure(
            receiver.manifest,
            existing,
        ) is None <==> existing <= receiver.manifest.size && (existing % (
        receiver.manifest.chunk_size as u64) == 0 || existing == receiver.manifest.size)),
{
}

/// A file that is not complete yet lies under a hidden name that tells the transfer and nothing of the
/// file.
pub proof fn law_parts_are_named_by_their_transfer(first: Seq<u8>, second: Seq<u8>)
    requires
        first.len() == 16,
        second.len() == 16,
    ensures
        part_name(first) == ".direct-computing-"@ + hex_text(first) + ".part"@,
        part_name(first) == part_name(second) ==> first == second,
{
    if part_name(first) == part_name(second) {
        let front = ".direct-computing-"@;
        let back = ".part"@;
        crate::transport::fingerprint::lemma_hex_text(first);
        crate::transport::fingerprint::lemma_hex_text(second);
        assert(hex_text(first).len() == 32 && hex_text(second).len() == 32);
        assert forall|i: int| 0 <= i < 16 implies first[i] == second[i] by {
            crate::transport::fingerprint::law_bytes_are_told_in_two_digits(first, i);
            crate::transport::fingerprint::law_bytes_are_told_in_two_digits(second, i);
            let one = part_name(first);
            let two = part_name(second);
            assert(one[front.len() + 2 * i] == hex_text(first)[2 * i]);
            assert(two[front.len() + 2 * i] == hex_text(second)[2 * i]);
            assert(one[front.len() + (2 * i + 1)] == hex_text(first)[2 * i + 1]);
            assert(two[front.len() + (2 * i + 1)] == hex_text(second)[2 * i + 1]);
        }
        assert(first =~= second);
    }
}

} // verus!
