use direct_computing::digest::StreamDigest;
use direct_computing::error::DcError;
use direct_computing::file_transfer::manifest::{validate_chunk_size, ChunkDescriptor};
use direct_computing::file_transfer::session::{
    receive_ack, transfer_id_hex, FileReceiver, FileSender, SendStep,
};
use direct_computing::file_transfer::{
    assemble_chunks, chunk_bytes, safe_join, FileChunk, FileManifest, ResumeState,
};
use direct_computing::protocol::WireMessage;
use std::path::Path;

#[test]
fn chunks_round_trip_and_verify_manifest() {
    let bytes = b"0123456789abcdef";
    let manifest = FileManifest::from_bytes("sample.bin", bytes, 4).unwrap();
    let chunks = chunk_bytes(bytes, 4).unwrap();
    assert_eq!(chunks.len(), 4);
    assert_eq!(assemble_chunks(&manifest, &chunks).unwrap(), bytes);
}

#[test]
fn rejects_tampered_or_out_of_order_chunks() {
    let bytes = b"abcdefgh";
    let manifest = FileManifest::from_bytes("sample.bin", bytes, 4).unwrap();
    let mut chunks = chunk_bytes(bytes, 4).unwrap();
    chunks[0].data[0] = b'X';
    assert!(assemble_chunks(&manifest, &chunks).is_err());
    let mut chunks = chunk_bytes(bytes, 4).unwrap();
    chunks.swap(0, 1);
    assert!(assemble_chunks(&manifest, &chunks).is_err());
}

#[test]
fn safe_join_rejects_absolute_and_parent_paths() {
    let root = "/tmp/transfers";
    assert_eq!(
        safe_join(root, "nested/file.bin").unwrap(),
        Path::new(root).join("nested/file.bin").to_str().unwrap()
    );
    assert!(safe_join(root, "../outside").is_err());
    assert!(safe_join(root, "/etc/passwd").is_err());
}

#[test]
fn resume_state_requires_chunk_boundary() {
    let manifest = FileManifest::from_bytes("sample.bin", b"abcdefgh", 4).unwrap();
    assert!(ResumeState::new(4).validate(&manifest).is_ok());
    assert!(ResumeState::new(3).validate(&manifest).is_err());
    assert!(ResumeState::new(8).validate(&manifest).is_ok());
}

#[test]
fn manifest_and_chunks_convert_to_wire_messages() {
    let manifest = FileManifest::from_bytes("sample.bin", b"abcdefgh", 4).unwrap();
    let transfer_id = [4; 16];
    let (decoded, decoded_id) = FileManifest::from_wire(manifest.to_wire(transfer_id)).unwrap();
    assert_eq!(decoded, manifest);
    assert_eq!(decoded_id, transfer_id);
    let chunk = FileChunk::new(0, b"abcd".to_vec());
    let (decoded_chunk, decoded_id) = FileChunk::from_wire(chunk.to_wire(transfer_id)).unwrap();
    assert_eq!(decoded_chunk, chunk);
    assert_eq!(decoded_id, transfer_id);
}

fn description<T: std::fmt::Debug>(result: Result<T, DcError>) -> String {
    result.unwrap_err().description()
}

/// Sends a file from a position that the receiver already has; gives what the receiver stores.
fn transfer(bytes: &[u8], chunk_size: u32, stored: &[u8]) -> Vec<u8> {
    let manifest = FileManifest::from_bytes("file.bin", bytes, chunk_size).unwrap();
    let mut sender = FileSender::new(manifest, [5; 16]).unwrap();
    let mut receiver = FileReceiver::new(sender.offer()).unwrap();
    let mut received = stored.to_vec();
    let mut answer = receiver.resume(received.len() as u64).unwrap();
    loop {
        match sender.on_message(answer).unwrap() {
            SendStep::Send(descriptor) => {
                let from = descriptor.offset as usize;
                let to = from + descriptor.length as usize;
                let chunk = FileChunk::new(descriptor.offset, bytes[from..to].to_vec());
                let taken = receiver.on_message(sender.carry(&chunk)).unwrap();
                received.extend(&taken.data);
                answer = receiver.acknowledgement();
            }
            SendStep::Done => break,
        }
    }
    assert!(receiver.is_complete());
    receiver
        .finish(received.len() as u64, digest_of(&received))
        .unwrap();
    received
}

fn digest_of(bytes: &[u8]) -> StreamDigest {
    let mut digest = StreamDigest::new();
    for part in bytes.chunks(2) {
        digest.update(part);
    }
    digest
}

#[test]
fn digests_in_parts_are_those_of_the_whole() {
    assert_eq!(
        digest_of(b"abc").finish(),
        [
            0xba, 0x78, 0x16, 0xbf, 0x8f, 0x01, 0xcf, 0xea, 0x41, 0x41, 0x40, 0xde, 0x5d, 0xae,
            0x22, 0x23, 0xb0, 0x03, 0x61, 0xa3, 0x96, 0x17, 0x7a, 0x9c, 0xb4, 0x10, 0xff, 0x61,
            0xf2, 0x00, 0x15, 0xad,
        ]
    );
    assert_eq!(
        digest_of(b"0123456789").finish(),
        FileChunk::new(0, b"0123456789".to_vec()).sha256
    );
}

#[test]
fn transfers_arrive_whole_and_resume() {
    let bytes: Vec<u8> = (0..=250).collect();
    assert_eq!(transfer(&bytes, 16, &[]), bytes);
    assert_eq!(transfer(&bytes, 16, &bytes[..32]), bytes);
    assert_eq!(transfer(&bytes, 251, &[]), bytes);
    assert_eq!(transfer(&[], 16, &[]), vec![]);
}

#[test]
fn chunks_partition_the_file() {
    let manifest = FileManifest::from_bytes("a", b"0123456789", 4).unwrap();
    let chunks = manifest.chunks();
    let ranges: Vec<_> = chunks
        .iter()
        .map(|chunk| (chunk.offset, chunk.length))
        .collect();
    assert_eq!(ranges, [(0, 4), (4, 4), (8, 2)]);
}

#[test]
fn chunk_sizes_and_ranges_are_checked() {
    assert!(validate_chunk_size(4 * 1_024 * 1_024).is_ok());
    for size in [0, 4 * 1_024 * 1_024 + 1] {
        assert_eq!(
            description(validate_chunk_size(size)),
            "invalid input: chunk size must be between 1 and 4 MiB"
        );
    }
    let chunk = |offset: u64, length: u32| ChunkDescriptor { offset, length };
    assert!(chunk(0, 0).validate_length().is_err());
    assert!(chunk(4, 4).validate_range(8).is_ok());
    assert!(chunk(5, 4).validate_range(8).is_err());
    assert!(chunk(u64::MAX, 1).validate_range(u64::MAX).is_err());
}

#[test]
fn digests_are_checked() {
    assert_eq!(digest_of(b"abc").finish()[..4], [0xba, 0x78, 0x16, 0xbf]);
    let manifest = FileManifest::from_bytes("a", b"abcd", 8).unwrap();
    assert_eq!(
        description(assemble_chunks(&manifest, &[FileChunk::new(0, b"abcX".to_vec())])),
        "codec error: assembled file does not match manifest checksum"
    );
    assert_eq!(
        description(assemble_chunks(
            &manifest,
            &[FileChunk::new(0, b"abcde".to_vec())]
        )),
        "codec error: file chunk exceeds manifest size"
    );
    let mut damaged = FileChunk::new(0, b"abcd".to_vec());
    assert!(damaged.verify());
    damaged.data[0] = b'X';
    assert!(!damaged.verify());
    assert_eq!(
        description(assemble_chunks(&manifest, &[damaged])),
        "codec error: invalid or out-of-order file chunk"
    );
}

#[test]
fn other_messages_are_refused() {
    assert_eq!(
        description(FileManifest::from_wire(WireMessage::Close)),
        "invalid input: expected file offer message"
    );
    assert_eq!(
        description(FileChunk::from_wire(WireMessage::Close)),
        "invalid input: expected file chunk message"
    );
    assert_eq!(
        description(receive_ack(WireMessage::Close, &[0; 16])),
        "codec error: expected file acknowledgement"
    );
    let foreign = WireMessage::FileAck {
        transfer_id: [1; 16],
        next_offset: 4,
    };
    assert_eq!(
        description(receive_ack(foreign, &[0; 16])),
        "codec error: file acknowledgement has the wrong transfer id"
    );
    let own = WireMessage::FileAck {
        transfer_id: [1; 16],
        next_offset: 4,
    };
    assert_eq!(receive_ack(own, &[1; 16]).unwrap(), ResumeState::new(4));
}

#[test]
fn unexpected_positions_are_refused() {
    let manifest = FileManifest::from_bytes("a", b"0123456789", 4).unwrap();
    let mut sender = FileSender::new(manifest, [0; 16]).unwrap();
    let ack = |next_offset: u64| WireMessage::FileAck {
        transfer_id: [0; 16],
        next_offset,
    };
    assert_eq!(
        description(sender.on_message(ack(3))),
        "invalid input: resume offset is not a valid chunk boundary"
    );
    assert!(sender.on_message(ack(4)).is_ok());
    assert_eq!(
        description(sender.on_message(ack(4))),
        "codec error: receiver acknowledged an unexpected file offset"
    );
}

#[test]
fn receivers_refuse_damaged_and_foreign_chunks() {
    let manifest = FileManifest::from_bytes("a", b"01234567", 4).unwrap();
    let sender = FileSender::new(manifest, [7; 16]).unwrap();
    let mut receiver = FileReceiver::new(sender.offer()).unwrap();
    assert!(receiver.temporary_name().contains(&transfer_id_hex([7; 16])));
    assert_eq!(transfer_id_hex([7; 16]), "07".repeat(16));
    receiver.resume(0).unwrap();
    let refused = "codec error: invalid file chunk received";
    let mut damaged = FileChunk::new(0, b"0123".to_vec());
    damaged.data[1] = b'X';
    assert_eq!(
        description(receiver.on_message(damaged.to_wire([7; 16]))),
        refused
    );
    let late = FileChunk::new(4, b"4567".to_vec());
    assert_eq!(
        description(receiver.on_message(late.to_wire([7; 16]))),
        refused
    );
    let foreign = FileChunk::new(0, b"0123".to_vec());
    assert_eq!(
        description(receiver.on_message(foreign.to_wire([8; 16]))),
        refused
    );
    assert!(receiver.on_message(foreign.to_wire([7; 16])).is_ok());
    assert!(!receiver.is_complete());
    assert_eq!(
        description(receiver.finish(8, digest_of(b"01234568"))),
        "codec error: received file does not match manifest checksum"
    );
}

#[test]
fn paths_stay_inside_their_root() {
    assert_eq!(
        description(safe_join("/root", "")),
        "invalid input: relative path is empty"
    );
    for outside in ["a/../../b", "..", "/a"] {
        assert_eq!(
            description(safe_join("/root", outside)),
            "invalid input: path escapes transfer root"
        );
    }
    assert!(safe_join("/root", "./a").is_ok());
    assert_eq!(safe_join("/root/", "a").unwrap(), "/root/a");
    assert_eq!(safe_join("", "a/b").unwrap(), "a/b");
    assert!(safe_join("/root", "a/..b").is_ok());
}

#[test]
fn names_have_to_be_text() {
    assert_eq!(
        FileManifest::offered_name(Some("a".to_owned()), 4).unwrap(),
        "a"
    );
    assert!(FileManifest::offered_name(None, 4).is_err());
    let manifest = FileManifest::from_digest("a", 3, 2, digest_of(b"abc")).unwrap();
    assert_eq!(manifest, FileManifest::from_bytes("a", b"abc", 2).unwrap());
}

#[test]
fn pieces_lie_where_the_chunk_table_says() {
    let bytes: Vec<u8> = (0..23).collect();
    let manifest = FileManifest::from_bytes("file.bin", &bytes, 5).unwrap();
    let pieces = chunk_bytes(&bytes, 5).unwrap();
    let table = manifest.chunks();
    assert_eq!(pieces.len(), table.len());
    for (piece, descriptor) in pieces.iter().zip(&table) {
        assert_eq!(piece.offset, descriptor.offset);
        let start = descriptor.offset as usize;
        let end = start + descriptor.length as usize;
        assert_eq!(piece.data, bytes[start..end]);
    }
}
