use janggab::chunker::{
    build_datagram, ends_batch, split_frame, total_chunks, BATCH_SIZE, CHUNK_DATA_SIZE,
    MAX_CHUNKS, MAX_DATAGRAM_PAYLOAD,
};
use janggab::error::ProtocolError;
use janggab::header::{ChunkHeader, HEADER_SIZE};
use janggab::reassembly::{Reassembler, ReassemblyEntry, Receipt};
use janggab::session::{
    ack, is_ack, is_probe, probe, same_bytes, HandshakeState, PeerAddr, CONNECTION_TIMEOUT_SECS,
    SERVER_PORT,
};
use janggab::webcam::{Reaction, SenderStep, Windows, Wsl, CHANNEL_COUNT};

fn sample_frame(len: usize) -> Vec<u8> {
    (0..len).map(|i| ((i * 7 + i / 251) % 256) as u8).collect()
}

fn peer(last: u8, port: u16) -> PeerAddr {
    PeerAddr { ip: 0xffff_c0a8_0000u128 + last as u128, port }
}

fn established(width: usize, height: usize, from: PeerAddr) -> Wsl {
    let mut receiver = Wsl::new(width, height);
    let reaction = receiver.on_datagram(from, b"HELLO");
    assert!(matches!(reaction, Reaction::Acknowledge));
    receiver
}

fn datagram(frame_id: u32, total: u16, index: u16, payload: &[u8]) -> Vec<u8> {
    build_datagram(&ChunkHeader { frame_id, total_chunks: total, chunk_index: index }, payload)
}

#[test]
fn policy_constants() {
    assert_eq!(HEADER_SIZE, 8);
    assert_eq!(MAX_DATAGRAM_PAYLOAD, 1400);
    assert_eq!(CHUNK_DATA_SIZE, 1392);
    assert_eq!(MAX_CHUNKS, 65535);
    assert_eq!(BATCH_SIZE, 6);
    assert_eq!(CHANNEL_COUNT, 3);
    assert_eq!(SERVER_PORT, 52525);
    assert_eq!(CONNECTION_TIMEOUT_SECS, 5);
}

#[test]
fn header_is_big_endian() {
    let header = ChunkHeader { frame_id: 0x0102_0304, total_chunks: 0x0506, chunk_index: 0x0708 };
    assert_eq!(header.encode(), [1, 2, 3, 4, 5, 6, 7, 8]);
}

#[test]
fn header_extremes_round_trip() {
    for header in [
        ChunkHeader { frame_id: 0, total_chunks: 0, chunk_index: 0 },
        ChunkHeader { frame_id: u32::MAX, total_chunks: u16::MAX, chunk_index: u16::MAX },
        ChunkHeader { frame_id: 0x8000_0001, total_chunks: 256, chunk_index: 255 },
    ] {
        let bytes = header.encode();
        assert_eq!(ChunkHeader::decode(&bytes), Ok(header));
    }
}

#[test]
fn decode_reads_only_the_header() {
    let bytes = [0, 0, 1, 0, 0, 3, 0, 2, 9, 9, 9];
    assert_eq!(
        ChunkHeader::decode(&bytes),
        Ok(ChunkHeader { frame_id: 256, total_chunks: 3, chunk_index: 2 })
    );
}

#[test]
fn decode_rejects_short_datagrams() {
    for len in 0..8usize {
        let bytes = vec![0xffu8; len];
        assert_eq!(ChunkHeader::decode(&bytes), Err(ProtocolError::MalformedPacket));
    }
    assert!(ChunkHeader::decode(&[0u8; 8]).is_ok());
}

#[test]
fn chunk_count_formula() {
    assert_eq!(total_chunks(4000, 1392), Ok(3));
    assert_eq!(total_chunks(0, 1392), Ok(0));
    assert_eq!(total_chunks(1, 1392), Ok(1));
    assert_eq!(total_chunks(1392, 1392), Ok(1));
    assert_eq!(total_chunks(1393, 1392), Ok(2));
    assert_eq!(total_chunks(921600, 1392), Ok(663));
    assert_eq!(total_chunks(10, 3), Ok(4));
    assert_eq!(total_chunks(usize::MAX, usize::MAX), Ok(1));
}

#[test]
fn chunk_count_limit() {
    assert_eq!(total_chunks(65535 * 1392, 1392), Ok(65535));
    assert_eq!(total_chunks(65535 * 1392 + 1, 1392), Err(ProtocolError::FrameTooLarge));
    assert_eq!(total_chunks(usize::MAX, 1), Err(ProtocolError::FrameTooLarge));
    assert_eq!(total_chunks(65536, 1), Err(ProtocolError::FrameTooLarge));
    assert_eq!(total_chunks(65535, 1), Ok(65535));
}

#[test]
fn payload_sizes_of_a_4000_byte_frame() {
    let frame = sample_frame(4000);
    let chunks = split_frame(&frame, 9, 1392).unwrap();
    let sizes: Vec<usize> = chunks.iter().map(|d| d.len() - HEADER_SIZE).collect();
    assert_eq!(sizes, vec![1392, 1392, 1216]);
    for (i, chunk) in chunks.iter().enumerate() {
        assert_eq!(
            ChunkHeader::decode(chunk),
            Ok(ChunkHeader { frame_id: 9, total_chunks: 3, chunk_index: i as u16 })
        );
        assert!(chunk.len() <= MAX_DATAGRAM_PAYLOAD);
    }
    assert_eq!(&chunks[0][8..], &frame[..1392]);
    assert_eq!(&chunks[1][8..], &frame[1392..2784]);
    assert_eq!(&chunks[2][8..], &frame[2784..]);
}

#[test]
fn payloads_cover_the_frame_without_gap_or_overlap() {
    for (len, size) in [(0usize, 4usize), (1, 4), (4, 4), (5, 4), (17, 5), (100, 1), (33, 64)] {
        let frame = sample_frame(len);
        let chunks = split_frame(&frame, 1, size).unwrap();
        let mut joined = Vec::new();
        for chunk in &chunks {
            assert!(chunk.len() > HEADER_SIZE);
            assert!(chunk.len() <= HEADER_SIZE + size);
            joined.extend_from_slice(&chunk[HEADER_SIZE..]);
        }
        assert_eq!(joined, frame);
        assert_eq!(chunks.len(), (len + size - 1) / size);
    }
}

#[test]
fn split_rejects_a_frame_with_too_many_chunks() {
    let frame = vec![0u8; 65536];
    assert_eq!(split_frame(&frame, 0, 1), Err(ProtocolError::FrameTooLarge));
    assert_eq!(split_frame(&frame[..65535], 0, 1).unwrap().len(), 65535);
}

#[test]
fn build_datagram_puts_header_first() {
    let header = ChunkHeader { frame_id: 1, total_chunks: 2, chunk_index: 1 };
    assert_eq!(build_datagram(&header, &[7, 8]), vec![0, 0, 0, 1, 0, 2, 0, 1, 7, 8]);
    assert_eq!(build_datagram(&header, &[]), vec![0, 0, 0, 1, 0, 2, 0, 1]);
}

#[test]
fn batches_end_every_sixth_chunk_and_at_the_end() {
    let pauses: Vec<bool> = (0..14u16).map(|i| ends_batch(i, 14)).collect();
    let expected: Vec<bool> = (0..14u16).map(|i| i == 5 || i == 11 || i == 13).collect();
    assert_eq!(pauses, expected);
    assert!(ends_batch(0, 1));
    assert!(!ends_batch(0, 2));
    assert!(ends_batch(65534, 65535));
}

#[test]
fn handshake_tokens() {
    assert_eq!(&probe(), b"HELLO");
    assert_eq!(&ack(), b"CONNECTED");
    assert!(is_probe(b"HELLO"));
    assert!(!is_probe(b"HELLO "));
    assert!(!is_probe(b"hello"));
    assert!(!is_probe(b""));
    assert!(is_ack(b"CONNECTED"));
    assert!(!is_ack(b"CONNECTE"));
    assert!(!is_ack(b"HELLO"));
    assert!(same_bytes(b"", b""));
    assert!(!same_bytes(b"ab", b"ac"));
}

#[test]
fn sender_probes_until_acknowledged() {
    let mut sender = Windows::new("192.168.0.7", 640, 480);
    assert_eq!(sender.ip(), "192.168.0.7");
    assert_eq!(sender.frame_width(), 640);
    assert_eq!(sender.frame_height(), 480);
    assert_eq!(sender.handshake_state(), HandshakeState::Idle);
    assert!(!sender.on_reply(b"CONNECTED"));
    assert_eq!(sender.handshake_state(), HandshakeState::Idle);
    assert_eq!(sender.poll(0), Ok(SenderStep::SendProbe));
    assert_eq!(sender.handshake_state(), HandshakeState::AwaitingAck);
    assert!(!sender.on_reply(b"HELLO"));
    assert_eq!(sender.poll(4), Ok(SenderStep::SendProbe));
    assert!(sender.on_reply(b"CONNECTED"));
    assert_eq!(sender.handshake_state(), HandshakeState::Established);
    assert_eq!(sender.poll(100), Ok(SenderStep::Stream));
    assert!(sender.on_reply(b"anything"));
}

#[test]
fn sender_times_out() {
    let mut sender = Windows::new("10.0.0.1", 4, 4);
    assert_eq!(sender.poll(0), Ok(SenderStep::SendProbe));
    assert_eq!(sender.poll(4), Ok(SenderStep::SendProbe));
    assert_eq!(sender.poll(5), Err(ProtocolError::HandshakeTimeout));
    assert_eq!(sender.handshake_state(), HandshakeState::Idle);
    assert_eq!(sender.poll(u64::MAX), Err(ProtocolError::HandshakeTimeout));
    assert!(!sender.on_reply(b"CONNECTED"));
}

fn connected_sender() -> Windows {
    let mut sender = Windows::new("127.0.0.1", 640, 480);
    assert_eq!(sender.poll(0), Ok(SenderStep::SendProbe));
    assert!(sender.on_reply(b"CONNECTED"));
    sender
}

#[test]
fn frame_id_rises_by_one_per_frame() {
    let mut sender = connected_sender();
    assert_eq!(sender.frame_id(), 0);
    let first = sender.send_frame(&sample_frame(4000)).unwrap();
    assert_eq!(first.len(), 3);
    assert_eq!(sender.frame_id(), 1);
    let second = sender.send_frame(&sample_frame(10)).unwrap();
    assert_eq!(second.len(), 1);
    assert_eq!(sender.frame_id(), 2);
    let empty = sender.send_frame(&[]).unwrap();
    assert!(empty.is_empty());
    assert_eq!(sender.frame_id(), 3);
    assert_eq!(ChunkHeader::decode(&first[2]).unwrap().frame_id, 0);
    assert_eq!(ChunkHeader::decode(&second[0]).unwrap().frame_id, 1);
    assert_eq!(first, split_frame(&sample_frame(4000), 0, CHUNK_DATA_SIZE).unwrap());
}

#[test]
fn too_large_frame_keeps_the_frame_id() {
    let mut sender = connected_sender();
    let frame = vec![0u8; 65535 * 1392 + 1];
    assert_eq!(sender.send_frame(&frame), Err(ProtocolError::FrameTooLarge));
    assert_eq!(sender.frame_id(), 0);
    assert_eq!(sender.handshake_state(), HandshakeState::Established);
}

#[test]
fn receiver_waits_for_the_probe() {
    let p = peer(1, 4000);
    let mut receiver = Wsl::new(2, 2);
    assert_eq!(receiver.peer(), None);
    let chunk = datagram(0, 1, 0, &[0u8; 12]);
    assert!(matches!(receiver.on_datagram(p, &chunk), Reaction::Ignored));
    assert!(matches!(receiver.on_datagram(p, b"CONNECTED"), Reaction::Ignored));
    assert_eq!(receiver.peer(), None);
    assert_eq!(receiver.pending_frames(), 0);
    assert!(matches!(receiver.on_datagram(p, b"HELLO"), Reaction::Acknowledge));
    assert_eq!(receiver.peer(), Some(p));
}

#[test]
fn later_probes_change_nothing() {
    let p = peer(1, 4000);
    let q = peer(2, 4000);
    let mut receiver = established(2, 2, p);
    assert!(matches!(
        receiver.on_datagram(p, b"HELLO"),
        Reaction::Chunk(Receipt::Rejected(ProtocolError::MalformedPacket))
    ));
    assert!(matches!(receiver.on_datagram(q, b"HELLO"), Reaction::Foreign));
    assert_eq!(receiver.peer(), Some(p));
    assert_eq!(receiver.pending_frames(), 0);
}

#[test]
fn foreign_peer_is_dropped() {
    let p = peer(1, 4000);
    let mut receiver = established(2, 2, p);
    let frame = sample_frame(12);
    let chunks = split_frame(&frame, 5, 4).unwrap();
    for q in [peer(2, 4000), peer(1, 4001)] {
        for chunk in &chunks {
            assert!(matches!(receiver.on_datagram(q, chunk), Reaction::Foreign));
            assert_eq!(receiver.pending_frames(), 0);
        }
    }
    assert!(matches!(receiver.on_datagram(p, &chunks[0]), Reaction::Chunk(Receipt::Stored)));
    assert!(matches!(receiver.on_datagram(peer(2, 4000), &chunks[1]), Reaction::Foreign));
    assert!(matches!(receiver.on_datagram(p, &chunks[1]), Reaction::Chunk(Receipt::Stored)));
    match receiver.on_datagram(p, &chunks[2]) {
        Reaction::Chunk(Receipt::Delivered(frame_id, data)) => {
            assert_eq!(frame_id, 5);
            assert_eq!(data, frame);
        }
        other => panic!("unexpected reaction {:?}", other),
    }
}

#[test]
fn short_datagram_is_dropped() {
    let p = peer(1, 4000);
    let mut receiver = established(2, 2, p);
    let frame = sample_frame(12);
    let chunks = split_frame(&frame, 5, 6).unwrap();
    assert!(matches!(receiver.on_datagram(p, &chunks[0]), Reaction::Chunk(Receipt::Stored)));
    for len in 0..8usize {
        let short = vec![0u8; len];
        assert!(matches!(
            receiver.on_datagram(p, &short),
            Reaction::Chunk(Receipt::Rejected(ProtocolError::MalformedPacket))
        ));
        assert_eq!(receiver.pending_frames(), 1);
    }
    match receiver.on_datagram(p, &chunks[1]) {
        Reaction::Chunk(Receipt::Delivered(5, data)) => assert_eq!(data, frame),
        other => panic!("unexpected reaction {:?}", other),
    }
    assert_eq!(receiver.pending_frames(), 0);
}

#[test]
fn chunk_index_outside_the_count_is_rejected() {
    let mut table = Reassembler::new(2, 2, 3);
    for (total, index) in [(0u16, 0u16), (3, 3), (3, 65535), (65535, 65535)] {
        let receipt = table.accept(&datagram(1, total, index, &[1, 2, 3]));
        assert!(matches!(receipt, Receipt::Rejected(ProtocolError::InvalidChunkIndex)));
        assert_eq!(table.pending_frames(), 0);
        assert!(!table.is_pending(1));
    }
}

#[test]
fn first_chunk_count_of_a_frame_stays() {
    let mut table = Reassembler::new(1, 1, 3);
    let first = ChunkHeader { frame_id: 4, total_chunks: 3, chunk_index: 0 };
    let other = ChunkHeader { frame_id: 4, total_chunks: 5, chunk_index: 1 };
    assert!(!table.conflicts(&first));
    assert!(matches!(table.accept(&build_datagram(&first, &[1])), Receipt::Stored));
    assert!(!table.conflicts(&first));
    assert!(table.conflicts(&other));
    assert!(matches!(table.accept(&build_datagram(&other, &[2])), Receipt::Stored));
    assert!(matches!(
        table.accept(&datagram(4, 5, 4, &[9])),
        Receipt::Rejected(ProtocolError::InvalidChunkIndex)
    ));
    assert!(matches!(
        table.accept(&datagram(4, 5, 3, &[9])),
        Receipt::Rejected(ProtocolError::InvalidChunkIndex)
    ));
    match table.accept(&datagram(4, 5, 2, &[3])) {
        Receipt::Delivered(4, data) => assert_eq!(data, vec![1, 2, 3]),
        other => panic!("unexpected receipt {:?}", other),
    }
    assert!(!table.is_pending(4));
}

#[test]
fn wrong_length_discards_the_frame() {
    let mut table = Reassembler::new(2, 2, 3);
    assert!(matches!(table.accept(&datagram(1, 2, 0, &[0u8; 6])), Receipt::Stored));
    assert!(table.is_pending(1));
    assert!(matches!(
        table.accept(&datagram(1, 2, 1, &[0u8; 5])),
        Receipt::Rejected(ProtocolError::ReassembledSizeMismatch)
    ));
    assert!(!table.is_pending(1));
    assert_eq!(table.pending_frames(), 0);
    assert!(matches!(table.accept(&datagram(1, 2, 1, &[0u8; 6])), Receipt::Stored));
    assert!(matches!(table.accept(&datagram(1, 2, 0, &[1u8; 6])), Receipt::Delivered(1, _)));
}

#[test]
fn frame_length_is_width_times_height_times_channels() {
    assert!(Reassembler::new(640, 480, 3).is_frame_len(921600));
    assert!(!Reassembler::new(640, 480, 3).is_frame_len(921599));
    assert!(Reassembler::new(0, 480, 3).is_frame_len(0));
    assert!(!Reassembler::new(0, 480, 3).is_frame_len(1));
    assert!(Reassembler::new(usize::MAX, 0, usize::MAX).is_frame_len(0));
    assert!(!Reassembler::new(usize::MAX, 2, 1).is_frame_len(usize::MAX - 1));
    assert!(!Reassembler::new(usize::MAX, 1, 2).is_frame_len(usize::MAX - 1));
    assert!(Reassembler::new(usize::MAX, 1, 1).is_frame_len(usize::MAX));
}

#[test]
fn single_chunk_frame_is_delivered_at_once() {
    let p = peer(1, 4000);
    let mut receiver = established(1, 1, p);
    match receiver.on_datagram(p, &datagram(77, 1, 0, &[1, 2, 3])) {
        Reaction::Chunk(Receipt::Delivered(77, data)) => assert_eq!(data, vec![1, 2, 3]),
        other => panic!("unexpected reaction {:?}", other),
    }
    assert_eq!(receiver.pending_frames(), 0);
}

#[test]
fn entry_counts_distinct_chunks() {
    let mut entry = ReassemblyEntry::new(3);
    assert_eq!(entry.expected_total_chunks(), 3);
    assert_eq!(entry.received_count(), 0);
    assert!(!entry.is_filled(0) && !entry.is_filled(1) && !entry.is_filled(2));
    assert!(!entry.is_complete());
    assert_eq!(entry.assemble(), Vec::<u8>::new());
    entry.fill(2, vec![5, 6]);
    assert!(entry.is_filled(2));
    assert!(!entry.is_filled(0));
    assert_eq!(entry.received_count(), 1);
    assert_eq!(entry.assemble(), vec![5, 6]);
    entry.fill(0, vec![1, 2]);
    entry.fill(1, vec![3, 4]);
    assert!(entry.is_complete());
    assert_eq!(entry.assemble(), vec![1, 2, 3, 4, 5, 6]);
}

fn permutations(n: usize) -> Vec<Vec<usize>> {
    if n == 0 {
        return vec![vec![]];
    }
    let mut all = Vec::new();
    for shorter in permutations(n - 1) {
        for at in 0..n {
            let mut longer = shorter.clone();
            longer.insert(at, n - 1);
            all.push(longer);
        }
    }
    all
}

#[test]
fn every_order_yields_the_same_frame() {
    let frame = sample_frame(3 * 4 * 3);
    let chunks = split_frame(&frame, 11, 8).unwrap();
    assert_eq!(chunks.len(), 5);
    let orders = permutations(5);
    assert_eq!(orders.len(), 120);
    for order in orders {
        let mut table = Reassembler::new(3, 4, 3);
        for (sent, &index) in order.iter().enumerate() {
            let receipt = table.accept(&chunks[index]);
            if sent < 4 {
                assert!(matches!(receipt, Receipt::Stored));
                assert!(table.is_pending(11));
            } else {
                match receipt {
                    Receipt::Delivered(11, data) => assert_eq!(data, frame),
                    other => panic!("unexpected receipt {:?}", other),
                }
                assert!(!table.is_pending(11));
            }
        }
    }
}

#[test]
fn duplicates_change_nothing() {
    let frame = sample_frame(12);
    let chunks = split_frame(&frame, 3, 5).unwrap();
    let mut table = Reassembler::new(2, 2, 3);
    assert!(matches!(table.accept(&chunks[1]), Receipt::Stored));
    for _ in 0..5 {
        assert!(matches!(table.accept(&chunks[1]), Receipt::Duplicate));
        assert_eq!(table.pending_frames(), 1);
    }
    let mut other_payload = chunks[1].clone();
    other_payload[8] ^= 0xff;
    assert!(matches!(table.accept(&other_payload), Receipt::Duplicate));
    assert!(matches!(table.accept(&chunks[2]), Receipt::Stored));
    assert!(matches!(table.accept(&chunks[2]), Receipt::Duplicate));
    assert!(matches!(table.accept(&chunks[1]), Receipt::Duplicate));
    match table.accept(&chunks[0]) {
        Receipt::Delivered(3, data) => assert_eq!(data, frame),
        other => panic!("unexpected receipt {:?}", other),
    }
}

#[test]
fn a_lost_chunk_blocks_delivery() {
    let frame = sample_frame(30);
    let chunks = split_frame(&frame, 8, 4).unwrap();
    assert_eq!(chunks.len(), 8);
    for lost in 0..8usize {
        let mut table = Reassembler::new(2, 5, 3);
        for round in 0..3 {
            for (index, chunk) in chunks.iter().enumerate().rev() {
                if index == lost {
                    continue;
                }
                let receipt = table.accept(chunk);
                if round == 0 {
                    assert!(matches!(receipt, Receipt::Stored));
                } else {
                    assert!(matches!(receipt, Receipt::Duplicate));
                }
            }
        }
        assert!(table.is_pending(8));
        assert_eq!(table.pending_frames(), 1);
    }
}

#[test]
fn frames_are_reassembled_side_by_side() {
    let one = sample_frame(12);
    let two: Vec<u8> = sample_frame(12).iter().map(|b| b ^ 0x5a).collect();
    let first = split_frame(&one, 1, 5).unwrap();
    let second = split_frame(&two, 2, 5).unwrap();
    let mut table = Reassembler::new(2, 2, 3);
    assert!(matches!(table.accept(&first[0]), Receipt::Stored));
    assert!(matches!(table.accept(&second[2]), Receipt::Stored));
    assert!(matches!(table.accept(&second[0]), Receipt::Stored));
    assert_eq!(table.pending_frames(), 2);
    assert!(matches!(table.accept(&first[2]), Receipt::Stored));
    match table.accept(&second[1]) {
        Receipt::Delivered(2, data) => assert_eq!(data, two),
        other => panic!("unexpected receipt {:?}", other),
    }
    assert_eq!(table.pending_frames(), 1);
    match table.accept(&first[1]) {
        Receipt::Delivered(1, data) => assert_eq!(data, one),
        other => panic!("unexpected receipt {:?}", other),
    }
    assert_eq!(table.pending_frames(), 0);
}

#[test]
fn round_trip_of_a_vga_frame() {
    let width = 640usize;
    let height = 480usize;
    let frame = sample_frame(width * height * CHANNEL_COUNT);
    assert_eq!(frame.len(), 921600);
    let mut sender = connected_sender();
    let chunks = sender.send_frame(&frame).unwrap();
    assert_eq!(chunks.len(), 663);

    let mut order: Vec<usize> = (0..chunks.len()).collect();
    let mut seed: u64 = 0x2545_f491_4f6c_dd1d;
    for at in (1..order.len()).rev() {
        seed ^= seed << 13;
        seed ^= seed >> 7;
        seed ^= seed << 17;
        order.swap(at, (seed % (at as u64 + 1)) as usize);
    }
    let mut arrivals: Vec<usize> = Vec::new();
    for (sent, &index) in order.iter().enumerate() {
        arrivals.push(index);
        if sent % 3 == 2 && sent + 1 < order.len() {
            arrivals.push(index);
        }
    }
    assert_eq!(arrivals.len(), 663 + 220);

    let p = peer(9, 50000);
    let mut receiver = established(width, height, p);
    let mut delivered: Vec<Vec<u8>> = Vec::new();
    for &index in &arrivals {
        match receiver.on_datagram(p, &chunks[index]) {
            Reaction::Chunk(Receipt::Delivered(frame_id, data)) => {
                assert_eq!(frame_id, 0);
                delivered.push(data);
            }
            Reaction::Chunk(Receipt::Stored) | Reaction::Chunk(Receipt::Duplicate) => {}
            other => panic!("unexpected reaction {:?}", other),
        }
    }
    assert_eq!(delivered.len(), 1);
    assert_eq!(delivered[0].len(), width * height * CHANNEL_COUNT);
    assert!(delivered[0] == frame);
    assert_eq!(receiver.pending_frames(), 0);
}

#[test]
fn error_messages() {
    assert_eq!(ProtocolError::HandshakeTimeout.message(), "handshake timed out");
    assert_eq!(ProtocolError::MalformedPacket.message(), "malformed packet");
    assert_eq!(ProtocolError::InvalidChunkIndex.message(), "invalid chunk index");
    assert_eq!(ProtocolError::ReassembledSizeMismatch.message(), "reassembled size mismatch");
    assert_eq!(ProtocolError::FrameTooLarge.message(), "frame too large");
}

#[test]
fn a_run_of_datagrams_gets_one_receipt_each() {
    let frame = sample_frame(12);
    let chunks = split_frame(&frame, 6, 5).unwrap();
    let run = vec![
        chunks[2].clone(),
        vec![1, 2, 3],
        chunks[2].clone(),
        chunks[0].clone(),
        datagram(6, 3, 3, &[]),
        chunks[1].clone(),
        chunks[1].clone(),
    ];
    let mut table = Reassembler::new(2, 2, 3);
    let receipts = table.accept_all(&run);
    assert_eq!(receipts.len(), 7);
    assert!(matches!(receipts[0], Receipt::Stored));
    assert!(matches!(receipts[1], Receipt::Rejected(ProtocolError::MalformedPacket)));
    assert!(matches!(receipts[2], Receipt::Duplicate));
    assert!(matches!(receipts[3], Receipt::Stored));
    assert!(matches!(receipts[4], Receipt::Rejected(ProtocolError::InvalidChunkIndex)));
    match &receipts[5] {
        Receipt::Delivered(6, data) => assert_eq!(data, &frame),
        other => panic!("unexpected receipt {:?}", other),
    }
    assert!(matches!(receipts[6], Receipt::Stored));
    assert!(table.is_pending(6));
    assert!(table.accept_all(&Vec::new()).is_empty());
}

#[test]
fn receiver_reports_a_changed_chunk_count() {
    let p = peer(1, 4000);
    let mut receiver = established(1, 1, p);
    let first = ChunkHeader { frame_id: 4, total_chunks: 3, chunk_index: 0 };
    let other = ChunkHeader { frame_id: 4, total_chunks: 5, chunk_index: 1 };
    assert!(!receiver.conflicts(&other));
    assert!(matches!(
        receiver.on_datagram(p, &build_datagram(&first, &[1])),
        Reaction::Chunk(Receipt::Stored)
    ));
    assert!(receiver.conflicts(&other));
    assert!(!receiver.conflicts(&first));
}

#[test]
fn frame_id_wraps_after_the_highest() {
    let mut sender = Windows::starting_at("127.0.0.1", 2, 2, u32::MAX - 1);
    assert_eq!(sender.poll(0), Ok(SenderStep::SendProbe));
    assert!(sender.on_reply(b"CONNECTED"));
    assert_eq!(sender.frame_id(), u32::MAX - 1);
    let first = sender.send_frame(&[1, 2, 3]).unwrap();
    assert_eq!(ChunkHeader::decode(&first[0]).unwrap().frame_id, u32::MAX - 1);
    assert_eq!(sender.frame_id(), u32::MAX);
    let second = sender.send_frame(&[1, 2, 3]).unwrap();
    assert_eq!(ChunkHeader::decode(&second[0]).unwrap().frame_id, u32::MAX);
    assert_eq!(sender.frame_id(), 0);
    let third = sender.send_frame(&[1, 2, 3]).unwrap();
    assert_eq!(ChunkHeader::decode(&third[0]).unwrap().frame_id, 0);
    assert_eq!(sender.frame_id(), 1);
}

#[test]
fn receiver_states() {
    let p = peer(3, 1);
    let mut receiver = Wsl::new(1, 1);
    assert_eq!(receiver.handshake_state(), HandshakeState::Idle);
    assert!(matches!(receiver.on_datagram(p, b"HELLO"), Reaction::Acknowledge));
    assert_eq!(receiver.handshake_state(), HandshakeState::Established);
}

#[test]
fn sender_with_a_timeout_of_its_own() {
    let mut sender = Windows::new("10.0.0.1", 4, 4);
    assert_eq!(sender.poll_within(9, 10), Ok(SenderStep::SendProbe));
    assert_eq!(sender.handshake_state(), HandshakeState::AwaitingAck);
    assert_eq!(sender.poll_within(10, 10), Err(ProtocolError::HandshakeTimeout));
    assert_eq!(sender.handshake_state(), HandshakeState::Idle);
    assert_eq!(sender.poll_within(0, 0), Err(ProtocolError::HandshakeTimeout));
    assert_eq!(sender.poll_within(0, 1), Ok(SenderStep::SendProbe));
    assert!(sender.on_reply(b"CONNECTED"));
    assert_eq!(sender.poll_within(100, 0), Ok(SenderStep::Stream));
}
