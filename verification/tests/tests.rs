use minilz4::BlockMode;
use minilz4::BlockSize;
use minilz4::ContentChecksum;
use minilz4::Decode;
use minilz4::Decoder;
use minilz4::Encode;
use minilz4::EncoderBuilder;
use minilz4::Error;
use minilz4::Fault;

fn read_to_end(decoder: &mut Decoder) -> Vec<u8> {
    let mut decoded = Vec::new();
    loop {
        let got = decoder.read(1024).unwrap();
        if got.is_empty() {
            break;
        }
        decoded.extend_from_slice(&got);
    }
    decoded
}

#[test]
fn encode_writer() {
    let data = "Blushing is the color of virtue.";
    let mut encoder = EncoderBuilder::new().build(Vec::new()).unwrap();
    encoder.write(data.as_bytes()).unwrap();
    let encoded = encoder.finish().unwrap();

    assert_eq!(encoded[0..10], [4, 34, 77, 24, 68, 64, 94, 32, 0, 0,]);
}

#[test]
fn encode_method() {
    let data = "Blushing is the color of virtue.";
    let encoded = EncoderBuilder::new().encode(data.as_bytes()).unwrap();

    assert_eq!(encoded[0..10], [4, 34, 77, 24, 68, 64, 94, 32, 0, 0,]);
}

#[test]
fn encode_trait() {
    let data = "Blushing is the color of virtue.";
    let encoded = data.as_bytes().to_vec().encode(&EncoderBuilder::new()).unwrap();

    assert_eq!(encoded[0..10], [4, 34, 77, 24, 68, 64, 94, 32, 0, 0,]);
}

#[test]
fn decode_writer() {
    let data = vec![
        4, 34, 77, 24, 68, 64, 94, 32, 0, 0, 128, 66, 108, 117, 115, 104, 105, 110, 103, 32, 105,
        115, 32, 116, 104, 101, 32, 99, 111, 108, 111, 114, 32, 111, 102, 32, 118, 105, 114, 116,
        117, 101, 46, 0, 0, 0, 0, 5, 212, 231, 133,
    ];
    let mut decoder = Decoder::new(data).unwrap();
    let decoded = read_to_end(&mut decoder);

    assert_eq!(
        std::str::from_utf8(&decoded).unwrap(),
        "Blushing is the color of virtue."
    );
}

#[test]
fn decode_method() {
    let data = vec![
        4, 34, 77, 24, 68, 64, 94, 32, 0, 0, 128, 66, 108, 117, 115, 104, 105, 110, 103, 32, 105,
        115, 32, 116, 104, 101, 32, 99, 111, 108, 111, 114, 32, 111, 102, 32, 118, 105, 114, 116,
        117, 101, 46, 0, 0, 0, 0, 5, 212, 231, 133,
    ];
    let decoded = Decoder::new(data).unwrap().decode().unwrap();

    assert_eq!(
        std::str::from_utf8(&decoded).unwrap(),
        "Blushing is the color of virtue."
    );
}

#[test]
fn decode_trait() {
    let data = vec![
        4, 34, 77, 24, 68, 64, 94, 32, 0, 0, 128, 66, 108, 117, 115, 104, 105, 110, 103, 32, 105,
        115, 32, 116, 104, 101, 32, 99, 111, 108, 111, 114, 32, 111, 102, 32, 118, 105, 114, 116,
        117, 101, 46, 0, 0, 0, 0, 5, 212, 231, 133,
    ];
    let decoded = data.decode().unwrap();
    assert_eq!(
        std::str::from_utf8(&decoded).unwrap(),
        "Blushing is the color of virtue."
    );
}

#[test]
fn equivalence() {
    let data = "Blushing is the color of virtue.";
    let encoded = data.as_bytes().to_vec().encode(&EncoderBuilder::new()).unwrap();
    let decoded = encoded.decode().unwrap();

    assert_eq!(data, std::str::from_utf8(&decoded).unwrap());
}

/// A deterministic, mildly compressible payload.
fn payload(len: usize) -> Vec<u8> {
    let mut v = Vec::with_capacity(len);
    let mut state: u32 = 0x12345678;
    for i in 0..len {
        if i % 7 < 3 {
            v.push((i % 251) as u8);
        } else {
            state = state.wrapping_mul(1664525).wrapping_add(1013904223);
            v.push((state >> 24) as u8);
        }
    }
    v
}

#[test]
fn roundtrip_all_configurations() {
    let sizes = [
        BlockSize::Default,
        BlockSize::Max64KB,
        BlockSize::Max256KB,
        BlockSize::Max1MB,
        BlockSize::Max4MB,
    ];
    let modes = [BlockMode::Linked, BlockMode::Independent];
    let checks = [ContentChecksum::ChecksumEnabled, ContentChecksum::NoChecksum];
    let flushes = [false, true];
    let favors = [false, true];
    let data = payload(70000);
    let empty: Vec<u8> = Vec::new();
    for bs in sizes {
        for bm in modes {
            for cc in checks {
                for af in flushes {
                    for fd in favors {
                        let builder = EncoderBuilder::new()
                            .block_size(bs)
                            .block_mode(bm)
                            .checksum(cc)
                            .auto_flush(af)
                            .favor_dec_speed(fd);
                        let encoded = builder.encode(&data).unwrap();
                        let decoded = encoded.decode().unwrap();
                        assert_eq!(decoded, data);
                        let encoded_empty = builder.encode(&empty).unwrap();
                        let decoded_empty = encoded_empty.decode().unwrap();
                        assert_eq!(decoded_empty, empty);
                    }
                }
            }
        }
    }
}

#[test]
fn chunked_writes_match_single_write() {
    let data = payload(150000);
    let whole = EncoderBuilder::new().encode(&data).unwrap();

    for parts in [2usize, 7, 64] {
        let mut encoder = EncoderBuilder::new().build(Vec::new()).unwrap();
        let step = data.len() / parts + 1;
        let mut off = 0;
        while off < data.len() {
            let end = (off + step).min(data.len());
            let accepted = encoder.write(&data[off..end]).unwrap();
            assert_eq!(accepted, end - off);
            off = end;
        }
        let encoded = encoder.finish().unwrap();
        assert_eq!(encoded, whole);
    }
}

#[test]
fn truncation_detected_by_finish() {
    let data = payload(200000);
    let encoded = EncoderBuilder::new().encode(&data).unwrap();

    for cut in [0usize, 1, 4, 6, 10, 100, encoded.len() / 2, encoded.len() - 1] {
        let mut decoder = Decoder::new(encoded[..cut].to_vec()).unwrap();
        let decoded = read_to_end(&mut decoder);
        assert!(decoded.len() <= data.len());
        match decoder.finish() {
            Err(Error::IncompleteStream) => {}
            other => panic!("expected IncompleteStream, got {:?}", other.map(|_| ())),
        }
    }

    let mut decoder = Decoder::new(encoded.clone()).unwrap();
    let decoded = read_to_end(&mut decoder);
    assert_eq!(decoded, data);
    let back = decoder.finish().unwrap();
    assert_eq!(back, encoded);
}

#[test]
fn destination_buffer_sizes_agree() {
    let data = payload(100000);
    let encoded = EncoderBuilder::new().encode(&data).unwrap();

    let mut by_one = Vec::new();
    let mut decoder = Decoder::new(encoded.clone()).unwrap();
    loop {
        let got = decoder.read(1).unwrap();
        if got.is_empty() {
            break;
        }
        by_one.extend_from_slice(&got);
    }

    let mut by_32k = Vec::new();
    let mut decoder = Decoder::new(encoded.clone()).unwrap();
    loop {
        let got = decoder.read(32768).unwrap();
        if got.is_empty() {
            break;
        }
        by_32k.extend_from_slice(&got);
    }

    let mut huge = Vec::new();
    let mut decoder = Decoder::new(encoded).unwrap();
    loop {
        let got = decoder.read(10 * 1024 * 1024).unwrap();
        if got.is_empty() {
            break;
        }
        huge.extend_from_slice(&got);
    }

    assert_eq!(by_one, data);
    assert_eq!(by_32k, data);
    assert_eq!(huge, data);
}

#[test]
fn zero_length_calls_are_noops() {
    let mut encoder = EncoderBuilder::new().build(Vec::new()).unwrap();
    assert_eq!(encoder.write(&[]).unwrap(), 0);
    encoder.write(b"abc").unwrap();
    assert_eq!(encoder.write(&[]).unwrap(), 0);
    let encoded = encoder.finish().unwrap();

    let mut decoder = Decoder::new(encoded).unwrap();
    assert_eq!(decoder.read(0).unwrap(), Vec::<u8>::new());
    let decoded = read_to_end(&mut decoder);
    assert_eq!(decoded, b"abc".to_vec());
    assert_eq!(decoder.read(0).unwrap(), Vec::<u8>::new());
    assert_eq!(decoder.read(1024).unwrap(), Vec::<u8>::new());
}

#[test]
fn compressible_payload_shrinks() {
    let data = vec![7u8; 100000];
    let encoded = EncoderBuilder::new().encode(&data).unwrap();
    assert!(encoded.len() < data.len());
    let decoded = encoded.decode().unwrap();
    assert_eq!(decoded, data);
}

#[test]
fn content_checksum_matches_reference_hash() {
    let data = payload(3000);
    let encoded = EncoderBuilder::new().encode(&data).unwrap();
    let expected = twox_hash::XxHash32::oneshot(0, &data);
    let tail = &encoded[encoded.len() - 4..];
    let stored = u32::from_le_bytes([tail[0], tail[1], tail[2], tail[3]]);
    assert_eq!(stored, expected);
}

#[test]
fn header_reflects_configuration() {
    let encoded = EncoderBuilder::new()
        .block_mode(BlockMode::Independent)
        .checksum(ContentChecksum::NoChecksum)
        .block_size(BlockSize::Max1MB)
        .encode(b"x")
        .unwrap();
    let flg = 0x60u8;
    let bd = 0x60u8;
    let hc = (twox_hash::XxHash32::oneshot(0, &[flg, bd]) >> 8) as u8;
    assert_eq!(&encoded[0..7], &[4, 34, 77, 24, flg, bd, hc]);
}

#[test]
fn block_size_bytes() {
    assert_eq!(BlockSize::Default.bytes(), 65536);
    assert_eq!(BlockSize::Max64KB.bytes(), 65536);
    assert_eq!(BlockSize::Max256KB.bytes(), 262144);
    assert_eq!(BlockSize::Max1MB.bytes(), 1048576);
    assert_eq!(BlockSize::Max4MB.bytes(), 4194304);
}

fn expect_fault(stream: Vec<u8>, want: Fault) {
    let mut decoder = Decoder::new(stream).unwrap();
    let mut res = Ok(Vec::new());
    loop {
        res = decoder.read(1024);
        match &res {
            Ok(v) if v.is_empty() => break,
            Ok(_) => continue,
            Err(_) => break,
        }
    }
    match res {
        Err(Error::Codec(f)) => assert_eq!(f, want),
        other => panic!("expected {:?}, got {:?}", want, other.map(|_| ())),
    }
}

fn header_for(flg: u8, bd: u8) -> Vec<u8> {
    let hc = (twox_hash::XxHash32::oneshot(0, &[flg, bd]) >> 8) as u8;
    vec![4, 34, 77, 24, flg, bd, hc]
}

#[test]
fn decoder_faults() {
    expect_fault(vec![1, 2, 3, 4, 0, 0, 0], Fault::WrongMagic);
    expect_fault(header_for(0x84, 0x40), Fault::UnsupportedVersion);
    expect_fault(header_for(0x46, 0x40), Fault::ReservedBitsSet);
    expect_fault(header_for(0x44, 0x41), Fault::ReservedBitsSet);
    expect_fault(header_for(0x44, 0x20), Fault::UnsupportedBlockSize);
    expect_fault(vec![4, 34, 77, 24, 0x44, 0x40, 0], Fault::HeaderChecksumMismatch);

    // A block announcing more payload than the 64 KiB class allows.
    let mut too_large = header_for(0x44, 0x40);
    too_large.extend_from_slice(&(65537u32).to_le_bytes());
    expect_fault(too_large, Fault::BlockTooLarge);

    // A compressed block whose token demands bytes that are not there.
    let mut corrupt = header_for(0x44, 0x40);
    corrupt.extend_from_slice(&(1u32).to_le_bytes());
    corrupt.push(0xF0);
    corrupt.extend_from_slice(&[0, 0, 0, 0]);
    expect_fault(corrupt, Fault::CorruptBlock);

    // A stored block with a wrong per-block checksum.
    let mut bad_bc = header_for(0x54, 0x40);
    bad_bc.extend_from_slice(&(0x80000003u32).to_le_bytes());
    bad_bc.extend_from_slice(b"abc");
    bad_bc.extend_from_slice(&[0, 0, 0, 0]);
    expect_fault(bad_bc, Fault::BlockChecksumMismatch);

    // A good frame whose content checksum was damaged.
    let data = payload(50);
    let mut encoded = EncoderBuilder::new().encode(&data).unwrap();
    let last = encoded.len() - 1;
    encoded[last] = encoded[last].wrapping_add(1);
    expect_fault(encoded, Fault::ContentChecksumMismatch);
}

#[test]
fn skippable_frames_are_skimmed() {
    let data = payload(100);
    let frame = EncoderBuilder::new().encode(&data).unwrap();

    let mut stream = vec![0x50, 0x2A, 0x4D, 0x18];
    stream.extend_from_slice(&(5u32).to_le_bytes());
    stream.extend_from_slice(&[9, 9, 9, 9, 9]);
    stream.extend_from_slice(&frame);
    assert_eq!(stream.decode().unwrap(), data);

    let mut empty_skip = vec![0x5F, 0x2A, 0x4D, 0x18];
    empty_skip.extend_from_slice(&(0u32).to_le_bytes());
    empty_skip.extend_from_slice(&frame);
    assert_eq!(empty_skip.decode().unwrap(), data);

    // A skippable frame whose body is cut short is truncation, not an error.
    let mut cut = vec![0x50, 0x2A, 0x4D, 0x18];
    cut.extend_from_slice(&(100u32).to_le_bytes());
    cut.extend_from_slice(&[1, 2, 3]);
    let mut decoder = Decoder::new(cut).unwrap();
    assert_eq!(read_to_end(&mut decoder), Vec::<u8>::new());
    assert!(matches!(decoder.finish(), Err(Error::IncompleteStream)));
}

fn sized_header(size: u64) -> Vec<u8> {
    let flg = 0x4Cu8;
    let bd = 0x40u8;
    let mut desc = vec![flg, bd];
    desc.extend_from_slice(&size.to_le_bytes());
    let hc = (twox_hash::XxHash32::oneshot(0, &desc) >> 8) as u8;
    let mut header = vec![4, 34, 77, 24];
    header.extend_from_slice(&desc);
    header.push(hc);
    header
}

#[test]
fn declared_content_size_is_checked() {
    let mut good = sized_header(3);
    good.extend_from_slice(&(0x80000003u32).to_le_bytes());
    good.extend_from_slice(b"abc");
    good.extend_from_slice(&[0, 0, 0, 0]);
    good.extend_from_slice(&twox_hash::XxHash32::oneshot(0, b"abc").to_le_bytes());
    assert_eq!(good.decode().unwrap(), b"abc".to_vec());

    let mut wrong = sized_header(5);
    wrong.extend_from_slice(&(0x80000003u32).to_le_bytes());
    wrong.extend_from_slice(b"abc");
    wrong.extend_from_slice(&[0, 0, 0, 0]);
    wrong.extend_from_slice(&twox_hash::XxHash32::oneshot(0, b"abc").to_le_bytes());
    expect_fault(wrong, Fault::ContentSizeMismatch);
}

#[test]
fn block_checksums_accepted() {
    let flg = 0x54u8;
    let bd = 0x40u8;
    let mut stream = header_for(flg, bd);
    stream.extend_from_slice(&(0x80000003u32).to_le_bytes());
    stream.extend_from_slice(b"abc");
    stream.extend_from_slice(&twox_hash::XxHash32::oneshot(0, b"abc").to_le_bytes());
    stream.extend_from_slice(&[0, 0, 0, 0]);
    stream.extend_from_slice(&twox_hash::XxHash32::oneshot(0, b"abc").to_le_bytes());
    let decoded = stream.decode().unwrap();
    assert_eq!(decoded, b"abc".to_vec());
}

#[test]
fn flush_forces_partial_block_out() {
    let mut encoder = EncoderBuilder::new().build(Vec::new()).unwrap();
    encoder.write(b"hello").unwrap();
    encoder.flush().unwrap();
    let encoded = encoder.finish().unwrap();
    let decoded = encoded.decode().unwrap();
    assert_eq!(decoded, b"hello".to_vec());
}

#[test]
fn error_messages_name_the_fault() {
    assert_eq!(
        Error::IncompleteStream.message(),
        "finish called before compressed stream was completely read"
    );
    assert_eq!(Error::Codec(Fault::WrongMagic).message(), "wrong magic number");
}

/// A highly repetitive payload that invites matches reaching across block
/// boundaries in linked mode.
fn repetitive_payload(len: usize) -> Vec<u8> {
    let phrase = b"the quick brown fox jumps over the lazy dog; ";
    let mut v = Vec::with_capacity(len);
    while v.len() < len {
        let take = phrase.len().min(len - v.len());
        v.extend_from_slice(&phrase[..take]);
    }
    v
}

#[test]
fn linked_blocks_roundtrip_across_boundaries() {
    let data = repetitive_payload(300000);
    let encoded = EncoderBuilder::new()
        .block_size(BlockSize::Max64KB)
        .block_mode(BlockMode::Linked)
        .encode(&data)
        .unwrap();
    assert!(encoded.len() < data.len() / 2);
    let decoded = encoded.decode().unwrap();
    assert_eq!(decoded, data);

    let mut by_one = Vec::new();
    let mut decoder = Decoder::new(encoded).unwrap();
    loop {
        let got = decoder.read(1).unwrap();
        if got.is_empty() {
            break;
        }
        by_one.extend_from_slice(&got);
    }
    assert_eq!(by_one, data);
}

#[test]
fn other_decoder_reads_our_frames() {
    for bm in [BlockMode::Linked, BlockMode::Independent] {
        let data = repetitive_payload(200000);
        let encoded = EncoderBuilder::new()
            .block_size(BlockSize::Max64KB)
            .block_mode(bm)
            .encode(&data)
            .unwrap();
        let mut reference = lz4_flex::frame::FrameDecoder::new(std::io::Cursor::new(encoded));
        let mut decoded = Vec::new();
        std::io::Read::read_to_end(&mut reference, &mut decoded).unwrap();
        assert_eq!(decoded, data);
    }
}

#[test]
fn our_decoder_reads_other_frames() {
    for linked in [true, false] {
        let data = repetitive_payload(200000);
        let mut info = lz4_flex::frame::FrameInfo::new();
        info.block_mode = if linked {
            lz4_flex::frame::BlockMode::Linked
        } else {
            lz4_flex::frame::BlockMode::Independent
        };
        info.block_size = lz4_flex::frame::BlockSize::Max64KB;
        info.content_checksum = true;
        let mut reference = lz4_flex::frame::FrameEncoder::with_frame_info(info, Vec::new());
        std::io::Write::write_all(&mut reference, &data).unwrap();
        let encoded = reference.finish().unwrap();
        let decoded = encoded.decode().unwrap();
        assert_eq!(decoded, data);
    }
}

#[test]
fn auto_flush_emits_each_write() {
    let builder = EncoderBuilder::new().auto_flush(true);
    let mut encoder = builder.build(Vec::new()).unwrap();
    encoder.write(b"hello ").unwrap();
    encoder.write(b"world").unwrap();
    let eager = encoder.finish().unwrap();

    let batched = EncoderBuilder::new().encode(b"hello world").unwrap();
    assert_ne!(eager, batched);
    assert_eq!(eager.decode().unwrap(), b"hello world".to_vec());
    assert_eq!(batched.decode().unwrap(), b"hello world".to_vec());
}
