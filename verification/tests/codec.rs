use tmt::synch::{decode_synchsafe, encode_synchsafe};
use tmt::tag::{EncodedString, FrameContent, FrameRec, Tag, TagParseError, TextEncoding};
use tmt::v2::{decode_v2, encode_frame, encode_tag, remove_unsync_vec};

fn text_frame(id: [u8; 4], enc: TextEncoding, data: &[u8]) -> FrameRec {
    FrameRec { id, content: FrameContent::Text(EncodedString { encoding: enc, data: data.to_vec() }) }
}

fn sample_tag() -> Tag {
    Tag {
        frames: vec![
            text_frame(*b"TPE1", TextEncoding::Latin1, b"Fugazi"),
            text_frame(*b"TALB", TextEncoding::Utf8, b"Repeater"),
            FrameRec { id: *b"PRIV", content: FrameContent::Binary(vec![0, 1, 2, 255, 0, 7]) },
            FrameRec {
                id: *b"COMM",
                content: FrameContent::Comment {
                    encoding: TextEncoding::Latin1,
                    lang: *b"eng",
                    desc: b"note".to_vec(),
                    text: b"first press".to_vec(),
                },
            },
        ],
    }
}

#[test]
fn synchsafe_roundtrip_values() {
    for &n in &[0u32, 1, 127, 128, 0x3FFF, 0x4000, 0x0FFF_FFFF] {
        let b = encode_synchsafe(n);
        assert!(b.iter().all(|&x| x < 0x80));
        assert_eq!(decode_synchsafe(b[0], b[1], b[2], b[3]), n);
    }
    assert_eq!(encode_synchsafe(0x0FFF_FFFF), [0x7f, 0x7f, 0x7f, 0x7f]);
    assert_eq!(encode_synchsafe(257), [0, 0, 2, 1]);
}

#[test]
fn encode_decode_roundtrip_preserves_frames_and_order() {
    let tag = sample_tag();
    let bytes = encode_tag(&tag).expect("tag fits");
    let (hdr, back) = decode_v2(&bytes).expect("decodes");
    assert_eq!(hdr.major, 4);
    assert!(!hdr.unsync && !hdr.extended && !hdr.footer);
    assert_eq!(back.frames, tag.frames);
}

#[test]
fn header_size_matches_frame_stream_length() {
    let tag = sample_tag();
    let bytes = encode_tag(&tag).expect("tag fits");
    let declared = decode_synchsafe(bytes[6], bytes[7], bytes[8], bytes[9]);
    assert_eq!(declared as usize, bytes.len() - 10);
}

#[test]
fn empty_tag_roundtrip() {
    let tag = Tag { frames: Vec::new() };
    let bytes = encode_tag(&tag).expect("empty tag fits");
    assert_eq!(bytes.len(), 10);
    let (_hdr, back) = decode_v2(&bytes).expect("decodes");
    assert!(back.frames.is_empty());
}

#[test]
fn text_list_roundtrip() {
    let tag = Tag {
        frames: vec![FrameRec {
            id: *b"TPE1",
            content: FrameContent::TextList {
                encoding: TextEncoding::Utf8,
                parts: vec![b"Ian".to_vec(), b"Guy".to_vec()],
            },
        }],
    };
    let bytes = encode_tag(&tag).expect("fits");
    let (_h, back) = decode_v2(&bytes).expect("decodes");
    assert_eq!(back.frames, tag.frames);
}

#[test]
fn numeric_frame_decodes_as_text() {
    let tag = Tag {
        frames: vec![FrameRec { id: *b"TRCK", content: FrameContent::Numeric(12) }],
    };
    let bytes = encode_tag(&tag).expect("fits");
    let (_h, back) = decode_v2(&bytes).expect("decodes");
    assert_eq!(
        back.frames,
        vec![text_frame(*b"TRCK", TextEncoding::Latin1, b"12")]
    );
}

#[test]
fn padding_region_halts_without_error() {
    let tag = sample_tag();
    let mut bytes = encode_tag(&tag).expect("fits");
    // Declare four more bytes and fill them with zeros: a padding region.
    let new_size = (bytes.len() - 10 + 4) as u32;
    let sz = encode_synchsafe(new_size);
    bytes[6..10].copy_from_slice(&sz);
    bytes.extend_from_slice(&[0, 0, 0, 0]);
    let (_h, back) = decode_v2(&bytes).expect("padding is not an error");
    assert_eq!(back.frames, tag.frames);
}

#[test]
fn truncated_frame_is_an_error() {
    // A well-formed header declaring 12 bytes, then a frame claiming 0x200
    // content bytes where only 2 remain.
    let mut bytes = vec![b'I', b'D', b'3', 4, 0, 0, 0, 0, 0, 12];
    bytes.extend_from_slice(b"TIT2");
    bytes.extend_from_slice(&[0, 0, 0x04, 0x00]); // synchsafe 0x200
    bytes.extend_from_slice(&[0, 0]); // frame flags
    bytes.extend_from_slice(&[3, b'x']);
    assert_eq!(decode_v2(&bytes), Err(TagParseError::TruncatedFrame));
}

#[test]
fn declared_size_beyond_source_is_truncated() {
    let bytes = vec![b'I', b'D', b'3', 4, 0, 0, 0, 0, 1, 0];
    assert_eq!(decode_v2(&bytes), Err(TagParseError::TruncatedFrame));
}

#[test]
fn missing_marker_is_not_present() {
    assert_eq!(decode_v2(b"RIFFxxxxxxxx"), Err(TagParseError::NotPresent));
    assert_eq!(decode_v2(b"ID"), Err(TagParseError::NotPresent));
}

#[test]
fn unknown_major_version_is_unsupported() {
    let bytes = vec![b'I', b'D', b'3', 5, 0, 0, 0, 0, 0, 0];
    assert_eq!(decode_v2(&bytes), Err(TagParseError::UnsupportedVersion));
    let bytes = vec![b'I', b'D', b'3', 2, 0, 0, 0, 0, 0, 0];
    assert_eq!(decode_v2(&bytes), Err(TagParseError::UnsupportedVersion));
}

#[test]
fn bad_encoding_marker_is_malformed() {
    let mut bytes = vec![b'I', b'D', b'3', 4, 0, 0, 0, 0, 0, 11];
    bytes.extend_from_slice(b"TIT2");
    bytes.extend_from_slice(&[0, 0, 0, 1]);
    bytes.extend_from_slice(&[0, 0]);
    bytes.push(9); // no such text encoding
    assert_eq!(decode_v2(&bytes), Err(TagParseError::MalformedFrame));
}

#[test]
fn invalid_frame_identifier_is_malformed() {
    let mut bytes = vec![b'I', b'D', b'3', 4, 0, 0, 0, 0, 0, 10];
    bytes.extend_from_slice(b"ti!2");
    bytes.extend_from_slice(&[0, 0, 0, 0]);
    bytes.extend_from_slice(&[0, 0]);
    assert_eq!(decode_v2(&bytes), Err(TagParseError::MalformedFrame));
}

#[test]
fn v23_frame_sizes_are_plain_big_endian() {
    // An ID3v2.3 tag: header size still synchsafe, frame size plain.
    let content: &[u8] = &[0, b'O', b'k']; // ISO-8859-1 "Ok"
    let mut bytes = vec![b'I', b'D', b'3', 3, 0, 0, 0, 0, 0, 13];
    bytes.extend_from_slice(b"TIT2");
    bytes.extend_from_slice(&[0, 0, 0, 3]); // big-endian 3
    bytes.extend_from_slice(&[0, 0]);
    bytes.extend_from_slice(content);
    let (hdr, tag) = decode_v2(&bytes).expect("decodes");
    assert_eq!(hdr.major, 3);
    assert_eq!(tag.frames, vec![text_frame(*b"TIT2", TextEncoding::Latin1, b"Ok")]);
}

#[test]
fn unsynchronisation_is_reversed() {
    assert_eq!(remove_unsync_vec(&[0xff, 0x00, 0xe0, 1, 0xff, 0x00]), vec![0xff, 0xe0, 1, 0xff]);
    assert_eq!(remove_unsync_vec(&[0xff, 1, 0x00]), vec![0xff, 1, 0x00]);
    // A whole tag with the unsynchronisation flag set: the stuffed zero
    // after 0xFF disappears before frame parsing.
    let content: &[u8] = &[0, 0xff, 0x00, 0xe1]; // becomes [0, 0xff, 0xe1]
    let mut bytes = vec![b'I', b'D', b'3', 4, 0, 0x80, 0, 0, 0, 14];
    bytes.extend_from_slice(b"TXXX");
    bytes.extend_from_slice(&[0, 0, 0, 3]);
    bytes.extend_from_slice(&[0, 0]);
    bytes.extend_from_slice(content);
    let (hdr, tag) = decode_v2(&bytes).expect("decodes");
    assert!(hdr.unsync);
    assert_eq!(
        tag.frames,
        vec![text_frame(*b"TXXX", TextEncoding::Latin1, &[0xff, 0xe1])]
    );
}

#[test]
fn extended_header_is_skipped() {
    // A v2.4 extended header of six bytes (its minimum), then one frame.
    let mut bytes = vec![b'I', b'D', b'3', 4, 0, 0x40, 0, 0, 0, 19];
    bytes.extend_from_slice(&[0, 0, 0, 6, 1, 0]); // ext size 6, counted whole
    bytes.extend_from_slice(b"TIT2");
    bytes.extend_from_slice(&[0, 0, 0, 3]);
    bytes.extend_from_slice(&[0, 0]);
    bytes.extend_from_slice(&[0, b'H', b'i']);
    let (hdr, tag) = decode_v2(&bytes).expect("decodes");
    assert!(hdr.extended);
    assert_eq!(tag.frames, vec![text_frame(*b"TIT2", TextEncoding::Latin1, b"Hi")]);
}

#[test]
fn utf16_text_keeps_interior_zero_bytes() {
    // UTF-16LE "A" is 0x41 0x00: the zero is code-unit data, not a
    // terminator, and survives the round trip.
    let bom_a: &[u8] = &[0xff, 0xfe, 0x41, 0x00];
    let tag = Tag { frames: vec![text_frame(*b"TIT2", TextEncoding::Utf16, bom_a)] };
    let bytes = encode_tag(&tag).expect("fits");
    let (_h, back) = decode_v2(&bytes).expect("decodes");
    assert_eq!(back.frames, tag.frames);
}

#[test]
fn decode_encode_decode_is_idempotent() {
    // A v2.3 tag with padding: decoding, re-encoding as v2.4 and decoding
    // again keeps the same logical content.
    let mut bytes = vec![b'I', b'D', b'3', 3, 0, 0, 0, 0, 0, 17];
    bytes.extend_from_slice(b"TPE1");
    bytes.extend_from_slice(&[0, 0, 0, 3]);
    bytes.extend_from_slice(&[0, 0]);
    bytes.extend_from_slice(&[0, b'Q', b'B']);
    bytes.extend_from_slice(&[0, 0, 0, 0]); // padding
    let (_h1, tag1) = decode_v2(&bytes).expect("decodes");
    let again = encode_tag(&tag1).expect("fits");
    let (h2, tag2) = decode_v2(&again).expect("decodes again");
    assert_eq!(h2.major, 4);
    assert_eq!(tag2.frames, tag1.frames);
}

#[test]
fn oversize_frame_content_cannot_be_encoded() {
    // One byte past what a four-byte synchsafe size field can carry.
    let frame = FrameRec {
        id: *b"PRIV",
        content: FrameContent::Binary(vec![0u8; 0x1000_0000]),
    };
    assert!(encode_frame(&frame).is_none());
}

#[test]
fn trailing_terminators_are_stripped_on_decode() {
    let mut bytes = vec![b'I', b'D', b'3', 4, 0, 0, 0, 0, 0, 15];
    bytes.extend_from_slice(b"TPE1");
    bytes.extend_from_slice(&[0, 0, 0, 5]);
    bytes.extend_from_slice(&[0, 0]);
    bytes.extend_from_slice(&[3, b'Q', b'B', 0, 0]); // two trailing nulls
    let (_h, tag) = decode_v2(&bytes).expect("decodes");
    assert_eq!(tag.frames, vec![text_frame(*b"TPE1", TextEncoding::Utf8, b"QB")]);
}
