use tmt::bridge::v1_to_v2;
use tmt::cli::{Cli, Command, ReadFields, WriteFields};
use tmt::commands::{
    process_file, read_tag_with_args, write_tag_with_args, FieldView, ProcessOutcome, WriteError,
};
use tmt::resolve::{apply_tag_to_file, resolve, Resolution};
use tmt::tag::{EncodedString, FrameContent, FrameRec, Tag, TagParseError, TextEncoding};
use tmt::v1::{decode_v1, genre_name};
use tmt::v2::{decode_v2, encode_tag};

/// A 128-byte ID3v1 trailer with the given fields.
fn v1_trailer(
    title: &[u8],
    artist: &[u8],
    album: &[u8],
    year: &[u8],
    comment: &[u8],
    track: Option<u8>,
    genre: u8,
) -> Vec<u8> {
    let mut t = vec![0u8; 128];
    t[0..3].copy_from_slice(b"TAG");
    t[3..3 + title.len()].copy_from_slice(title);
    t[33..33 + artist.len()].copy_from_slice(artist);
    t[63..63 + album.len()].copy_from_slice(album);
    t[93..93 + year.len()].copy_from_slice(year);
    t[97..97 + comment.len()].copy_from_slice(comment);
    if let Some(n) = track {
        t[125] = 0;
        t[126] = n;
    }
    t[127] = genre;
    t
}

fn latin1(data: &[u8]) -> EncodedString {
    EncodedString { encoding: TextEncoding::Latin1, data: data.to_vec() }
}

fn read_all_fields() -> ReadFields {
    ReadFields { artist: true, album: true, track: true, title: true, year: true, convert: false }
}

fn no_writes() -> WriteFields {
    WriteFields { artist: None, album: None, track: None, title: None, year: None, convert: false }
}

#[test]
fn v1_fields_read_from_fixed_offsets() {
    let mut audio = b"\xffaudio data".to_vec();
    let trailer = v1_trailer(
        b"Waiting Room",
        b"Fugazi",
        b"13 Songs",
        b"1989",
        b"classic  ",
        Some(1),
        17,
    );
    audio.extend_from_slice(&trailer);
    let v1 = decode_v1(&audio).expect("trailer present");
    assert_eq!(v1.title, b"Waiting Room".to_vec());
    assert_eq!(v1.artist, b"Fugazi".to_vec());
    assert_eq!(v1.album, b"13 Songs".to_vec());
    assert_eq!(v1.year, b"1989".to_vec());
    assert_eq!(v1.comment, b"classic".to_vec());
    assert_eq!(v1.track, Some(1));
    assert_eq!(v1.genre, 17);
}

#[test]
fn v1_track_byte_needs_zero_before_it() {
    // A comment that simply runs through byte 29 keeps its whole text and
    // yields no track number.
    let mut comment = [b'x'; 30];
    comment[28] = b'y';
    comment[29] = b'z';
    let trailer = v1_trailer(b"T", b"A", b"L", b"2001", &comment, None, 0);
    let v1 = decode_v1(&trailer).expect("trailer present");
    assert_eq!(v1.track, None);
    assert_eq!(v1.comment.len(), 30);
}

#[test]
fn short_or_unmarked_source_has_no_v1_tag() {
    assert_eq!(decode_v1(b"TAG too short"), Err(TagParseError::NotPresent));
    let unmarked = vec![7u8; 200];
    assert_eq!(decode_v1(&unmarked), Err(TagParseError::NotPresent));
}

#[test]
fn fallback_resolves_to_v1() {
    let mut audio = b"no v2 marker here".to_vec();
    audio.extend_from_slice(&v1_trailer(b"T", b"Fugazi", b"L", b"1990", b"", None, 255));
    match resolve(&audio).expect("no error") {
        Resolution::V1Found(v1) => {
            assert_eq!(v1.artist, b"Fugazi".to_vec());
        },
        _ => panic!("expected the ID3v1 fallback"),
    }
}

#[test]
fn corrupt_v2_is_not_retried_as_v1() {
    // An ID3 marker whose single frame claims more bytes than the declared
    // size holds, with a perfectly valid ID3v1 trailer behind it: the
    // truncation surfaces, the fallback is not consulted.
    let mut bytes = vec![b'I', b'D', b'3', 4, 0, 0, 0, 0, 0, 12];
    bytes.extend_from_slice(b"TIT2");
    bytes.extend_from_slice(&[0, 0, 0x04, 0x00]);
    bytes.extend_from_slice(&[0, 0]);
    bytes.extend_from_slice(&[3, b'x']);
    bytes.extend_from_slice(&v1_trailer(b"T", b"A", b"L", b"1999", b"", None, 0));
    assert_eq!(decode_v2(&bytes), Err(TagParseError::TruncatedFrame));
    match resolve(&bytes) {
        Err(TagParseError::TruncatedFrame) => {},
        other => panic!("fallback must not run on corruption: {:?}", other),
    }
}

#[test]
fn genre_table_boundaries() {
    assert_eq!(genre_name(0), "Blues");
    assert_eq!(genre_name(17), "Rock");
    assert_eq!(genre_name(147), "Synthpop");
    assert_eq!(genre_name(148), "Unknown");
    assert_eq!(genre_name(255), "Unknown");
}

#[test]
fn bridge_maps_fields_and_omits_absent_ones() {
    let trailer = v1_trailer(b"", b"Fugazi", b"", b"1990", b"", None, 255);
    let v1 = decode_v1(&trailer).expect("trailer present");
    let tag = v1_to_v2(&v1);
    assert_eq!(
        tag.frames,
        vec![
            FrameRec { id: *b"TPE1", content: FrameContent::Text(latin1(b"Fugazi")) },
            FrameRec { id: *b"TYER", content: FrameContent::Text(latin1(b"1990")) },
        ]
    );
}

#[test]
fn bridge_keeps_year_text_and_track_and_genre() {
    let trailer = v1_trailer(b"Title", b"Artist", b"Album", b"0499", b"hey", Some(7), 0);
    let v1 = decode_v1(&trailer).expect("trailer present");
    let tag = v1_to_v2(&v1);
    let ids: Vec<[u8; 4]> = tag.frames.iter().map(|f| f.id).collect();
    assert_eq!(ids, vec![*b"TIT2", *b"TPE1", *b"TALB", *b"TYER", *b"COMM", *b"TRCK", *b"TCON"]);
    // Leading zeros of the year are preserved exactly.
    assert_eq!(tag.frames[3].content, FrameContent::Text(latin1(b"0499")));
    assert_eq!(tag.frames[5].content, FrameContent::Numeric(7));
    assert_eq!(
        tag.frames[6].content,
        FrameContent::Text(EncodedString { encoding: TextEncoding::Utf8, data: b"Blues".to_vec() })
    );
}

#[test]
fn bridge_omits_unparsable_year() {
    let trailer = v1_trailer(b"", b"A", b"", b"19xx", b"", None, 255);
    let v1 = decode_v1(&trailer).expect("trailer present");
    let tag = v1_to_v2(&v1);
    assert!(tag.frames.iter().all(|f| &f.id != b"TYER"));
}

#[test]
fn selective_write_keeps_other_frames_byte_identical() {
    let tag = Tag {
        frames: vec![
            FrameRec { id: *b"TPE1", content: FrameContent::Text(latin1(b"Old Artist")) },
            FrameRec { id: *b"TALB", content: FrameContent::Text(latin1(b"Album")) },
            FrameRec { id: *b"TYER", content: FrameContent::Text(latin1(b"1990")) },
            FrameRec { id: *b"PRIV", content: FrameContent::Binary(vec![9, 8, 7, 0, 0xff]) },
        ],
    };
    let file = encode_tag(&tag).expect("fits");
    let fields = WriteFields { artist: Some(String::from("New")), ..no_writes() };
    let out = write_tag_with_args(&fields, &file).expect("write succeeds");
    let (_h, new_tag) = decode_v2(&out).expect("decodes");
    assert_eq!(new_tag.frames.len(), 4);
    assert_eq!(
        new_tag.frames[0].content,
        FrameContent::Text(EncodedString { encoding: TextEncoding::Utf8, data: b"New".to_vec() })
    );
    assert_eq!(&new_tag.frames[1..], &tag.frames[1..]);
    // Byte-identical re-encoding of the untouched frames: the two encodings
    // agree after their differing first frame (the new byte source then ends
    // in zero padding up to the old tag boundary).
    let old_first_len = 10 + 1 + b"Old Artist".len();
    let new_first_len = 10 + 1 + b"New".len();
    let rest_len = file.len() - 10 - old_first_len;
    assert_eq!(
        &out[10 + new_first_len..10 + new_first_len + rest_len],
        &file[10 + old_first_len..file.len()]
    );
    assert!(out[10 + new_first_len + rest_len..].iter().all(|&b| b == 0));
}

#[test]
fn write_appends_frame_when_absent() {
    let tag = Tag {
        frames: vec![FrameRec { id: *b"TALB", content: FrameContent::Text(latin1(b"Album")) }],
    };
    let file = encode_tag(&tag).expect("fits");
    let fields = WriteFields { title: Some(String::from("Songbook")), ..no_writes() };
    let out = write_tag_with_args(&fields, &file).expect("write succeeds");
    let (_h, new_tag) = decode_v2(&out).expect("decodes");
    assert_eq!(new_tag.frames.len(), 2);
    assert_eq!(new_tag.frames[0], tag.frames[0]);
    assert_eq!(
        new_tag.frames[1],
        FrameRec {
            id: *b"TIT2",
            content: FrameContent::Text(EncodedString {
                encoding: TextEncoding::Utf8,
                data: b"Songbook".to_vec(),
            }),
        }
    );
}

#[test]
fn write_preserves_audio_after_grown_tag() {
    let tag = Tag {
        frames: vec![FrameRec { id: *b"TPE1", content: FrameContent::Text(latin1(b"A")) }],
    };
    let mut file = encode_tag(&tag).expect("fits");
    file.extend_from_slice(b"AUDIODATA");
    let fields = WriteFields {
        artist: Some(String::from("A Much Longer Artist Name")),
        ..no_writes()
    };
    let out = write_tag_with_args(&fields, &file).expect("write succeeds");
    assert!(out.ends_with(b"AUDIODATA"));
}

#[test]
fn write_pads_to_old_boundary_when_smaller() {
    let tag = Tag {
        frames: vec![FrameRec {
            id: *b"TPE1",
            content: FrameContent::Text(latin1(b"A very very long artist name")),
        }],
    };
    let mut file = encode_tag(&tag).expect("fits");
    let old_len = file.len();
    file.extend_from_slice(b"AUDIO");
    let new_tag_bytes = encode_tag(&Tag {
        frames: vec![FrameRec { id: *b"TPE1", content: FrameContent::Text(latin1(b"B")) }],
    })
    .expect("fits");
    let out = apply_tag_to_file(&file, &new_tag_bytes);
    // Audio keeps its position: zero padding fills the old region.
    assert_eq!(out.len(), file.len());
    assert!(out.ends_with(b"AUDIO"));
    assert!(out[new_tag_bytes.len()..old_len].iter().all(|&b| b == 0));
}

#[test]
fn write_prepends_when_no_tag_region() {
    let file = b"justaudio".to_vec();
    let tagb = encode_tag(&Tag { frames: Vec::new() }).expect("fits");
    let out = apply_tag_to_file(&file, &tagb);
    assert_eq!(out.len(), file.len() + tagb.len());
    assert!(out.starts_with(b"ID3"));
    assert!(out.ends_with(b"justaudio"));
}

#[test]
fn read_reports_requested_fields() {
    let tag = Tag {
        frames: vec![
            FrameRec { id: *b"TPE1", content: FrameContent::Text(latin1(b"Fugazi")) },
            FrameRec { id: *b"TIT2", content: FrameContent::Text(latin1(b"Waiting Room")) },
        ],
    };
    let file = encode_tag(&tag).expect("fits");
    let fields = ReadFields { artist: true, album: true, track: false, title: false, year: false, convert: false };
    let out = read_tag_with_args(&fields, &file).expect("reads");
    assert_eq!(out.artist, FieldView::Present(latin1(b"Fugazi")));
    assert_eq!(out.album, FieldView::Absent);
    assert_eq!(out.title, FieldView::NotRequested);
}

#[test]
fn read_of_v1_requires_convert() {
    let mut audio = b"nothing up front".to_vec();
    audio.extend_from_slice(&v1_trailer(b"T", b"Fugazi", b"", b"1990", b"", None, 255));
    let fields = read_all_fields();
    assert_eq!(read_tag_with_args(&fields, &audio), Err(TagParseError::NotPresent));
    let fields = ReadFields { convert: true, ..read_all_fields() };
    let out = read_tag_with_args(&fields, &audio).expect("reads through the bridge");
    assert_eq!(out.artist, FieldView::Present(latin1(b"Fugazi")));
    assert_eq!(out.year, FieldView::Present(latin1(b"1990")));
    assert_eq!(out.track, FieldView::Absent);
}

#[test]
fn read_of_untagged_source_is_not_present() {
    let audio = vec![0x55u8; 300];
    assert_eq!(read_tag_with_args(&read_all_fields(), &audio), Err(TagParseError::NotPresent));
}

#[test]
fn write_convert_upgrades_v1_to_v24() {
    let mut audio = b"frontmatter".to_vec();
    audio.extend_from_slice(&v1_trailer(b"", b"Fugazi", b"", b"1990", b"", None, 255));
    let fields = WriteFields {
        album: Some(String::from("Repeater")),
        convert: true,
        ..no_writes()
    };
    let out = write_tag_with_args(&fields, &audio).expect("converts and writes");
    let (hdr, tag) = decode_v2(&out).expect("new tag decodes");
    assert_eq!(hdr.major, 4);
    let ids: Vec<[u8; 4]> = tag.frames.iter().map(|f| f.id).collect();
    assert_eq!(ids, vec![*b"TPE1", *b"TYER", *b"TALB"]);
    // The old trailer stays at the end of the byte source.
    assert_eq!(&out[out.len() - 128..out.len() - 125], b"TAG");
}

#[test]
fn write_without_convert_fails_on_v1_only() {
    let mut audio = b"frontmatter".to_vec();
    audio.extend_from_slice(&v1_trailer(b"", b"Fugazi", b"", b"1990", b"", None, 255));
    let fields = WriteFields { album: Some(String::from("X")), ..no_writes() };
    assert_eq!(
        write_tag_with_args(&fields, &audio),
        Err(WriteError::Decode(TagParseError::NotPresent))
    );
}

#[test]
fn negative_year_writes_signed_decimal_text() {
    let tag = Tag { frames: Vec::new() };
    let file = encode_tag(&tag).expect("fits");
    let fields = WriteFields { year: Some(-44), ..no_writes() };
    let out = write_tag_with_args(&fields, &file).expect("writes");
    let (_h, new_tag) = decode_v2(&out).expect("decodes");
    assert_eq!(
        new_tag.frames,
        vec![FrameRec { id: *b"TYER", content: FrameContent::Text(latin1(b"-44")) }]
    );
}

#[test]
fn process_file_dispatches_read_and_write() {
    let tag = Tag {
        frames: vec![FrameRec { id: *b"TPE1", content: FrameContent::Text(latin1(b"Fugazi")) }],
    };
    let file = encode_tag(&tag).expect("fits");
    let read_args = Cli {
        path: String::from("a.mp3"),
        cmd: Command::Read(ReadFields {
            artist: true,
            album: false,
            track: false,
            title: false,
            year: false,
            convert: false,
        }),
    };
    match process_file(&read_args, &file).expect("reads") {
        ProcessOutcome::Read(o) => assert_eq!(o.artist, FieldView::Present(latin1(b"Fugazi"))),
        _ => panic!("expected a read outcome"),
    }
    let write_args = Cli {
        path: String::from("a.mp3"),
        cmd: Command::Write(WriteFields { track: Some(3), ..no_writes() }),
    };
    match process_file(&write_args, &file).expect("writes") {
        ProcessOutcome::Write(out) => {
            let (_h, t) = decode_v2(&out).expect("decodes");
            assert_eq!(t.frames.len(), 2);
            assert_eq!(t.frames[1].id, *b"TRCK");
            // A numeric value is serialised as decimal text, so it reads
            // back as a text frame.
            assert_eq!(t.frames[1].content, FrameContent::Text(latin1(b"3")));
        },
        _ => panic!("expected a write outcome"),
    }
}
