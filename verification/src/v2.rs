//! The ID3v2 wire format: frame serialisation, tag serialisation (always
//! ID3v2.4), and the decoder for ID3v2.3 and ID3v2.4 byte streams.

use vstd::prelude::*;
use vstd::slice::slice_to_vec;
use crate::bytes::{
    dec_digits, decimal_digits, join_on_zero, join_on_zero_vec, find_zero, find_zero_pair,
    find_zero_vec, find_zero_pair_vec, split_on_zero, split_on_zero_vec, strip_trailing_zeros,
    strip_trailing_zeros_vec, strip_trailing_zero_pairs, strip_trailing_zero_pairs_vec,
    subrange_to_vec, lemma_find_zero_bounds, lemma_find_zero_pair_bounds, lemma_find_zero_is,
    lemma_find_zero_pair_is, lemma_split_zero_free, lemma_split_join, lemma_join_last_nonzero,
    lemma_split_on_zero_len,
};
use crate::synch::{
    synchsafe_bytes, synchsafe_value, be32_value, encode_synchsafe, decode_synchsafe, decode_be32,
    lemma_synchsafe_roundtrip, lemma_synchsafe_bytes_in_range, SYNCHSAFE_MAX,
};
use crate::tag::{
    ContentModel, FrameContent, FrameModel, FrameRec, Header, Tag, TagParseError, TextEncoding,
    enc_marker, marker_encoding, frames_view, is_wide, is_text_id, is_comm_id, valid_frame_id,
    canonical_content, canonical_frame, encoding_marker_byte, byte_to_encoding, check_frame_id,
    EncodedString,
};

verus! {

/// The text terminator of an encoding: one zero byte, or a zero pair for
/// the two-byte-per-unit encodings.
pub open spec fn terminator(e: TextEncoding) -> Seq<u8> {
    if is_wide(e) {
        seq![0u8, 0u8]
    } else {
        seq![0u8]
    }
}

/// The bytes a frame's content serialises to.
pub open spec fn content_model_bytes(c: ContentModel) -> Seq<u8> {
    match c {
        ContentModel::Text { encoding, data } => seq![enc_marker(encoding)] + data,
        ContentModel::TextList { encoding, parts } => seq![enc_marker(encoding)] + join_on_zero(
            parts,
        ),
        ContentModel::Numeric(n) => seq![0u8] + dec_digits(n as nat),
        ContentModel::Binary(b) => b,
        ContentModel::Comment { encoding, lang, desc, text } => seq![enc_marker(encoding)] + lang
            + desc + terminator(encoding) + text,
    }
}

/// A frame's content fits its four-byte synchsafe size field.
pub open spec fn content_encodable(c: ContentModel) -> bool {
    content_model_bytes(c).len() <= SYNCHSAFE_MAX
}

/// The bytes one frame serialises to: identifier, synchsafe content size,
/// two zero flag bytes, then the content.
pub open spec fn frame_model_bytes(f: FrameModel) -> Seq<u8> {
    f.id + synchsafe_bytes(content_model_bytes(f.content).len() as u32) + seq![0u8, 0u8]
        + content_model_bytes(f.content)
}

/// The frame stream: each frame's bytes in insertion order.
pub open spec fn frames_bytes(s: Seq<FrameModel>) -> Seq<u8>
    decreases s.len(),
{
    if s.len() == 0 {
        Seq::empty()
    } else {
        frame_model_bytes(s[0]) + frames_bytes(s.drop_first())
    }
}

/// Every frame fits its size field and the whole stream fits the header's
/// synchsafe size field.
pub open spec fn tag_encodable(s: Seq<FrameModel>) -> bool {
    &&& forall|k: int| 0 <= k < s.len() ==> content_encodable(#[trigger] s[k].content)
    &&& frames_bytes(s).len() <= SYNCHSAFE_MAX
}

/// The ten header bytes of an ID3v2.4 tag of `total` frame-stream bytes:
/// the `ID3` marker, version 4.0, a zero flags byte (this encoder never
/// applies unsynchronisation), and the synchsafe size.
pub open spec fn tag_header_bytes(total: u32) -> Seq<u8> {
    seq![73u8, 68u8, 51u8, 4u8, 0u8, 0u8] + synchsafe_bytes(total)
}

/// The bytes a whole tag serialises to.
pub open spec fn tag_model_bytes(s: Seq<FrameModel>) -> Seq<u8> {
    tag_header_bytes(frames_bytes(s).len() as u32) + frames_bytes(s)
}

pub proof fn lemma_frames_bytes_push(s: Seq<FrameModel>, f: FrameModel)
    ensures
        frames_bytes(s.push(f)) =~= frames_bytes(s) + frame_model_bytes(f),
    decreases s.len(),
{
    if s.len() == 0 {
        assert(s.push(f)[0] == f);
        assert(s.push(f).drop_first() =~= Seq::<FrameModel>::empty());
        assert(frames_bytes(s.push(f)) == frame_model_bytes(f) + frames_bytes(
            Seq::<FrameModel>::empty(),
        ));
    } else {
        assert(s.push(f)[0] == s[0]);
        assert(s.push(f).drop_first() =~= s.drop_first().push(f));
        lemma_frames_bytes_push(s.drop_first(), f);
        assert(frames_bytes(s.push(f)) == frame_model_bytes(s[0]) + (frames_bytes(s.drop_first())
            + frame_model_bytes(f)));
    }
}

/// A prefix of the frame sequence serialises to no more bytes than the whole.
pub proof fn lemma_frames_bytes_prefix_len(s: Seq<FrameModel>, i: int)
    requires
        0 <= i <= s.len(),
    ensures
        frames_bytes(s.take(i)).len() <= frames_bytes(s).len(),
    decreases s.len() - i,
{
    if i == s.len() {
        assert(s.take(i) =~= s);
    } else {
        assert(s.take(i + 1) =~= s.take(i).push(s[i]));
        lemma_frames_bytes_push(s.take(i), s[i]);
        lemma_frames_bytes_prefix_len(s, i + 1);
    }
}

/// The frame stream splits around any one frame: the frames before it, its
/// own bytes, the frames after it.
pub proof fn lemma_frames_bytes_decompose(s: Seq<FrameModel>, i: int)
    requires
        0 <= i < s.len(),
    ensures
        frames_bytes(s) =~= frames_bytes(s.take(i)) + frame_model_bytes(s[i]) + frames_bytes(
            s.skip(i + 1),
        ),
    decreases i,
{
    if i == 0 {
        assert(s.take(0) =~= Seq::<FrameModel>::empty());
        assert(s.skip(1) =~= s.drop_first());
    } else {
        lemma_frames_bytes_decompose(s.drop_first(), i - 1);
        assert(s.drop_first().take(i - 1) =~= s.take(i).drop_first());
        assert(s.drop_first().skip(i) =~= s.skip(i + 1));
        assert(s.drop_first()[i - 1] == s[i]);
        assert(frames_bytes(s) == frame_model_bytes(s[0]) + frames_bytes(s.drop_first()));
        assert(frames_bytes(s.take(i)) == frame_model_bytes(s[0]) + frames_bytes(
            s.take(i).drop_first(),
        ));
    }
}

/// Selective write: replacing the frame at one position re-encodes every
/// other frame byte-identically — the new stream is the unchanged frames'
/// bytes before and after the replacement, with only the replaced frame's
/// bytes differing.
pub proof fn lemma_selective_write(s: Seq<FrameModel>, i: int, f: FrameModel)
    requires
        0 <= i < s.len(),
    ensures
        frames_bytes(s) =~= frames_bytes(s.take(i)) + frame_model_bytes(s[i]) + frames_bytes(
            s.skip(i + 1),
        ),
        frames_bytes(s.update(i, f)) =~= frames_bytes(s.take(i)) + frame_model_bytes(f)
            + frames_bytes(s.skip(i + 1)),
        forall|k: int| 0 <= k < s.len() && k != i ==> s.update(i, f)[k] == s[k],
{
    lemma_frames_bytes_decompose(s, i);
    let u = s.update(i, f);
    lemma_frames_bytes_decompose(u, i);
    assert(u.take(i) =~= s.take(i));
    assert(u.skip(i + 1) =~= s.skip(i + 1));
}

/// Serialises a frame's content.
pub fn encode_content(c: &FrameContent) -> (r: Vec<u8>)
    ensures
        r@ == content_model_bytes(c@),
{
    match c {
        FrameContent::Text(es) => {
            let mut r: Vec<u8> = Vec::new();
            r.push(encoding_marker_byte(es.encoding));
            r.extend_from_slice(es.data.as_slice());
            proof {
                assert(r@ =~= content_model_bytes(c@));
            }
            r
        },
        FrameContent::TextList { encoding, parts } => {
            let mut r: Vec<u8> = Vec::new();
            r.push(encoding_marker_byte(*encoding));
            let mut joined = join_on_zero_vec(parts.as_slice());
            r.append(&mut joined);
            proof {
                assert(r@ =~= content_model_bytes(c@));
            }
            r
        },
        FrameContent::Numeric(n) => {
            let mut r: Vec<u8> = Vec::new();
            r.push(0);
            let mut digits = decimal_digits(*n);
            r.append(&mut digits);
            proof {
                assert(r@ =~= content_model_bytes(c@));
            }
            r
        },
        FrameContent::Binary(b) => {
            let r = slice_to_vec(b.as_slice());
            proof {
                assert(r@ =~= content_model_bytes(c@));
            }
            r
        },
        FrameContent::Comment { encoding, lang, desc, text } => {
            let mut r: Vec<u8> = Vec::new();
            r.push(encoding_marker_byte(*encoding));
            r.push(lang[0]);
            r.push(lang[1]);
            r.push(lang[2]);
            r.extend_from_slice(desc.as_slice());
            r.push(0);
            if matches!(encoding, TextEncoding::Utf16 | TextEncoding::Utf16Be) {
                r.push(0);
            }
            r.extend_from_slice(text.as_slice());
            proof {
                assert(r@ =~= content_model_bytes(c@));
            }
            r
        },
    }
}

/// Serialises one frame, or reports that its content is too large for the
/// four-byte synchsafe size field.
pub fn encode_frame(f: &FrameRec) -> (r: Option<Vec<u8>>)
    ensures
        match r {
            Some(v) => content_encodable(f@.content) && v@ == frame_model_bytes(f@),
            None => !content_encodable(f@.content),
        },
{
    let content = encode_content(&f.content);
    if content.len() > SYNCHSAFE_MAX as usize {
        return None;
    }
    let size = encode_synchsafe(content.len() as u32);
    let mut r: Vec<u8> = Vec::new();
    r.push(f.id[0]);
    r.push(f.id[1]);
    r.push(f.id[2]);
    r.push(f.id[3]);
    r.extend_from_slice(size.as_slice());
    r.push(0);
    r.push(0);
    r.extend_from_slice(content.as_slice());
    proof {
        assert(r@ =~= frame_model_bytes(f@));
    }
    Some(r)
}

/// Serialises the frame stream, or reports that a frame or the stream as a
/// whole is too large for its synchsafe size field.
pub fn encode_frames(frames: &Vec<FrameRec>) -> (r: Option<Vec<u8>>)
    ensures
        match r {
            Some(v) => tag_encodable(frames_view(frames@)) && v@ == frames_bytes(
                frames_view(frames@),
            ),
            None => !tag_encodable(frames_view(frames@)),
        },
{
    let ghost model = frames_view(frames@);
    let mut acc: Vec<u8> = Vec::new();
    let mut i: usize = 0;
    proof {
        assert(acc@ =~= frames_bytes(model.take(0)));
    }
    while i < frames.len()
        invariant
            i <= frames@.len(),
            model == frames_view(frames@),
            acc@ == frames_bytes(model.take(i as int)),
            acc@.len() <= SYNCHSAFE_MAX,
            forall|k: int| 0 <= k < i ==> content_encodable(#[trigger] model[k].content),
        decreases frames@.len() - i,
    {
        let fr = &frames[i];
        match encode_frame(fr) {
            None => {
                proof {
                    assert(!content_encodable(model[i as int].content));
                }
                return None;
            },
            Some(mut fb) => {
                proof {
                    assert(model.take(i + 1) =~= model.take(i as int).push(model[i as int]));
                    lemma_frames_bytes_push(model.take(i as int), model[i as int]);
                }
                if fb.len() > SYNCHSAFE_MAX as usize - acc.len() {
                    proof {
                        lemma_frames_bytes_prefix_len(model, i + 1);
                    }
                    return None;
                }
                acc.append(&mut fb);
            },
        }
        i = i + 1;
    }
    proof {
        assert(model.take(i as int) =~= model);
    }
    Some(acc)
}

/// Serialises a whole tag to ID3v2.4 bytes, or reports that it is too large.
/// The header's flags byte is zero: this encoder never applies
/// unsynchronisation, and never writes an extended header or footer.
pub fn encode_tag(t: &Tag) -> (r: Option<Vec<u8>>)
    ensures
        match r {
            Some(v) => tag_encodable(t@) && v@ == tag_model_bytes(t@),
            None => !tag_encodable(t@),
        },
{
    match encode_frames(&t.frames) {
        None => None,
        Some(mut body) => {
            let size = encode_synchsafe(body.len() as u32);
            let mut r: Vec<u8> = Vec::new();
            r.push(73);
            r.push(68);
            r.push(51);
            r.push(4);
            r.push(0);
            r.push(0);
            r.extend_from_slice(size.as_slice());
            r.append(&mut body);
            proof {
                assert(r@ =~= tag_model_bytes(t@));
            }
            Some(r)
        },
    }
}

/// The declared size in an encoded tag's header equals the exact byte
/// length of the frame stream that follows the ten header bytes.
pub proof fn lemma_header_size_exact(s: Seq<FrameModel>)
    requires
        tag_encodable(s),
    ensures
        tag_model_bytes(s).len() == 10 + frames_bytes(s).len(),
        synchsafe_value(
            tag_model_bytes(s)[6],
            tag_model_bytes(s)[7],
            tag_model_bytes(s)[8],
            tag_model_bytes(s)[9],
        ) == frames_bytes(s).len(),
{
    let total = frames_bytes(s).len() as u32;
    lemma_synchsafe_roundtrip(total);
    assert(tag_model_bytes(s)[6] == synchsafe_bytes(total)[0]);
    assert(tag_model_bytes(s)[7] == synchsafe_bytes(total)[1]);
    assert(tag_model_bytes(s)[8] == synchsafe_bytes(total)[2]);
    assert(tag_model_bytes(s)[9] == synchsafe_bytes(total)[3]);
}

/// Reverses unsynchronisation byte-stuffing: every 0x00 immediately after
/// an 0xFF is removed.
pub open spec fn remove_unsync(s: Seq<u8>) -> Seq<u8>
    decreases s.len(),
{
    if s.len() == 0 {
        Seq::empty()
    } else if s.len() >= 2 && s[0] == 0xff && s[1] == 0 {
        seq![0xffu8] + remove_unsync(s.skip(2))
    } else {
        seq![s[0]] + remove_unsync(s.skip(1))
    }
}

/// What a text frame's bytes after the encoding marker mean: terminators
/// are stripped from the end, and for the single-byte encodings a body with
/// remaining zero separators is a multi-valued list.
pub open spec fn parse_text_content(enc: TextEncoding, body: Seq<u8>) -> ContentModel {
    if is_wide(enc) {
        ContentModel::Text { encoding: enc, data: strip_trailing_zero_pairs(body) }
    } else {
        let parts = split_on_zero(strip_trailing_zeros(body));
        if parts.len() == 1 {
            ContentModel::Text { encoding: enc, data: parts[0] }
        } else {
            ContentModel::TextList { encoding: enc, parts }
        }
    }
}

/// What a comment frame's content bytes mean: encoding marker, three-byte
/// language, description up to the encoding's terminator, then text.
pub open spec fn parse_comment_content(b: Seq<u8>) -> Option<ContentModel> {
    if b.len() < 4 {
        None
    } else {
        match marker_encoding(b[0]) {
            None => None,
            Some(enc) => {
                let rest = b.skip(4);
                let t = if is_wide(enc) {
                    find_zero_pair(rest)
                } else {
                    find_zero(rest)
                };
                if t < 0 {
                    None
                } else {
                    Some(
                        ContentModel::Comment {
                            encoding: enc,
                            lang: b.subrange(1, 4),
                            desc: rest.take(t),
                            text: rest.skip(t + terminator(enc).len()),
                        },
                    )
                }
            },
        }
    }
}

/// What a frame's content bytes mean, by its identifier: text frames and
/// comments are interpreted, everything else is retained as opaque bytes.
/// `None` is a malformed frame (no or unknown encoding marker, or an
/// unterminated comment description).
pub open spec fn parse_content(id: Seq<u8>, b: Seq<u8>) -> Option<ContentModel> {
    if is_text_id(id) {
        if b.len() < 1 {
            None
        } else {
            match marker_encoding(b[0]) {
                None => None,
                Some(enc) => Some(parse_text_content(enc, b.skip(1))),
            }
        }
    } else if is_comm_id(id) {
        parse_comment_content(b)
    } else {
        Some(ContentModel::Binary(b))
    }
}

/// The frames a frame stream holds. Decoding halts without error at the end
/// of the stream or on a zero byte where an identifier should start (the
/// padding region); a frame whose declared size exceeds the remaining bytes
/// is `TruncatedFrame`; an invalid identifier, size or content shape is
/// `MalformedFrame`. Frame sizes are synchsafe for ID3v2.4 (`v4` true) and
/// plain big-endian for ID3v2.3.
pub open spec fn spec_decode_frames(b: Seq<u8>, v4: bool) -> Result<
    Seq<FrameModel>,
    TagParseError,
>
    decreases b.len(),
{
    if b.len() == 0 || b[0] == 0 {
        Ok(Seq::empty())
    } else if b.len() < 10 {
        Err(TagParseError::TruncatedFrame)
    } else {
        let id = b.subrange(0, 4);
        if !valid_frame_id(id) {
            Err(TagParseError::MalformedFrame)
        } else if v4 && !(b[4] < 0x80 && b[5] < 0x80 && b[6] < 0x80 && b[7] < 0x80) {
            Err(TagParseError::MalformedFrame)
        } else {
            let n = if v4 {
                synchsafe_value(b[4], b[5], b[6], b[7]) as int
            } else {
                be32_value(b[4], b[5], b[6], b[7]) as int
            };
            if n > b.len() - 10 {
                Err(TagParseError::TruncatedFrame)
            } else {
                match parse_content(id, b.subrange(10, 10 + n)) {
                    None => Err(TagParseError::MalformedFrame),
                    Some(c) => match spec_decode_frames(b.skip(10 + n), v4) {
                        Ok(rest) => Ok(seq![FrameModel { id, content: c }] + rest),
                        Err(e) => Err(e),
                    },
                }
            }
        }
    }
}

/// The header fields held in a tag's first ten bytes.
pub open spec fn header_model(b: Seq<u8>) -> Header {
    Header {
        major: b[3],
        minor: b[4],
        unsync: b[5] & 0x80 != 0,
        extended: b[5] & 0x40 != 0,
        experimental: b[5] & 0x20 != 0,
        footer: b[5] & 0x10 != 0,
        size: synchsafe_value(b[6], b[7], b[8], b[9]),
    }
}

/// The frame stream left after an extended header. In ID3v2.4 the extended
/// header starts with its own synchsafe size, which counts the size field
/// itself and is at least six; in ID3v2.3 the size is plain big-endian and
/// excludes the four size bytes.
pub open spec fn skip_ext_header(b: Seq<u8>, v4: bool) -> Result<Seq<u8>, TagParseError> {
    if b.len() < 4 {
        Err(TagParseError::TruncatedFrame)
    } else if v4 {
        if !(b[0] < 0x80 && b[1] < 0x80 && b[2] < 0x80 && b[3] < 0x80) {
            Err(TagParseError::MalformedFrame)
        } else {
            let n = synchsafe_value(b[0], b[1], b[2], b[3]) as int;
            if n < 6 {
                Err(TagParseError::MalformedFrame)
            } else if n > b.len() {
                Err(TagParseError::TruncatedFrame)
            } else {
                Ok(b.skip(n))
            }
        }
    } else {
        let n = be32_value(b[0], b[1], b[2], b[3]) as int;
        if 4 + n > b.len() {
            Err(TagParseError::TruncatedFrame)
        } else {
            Ok(b.skip(4 + n))
        }
    }
}

/// What a byte source holds at its start, read as an ID3v2 tag.
///
/// `NotPresent` exactly when the source is shorter than a header or does not
/// begin with the `ID3` marker. A major version other than 2, 3 or 4 is
/// `UnsupportedVersion`; so is 2, whose three-byte frame layout is outside
/// this codec, though its header is recognised. A header size byte with its
/// top bit set is `MalformedFrame`; a declared size beyond the source is
/// `TruncatedFrame`. The declared size's worth of bytes — after reversing
/// unsynchronisation if flagged, and after any extended header — is the
/// frame stream.
pub open spec fn spec_decode_v2(b: Seq<u8>) -> Result<(Header, Seq<FrameModel>), TagParseError> {
    if b.len() < 10 || b[0] != 73 || b[1] != 68 || b[2] != 51 {
        Err(TagParseError::NotPresent)
    } else if !(b[3] == 3 || b[3] == 4) {
        Err(TagParseError::UnsupportedVersion)
    } else if !(b[6] < 0x80 && b[7] < 0x80 && b[8] < 0x80 && b[9] < 0x80) {
        Err(TagParseError::MalformedFrame)
    } else {
        let hdr = header_model(b);
        let v4 = b[3] == 4;
        if b.len() < 10 + hdr.size {
            Err(TagParseError::TruncatedFrame)
        } else {
            let raw = b.subrange(10, 10 + hdr.size as int);
            let data = if hdr.unsync {
                remove_unsync(raw)
            } else {
                raw
            };
            let stream = if hdr.extended {
                skip_ext_header(data, v4)
            } else {
                Ok(data)
            };
            match stream {
                Err(e) => Err(e),
                Ok(body) => match spec_decode_frames(body, v4) {
                    Ok(fs) => Ok((hdr, fs)),
                    Err(e) => Err(e),
                },
            }
        }
    }
}

pub proof fn lemma_marker_roundtrip(e: TextEncoding)
    ensures
        marker_encoding(enc_marker(e)) == Some(e),
{
}

/// Frame content in canonical shape is read back exactly from its own bytes.
pub proof fn lemma_parse_content_roundtrip(id: Seq<u8>, c: ContentModel)
    requires
        canonical_content(id, c),
    ensures
        parse_content(id, content_model_bytes(c)) == Some(c),
{
    let b = content_model_bytes(c);
    match c {
        ContentModel::Text { encoding, data } => {
            lemma_marker_roundtrip(encoding);
            assert(b.skip(1) =~= data);
            if is_wide(encoding) {
                crate::bytes::lemma_strip_pairs_noop(data);
            } else {
                crate::bytes::lemma_strip_noop(data);
                lemma_split_zero_free(data);
            }
        },
        ContentModel::TextList { encoding, parts } => {
            lemma_marker_roundtrip(encoding);
            let j = join_on_zero(parts);
            assert(b.skip(1) =~= j);
            lemma_join_last_nonzero(parts);
            crate::bytes::lemma_strip_noop(j);
            lemma_split_join(parts);
        },
        ContentModel::Numeric(_) => {
        },
        ContentModel::Binary(_) => {
        },
        ContentModel::Comment { encoding, lang, desc, text } => {
            lemma_marker_roundtrip(encoding);
            let rest = b.skip(4);
            let dl = desc.len() as int;
            assert(rest =~= desc + terminator(encoding) + text);
            if is_wide(encoding) {
                assert forall|j: int|
                    0 <= j < dl && j + 1 < rest.len() && j % 2 == 0 implies !(#[trigger] rest[j]
                    == 0 && rest[j + 1] == 0) by {
                    assert(j + 1 < dl) by {
                        assert(j % 2 == 0 && dl % 2 == 0 && j < dl);
                    }
                    assert(rest[j] == desc[j] && rest[j + 1] == desc[j + 1]);
                }
                assert(rest[dl] == 0 && rest[dl + 1] == 0);
                lemma_find_zero_pair_is(rest, dl);
                assert(rest.take(dl) =~= desc);
                assert(rest.skip(dl + 2) =~= text);
            } else {
                assert(forall|j: int| 0 <= j < dl ==> #[trigger] rest[j] == desc[j] && rest[j]
                    != 0);
                assert(rest[dl] == 0);
                lemma_find_zero_is(rest, dl);
                assert(rest.take(dl) =~= desc);
                assert(rest.skip(dl + 1) =~= text);
            }
            assert(b.subrange(1, 4) =~= lang);
        },
    }
}

/// Reading a frame stream that starts with the bytes of one canonical frame
/// yields that frame and then whatever the remainder yields.
proof fn lemma_decode_frames_step(f: FrameModel, t: Seq<u8>)
    requires
        canonical_frame(f),
        content_encodable(f.content),
    ensures
        spec_decode_frames(frame_model_bytes(f) + t, true) == match spec_decode_frames(t, true) {
            Ok(rest) => Ok::<_, TagParseError>(seq![f] + rest),
            Err(e) => Err::<Seq<FrameModel>, _>(e),
        },
{
    let cb = content_model_bytes(f.content);
    let fb = frame_model_bytes(f);
    let b = fb + t;
    let clen = cb.len() as u32;
    assert(fb.len() == 10 + cb.len());
    assert(b[0] == f.id[0]);
    assert(b[0] != 0);
    assert(b.subrange(0, 4) =~= f.id);
    lemma_synchsafe_bytes_in_range(clen);
    assert(b[4] == synchsafe_bytes(clen)[0] && b[5] == synchsafe_bytes(clen)[1] && b[6]
        == synchsafe_bytes(clen)[2] && b[7] == synchsafe_bytes(clen)[3]);
    lemma_synchsafe_roundtrip(clen);
    assert(synchsafe_value(b[4], b[5], b[6], b[7]) == clen);
    assert(clen <= b.len() - 10);
    assert(b.subrange(10, 10 + clen as int) =~= cb);
    lemma_parse_content_roundtrip(f.id, f.content);
    assert(b.skip(10 + clen as int) =~= t);
    assert(FrameModel { id: f.id, content: f.content } == f);
    assert(b.subrange(0, 4) == f.id && parse_content(b.subrange(0, 4), b.subrange(
        10,
        10 + clen as int,
    )) == Some(f.content));
}

/// A frame stream of canonical frames, each within the size limits, decodes
/// to exactly those frames, in order.
pub proof fn lemma_decode_frames_roundtrip(s: Seq<FrameModel>)
    requires
        forall|k: int| 0 <= k < s.len() ==> canonical_frame(#[trigger] s[k]),
        tag_encodable(s),
    ensures
        spec_decode_frames(frames_bytes(s), true) == Ok::<_, TagParseError>(s),
    decreases s.len(),
{
    if s.len() == 0 {
        assert(frames_bytes(s) =~= Seq::<u8>::empty());
        assert(spec_decode_frames(frames_bytes(s), true) == Ok::<_, TagParseError>(
            Seq::<FrameModel>::empty(),
        ));
        assert(s =~= Seq::<FrameModel>::empty());
    } else {
        let f = s[0];
        let rest = s.drop_first();
        assert(canonical_frame(f));
        assert(content_encodable(f.content));
        assert(frames_bytes(s) =~= frame_model_bytes(f) + frames_bytes(rest));
        assert forall|k: int| 0 <= k < rest.len() implies canonical_frame(#[trigger] rest[k]) by {
            assert(rest[k] == s[k + 1]);
        }
        assert forall|k: int| 0 <= k < rest.len() implies content_encodable(
            #[trigger] rest[k].content,
        ) by {
            assert(rest[k] == s[k + 1]);
        }
        assert(frames_bytes(rest).len() <= frames_bytes(s).len());
        lemma_decode_frames_roundtrip(rest);
        lemma_decode_frames_step(f, frames_bytes(rest));
        assert(seq![f] + rest =~= s);
    }
}

/// Round-trip: a tag of canonical frames that fits the synchsafe size
/// fields, once serialised, decodes to exactly the same frames in the same
/// order, under an ID3v2.4 header with a clear flags byte and the exact
/// frame-stream size.
pub proof fn lemma_encode_decode_roundtrip(s: Seq<FrameModel>)
    requires
        forall|k: int| 0 <= k < s.len() ==> canonical_frame(#[trigger] s[k]),
        tag_encodable(s),
    ensures
        spec_decode_v2(tag_model_bytes(s)) == Ok::<_, TagParseError>(
            (
                Header {
                    major: 4,
                    minor: 0,
                    unsync: false,
                    extended: false,
                    experimental: false,
                    footer: false,
                    size: frames_bytes(s).len() as u32,
                },
                s,
            ),
        ),
{
    let total = frames_bytes(s).len() as u32;
    let b = tag_model_bytes(s);
    assert(b =~= tag_header_bytes(total) + frames_bytes(s));
    assert(b.len() == 10 + frames_bytes(s).len());
    assert(b[0] == 73 && b[1] == 68 && b[2] == 51 && b[3] == 4 && b[4] == 0 && b[5] == 0);
    lemma_synchsafe_bytes_in_range(total);
    assert(b[6] == synchsafe_bytes(total)[0] && b[7] == synchsafe_bytes(total)[1] && b[8]
        == synchsafe_bytes(total)[2] && b[9] == synchsafe_bytes(total)[3]);
    lemma_synchsafe_roundtrip(total);
    assert(synchsafe_value(b[6], b[7], b[8], b[9]) == total);
    assert((0u8 & 0x80u8) == 0 && (0u8 & 0x40u8) == 0 && (0u8 & 0x20u8) == 0 && (0u8 & 0x10u8)
        == 0) by (bit_vector);
    let hdr = header_model(b);
    assert(hdr == Header {
        major: 4u8,
        minor: 0u8,
        unsync: false,
        extended: false,
        experimental: false,
        footer: false,
        size: total,
    });
    assert(b.subrange(10, 10 + total as int) =~= frames_bytes(s));
    lemma_decode_frames_roundtrip(s);
}

/// Decoding never reads past the declared tag size: once a byte source
/// covers the ten header bytes and the declared size, whatever follows them
/// cannot change what the decoder returns.
pub proof fn lemma_decode_reads_declared_size_only(b: Seq<u8>, extra: Seq<u8>)
    requires
        b.len() >= 10,
        b.len() >= 10 + synchsafe_value(b[6], b[7], b[8], b[9]),
    ensures
        spec_decode_v2(b + extra) == spec_decode_v2(b),
{
    let c = b + extra;
    assert(c[0] == b[0] && c[1] == b[1] && c[2] == b[2] && c[3] == b[3] && c[4] == b[4] && c[5]
        == b[5] && c[6] == b[6] && c[7] == b[7] && c[8] == b[8] && c[9] == b[9]);
    if !(b.len() < 10 || b[0] != 73 || b[1] != 68 || b[2] != 51) && (b[3] == 3 || b[3] == 4) && (
    b[6] < 0x80 && b[7] < 0x80 && b[8] < 0x80 && b[9] < 0x80) {
        let hdr = header_model(b);
        assert(header_model(c) == hdr);
        assert(c.subrange(10, 10 + hdr.size as int) =~= b.subrange(10, 10 + hdr.size as int));
    }
}

/// Reversing unsynchronisation never grows the data.
pub proof fn lemma_remove_unsync_len(s: Seq<u8>)
    ensures
        remove_unsync(s).len() <= s.len(),
    decreases s.len(),
{
    if s.len() == 0 {
    } else if s.len() >= 2 && s[0] == 0xff && s[1] == 0 {
        lemma_remove_unsync_len(s.skip(2));
    } else {
        lemma_remove_unsync_len(s.skip(1));
    }
}

/// A four-byte synchsafe value never exceeds its 28-bit range.
pub proof fn lemma_synchsafe_value_max(b0: u8, b1: u8, b2: u8, b3: u8)
    ensures
        synchsafe_value(b0, b1, b2, b3) <= SYNCHSAFE_MAX,
{
    assert((((b0 & 0x7f) as u32) << 21) | (((b1 & 0x7f) as u32) << 14) | (((b2 & 0x7f) as u32) << 7)
        | ((b3 & 0x7f) as u32) <= 0x0FFF_FFFF) by (bit_vector);
}

/// What the content parser yields is canonical, and re-encodes to no more
/// bytes than it was parsed from.
pub proof fn lemma_parse_content_canonical(id: Seq<u8>, b: Seq<u8>)
    requires
        valid_frame_id(id),
        parse_content(id, b) is Some,
    ensures
        canonical_content(id, parse_content(id, b)->Some_0),
        content_model_bytes(parse_content(id, b)->Some_0).len() <= b.len(),
{
    let c = parse_content(id, b)->Some_0;
    if is_text_id(id) {
        let enc = marker_encoding(b[0])->Some_0;
        let body = b.skip(1);
        if is_wide(enc) {
            crate::bytes::lemma_strip_pairs_result(body);
        } else {
            let stripped = strip_trailing_zeros(body);
            crate::bytes::lemma_strip_result(body);
            crate::bytes::lemma_split_parts_zero_free(stripped);
            lemma_find_zero_bounds(stripped);
            lemma_split_on_zero_len(stripped);
            let parts = split_on_zero(stripped);
            if parts.len() == 1 {
                if find_zero(stripped) >= 0 {
                    lemma_split_on_zero_len(stripped.skip(find_zero(stripped) + 1));
                }
                assert(parts[0] == stripped);
            } else {
                assert(stripped.len() > 0) by {
                    if stripped.len() == 0 {
                        assert(find_zero(stripped) == -1);
                    }
                }
                crate::bytes::lemma_split_last_nonempty(stripped);
                crate::bytes::lemma_join_split(stripped);
            }
        }
    } else if is_comm_id(id) {
        let enc = marker_encoding(b[0])->Some_0;
        let rest = b.skip(4);
        if is_wide(enc) {
            let t = find_zero_pair(rest);
            lemma_find_zero_pair_bounds(rest);
            crate::bytes::lemma_find_zero_pair_prefix(rest);
            let desc = rest.take(t);
            assert forall|j: int|
                0 <= j && j + 1 < desc.len() && j % 2 == 0 implies !(#[trigger] desc[j] == 0
                && desc[j + 1] == 0) by {
                assert(desc[j] == rest[j] && desc[j + 1] == rest[j + 1]);
            }
            assert(content_model_bytes(c).len() == 1 + 3 + t + 2 + (rest.len() - t - 2));
        } else {
            let t = find_zero(rest);
            lemma_find_zero_bounds(rest);
            crate::bytes::lemma_find_zero_prefix(rest);
            let desc = rest.take(t);
            assert forall|j: int| 0 <= j < desc.len() implies #[trigger] desc[j] != 0 by {
                assert(desc[j] == rest[j]);
            }
            assert(content_model_bytes(c).len() == 1 + 3 + t + 1 + (rest.len() - t - 1));
        }
    }
}

/// Every frame the decoder yields is canonical and fits its size field, and
/// the whole yield re-encodes to no more bytes than it was decoded from.
pub proof fn lemma_decode_frames_canonical(b: Seq<u8>, v4: bool)
    requires
        b.len() <= SYNCHSAFE_MAX,
        spec_decode_frames(b, v4) is Ok,
    ensures
        ({
            let s = spec_decode_frames(b, v4)->Ok_0;
            &&& forall|k: int| 0 <= k < s.len() ==> canonical_frame(#[trigger] s[k])
            &&& forall|k: int| 0 <= k < s.len() ==> content_encodable(#[trigger] s[k].content)
            &&& frames_bytes(s).len() <= b.len()
        }),
    decreases b.len(),
{
    let s = spec_decode_frames(b, v4)->Ok_0;
    if b.len() == 0 || b[0] == 0 {
        assert(frames_bytes(s).len() == 0);
    } else {
        let id = b.subrange(0, 4);
        let n = if v4 {
            synchsafe_value(b[4], b[5], b[6], b[7]) as int
        } else {
            be32_value(b[4], b[5], b[6], b[7]) as int
        };
        let cb = b.subrange(10, 10 + n);
        let c = parse_content(id, cb)->Some_0;
        let f = FrameModel { id, content: c };
        let tail = b.skip(10 + n);
        let rest = spec_decode_frames(tail, v4)->Ok_0;
        lemma_parse_content_canonical(id, cb);
        lemma_decode_frames_canonical(tail, v4);
        assert(s == seq![f] + rest);
        assert(content_model_bytes(c).len() <= n);
        assert(frame_model_bytes(f).len() == 10 + content_model_bytes(c).len());
        assert(s.drop_first() =~= rest);
        assert(s[0] == f);
        assert(frames_bytes(s) == frame_model_bytes(f) + frames_bytes(rest));
        assert forall|k: int| 0 <= k < s.len() implies canonical_frame(#[trigger] s[k]) by {
            if k >= 1 {
                assert(s[k] == rest[k - 1]);
            }
        }
        assert forall|k: int| 0 <= k < s.len() implies content_encodable(
            #[trigger] s[k].content,
        ) by {
            if k >= 1 {
                assert(s[k] == rest[k - 1]);
            }
        }
    }
}

/// Idempotent round-trips, completing the circle: whatever frames a byte
/// source decodes to, serialising them and decoding again yields the same
/// frames in the same order, under a clean ID3v2.4 header.
pub proof fn lemma_decode_encode_decode(b: Seq<u8>)
    requires
        spec_decode_v2(b) is Ok,
    ensures
        ({
            let s = spec_decode_v2(b)->Ok_0.1;
            &&& tag_encodable(s)
            &&& spec_decode_v2(tag_model_bytes(s)) == Ok::<_, TagParseError>(
                (
                    Header {
                        major: 4,
                        minor: 0,
                        unsync: false,
                        extended: false,
                        experimental: false,
                        footer: false,
                        size: frames_bytes(s).len() as u32,
                    },
                    s,
                ),
            )
        }),
{
    let s = spec_decode_v2(b)->Ok_0.1;
    let hdr = header_model(b);
    let v4 = b[3] == 4;
    lemma_synchsafe_value_max(b[6], b[7], b[8], b[9]);
    let raw = b.subrange(10, 10 + hdr.size as int);
    let data = if hdr.unsync {
        remove_unsync(raw)
    } else {
        raw
    };
    lemma_remove_unsync_len(raw);
    assert(data.len() <= SYNCHSAFE_MAX);
    let stream = if hdr.extended {
        skip_ext_header(data, v4)->Ok_0
    } else {
        data
    };
    assert(stream.len() <= SYNCHSAFE_MAX);
    lemma_decode_frames_canonical(stream, v4);
    lemma_encode_decode_roundtrip(s);
}

/// Reverses unsynchronisation byte-stuffing.
pub fn remove_unsync_vec(s: &[u8]) -> (r: Vec<u8>)
    ensures
        r@ == remove_unsync(s@),
{
    let mut r: Vec<u8> = Vec::new();
    let mut i: usize = 0;
    proof {
        assert(s@.skip(0) =~= s@);
    }
    while i < s.len()
        invariant
            i <= s@.len(),
            remove_unsync(s@) == r@ + remove_unsync(s@.skip(i as int)),
        decreases s@.len() - i,
    {
        let b = s[i];
        if b == 0xff && i + 1 < s.len() && s[i + 1] == 0 {
            proof {
                assert(s@.skip(i as int).skip(2) =~= s@.skip(i as int + 2));
                assert(remove_unsync(s@.skip(i as int)) == seq![0xffu8] + remove_unsync(
                    s@.skip(i as int + 2),
                ));
                assert(r@.push(0xffu8) =~= r@ + seq![0xffu8]);
            }
            r.push(0xff);
            i = i + 2;
        } else {
            proof {
                assert(s@.skip(i as int).skip(1) =~= s@.skip(i as int + 1));
                assert(remove_unsync(s@.skip(i as int)) == seq![b] + remove_unsync(
                    s@.skip(i as int + 1),
                ));
                assert(r@.push(b) =~= r@ + seq![b]);
            }
            r.push(b);
            i = i + 1;
        }
    }
    proof {
        assert(s@.skip(i as int) =~= Seq::<u8>::empty());
        assert(remove_unsync(s@) =~= r@);
    }
    r
}

/// Interprets a frame's content bytes.
pub fn parse_content_vec(id: &[u8; 4], b: &[u8]) -> (r: Option<FrameContent>)
    ensures
        match r {
            Some(c) => parse_content(id@, b@) == Some(c@),
            None => parse_content(id@, b@) is None,
        },
{
    let text = check_frame_id(id) && id[0] == 84;
    let comm = id[0] == 67 && id[1] == 79 && id[2] == 77 && id[3] == 77;
    proof {
        assert(text == is_text_id(id@));
        assert(comm == is_comm_id(id@)) by {
            if comm {
                assert(id@ =~= crate::tag::comm_id());
            }
        }
    }
    if text {
        if b.len() < 1 {
            return None;
        }
        match byte_to_encoding(b[0]) {
            None => None,
            Some(enc) => {
                let body = vstd::slice::slice_subrange(b, 1, b.len());
                proof {
                    assert(body@ =~= b@.skip(1));
                }
                let wide = matches!(enc, TextEncoding::Utf16 | TextEncoding::Utf16Be);
                if wide {
                    let data = strip_trailing_zero_pairs_vec(body);
                    Some(FrameContent::Text(EncodedString { encoding: enc, data }))
                } else {
                    let stripped = strip_trailing_zeros_vec(body);
                    let mut parts = split_on_zero_vec(stripped.as_slice());
                    proof {
                        lemma_split_on_zero_len(stripped@);
                    }
                    if parts.len() == 1 {
                        let data = match parts.pop() {
                            Some(p) => p,
                            None => Vec::new(),
                        };
                        proof {
                            assert(data@ =~= split_on_zero(strip_trailing_zeros(b@.skip(1)))[0]);
                        }
                        Some(FrameContent::Text(EncodedString { encoding: enc, data }))
                    } else {
                        Some(FrameContent::TextList { encoding: enc, parts })
                    }
                }
            },
        }
    } else if comm {
        if b.len() < 4 {
            return None;
        }
        match byte_to_encoding(b[0]) {
            None => None,
            Some(enc) => {
                let lang = [b[1], b[2], b[3]];
                let rest = vstd::slice::slice_subrange(b, 4, b.len());
                proof {
                    assert(rest@ =~= b@.skip(4));
                }
                let wide = matches!(enc, TextEncoding::Utf16 | TextEncoding::Utf16Be);
                let found = if wide {
                    find_zero_pair_vec(rest)
                } else {
                    find_zero_vec(rest)
                };
                match found {
                    None => None,
                    Some(t) => {
                        proof {
                            if wide {
                                lemma_find_zero_pair_bounds(rest@);
                            } else {
                                lemma_find_zero_bounds(rest@);
                            }
                        }
                        let tl: usize = if wide {
                            2
                        } else {
                            1
                        };
                        let desc = subrange_to_vec(rest, 0, t);
                        let text_v = subrange_to_vec(rest, t + tl, rest.len());
                        proof {
                            assert(b@.subrange(1, 4) =~= lang@);
                            assert(desc@ =~= b@.skip(4).take(t as int));
                            assert(text_v@ =~= b@.skip(4).skip(t as int + terminator(enc).len()));
                        }
                        Some(FrameContent::Comment { encoding: enc, lang, desc, text: text_v })
                    },
                }
            },
        }
    } else {
        let c = slice_to_vec(b);
        Some(FrameContent::Binary(c))
    }
}

/// Reads the frame stream.
pub fn decode_frames(b: &[u8], v4: bool) -> (r: Result<Vec<FrameRec>, TagParseError>)
    ensures
        match r {
            Ok(v) => spec_decode_frames(b@, v4) == Ok::<_, TagParseError>(frames_view(v@)),
            Err(e) => spec_decode_frames(b@, v4) == Err::<Seq<FrameModel>, _>(e),
        },
    decreases b@.len(),
{
    let n_total = b.len();
    if n_total == 0 || b[0] == 0 {
        let r: Vec<FrameRec> = Vec::new();
        proof {
            assert(frames_view(r@) =~= Seq::<FrameModel>::empty());
        }
        return Ok(r);
    }
    if n_total < 10 {
        return Err(TagParseError::TruncatedFrame);
    }
    let id = [b[0], b[1], b[2], b[3]];
    proof {
        assert(id@ =~= b@.subrange(0, 4));
    }
    if !check_frame_id(&id) {
        return Err(TagParseError::MalformedFrame);
    }
    let n: u32;
    if v4 {
        if !(b[4] < 0x80 && b[5] < 0x80 && b[6] < 0x80 && b[7] < 0x80) {
            return Err(TagParseError::MalformedFrame);
        }
        n = decode_synchsafe(b[4], b[5], b[6], b[7]);
        proof {
            assert(synchsafe_value(b@[4], b@[5], b@[6], b@[7]) == n);
        }
    } else {
        n = decode_be32(b[4], b[5], b[6], b[7]);
    }
    if n as u64 > (n_total - 10) as u64 {
        return Err(TagParseError::TruncatedFrame);
    }
    let n_us = n as usize;
    let content = vstd::slice::slice_subrange(b, 10, 10 + n_us);
    proof {
        assert(content@ =~= b@.subrange(10, 10 + n as int));
    }
    match parse_content_vec(&id, content) {
        None => Err(TagParseError::MalformedFrame),
        Some(c) => {
            let tail = vstd::slice::slice_subrange(b, 10 + n_us, n_total);
            proof {
                assert(tail@ =~= b@.skip(10 + n as int));
            }
            match decode_frames(tail, v4) {
                Err(e) => Err(e),
                Ok(mut rest) => {
                    let ghost rest0 = rest@;
                    let fr = FrameRec { id, content: c };
                    rest.insert(0, fr);
                    proof {
                        assert(rest@.drop_first() =~= rest0);
                        assert(rest@[0] == fr);
                        assert(frames_view(rest@) =~= seq![
                            FrameModel { id: id@, content: c@ },
                        ] + frames_view(rest0));
                    }
                    Ok(rest)
                },
            }
        },
    }
}

/// Reads an ID3v2 tag from the start of a byte source.
pub fn decode_v2(b: &[u8]) -> (r: Result<(Header, Tag), TagParseError>)
    ensures
        match r {
            Ok(ht) => spec_decode_v2(b@) == Ok::<_, TagParseError>((ht.0, ht.1@)),
            Err(e) => spec_decode_v2(b@) == Err::<(Header, Seq<FrameModel>), _>(e),
        },
{
    let n_total = b.len();
    if n_total < 10 || !(b[0] == 73 && b[1] == 68 && b[2] == 51) {
        return Err(TagParseError::NotPresent);
    }
    if !(b[3] == 3 || b[3] == 4) {
        return Err(TagParseError::UnsupportedVersion);
    }
    if !(b[6] < 0x80 && b[7] < 0x80 && b[8] < 0x80 && b[9] < 0x80) {
        return Err(TagParseError::MalformedFrame);
    }
    let size = decode_synchsafe(b[6], b[7], b[8], b[9]);
    let flags = b[5];
    let hdr = Header {
        major: b[3],
        minor: b[4],
        unsync: flags & 0x80 != 0,
        extended: flags & 0x40 != 0,
        experimental: flags & 0x20 != 0,
        footer: flags & 0x10 != 0,
        size,
    };
    proof {
        assert(hdr == header_model(b@));
    }
    let v4 = b[3] == 4;
    if (n_total as u64) < 10 + size as u64 {
        return Err(TagParseError::TruncatedFrame);
    }
    let raw = vstd::slice::slice_subrange(b, 10, 10 + size as usize);
    proof {
        assert(raw@ =~= b@.subrange(10, 10 + size as int));
    }
    let data: Vec<u8> = if hdr.unsync {
        remove_unsync_vec(raw)
    } else {
        slice_to_vec(raw)
    };
    let stream: &[u8];
    if hdr.extended {
        let d = data.as_slice();
        if d.len() < 4 {
            return Err(TagParseError::TruncatedFrame);
        }
        if v4 {
            if !(d[0] < 0x80 && d[1] < 0x80 && d[2] < 0x80 && d[3] < 0x80) {
                return Err(TagParseError::MalformedFrame);
            }
            let en = decode_synchsafe(d[0], d[1], d[2], d[3]);
            if en < 6 {
                return Err(TagParseError::MalformedFrame);
            }
            if en as u64 > d.len() as u64 {
                return Err(TagParseError::TruncatedFrame);
            }
            stream = vstd::slice::slice_subrange(d, en as usize, d.len());
            proof {
                assert(stream@ =~= data@.skip(en as int));
            }
        } else {
            let en = decode_be32(d[0], d[1], d[2], d[3]);
            if en as u64 > (d.len() - 4) as u64 {
                return Err(TagParseError::TruncatedFrame);
            }
            stream = vstd::slice::slice_subrange(d, 4 + en as usize, d.len());
            proof {
                assert(stream@ =~= data@.skip(4 + en as int));
            }
        }
    } else {
        stream = data.as_slice();
    }
    match decode_frames(stream, v4) {
        Err(e) => Err(e),
        Ok(frames) => Ok((hdr, Tag { frames })),
    }
}

} // verus!
