//! The in-memory tag model: frames, text encodings, headers and errors.

use vstd::prelude::*;
use crate::bytes::{zero_free, pair_free};

verus! {

/// The four ID3v2 text encodings, by their one-byte markers:
/// ISO-8859-1 is 0, UTF-16 with BOM is 1, UTF-16BE is 2, UTF-8 is 3.
#[derive(Clone, Copy, Debug, PartialEq, Eq, Structural)]
pub enum TextEncoding {
    Latin1,
    Utf16,
    Utf16Be,
    Utf8,
}

/// A string as stored in a frame: the raw bytes in one of the four
/// encodings, together with that encoding. Keeping the bytes rather than a
/// decoded string preserves the source encoding exactly on re-encoding.
#[derive(Clone, Debug, PartialEq, Eq)]
pub struct EncodedString {
    pub encoding: TextEncoding,
    pub data: Vec<u8>,
}

/// The content of one frame.
#[derive(Clone, Debug, PartialEq, Eq)]
pub enum FrameContent {
    /// A single text value (frame identifiers starting with `T`).
    Text(EncodedString),
    /// A multi-valued text frame: values separated by a 0x00 byte on the
    /// wire. Only meaningful for the single-byte encodings (ISO-8859-1 and
    /// UTF-8); UTF-16 text is kept whole as `Text`.
    TextList { encoding: TextEncoding, parts: Vec<Vec<u8>> },
    /// An integer for track- and year-like frames set programmatically;
    /// serialised as ISO-8859-1 decimal text.
    Numeric(u32),
    /// Raw bytes of a frame whose identifier the codec does not interpret,
    /// retained opaquely for non-destructive round-tripping.
    Binary(Vec<u8>),
    /// A comment frame (`COMM`): language code, description and text.
    Comment { encoding: TextEncoding, lang: [u8; 3], desc: Vec<u8>, text: Vec<u8> },
}

/// One frame: a four-byte identifier and its content.
#[derive(Clone, Debug, PartialEq, Eq)]
pub struct FrameRec {
    pub id: [u8; 4],
    pub content: FrameContent,
}

/// A tag: its frames in insertion order.
#[derive(Clone, Debug, PartialEq, Eq)]
pub struct Tag {
    pub frames: Vec<FrameRec>,
}

/// A decoded ID3v2 tag header.
#[derive(Clone, Copy, Debug, PartialEq, Eq, Structural)]
pub struct Header {
    pub major: u8,
    pub minor: u8,
    pub unsync: bool,
    pub extended: bool,
    pub experimental: bool,
    pub footer: bool,
    /// Declared size of the tag in bytes, excluding the ten-byte header.
    pub size: u32,
}

/// Decode failures.
#[derive(Clone, Copy, Debug, PartialEq, Eq, Structural)]
pub enum TagParseError {
    /// No tag marker at the expected place; recoverable by version fallback.
    NotPresent,
    /// An `ID3` marker with a major version this codec does not handle.
    UnsupportedVersion,
    /// A frame or header claims more bytes than remain.
    TruncatedFrame,
    /// Frame content violates its expected shape.
    MalformedFrame,
}

/// The one-byte marker of a text encoding.
pub open spec fn enc_marker(e: TextEncoding) -> u8 {
    match e {
        TextEncoding::Latin1 => 0,
        TextEncoding::Utf16 => 1,
        TextEncoding::Utf16Be => 2,
        TextEncoding::Utf8 => 3,
    }
}

/// The encoding a marker byte denotes, if any.
pub open spec fn marker_encoding(b: u8) -> Option<TextEncoding> {
    if b == 0 {
        Some(TextEncoding::Latin1)
    } else if b == 1 {
        Some(TextEncoding::Utf16)
    } else if b == 2 {
        Some(TextEncoding::Utf16Be)
    } else if b == 3 {
        Some(TextEncoding::Utf8)
    } else {
        None
    }
}

/// Whether the encoding is two bytes per code unit (UTF-16 variants), which
/// makes the on-wire text terminator a 0x00 0x00 pair rather than one 0x00.
pub open spec fn is_wide(e: TextEncoding) -> bool {
    e == TextEncoding::Utf16 || e == TextEncoding::Utf16Be
}

/// Writes the marker byte of an encoding.
pub fn encoding_marker_byte(e: TextEncoding) -> (b: u8)
    ensures
        b == enc_marker(e),
{
    match e {
        TextEncoding::Latin1 => 0,
        TextEncoding::Utf16 => 1,
        TextEncoding::Utf16Be => 2,
        TextEncoding::Utf8 => 3,
    }
}

/// Reads an encoding marker byte.
pub fn byte_to_encoding(b: u8) -> (r: Option<TextEncoding>)
    ensures
        r == marker_encoding(b),
{
    if b == 0 {
        Some(TextEncoding::Latin1)
    } else if b == 1 {
        Some(TextEncoding::Utf16)
    } else if b == 2 {
        Some(TextEncoding::Utf16Be)
    } else if b == 3 {
        Some(TextEncoding::Utf8)
    } else {
        None
    }
}

/// A valid frame identifier: exactly four bytes, each an uppercase ASCII
/// letter or a decimal digit.
pub open spec fn valid_frame_id(id: Seq<u8>) -> bool {
    &&& id.len() == 4
    &&& forall|i: int|
        0 <= i < 4 ==> (65 <= #[trigger] id[i] <= 90 || 48 <= id[i] <= 57)
}

/// Identifiers beginning with `T` denote text frames.
pub open spec fn is_text_id(id: Seq<u8>) -> bool {
    valid_frame_id(id) && id[0] == 84
}

/// The `COMM` identifier of comment frames.
pub open spec fn comm_id() -> Seq<u8> {
    seq![67u8, 79u8, 77u8, 77u8]
}

pub open spec fn is_comm_id(id: Seq<u8>) -> bool {
    id =~= comm_id()
}

/// The mathematical content of a frame: `FrameContent` with every byte
/// vector abstracted to a byte sequence.
pub ghost enum ContentModel {
    Text { encoding: TextEncoding, data: Seq<u8> },
    TextList { encoding: TextEncoding, parts: Seq<Seq<u8>> },
    Numeric(u32),
    Binary(Seq<u8>),
    Comment { encoding: TextEncoding, lang: Seq<u8>, desc: Seq<u8>, text: Seq<u8> },
}

/// The mathematical content of a frame together with its identifier.
pub ghost struct FrameModel {
    pub id: Seq<u8>,
    pub content: ContentModel,
}

impl View for FrameContent {
    type V = ContentModel;

    open spec fn view(&self) -> ContentModel {
        match self {
            FrameContent::Text(es) => ContentModel::Text {
                encoding: es.encoding,
                data: es.data@,
            },
            FrameContent::TextList { encoding, parts } => ContentModel::TextList {
                encoding: *encoding,
                parts: parts.deep_view(),
            },
            FrameContent::Numeric(n) => ContentModel::Numeric(*n),
            FrameContent::Binary(b) => ContentModel::Binary(b@),
            FrameContent::Comment { encoding, lang, desc, text } => ContentModel::Comment {
                encoding: *encoding,
                lang: lang@,
                desc: desc@,
                text: text@,
            },
        }
    }
}

impl View for FrameRec {
    type V = FrameModel;

    open spec fn view(&self) -> FrameModel {
        FrameModel { id: self.id@, content: self.content@ }
    }
}

/// The frame sequence a vector of frames stands for.
pub open spec fn frames_view(v: Seq<FrameRec>) -> Seq<FrameModel> {
    Seq::new(v.len(), |i: int| v[i]@)
}

impl View for Tag {
    type V = Seq<FrameModel>;

    open spec fn view(&self) -> Seq<FrameModel> {
        frames_view(self.frames@)
    }
}

/// Content in the exact shape the decoder produces — the shape whose
/// serialisation decodes back to itself:
/// - a single text value has no zero byte (single-byte encodings) or no
///   trailing zero pair (UTF-16 encodings);
/// - a multi-valued text list is only used with the single-byte encodings,
///   has at least two zero-free values, the last of them non-empty;
/// - a comment's language is three bytes and its description contains no
///   terminator for its encoding;
/// - `Numeric` is a convenience for setters and is serialised as decimal
///   text, so it never comes back from the decoder;
/// - opaque binary content bears an identifier the codec does not interpret.
pub open spec fn canonical_content(id: Seq<u8>, c: ContentModel) -> bool {
    match c {
        ContentModel::Text { encoding, data } => {
            &&& is_text_id(id)
            &&& if is_wide(encoding) {
                data.len() < 2 || !(data[data.len() - 1] == 0 && data[data.len() - 2] == 0)
            } else {
                zero_free(data)
            }
        },
        ContentModel::TextList { encoding, parts } => {
            &&& is_text_id(id)
            &&& !is_wide(encoding)
            &&& parts.len() >= 2
            &&& forall|k: int| 0 <= k < parts.len() ==> zero_free(#[trigger] parts[k])
            &&& parts.last().len() > 0
        },
        ContentModel::Numeric(_) => false,
        ContentModel::Binary(_) => {
            &&& valid_frame_id(id)
            &&& !is_text_id(id)
            &&& !is_comm_id(id)
        },
        ContentModel::Comment { encoding, lang, desc, text } => {
            &&& is_comm_id(id)
            &&& lang.len() == 3
            &&& if is_wide(encoding) {
                desc.len() % 2 == 0 && pair_free(desc)
            } else {
                zero_free(desc)
            }
        },
    }
}

/// A frame the decoder could have produced.
pub open spec fn canonical_frame(f: FrameModel) -> bool {
    valid_frame_id(f.id) && canonical_content(f.id, f.content)
}

/// The position of the first frame bearing `id`, or -1.
pub open spec fn first_index_of_id(s: Seq<FrameModel>, id: Seq<u8>) -> int
    decreases s.len(),
{
    if s.len() == 0 {
        -1
    } else if s[0].id == id {
        0
    } else {
        let r = first_index_of_id(s.drop_first(), id);
        if r < 0 {
            -1
        } else {
            r + 1
        }
    }
}

pub proof fn lemma_first_index_bounds(s: Seq<FrameModel>, id: Seq<u8>)
    ensures
        -1 <= first_index_of_id(s, id) < s.len(),
        first_index_of_id(s, id) >= 0 ==> s[first_index_of_id(s, id)].id == id,
    decreases s.len(),
{
    if s.len() == 0 {
    } else if s[0].id == id {
    } else {
        lemma_first_index_bounds(s.drop_first(), id);
    }
}

/// `first_index_of_id` finds the first match: it is `i` exactly when no
/// frame before `i` bears the identifier and either `i` is past the end
/// (then -1) or frame `i` bears it.
pub proof fn lemma_first_index_is(s: Seq<FrameModel>, id: Seq<u8>, i: int)
    requires
        0 <= i <= s.len(),
        forall|j: int| 0 <= j < i ==> (#[trigger] s[j]).id != id,
        i < s.len() ==> s[i].id == id,
    ensures
        first_index_of_id(s, id) == if i == s.len() {
            -1int
        } else {
            i
        },
    decreases s.len(),
{
    if s.len() == 0 {
    } else if i == 0 {
        if s[0].id != id {
            lemma_first_index_bounds(s.drop_first(), id);
        }
    } else {
        assert(s[0].id != id);
        lemma_first_index_is(s.drop_first(), id, i - 1);
    }
}

/// The frame sequence after setting `id` to `content`: the first frame
/// bearing `id` is replaced in place, or a new frame is appended when none
/// bears it.
pub open spec fn spec_set_frame(s: Seq<FrameModel>, id: Seq<u8>, content: ContentModel) -> Seq<
    FrameModel,
> {
    let i = first_index_of_id(s, id);
    let f = FrameModel { id, content };
    if i >= 0 {
        s.update(i, f)
    } else {
        s.push(f)
    }
}

/// The single text value a frame's content carries, if any: a `Text` value
/// itself, the first value of a multi-valued list, or a numeric value as
/// ISO-8859-1 decimal text.
pub open spec fn spec_content_text(c: ContentModel) -> Option<(TextEncoding, Seq<u8>)> {
    match c {
        ContentModel::Text { encoding, data } => Some((encoding, data)),
        ContentModel::TextList { encoding, parts } => if parts.len() > 0 {
            Some((encoding, parts[0]))
        } else {
            None
        },
        ContentModel::Numeric(n) => Some(
            (TextEncoding::Latin1, crate::bytes::dec_digits(n as nat)),
        ),
        ContentModel::Binary(_) => None,
        ContentModel::Comment { .. } => None,
    }
}

/// Reads the single text value of a frame's content, if any.
pub fn content_text_value(c: &FrameContent) -> (r: Option<EncodedString>)
    ensures
        match r {
            Some(es) => spec_content_text(c@) == Some((es.encoding, es.data@)),
            None => spec_content_text(c@) is None,
        },
{
    match c {
        FrameContent::Text(es) => Some(
            EncodedString {
                encoding: es.encoding,
                data: vstd::slice::slice_to_vec(es.data.as_slice()),
            },
        ),
        FrameContent::TextList { encoding, parts } => {
            if parts.len() > 0 {
                let data = vstd::slice::slice_to_vec(parts[0].as_slice());
                proof {
                    assert(data@ =~= parts.deep_view()[0]);
                }
                Some(EncodedString { encoding: *encoding, data })
            } else {
                None
            }
        },
        FrameContent::Numeric(n) => Some(
            EncodedString { encoding: TextEncoding::Latin1, data: crate::bytes::decimal_digits(*n) },
        ),
        FrameContent::Binary(_) => None,
        FrameContent::Comment { .. } => None,
    }
}

impl Tag {
    /// An empty tag, for fresh writes.
    pub fn new() -> (t: Tag)
        ensures
            t@ =~= Seq::<FrameModel>::empty(),
    {
        Tag { frames: Vec::new() }
    }

    /// The position of the first frame bearing `id`, if any.
    pub fn find_frame(&self, id: &[u8; 4]) -> (r: Option<usize>)
        ensures
            match r {
                Some(i) => first_index_of_id(self@, id@) == i as int,
                None => first_index_of_id(self@, id@) == -1,
            },
    {
        let mut i: usize = 0;
        while i < self.frames.len()
            invariant
                i <= self.frames@.len(),
                forall|j: int| 0 <= j < i ==> (#[trigger] self@[j]).id != id@,
            decreases self.frames@.len() - i,
        {
            let f = &self.frames[i];
            if f.id[0] == id[0] && f.id[1] == id[1] && f.id[2] == id[2] && f.id[3] == id[3] {
                proof {
                    assert(self@[i as int].id =~= id@);
                    lemma_first_index_is(self@, id@, i as int);
                }
                return Some(i);
            }
            proof {
                assert(self@[i as int].id != id@) by {
                    if self@[i as int].id == id@ {
                        assert(self@[i as int].id[0] == id@[0]);
                    }
                }
            }
            i = i + 1;
        }
        proof {
            lemma_first_index_is(self@, id@, self@.len() as int);
        }
        None
    }

    /// The content of the first frame bearing `id`, if any.
    pub fn frame_content(&self, id: &[u8; 4]) -> (r: Option<&FrameContent>)
        ensures
            match r {
                Some(c) => {
                    &&& first_index_of_id(self@, id@) >= 0
                    &&& c@ == self@[first_index_of_id(self@, id@)].content
                },
                None => first_index_of_id(self@, id@) == -1,
            },
    {
        match self.find_frame(id) {
            Some(i) => {
                proof {
                    lemma_first_index_bounds(self@, id@);
                }
                Some(&self.frames[i].content)
            },
            None => None,
        }
    }

    /// Replaces the content of the first frame bearing `id`, keeping its
    /// position, or appends a new frame when none bears it.
    pub fn set_frame(&mut self, id: &[u8; 4], content: FrameContent)
        ensures
            final(self)@ == spec_set_frame(old(self)@, id@, content@),
    {
        let ghost content_m = content@;
        let fr = FrameRec { id: *id, content };
        match self.find_frame(id) {
            Some(i) => {
                proof {
                    lemma_first_index_bounds(self@, id@);
                }
                self.frames.remove(i);
                self.frames.insert(i, fr);
                proof {
                    assert(frames_view(self.frames@) =~= frames_view(old(self).frames@).update(
                        i as int,
                        FrameModel { id: id@, content: content_m },
                    ));
                }
            },
            None => {
                self.frames.push(fr);
                proof {
                    assert(frames_view(self.frames@) =~= frames_view(old(self).frames@).push(
                        FrameModel { id: id@, content: content_m },
                    ));
                }
            },
        }
    }

    /// Sets a single-valued text frame.
    pub fn set_text_frame(&mut self, id: &[u8; 4], value: EncodedString)
        ensures
            final(self)@ == spec_set_frame(
                old(self)@,
                id@,
                ContentModel::Text { encoding: value.encoding, data: value.data@ },
            ),
    {
        self.set_frame(id, FrameContent::Text(value));
    }

    /// Sets a numeric frame (serialised as decimal text).
    pub fn set_numeric_frame(&mut self, id: &[u8; 4], n: u32)
        ensures
            final(self)@ == spec_set_frame(old(self)@, id@, ContentModel::Numeric(n)),
    {
        self.set_frame(id, FrameContent::Numeric(n));
    }
}

/// Checks a frame identifier byte-by-byte.
pub fn check_frame_id(id: &[u8; 4]) -> (r: bool)
    ensures
        r == valid_frame_id(id@),
{
    let mut i: usize = 0;
    while i < 4
        invariant
            i <= 4,
            forall|j: int| 0 <= j < i ==> (65 <= #[trigger] id@[j] <= 90 || 48 <= id@[j] <= 57),
        decreases 4 - i,
    {
        let b = id[i];
        if !((65 <= b && b <= 90) || (48 <= b && b <= 57)) {
            return false;
        }
        i = i + 1;
    }
    true
}

} // verus!
