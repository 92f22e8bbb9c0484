//! The per-file operations: reading requested fields out of whatever tag a
//! byte source resolves to, and writing new field values back as ID3v2.4.

use vstd::prelude::*;
use vstd::string::StrSliceExecFns;
use vstd::utf8::encode_utf8;
use crate::bridge::{
    spec_bridge, v1_to_v2, id_tpe1, id_talb, id_tit2, id_tyer, id_trck, spec_id_tpe1, spec_id_talb,
    spec_id_tit2, spec_id_tyer, spec_id_trck,
};
use crate::bytes::{dec_digits, decimal_digits};
use crate::cli::{Cli, Command, CommandModel, ReadFields, WriteFields, WriteFieldsModel};
use crate::resolve::{
    Resolution, ResolutionModel, resolve, spec_resolve, spec_apply_tag, apply_tag_to_file,
};
use crate::tag::{
    ContentModel, EncodedString, FrameModel, Tag, TagParseError, TextEncoding, first_index_of_id,
    spec_content_text, spec_set_frame, content_text_value,
};
use crate::v2::{tag_encodable, tag_model_bytes, encode_tag};

verus! {

/// One field of a read's outcome: not asked for, asked for but absent, or
/// present with its text value.
#[derive(Clone, Debug, PartialEq, Eq)]
pub enum FieldView {
    NotRequested,
    Absent,
    Present(EncodedString),
}

/// The mathematical content of a `FieldView`.
pub ghost enum FieldViewModel {
    NotRequested,
    Absent,
    Present(TextEncoding, Seq<u8>),
}

impl View for FieldView {
    type V = FieldViewModel;

    open spec fn view(&self) -> FieldViewModel {
        match self {
            FieldView::NotRequested => FieldViewModel::NotRequested,
            FieldView::Absent => FieldViewModel::Absent,
            FieldView::Present(es) => FieldViewModel::Present(es.encoding, es.data@),
        }
    }
}

/// What a read reports for each field.
#[derive(Clone, Debug, PartialEq, Eq)]
pub struct ReadOutcome {
    pub artist: FieldView,
    pub album: FieldView,
    pub track: FieldView,
    pub title: FieldView,
    pub year: FieldView,
}

/// The mathematical content of a `ReadOutcome`.
pub ghost struct ReadOutcomeModel {
    pub artist: FieldViewModel,
    pub album: FieldViewModel,
    pub track: FieldViewModel,
    pub title: FieldViewModel,
    pub year: FieldViewModel,
}

impl View for ReadOutcome {
    type V = ReadOutcomeModel;

    open spec fn view(&self) -> ReadOutcomeModel {
        ReadOutcomeModel {
            artist: self.artist@,
            album: self.album@,
            track: self.track@,
            title: self.title@,
            year: self.year@,
        }
    }
}

/// A write failure: the byte source's tag could not be decoded, or the tag
/// to be written no longer fits its synchsafe size fields.
#[derive(Clone, Copy, Debug, PartialEq, Eq, Structural)]
pub enum WriteError {
    Decode(TagParseError),
    TooLarge,
}

/// What one requested field reports, against a frame sequence: the text
/// value of the first frame bearing the identifier, `Absent` when no frame
/// bears it or its content carries no single text value.
pub open spec fn spec_field(requested: bool, fs: Seq<FrameModel>, id: Seq<u8>) -> FieldViewModel {
    if !requested {
        FieldViewModel::NotRequested
    } else {
        let i = first_index_of_id(fs, id);
        if i < 0 {
            FieldViewModel::Absent
        } else {
            match spec_content_text(fs[i].content) {
                Some((e, d)) => FieldViewModel::Present(e, d),
                None => FieldViewModel::Absent,
            }
        }
    }
}

/// What a read reports against a frame sequence.
pub open spec fn spec_outcome(f: ReadFields, fs: Seq<FrameModel>) -> ReadOutcomeModel {
    ReadOutcomeModel {
        artist: spec_field(f.artist, fs, spec_id_tpe1()),
        album: spec_field(f.album, fs, spec_id_talb()),
        track: spec_field(f.track, fs, spec_id_trck()),
        title: spec_field(f.title, fs, spec_id_tit2()),
        year: spec_field(f.year, fs, spec_id_tyer()),
    }
}

/// What a read of a byte source reports. An ID3v2 tag answers directly. An
/// ID3v1 trailer answers through the version bridge only when conversion
/// was asked for, and is otherwise `NotPresent`, as is a source with no tag
/// at all. Any other ID3v2 decode failure surfaces unchanged.
pub open spec fn spec_read(f: ReadFields, b: Seq<u8>) -> Result<ReadOutcomeModel, TagParseError> {
    match spec_resolve(b) {
        Err(e) => Err(e),
        Ok(ResolutionModel::V2Found(_h, fs)) => Ok(spec_outcome(f, fs)),
        Ok(ResolutionModel::V1Found(m)) => if f.convert {
            Ok(spec_outcome(f, spec_bridge(m)))
        } else {
            Err(TagParseError::NotPresent)
        },
        Ok(ResolutionModel::NoTag) => Err(TagParseError::NotPresent),
    }
}

/// The year value a caller hands in, as frame text: decimal digits, with a
/// leading minus sign when negative.
pub open spec fn year_text_bytes(y: i32) -> Seq<u8> {
    if y < 0 {
        seq![45u8] + dec_digits((0 - y as int) as nat)
    } else {
        dec_digits(y as nat)
    }
}

/// The frame sequence after the requested field writes, in a fixed order:
/// artist (`TPE1`), album (`TALB`), track (`TRCK`), title (`TIT2`), year
/// (`TYER`). New text values are written UTF-8 encoded; a track number as
/// decimal text; an absent value leaves its field untouched.
pub open spec fn spec_apply_writes(w: WriteFieldsModel, s: Seq<FrameModel>) -> Seq<FrameModel> {
    let s1 = match w.artist {
        Some(a) => spec_set_frame(
            s,
            spec_id_tpe1(),
            ContentModel::Text { encoding: TextEncoding::Utf8, data: encode_utf8(a) },
        ),
        None => s,
    };
    let s2 = match w.album {
        Some(a) => spec_set_frame(
            s1,
            spec_id_talb(),
            ContentModel::Text { encoding: TextEncoding::Utf8, data: encode_utf8(a) },
        ),
        None => s1,
    };
    let s3 = match w.track {
        Some(n) => spec_set_frame(s2, spec_id_trck(), ContentModel::Numeric(n)),
        None => s2,
    };
    let s4 = match w.title {
        Some(a) => spec_set_frame(
            s3,
            spec_id_tit2(),
            ContentModel::Text { encoding: TextEncoding::Utf8, data: encode_utf8(a) },
        ),
        None => s3,
    };
    match w.year {
        Some(y) => spec_set_frame(
            s4,
            spec_id_tyer(),
            ContentModel::Text { encoding: TextEncoding::Latin1, data: year_text_bytes(y) },
        ),
        None => s4,
    }
}

/// What a byte source becomes under a write. An ID3v2 tag takes the field
/// writes and is re-encoded in place; an ID3v1 trailer is first bridged to
/// ID3v2.4 when conversion was asked for (the trailer itself stays), and is
/// otherwise `NotPresent`; a source with no tag is `NotPresent`. A decode
/// failure surfaces unchanged; a tag grown past its synchsafe size fields
/// is `TooLarge`.
pub open spec fn spec_write(w: WriteFieldsModel, b: Seq<u8>) -> Result<Seq<u8>, WriteError> {
    match spec_resolve(b) {
        Err(e) => Err(WriteError::Decode(e)),
        Ok(ResolutionModel::V2Found(_h, fs)) => {
            let fs2 = spec_apply_writes(w, fs);
            if tag_encodable(fs2) {
                Ok(spec_apply_tag(b, tag_model_bytes(fs2)))
            } else {
                Err(WriteError::TooLarge)
            }
        },
        Ok(ResolutionModel::V1Found(m)) => if w.convert {
            let fs2 = spec_apply_writes(w, spec_bridge(m));
            if tag_encodable(fs2) {
                Ok(spec_apply_tag(b, tag_model_bytes(fs2)))
            } else {
                Err(WriteError::TooLarge)
            }
        } else {
            Err(WriteError::Decode(TagParseError::NotPresent))
        },
        Ok(ResolutionModel::NoTag) => Err(WriteError::Decode(TagParseError::NotPresent)),
    }
}

/// Reports one requested field of a tag.
fn field_of(requested: bool, tag: &Tag, id: &[u8; 4]) -> (r: FieldView)
    ensures
        r@ == spec_field(requested, tag@, id@),
{
    if !requested {
        return FieldView::NotRequested;
    }
    match tag.frame_content(id) {
        None => FieldView::Absent,
        Some(c) => match content_text_value(c) {
            Some(es) => FieldView::Present(es),
            None => FieldView::Absent,
        },
    }
}

/// Reports every requested field of a tag.
fn outcome_of(fields: &ReadFields, tag: &Tag) -> (r: ReadOutcome)
    ensures
        r@ == spec_outcome(*fields, tag@),
{
    ReadOutcome {
        artist: field_of(fields.artist, tag, &id_tpe1()),
        album: field_of(fields.album, tag, &id_talb()),
        track: field_of(fields.track, tag, &id_trck()),
        title: field_of(fields.title, tag, &id_tit2()),
        year: field_of(fields.year, tag, &id_tyer()),
    }
}

/// Reads the requested fields from whatever tag the byte source holds.
pub fn read_tag_with_args(fields: &ReadFields, data: &[u8]) -> (r: Result<
    ReadOutcome,
    TagParseError,
>)
    ensures
        match r {
            Ok(o) => spec_read(*fields, data@) == Ok::<_, TagParseError>(o@),
            Err(e) => spec_read(*fields, data@) == Err::<ReadOutcomeModel, _>(e),
        },
{
    match resolve(data) {
        Err(e) => Err(e),
        Ok(Resolution::V2Found(_h, tag)) => Ok(outcome_of(fields, &tag)),
        Ok(Resolution::V1Found(v1)) => {
            if fields.convert {
                let tag = v1_to_v2(&v1);
                Ok(outcome_of(fields, &tag))
            } else {
                Err(TagParseError::NotPresent)
            }
        },
        Ok(Resolution::NoTag) => Err(TagParseError::NotPresent),
    }
}

/// Writes the year value as frame text.
fn year_text_vec(y: i32) -> (r: Vec<u8>)
    ensures
        r@ == year_text_bytes(y),
{
    if y < 0 {
        let mag = (-(y as i64)) as u32;
        let mut r: Vec<u8> = Vec::new();
        r.push(45);
        let mut digits = decimal_digits(mag);
        r.append(&mut digits);
        proof {
            assert(mag as nat == (0 - y as int) as nat);
            assert(r@ =~= year_text_bytes(y));
        }
        r
    } else {
        decimal_digits(y as u32)
    }
}

/// Applies the requested field writes to a tag.
fn apply_writes(fields: &WriteFields, tag: &mut Tag)
    ensures
        final(tag)@ == spec_apply_writes(fields@, old(tag)@),
{
    match &fields.artist {
        Some(s) => {
            let data = s.as_str().as_bytes_vec();
            tag.set_text_frame(&id_tpe1(), EncodedString { encoding: TextEncoding::Utf8, data });
        },
        None => {},
    }
    match &fields.album {
        Some(s) => {
            let data = s.as_str().as_bytes_vec();
            tag.set_text_frame(&id_talb(), EncodedString { encoding: TextEncoding::Utf8, data });
        },
        None => {},
    }
    match fields.track {
        Some(n) => {
            tag.set_numeric_frame(&id_trck(), n);
        },
        None => {},
    }
    match &fields.title {
        Some(s) => {
            let data = s.as_str().as_bytes_vec();
            tag.set_text_frame(&id_tit2(), EncodedString { encoding: TextEncoding::Utf8, data });
        },
        None => {},
    }
    match fields.year {
        Some(y) => {
            let data = year_text_vec(y);
            tag.set_text_frame(&id_tyer(), EncodedString { encoding: TextEncoding::Latin1, data });
        },
        None => {},
    }
}

/// Applies the field writes to whatever tag the byte source holds and
/// returns the whole byte source as it should be written back.
pub fn write_tag_with_args(fields: &WriteFields, data: &[u8]) -> (r: Result<Vec<u8>, WriteError>)
    ensures
        match r {
            Ok(out) => spec_write(fields@, data@) == Ok::<_, WriteError>(out@),
            Err(e) => spec_write(fields@, data@) == Err::<Seq<u8>, _>(e),
        },
{
    let tag: Tag;
    match resolve(data) {
        Err(e) => {
            return Err(WriteError::Decode(e));
        },
        Ok(Resolution::V2Found(_h, t)) => {
            tag = t;
        },
        Ok(Resolution::V1Found(v1)) => {
            if fields.convert {
                tag = v1_to_v2(&v1);
            } else {
                return Err(WriteError::Decode(TagParseError::NotPresent));
            }
        },
        Ok(Resolution::NoTag) => {
            return Err(WriteError::Decode(TagParseError::NotPresent));
        },
    }
    let mut tag = tag;
    apply_writes(fields, &mut tag);
    match encode_tag(&tag) {
        None => Err(WriteError::TooLarge),
        Some(tagb) => Ok(apply_tag_to_file(data, tagb.as_slice())),
    }
}

/// The outcome of one file's command: field values to report, or the new
/// byte source to write back.
#[derive(Clone, Debug)]
pub enum ProcessOutcome {
    Read(ReadOutcome),
    Write(Vec<u8>),
}

/// The mathematical content of a `ProcessOutcome`.
pub ghost enum ProcessOutcomeModel {
    Read(ReadOutcomeModel),
    Write(Seq<u8>),
}

impl View for ProcessOutcome {
    type V = ProcessOutcomeModel;

    open spec fn view(&self) -> ProcessOutcomeModel {
        match self {
            ProcessOutcome::Read(o) => ProcessOutcomeModel::Read(o@),
            ProcessOutcome::Write(v) => ProcessOutcomeModel::Write(v@),
        }
    }
}

/// What one file's command produces from its byte source.
pub open spec fn spec_process_file(cmd: CommandModel, b: Seq<u8>) -> Result<
    ProcessOutcomeModel,
    WriteError,
> {
    match cmd {
        CommandModel::Read(f) => match spec_read(f, b) {
            Ok(o) => Ok(ProcessOutcomeModel::Read(o)),
            Err(e) => Err(WriteError::Decode(e)),
        },
        CommandModel::Write(w) => match spec_write(w, b) {
            Ok(v) => Ok(ProcessOutcomeModel::Write(v)),
            Err(e) => Err(e),
        },
    }
}

/// Runs the invocation's command against one file's bytes.
pub fn process_file(args: &Cli, data: &[u8]) -> (r: Result<ProcessOutcome, WriteError>)
    ensures
        match r {
            Ok(o) => spec_process_file(args@.cmd, data@) == Ok::<_, WriteError>(o@),
            Err(e) => spec_process_file(args@.cmd, data@) == Err::<ProcessOutcomeModel, _>(e),
        },
{
    match &args.cmd {
        Command::Read(fields) => match read_tag_with_args(fields, data) {
            Ok(o) => Ok(ProcessOutcome::Read(o)),
            Err(e) => Err(WriteError::Decode(e)),
        },
        Command::Write(fields) => match write_tag_with_args(fields, data) {
            Ok(v) => Ok(ProcessOutcome::Write(v)),
            Err(e) => Err(e),
        },
    }
}

} // verus!
