//! Tag resolution: try ID3v2 at the front, fall back to the ID3v1 trailer
//! only when no ID3v2 marker is present; and splicing an encoded tag back
//! into a byte source.

use vstd::prelude::*;
use vstd::slice::slice_to_vec;
use crate::synch::{synchsafe_value, decode_synchsafe};
use crate::tag::{FrameModel, Header, Tag, TagParseError};
use crate::v1::{V1Model, V1Tag, decode_v1, spec_decode_v1, trim_padding};
use crate::v2::{decode_v2, spec_decode_v2};

verus! {

/// Where tag resolution can land: an ID3v2 tag at the front, an ID3v1
/// trailer, or no tag at all.
#[derive(Clone, Debug)]
pub enum Resolution {
    V2Found(Header, Tag),
    V1Found(V1Tag),
    NoTag,
}

/// The mathematical content of a `Resolution`.
pub ghost enum ResolutionModel {
    V2Found(Header, Seq<FrameModel>),
    V1Found(V1Model),
    NoTag,
}

impl View for Resolution {
    type V = ResolutionModel;

    open spec fn view(&self) -> ResolutionModel {
        match self {
            Resolution::V2Found(h, t) => ResolutionModel::V2Found(*h, t@),
            Resolution::V1Found(v) => ResolutionModel::V1Found(v@),
            Resolution::NoTag => ResolutionModel::NoTag,
        }
    }
}

/// The tag a byte source resolves to. An ID3v2 decode that fails with
/// `NotPresent` falls back to the ID3v1 trailer; one that fails any other
/// way is a data-integrity problem and surfaces at once, never retried as
/// ID3v1. An absent ID3v1 trailer after the fallback is no tag at all, and
/// not an error here: the caller decides whether absence is one.
pub open spec fn spec_resolve(b: Seq<u8>) -> Result<ResolutionModel, TagParseError> {
    match spec_decode_v2(b) {
        Ok((h, fs)) => Ok(ResolutionModel::V2Found(h, fs)),
        Err(TagParseError::NotPresent) => match spec_decode_v1(b) {
            Ok(m) => Ok(ResolutionModel::V1Found(m)),
            Err(_) => Ok(ResolutionModel::NoTag),
        },
        Err(e) => Err(e),
    }
}

/// Resolves the tag of a byte source.
pub fn resolve(b: &[u8]) -> (r: Result<Resolution, TagParseError>)
    ensures
        match r {
            Ok(res) => spec_resolve(b@) == Ok::<_, TagParseError>(res@),
            Err(e) => spec_resolve(b@) == Err::<ResolutionModel, _>(e),
        },
{
    match decode_v2(b) {
        Ok((h, t)) => Ok(Resolution::V2Found(h, t)),
        Err(TagParseError::NotPresent) => match decode_v1(b) {
            Ok(v) => Ok(Resolution::V1Found(v)),
            Err(_) => Ok(Resolution::NoTag),
        },
        Err(e) => Err(e),
    }
}

/// Corruption is not absence: an ID3v2 decode failure other than
/// `NotPresent` — a truncated frame among them — surfaces as that same
/// failure from resolution, and the ID3v1 fallback is not consulted.
pub proof fn lemma_corruption_not_absence(b: Seq<u8>, e: TagParseError)
    requires
        spec_decode_v2(b) == Err::<(Header, Seq<FrameModel>), _>(e),
        e != TagParseError::NotPresent,
    ensures
        spec_resolve(b) == Err::<ResolutionModel, _>(e),
{
}

/// Fallback correctness: a byte source with no ID3v2 marker but a valid
/// trailing ID3v1 block resolves to that ID3v1 tag, its fields read from
/// the trailer's fixed offsets and right-trimmed of padding.
pub proof fn lemma_fallback_to_v1(b: Seq<u8>)
    requires
        spec_decode_v2(b) == Err::<(Header, Seq<FrameModel>), _>(TagParseError::NotPresent),
        spec_decode_v1(b) is Ok,
    ensures
        b.len() >= 128,
        spec_resolve(b) == Ok::<_, TagParseError>(
            ResolutionModel::V1Found(spec_decode_v1(b)->Ok_0),
        ),
        ({
            let t = b.skip(b.len() - 128);
            let m = spec_decode_v1(b)->Ok_0;
            &&& m.title == trim_padding(t.subrange(3, 33))
            &&& m.artist == trim_padding(t.subrange(33, 63))
            &&& m.album == trim_padding(t.subrange(63, 93))
            &&& m.year == trim_padding(t.subrange(93, 97))
            &&& m.comment == if t[125] == 0 && t[126] != 0 {
                trim_padding(t.subrange(97, 125))
            } else {
                trim_padding(t.subrange(97, 127))
            }
            &&& m.track == if t[125] == 0 && t[126] != 0 {
                Some(t[126])
            } else {
                None::<u8>
            }
            &&& m.genre == t[127]
        }),
{
}

/// The length of the ID3v2 tag region at the front of a byte source: the
/// ten header bytes plus the declared size, when an `ID3` marker with sound
/// synchsafe size bytes is there and the source covers the declared size;
/// zero otherwise.
pub open spec fn spec_tag_region(b: Seq<u8>) -> int {
    if b.len() >= 10 && b[0] == 73 && b[1] == 68 && b[2] == 51 && b[6] < 0x80 && b[7] < 0x80 && b[8]
        < 0x80 && b[9] < 0x80 && b.len() >= 10 + synchsafe_value(b[6], b[7], b[8], b[9]) {
        10 + synchsafe_value(b[6], b[7], b[8], b[9])
    } else {
        0
    }
}

/// What a byte source becomes when an encoded tag replaces its tag region:
/// a new tag no larger than the old region is padded with zero bytes to the
/// old boundary, so the bytes after the region keep their positions; a
/// larger one shifts them forward; with no existing region the tag is
/// prepended. The bytes after the old region are preserved unchanged.
pub open spec fn spec_apply_tag(file: Seq<u8>, tagb: Seq<u8>) -> Seq<u8> {
    let region = spec_tag_region(file);
    if tagb.len() <= region {
        tagb + Seq::new((region - tagb.len()) as nat, |i: int| 0u8) + file.skip(region)
    } else {
        tagb + file.skip(region)
    }
}

/// Measures the ID3v2 tag region at the front of a byte source.
pub fn tag_region(b: &[u8]) -> (r: usize)
    ensures
        r as int == spec_tag_region(b@),
{
    let n = b.len();
    if n >= 10 && b[0] == 73 && b[1] == 68 && b[2] == 51 && b[6] < 0x80 && b[7] < 0x80 && b[8]
        < 0x80 && b[9] < 0x80 {
        let size = decode_synchsafe(b[6], b[7], b[8], b[9]);
        if (n as u64) >= 10 + size as u64 {
            10 + size as usize
        } else {
            0
        }
    } else {
        0
    }
}

/// Splices an encoded tag into a byte source in place of its tag region.
pub fn apply_tag_to_file(file: &[u8], tagb: &[u8]) -> (r: Vec<u8>)
    ensures
        r@ == spec_apply_tag(file@, tagb@),
{
    let region = tag_region(file);
    let mut r = slice_to_vec(tagb);
    if tagb.len() <= region {
        let pad = region - tagb.len();
        let mut zeros: Vec<u8> = vec![0u8; pad];
        r.append(&mut zeros);
    }
    let rest = vstd::slice::slice_subrange(file, region, file.len());
    let mut rest_v = slice_to_vec(rest);
    r.append(&mut rest_v);
    proof {
        assert(rest@ =~= file@.skip(spec_tag_region(file@)));
        assert(r@ =~= spec_apply_tag(file@, tagb@));
    }
    r
}

} // verus!
