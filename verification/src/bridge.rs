//! The version bridge: mapping a decoded ID3v1 tag onto the ID3v2.4 frame
//! model.

use vstd::prelude::*;
use vstd::string::StrSliceExecFns;
use vstd::utf8::encode_utf8;
use crate::tag::{ContentModel, FrameContent, FrameModel, FrameRec, Tag, TextEncoding, EncodedString, frames_view};
use crate::v1::{V1Model, V1Tag, GENRE_MAX, genre_name, spec_genre_name};

verus! {

pub open spec fn spec_id_tit2() -> Seq<u8> {
    seq![84u8, 73u8, 84u8, 50u8]
}

pub open spec fn spec_id_tpe1() -> Seq<u8> {
    seq![84u8, 80u8, 69u8, 49u8]
}

pub open spec fn spec_id_talb() -> Seq<u8> {
    seq![84u8, 65u8, 76u8, 66u8]
}

pub open spec fn spec_id_tyer() -> Seq<u8> {
    seq![84u8, 89u8, 69u8, 82u8]
}

pub open spec fn spec_id_trck() -> Seq<u8> {
    seq![84u8, 82u8, 67u8, 75u8]
}

pub open spec fn spec_id_tcon() -> Seq<u8> {
    seq![84u8, 67u8, 79u8, 78u8]
}

/// The `TIT2` (title) identifier.
pub fn id_tit2() -> (r: [u8; 4])
    ensures
        r@ == spec_id_tit2(),
{
    let r = [84, 73, 84, 50];
    proof {
        assert(r@ =~= spec_id_tit2());
    }
    r
}

/// The `TPE1` (lead artist) identifier.
pub fn id_tpe1() -> (r: [u8; 4])
    ensures
        r@ == spec_id_tpe1(),
{
    let r = [84, 80, 69, 49];
    proof {
        assert(r@ =~= spec_id_tpe1());
    }
    r
}

/// The `TALB` (album) identifier.
pub fn id_talb() -> (r: [u8; 4])
    ensures
        r@ == spec_id_talb(),
{
    let r = [84, 65, 76, 66];
    proof {
        assert(r@ =~= spec_id_talb());
    }
    r
}

/// The `TYER` (year) identifier.
pub fn id_tyer() -> (r: [u8; 4])
    ensures
        r@ == spec_id_tyer(),
{
    let r = [84, 89, 69, 82];
    proof {
        assert(r@ =~= spec_id_tyer());
    }
    r
}

/// The `TRCK` (track number) identifier.
pub fn id_trck() -> (r: [u8; 4])
    ensures
        r@ == spec_id_trck(),
{
    let r = [84, 82, 67, 75];
    proof {
        assert(r@ =~= spec_id_trck());
    }
    r
}

/// The `TCON` (genre) identifier.
pub fn id_tcon() -> (r: [u8; 4])
    ensures
        r@ == spec_id_tcon(),
{
    let r = [84, 67, 79, 78];
    proof {
        assert(r@ =~= spec_id_tcon());
    }
    r
}

/// A single-valued ISO-8859-1 text frame.
pub open spec fn latin1_text_frame(id: Seq<u8>, data: Seq<u8>) -> FrameModel {
    FrameModel { id, content: ContentModel::Text { encoding: TextEncoding::Latin1, data } }
}

/// A non-empty run of decimal digits.
pub open spec fn spec_is_decimal(s: Seq<u8>) -> bool {
    s.len() > 0 && forall|i: int| 0 <= i < s.len() ==> 48 <= #[trigger] s[i] <= 57
}

/// Checks for a non-empty run of decimal digits.
pub fn is_decimal(s: &[u8]) -> (r: bool)
    ensures
        r == spec_is_decimal(s@),
{
    if s.len() == 0 {
        return false;
    }
    let mut i: usize = 0;
    while i < s.len()
        invariant
            i <= s@.len(),
            forall|j: int| 0 <= j < i ==> 48 <= #[trigger] s@[j] <= 57,
        decreases s@.len() - i,
    {
        let b = s[i];
        if !(48 <= b && b <= 57) {
            return false;
        }
        i = i + 1;
    }
    true
}

/// The ID3v2.4 frames an ID3v1 tag maps to, in a fixed order: title to
/// `TIT2`, artist to `TPE1`, album to `TALB`, year to `TYER` (the source
/// text preserved exactly, included only when it is decimal digits), comment
/// to `COMM` with empty language and description, track (when the ID3v1.1
/// byte is present) to `TRCK` as decimal text, and a genre index within the
/// known table to `TCON` as the table's name. Absent or empty fields are
/// omitted rather than written as empty frames.
pub open spec fn spec_bridge(m: V1Model) -> Seq<FrameModel> {
    let t0 = Seq::<FrameModel>::empty();
    let t1 = if m.title.len() > 0 {
        t0.push(latin1_text_frame(spec_id_tit2(), m.title))
    } else {
        t0
    };
    let t2 = if m.artist.len() > 0 {
        t1.push(latin1_text_frame(spec_id_tpe1(), m.artist))
    } else {
        t1
    };
    let t3 = if m.album.len() > 0 {
        t2.push(latin1_text_frame(spec_id_talb(), m.album))
    } else {
        t2
    };
    let t4 = if spec_is_decimal(m.year) {
        t3.push(latin1_text_frame(spec_id_tyer(), m.year))
    } else {
        t3
    };
    let t5 = if m.comment.len() > 0 {
        t4.push(
            FrameModel {
                id: crate::tag::comm_id(),
                content: ContentModel::Comment {
                    encoding: TextEncoding::Latin1,
                    lang: seq![0u8, 0u8, 0u8],
                    desc: Seq::empty(),
                    text: m.comment,
                },
            },
        )
    } else {
        t4
    };
    let t6 = match m.track {
        Some(n) => t5.push(
            FrameModel { id: spec_id_trck(), content: ContentModel::Numeric(n as u32) },
        ),
        None => t5,
    };
    if m.genre <= GENRE_MAX {
        t6.push(
            FrameModel {
                id: spec_id_tcon(),
                content: ContentModel::Text {
                    encoding: TextEncoding::Utf8,
                    data: encode_utf8(spec_genre_name(m.genre)),
                },
            },
        )
    } else {
        t6
    }
}

/// Converts a decoded ID3v1 tag to the ID3v2.4 frame model.
pub fn v1_to_v2(v1: &V1Tag) -> (t: Tag)
    ensures
        t@ == spec_bridge(v1@),
{
    let mut frames: Vec<FrameRec> = Vec::new();
    proof {
        assert(frames_view(frames@) =~= Seq::<FrameModel>::empty());
    }
    if v1.title.len() > 0 {
        let data = vstd::slice::slice_to_vec(v1.title.as_slice());
        let ghost before = frames_view(frames@);
        frames.push(
            FrameRec {
                id: id_tit2(),
                content: FrameContent::Text(EncodedString { encoding: TextEncoding::Latin1, data }),
            },
        );
        proof {
            assert(frames_view(frames@) =~= before.push(latin1_text_frame(spec_id_tit2(), v1@.title)));
        }
    }
    if v1.artist.len() > 0 {
        let data = vstd::slice::slice_to_vec(v1.artist.as_slice());
        let ghost before = frames_view(frames@);
        frames.push(
            FrameRec {
                id: id_tpe1(),
                content: FrameContent::Text(EncodedString { encoding: TextEncoding::Latin1, data }),
            },
        );
        proof {
            assert(frames_view(frames@) =~= before.push(latin1_text_frame(spec_id_tpe1(), v1@.artist)));
        }
    }
    if v1.album.len() > 0 {
        let data = vstd::slice::slice_to_vec(v1.album.as_slice());
        let ghost before = frames_view(frames@);
        frames.push(
            FrameRec {
                id: id_talb(),
                content: FrameContent::Text(EncodedString { encoding: TextEncoding::Latin1, data }),
            },
        );
        proof {
            assert(frames_view(frames@) =~= before.push(latin1_text_frame(spec_id_talb(), v1@.album)));
        }
    }
    if is_decimal(v1.year.as_slice()) {
        let data = vstd::slice::slice_to_vec(v1.year.as_slice());
        let ghost before = frames_view(frames@);
        frames.push(
            FrameRec {
                id: id_tyer(),
                content: FrameContent::Text(EncodedString { encoding: TextEncoding::Latin1, data }),
            },
        );
        proof {
            assert(frames_view(frames@) =~= before.push(latin1_text_frame(spec_id_tyer(), v1@.year)));
        }
    }
    if v1.comment.len() > 0 {
        let text = vstd::slice::slice_to_vec(v1.comment.as_slice());
        let empty_desc: Vec<u8> = Vec::new();
        let ghost before = frames_view(frames@);
        frames.push(
            FrameRec {
                id: [67, 79, 77, 77],
                content: FrameContent::Comment {
                    encoding: TextEncoding::Latin1,
                    lang: [0, 0, 0],
                    desc: empty_desc,
                    text,
                },
            },
        );
        proof {
            assert([67u8, 79u8, 77u8, 77u8]@ =~= crate::tag::comm_id());
            assert([0u8, 0u8, 0u8]@ =~= seq![0u8, 0u8, 0u8]);
            assert(frames_view(frames@) =~= before.push(
                FrameModel {
                    id: crate::tag::comm_id(),
                    content: ContentModel::Comment {
                        encoding: TextEncoding::Latin1,
                        lang: seq![0u8, 0u8, 0u8],
                        desc: Seq::empty(),
                        text: v1@.comment,
                    },
                },
            ));
        }
    }
    match v1.track {
        Some(n) => {
            let ghost before = frames_view(frames@);
            frames.push(FrameRec { id: id_trck(), content: FrameContent::Numeric(n as u32) });
            proof {
                assert(frames_view(frames@) =~= before.push(
                    FrameModel { id: spec_id_trck(), content: ContentModel::Numeric(n as u32) },
                ));
            }
        },
        None => {},
    }
    if v1.genre <= GENRE_MAX {
        let name = genre_name(v1.genre);
        let data = name.as_bytes_vec();
        let ghost before = frames_view(frames@);
        frames.push(
            FrameRec {
                id: id_tcon(),
                content: FrameContent::Text(EncodedString { encoding: TextEncoding::Utf8, data }),
            },
        );
        proof {
            assert(frames_view(frames@) =~= before.push(
                FrameModel {
                    id: spec_id_tcon(),
                    content: ContentModel::Text {
                        encoding: TextEncoding::Utf8,
                        data: encode_utf8(spec_genre_name(v1@.genre)),
                    },
                },
            ));
        }
    }
    let t = Tag { frames };
    t
}

} // verus!
