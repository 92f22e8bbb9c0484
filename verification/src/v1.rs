//! The ID3v1 decoder: the fixed 128-byte trailer tag, and the genre table.

use vstd::prelude::*;
use crate::tag::TagParseError;

verus! {

/// The highest genre index the table defines; greater values are "Unknown".
pub const GENRE_MAX: u8 = 147;

/// A decoded ID3v1 tag. Fields hold the raw ISO-8859-1 bytes of the fixed
/// layout, right-trimmed of the zero and space padding.
#[derive(Clone, Debug, PartialEq, Eq)]
pub struct V1Tag {
    pub title: Vec<u8>,
    pub artist: Vec<u8>,
    pub album: Vec<u8>,
    pub year: Vec<u8>,
    pub comment: Vec<u8>,
    /// The ID3v1.1 track byte, present when byte 28 of the comment field is
    /// zero and byte 29 is not.
    pub track: Option<u8>,
    pub genre: u8,
}

/// The mathematical content of an ID3v1 tag.
pub ghost struct V1Model {
    pub title: Seq<u8>,
    pub artist: Seq<u8>,
    pub album: Seq<u8>,
    pub year: Seq<u8>,
    pub comment: Seq<u8>,
    pub track: Option<u8>,
    pub genre: u8,
}

impl View for V1Tag {
    type V = V1Model;

    open spec fn view(&self) -> V1Model {
        V1Model {
            title: self.title@,
            artist: self.artist@,
            album: self.album@,
            year: self.year@,
            comment: self.comment@,
            track: self.track,
            genre: self.genre,
        }
    }
}

/// `s` without its trailing zero and space padding.
pub open spec fn trim_padding(s: Seq<u8>) -> Seq<u8>
    decreases s.len(),
{
    if s.len() > 0 && (s[s.len() - 1] == 0 || s[s.len() - 1] == 32) {
        trim_padding(s.drop_last())
    } else {
        s
    }
}

/// What the final 128 bytes of a byte source hold, read as an ID3v1 tag.
///
/// `NotPresent` exactly when the source is shorter than 128 bytes or those
/// bytes do not begin with the `TAG` marker. The fixed field layout of the
/// trailer `t`: title `t[3..33]`, artist `t[33..63]`, album `t[63..93]`,
/// year `t[93..97]`, comment `t[97..127]`, genre `t[127]` — each text field
/// right-trimmed of zero and space padding. By the ID3v1.1 convention, when
/// comment byte 28 is zero and byte 29 is not, byte 29 is a binary track
/// number and the comment is only 28 bytes.
pub open spec fn spec_decode_v1(b: Seq<u8>) -> Result<V1Model, TagParseError> {
    if b.len() < 128 {
        Err(TagParseError::NotPresent)
    } else {
        let t = b.skip(b.len() - 128);
        if !(t[0] == 84 && t[1] == 65 && t[2] == 71) {
            Err(TagParseError::NotPresent)
        } else {
            let v1_1 = t[125] == 0 && t[126] != 0;
            Ok(
                V1Model {
                    title: trim_padding(t.subrange(3, 33)),
                    artist: trim_padding(t.subrange(33, 63)),
                    album: trim_padding(t.subrange(63, 93)),
                    year: trim_padding(t.subrange(93, 97)),
                    comment: if v1_1 {
                        trim_padding(t.subrange(97, 125))
                    } else {
                        trim_padding(t.subrange(97, 127))
                    },
                    track: if v1_1 {
                        Some(t[126])
                    } else {
                        None
                    },
                    genre: t[127],
                },
            )
        }
    }
}

/// Removes trailing zero and space padding.
pub fn trim_padding_vec(s: &[u8]) -> (r: Vec<u8>)
    ensures
        r@ == trim_padding(s@),
{
    let mut end: usize = s.len();
    proof {
        assert(s@.take(s@.len() as int) =~= s@);
    }
    while end > 0 && (s[end - 1] == 0 || s[end - 1] == 32)
        invariant
            end <= s@.len(),
            trim_padding(s@) == trim_padding(s@.take(end as int)),
        decreases end,
    {
        proof {
            assert(s@.take(end as int).drop_last() =~= s@.take(end - 1));
        }
        end = end - 1;
    }
    proof {
        assert(trim_padding(s@.take(end as int)) == s@.take(end as int));
    }
    crate::bytes::subrange_to_vec(s, 0, end)
}

/// Reads the trailing 128-byte ID3v1 tag of a byte source.
pub fn decode_v1(b: &[u8]) -> (r: Result<V1Tag, TagParseError>)
    ensures
        match r {
            Ok(v) => spec_decode_v1(b@) == Ok::<_, TagParseError>(v@),
            Err(e) => spec_decode_v1(b@) == Err::<V1Model, _>(e) && e == TagParseError::NotPresent,
        },
{
    let n = b.len();
    if n < 128 {
        return Err(TagParseError::NotPresent);
    }
    let t = vstd::slice::slice_subrange(b, n - 128, n);
    proof {
        assert(t@ =~= b@.skip(b@.len() - 128));
    }
    if !(t[0] == 84 && t[1] == 65 && t[2] == 71) {
        return Err(TagParseError::NotPresent);
    }
    let v1_1 = t[125] == 0 && t[126] != 0;
    let title = trim_padding_vec(vstd::slice::slice_subrange(t, 3, 33));
    let artist = trim_padding_vec(vstd::slice::slice_subrange(t, 33, 63));
    let album = trim_padding_vec(vstd::slice::slice_subrange(t, 63, 93));
    let year = trim_padding_vec(vstd::slice::slice_subrange(t, 93, 97));
    let comment = if v1_1 {
        trim_padding_vec(vstd::slice::slice_subrange(t, 97, 125))
    } else {
        trim_padding_vec(vstd::slice::slice_subrange(t, 97, 127))
    };
    let track = if v1_1 {
        Some(t[126])
    } else {
        None
    };
    Ok(V1Tag { title, artist, album, year, comment, track, genre: t[127] })
}

/// The fixed genre name table: indexes 0 through GENRE_MAX; anything
/// beyond is "Unknown".
pub open spec fn spec_genre_name(g: u8) -> Seq<char> {
    if false {
        Seq::empty()
    } else if g == 0 {
        "Blues"@
    } else if g == 1 {
        "Classic Rock"@
    } else if g == 2 {
        "Country"@
    } else if g == 3 {
        "Dance"@
    } else if g == 4 {
        "Disco"@
    } else if g == 5 {
        "Funk"@
    } else if g == 6 {
        "Grunge"@
    } else if g == 7 {
        "Hip-Hop"@
    } else if g == 8 {
        "Jazz"@
    } else if g == 9 {
        "Metal"@
    } else if g == 10 {
        "New Age"@
    } else if g == 11 {
        "Oldies"@
    } else if g == 12 {
        "Other"@
    } else if g == 13 {
        "Pop"@
    } else if g == 14 {
        "R&B"@
    } else if g == 15 {
        "Rap"@
    } else if g == 16 {
        "Reggae"@
    } else if g == 17 {
        "Rock"@
    } else if g == 18 {
        "Techno"@
    } else if g == 19 {
        "Industrial"@
    } else if g == 20 {
        "Alternative"@
    } else if g == 21 {
        "Ska"@
    } else if g == 22 {
        "Death Metal"@
    } else if g == 23 {
        "Pranks"@
    } else if g == 24 {
        "Soundtrack"@
    } else if g == 25 {
        "Euro-Techno"@
    } else if g == 26 {
        "Ambient"@
    } else if g == 27 {
        "Trip-Hop"@
    } else if g == 28 {
        "Vocal"@
    } else if g == 29 {
        "Jazz+Funk"@
    } else if g == 30 {
        "Fusion"@
    } else if g == 31 {
        "Trance"@
    } else if g == 32 {
        "Classical"@
    } else if g == 33 {
        "Instrumental"@
    } else if g == 34 {
        "Acid"@
    } else if g == 35 {
        "House"@
    } else if g == 36 {
        "Game"@
    } else if g == 37 {
        "Sound Clip"@
    } else if g == 38 {
        "Gospel"@
    } else if g == 39 {
        "Noise"@
    } else if g == 40 {
        "Alternative Rock"@
    } else if g == 41 {
        "Bass"@
    } else if g == 42 {
        "Soul"@
    } else if g == 43 {
        "Punk"@
    } else if g == 44 {
        "Space"@
    } else if g == 45 {
        "Meditative"@
    } else if g == 46 {
        "Instrumental Pop"@
    } else if g == 47 {
        "Instrumental Rock"@
    } else if g == 48 {
        "Ethnic"@
    } else if g == 49 {
        "Gothic"@
    } else if g == 50 {
        "Darkwave"@
    } else if g == 51 {
        "Techno-Industrial"@
    } else if g == 52 {
        "Electronic"@
    } else if g == 53 {
        "Pop-Folk"@
    } else if g == 54 {
        "Eurodance"@
    } else if g == 55 {
        "Dream"@
    } else if g == 56 {
        "Southern Rock"@
    } else if g == 57 {
        "Comedy"@
    } else if g == 58 {
        "Cult"@
    } else if g == 59 {
        "Gangsta"@
    } else if g == 60 {
        "Top 40"@
    } else if g == 61 {
        "Christian Rap"@
    } else if g == 62 {
        "Pop/Funk"@
    } else if g == 63 {
        "Jungle"@
    } else if g == 64 {
        "Native American"@
    } else if g == 65 {
        "Cabaret"@
    } else if g == 66 {
        "New Wave"@
    } else if g == 67 {
        "Psychedelic"@
    } else if g == 68 {
        "Rave"@
    } else if g == 69 {
        "Showtunes"@
    } else if g == 70 {
        "Trailer"@
    } else if g == 71 {
        "Lo-Fi"@
    } else if g == 72 {
        "Tribal"@
    } else if g == 73 {
        "Acid Punk"@
    } else if g == 74 {
        "Acid Jazz"@
    } else if g == 75 {
        "Polka"@
    } else if g == 76 {
        "Retro"@
    } else if g == 77 {
        "Musical"@
    } else if g == 78 {
        "Rock & Roll"@
    } else if g == 79 {
        "Hard Rock"@
    } else if g == 80 {
        "Folk"@
    } else if g == 81 {
        "Folk-Rock"@
    } else if g == 82 {
        "National Folk"@
    } else if g == 83 {
        "Swing"@
    } else if g == 84 {
        "Fast Fusion"@
    } else if g == 85 {
        "Bebob"@
    } else if g == 86 {
        "Latin"@
    } else if g == 87 {
        "Revival"@
    } else if g == 88 {
        "Celtic"@
    } else if g == 89 {
        "Bluegrass"@
    } else if g == 90 {
        "Avantgarde"@
    } else if g == 91 {
        "Gothic Rock"@
    } else if g == 92 {
        "Progressive Rock"@
    } else if g == 93 {
        "Psychedelic Rock"@
    } else if g == 94 {
        "Symphonic Rock"@
    } else if g == 95 {
        "Slow Rock"@
    } else if g == 96 {
        "Big Band"@
    } else if g == 97 {
        "Chorus"@
    } else if g == 98 {
        "Easy Listening"@
    } else if g == 99 {
        "Acoustic"@
    } else if g == 100 {
        "Humour"@
    } else if g == 101 {
        "Speech"@
    } else if g == 102 {
        "Chanson"@
    } else if g == 103 {
        "Opera"@
    } else if g == 104 {
        "Chamber Music"@
    } else if g == 105 {
        "Sonata"@
    } else if g == 106 {
        "Symphony"@
    } else if g == 107 {
        "Booty Bass"@
    } else if g == 108 {
        "Primus"@
    } else if g == 109 {
        "Porn Groove"@
    } else if g == 110 {
        "Satire"@
    } else if g == 111 {
        "Slow Jam"@
    } else if g == 112 {
        "Club"@
    } else if g == 113 {
        "Tango"@
    } else if g == 114 {
        "Samba"@
    } else if g == 115 {
        "Folklore"@
    } else if g == 116 {
        "Ballad"@
    } else if g == 117 {
        "Power Ballad"@
    } else if g == 118 {
        "Rhythmic Soul"@
    } else if g == 119 {
        "Freestyle"@
    } else if g == 120 {
        "Duet"@
    } else if g == 121 {
        "Punk Rock"@
    } else if g == 122 {
        "Drum Solo"@
    } else if g == 123 {
        "A capella"@
    } else if g == 124 {
        "Euro-House"@
    } else if g == 125 {
        "Dance Hall"@
    } else if g == 126 {
        "Goa"@
    } else if g == 127 {
        "Drum & Bass"@
    } else if g == 128 {
        "Club-House"@
    } else if g == 129 {
        "Hardcore"@
    } else if g == 130 {
        "Terror"@
    } else if g == 131 {
        "Indie"@
    } else if g == 132 {
        "BritPop"@
    } else if g == 133 {
        "Negerpunk"@
    } else if g == 134 {
        "Polsk Punk"@
    } else if g == 135 {
        "Beat"@
    } else if g == 136 {
        "Christian Gangsta Rap"@
    } else if g == 137 {
        "Heavy Metal"@
    } else if g == 138 {
        "Black Metal"@
    } else if g == 139 {
        "Crossover"@
    } else if g == 140 {
        "Contemporary Christian"@
    } else if g == 141 {
        "Christian Rock"@
    } else if g == 142 {
        "Merengue"@
    } else if g == 143 {
        "Salsa"@
    } else if g == 144 {
        "Thrash Metal"@
    } else if g == 145 {
        "Anime"@
    } else if g == 146 {
        "JPop"@
    } else if g == 147 {
        "Synthpop"@
    } else {
        "Unknown"@
    }
}

/// The genre name of an ID3v1 genre index; an index past the known table
/// resolves to "Unknown" rather than failing.
pub fn genre_name(g: u8) -> (r: &'static str)
    ensures
        r@ == spec_genre_name(g),
        g > GENRE_MAX ==> r@ == "Unknown"@,
{
    if false {
        "Unknown"
    } else if g == 0 {
        "Blues"
    } else if g == 1 {
        "Classic Rock"
    } else if g == 2 {
        "Country"
    } else if g == 3 {
        "Dance"
    } else if g == 4 {
        "Disco"
    } else if g == 5 {
        "Funk"
    } else if g == 6 {
        "Grunge"
    } else if g == 7 {
        "Hip-Hop"
    } else if g == 8 {
        "Jazz"
    } else if g == 9 {
        "Metal"
    } else if g == 10 {
        "New Age"
    } else if g == 11 {
        "Oldies"
    } else if g == 12 {
        "Other"
    } else if g == 13 {
        "Pop"
    } else if g == 14 {
        "R&B"
    } else if g == 15 {
        "Rap"
    } else if g == 16 {
        "Reggae"
    } else if g == 17 {
        "Rock"
    } else if g == 18 {
        "Techno"
    } else if g == 19 {
        "Industrial"
    } else if g == 20 {
        "Alternative"
    } else if g == 21 {
        "Ska"
    } else if g == 22 {
        "Death Metal"
    } else if g == 23 {
        "Pranks"
    } else if g == 24 {
        "Soundtrack"
    } else if g == 25 {
        "Euro-Techno"
    } else if g == 26 {
        "Ambient"
    } else if g == 27 {
        "Trip-Hop"
    } else if g == 28 {
        "Vocal"
    } else if g == 29 {
        "Jazz+Funk"
    } else if g == 30 {
        "Fusion"
    } else if g == 31 {
        "Trance"
    } else if g == 32 {
        "Classical"
    } else if g == 33 {
        "Instrumental"
    } else if g == 34 {
        "Acid"
    } else if g == 35 {
        "House"
    } else if g == 36 {
        "Game"
    } else if g == 37 {
        "Sound Clip"
    } else if g == 38 {
        "Gospel"
    } else if g == 39 {
        "Noise"
    } else if g == 40 {
        "Alternative Rock"
    } else if g == 41 {
        "Bass"
    } else if g == 42 {
        "Soul"
    } else if g == 43 {
        "Punk"
    } else if g == 44 {
        "Space"
    } else if g == 45 {
        "Meditative"
    } else if g == 46 {
        "Instrumental Pop"
    } else if g == 47 {
        "Instrumental Rock"
    } else if g == 48 {
        "Ethnic"
    } else if g == 49 {
        "Gothic"
    } else if g == 50 {
        "Darkwave"
    } else if g == 51 {
        "Techno-Industrial"
    } else if g == 52 {
        "Electronic"
    } else if g == 53 {
        "Pop-Folk"
    } else if g == 54 {
        "Eurodance"
    } else if g == 55 {
        "Dream"
    } else if g == 56 {
        "Southern Rock"
    } else if g == 57 {
        "Comedy"
    } else if g == 58 {
        "Cult"
    } else if g == 59 {
        "Gangsta"
    } else if g == 60 {
        "Top 40"
    } else if g == 61 {
        "Christian Rap"
    } else if g == 62 {
        "Pop/Funk"
    } else if g == 63 {
        "Jungle"
    } else if g == 64 {
        "Native American"
    } else if g == 65 {
        "Cabaret"
    } else if g == 66 {
        "New Wave"
    } else if g == 67 {
        "Psychedelic"
    } else if g == 68 {
        "Rave"
    } else if g == 69 {
        "Showtunes"
    } else if g == 70 {
        "Trailer"
    } else if g == 71 {
        "Lo-Fi"
    } else if g == 72 {
        "Tribal"
    } else if g == 73 {
        "Acid Punk"
    } else if g == 74 {
        "Acid Jazz"
    } else if g == 75 {
        "Polka"
    } else if g == 76 {
        "Retro"
    } else if g == 77 {
        "Musical"
    } else if g == 78 {
        "Rock & Roll"
    } else if g == 79 {
        "Hard Rock"
    } else if g == 80 {
        "Folk"
    } else if g == 81 {
        "Folk-Rock"
    } else if g == 82 {
        "National Folk"
    } else if g == 83 {
        "Swing"
    } else if g == 84 {
        "Fast Fusion"
    } else if g == 85 {
        "Bebob"
    } else if g == 86 {
        "Latin"
    } else if g == 87 {
        "Revival"
    } else if g == 88 {
        "Celtic"
    } else if g == 89 {
        "Bluegrass"
    } else if g == 90 {
        "Avantgarde"
    } else if g == 91 {
        "Gothic Rock"
    } else if g == 92 {
        "Progressive Rock"
    } else if g == 93 {
        "Psychedelic Rock"
    } else if g == 94 {
        "Symphonic Rock"
    } else if g == 95 {
        "Slow Rock"
    } else if g == 96 {
        "Big Band"
    } else if g == 97 {
        "Chorus"
    } else if g == 98 {
        "Easy Listening"
    } else if g == 99 {
        "Acoustic"
    } else if g == 100 {
        "Humour"
    } else if g == 101 {
        "Speech"
    } else if g == 102 {
        "Chanson"
    } else if g == 103 {
        "Opera"
    } else if g == 104 {
        "Chamber Music"
    } else if g == 105 {
        "Sonata"
    } else if g == 106 {
        "Symphony"
    } else if g == 107 {
        "Booty Bass"
    } else if g == 108 {
        "Primus"
    } else if g == 109 {
        "Porn Groove"
    } else if g == 110 {
        "Satire"
    } else if g == 111 {
        "Slow Jam"
    } else if g == 112 {
        "Club"
    } else if g == 113 {
        "Tango"
    } else if g == 114 {
        "Samba"
    } else if g == 115 {
        "Folklore"
    } else if g == 116 {
        "Ballad"
    } else if g == 117 {
        "Power Ballad"
    } else if g == 118 {
        "Rhythmic Soul"
    } else if g == 119 {
        "Freestyle"
    } else if g == 120 {
        "Duet"
    } else if g == 121 {
        "Punk Rock"
    } else if g == 122 {
        "Drum Solo"
    } else if g == 123 {
        "A capella"
    } else if g == 124 {
        "Euro-House"
    } else if g == 125 {
        "Dance Hall"
    } else if g == 126 {
        "Goa"
    } else if g == 127 {
        "Drum & Bass"
    } else if g == 128 {
        "Club-House"
    } else if g == 129 {
        "Hardcore"
    } else if g == 130 {
        "Terror"
    } else if g == 131 {
        "Indie"
    } else if g == 132 {
        "BritPop"
    } else if g == 133 {
        "Negerpunk"
    } else if g == 134 {
        "Polsk Punk"
    } else if g == 135 {
        "Beat"
    } else if g == 136 {
        "Christian Gangsta Rap"
    } else if g == 137 {
        "Heavy Metal"
    } else if g == 138 {
        "Black Metal"
    } else if g == 139 {
        "Crossover"
    } else if g == 140 {
        "Contemporary Christian"
    } else if g == 141 {
        "Christian Rock"
    } else if g == 142 {
        "Merengue"
    } else if g == 143 {
        "Salsa"
    } else if g == 144 {
        "Thrash Metal"
    } else if g == 145 {
        "Anime"
    } else if g == 146 {
        "JPop"
    } else if g == 147 {
        "Synthpop"
    } else {
        "Unknown"
    }
}

} // verus!
