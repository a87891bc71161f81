//! The mpv media backend's answer to which media types it plays.

use vstd::prelude::*;
use crate::text::str_eq;

verus! {

/// How likely a backend is to play a media type.
#[derive(Debug, Clone, Copy, PartialEq, Eq)]
pub enum SupportsMediaType {
    Maybe,
    No,
    Probably,
}

/// The media types mpv plays.
pub open spec fn mpv_media_types() -> Seq<Seq<char>> {
    seq![
        "video/mp4"@,
        "video/webm"@,
        "video/ogg"@,
        "video/mpeg"@,
        "video/x-matroska"@,
        "video/mkv"@,
        "audio/mpeg"@,
        "audio/mp4"@,
        "audio/ogg"@,
        "audio/wav"@,
        "audio/webm"@,
    ]
}

/// The media backend that plays through libmpv.
pub struct MpvBackend {}

impl MpvBackend {
    /// A new backend.
    pub fn new() -> Self {
        MpvBackend {  }
    }

    /// `Probably` for the media types mpv plays, `No` for any other.
    pub fn can_play_type(&self, media_type: &str) -> (r: SupportsMediaType)
        ensures
            mpv_media_types().contains(media_type@) ==> r == SupportsMediaType::Probably,
            !mpv_media_types().contains(media_type@) ==> r == SupportsMediaType::No,
    {
        let known = vec![
            "video/mp4",
            "video/webm",
            "video/ogg",
            "video/mpeg",
            "video/x-matroska",
            "video/mkv",
            "audio/mpeg",
            "audio/mp4",
            "audio/ogg",
            "audio/wav",
            "audio/webm",
        ];
        let ghost types = mpv_media_types();
        let mut i: usize = 0;
        while i < known.len()
            invariant
                i <= known@.len(),
                known@.len() == types.len(),
                types == mpv_media_types(),
                forall|j: int| 0 <= j < known@.len() ==> #[trigger] known@[j]@ == types[j],
                forall|j: int| 0 <= j < i ==> types[j] != media_type@,
            decreases known@.len() - i,
        {
            if str_eq(known[i], media_type) {
                assert(types[i as int] == media_type@);
                return SupportsMediaType::Probably;
            }
            i = i + 1;
        }
        SupportsMediaType::No
    }
}

/// mpv plays exactly eleven media types: MP4, WebM, Ogg, MPEG, Matroska
/// (under two names) video, and MP3 (`audio/mpeg`), MP4, Ogg, WAV and WebM
/// audio.
pub proof fn law_mpv_plays_eleven_types()
    ensures
        mpv_media_types().len() == 11,
        mpv_media_types().contains("video/mp4"@),
        mpv_media_types().contains("video/webm"@),
        mpv_media_types().contains("video/ogg"@),
        mpv_media_types().contains("video/mpeg"@),
        mpv_media_types().contains("video/x-matroska"@),
        mpv_media_types().contains("video/mkv"@),
        mpv_media_types().contains("audio/mpeg"@),
        mpv_media_types().contains("audio/mp4"@),
        mpv_media_types().contains("audio/ogg"@),
        mpv_media_types().contains("audio/wav"@),
        mpv_media_types().contains("audio/webm"@),
{
    let m = mpv_media_types();
    assert(m[0] == "video/mp4"@);
    assert(m[1] == "video/webm"@);
    assert(m[2] == "video/ogg"@);
    assert(m[3] == "video/mpeg"@);
    assert(m[4] == "video/x-matroska"@);
    assert(m[5] == "video/mkv"@);
    assert(m[6] == "audio/mpeg"@);
    assert(m[7] == "audio/mp4"@);
    assert(m[8] == "audio/ogg"@);
    assert(m[9] == "audio/wav"@);
    assert(m[10] == "audio/webm"@);
}

} // verus!
