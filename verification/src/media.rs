//! What the providers hand back about a piece of media.

use vstd::prelude::*;

use crate::text::str_eq;

verus! {

/// The kind of a downloaded piece of media.
#[derive(Debug, Clone, Copy, PartialEq, Eq, Structural)]
pub enum MediaKind {
    Video,
    Photo,
    Audio,
    File,
}

/// Description of one piece of media that is about to be uploaded.
#[derive(Debug)]
pub struct MediaMeta {
    pub filename: String,
    pub mime_type: String,
    pub size: u64,
    pub duration_secs: Option<u32>,
    pub dims: Option<(i32, i32)>,
    pub kind: MediaKind,
    pub title: Option<String>,
    pub description: Option<String>,
}

/// The mathematical value of a `MediaMeta`.
pub struct MetaView {
    pub filename: Seq<char>,
    pub mime_type: Seq<char>,
    pub size: u64,
    pub duration_secs: Option<u32>,
    pub dims: Option<(i32, i32)>,
    pub kind: MediaKind,
    pub title: Option<Seq<char>>,
    pub description: Option<Seq<char>>,
}

impl View for MediaMeta {
    type V = MetaView;

    open spec fn view(&self) -> MetaView {
        MetaView {
            filename: self.filename@,
            mime_type: self.mime_type@,
            size: self.size,
            duration_secs: self.duration_secs,
            dims: self.dims,
            kind: self.kind,
            title: self.title.deep_view(),
            description: self.description.deep_view(),
        }
    }
}

/// Which kinds of media a link offers.
#[derive(Debug, Clone, Copy, PartialEq, Eq, Structural)]
pub struct MediaMetadataInfo {
    pub has_video: bool,
    pub has_audio: bool,
    pub has_photo: bool,
}

/// The MIME type that belongs to a file extension.
pub open spec fn mime_for_ext_spec(ext: Seq<char>) -> Seq<char> {
    if ext == "mp4"@ || ext == "m4v"@ {
        "video/mp4"@
    } else if ext == "webm"@ {
        "video/webm"@
    } else if ext == "mkv"@ {
        "video/x-matroska"@
    } else if ext == "avi"@ {
        "video/x-msvideo"@
    } else if ext == "mov"@ {
        "video/quicktime"@
    } else if ext == "mp3"@ {
        "audio/mpeg"@
    } else if ext == "m4a"@ {
        "audio/mp4"@
    } else if ext == "ogg"@ {
        "audio/ogg"@
    } else if ext == "wav"@ {
        "audio/wav"@
    } else if ext == "jpg"@ || ext == "jpeg"@ {
        "image/jpeg"@
    } else if ext == "png"@ {
        "image/png"@
    } else if ext == "gif"@ {
        "image/gif"@
    } else {
        "application/octet-stream"@
    }
}

/// The MIME type that belongs to a file extension.
pub fn mime_for_ext(ext: &str) -> (r: String)
    ensures
        r@ == mime_for_ext_spec(ext@),
{
    let m = if str_eq(ext, "mp4") || str_eq(ext, "m4v") {
        "video/mp4"
    } else if str_eq(ext, "webm") {
        "video/webm"
    } else if str_eq(ext, "mkv") {
        "video/x-matroska"
    } else if str_eq(ext, "avi") {
        "video/x-msvideo"
    } else if str_eq(ext, "mov") {
        "video/quicktime"
    } else if str_eq(ext, "mp3") {
        "audio/mpeg"
    } else if str_eq(ext, "m4a") {
        "audio/mp4"
    } else if str_eq(ext, "ogg") {
        "audio/ogg"
    } else if str_eq(ext, "wav") {
        "audio/wav"
    } else if str_eq(ext, "jpg") || str_eq(ext, "jpeg") {
        "image/jpeg"
    } else if str_eq(ext, "png") {
        "image/png"
    } else if str_eq(ext, "gif") {
        "image/gif"
    } else {
        "application/octet-stream"
    };
    m.to_owned()
}

} // verus!
