//! The canonical media record, the raw fields an adapter gathers for it, and
//! the normalization rules shared by every adapter.
use vstd::prelude::*;
use crate::json::view_opt;
use crate::platform::Platform;
use crate::text::{chars_of, is_blank, trim_chars};

verus! {

#[derive(Clone, Copy, Debug, PartialEq, Eq, Structural)]
pub enum ContentKind {
    Video,
    Image,
}

/// What failed, in the three classes an adapter can fail in.
#[derive(Clone, Copy, Debug, PartialEq, Eq, Structural)]
pub enum FailureKind {
    /// Connection, timeout or a non-success HTTP status.
    Transport,
    /// A body that is no JSON, or lacks an expected field.
    Shape,
    /// A well-formed response that holds no playable video nor images.
    Content,
}

/// One adapter's failure: its class and a human-readable detail.
#[derive(Debug)]
pub struct Failure {
    pub kind: FailureKind,
    pub detail: String,
}

impl Failure {
    pub fn new(kind: FailureKind, detail: &str) -> (r: Failure)
        ensures
            r.kind == kind,
            r.detail@ == detail@,
    {
        Failure { kind, detail: String::from_str(detail) }
    }
}

/// The canonical record of one post.
#[derive(Debug)]
pub struct MediaRecord {
    pub title: String,
    pub cover: String,
    pub video_url: Option<String>,
    pub author: String,
    pub platform: Platform,
    /// Seconds.
    pub duration: Option<u64>,
    pub likes: Option<u64>,
    pub comments: Option<u64>,
    pub images: Option<Vec<String>>,
    pub content_type: ContentKind,
    pub music_url: Option<String>,
}

/// The fields an adapter read from its provider's response, before the shared
/// rules are applied.
#[derive(Debug)]
pub struct RawFields {
    pub title: Option<String>,
    pub cover: Option<String>,
    pub video_url: Option<String>,
    pub author: Option<String>,
    /// As the provider gives it: seconds or milliseconds.
    pub duration: Option<u64>,
    pub likes: Option<u64>,
    pub comments: Option<u64>,
    pub images: Vec<String>,
    pub music_url: Option<String>,
}

/// The raw fields as plain character sequences.
pub struct RawModel {
    pub title: Option<Seq<char>>,
    pub cover: Option<Seq<char>>,
    pub video_url: Option<Seq<char>>,
    pub author: Option<Seq<char>>,
    pub duration: Option<u64>,
    pub likes: Option<u64>,
    pub comments: Option<u64>,
    pub images: Seq<Seq<char>>,
    pub music_url: Option<Seq<char>>,
}

impl View for RawFields {
    type V = RawModel;

    open spec fn view(&self) -> RawModel {
        RawModel {
            title: view_opt(self.title),
            cover: view_opt(self.cover),
            video_url: view_opt(self.video_url),
            author: view_opt(self.author),
            duration: self.duration,
            likes: self.likes,
            comments: self.comments,
            images: strings_view(self.images@),
            music_url: view_opt(self.music_url),
        }
    }
}

pub open spec fn strings_view(v: Seq<String>) -> Seq<Seq<char>> {
    v.map_values(|s: String| s@)
}

/// A raw duration of 10000 or more is in milliseconds, anything less is
/// already in seconds.
pub open spec fn duration_seconds(raw: Option<u64>) -> Option<u64> {
    match raw {
        Some(d) => Some(if d >= 10000 { (d / 1000) as u64 } else { d }),
        None => None,
    }
}

/// The record holds what its content type promises: a non-empty image list,
/// or a video URL that is not blank.
pub open spec fn has_content(r: MediaRecord) -> bool {
    match r.content_type {
        ContentKind::Image => r.images is Some && r.images->0@.len() > 0,
        ContentKind::Video => r.video_url is Some && !is_blank(r.video_url->0@),
    }
}

pub open spec fn is_image_post(raw: RawModel) -> bool {
    raw.images.len() > 0
}

/// The record built from `raw` would have content.
pub open spec fn raw_has_content(raw: RawModel) -> bool {
    is_image_post(raw) || (raw.video_url is Some && !is_blank(raw.video_url->0))
}

/// `m` is the record that the shared rules make of `raw` for `p`.
pub open spec fn built_from(raw: RawModel, p: Platform, m: MediaRecord) -> bool {
    let image = is_image_post(raw);
    &&& m.title@ == (match raw.title {
        Some(t) => t,
        None => "Untitled"@,
    })
    &&& m.cover@ == (match raw.cover {
        Some(c) => c,
        None => if image {
            raw.images[0]
        } else {
            Seq::<char>::empty()
        },
    })
    &&& view_opt(m.video_url) == (if image {
        None
    } else {
        raw.video_url
    })
    &&& m.author@ == (match raw.author {
        Some(a) => a,
        None => Seq::<char>::empty(),
    })
    &&& m.platform == p
    &&& m.duration == duration_seconds(raw.duration)
    &&& m.likes == raw.likes
    &&& m.comments == raw.comments
    &&& (if image {
        m.images is Some && strings_view(m.images->0@) == raw.images
    } else {
        m.images is None
    })
    &&& m.content_type == (if image {
        ContentKind::Image
    } else {
        ContentKind::Video
    })
    &&& view_opt(m.music_url) == raw.music_url
}

/// Normalizes a raw duration to seconds.
pub fn normalize_duration(raw: Option<u64>) -> (r: Option<u64>)
    ensures
        r == duration_seconds(raw),
{
    match raw {
        Some(d) => if d >= 10000 {
            Some(d / 1000)
        } else {
            Some(d)
        },
        None => None,
    }
}

pub fn is_blank_str(s: &str) -> (r: bool)
    ensures
        r == is_blank(s@),
{
    trim_chars(&chars_of(s)).len() == 0
}

impl MediaRecord {
    /// Whether the record holds what its content type promises.
    pub fn has_content(&self) -> (r: bool)
        ensures
            r == has_content(*self),
    {
        match self.content_type {
            ContentKind::Image => match &self.images {
                Some(v) => v.len() > 0,
                None => false,
            },
            ContentKind::Video => match &self.video_url {
                Some(u) => !is_blank_str(u.as_str()),
                None => false,
            },
        }
    }
}

/// Applies the shared rules to `raw`: a non-empty image list makes an image
/// post with no video URL; the title falls back to a placeholder, the cover to
/// the first image, the author to the empty string; the duration is brought to
/// seconds. A record without content is refused.
pub fn build_record(raw: RawFields, platform: Platform) -> (r: Result<MediaRecord, Failure>)
    ensures
        match r {
            Ok(m) => raw_has_content(raw@) && built_from(raw@, platform, m) && has_content(m),
            Err(e) => !raw_has_content(raw@) && e.kind == FailureKind::Content,
        },
{
    let ghost old_raw = raw;
    let image = raw.images.len() > 0;
    let has_video = match &raw.video_url {
        Some(u) => !is_blank_str(u.as_str()),
        None => false,
    };
    if !image && !has_video {
        return Err(Failure::new(FailureKind::Content, "no playable video or images"));
    }
    let cover = match raw.cover {
        Some(c) => c,
        None => if image {
            raw.images[0].clone()
        } else {
            String::new()
        },
    };
    let title = match raw.title {
        Some(t) => t,
        None => String::from_str("Untitled"),
    };
    let author = match raw.author {
        Some(a) => a,
        None => String::new(),
    };
    let duration = normalize_duration(raw.duration);
    let m = if image {
        MediaRecord {
            title,
            cover,
            video_url: None,
            author,
            platform,
            duration,
            likes: raw.likes,
            comments: raw.comments,
            images: Some(raw.images),
            content_type: ContentKind::Image,
            music_url: raw.music_url,
        }
    } else {
        MediaRecord {
            title,
            cover,
            video_url: raw.video_url,
            author,
            platform,
            duration,
            likes: raw.likes,
            comments: raw.comments,
            images: None,
            content_type: ContentKind::Video,
            music_url: raw.music_url,
        }
    };
    proof {
        reveal_strlit("Untitled");
    }
    Ok(m)
}

/// A record whose content type is `Image` with an empty image list, or
/// `Video` with a blank video URL, has no content.
pub proof fn lemma_validity_rejects(r: MediaRecord)
    ensures
        r.content_type == ContentKind::Image && r.images is Some && r.images->0@.len() == 0
            ==> !has_content(r),
        r.content_type == ContentKind::Image && r.images is None ==> !has_content(r),
        r.content_type == ContentKind::Video && r.video_url is Some && is_blank(
            r.video_url->0@,
        ) ==> !has_content(r),
        r.content_type == ContentKind::Video && r.video_url is None ==> !has_content(r),
{
}

} // verus!
