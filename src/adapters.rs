//! Field tables of the providers: which paths of each provider's response
//! give which field of the record, and how each envelope signals success.
use vstd::prelude::*;
use crate::json::{
    first_text_at, first_text_value, member, parsed_json, path_at, text_at, text_value, uint_at,
    view_opt, Json, parse_json,
};
use crate::platform::{classify, platform_of};
use crate::record::{
    build_record, built_from, raw_has_content, strings_view, Failure, FailureKind, MediaRecord,
    RawFields, RawModel,
};
use crate::watermark::{strip_watermark, stripped};

verus! {

pub open spec fn or_else(a: Option<Seq<char>>, b: Option<Seq<char>>) -> Option<Seq<char>> {
    match a {
        Some(_) => a,
        None => b,
    }
}

pub open spec fn or_else_uint(a: Option<u64>, b: Option<u64>) -> Option<u64> {
    match a {
        Some(_) => a,
        None => b,
    }
}

pub fn either(a: Option<String>, b: Option<String>) -> (r: Option<String>)
    ensures
        view_opt(r) == or_else(view_opt(a), view_opt(b)),
{
    match a {
        Some(x) => Some(x),
        None => b,
    }
}

pub fn either_uint(a: Option<u64>, b: Option<u64>) -> (r: Option<u64>)
    ensures
        r == or_else_uint(a, b),
{
    match a {
        Some(x) => Some(x),
        None => b,
    }
}

pub open spec fn member_text(j: Json, key: Seq<char>) -> Option<Seq<char>> {
    match member(j, key) {
        Some(n) => text_value(n),
        None => None,
    }
}

pub open spec fn member_first_text(j: Json, key: Seq<char>) -> Option<Seq<char>> {
    match member(j, key) {
        Some(n) => first_text_value(n),
        None => None,
    }
}

/// One entry of an image list: a string, or an object holding a `url`,
/// `image` or `img` string, or a `url_list` whose first element is a string.
pub open spec fn image_entry(e: Json) -> Option<Seq<char>> {
    match e {
        Json::Str(_) => text_value(e),
        Json::Object(_) => or_else(
            member_text(e, "url"@),
            or_else(
                member_text(e, "image"@),
                or_else(member_text(e, "img"@), member_first_text(e, "url_list"@)),
            ),
        ),
        _ => None,
    }
}

/// The URLs of the entries of an image list that give one, in order.
pub open spec fn image_list(items: Seq<Json>) -> Seq<Seq<char>>
    decreases items.len(),
{
    if items.len() == 0 {
        Seq::<Seq<char>>::empty()
    } else {
        let rest = image_list(items.drop_last());
        match image_entry(items.last()) {
            Some(u) => rest.push(u),
            None => rest,
        }
    }
}

pub open spec fn images_at(j: Json, path: Seq<&str>) -> Seq<Seq<char>> {
    match path_at(j, path) {
        Some(Json::Array(items)) => image_list(items@),
        _ => Seq::<Seq<char>>::empty(),
    }
}

fn member_text_exec(j: &Json, key: &str) -> (r: Option<String>)
    ensures
        view_opt(r) == member_text(*j, key@),
{
    match j.member(key) {
        Some(n) => n.text(),
        None => None,
    }
}

fn image_entry_exec(e: &Json) -> (r: Option<String>)
    ensures
        view_opt(r) == image_entry(*e),
{
    match e {
        Json::Str(_) => e.text(),
        Json::Object(_) => {
            let list = match e.member("url_list") {
                Some(n) => n.first_text(),
                None => None,
            };
            either(
                member_text_exec(e, "url"),
                either(member_text_exec(e, "image"), either(member_text_exec(e, "img"), list)),
            )
        },
        _ => None,
    }
}

/// The image URLs of the list under `path`.
pub fn images_under(j: &Json, path: &[&str]) -> (r: Vec<String>)
    ensures
        strings_view(r@) == images_at(*j, path@),
{
    let mut out: Vec<String> = Vec::new();
    match j.get(path) {
        Some(n) => match n {
            Json::Array(items) => {
                let mut i: usize = 0;
                while i < items.len()
                    invariant
                        i <= items@.len(),
                        strings_view(out@) == image_list(items@.subrange(0, i as int)),
                    decreases items@.len() - i,
                {
                    let ghost before = out@;
                    assert(items@.subrange(0, i + 1).drop_last() =~= items@.subrange(0, i as int));
                    match image_entry_exec(&items[i]) {
                        Some(u) => {
                            let ghost uv = u@;
                            out.push(u);
                            assert(strings_view(out@) =~= strings_view(before).push(uv));
                        },
                        None => {},
                    }
                    i = i + 1;
                }
                assert(items@.subrange(0, items@.len() as int) =~= items@);
            },
            _ => {},
        },
        None => {},
    }
    out
}

/// The fields of a Douyin item (`aweme`), as the share page and the item-info
/// API give it. The playback URL is made watermark-free.
pub open spec fn douyin_item_model(item: Json) -> RawModel {
    RawModel {
        title: text_at(item, seq!["desc"]),
        cover: or_else(
            first_text_at(item, seq!["video", "dynamic_cover", "url_list"]),
            or_else(
                first_text_at(item, seq!["video", "origin_cover", "url_list"]),
                first_text_at(item, seq!["video", "cover", "url_list"]),
            ),
        ),
        video_url: match first_text_at(item, seq!["video", "play_addr", "url_list"]) {
            Some(u) => Some(stripped(u)),
            None => None,
        },
        author: text_at(item, seq!["author", "nickname"]),
        duration: uint_at(item, seq!["video", "duration"]),
        likes: uint_at(item, seq!["statistics", "digg_count"]),
        comments: uint_at(item, seq!["statistics", "comment_count"]),
        images: images_at(item, seq!["images"]),
        music_url: first_text_at(item, seq!["music", "play_url", "url_list"]),
    }
}

pub fn douyin_item_fields(item: &Json) -> (r: RawFields)
    ensures
        r@ == douyin_item_model(*item),
{
    let p_title: &[&str] = &["desc"];
    assert(p_title@ == seq!["desc"]);
    let p_cover_a: &[&str] = &["video", "dynamic_cover", "url_list"];
    assert(p_cover_a@ == seq!["video", "dynamic_cover", "url_list"]);
    let p_cover_b: &[&str] = &["video", "origin_cover", "url_list"];
    assert(p_cover_b@ == seq!["video", "origin_cover", "url_list"]);
    let p_cover_c: &[&str] = &["video", "cover", "url_list"];
    assert(p_cover_c@ == seq!["video", "cover", "url_list"]);
    let p_play: &[&str] = &["video", "play_addr", "url_list"];
    assert(p_play@ == seq!["video", "play_addr", "url_list"]);
    let p_author: &[&str] = &["author", "nickname"];
    assert(p_author@ == seq!["author", "nickname"]);
    let p_duration: &[&str] = &["video", "duration"];
    assert(p_duration@ == seq!["video", "duration"]);
    let p_likes: &[&str] = &["statistics", "digg_count"];
    assert(p_likes@ == seq!["statistics", "digg_count"]);
    let p_comments: &[&str] = &["statistics", "comment_count"];
    assert(p_comments@ == seq!["statistics", "comment_count"]);
    let p_images: &[&str] = &["images"];
    assert(p_images@ == seq!["images"]);
    let p_music: &[&str] = &["music", "play_url", "url_list"];
    assert(p_music@ == seq!["music", "play_url", "url_list"]);
    let video_url = match item.get_first_array_string(p_play) {
        Some(u) => Some(strip_watermark(u.as_str())),
        None => None,
    };
    RawFields {
        title: item.get_string(p_title),
        cover: either(
            item.get_first_array_string(p_cover_a),
            either(item.get_first_array_string(p_cover_b), item.get_first_array_string(p_cover_c)),
        ),
        video_url,
        author: item.get_string(p_author),
        duration: item.get_uint(p_duration),
        likes: item.get_uint(p_likes),
        comments: item.get_uint(p_comments),
        images: images_under(item, p_images),
        music_url: item.get_first_array_string(p_music),
    }
}

/// The third-party services that resolve a share URL, in the order they are
/// tried.
#[derive(Clone, Copy, Debug, PartialEq, Eq, Structural)]
pub enum Mirror {
    /// Answers `{"code": 0, "data": {...}}`.
    TikWm,
    /// Answers `{"code": 200, "data": {...}}`.
    Hybrid,
    /// Answers `{"success": true, "data": {...}}`.
    Flagged,
}

pub open spec fn mirror_label(m: Mirror) -> Seq<char> {
    match m {
        Mirror::TikWm => "tikwm"@,
        Mirror::Hybrid => "hybrid-api"@,
        Mirror::Flagged => "flagged-api"@,
    }
}

impl Mirror {
    pub fn label(&self) -> (r: String)
        ensures
            r@ == mirror_label(*self),
    {
        match self {
            Mirror::TikWm => String::from_str("tikwm"),
            Mirror::Hybrid => String::from_str("hybrid-api"),
            Mirror::Flagged => String::from_str("flagged-api"),
        }
    }

    /// The service's endpoint; the source URL goes in its `url` parameter.
    pub fn endpoint(&self) -> (r: String)
        ensures
            r@ == mirror_endpoint(*self),
    {
        match self {
            Mirror::TikWm => String::from_str("https://www.tikwm.com/api/"),
            Mirror::Hybrid => String::from_str("https://api.douyin.wtf/api/hybrid/video_data"),
            Mirror::Flagged => String::from_str("https://api.xiazaitool.com/api/parseVideoUrl"),
        }
    }
}

pub open spec fn mirror_endpoint(m: Mirror) -> Seq<char> {
    match m {
        Mirror::TikWm => "https://www.tikwm.com/api/"@,
        Mirror::Hybrid => "https://api.douyin.wtf/api/hybrid/video_data"@,
        Mirror::Flagged => "https://api.xiazaitool.com/api/parseVideoUrl"@,
    }
}

/// The envelope reports success in the service's own convention.
pub open spec fn envelope_ok(m: Mirror, env: Json) -> bool {
    match m {
        Mirror::TikWm => uint_at(env, seq!["code"]) == Some(0u64),
        Mirror::Hybrid => uint_at(env, seq!["code"]) == Some(200u64),
        Mirror::Flagged => path_at(env, seq!["success"]) == Some(Json::Bool(true)),
    }
}

/// The data object of an envelope.
pub open spec fn envelope_data(env: Json) -> Option<Json> {
    match path_at(env, seq!["data"]) {
        Some(d) => match d {
            Json::Object(_) => Some(d),
            _ => None,
        },
        None => None,
    }
}

/// The fields of a service's data object.
pub open spec fn mirror_model(m: Mirror, d: Json) -> RawModel {
    match m {
        Mirror::TikWm => RawModel {
            title: text_at(d, seq!["title"]),
            cover: or_else(text_at(d, seq!["cover"]), text_at(d, seq!["origin_cover"])),
            video_url: or_else(
                text_at(d, seq!["hdplay"]),
                or_else(text_at(d, seq!["play"]), text_at(d, seq!["wmplay"])),
            ),
            author: or_else(text_at(d, seq!["author", "nickname"]), text_at(d, seq!["author", "unique_id"])),
            duration: uint_at(d, seq!["duration"]),
            likes: uint_at(d, seq!["digg_count"]),
            comments: uint_at(d, seq!["comment_count"]),
            images: images_at(d, seq!["images"]),
            music_url: or_else(text_at(d, seq!["music"]), text_at(d, seq!["music_info", "play"])),
        },
        Mirror::Hybrid => RawModel {
            title: or_else(text_at(d, seq!["desc"]), text_at(d, seq!["title"])),
            cover: or_else(
                first_text_at(d, seq!["video", "cover", "url_list"]),
                text_at(d, seq!["cover"]),
            ),
            video_url: or_else(
                first_text_at(d, seq!["video", "play_addr", "url_list"]),
                text_at(d, seq!["video_url"]),
            ),
            author: or_else(text_at(d, seq!["author", "nickname"]), text_at(d, seq!["author", "name"])),
            duration: or_else_uint(uint_at(d, seq!["video", "duration"]), uint_at(d, seq!["duration"])),
            likes: uint_at(d, seq!["statistics", "digg_count"]),
            comments: uint_at(d, seq!["statistics", "comment_count"]),
            images: images_at(d, seq!["images"]),
            music_url: first_text_at(d, seq!["music", "play_url", "url_list"]),
        },
        Mirror::Flagged => RawModel {
            title: or_else(text_at(d, seq!["title"]), text_at(d, seq!["desc"])),
            cover: or_else(text_at(d, seq!["cover"]), text_at(d, seq!["cover_url"])),
            video_url: or_else(
                text_at(d, seq!["video_url"]),
                or_else(text_at(d, seq!["videoUrl"]), text_at(d, seq!["url"])),
            ),
            author: or_else(text_at(d, seq!["author", "name"]), text_at(d, seq!["author"])),
            duration: uint_at(d, seq!["duration"]),
            likes: uint_at(d, seq!["likes"]),
            comments: uint_at(d, seq!["comments"]),
            images: images_at(d, seq!["images"]),
            music_url: or_else(text_at(d, seq!["music_url"]), text_at(d, seq!["musicUrl"])),
        },
    }
}

fn tikwm_fields(d: &Json) -> (r: RawFields)
    ensures
        r@ == mirror_model(Mirror::TikWm, *d),
{
    let p_title: &[&str] = &["title"];
    assert(p_title@ == seq!["title"]);
    let p_cover_a: &[&str] = &["cover"];
    assert(p_cover_a@ == seq!["cover"]);
    let p_cover_b: &[&str] = &["origin_cover"];
    assert(p_cover_b@ == seq!["origin_cover"]);
    let p_play_a: &[&str] = &["hdplay"];
    assert(p_play_a@ == seq!["hdplay"]);
    let p_play_b: &[&str] = &["play"];
    assert(p_play_b@ == seq!["play"]);
    let p_play_c: &[&str] = &["wmplay"];
    assert(p_play_c@ == seq!["wmplay"]);
    let p_author_a: &[&str] = &["author", "nickname"];
    assert(p_author_a@ == seq!["author", "nickname"]);
    let p_author_b: &[&str] = &["author", "unique_id"];
    assert(p_author_b@ == seq!["author", "unique_id"]);
    let p_duration: &[&str] = &["duration"];
    assert(p_duration@ == seq!["duration"]);
    let p_likes: &[&str] = &["digg_count"];
    assert(p_likes@ == seq!["digg_count"]);
    let p_comments: &[&str] = &["comment_count"];
    assert(p_comments@ == seq!["comment_count"]);
    let p_images: &[&str] = &["images"];
    assert(p_images@ == seq!["images"]);
    let p_music_a: &[&str] = &["music"];
    assert(p_music_a@ == seq!["music"]);
    let p_music_b: &[&str] = &["music_info", "play"];
    assert(p_music_b@ == seq!["music_info", "play"]);
    RawFields {
        title: d.get_string(p_title),
        cover: either(d.get_string(p_cover_a), d.get_string(p_cover_b)),
        video_url: either(
            d.get_string(p_play_a),
            either(d.get_string(p_play_b), d.get_string(p_play_c)),
        ),
        author: either(d.get_string(p_author_a), d.get_string(p_author_b)),
        duration: d.get_uint(p_duration),
        likes: d.get_uint(p_likes),
        comments: d.get_uint(p_comments),
        images: images_under(d, p_images),
        music_url: either(d.get_string(p_music_a), d.get_string(p_music_b)),
    }
}

fn hybrid_fields(d: &Json) -> (r: RawFields)
    ensures
        r@ == mirror_model(Mirror::Hybrid, *d),
{
    let p_title_a: &[&str] = &["desc"];
    assert(p_title_a@ == seq!["desc"]);
    let p_title_b: &[&str] = &["title"];
    assert(p_title_b@ == seq!["title"]);
    let p_cover_a: &[&str] = &["video", "cover", "url_list"];
    assert(p_cover_a@ == seq!["video", "cover", "url_list"]);
    let p_cover_b: &[&str] = &["cover"];
    assert(p_cover_b@ == seq!["cover"]);
    let p_play_a: &[&str] = &["video", "play_addr", "url_list"];
    assert(p_play_a@ == seq!["video", "play_addr", "url_list"]);
    let p_play_b: &[&str] = &["video_url"];
    assert(p_play_b@ == seq!["video_url"]);
    let p_author_a: &[&str] = &["author", "nickname"];
    assert(p_author_a@ == seq!["author", "nickname"]);
    let p_author_b: &[&str] = &["author", "name"];
    assert(p_author_b@ == seq!["author", "name"]);
    let p_duration_a: &[&str] = &["video", "duration"];
    assert(p_duration_a@ == seq!["video", "duration"]);
    let p_duration_b: &[&str] = &["duration"];
    assert(p_duration_b@ == seq!["duration"]);
    let p_likes: &[&str] = &["statistics", "digg_count"];
    assert(p_likes@ == seq!["statistics", "digg_count"]);
    let p_comments: &[&str] = &["statistics", "comment_count"];
    assert(p_comments@ == seq!["statistics", "comment_count"]);
    let p_images: &[&str] = &["images"];
    assert(p_images@ == seq!["images"]);
    let p_music: &[&str] = &["music", "play_url", "url_list"];
    assert(p_music@ == seq!["music", "play_url", "url_list"]);
    RawFields {
        title: either(d.get_string(p_title_a), d.get_string(p_title_b)),
        cover: either(d.get_first_array_string(p_cover_a), d.get_string(p_cover_b)),
        video_url: either(d.get_first_array_string(p_play_a), d.get_string(p_play_b)),
        author: either(d.get_string(p_author_a), d.get_string(p_author_b)),
        duration: either_uint(d.get_uint(p_duration_a), d.get_uint(p_duration_b)),
        likes: d.get_uint(p_likes),
        comments: d.get_uint(p_comments),
        images: images_under(d, p_images),
        music_url: d.get_first_array_string(p_music),
    }
}

fn flagged_fields(d: &Json) -> (r: RawFields)
    ensures
        r@ == mirror_model(Mirror::Flagged, *d),
{
    let p_title_a: &[&str] = &["title"];
    assert(p_title_a@ == seq!["title"]);
    let p_title_b: &[&str] = &["desc"];
    assert(p_title_b@ == seq!["desc"]);
    let p_cover_a: &[&str] = &["cover"];
    assert(p_cover_a@ == seq!["cover"]);
    let p_cover_b: &[&str] = &["cover_url"];
    assert(p_cover_b@ == seq!["cover_url"]);
    let p_play_a: &[&str] = &["video_url"];
    assert(p_play_a@ == seq!["video_url"]);
    let p_play_b: &[&str] = &["videoUrl"];
    assert(p_play_b@ == seq!["videoUrl"]);
    let p_play_c: &[&str] = &["url"];
    assert(p_play_c@ == seq!["url"]);
    let p_author_a: &[&str] = &["author", "name"];
    assert(p_author_a@ == seq!["author", "name"]);
    let p_author_b: &[&str] = &["author"];
    assert(p_author_b@ == seq!["author"]);
    let p_duration: &[&str] = &["duration"];
    assert(p_duration@ == seq!["duration"]);
    let p_likes: &[&str] = &["likes"];
    assert(p_likes@ == seq!["likes"]);
    let p_comments: &[&str] = &["comments"];
    assert(p_comments@ == seq!["comments"]);
    let p_images: &[&str] = &["images"];
    assert(p_images@ == seq!["images"]);
    let p_music_a: &[&str] = &["music_url"];
    assert(p_music_a@ == seq!["music_url"]);
    let p_music_b: &[&str] = &["musicUrl"];
    assert(p_music_b@ == seq!["musicUrl"]);
    RawFields {
        title: either(d.get_string(p_title_a), d.get_string(p_title_b)),
        cover: either(d.get_string(p_cover_a), d.get_string(p_cover_b)),
        video_url: either(
            d.get_string(p_play_a),
            either(d.get_string(p_play_b), d.get_string(p_play_c)),
        ),
        author: either(d.get_string(p_author_a), d.get_string(p_author_b)),
        duration: d.get_uint(p_duration),
        likes: d.get_uint(p_likes),
        comments: d.get_uint(p_comments),
        images: images_under(d, p_images),
        music_url: either(d.get_string(p_music_a), d.get_string(p_music_b)),
    }
}

/// The raw fields of a service's data object.
pub fn mirror_fields(m: Mirror, d: &Json) -> (r: RawFields)
    ensures
        r@ == mirror_model(m, *d),
{
    match m {
        Mirror::TikWm => tikwm_fields(d),
        Mirror::Hybrid => hybrid_fields(d),
        Mirror::Flagged => flagged_fields(d),
    }
}

fn envelope_ok_exec(m: Mirror, env: &Json) -> (r: bool)
    ensures
        r == envelope_ok(m, *env),
{
    let p_code: &[&str] = &["code"];
    assert(p_code@ == seq!["code"]);
    let p_success: &[&str] = &["success"];
    assert(p_success@ == seq!["success"]);
    match m {
        Mirror::TikWm => match env.get_uint(p_code) {
            Some(c) => c == 0,
            None => false,
        },
        Mirror::Hybrid => match env.get_uint(p_code) {
            Some(c) => c == 200,
            None => false,
        },
        Mirror::Flagged => match env.get(p_success) {
            Some(n) => match n {
                Json::Bool(b) => *b,
                _ => false,
            },
            None => false,
        },
    }
}

/// What a service's parsed envelope yields for a share URL whose text is
/// `source`: a record, or the failure that ends this service's attempt.
pub open spec fn mirror_outcome_ok(m: Mirror, env: Json, source: Seq<char>, rec: MediaRecord) -> bool {
    &&& envelope_ok(m, env)
    &&& envelope_data(env) is Some
    &&& raw_has_content(mirror_model(m, envelope_data(env)->0))
    &&& built_from(mirror_model(m, envelope_data(env)->0), platform_of(source), rec)
}

pub open spec fn mirror_failure_kind(m: Mirror, env: Json) -> FailureKind {
    if !envelope_ok(m, env) || envelope_data(env) is None {
        FailureKind::Shape
    } else {
        FailureKind::Content
    }
}

/// Normalizes a service's parsed envelope into a record. The platform comes
/// from `source`, the share URL that was asked about.
pub fn mirror_record(m: Mirror, env: &Json, source: &str) -> (r: Result<MediaRecord, Failure>)
    ensures
        match r {
            Ok(rec) => mirror_outcome_ok(m, *env, source@, rec),
            Err(e) => !(envelope_ok(m, *env) && envelope_data(*env) is Some && raw_has_content(
                mirror_model(m, envelope_data(*env)->0),
            )) && e.kind == mirror_failure_kind(m, *env),
        },
{
    if !envelope_ok_exec(m, env) {
        return Err(Failure::new(FailureKind::Shape, "the service reported no success"));
    }
    let p_data: &[&str] = &["data"];
    assert(p_data@ == seq!["data"]);
    match env.get(p_data) {
        Some(d) => match d {
            Json::Object(_) => {
                let raw = mirror_fields(m, d);
                build_record(raw, classify(source))
            },
            _ => Err(Failure::new(FailureKind::Shape, "the data field is not an object")),
        },
        None => Err(Failure::new(FailureKind::Shape, "the response has no data field")),
    }
}

/// The service's answer gives a record: a 2xx status, a JSON envelope that
/// reports success, a data object, and content in it.
pub open spec fn mirror_accepts(m: Mirror, status: u16, body: Seq<char>) -> bool {
    &&& is_success_status(status)
    &&& parsed_json(body) is Some
    &&& envelope_ok(m, parsed_json(body)->0)
    &&& envelope_data(parsed_json(body)->0) is Some
    &&& raw_has_content(mirror_model(m, envelope_data(parsed_json(body)->0)->0))
}

/// A 2xx HTTP status.
pub open spec fn is_success_status(status: u16) -> bool {
    200 <= status && status < 300
}

/// Handles a service's HTTP answer: a non-2xx status is a transport failure,
/// a body that is no JSON a shape failure; otherwise as `mirror_record`.
pub fn mirror_response(m: Mirror, status: u16, body: &str, source: &str) -> (r: Result<MediaRecord, Failure>)
    ensures
        !is_success_status(status) ==> (r matches Err(e) && e.kind == FailureKind::Transport),
        is_success_status(status) && parsed_json(body@) is None ==> (r matches Err(e) && e.kind
            == FailureKind::Shape),
        is_success_status(status) && parsed_json(body@) is Some ==> match r {
            Ok(rec) => mirror_outcome_ok(m, parsed_json(body@)->0, source@, rec),
            Err(e) => !mirror_accepts(m, status, body@) && e.kind == mirror_failure_kind(
                m,
                parsed_json(body@)->0,
            ),
        },
{
    if !(200 <= status && status < 300) {
        return Err(Failure::new(FailureKind::Transport, "the service answered with an error status"));
    }
    match parse_json(body) {
        Some(env) => mirror_record(m, &env, source),
        None => Err(Failure::new(FailureKind::Shape, "the service's answer is not JSON")),
    }
}

} // verus!
