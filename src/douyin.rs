//! Douyin-specific resolution: the work identifier in a link or page, the
//! share-page URLs to try, the JSON embedded in a share page and the answer of
//! the item-info API.
use vstd::prelude::*;
use crate::adapters::{douyin_item_fields, douyin_item_model};
use crate::json::{is_digit, leading_digits, parse_json, parsed_json, path_at, view_opt, Json};
use crate::platform::{classify, platform_of};
use crate::record::{build_record, built_from, raw_has_content, Failure, FailureKind, MediaRecord};
use crate::text::{chars_of, find_chars, find_from, occurs_at, slice_chars, string_of, trim, trim_chars};

verus! {

/// A pattern prefix made of characters that a regex takes literally.
pub open spec fn plain_pattern(p: Seq<char>) -> bool {
    forall|i: int|
        0 <= i < p.len() ==> {
            let c = #[trigger] p[i];
            ('a' <= c && c <= 'z') || ('A' <= c && c <= 'Z') || ('0' <= c && c <= '9') || c == '/'
                || c == '_' || c == '='
        }
}

/// `prefix` occurs at `i` and a digit follows it.
pub open spec fn digit_match_at(text: Seq<char>, prefix: Seq<char>, i: int) -> bool {
    occurs_at(text, prefix, i) && i + prefix.len() < text.len() && is_digit(text[i + prefix.len()])
}

pub open spec fn first_digit_match(text: Seq<char>, prefix: Seq<char>, from: int) -> Option<int>
    decreases text.len() + 1 - from,
{
    if from < 0 || from > text.len() {
        None
    } else if digit_match_at(text, prefix, from) {
        Some(from)
    } else {
        first_digit_match(text, prefix, from + 1)
    }
}

/// The digits that the leftmost match of `prefix([0-9]+)` captures: the
/// longest run of digits after the first occurrence of `prefix` that a digit
/// follows.
pub open spec fn digits_after(text: Seq<char>, prefix: Seq<char>) -> Option<Seq<char>> {
    match first_digit_match(text, prefix, 0) {
        Some(i) => {
            let s = i + prefix.len();
            Some(text.subrange(s, s + leading_digits(text.subrange(s, text.len() as int))))
        },
        None => None,
    }
}

/// Relies on `regex::Regex::new` and `Regex::captures`: the pattern
/// `prefix([0-9]+)`, with a `prefix` that the regex reads literally, finds
/// its leftmost match, and its group takes the longest run of digits there.
/// The prefix is kept short so that the pattern stays far below the regex
/// crate's size limit, past which `Regex::new` refuses it.
#[verifier::external_body]
fn capture_digits_after(text: &str, prefix: &str) -> (r: Option<String>)
    requires
        plain_pattern(prefix@),
        prefix@.len() <= 16,
    ensures
        view_opt(r) == digits_after(text@, prefix@),
{
    let re = regex::Regex::new(&format!("{}([0-9]+)", prefix)).ok()?;
    re.captures(text).and_then(|c| c.get(1)).map(|m| m.as_str().to_string())
}

/// The kind of a Douyin work, as its share path names it.
#[derive(Clone, Copy, Debug, PartialEq, Eq, Structural)]
pub enum WorkKind {
    Video,
    Note,
    Slides,
}

pub open spec fn kind_name(k: WorkKind) -> Seq<char> {
    match k {
        WorkKind::Video => "video"@,
        WorkKind::Note => "note"@,
        WorkKind::Slides => "slides"@,
    }
}

impl WorkKind {
    pub fn name(&self) -> (r: &'static str)
        ensures
            r@ == kind_name(*self),
    {
        match self {
            WorkKind::Video => "video",
            WorkKind::Note => "note",
            WorkKind::Slides => "slides",
        }
    }
}

/// A work identifier and the kind that the link or page gave it.
#[derive(Debug)]
pub struct WorkRef {
    pub id: String,
    pub kind: WorkKind,
}

/// The identifier and kind found in `text` by the patterns `/video/<digits>`,
/// `/note/<digits>`, `/slides/<digits>` and `modal_id=<digits>`, tried in
/// that order.
pub open spec fn work_in(text: Seq<char>) -> Option<(Seq<char>, WorkKind)> {
    match digits_after(text, "/video/"@) {
        Some(id) => Some((id, WorkKind::Video)),
        None => match digits_after(text, "/note/"@) {
            Some(id) => Some((id, WorkKind::Note)),
            None => match digits_after(text, "/slides/"@) {
                Some(id) => Some((id, WorkKind::Slides)),
                None => match digits_after(text, "modal_id="@) {
                    Some(id) => Some((id, WorkKind::Video)),
                    None => None,
                },
            },
        },
    }
}

pub open spec fn work_view(w: Option<WorkRef>) -> Option<(Seq<char>, WorkKind)> {
    match w {
        Some(x) => Some((x.id@, x.kind)),
        None => None,
    }
}

/// The work that `text` names, as `work_in` states it.
pub fn extract_work(text: &str) -> (r: Option<WorkRef>)
    ensures
        work_view(r) == work_in(text@),
{
    proof {
        reveal_strlit("/video/");
        reveal_strlit("/note/");
        reveal_strlit("/slides/");
        reveal_strlit("modal_id=");
    }
    match capture_digits_after(text, "/video/") {
        Some(id) => {
            return Some(WorkRef { id, kind: WorkKind::Video });
        },
        None => {},
    }
    match capture_digits_after(text, "/note/") {
        Some(id) => {
            return Some(WorkRef { id, kind: WorkKind::Note });
        },
        None => {},
    }
    match capture_digits_after(text, "/slides/") {
        Some(id) => {
            return Some(WorkRef { id, kind: WorkKind::Slides });
        },
        None => {},
    }
    match capture_digits_after(text, "modal_id=") {
        Some(id) => Some(WorkRef { id, kind: WorkKind::Video }),
        None => None,
    }
}

/// The work identifier in a Douyin link.
pub fn extract_aweme_id(url: &str) -> (r: Option<String>)
    ensures
        view_opt(r) == (match work_in(url@) {
            Some(w) => Some(w.0),
            None => None,
        }),
{
    match extract_work(url) {
        Some(w) => Some(w.id),
        None => None,
    }
}

/// The work to retry with: the first found in the redirected URL, the
/// source URL, then the page body.
pub open spec fn retry_work(final_url: Seq<char>, source: Seq<char>, body: Seq<char>) -> Option<
    (Seq<char>, WorkKind),
> {
    match work_in(final_url) {
        Some(w) => Some(w),
        None => match work_in(source) {
            Some(w) => Some(w),
            None => work_in(body),
        },
    }
}

pub fn find_retry_work(final_url: &str, source: &str, body: &str) -> (r: Option<WorkRef>)
    ensures
        work_view(r) == retry_work(final_url@, source@, body@),
{
    match extract_work(final_url) {
        Some(w) => Some(w),
        None => match extract_work(source) {
            Some(w) => Some(w),
            None => extract_work(body),
        },
    }
}

/// The share pages to try for a work: its kind's page on the main site, then
/// the share page of each kind.
pub open spec fn candidate_pages(id: Seq<char>, kind: WorkKind) -> Seq<Seq<char>> {
    seq![
        "https://www.douyin.com/"@ + kind_name(kind) + "/"@ + id,
        "https://www.iesdouyin.com/share/video/"@ + id + "/"@,
        "https://www.iesdouyin.com/share/note/"@ + id + "/"@,
        "https://www.iesdouyin.com/share/slides/"@ + id + "/"@,
    ]
}

pub fn candidate_urls(w: &WorkRef) -> (r: Vec<String>)
    ensures
        crate::record::strings_view(r@) == candidate_pages(w.id@, w.kind),
{
    let id = w.id.as_str();
    let mut r: Vec<String> = Vec::new();
    r.push(String::from_str("https://www.douyin.com/").concat(w.kind.name()).concat("/").concat(id));
    r.push(String::from_str("https://www.iesdouyin.com/share/video/").concat(id).concat("/"));
    r.push(String::from_str("https://www.iesdouyin.com/share/note/").concat(id).concat("/"));
    r.push(String::from_str("https://www.iesdouyin.com/share/slides/").concat(id).concat("/"));
    assert(crate::record::strings_view(r@) =~= candidate_pages(w.id@, w.kind));
    r
}

/// The item-info endpoint for a work identifier.
pub open spec fn item_info_page(id: Seq<char>) -> Seq<char> {
    "https://www.iesdouyin.com/web/api/v2/aweme/iteminfo/?item_ids="@ + id
}

/// The item-info endpoint for a work identifier.
pub fn item_info_url(id: &str) -> (r: String)
    ensures
        r@ == item_info_page(id@),
{
    String::from_str("https://www.iesdouyin.com/web/api/v2/aweme/iteminfo/?item_ids=").concat(id)
}

/// The JSON text that a share page embeds: what follows the router-data
/// marker up to the next `</script>`, trimmed.
pub open spec fn embedded_json(html: Seq<char>) -> Option<Seq<char>> {
    match find_from(html, "window._ROUTER_DATA = "@, 0) {
        Some(k) => {
            let s = k + "window._ROUTER_DATA = "@.len();
            match find_from(html, "</script>"@, s) {
                Some(e) => Some(trim(html.subrange(s, e))),
                None => None,
            }
        },
        None => None,
    }
}

pub fn embedded_json_text(html: &str) -> (r: Option<String>)
    ensures
        view_opt(r) == embedded_json(html@),
{
    let h = chars_of(html);
    let marker = chars_of("window._ROUTER_DATA = ");
    let end = chars_of("</script>");
    let n = h.len();
    match find_chars(&h, &marker, 0) {
        Some(k) => {
            proof {
                crate::text::lemma_find_from_in_range(h@, marker@, 0);
            }
            assert(k + marker@.len() <= n);
            let s = k + marker.len();
            match find_chars(&h, &end, s) {
                Some(e) => {
                    proof {
                        crate::text::lemma_find_from_in_range(h@, end@, s as int);
                    }
                    let body = slice_chars(&h, s, e);
                    let t = trim_chars(&body);
                    Some(string_of(t.as_slice()))
                },
                None => None,
            }
        },
        None => None,
    }
}

/// The first element of a non-empty `videoInfoRes.item_list`.
pub open spec fn first_item(v: Json) -> Option<Json> {
    match path_at(v, seq!["videoInfoRes", "item_list"]) {
        Some(Json::Array(items)) => if items@.len() > 0 {
            Some(items@[0])
        } else {
            None
        },
        _ => None,
    }
}

/// The first item of the first loader entry that exposes one.
pub open spec fn loader_item(entries: Seq<(String, Json)>) -> Option<Json>
    decreases entries.len(),
{
    if entries.len() == 0 {
        None
    } else {
        match first_item(entries[0].1) {
            Some(it) => Some(it),
            None => loader_item(entries.drop_first()),
        }
    }
}

/// The item of a share page's document, found under `loaderData`.
pub open spec fn page_item(doc: Json) -> Option<Json> {
    match path_at(doc, seq!["loaderData"]) {
        Some(Json::Object(entries)) => loader_item(entries@),
        _ => None,
    }
}

fn first_item_exec(v: &Json) -> (r: Option<&Json>)
    ensures
        crate::json::deref_opt(r) == first_item(*v),
{
    let p: &[&str] = &["videoInfoRes", "item_list"];
    assert(p@ == seq!["videoInfoRes", "item_list"]);
    match v.get(p) {
        Some(n) => match n {
            Json::Array(items) => if items.len() > 0 {
                Some(&items[0])
            } else {
                None
            },
            _ => None,
        },
        None => None,
    }
}

pub fn find_page_item(doc: &Json) -> (r: Option<&Json>)
    ensures
        crate::json::deref_opt(r) == page_item(*doc),
{
    let p: &[&str] = &["loaderData"];
    assert(p@ == seq!["loaderData"]);
    match doc.get(p) {
        Some(n) => match n {
            Json::Object(entries) => {
                let mut i: usize = 0;
                assert(entries@.subrange(0, entries@.len() as int) =~= entries@);
                while i < entries.len()
                    invariant
                        i <= entries@.len(),
                        page_item(*doc) == loader_item(entries@),
                        loader_item(entries@) == loader_item(
                            entries@.subrange(i as int, entries@.len() as int),
                        ),
                    decreases entries@.len() - i,
                {
                    let ghost rest = entries@.subrange(i as int, entries@.len() as int);
                    assert(rest.drop_first() =~= entries@.subrange(i + 1, entries@.len() as int));
                    assert(rest[0] == entries@[i as int]);
                    let entry = &entries[i];
                    match first_item_exec(&entry.1) {
                        Some(it) => {
                            return Some(it);
                        },
                        None => {},
                    }
                    i = i + 1;
                }
                None
            },
            _ => None,
        },
        None => None,
    }
}

/// What one share page yields.
#[derive(Debug)]
pub enum PageResult {
    /// A record with content.
    Record(MediaRecord),
    /// No embedded JSON or no item in it: the caller may try other pages.
    Missing,
    /// Embedded JSON that does not parse, or an item without content.
    Failed(Failure),
}

/// Scrapes a share page for its item and normalizes it; the platform comes
/// from `source`. A page without the embedded JSON, or without an item, is
/// `Missing`; embedded JSON that does not parse is a shape failure.
pub fn scrape_share_page(html: &str, source: &str) -> (r: PageResult)
    ensures
        embedded_json(html@) is None ==> r is Missing,
        embedded_json(html@) matches Some(t) ==> match parsed_json(t) {
            None => r matches PageResult::Failed(f) && f.kind == FailureKind::Shape,
            Some(doc) => match page_item(doc) {
                None => r is Missing,
                Some(item) => match r {
                    PageResult::Record(rec) => raw_has_content(douyin_item_model(item))
                        && built_from(douyin_item_model(item), platform_of(source@), rec),
                    PageResult::Failed(f) => !raw_has_content(douyin_item_model(item)) && f.kind
                        == FailureKind::Content,
                    PageResult::Missing => false,
                },
            },
        },
{
    match embedded_json_text(html) {
        None => PageResult::Missing,
        Some(t) => match parse_json(t.as_str()) {
            None => PageResult::Failed(
                Failure::new(FailureKind::Shape, "the embedded page data is not JSON"),
            ),
            Some(doc) => match find_page_item(&doc) {
                None => PageResult::Missing,
                Some(item) => match build_record(douyin_item_fields(item), classify(source)) {
                    Ok(rec) => PageResult::Record(rec),
                    Err(f) => PageResult::Failed(f),
                },
            },
        },
    }
}

/// The first item of an item-info answer's non-empty `item_list`.
pub open spec fn api_item(doc: Json) -> Option<Json> {
    match path_at(doc, seq!["item_list"]) {
        Some(Json::Array(items)) => if items@.len() > 0 {
            Some(items@[0])
        } else {
            None
        },
        _ => None,
    }
}

/// Normalizes the item-info API's answer; the platform comes from `source`.
pub fn official_api_record(body: &str, source: &str) -> (r: Result<MediaRecord, Failure>)
    ensures
        match parsed_json(body@) {
            None => r matches Err(f) && f.kind == FailureKind::Shape,
            Some(doc) => match api_item(doc) {
                None => r matches Err(f) && f.kind == FailureKind::Shape,
                Some(item) => match r {
                    Ok(rec) => raw_has_content(douyin_item_model(item)) && built_from(
                        douyin_item_model(item),
                        platform_of(source@),
                        rec,
                    ),
                    Err(f) => !raw_has_content(douyin_item_model(item)) && f.kind
                        == FailureKind::Content,
                },
            },
        },
{
    let p: &[&str] = &["item_list"];
    assert(p@ == seq!["item_list"]);
    match parse_json(body) {
        None => Err(Failure::new(FailureKind::Shape, "the item-info answer is not JSON")),
        Some(doc) => match doc.get(p) {
            Some(n) => match n {
                Json::Array(items) => if items.len() > 0 {
                    build_record(douyin_item_fields(&items[0]), classify(source))
                } else {
                    Err(Failure::new(FailureKind::Shape, "the item list is empty"))
                },
                _ => Err(Failure::new(FailureKind::Shape, "the answer has no item list")),
            },
            None => Err(Failure::new(FailureKind::Shape, "the answer has no item list")),
        },
    }
}

} // verus!
