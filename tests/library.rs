use media_resolver::access::{access_status, parse_install_time, THRESHOLD_TIME};
use media_resolver::adapters::{mirror_record, mirror_response, Mirror};
use media_resolver::boundary::{bulk_fetch_result, greet};
use media_resolver::douyin::{
    candidate_urls, embedded_json_text, extract_aweme_id, extract_work, official_api_record,
    scrape_share_page, PageResult, WorkKind,
};
use media_resolver::json::{first_non_empty, parse_json, Json};
use media_resolver::platform::{classify, Platform};
use media_resolver::record::{
    build_record, normalize_duration, ContentKind, FailureKind, MediaRecord, RawFields,
};
use media_resolver::resolve::{referer_for, Action, Event, Resolver};
use media_resolver::watermark::strip_watermark;

fn record(content_type: ContentKind, video_url: Option<&str>, images: Option<Vec<&str>>) -> MediaRecord {
    MediaRecord {
        title: "t".to_string(),
        cover: String::new(),
        video_url: video_url.map(|s| s.to_string()),
        author: String::new(),
        platform: Platform::Unknown,
        duration: None,
        likes: None,
        comments: None,
        images: images.map(|v| v.into_iter().map(|s| s.to_string()).collect()),
        content_type,
        music_url: None,
    }
}

fn empty_raw() -> RawFields {
    RawFields {
        title: None,
        cover: None,
        video_url: None,
        author: None,
        duration: None,
        likes: None,
        comments: None,
        images: Vec::new(),
        music_url: None,
    }
}

#[test]
fn classify_by_host_fragment() {
    assert_eq!(classify("https://v.douyin.com/abc/?x=1"), Platform::Douyin);
    assert_eq!(classify("https://www.iesdouyin.com/share/video/1/"), Platform::Douyin);
    assert_eq!(classify("https://www.kuaishou.com/short-video/3x"), Platform::Kuaishou);
    assert_eq!(classify("https://v.gifshow.com/x"), Platform::Kuaishou);
    assert_eq!(classify("https://www.xiaohongshu.com/explore/1"), Platform::Xiaohongshu);
    assert_eq!(classify("http://xhslink.com/a/b"), Platform::Xiaohongshu);
    assert_eq!(classify("https://www.tiktok.com/@u/video/1?lang=en"), Platform::TikTok);
    assert_eq!(classify("https://example.org/video/1"), Platform::Unknown);
    assert_eq!(classify(""), Platform::Unknown);
    assert_eq!(Platform::TikTok.label(), "TikTok");
}

#[test]
fn strip_watermark_rewrites_path_and_query() {
    assert_eq!(
        strip_watermark("https://aweme.snssdk.com/aweme/v1/playwm/?video_id=v1&logo_name=aweme&ratio=720p&watermark=1"),
        "https://aweme.snssdk.com/aweme/v1/play/?video_id=v1&ratio=720p"
    );
    assert_eq!(
        strip_watermark("https:\\u002F\\u002Fa.com\\u002Fplaywm?wm=1"),
        "https://a.com/play"
    );
    assert_eq!(strip_watermark("https://a.com/x/playwm#frag"), "https://a.com/x/play#frag");
    assert_eq!(strip_watermark("https://a.com/playwmx/?a=1"), "https://a.com/playwmx/?a=1");
    assert_eq!(strip_watermark("not a url /playwm/x?wm=1"), "not a url /play/x?wm=1");
    assert_eq!(strip_watermark(""), "");
}

#[test]
fn strip_watermark_is_idempotent_on_examples() {
    for s in [
        "https://a.com/playwm/playwm/?wm=1&logo_name=2&b=3#f",
        "https:\\u002F\\u002Fa.com\\u002Fplaywm\\u002Fx?watermark=0",
        "/playwm/playwm",
        "%%%",
        "a?x=/playwm&wm=http://z",
        "https://h/p?wm=http://x&k=/playwm#/playwm",
        "https://h/playwm?&&wm=1&",
    ] {
        let once = strip_watermark(s);
        assert_eq!(strip_watermark(&once), once);
    }
}

#[test]
fn duration_normalization() {
    assert_eq!(normalize_duration(Some(15000)), Some(15));
    assert_eq!(normalize_duration(Some(42)), Some(42));
    assert_eq!(normalize_duration(Some(10000)), Some(10));
    assert_eq!(normalize_duration(Some(9999)), Some(9999));
    assert_eq!(normalize_duration(None), None);
}

#[test]
fn validity_rejects_empty_content() {
    assert!(!record(ContentKind::Image, None, Some(vec![])).has_content());
    assert!(!record(ContentKind::Video, Some("   "), None).has_content());
    assert!(!record(ContentKind::Video, None, None).has_content());
    assert!(record(ContentKind::Image, None, Some(vec!["http://i/1.jpg"])).has_content());
    assert!(record(ContentKind::Video, Some("http://a/v.mp4"), None).has_content());
}

#[test]
fn first_non_empty_skips_blank() {
    let c = vec![None, Some("  ".to_string()), Some("x".to_string())];
    assert_eq!(first_non_empty(&c), Some("x".to_string()));
    let d: Vec<Option<String>> = vec![None, Some(" \t".to_string())];
    assert_eq!(first_non_empty(&d), None);
    assert_eq!(first_non_empty(&vec![Some("  y ".to_string())]), Some("y".to_string()));
}

#[test]
fn accessor_reads_paths_and_numbers() {
    let j = parse_json(r#"{"a":{"b":" s ","n":15000.0,"m":"42","neg":-3,"l":["  ","x"],"k":[" u "]}}"#).unwrap();
    assert_eq!(j.get_string(&["a", "b"]), Some("s".to_string()));
    assert_eq!(j.get_string(&["a", "x"]), None);
    assert_eq!(j.get_string(&["a", "b", "c"]), None);
    assert_eq!(j.get_uint(&["a", "n"]), Some(15000));
    assert_eq!(j.get_uint(&["a", "m"]), Some(42));
    assert_eq!(j.get_uint(&["a", "neg"]), None);
    assert_eq!(j.get_first_array_string(&["a", "l"]), None);
    assert_eq!(j.get_first_array_string(&["a", "k"]), Some("u".to_string()));
    assert!(parse_json("{not json").is_none());
    assert!(matches!(parse_json("[1, true, null]"), Some(Json::Array(_))));
}

#[test]
fn mirror_envelope_normalizes_tiktok_video() {
    let env = parse_json(r#"{"code":0,"data":{"title":"t","hdplay":"http://a/v.mp4","digg_count":5}}"#).unwrap();
    let rec = mirror_record(Mirror::TikWm, &env, "https://www.tiktok.com/@u/video/1").unwrap();
    assert_eq!(rec.content_type, ContentKind::Video);
    assert_eq!(rec.video_url, Some("http://a/v.mp4".to_string()));
    assert_eq!(rec.likes, Some(5));
    assert_eq!(rec.platform, Platform::TikTok);
    assert_eq!(rec.platform.label(), "TikTok");
    assert_eq!(rec.title, "t");
    assert_eq!(rec.images, None);
}

#[test]
fn mirror_envelope_failures() {
    let bad_code = parse_json(r#"{"code":1,"data":{"hdplay":"http://a/v.mp4"}}"#).unwrap();
    assert_eq!(mirror_record(Mirror::TikWm, &bad_code, "u").unwrap_err().kind, FailureKind::Shape);
    let no_data = parse_json(r#"{"code":200}"#).unwrap();
    assert_eq!(mirror_record(Mirror::Hybrid, &no_data, "u").unwrap_err().kind, FailureKind::Shape);
    let empty = parse_json(r#"{"success":true,"data":{"title":"x"}}"#).unwrap();
    assert_eq!(mirror_record(Mirror::Flagged, &empty, "u").unwrap_err().kind, FailureKind::Content);
    assert_eq!(mirror_response(Mirror::TikWm, 500, "{}", "u").unwrap_err().kind, FailureKind::Transport);
    assert_eq!(mirror_response(Mirror::TikWm, 200, "<html>", "u").unwrap_err().kind, FailureKind::Shape);
}

#[test]
fn image_post_from_flagged_service() {
    let env = parse_json(
        r#"{"success":true,"data":{"desc":"d","images":["http://i/1.jpg",{"url":"http://i/2.jpg"},{"url_list":["http://i/3.jpg"]},5],"video_url":"http://v"}}"#,
    )
    .unwrap();
    let rec = mirror_record(Mirror::Flagged, &env, "https://www.xiaohongshu.com/explore/1").unwrap();
    assert_eq!(rec.content_type, ContentKind::Image);
    assert_eq!(rec.video_url, None);
    assert_eq!(
        rec.images,
        Some(vec!["http://i/1.jpg".to_string(), "http://i/2.jpg".to_string(), "http://i/3.jpg".to_string()])
    );
    assert_eq!(rec.cover, "http://i/1.jpg");
    assert_eq!(rec.title, "d");
    assert_eq!(rec.platform, Platform::Xiaohongshu);
}

#[test]
fn build_record_fallbacks() {
    let mut raw = empty_raw();
    raw.video_url = Some("http://v".to_string());
    raw.duration = Some(61000);
    let rec = build_record(raw, Platform::Kuaishou).unwrap();
    assert_eq!(rec.title, "Untitled");
    assert_eq!(rec.author, "");
    assert_eq!(rec.cover, "");
    assert_eq!(rec.duration, Some(61));
    assert_eq!(build_record(empty_raw(), Platform::Unknown).unwrap_err().kind, FailureKind::Content);
}

#[test]
fn work_id_extraction() {
    assert_eq!(extract_aweme_id("https://www.douyin.com/video/7312345678901234567?a=1"), Some("7312345678901234567".to_string()));
    assert_eq!(extract_aweme_id("https://www.douyin.com/user/x?modal_id=42"), Some("42".to_string()));
    assert_eq!(extract_aweme_id("https://www.douyin.com/video/abc"), None);
    let w = extract_work("x /note/ab /note/123z").unwrap();
    assert_eq!(w.id, "123");
    assert_eq!(w.kind, WorkKind::Note);
    let urls = candidate_urls(&w);
    assert_eq!(urls.len(), 4);
    assert_eq!(urls[0], "https://www.douyin.com/note/123");
    assert_eq!(urls[1], "https://www.iesdouyin.com/share/video/123/");
    assert_eq!(urls[3], "https://www.iesdouyin.com/share/slides/123/");
}

#[test]
fn share_page_scrape() {
    let html = r#"<html><script>window._ROUTER_DATA = {"loaderData":{"a":{},"video_(id)/page":{"videoInfoRes":{"item_list":[{"desc":"hello","author":{"nickname":"n"},"video":{"duration":15000,"play_addr":{"url_list":["https://aweme.snssdk.com/aweme/v1/playwm/?video_id=v&logo_name=x"]}},"statistics":{"digg_count":7,"comment_count":2}}]}}}}</script></html>"#;
    assert!(embedded_json_text(html).is_some());
    match scrape_share_page(html, "https://v.douyin.com/abc/") {
        PageResult::Record(rec) => {
            assert_eq!(rec.title, "hello");
            assert_eq!(rec.author, "n");
            assert_eq!(rec.video_url, Some("https://aweme.snssdk.com/aweme/v1/play/?video_id=v".to_string()));
            assert_eq!(rec.duration, Some(15));
            assert_eq!(rec.likes, Some(7));
            assert_eq!(rec.comments, Some(2));
            assert_eq!(rec.platform, Platform::Douyin);
        }
        other => panic!("unexpected {:?}", other),
    }
    assert!(matches!(scrape_share_page("<html></html>", "u"), PageResult::Missing));
    match scrape_share_page("window._ROUTER_DATA = {oops</script>", "u") {
        PageResult::Failed(f) => assert_eq!(f.kind, FailureKind::Shape),
        other => panic!("unexpected {:?}", other),
    }
}

#[test]
fn official_api_answer() {
    let body = r#"{"item_list":[{"desc":"p","images":[{"url_list":["http://i/a.jpg"]}],"video":{"play_addr":{"url_list":["http://v/playwm"]}}}]}"#;
    let rec = official_api_record(body, "https://v.douyin.com/x/").unwrap();
    assert_eq!(rec.content_type, ContentKind::Image);
    assert_eq!(rec.images, Some(vec!["http://i/a.jpg".to_string()]));
    assert_eq!(rec.video_url, None);
    assert_eq!(official_api_record(r#"{"item_list":[]}"#, "u").unwrap_err().kind, FailureKind::Shape);
}

#[test]
fn referer_from_source() {
    assert_eq!(referer_for("https://v.douyin.com/abc/?x"), "https://v.douyin.com/");
    assert_eq!(referer_for("no scheme"), "https://www.douyin.com/");
    assert_eq!(referer_for("https:///x"), "https://www.douyin.com/");
}

fn run_failing(url: &str, legacy: bool) -> (String, usize) {
    let (mut r, mut action) = Resolver::new(url, legacy);
    let mut fetches = 0;
    loop {
        match action {
            Action::Fetch(_) => {
                fetches += 1;
                action = r.step(Event::TransportError("refused".to_string()));
            }
            Action::Done(res) => return (res.unwrap_err(), fetches),
        }
    }
}

fn in_order(msg: &str, labels: &[&str]) {
    let mut from = 0;
    for l in labels {
        let at = msg[from..].find(l).unwrap_or_else(|| panic!("{} missing after {} in {}", l, from, msg));
        from += at + l.len();
    }
}

#[test]
fn chain_failure_names_every_adapter_in_order() {
    let (msg, fetches) = run_failing("https://v.douyin.com/abc/", false);
    assert_eq!(fetches, 4);
    in_order(&msg, &["share-page", "tikwm", "hybrid-api", "flagged-api"]);
    let (msg, fetches) = run_failing("https://www.tiktok.com/@u/video/1", false);
    assert_eq!(fetches, 3);
    assert!(!msg.contains("share-page"));
    in_order(&msg, &["tikwm", "hybrid-api", "flagged-api"]);
}

#[test]
fn legacy_failure_names_every_adapter_in_order() {
    let (msg, _) = run_failing("https://v.douyin.com/abc/", true);
    in_order(&msg, &["share-page", "official-api", "provider chain", "share-page", "tikwm", "hybrid-api", "flagged-api"]);
}

#[test]
fn chain_stops_at_first_success() {
    let (mut r, action) = Resolver::new("https://www.tiktok.com/@u/video/1", false);
    match action {
        Action::Fetch(req) => {
            assert_eq!(req.url, "https://www.tikwm.com/api/");
            assert_eq!(req.query_url, Some("https://www.tiktok.com/@u/video/1".to_string()));
        }
        _ => panic!("expected a fetch"),
    }
    let a = r.step(Event::Response { status: 200, final_url: String::new(), body: "{\"code\":-1}".to_string() });
    assert!(matches!(a, Action::Fetch(_)));
    let body = r#"{"code":200,"data":{"video":{"play_addr":{"url_list":["http://v.mp4"]}}}}"#;
    match r.step(Event::Response { status: 200, final_url: String::new(), body: body.to_string() }) {
        Action::Done(Ok(rec)) => {
            assert_eq!(rec.video_url, Some("http://v.mp4".to_string()));
            assert_eq!(rec.title, "Untitled");
        }
        other => panic!("unexpected {:?}", other),
    }
}

#[test]
fn share_page_retries_candidates() {
    let (mut r, _) = Resolver::new("https://v.douyin.com/abc/", false);
    let a = r.step(Event::Response {
        status: 200,
        final_url: "https://www.douyin.com/video/99".to_string(),
        body: "<html></html>".to_string(),
    });
    match a {
        Action::Fetch(req) => assert_eq!(req.url, "https://www.douyin.com/video/99"),
        other => panic!("unexpected {:?}", other),
    }
    let mut fetches = 1;
    let mut action = r.step(Event::TransportError("timeout".to_string()));
    loop {
        match action {
            Action::Fetch(_) => {
                fetches += 1;
                action = r.step(Event::TransportError("timeout".to_string()));
            }
            Action::Done(res) => {
                let msg = res.unwrap_err();
                assert!(msg.contains("https://www.iesdouyin.com/share/slides/99/: timeout"));
                break;
            }
        }
    }
    assert_eq!(fetches, 7);
}

#[test]
fn access_gate() {
    assert!(access_status(THRESHOLD_TIME).allowed);
    assert!(!access_status(THRESHOLD_TIME + 1).allowed);
    assert_eq!(access_status(5).threshold_time, 1766294400);
    assert_eq!(parse_install_time(" 1700000000\n"), Some(1700000000));
    assert_eq!(parse_install_time("abc"), None);
    assert_eq!(parse_install_time("+5"), Some(5));
    assert_eq!(parse_install_time(" +17 "), Some(17));
    assert_eq!(parse_install_time("+"), None);
    assert_eq!(parse_install_time("++5"), None);
}

#[test]
fn greeting_text() {
    assert_eq!(greet("Ann"), "Hello, Ann! You've been greeted from Rust!");
}

#[test]
fn bulk_fetch_encodes_body() {
    assert_eq!(bulk_fetch_result(200, b"hi"), Ok("aGk=".to_string()));
    assert_eq!(bulk_fetch_result(206, b""), Ok(String::new()));
    assert_eq!(bulk_fetch_result(404, b"hi"), Err(404));
}

#[test]
fn strip_watermark_query_edge_cases() {
    assert_eq!(strip_watermark("a?x=/playwm&wm=http://z"), "a?x=/playwm&wm=http://z");
    assert_eq!(strip_watermark("https://h/playwm?&&wm=1&"), "https://h/play");
    assert_eq!(strip_watermark("https://h/playwm?a=1&&b"), "https://h/play?a=1&&b");
    assert_eq!(strip_watermark("https://h/p?wm=1#x"), "https://h/p#x");
}

#[test]
fn mirror_transport_failure_is_recorded() {
    let (mut r, _) = Resolver::new("https://www.tiktok.com/@u/video/1", false);
    let a = r.step(Event::TransportError("connection refused".to_string()));
    match a {
        Action::Fetch(req) => assert_eq!(req.url, "https://api.douyin.wtf/api/hybrid/video_data"),
        other => panic!("unexpected {:?}", other),
    }
}

#[test]
fn legacy_item_info_path() {
    let (mut r, first) = Resolver::new("https://v.douyin.com/abc/", true);
    match first {
        Action::Fetch(req) => {
            assert_eq!(req.url, "https://v.douyin.com/abc/");
            assert_eq!(req.query_url, None);
            assert_eq!(req.referer, "https://v.douyin.com/");
        }
        other => panic!("unexpected {:?}", other),
    }
    // the share page fails outright on a page whose embedded JSON is broken
    let a = r.step(Event::Response {
        status: 200,
        final_url: "https://www.douyin.com/video/5".to_string(),
        body: "window._ROUTER_DATA = {oops</script>".to_string(),
    });
    match a {
        Action::Fetch(req) => assert_eq!(req.url, "https://v.douyin.com/abc/"),
        other => panic!("unexpected {:?}", other),
    }
    let a = r.step(Event::Response {
        status: 200,
        final_url: "https://www.douyin.com/video/77?x=1".to_string(),
        body: String::new(),
    });
    match a {
        Action::Fetch(req) => assert_eq!(req.url, "https://www.iesdouyin.com/web/api/v2/aweme/iteminfo/?item_ids=77"),
        other => panic!("unexpected {:?}", other),
    }
    let body = r#"{"item_list":[{"desc":"d","video":{"duration":42,"play_addr":{"url_list":["https://x/playwm/?wm=1&a=2"]}}}]}"#;
    match r.step(Event::Response { status: 200, final_url: String::new(), body: body.to_string() }) {
        Action::Done(Ok(rec)) => {
            assert_eq!(rec.video_url, Some("https://x/play/?a=2".to_string()));
            assert_eq!(rec.duration, Some(42));
            assert_eq!(rec.platform, Platform::Douyin);
        }
        other => panic!("unexpected {:?}", other),
    }
}

#[test]
fn item_info_failure_moves_to_chain() {
    let (mut r, _) = Resolver::new("https://www.tiktok.com/@u/video/1", true);
    // not a Douyin link: the share page is skipped, the item-info API starts
    let a = r.step(Event::Response { status: 200, final_url: "https://www.tiktok.com/@u/video/1".to_string(), body: String::new() });
    match a {
        Action::Fetch(req) => assert_eq!(req.url, "https://www.iesdouyin.com/web/api/v2/aweme/iteminfo/?item_ids=1"),
        other => panic!("unexpected {:?}", other),
    }
    match r.step(Event::Response { status: 200, final_url: String::new(), body: "{\"item_list\":[]}".to_string() }) {
        Action::Fetch(req) => {
            assert_eq!(req.url, "https://www.tikwm.com/api/");
            assert_eq!(req.query_url, Some("https://www.tiktok.com/@u/video/1".to_string()));
        }
        other => panic!("unexpected {:?}", other),
    }
}
