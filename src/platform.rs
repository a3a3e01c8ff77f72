//! Platform classification of a share URL by the domain fragments it holds.
use vstd::prelude::*;
use crate::text::{chars_of, contains, contains_chars};

verus! {

#[derive(Clone, Copy, Debug, PartialEq, Eq, Structural)]
pub enum Platform {
    Douyin,
    Kuaishou,
    Xiaohongshu,
    TikTok,
    Unknown,
}

pub open spec fn is_douyin_url(u: Seq<char>) -> bool {
    contains(u, "douyin.com"@) || contains(u, "iesdouyin.com"@)
}

pub open spec fn is_kuaishou_url(u: Seq<char>) -> bool {
    contains(u, "kuaishou.com"@) || contains(u, "gifshow.com"@)
}

pub open spec fn is_xiaohongshu_url(u: Seq<char>) -> bool {
    contains(u, "xiaohongshu.com"@) || contains(u, "xhslink.com"@)
}

pub open spec fn is_tiktok_url(u: Seq<char>) -> bool {
    contains(u, "tiktok.com"@)
}

/// The platform of a URL: the first of the platforms, in a fixed order, whose
/// domain fragments occur in it.
pub open spec fn platform_of(u: Seq<char>) -> Platform {
    if is_douyin_url(u) {
        Platform::Douyin
    } else if is_kuaishou_url(u) {
        Platform::Kuaishou
    } else if is_xiaohongshu_url(u) {
        Platform::Xiaohongshu
    } else if is_tiktok_url(u) {
        Platform::TikTok
    } else {
        Platform::Unknown
    }
}

fn holds(u: &Vec<char>, fragment: &str) -> (r: bool)
    ensures
        r == contains(u@, fragment@),
{
    contains_chars(u, &chars_of(fragment))
}

/// Classifies `url` by the domain fragments it holds; never fails.
pub fn classify(url: &str) -> (r: Platform)
    ensures
        r == platform_of(url@),
{
    let u = chars_of(url);
    if holds(&u, "douyin.com") || holds(&u, "iesdouyin.com") {
        Platform::Douyin
    } else if holds(&u, "kuaishou.com") || holds(&u, "gifshow.com") {
        Platform::Kuaishou
    } else if holds(&u, "xiaohongshu.com") || holds(&u, "xhslink.com") {
        Platform::Xiaohongshu
    } else if holds(&u, "tiktok.com") {
        Platform::TikTok
    } else {
        Platform::Unknown
    }
}

pub open spec fn platform_label(p: Platform) -> Seq<char> {
    match p {
        Platform::Douyin => "Douyin"@,
        Platform::Kuaishou => "Kuaishou"@,
        Platform::Xiaohongshu => "Xiaohongshu"@,
        Platform::TikTok => "TikTok"@,
        Platform::Unknown => "Unknown"@,
    }
}

impl Platform {
    /// The tag written into a record.
    pub fn label(&self) -> (r: String)
        ensures
            r@ == platform_label(*self),
    {
        match self {
            Platform::Douyin => String::from_str("Douyin"),
            Platform::Kuaishou => String::from_str("Kuaishou"),
            Platform::Xiaohongshu => String::from_str("Xiaohongshu"),
            Platform::TikTok => String::from_str("TikTok"),
            Platform::Unknown => String::from_str("Unknown"),
        }
    }
}

/// A URL that holds a platform's domain fragment is classified as that
/// platform, whatever its path and query, as long as it holds no fragment of a
/// platform checked before it; a URL that holds none is `Unknown`.
pub proof fn lemma_classify_by_fragment(u: Seq<char>)
    ensures
        contains(u, "douyin.com"@) ==> platform_of(u) == Platform::Douyin,
        !is_douyin_url(u) && contains(u, "kuaishou.com"@) ==> platform_of(u) == Platform::Kuaishou,
        !is_douyin_url(u) && !is_kuaishou_url(u) && contains(u, "xiaohongshu.com"@)
            ==> platform_of(u) == Platform::Xiaohongshu,
        !is_douyin_url(u) && !is_kuaishou_url(u) && !is_xiaohongshu_url(u) && contains(
            u,
            "tiktok.com"@,
        ) ==> platform_of(u) == Platform::TikTok,
        !is_douyin_url(u) && !is_kuaishou_url(u) && !is_xiaohongshu_url(u) && !is_tiktok_url(u)
            ==> platform_of(u) == Platform::Unknown,
{
}

} // verus!
