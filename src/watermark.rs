//! Rewriting of Douyin playback URLs to their watermark-free form.
use vstd::prelude::*;
use crate::text::{chars_of, contains, contains_chars, occurs_at, occurs_at_exec, slice_chars, string_of, same_text};

verus! {

/// The escaped slash `/` that embedded JSON leaves in URLs.
pub open spec fn escaped_slash() -> Seq<char> {
    seq!['\\', 'u', '0', '0', '2', 'F']
}

pub open spec fn marked_segment() -> Seq<char> {
    seq!['/', 'p', 'l', 'a', 'y', 'w', 'm']
}

pub open spec fn plain_segment() -> Seq<char> {
    seq!['/', 'p', 'l', 'a', 'y']
}

pub open spec fn scheme_mark() -> Seq<char> {
    seq![':', '/', '/']
}

/// `s` with every escaped slash, left to right, made a `/`.
pub open spec fn unescape_slashes(s: Seq<char>) -> Seq<char>
    decreases s.len(),
{
    if s.len() == 0 {
        s
    } else if occurs_at(s, escaped_slash(), 0) {
        seq!['/'] + unescape_slashes(s.subrange(6, s.len() as int))
    } else {
        seq![s[0]] + unescape_slashes(s.subrange(1, s.len() as int))
    }
}

/// A whole `playwm` path segment starts at `i`.
pub open spec fn marked_at(p: Seq<char>, i: int) -> bool {
    occurs_at(p, marked_segment(), i) && (i + 7 == p.len() || p[i + 7] == '/')
}

/// `p` with each whole path segment `playwm` made `play`: `/playwm/` becomes
/// `/play/` and a trailing `/playwm` becomes `/play`.
pub open spec fn rewrite_path(p: Seq<char>) -> Seq<char>
    decreases p.len(),
{
    if p.len() == 0 {
        p
    } else if marked_at(p, 0) {
        plain_segment() + rewrite_path(p.subrange(7, p.len() as int))
    } else {
        seq![p[0]] + rewrite_path(p.subrange(1, p.len() as int))
    }
}

/// The first index at or after `from` that holds `c`, else the length.
pub open spec fn first_char(s: Seq<char>, c: char, from: int) -> int
    decreases s.len() - from,
{
    if from < 0 || from >= s.len() {
        s.len() as int
    } else if s[from] == c {
        from
    } else {
        first_char(s, c, from + 1)
    }
}

/// The first index at or after `from` that holds `?` or `#`, else the length.
pub open spec fn first_query_or_fragment(s: Seq<char>, from: int) -> int
    decreases s.len() - from,
{
    if from < 0 || from >= s.len() {
        s.len() as int
    } else if s[from] == '?' || s[from] == '#' {
        from
    } else {
        first_query_or_fragment(s, from + 1)
    }
}

/// A query parameter named `logo_name`, `watermark` or `wm`.
pub open spec fn denied_param(p: Seq<char>) -> bool {
    let name = p.subrange(0, first_char(p, '=', 0));
    name == "logo_name"@ || name == "watermark"@ || name == "wm"@
}

/// The query `q` without its denied parameters, the others kept in order and
/// joined by `&`.
pub open spec fn kept_query(q: Seq<char>) -> Seq<char>
    decreases q.len(),
{
    let i = first_char(q, '&', 0);
    let p = q.subrange(0, i);
    let rest = if 0 <= i < q.len() {
        kept_query(q.subrange(i + 1, q.len() as int))
    } else {
        Seq::<char>::empty()
    };
    if denied_param(p) {
        rest
    } else if rest.len() == 0 {
        p
    } else {
        p + seq!['&'] + rest
    }
}

/// The index of the first `://`, where it ends before any `?` or `#`: the
/// text then parses as a URL with a scheme.
pub open spec fn scheme_at(u: Seq<char>) -> Option<int> {
    match crate::text::find_from(u, scheme_mark(), 0) {
        Some(k) => if k + 3 <= first_query_or_fragment(u, 0) {
            Some(k)
        } else {
            None
        },
        None => None,
    }
}

/// Where the path starts: at the first `/` after the host of a URL; at the
/// start of text that is no URL. `he` is where the query or fragment starts.
pub open spec fn path_start(u: Seq<char>, he: int) -> int {
    match scheme_at(u) {
        Some(k) => {
            let s0 = first_char(u, '/', k + 3);
            if s0 < he {
                s0
            } else {
                he
            }
        },
        None => 0,
    }
}

/// The text `u` (already unescaped) with the path rewritten and, for a URL,
/// the denied query parameters dropped; scheme, host and fragment stay.
pub open spec fn strip_text(u: Seq<char>) -> Seq<char> {
    let he = first_query_or_fragment(u, 0);
    let ps = path_start(u, he);
    let head = u.subrange(0, ps) + rewrite_path(u.subrange(ps, he));
    if scheme_at(u) is Some && he < u.len() && u[he] == '?' {
        let qe = first_char(u, '#', he + 1);
        let kept = kept_query(u.subrange(he + 1, qe));
        let query = if kept.len() == 0 {
            Seq::<char>::empty()
        } else {
            seq!['?'] + kept
        };
        head + query + u.subrange(qe, u.len() as int)
    } else {
        head + u.subrange(he, u.len() as int)
    }
}

/// The watermark-free form of a playback URL.
pub open spec fn stripped(raw: Seq<char>) -> Seq<char> {
    strip_text(unescape_slashes(raw))
}

fn escaped_slash_chars() -> (r: Vec<char>)
    ensures
        r@ == escaped_slash(),
{
    let r = vec!['\\', 'u', '0', '0', '2', 'F'];
    assert(r@ =~= escaped_slash());
    r
}

fn marked_segment_chars() -> (r: Vec<char>)
    ensures
        r@ == marked_segment(),
{
    let r = vec!['/', 'p', 'l', 'a', 'y', 'w', 'm'];
    assert(r@ =~= marked_segment());
    r
}

/// Appends `src[from..to]` to `out`.
fn push_range(out: &mut Vec<char>, src: &Vec<char>, from: usize, to: usize)
    requires
        from <= to <= src@.len(),
    ensures
        final(out)@ == old(out)@ + src@.subrange(from as int, to as int),
{
    let mut i: usize = from;
    while i < to
        invariant
            from <= i <= to <= src@.len(),
            out@ == old(out)@ + src@.subrange(from as int, i as int),
        decreases to - i,
    {
        out.push(src[i]);
        i = i + 1;
        assert(out@ =~= old(out)@ + src@.subrange(from as int, i as int));
    }
}

pub fn unescape_chars(s: &Vec<char>) -> (r: Vec<char>)
    ensures
        r@ == unescape_slashes(s@),
{
    let pat = escaped_slash_chars();
    let n = s.len();
    let mut out: Vec<char> = Vec::new();
    let mut i: usize = 0;
    assert(s@.subrange(0, n as int) =~= s@);
    while i < n
        invariant
            i <= n == s@.len(),
            pat@ == escaped_slash(),
            unescape_slashes(s@) == out@ + unescape_slashes(s@.subrange(i as int, n as int)),
        decreases n - i,
    {
        let ghost t = s@.subrange(i as int, n as int);
        if occurs_at_exec(s, &pat, i) {
            assert(t.subrange(0, 6) =~= s@.subrange(i as int, i + 6));
            assert(t.subrange(6, t.len() as int) =~= s@.subrange(i + 6, n as int));
            out.push('/');
            i = i + 6;
        } else {
            assert(t.subrange(0, 6) =~= s@.subrange(i as int, i + 6) || t.len() < 6);
            assert(t.subrange(1, t.len() as int) =~= s@.subrange(i + 1, n as int));
            out.push(s[i]);
            i = i + 1;
        }
    }
    assert(s@.subrange(n as int, n as int) =~= Seq::<char>::empty());
    out
}

fn marked_at_exec(p: &Vec<char>, mark: &Vec<char>, i: usize) -> (r: bool)
    requires
        mark@ == marked_segment(),
    ensures
        r == marked_at(p@, i as int),
{
    let n = p.len();
    if !occurs_at_exec(p, mark, i) {
        return false;
    }
    assert(marked_segment().len() == 7);
    assert(occurs_at(p@, marked_segment(), i as int));
    assert(i + 7 <= p@.len());
    i + 7 == n || p[i + 7] == '/'
}

pub fn rewrite_path_chars(p: &Vec<char>) -> (r: Vec<char>)
    ensures
        r@ == rewrite_path(p@),
{
    let mark = marked_segment_chars();
    let n = p.len();
    let mut out: Vec<char> = Vec::new();
    let mut i: usize = 0;
    assert(p@.subrange(0, n as int) =~= p@);
    while i < n
        invariant
            i <= n == p@.len(),
            mark@ == marked_segment(),
            rewrite_path(p@) == out@ + rewrite_path(p@.subrange(i as int, n as int)),
        decreases n - i,
    {
        let ghost t = p@.subrange(i as int, n as int);
        if marked_at_exec(p, &mark, i) {
            assert(t.subrange(0, 7) =~= p@.subrange(i as int, i + 7));
            assert(t.subrange(7, t.len() as int) =~= p@.subrange(i + 7, n as int));
            assert(marked_at(t, 0));
            out.push('/');
            out.push('p');
            out.push('l');
            out.push('a');
            out.push('y');
            assert(out@ =~= out@);
            i = i + 7;
            assert(rewrite_path(p@) =~= out@ + rewrite_path(p@.subrange(i as int, n as int)));
        } else {
            assert(!marked_at(t, 0)) by {
                if t.len() >= 7 {
                    assert(t.subrange(0, 7) =~= p@.subrange(i as int, i + 7));
                }
            }
            assert(t.subrange(1, t.len() as int) =~= p@.subrange(i + 1, n as int));
            out.push(p[i]);
            i = i + 1;
            assert(rewrite_path(p@) =~= out@ + rewrite_path(p@.subrange(i as int, n as int)));
        }
    }
    assert(p@.subrange(n as int, n as int) =~= Seq::<char>::empty());
    out
}

fn first_char_exec(s: &Vec<char>, c: char, from: usize) -> (r: usize)
    requires
        from <= s@.len(),
    ensures
        r as int == first_char(s@, c, from as int),
        from <= r <= s@.len(),
{
    let n = s.len();
    let mut i: usize = from;
    while i < n && s[i] != c
        invariant
            from <= i <= n == s@.len(),
            first_char(s@, c, from as int) == first_char(s@, c, i as int),
        decreases n - i,
    {
        i = i + 1;
    }
    i
}

fn first_query_or_fragment_exec(s: &Vec<char>) -> (r: usize)
    ensures
        r as int == first_query_or_fragment(s@, 0),
        r <= s@.len(),
{
    let n = s.len();
    let mut i: usize = 0;
    while i < n && s[i] != '?' && s[i] != '#'
        invariant
            i <= n == s@.len(),
            first_query_or_fragment(s@, 0) == first_query_or_fragment(s@, i as int),
        decreases n - i,
    {
        i = i + 1;
    }
    i
}

fn denied_param_exec(p: &Vec<char>) -> (r: bool)
    ensures
        r == denied_param(p@),
{
    let j = first_char_exec(p, '=', 0);
    let name = string_of(slice_chars(p, 0, j).as_slice());
    same_text(name.as_str(), "logo_name") || same_text(name.as_str(), "watermark")
        || same_text(name.as_str(), "wm")
}

pub fn kept_query_chars(q: &Vec<char>) -> (r: Vec<char>)
    ensures
        r@ == kept_query(q@),
    decreases q@.len(),
{
    let n = q.len();
    let i = first_char_exec(q, '&', 0);
    let p = slice_chars(q, 0, i);
    let rest = if i < n {
        let tail = slice_chars(q, i + 1, n);
        kept_query_chars(&tail)
    } else {
        Vec::new()
    };
    if denied_param_exec(&p) {
        rest
    } else if rest.len() == 0 {
        p
    } else {
        let mut out = p;
        out.push('&');
        push_range(&mut out, &rest, 0, rest.len());
        assert(rest@.subrange(0, rest@.len() as int) =~= rest@);
        out
    }
}

fn strip_text_chars(u: &Vec<char>) -> (r: Vec<char>)
    ensures
        r@ == strip_text(u@),
{
    let n = u.len();
    let he = first_query_or_fragment_exec(u);
    let mark = vec![':', '/', '/'];
    assert(mark@ =~= scheme_mark());
    let scheme: Option<usize> = match crate::text::find_chars(u, &mark, 0) {
        Some(k) => {
            proof {
                crate::text::lemma_find_from_in_range(u@, scheme_mark(), 0);
            }
            if he >= 3 && k <= he - 3 {
                Some(k)
            } else {
                None
            }
        },
        None => None,
    };
    let ps = match scheme {
        Some(k) => {
            let s0 = first_char_exec(u, '/', k + 3);
            if s0 < he {
                s0
            } else {
                he
            }
        },
        None => 0,
    };
    let mut out = slice_chars(u, 0, ps);
    let path = slice_chars(u, ps, he);
    let new_path = rewrite_path_chars(&path);
    push_range(&mut out, &new_path, 0, new_path.len());
    assert(new_path@.subrange(0, new_path@.len() as int) =~= new_path@);
    if scheme.is_some() && he < n && u[he] == '?' {
        let qe = first_char_exec(u, '#', he + 1);
        let q = slice_chars(u, he + 1, qe);
        let kept = kept_query_chars(&q);
        if kept.len() > 0 {
            out.push('?');
            push_range(&mut out, &kept, 0, kept.len());
            assert(kept@.subrange(0, kept@.len() as int) =~= kept@);
        }
        push_range(&mut out, u, qe, n);
        assert(out@ =~= strip_text(u@));
    } else {
        push_range(&mut out, u, he, n);
        assert(out@ =~= strip_text(u@));
    }
    out
}

/// The watermark-free form of a Douyin playback URL: escaped slashes are
/// unescaped, whole `playwm` path segments become `play`, and the query
/// parameters `logo_name`, `watermark` and `wm` are dropped, the others kept
/// in order. Text that does not parse as a URL (no `://` before any `?` or
/// `#`) gets the segment rewrite alone, on the part before any `?` or `#`.
/// Never fails.
pub fn strip_watermark(raw: &str) -> (r: String)
    ensures
        r@ == stripped(raw@),
{
    let u = unescape_chars(&chars_of(raw));
    let out = strip_text_chars(&u);
    string_of(out.as_slice())
}

pub open spec fn no_slash(w: Seq<char>) -> bool {
    forall|i: int| 0 <= i < w.len() ==> #[trigger] w[i] != '/'
}

pub open spec fn starts_with(s: Seq<char>, w: Seq<char>) -> bool {
    w.len() <= s.len() && s.subrange(0, w.len() as int) == w
}

proof fn lemma_unescape_keeps_plain_prefix(s: Seq<char>, w: Seq<char>)
    requires
        no_slash(w),
        starts_with(unescape_slashes(s), w),
    ensures
        starts_with(s, w),
    decreases s.len(),
{
    if w.len() == 0 {
        assert(s.subrange(0, 0) =~= w);
    }
    if w.len() > 0 && s.len() > 0 {
        let t = unescape_slashes(s);
        if occurs_at(s, escaped_slash(), 0) {
            assert(t[0] == '/');
            assert(t.subrange(0, w.len() as int)[0] == w[0]);
        } else {
            let rest = s.subrange(1, s.len() as int);
            assert(t == seq![s[0]] + unescape_slashes(rest));
            let w1 = w.subrange(1, w.len() as int);
            assert(unescape_slashes(rest).subrange(0, w1.len() as int) =~= t.subrange(
                0,
                w.len() as int,
            ).subrange(1, w.len() as int));
            lemma_unescape_keeps_plain_prefix(rest, w1);
            assert(w[0] == t.subrange(0, w.len() as int)[0]);
            assert(s.subrange(0, w.len() as int) =~= seq![s[0]] + rest.subrange(0, w1.len() as int));
            assert(w =~= seq![w[0]] + w1);
        }
    }
}

/// `s` holds no escaped slash.
pub open spec fn no_escape(s: Seq<char>) -> bool {
    forall|i: int| !occurs_at(s, escaped_slash(), i)
}

proof fn lemma_occurs_in_tail(c: Seq<char>, u: Seq<char>, p: Seq<char>, i: int)
    requires
        occurs_at(c + u, p, i),
        i >= c.len(),
    ensures
        occurs_at(u, p, i - c.len()),
{
    assert((c + u).subrange(i, i + p.len()) =~= u.subrange(i - c.len(), i - c.len() + p.len()));
}

proof fn lemma_unescape_leaves_none(s: Seq<char>)
    ensures
        no_escape(unescape_slashes(s)),
    decreases s.len(),
{
    let t = unescape_slashes(s);
    if s.len() > 0 {
        let (head, rest) = if occurs_at(s, escaped_slash(), 0) {
            (seq!['/'], s.subrange(6, s.len() as int))
        } else {
            (seq![s[0]], s.subrange(1, s.len() as int))
        };
        let u = unescape_slashes(rest);
        assert(t == head + u);
        lemma_unescape_leaves_none(rest);
        assert forall|i: int| !occurs_at(t, escaped_slash(), i) by {
            if occurs_at(t, escaped_slash(), i) {
                if i >= 1 {
                    lemma_occurs_in_tail(head, u, escaped_slash(), i);
                } else {
                    assert(t.subrange(0, 6)[0] == '\\');
                    assert(!occurs_at(s, escaped_slash(), 0));
                    let w = seq!['u', '0', '0', '2', 'F'];
                    assert(u.subrange(0, 5) =~= t.subrange(0, 6).subrange(1, 6));
                    assert(u.subrange(0, 5) =~= w);
                    lemma_unescape_keeps_plain_prefix(rest, w);
                    assert(s.subrange(0, 6) =~= escaped_slash());
                }
            }
        }
    }
}

proof fn lemma_unescape_fixes_plain(s: Seq<char>)
    requires
        no_escape(s),
    ensures
        unescape_slashes(s) == s,
    decreases s.len(),
{
    if s.len() > 0 {
        let rest = s.subrange(1, s.len() as int);
        assert forall|i: int| !occurs_at(rest, escaped_slash(), i) by {
            if occurs_at(rest, escaped_slash(), i) {
                assert(s.subrange(i + 1, i + 7) =~= rest.subrange(i, i + 6));
                assert(occurs_at(s, escaped_slash(), i + 1));
            }
        }
        lemma_unescape_fixes_plain(rest);
        assert(s =~= seq![s[0]] + rest);
    }
}

/// Unescaping slashes twice gives what unescaping once gives.
pub proof fn lemma_unescape_idempotent(s: Seq<char>)
    ensures
        unescape_slashes(unescape_slashes(s)) == unescape_slashes(s),
{
    lemma_unescape_leaves_none(s);
    lemma_unescape_fixes_plain(unescape_slashes(s));
}

proof fn lemma_rewrite_first(p: Seq<char>)
    ensures
        (rewrite_path(p).len() == 0) == (p.len() == 0),
        p.len() > 0 ==> rewrite_path(p)[0] == p[0],
{
    if p.len() > 0 && marked_at(p, 0) {
        assert(p.subrange(0, 7)[0] == marked_segment()[0]);
    }
}

proof fn lemma_rewrite_keeps_plain_prefix(p: Seq<char>, w: Seq<char>)
    requires
        no_slash(w),
        starts_with(rewrite_path(p), w),
    ensures
        starts_with(p, w),
        rewrite_path(p) == w + rewrite_path(p.subrange(w.len() as int, p.len() as int)),
    decreases p.len(),
{
    let t = rewrite_path(p);
    if w.len() == 0 {
        assert(p.subrange(0, 0) =~= w);
        assert(p.subrange(0, p.len() as int) =~= p);
        assert(t =~= w + t);
    } else {
        if marked_at(p, 0) {
            assert(t =~= plain_segment() + rewrite_path(p.subrange(7, p.len() as int)));
            assert(t[0] == '/');
            assert(t.subrange(0, w.len() as int)[0] == w[0]);
        } else {
            let rest = p.subrange(1, p.len() as int);
            assert(t == seq![p[0]] + rewrite_path(rest));
            let w1 = w.subrange(1, w.len() as int);
            assert(rewrite_path(rest).subrange(0, w1.len() as int) =~= t.subrange(
                0,
                w.len() as int,
            ).subrange(1, w.len() as int));
            lemma_rewrite_keeps_plain_prefix(rest, w1);
            assert(w[0] == t.subrange(0, w.len() as int)[0]);
            assert(p.subrange(0, w.len() as int) =~= seq![p[0]] + rest.subrange(0, w1.len() as int));
            assert(w =~= seq![w[0]] + w1);
            assert(rest.subrange(w1.len() as int, rest.len() as int) =~= p.subrange(
                w.len() as int,
                p.len() as int,
            ));
            assert(t =~= w + rewrite_path(p.subrange(w.len() as int, p.len() as int)));
        }
    }
}

/// `p` holds no whole `playwm` segment.
pub open spec fn no_mark(p: Seq<char>) -> bool {
    forall|i: int| !marked_at(p, i)
}

proof fn lemma_marked_in_tail(c: Seq<char>, u: Seq<char>, i: int)
    requires
        marked_at(c + u, i),
        i >= c.len(),
    ensures
        marked_at(u, i - c.len()),
{
    lemma_occurs_in_tail(c, u, marked_segment(), i);
    if i + 7 < (c + u).len() {
        assert((c + u)[i + 7] == u[i - c.len() + 7]);
    }
}

proof fn lemma_rewrite_leaves_none(p: Seq<char>)
    ensures
        no_mark(rewrite_path(p)),
    decreases p.len(),
{
    let t = rewrite_path(p);
    if p.len() > 0 {
        if marked_at(p, 0) {
            let q = p.subrange(7, p.len() as int);
            let u = rewrite_path(q);
            assert(t == plain_segment() + u);
            lemma_rewrite_leaves_none(q);
            lemma_rewrite_first(q);
            assert(q.len() > 0 ==> q[0] == p[7]);
            assert forall|i: int| !marked_at(t, i) by {
                if marked_at(t, i) {
                    if i >= 5 {
                        lemma_marked_in_tail(plain_segment(), u, i);
                    } else {
                        let m = t.subrange(i, i + 7);
                        assert(m[0] == '/');
                        if i == 0 {
                            assert(m[5] == 'w');
                            assert(t[5] == u[0]);
                        } else {
                            assert(t[i] == plain_segment()[i]);
                        }
                    }
                }
            }
        } else {
            let rest = p.subrange(1, p.len() as int);
            let u = rewrite_path(rest);
            assert(t == seq![p[0]] + u);
            lemma_rewrite_leaves_none(rest);
            assert forall|i: int| !marked_at(t, i) by {
                if marked_at(t, i) {
                    if i >= 1 {
                        lemma_marked_in_tail(seq![p[0]], u, i);
                    } else {
                        let w = seq!['p', 'l', 'a', 'y', 'w', 'm'];
                        assert(t.subrange(0, 7)[0] == '/');
                        assert(u.subrange(0, 6) =~= t.subrange(0, 7).subrange(1, 7));
                        assert(u.subrange(0, 6) =~= w);
                        lemma_rewrite_keeps_plain_prefix(rest, w);
                        let q = rest.subrange(6, rest.len() as int);
                        lemma_rewrite_first(q);
                        assert(u =~= w + rewrite_path(q));
                        assert(t =~= seq![p[0]] + w + rewrite_path(q));
                        assert(p.subrange(0, 7) =~= seq![p[0]] + rest.subrange(0, 6));
                        assert(p.subrange(0, 7) =~= marked_segment());
                        if t.len() > 7 {
                            assert(t[7] == rewrite_path(q)[0]);
                            assert(q[0] == p[7]);
                        }
                        assert(marked_at(p, 0));
                    }
                }
            }
        }
    }
}

proof fn lemma_rewrite_fixes_plain(p: Seq<char>)
    requires
        no_mark(p),
    ensures
        rewrite_path(p) == p,
    decreases p.len(),
{
    if p.len() > 0 {
        let rest = p.subrange(1, p.len() as int);
        assert forall|i: int| !marked_at(rest, i) by {
            if marked_at(rest, i) {
                assert(p.subrange(i + 1, i + 8) =~= rest.subrange(i, i + 7));
                if i + 8 < p.len() {
                    assert(p[i + 8] == rest[i + 7]);
                }
                assert(marked_at(p, i + 1));
            }
        }
        lemma_rewrite_fixes_plain(rest);
        assert(p =~= seq![p[0]] + rest);
    }
}

/// Rewriting `playwm` path segments twice gives what rewriting once gives.
pub proof fn lemma_rewrite_path_idempotent(p: Seq<char>)
    ensures
        rewrite_path(rewrite_path(p)) == rewrite_path(p),
{
    lemma_rewrite_leaves_none(p);
    lemma_rewrite_fixes_plain(rewrite_path(p));
}

/// `c` occurs nowhere in `s`.
pub open spec fn lacks(s: Seq<char>, c: char) -> bool {
    forall|i: int| 0 <= i < s.len() ==> #[trigger] s[i] != c
}

proof fn lemma_rewrite_lacks(p: Seq<char>, c: char)
    requires
        lacks(p, c),
        c != '/' && c != 'p' && c != 'l' && c != 'a' && c != 'y',
    ensures
        lacks(rewrite_path(p), c),
    decreases p.len(),
{
    if p.len() > 0 {
        if marked_at(p, 0) {
            let q = p.subrange(7, p.len() as int);
            lemma_rewrite_lacks(q, c);
            let t = plain_segment() + rewrite_path(q);
            assert forall|i: int| 0 <= i < t.len() implies #[trigger] t[i] != c by {
                if i >= 5 {
                    assert(t[i] == rewrite_path(q)[i - 5]);
                }
            }
        } else {
            let rest = p.subrange(1, p.len() as int);
            lemma_rewrite_lacks(rest, c);
            let t = seq![p[0]] + rewrite_path(rest);
            assert forall|i: int| 0 <= i < t.len() implies #[trigger] t[i] != c by {
                if i >= 1 {
                    assert(t[i] == rewrite_path(rest)[i - 1]);
                }
            }
        }
    }
}

/// `p` occurs nowhere in `s`.
pub open spec fn never_occurs(s: Seq<char>, p: Seq<char>) -> bool {
    forall|i: int| !occurs_at(s, p, i)
}

proof fn lemma_rewrite_no_scheme(p: Seq<char>)
    requires
        never_occurs(p, scheme_mark()),
    ensures
        never_occurs(rewrite_path(p), scheme_mark()),
    decreases p.len(),
{
    let t = rewrite_path(p);
    if p.len() > 0 {
        if marked_at(p, 0) {
            let q = p.subrange(7, p.len() as int);
            assert forall|i: int| !occurs_at(q, scheme_mark(), i) by {
                if occurs_at(q, scheme_mark(), i) {
                    assert(p.subrange(i + 7, i + 10) =~= q.subrange(i, i + 3));
                    assert(occurs_at(p, scheme_mark(), i + 7));
                }
            }
            lemma_rewrite_no_scheme(q);
            let u = rewrite_path(q);
            assert(t == plain_segment() + u);
            assert forall|i: int| !occurs_at(t, scheme_mark(), i) by {
                if occurs_at(t, scheme_mark(), i) {
                    if i >= 5 {
                        lemma_occurs_in_tail(plain_segment(), u, scheme_mark(), i);
                    } else {
                        assert(t.subrange(i, i + 3)[0] == ':');
                        assert(t[i] == plain_segment()[i]);
                    }
                }
            }
        } else {
            let rest = p.subrange(1, p.len() as int);
            assert forall|i: int| !occurs_at(rest, scheme_mark(), i) by {
                if occurs_at(rest, scheme_mark(), i) {
                    assert(p.subrange(i + 1, i + 4) =~= rest.subrange(i, i + 3));
                    assert(occurs_at(p, scheme_mark(), i + 1));
                }
            }
            lemma_rewrite_no_scheme(rest);
            let u = rewrite_path(rest);
            assert(t == seq![p[0]] + u);
            assert forall|i: int| !occurs_at(t, scheme_mark(), i) by {
                if occurs_at(t, scheme_mark(), i) {
                    if i >= 1 {
                        lemma_occurs_in_tail(seq![p[0]], u, scheme_mark(), i);
                    } else {
                        let m = t.subrange(0, 3);
                        assert(m[0] == ':' && m[1] == '/' && m[2] == '/');
                        assert(u[0] == '/' && u[1] == '/');
                        lemma_rewrite_first(rest);
                        assert(rest[0] == '/');
                        if marked_at(rest, 0) {
                            assert(u == plain_segment() + rewrite_path(
                                rest.subrange(7, rest.len() as int),
                            ));
                            assert(u[1] == 'p');
                        } else {
                            let r2 = rest.subrange(1, rest.len() as int);
                            assert(u == seq![rest[0]] + rewrite_path(r2));
                            lemma_rewrite_first(r2);
                            assert(rewrite_path(r2)[0] == u[1]);
                            assert(r2[0] == rest[1]);
                            assert(p.subrange(0, 3) =~= scheme_mark());
                            assert(occurs_at(p, scheme_mark(), 0));
                        }
                    }
                }
            }
        }
    }
}

proof fn lemma_rewrite_keeps_no_escape(p: Seq<char>)
    requires
        no_escape(p),
    ensures
        no_escape(rewrite_path(p)),
    decreases p.len(),
{
    let t = rewrite_path(p);
    if p.len() > 0 {
        if marked_at(p, 0) {
            let q = p.subrange(7, p.len() as int);
            assert forall|i: int| !occurs_at(q, escaped_slash(), i) by {
                if occurs_at(q, escaped_slash(), i) {
                    assert(p.subrange(i + 7, i + 13) =~= q.subrange(i, i + 6));
                    assert(occurs_at(p, escaped_slash(), i + 7));
                }
            }
            lemma_rewrite_keeps_no_escape(q);
            let u = rewrite_path(q);
            assert(t == plain_segment() + u);
            assert forall|i: int| !occurs_at(t, escaped_slash(), i) by {
                if occurs_at(t, escaped_slash(), i) {
                    if i >= 5 {
                        lemma_occurs_in_tail(plain_segment(), u, escaped_slash(), i);
                    } else {
                        let m = t.subrange(i, i + 6);
                        assert(m[4 - i] == t[4]);
                        assert(t[4] == 'y');
                        assert(m == escaped_slash());
                    }
                }
            }
        } else {
            let rest = p.subrange(1, p.len() as int);
            assert forall|i: int| !occurs_at(rest, escaped_slash(), i) by {
                if occurs_at(rest, escaped_slash(), i) {
                    assert(p.subrange(i + 1, i + 7) =~= rest.subrange(i, i + 6));
                    assert(occurs_at(p, escaped_slash(), i + 1));
                }
            }
            lemma_rewrite_keeps_no_escape(rest);
            let u = rewrite_path(rest);
            assert(t == seq![p[0]] + u);
            assert forall|i: int| !occurs_at(t, escaped_slash(), i) by {
                if occurs_at(t, escaped_slash(), i) {
                    if i >= 1 {
                        lemma_occurs_in_tail(seq![p[0]], u, escaped_slash(), i);
                    } else {
                        let w = seq!['u', '0', '0', '2', 'F'];
                        assert(u.subrange(0, 5) =~= t.subrange(0, 6).subrange(1, 6));
                        assert(u.subrange(0, 5) =~= w);
                        lemma_rewrite_keeps_plain_prefix(rest, w);
                        assert(t.subrange(0, 6)[0] == p[0]);
                        assert(p.subrange(0, 6) =~= seq![p[0]] + rest.subrange(0, 5));
                        assert(p.subrange(0, 6) =~= escaped_slash());
                        assert(occurs_at(p, escaped_slash(), 0));
                    }
                }
            }
        }
    }
}

pub open spec fn escape_char(c: char) -> bool {
    c == '\\' || c == 'u' || c == '0' || c == '2' || c == 'F'
}

proof fn lemma_no_escape_sub(s: Seq<char>, a: int, b: int)
    requires
        no_escape(s),
        0 <= a <= b <= s.len(),
    ensures
        no_escape(s.subrange(a, b)),
{
    let t = s.subrange(a, b);
    assert forall|i: int| !occurs_at(t, escaped_slash(), i) by {
        if occurs_at(t, escaped_slash(), i) {
            assert(s.subrange(a + i, a + i + 6) =~= t.subrange(i, i + 6));
            assert(occurs_at(s, escaped_slash(), a + i));
        }
    }
}

proof fn lemma_no_escape_concat(a: Seq<char>, b: Seq<char>)
    requires
        no_escape(a),
        no_escape(b),
        a.len() == 0 || b.len() == 0 || !escape_char(a.last()) || !escape_char(b[0]),
    ensures
        no_escape(a + b),
{
    let t = a + b;
    if a.len() == 0 {
        assert(t =~= b);
    } else if b.len() == 0 {
        assert(t =~= a);
    } else {
        assert forall|i: int| !occurs_at(t, escaped_slash(), i) by {
            if occurs_at(t, escaped_slash(), i) {
                if i + 6 <= a.len() {
                    assert(a.subrange(i, i + 6) =~= t.subrange(i, i + 6));
                    assert(occurs_at(a, escaped_slash(), i));
                } else if i >= a.len() {
                    lemma_occurs_in_tail(a, b, escaped_slash(), i);
                } else {
                    let m = t.subrange(i, i + 6);
                    assert(m[a.len() - 1 - i] == a.last());
                    assert(m[a.len() - i] == b[0]);
                    assert(escape_char(m[a.len() - 1 - i]));
                    assert(escape_char(m[a.len() - i]));
                }
            }
        }
    }
}

proof fn lemma_first_char_props(s: Seq<char>, c: char, from: int)
    requires
        0 <= from <= s.len(),
    ensures
        from <= first_char(s, c, from) <= s.len(),
        forall|m: int| from <= m < first_char(s, c, from) ==> s[m] != c,
        first_char(s, c, from) < s.len() ==> s[first_char(s, c, from)] == c,
    decreases s.len() - from,
{
    if from < s.len() && s[from] != c {
        lemma_first_char_props(s, c, from + 1);
    }
}

proof fn lemma_first_char_is(s: Seq<char>, c: char, from: int, j: int)
    requires
        0 <= from <= j <= s.len(),
        forall|m: int| from <= m < j ==> s[m] != c,
        j == s.len() || s[j] == c,
    ensures
        first_char(s, c, from) == j,
    decreases j - from,
{
    if from < j {
        lemma_first_char_is(s, c, from + 1, j);
    }
}

proof fn lemma_fqf_props(s: Seq<char>, from: int)
    requires
        0 <= from <= s.len(),
    ensures
        from <= first_query_or_fragment(s, from) <= s.len(),
        forall|m: int|
            from <= m < first_query_or_fragment(s, from) ==> s[m] != '?' && s[m] != '#',
        first_query_or_fragment(s, from) < s.len() ==> (s[first_query_or_fragment(s, from)] == '?'
            || s[first_query_or_fragment(s, from)] == '#'),
    decreases s.len() - from,
{
    if from < s.len() && s[from] != '?' && s[from] != '#' {
        lemma_fqf_props(s, from + 1);
    }
}

proof fn lemma_fqf_is(s: Seq<char>, from: int, j: int)
    requires
        0 <= from <= j <= s.len(),
        forall|m: int| from <= m < j ==> s[m] != '?' && s[m] != '#',
        j == s.len() || s[j] == '?' || s[j] == '#',
    ensures
        first_query_or_fragment(s, from) == j,
    decreases j - from,
{
    if from < j {
        lemma_fqf_is(s, from + 1, j);
    }
}

/// The pieces of `kept_query(q)`.
proof fn lemma_kept_shape(q: Seq<char>)
    ensures
        ({
            let i = first_char(q, '&', 0);
            let p = q.subrange(0, i);
            &&& 0 <= i <= q.len()
            &&& lacks(p, '&')
            &&& i < q.len() ==> q[i] == '&'
        }),
{
    lemma_first_char_props(q, '&', 0);
    let i = first_char(q, '&', 0);
    let p = q.subrange(0, i);
    assert forall|m: int| 0 <= m < p.len() implies #[trigger] p[m] != '&' by {
        assert(p[m] == q[m]);
    }
}

proof fn lemma_kept_lacks(q: Seq<char>, c: char)
    requires
        lacks(q, c),
        c != '&',
    ensures
        lacks(kept_query(q), c),
    decreases q.len(),
{
    lemma_kept_shape(q);
    let i = first_char(q, '&', 0);
    let p = q.subrange(0, i);
    assert(lacks(p, c)) by {
        assert forall|m: int| 0 <= m < p.len() implies #[trigger] p[m] != c by {
            assert(p[m] == q[m]);
        }
    }
    if i < q.len() {
        let q2 = q.subrange(i + 1, q.len() as int);
        assert(lacks(q2, c)) by {
            assert forall|m: int| 0 <= m < q2.len() implies #[trigger] q2[m] != c by {
                assert(q2[m] == q[m + i + 1]);
            }
        }
        lemma_kept_lacks(q2, c);
        let rest = kept_query(q2);
        let t = p + seq!['&'] + rest;
        assert forall|m: int| 0 <= m < t.len() implies #[trigger] t[m] != c by {
            if m < p.len() {
                assert(t[m] == p[m]);
            } else if m > p.len() {
                assert(t[m] == rest[m - p.len() - 1]);
            }
        }
    }
}

proof fn lemma_kept_no_escape(q: Seq<char>)
    requires
        no_escape(q),
    ensures
        no_escape(kept_query(q)),
    decreases q.len(),
{
    lemma_kept_shape(q);
    let i = first_char(q, '&', 0);
    let p = q.subrange(0, i);
    lemma_no_escape_sub(q, 0, i);
    if i < q.len() {
        let q2 = q.subrange(i + 1, q.len() as int);
        lemma_no_escape_sub(q, i + 1, q.len() as int);
        lemma_kept_no_escape(q2);
        let rest = kept_query(q2);
        let amp = seq!['&'];
        assert(no_escape(amp)) by {
            assert forall|j: int| !occurs_at(amp, escaped_slash(), j) by {}
        }
        lemma_no_escape_concat(p, amp);
        lemma_no_escape_concat(p + amp, rest);
    }
}

/// Dropping the denied parameters twice drops what dropping once drops.
pub proof fn lemma_kept_query_idempotent(q: Seq<char>)
    ensures
        kept_query(kept_query(q)) == kept_query(q),
    decreases q.len(),
{
    lemma_kept_shape(q);
    let i = first_char(q, '&', 0);
    let p = q.subrange(0, i);
    let rest = if 0 <= i < q.len() {
        kept_query(q.subrange(i + 1, q.len() as int))
    } else {
        Seq::<char>::empty()
    };
    if i < q.len() {
        lemma_kept_query_idempotent(q.subrange(i + 1, q.len() as int));
    }
    let r = kept_query(q);
    if denied_param(p) {
        assert(r == rest);
        if i < q.len() {
        } else {
            assert(r.len() == 0);
            lemma_kept_shape(r);
            assert(first_char(r, '&', 0) == 0);
            assert(r.subrange(0, 0) =~= Seq::<char>::empty());
            assert(kept_query(r) == r.subrange(0, 0));
        }
    } else if rest.len() == 0 {
        assert(r == p);
        lemma_first_char_is(p, '&', 0, p.len() as int);
        assert(p.subrange(0, p.len() as int) =~= p);
    } else {
        let amp = seq!['&'];
        assert(r == p + amp + rest);
        lemma_first_char_is(r, '&', 0, p.len() as int);
        assert(r.subrange(0, p.len() as int) =~= p);
        assert(r.subrange(p.len() + 1int, r.len() as int) =~= rest);
    }
}

proof fn lemma_find_agree(u: Seq<char>, v: Seq<char>, p: Seq<char>, from: int, k: int)
    requires
        0 <= from <= k,
        crate::text::find_from(u, p, from) == Some(k),
        k + p.len() <= u.len(),
        k + p.len() <= v.len(),
        u.subrange(0, k + p.len()) == v.subrange(0, k + p.len()),
    ensures
        crate::text::find_from(v, p, from) == Some(k),
    decreases k - from,
{
    assert(u.subrange(from, from + p.len()) =~= u.subrange(0, k + p.len()).subrange(
        from,
        from + p.len(),
    ));
    assert(v.subrange(from, from + p.len()) =~= v.subrange(0, k + p.len()).subrange(
        from,
        from + p.len(),
    ));
    assert(occurs_at(u, p, from) == occurs_at(v, p, from));
    if from < k {
        assert(!occurs_at(u, p, from));
        assert(crate::text::find_from(u, p, from + 1) == Some(k));
        lemma_find_agree(u, v, p, from + 1, k);
    } else {
        crate::text::lemma_find_from_sound(u, p, from + 1);
        assert(occurs_at(u, p, from));
    }
}

#[verifier::rlimit(80)]
proof fn lemma_strip_text_fixed(u: Seq<char>)
    requires
        no_escape(u),
    ensures
        no_escape(strip_text(u)),
        strip_text(strip_text(u)) == strip_text(u),
{
    let he = first_query_or_fragment(u, 0);
    lemma_fqf_props(u, 0);
    let ps = path_start(u, he);
    let v = strip_text(u);
    let body = u.subrange(0, he);
    assert(lacks(body, '?') && lacks(body, '#')) by {
        assert forall|m: int| 0 <= m < body.len() implies #[trigger] body[m] != '?' by {
            assert(body[m] == u[m]);
        }
        assert forall|m: int| 0 <= m < body.len() implies #[trigger] body[m] != '#' by {
            assert(body[m] == u[m]);
        }
    }
    match scheme_at(u) {
        Some(k) => {
            assert(crate::text::find_from(u, scheme_mark(), 0) == Some(k));
            crate::text::lemma_find_from_in_range(u, scheme_mark(), 0);
            assert(0 <= k && k + 3 <= he);
            lemma_first_char_props(u, '/', k + 3);
            let s0 = first_char(u, '/', k + 3);
            assert(k + 3 <= ps <= he);
            let hh = u.subrange(0, ps);
            let seg = u.subrange(ps, he);
            let pp = rewrite_path(seg);
            let head = hh + pp;
            lemma_rewrite_first(seg);
            assert(lacks(seg, '?') && lacks(seg, '#')) by {
                assert forall|m: int| 0 <= m < seg.len() implies #[trigger] seg[m] != '?' by {
                    assert(seg[m] == u[ps + m]);
                }
                assert forall|m: int| 0 <= m < seg.len() implies #[trigger] seg[m] != '#' by {
                    assert(seg[m] == u[ps + m]);
                }
            }
            lemma_rewrite_lacks(seg, '?');
            lemma_rewrite_lacks(seg, '#');
            assert(lacks(head, '?') && lacks(head, '#')) by {
                assert forall|m: int| 0 <= m < head.len() implies #[trigger] head[m] != '?' by {
                    if m < ps {
                        assert(head[m] == u[m]);
                    } else {
                        assert(head[m] == pp[m - ps]);
                    }
                }
                assert forall|m: int| 0 <= m < head.len() implies #[trigger] head[m] != '#' by {
                    if m < ps {
                        assert(head[m] == u[m]);
                    } else {
                        assert(head[m] == pp[m - ps]);
                    }
                }
            }
            // the part after the head
            let query_branch = he < u.len() && u[he] == '?';
            let qe = first_char(u, '#', he + 1);
            let q = u.subrange(he + 1, qe);
            let kq = kept_query(q);
            let tail = if query_branch {
                (if kq.len() == 0 {
                    Seq::<char>::empty()
                } else {
                    seq!['?'] + kq
                }) + u.subrange(qe, u.len() as int)
            } else {
                u.subrange(he, u.len() as int)
            };
            assert(v == head + tail);
            if query_branch {
                lemma_first_char_props(u, '#', he + 1);
            }
            assert(tail.len() == 0 || tail[0] == '?' || tail[0] == '#');
            lemma_fqf_is(v, 0, head.len() as int);
            let he_v = head.len() as int;
            // the scheme is found at the same place
            assert forall|m: int| 0 <= m < k + 3 implies v[m] == u[m] by {
                assert(v[m] == head[m]);
                assert(head[m] == hh[m]);
            }
            assert(v.subrange(0, k + 3) =~= u.subrange(0, k + 3));
            crate::text::lemma_find_from_in_range(u, scheme_mark(), 0);
            lemma_find_agree(u, v, scheme_mark(), 0, k);
            assert(scheme_at(v) == Some(k));
            // the path starts at the same place
            if s0 < he {
                assert(pp[0] == seg[0]);
                assert(v[s0] == '/');
                assert forall|m: int| k + 3 <= m < s0 implies v[m] != '/' by {
                    assert(v[m] == u[m]);
                }
                lemma_first_char_is(v, '/', k + 3, s0);
                assert(path_start(v, he_v) == ps);
            } else {
                assert(seg.len() == 0);
                assert(pp.len() == 0);
                lemma_first_char_props(v, '/', k + 3);
                let s0v = first_char(v, '/', k + 3);
                if s0v < he_v {
                    assert(v[s0v] == u[s0v]);
                }
                assert(path_start(v, he_v) == ps);
            }
            assert(v.subrange(0, ps) =~= hh);
            assert(v.subrange(ps, he_v) =~= pp);
            lemma_rewrite_path_idempotent(seg);
            // no escaped slash in the result
            lemma_no_escape_sub(u, 0, ps);
            lemma_no_escape_sub(u, ps, he);
            lemma_rewrite_keeps_no_escape(seg);
            if pp.len() > 0 {
                assert(pp[0] == u[ps]);
            }
            lemma_no_escape_concat(hh, pp);
            lemma_no_escape_sub(u, he, u.len() as int);
            if query_branch {
                lemma_no_escape_sub(u, he + 1, qe);
                lemma_no_escape_sub(u, qe, u.len() as int);
                lemma_kept_no_escape(q);
                let mark = seq!['?'];
                assert(no_escape(mark)) by {
                    assert forall|j: int| !occurs_at(mark, escaped_slash(), j) by {}
                }
                lemma_no_escape_concat(mark, kq);
                let fr = u.subrange(qe, u.len() as int);
                if kq.len() == 0 {
                    assert(tail =~= fr);
                } else {
                    lemma_no_escape_concat(mark + kq, fr);
                }
            }
            lemma_no_escape_concat(head, tail);
            // the tail comes out unchanged
            if query_branch && kq.len() > 0 {
                assert(v[he_v] == '?');
                assert(lacks(q, '#')) by {
                    assert forall|m: int| 0 <= m < q.len() implies #[trigger] q[m] != '#' by {
                        assert(q[m] == u[he + 1 + m]);
                    }
                }
                lemma_kept_lacks(q, '#');
                let qe_v = he_v + 1 + kq.len();
                assert forall|m: int| he_v + 1 <= m < qe_v implies v[m] != '#' by {
                    assert(v[m] == kq[m - he_v - 1]);
                }
                lemma_first_char_is(v, '#', he_v + 1, qe_v);
                assert(v.subrange(he_v + 1, qe_v) =~= kq);
                lemma_kept_query_idempotent(q);
                assert(v.subrange(qe_v, v.len() as int) =~= u.subrange(qe, u.len() as int));
                assert(strip_text(v) =~= v);
            } else {
                assert(!(he_v < v.len() && v[he_v] == '?')) by {
                    if he_v < v.len() {
                        assert(v[he_v] == tail[0]);
                    }
                }
                assert(v.subrange(he_v, v.len() as int) =~= tail);
                assert(strip_text(v) =~= v);
            }
        },
        None => {
            assert(ps == 0);
            let pp = rewrite_path(body);
            assert(u.subrange(0, 0) + pp =~= pp);
            let tail = u.subrange(he, u.len() as int);
            assert(v =~= pp + tail);
            lemma_rewrite_lacks(body, '?');
            lemma_rewrite_lacks(body, '#');
            assert forall|m: int| 0 <= m < pp.len() implies v[m] != '?' && v[m] != '#' by {
                assert(v[m] == pp[m]);
            }
            lemma_fqf_is(v, 0, pp.len() as int);
            let he_v = pp.len() as int;
            // still no scheme before the query
            assert(never_occurs(body, scheme_mark())) by {
                assert forall|j: int| !occurs_at(body, scheme_mark(), j) by {
                    if occurs_at(body, scheme_mark(), j) {
                        assert(u.subrange(j, j + 3) =~= body.subrange(j, j + 3));
                        assert(occurs_at(u, scheme_mark(), j));
                        crate::text::lemma_find_from_sound(u, scheme_mark(), 0);
                        match crate::text::find_from(u, scheme_mark(), 0) {
                            Some(k2) => {
                                assert(k2 <= j);
                                assert(scheme_at(u) == Some(k2));
                            },
                            None => {},
                        }
                    }
                }
            }
            lemma_rewrite_no_scheme(body);
            crate::text::lemma_find_from_sound(v, scheme_mark(), 0);
            match crate::text::find_from(v, scheme_mark(), 0) {
                Some(j) => {
                    if j + 3 <= he_v {
                        assert(pp.subrange(j, j + 3) =~= v.subrange(j, j + 3));
                        assert(occurs_at(pp, scheme_mark(), j));
                    }
                },
                None => {},
            }
            assert(scheme_at(v) is None);
            assert(v.subrange(0, he_v) =~= pp);
            lemma_rewrite_path_idempotent(body);
            assert(v.subrange(0, 0) + rewrite_path(v.subrange(0, he_v)) =~= pp);
            assert(v.subrange(he_v, v.len() as int) =~= tail);
            assert(strip_text(v) =~= v);
            lemma_no_escape_sub(u, 0, he);
            lemma_rewrite_keeps_no_escape(body);
            lemma_no_escape_sub(u, he, u.len() as int);
            lemma_no_escape_concat(pp, tail);
        },
    }
}

/// Stripping the watermark from an already stripped URL changes nothing; the
/// rewrite is defined, and never fails, on every text.
pub proof fn lemma_strip_watermark_idempotent(raw: Seq<char>)
    ensures
        stripped(stripped(raw)) == stripped(raw),
{
    let u = unescape_slashes(raw);
    lemma_unescape_leaves_none(raw);
    lemma_strip_text_fixed(u);
    lemma_unescape_fixes_plain(strip_text(u));
}

} // verus!
