//! A loosely-typed JSON tree and total accessors over it: every lookup gives
//! "absent" rather than an error on missing or mistyped data.
use vstd::prelude::*;
use crate::text::{chars_of, is_blank, string_of, trim, trim_chars, same_text};

verus! {

/// A parsed JSON document. Numbers keep their textual form; an object holds
/// its members as the parser hands them over (serde_json's map: keys sorted,
/// a repeated key keeping its last value).
#[derive(Debug)]
pub enum Json {
    Null,
    Bool(bool),
    Number(String),
    Str(String),
    Array(Vec<Json>),
    Object(Vec<(String, Json)>),
}

#[verifier::external_type_specification]
#[verifier::external_body]
pub struct ExJsonValue(serde_json::Value);

/// The tree that serde_json's parser builds from `text`, or `None` where
/// `text` is not a JSON document.
pub uninterp spec fn parsed_json(text: Seq<char>) -> Option<Json>;

/// Carries a `serde_json::Value` over into a `Json`, variant by variant.
#[verifier::external_body]
fn json_from_value(v: serde_json::Value) -> Json {
    match v {
        serde_json::Value::Null => Json::Null,
        serde_json::Value::Bool(b) => Json::Bool(b),
        serde_json::Value::Number(n) => Json::Number(n.to_string()),
        serde_json::Value::String(s) => Json::Str(s),
        serde_json::Value::Array(a) => Json::Array(a.into_iter().map(json_from_value).collect()),
        serde_json::Value::Object(o) => Json::Object(
            o.into_iter().map(|(k, x)| (k, json_from_value(x))).collect(),
        ),
    }
}

/// Relies on `serde_json::from_str::<serde_json::Value>`: the document that
/// `text` holds, a function of `text` alone; `None` where it is no JSON.
#[verifier::external_body]
fn json_of_text(text: &str) -> (r: Option<Json>)
    ensures
        r == parsed_json(text@),
{
    serde_json::from_str::<serde_json::Value>(text).ok().map(json_from_value)
}

/// Parses a JSON document; `None` where `text` is not one.
pub fn parse_json(text: &str) -> (r: Option<Json>)
    ensures
        r == parsed_json(text@),
{
    json_of_text(text)
}

/// The value of the first member named `key`.
pub open spec fn field_of(fields: Seq<(String, Json)>, key: Seq<char>) -> Option<Json>
    decreases fields.len(),
{
    if fields.len() == 0 {
        None
    } else if fields[0].0@ == key {
        Some(fields[0].1)
    } else {
        field_of(fields.drop_first(), key)
    }
}

/// The member `key` of an object; absent for any other node.
pub open spec fn member(j: Json, key: Seq<char>) -> Option<Json> {
    match j {
        Json::Object(fields) => field_of(fields@, key),
        _ => None,
    }
}

/// The node reached from `j` by following the keys of `path` in turn.
pub open spec fn path_at(j: Json, path: Seq<&str>) -> Option<Json>
    decreases path.len(),
{
    if path.len() == 0 {
        Some(j)
    } else {
        match member(j, path[0]@) {
            Some(c) => path_at(c, path.drop_first()),
            None => None,
        }
    }
}

pub open spec fn deref_opt(r: Option<&Json>) -> Option<Json> {
    match r {
        Some(x) => Some(*x),
        None => None,
    }
}

pub open spec fn view_opt(r: Option<String>) -> Option<Seq<char>> {
    match r {
        Some(x) => Some(x@),
        None => None,
    }
}

/// A string node, trimmed, where it holds more than whitespace.
pub open spec fn text_value(j: Json) -> Option<Seq<char>> {
    match j {
        Json::Str(s) => if is_blank(s@) {
            None
        } else {
            Some(trim(s@))
        },
        _ => None,
    }
}

pub open spec fn text_at(j: Json, path: Seq<&str>) -> Option<Seq<char>> {
    match path_at(j, path) {
        Some(n) => text_value(n),
        None => None,
    }
}

/// The first element of an array node, as by `text_value`.
pub open spec fn first_text_value(j: Json) -> Option<Seq<char>> {
    match j {
        Json::Array(items) => if items@.len() > 0 {
            text_value(items@[0])
        } else {
            None
        },
        _ => None,
    }
}

pub open spec fn first_text_at(j: Json, path: Seq<&str>) -> Option<Seq<char>> {
    match path_at(j, path) {
        Some(n) => first_text_value(n),
        None => None,
    }
}

pub open spec fn is_digit(c: char) -> bool {
    '0' <= c && c <= '9'
}

pub open spec fn all_digits(s: Seq<char>) -> bool {
    forall|i: int| 0 <= i < s.len() ==> is_digit(#[trigger] s[i])
}

/// The number that the decimal digits of `s` write.
pub open spec fn digits_value(s: Seq<char>) -> nat
    decreases s.len(),
{
    if s.len() == 0 {
        0
    } else {
        digits_value(s.drop_last()) * 10 + ((s.last() as int) - ('0' as int)) as nat
    }
}

/// A non-empty run of decimal digits whose value fits in 64 bits.
pub open spec fn uint_text(s: Seq<char>) -> Option<u64> {
    if s.len() > 0 && all_digits(s) && digits_value(s) <= u64::MAX {
        Some(digits_value(s) as u64)
    } else {
        None
    }
}

/// The number of decimal digits that `s` starts with.
pub open spec fn leading_digits(s: Seq<char>) -> nat
    decreases s.len(),
{
    if s.len() > 0 && is_digit(s[0]) {
        1 + leading_digits(s.drop_first())
    } else {
        0
    }
}

/// The whole part of a non-negative number written as digits with an optional
/// decimal fraction (`15000`, `15000.0`, `12.5`); absent for a negative number
/// or one in exponent form.
pub open spec fn number_uint(t: Seq<char>) -> Option<u64> {
    let k = leading_digits(t) as int;
    if k == t.len() {
        uint_text(t)
    } else if t[k] == '.' && k + 1 < t.len() && all_digits(t.subrange(k + 1, t.len() as int)) {
        uint_text(t.subrange(0, k))
    } else {
        None
    }
}

/// An unsigned value read from a number node or from a string node that holds
/// only decimal digits.
pub open spec fn uint_value(j: Json) -> Option<u64> {
    match j {
        Json::Number(t) => number_uint(t@),
        Json::Str(s) => uint_text(s@),
        _ => None,
    }
}

pub open spec fn uint_at(j: Json, path: Seq<&str>) -> Option<u64> {
    match path_at(j, path) {
        Some(n) => uint_value(n),
        None => None,
    }
}

/// The first candidate that is present and not blank, trimmed.
pub open spec fn first_non_empty_of(c: Seq<Option<Seq<char>>>) -> Option<Seq<char>>
    decreases c.len(),
{
    if c.len() == 0 {
        None
    } else {
        match c[0] {
            Some(s) => if is_blank(s) {
                first_non_empty_of(c.drop_first())
            } else {
                Some(trim(s))
            },
            None => first_non_empty_of(c.drop_first()),
        }
    }
}

pub open spec fn views_of(c: Seq<Option<String>>) -> Seq<Option<Seq<char>>> {
    c.map_values(|o: Option<String>| view_opt(o))
}

proof fn lemma_digits_prefix_grows(s: Seq<char>, i: int, j: int)
    requires
        0 <= i <= j <= s.len(),
    ensures
        digits_value(s.subrange(0, i)) <= digits_value(s.subrange(0, j)),
    decreases j - i,
{
    if i < j {
        lemma_digits_prefix_grows(s, i, j - 1);
        assert(s.subrange(0, j).drop_last() =~= s.subrange(0, j - 1));
    }
}

/// The value of the digits `s[a..b]`, as `uint_text` states it.
pub fn parse_uint(s: &Vec<char>, a: usize, b: usize) -> (r: Option<u64>)
    requires
        a <= b <= s@.len(),
    ensures
        r == uint_text(s@.subrange(a as int, b as int)),
{
    let ghost t = s@.subrange(a as int, b as int);
    if a == b {
        return None;
    }
    let mut acc: u64 = 0;
    let mut i: usize = a;
    assert(t.subrange(0, 0) =~= Seq::<char>::empty());
    while i < b
        invariant
            a <= i <= b <= s@.len(),
            t == s@.subrange(a as int, b as int),
            forall|m: int| 0 <= m < i - a ==> is_digit(#[trigger] t[m]),
            acc as nat == digits_value(t.subrange(0, i - a)),
        decreases b - i,
    {
        let c = s[i];
        if !('0' <= c && c <= '9') {
            assert(!is_digit(t[i - a]));
            return None;
        }
        let d: u64 = ((c as u32) - ('0' as u32)) as u64;
        assert(t.subrange(0, i - a + 1).drop_last() =~= t.subrange(0, i - a));
        assert(d as int == (t[i - a] as int) - ('0' as int));
        match acc.checked_mul(10) {
            Some(m) => match m.checked_add(d) {
                Some(n) => {
                    acc = n;
                },
                None => {
                    proof {
                        lemma_digits_prefix_grows(t, i - a + 1, t.len() as int);
                        assert(t.subrange(0, t.len() as int) =~= t);
                    }
                    return None;
                },
            },
            None => {
                proof {
                    lemma_digits_prefix_grows(t, i - a + 1, t.len() as int);
                    assert(t.subrange(0, t.len() as int) =~= t);
                }
                return None;
            },
        }
        i = i + 1;
    }
    assert(t.subrange(0, t.len() as int) =~= t);
    Some(acc)
}

/// The length of the run of digits in `s` from `a` on.
fn digit_run(s: &Vec<char>, a: usize) -> (r: usize)
    requires
        a <= s@.len(),
    ensures
        a <= r <= s@.len(),
        r - a == leading_digits(s@.subrange(a as int, s@.len() as int)),
        forall|m: int| a <= m < r ==> is_digit(#[trigger] s@[m]),
        r < s@.len() ==> !is_digit(s@[r as int]),
{
    let n = s.len();
    let mut i: usize = a;
    while i < n && '0' <= s[i] && s[i] <= '9'
        invariant
            a <= i <= n == s@.len(),
            forall|m: int| a <= m < i ==> is_digit(#[trigger] s@[m]),
            leading_digits(s@.subrange(a as int, n as int)) == (i - a) + leading_digits(
                s@.subrange(i as int, n as int),
            ),
        decreases n - i,
    {
        assert(s@.subrange(i as int, n as int).drop_first() =~= s@.subrange(i + 1, n as int));
        i = i + 1;
    }
    i
}

fn digits_from(s: &Vec<char>, a: usize) -> (r: bool)
    requires
        a <= s@.len(),
    ensures
        r == all_digits(s@.subrange(a as int, s@.len() as int)),
{
    let e = digit_run(s, a);
    if e == s.len() {
        true
    } else {
        assert(!is_digit(s@.subrange(a as int, s@.len() as int)[e - a]));
        false
    }
}

/// The whole part of a numeric text, as `number_uint` states it.
pub fn number_text_uint(t: &str) -> (r: Option<u64>)
    ensures
        r == number_uint(t@),
{
    let s = chars_of(t);
    let k = digit_run(&s, 0);
    assert(s@.subrange(0, s@.len() as int) =~= s@);
    if k == s.len() {
        parse_uint(&s, 0, k)
    } else if s[k] == '.' && k + 1 < s.len() && digits_from(&s, k + 1) {
        parse_uint(&s, 0, k)
    } else {
        None
    }
}

fn node_text(j: &Json) -> (r: Option<String>)
    ensures
        view_opt(r) == text_value(*j),
{
    match j {
        Json::Str(s) => {
            let t = trim_chars(&chars_of(s.as_str()));
            if t.len() == 0 {
                None
            } else {
                Some(string_of(t.as_slice()))
            }
        },
        _ => None,
    }
}

impl Json {
    /// A string node, trimmed, where it holds more than whitespace.
    pub fn text(&self) -> (r: Option<String>)
        ensures
            view_opt(r) == text_value(*self),
    {
        node_text(self)
    }

    /// The first element of an array node, as by `text`.
    pub fn first_text(&self) -> (r: Option<String>)
        ensures
            view_opt(r) == first_text_value(*self),
    {
        match self {
            Json::Array(items) => if items.len() > 0 {
                node_text(&items[0])
            } else {
                None
            },
            _ => None,
        }
    }

    /// The member `key` of an object node.
    pub fn member(&self, key: &str) -> (r: Option<&Json>)
        ensures
            deref_opt(r) == member(*self, key@),
    {
        match self {
            Json::Object(fields) => {
                let mut i: usize = 0;
                assert(fields@.subrange(0, fields@.len() as int) =~= fields@);
                while i < fields.len()
                    invariant
                        i <= fields@.len(),
                        member(*self, key@) == field_of(fields@, key@),
                        field_of(fields@, key@) == field_of(
                            fields@.subrange(i as int, fields@.len() as int),
                            key@,
                        ),
                    decreases fields@.len() - i,
                {
                    assert(fields@.subrange(i as int, fields@.len() as int).drop_first()
                        =~= fields@.subrange(i + 1, fields@.len() as int));
                    assert(fields@.subrange(i as int, fields@.len() as int)[0] == fields@[i as int]);
                    let entry = &fields[i];
                    if same_text(entry.0.as_str(), key) {
                        let ghost rest = fields@.subrange(i as int, fields@.len() as int);
                        assert(rest[0].0@ == key@);
                        assert(field_of(rest, key@) == Some(rest[0].1));
                        return Some(&entry.1);
                    }
                    i = i + 1;
                }
                None
            },
            _ => None,
        }
    }

    /// The node under `path`: absent as soon as a key is missing or a node on
    /// the way is not an object.
    pub fn get(&self, path: &[&str]) -> (r: Option<&Json>)
        ensures
            deref_opt(r) == path_at(*self, path@),
    {
        let mut cur: &Json = self;
        let mut i: usize = 0;
        assert(path@.subrange(0, path@.len() as int) =~= path@);
        while i < path.len()
            invariant
                i <= path@.len(),
                path_at(*self, path@) == path_at(*cur, path@.subrange(i as int, path@.len() as int)),
            decreases path@.len() - i,
        {
            assert(path@.subrange(i as int, path@.len() as int).drop_first() =~= path@.subrange(
                i + 1,
                path@.len() as int,
            ));
            match cur.member(path[i]) {
                Some(c) => {
                    cur = c;
                },
                None => {
                    return None;
                },
            }
            i = i + 1;
        }
        Some(cur)
    }

    /// The string under `path`, trimmed; absent when blank or not a string.
    pub fn get_string(&self, path: &[&str]) -> (r: Option<String>)
        ensures
            view_opt(r) == text_at(*self, path@),
    {
        match self.get(path) {
            Some(n) => node_text(n),
            None => None,
        }
    }

    /// The unsigned integer under `path`: a non-negative number (its whole
    /// part) or a string of decimal digits.
    pub fn get_uint(&self, path: &[&str]) -> (r: Option<u64>)
        ensures
            r == uint_at(*self, path@),
    {
        match self.get(path) {
            Some(n) => match n {
                Json::Number(t) => number_text_uint(t.as_str()),
                Json::Str(s) => {
                    let c = chars_of(s.as_str());
                    assert(c@.subrange(0, c@.len() as int) =~= c@);
                    parse_uint(&c, 0, c.len())
                },
                _ => None,
            },
            None => None,
        }
    }

    /// The first element of the array under `path`, as a trimmed, non-blank
    /// string.
    pub fn get_first_array_string(&self, path: &[&str]) -> (r: Option<String>)
        ensures
            view_opt(r) == first_text_at(*self, path@),
    {
        match self.get(path) {
            Some(n) => n.first_text(),
            None => None,
        }
    }
}

/// The first candidate that is present and not blank after trimming, trimmed.
pub fn first_non_empty(candidates: &Vec<Option<String>>) -> (r: Option<String>)
    ensures
        view_opt(r) == first_non_empty_of(views_of(candidates@)),
{
    let mut i: usize = 0;
    let ghost c = views_of(candidates@);
    assert(c.subrange(0, c.len() as int) =~= c);
    while i < candidates.len()
        invariant
            i <= candidates@.len(),
            c == views_of(candidates@),
            first_non_empty_of(c) == first_non_empty_of(c.subrange(i as int, c.len() as int)),
        decreases candidates@.len() - i,
    {
        assert(c.subrange(i as int, c.len() as int).drop_first() =~= c.subrange(
            i + 1,
            c.len() as int,
        ));
        assert(c.subrange(i as int, c.len() as int)[0] == view_opt(candidates@[i as int]));
        match &candidates[i] {
            Some(s) => {
                let t = trim_chars(&chars_of(s.as_str()));
                if t.len() > 0 {
                    return Some(string_of(t.as_slice()));
                }
            },
            None => {},
        }
        i = i + 1;
    }
    None
}

} // verus!
