//! ApexLOL lookups: reading the champion rating and effect text out of an
//! augment page, finding an augment's page on the index, cache keys, expiry
//! and the cache report. Times are UTC milliseconds since the Unix epoch.
use vstd::prelude::*;
use crate::text::{
    char_is_whitespace, contains_text, has_infix, has_prefix, is_whitespace, join_with, owned, push_joined, push_str,
    starts_with, text_eq,
    texts, trimmed, trimmed_owned,
};

verus! {

pub const APEX_SOURCE_NAME: &'static str = "ApexLOL";

pub const NO_DATA_TEXT: &'static str = "暂无数据";

pub const CACHE_VERSION: u32 = 1;

/// The latest instant chrono's `DateTime<Utc>` can hold, in milliseconds.
pub const MAX_DATETIME_MS: i64 = 8210266876799999;

/// The earliest instant chrono's `DateTime<Utc>` can hold, in milliseconds.
pub const MIN_DATETIME_MS: i64 = -8334601315200000;

/// The most hours chrono's `TimeDelta::hours` accepts, either way.
pub const MAX_DELTA_HOURS: u64 = 2562047788015;

/// The most minutes chrono's `TimeDelta::minutes` accepts, either way.
pub const MAX_DELTA_MINUTES: u64 = 153722867280912;

#[derive(Debug, Clone, PartialEq, Eq)]
pub struct ApexLookupSettings {
    pub cache_ttl_hours: u64,
    pub request_timeout_ms: u64,
    pub failed_cache_ttl_minutes: u64,
}

impl ApexLookupSettings {
    /// A week for found data, five minutes for failures, six-second requests.
    pub fn defaults() -> (r: Self)
        ensures
            r.cache_ttl_hours == 168,
            r.request_timeout_ms == 6000,
            r.failed_cache_ttl_minutes == 5,
    {
        ApexLookupSettings { cache_ttl_hours: 168, request_timeout_ms: 6000, failed_cache_ttl_minutes: 5 }
    }
}

impl Default for ApexLookupSettings {
    fn default() -> (r: Self)
        ensures
            r.cache_ttl_hours == 168,
            r.request_timeout_ms == 6000,
            r.failed_cache_ttl_minutes == 5,
    {
        ApexLookupSettings::defaults()
    }
}

#[derive(Debug, Clone, PartialEq, Eq)]
pub struct ApexLookupRequest {
    pub champion_name: String,
    pub augment_name: String,
    pub force_refresh: bool,
}

#[derive(Debug, Clone, Copy, PartialEq, Eq, Structural)]
pub enum ApexParseStatus {
    Found,
    NoData,
    RequestFailed,
    ParseFailed,
}

#[derive(Debug, Clone, PartialEq, Eq)]
pub struct ApexRequestLog {
    pub request_url: String,
    pub duration_ms: u128,
    pub cache_hit: bool,
    pub parse_status: ApexParseStatus,
    pub failure_reason: Option<String>,
}

#[derive(Debug, Clone, PartialEq, Eq)]
pub struct ApexLookupResult {
    pub champion_name: String,
    pub augment_name: String,
    pub rating: Option<String>,
    pub summary: String,
    pub tip: Option<String>,
    pub source: String,
    pub source_url: String,
    pub fetched_at: i64,
    pub cache_hit: bool,
    pub status: ApexParseStatus,
    pub error: Option<String>,
    pub request_log: ApexRequestLog,
}

#[derive(Debug, Clone, PartialEq, Eq)]
pub struct ApexCacheEntry {
    pub champion_name: String,
    pub augment_name: String,
    pub rating: Option<String>,
    pub summary: String,
    pub tip: Option<String>,
    pub source: String,
    pub source_url: String,
    pub fetched_at: i64,
    pub expires_at: i64,
    pub cache_hit: bool,
    pub status: ApexParseStatus,
    pub error: Option<String>,
    pub request_url: String,
    pub duration_ms: u128,
}

pub open spec fn ov(s: Option<String>) -> Option<Seq<char>> {
    match s {
        Some(s) => Some(s@),
        None => None,
    }
}


/// The anchors of a page as plain texts: the text nodes of each and its optional link.
pub open spec fn anchor_views(v: Seq<(Vec<String>, Option<String>)>) -> Seq<(Seq<Seq<char>>, Option<Seq<char>>)> {
    v.map_values(|a: (Vec<String>, Option<String>)| (texts(a.0@), ov(a.1)))
}

fn copy_opt(s: &Option<String>) -> (r: Option<String>)
    ensures
        ov(r) == ov(*s),
{
    match s {
        Some(v) => Some(v.clone()),
        None => None,
    }
}

// ---------------------------------------------------------------------------
// Text normalization and keys
// ---------------------------------------------------------------------------

/// std's `char::to_lowercase` of `c`, as characters.
pub uninterp spec fn lowercase_chars(c: char) -> Seq<char>;

/// The lowercase of an ASCII character: `A` to `Z` become `a` to `z`, the
/// rest stay.
pub open spec fn ascii_lowercase(c: char) -> char {
    if 'A' <= c && c <= 'Z' {
        ((c as u32) + 32) as char
    } else {
        c
    }
}

/// Whether every character of a text is ASCII.
pub open spec fn is_ascii_text(s: Seq<char>) -> bool {
    forall|i: int| 0 <= i < s.len() ==> (#[trigger] s[i] as u32) < 128
}

/// Appends std's `char::to_lowercase` of `c`; an ASCII character maps to its
/// ASCII lowercase, as std documents.
#[verifier::external_body]
fn push_lowercase(out: &mut String, c: char)
    ensures
        final(out)@ == old(out)@ + lowercase_chars(c),
        (c as u32) < 128 ==> final(out)@ == old(out)@.push(ascii_lowercase(c)),
{
    out.extend(c.to_lowercase());
}

/// Whether a character is dropped from lookup text: whitespace and apostrophes.
pub open spec fn dropped_in_lookup(c: char) -> bool {
    is_whitespace(c) || c == '\'' || c == '’'
}

/// The lookup form of a text: whitespace and apostrophes dropped, the rest lowercased.
pub open spec fn lookup_text(s: Seq<char>) -> Seq<char>
    decreases s.len(),
{
    if s.len() == 0 {
        Seq::empty()
    } else {
        let prev = lookup_text(s.drop_last());
        if dropped_in_lookup(s.last()) {
            prev
        } else {
            prev + lowercase_chars(s.last())
        }
    }
}

/// The lookup form of an ASCII text: whitespace and apostrophes dropped, the
/// letters lowercased.
pub open spec fn ascii_lookup_text(s: Seq<char>) -> Seq<char>
    decreases s.len(),
{
    if s.len() == 0 {
        Seq::empty()
    } else {
        let prev = ascii_lookup_text(s.drop_last());
        if dropped_in_lookup(s.last()) {
            prev
        } else {
            prev.push(ascii_lowercase(s.last()))
        }
    }
}

/// The lookup form of a text.
pub fn normalize_lookup_text(value: &str) -> (r: String)
    ensures
        r@ == lookup_text(value@),
        is_ascii_text(value@) ==> r@ == ascii_lookup_text(value@),
{
    let n = value.unicode_len();
    let mut out = String::new();
    let mut i: usize = 0;
    while i < n
        invariant
            0 <= i <= n,
            n == value@.len(),
            out@ == lookup_text(value@.take(i as int)),
            is_ascii_text(value@) ==> out@ == ascii_lookup_text(value@.take(i as int)),
        decreases n - i,
    {
        let c = value.get_char(i);
        proof {
            assert(value@.take(i + 1).drop_last() =~= value@.take(i as int));
            assert(value@.take(i + 1).last() == c);
        }
        if !(char_is_whitespace(c) || c == '\'' || c == '’') {
            push_lowercase(&mut out, c);
        }
        i = i + 1;
    }
    assert(value@.take(n as int) =~= value@);
    out
}

/// The cache key of a lookup: both names in lookup form, joined by `::`.
pub open spec fn spec_cache_key(champion: Seq<char>, augment: Seq<char>) -> Seq<char> {
    lookup_text(champion) + "::"@ + lookup_text(augment)
}

/// The cache key of a lookup.
pub fn cache_key(champion_name: &str, augment_name: &str) -> (r: String)
    ensures
        r@ == spec_cache_key(champion_name@, augment_name@),
        is_ascii_text(champion_name@) && is_ascii_text(augment_name@) ==> r@ == ascii_lookup_text(champion_name@)
            + "::"@ + ascii_lookup_text(augment_name@),
{
    let mut r = normalize_lookup_text(champion_name);
    push_str(&mut r, "::");
    let a = normalize_lookup_text(augment_name);
    push_str(&mut r, a.as_str());
    r
}

/// `s` with every trailing `/` removed.
pub open spec fn trim_trailing_slashes(s: Seq<char>) -> Seq<char>
    decreases s.len(),
{
    if s.len() > 0 && s.last() == '/' {
        trim_trailing_slashes(s.drop_last())
    } else {
        s
    }
}

/// A link of a page resolved against the page's address.
pub open spec fn spec_absolute_url(base: Seq<char>, href: Seq<char>) -> Seq<char> {
    if has_prefix(href, "http://"@) || has_prefix(href, "https://"@) {
        href
    } else if has_prefix(href, "/"@) {
        "https://apexlol.info"@ + href
    } else {
        trim_trailing_slashes(base) + "/"@ + href
    }
}

/// A link of a page resolved against the page's address.
pub fn absolute_url(base_url: &str, href: &str) -> (r: String)
    ensures
        r@ == spec_absolute_url(base_url@, href@),
{
    if starts_with(href, "http://") || starts_with(href, "https://") {
        return owned(href);
    }
    if starts_with(href, "/") {
        let mut r = owned("https://apexlol.info");
        push_str(&mut r, href);
        return r;
    }
    let mut end = base_url.unicode_len();
    proof {
        assert(base_url@.take(base_url@.len() as int) =~= base_url@);
    }
    while end > 0 && base_url.get_char(end - 1) == '/'
        invariant
            0 <= end <= base_url@.len(),
            trim_trailing_slashes(base_url@) == trim_trailing_slashes(base_url@.take(end as int)),
        decreases end,
    {
        proof {
            assert(base_url@.take(end as int).drop_last() =~= base_url@.take(end - 1));
        }
        end = end - 1;
    }
    let mut r = owned(base_url.substring_char(0, end));
    assert(r@ =~= base_url@.take(end as int));
    push_str(&mut r, "/");
    push_str(&mut r, href);
    r
}

// ---------------------------------------------------------------------------
// Page text
// ---------------------------------------------------------------------------

/// The text nodes under `<body>` of an HTML document, in document order, as
/// `scraper` parses and walks it.
pub uninterp spec fn body_text_nodes(html: Seq<char>) -> Seq<Seq<char>>;

/// Parses `html` with `scraper::Html::parse_document` and collects the text
/// nodes of its `body` elements.
#[verifier::external_body]
fn html_body_text_nodes(html: &str) -> (r: Vec<String>)
    ensures
        texts(r@) == body_text_nodes(html@),
{
    let document = scraper::Html::parse_document(html);
    let selector = scraper::Selector::parse("body").expect("body selector");
    document.select(&selector).flat_map(|body| body.text()).map(|t| t.to_string()).collect()
}

/// The anchors of an HTML document as `scraper` parses it, in document
/// order: each one's text nodes and its `href` attribute.
pub uninterp spec fn document_anchors(html: Seq<char>) -> Seq<(Seq<Seq<char>>, Option<Seq<char>>)>;

/// Parses `html` with `scraper::Html::parse_document` and lists its `a`
/// elements: the text nodes of each and its `href` attribute.
#[verifier::external_body]
fn html_anchors(html: &str) -> (r: Vec<(Vec<String>, Option<String>)>)
    ensures
        anchor_views(r@) == document_anchors(html@),
{
    let document = scraper::Html::parse_document(html);
    let selector = scraper::Selector::parse("a").expect("anchor selector");
    document
        .select(&selector)
        .map(|a| (a.text().map(|t| t.to_string()).collect(), a.value().attr("href").map(|h| h.to_string())))
        .collect()
}

/// The visible text of a page: its body text nodes, trimmed, empty ones dropped.
pub open spec fn visible_lines(nodes: Seq<Seq<char>>) -> Seq<Seq<char>>
    decreases nodes.len(),
{
    if nodes.len() == 0 {
        Seq::empty()
    } else {
        let prev = visible_lines(nodes.drop_last());
        let t = trimmed(nodes.last());
        if t.len() == 0 {
            prev
        } else {
            prev.push(t)
        }
    }
}

/// The visible text of an HTML page.
pub fn visible_text(html: &str) -> (r: Vec<String>)
    ensures
        texts(r@) == visible_lines(body_text_nodes(html@)),
{
    let nodes = html_body_text_nodes(html);
    let ghost nv = texts(nodes@);
    let mut out: Vec<String> = Vec::new();
    let mut i: usize = 0;
    while i < nodes.len()
        invariant
            0 <= i <= nodes@.len(),
            nv == texts(nodes@),
            texts(out@) == visible_lines(nv.take(i as int)),
        decreases nodes@.len() - i,
    {
        let t = trimmed_owned(nodes[i].as_str());
        proof {
            assert(nv.take(i + 1).drop_last() =~= nv.take(i as int));
            assert(nv.take(i + 1).last() == nodes@[i as int]@);
        }
        if t.as_str().unicode_len() > 0 {
            let ghost before = out@;
            out.push(t);
            proof {
                assert(texts(out@) =~= texts(before).push(t@));
            }
        }
        i = i + 1;
    }
    assert(nv.take(nodes@.len() as int) =~= nv);
    out
}

/// A text line that carries content (not a counter, a button label or an image caption).
pub open spec fn spec_non_noise(value: Seq<char>) -> Option<Seq<char>> {
    let v = trimmed(value);
    if v.len() == 0 || v == "0"@ || v == "投稿"@ || v == "Contribute"@ || has_infix(v, "Image:"@) || has_infix(
        v,
        "Assist Me"@,
    ) || has_infix(v, "Enemy Missing"@) {
        None
    } else {
        Some(v)
    }
}

/// A text line that carries content, trimmed.
pub fn non_noise_text(value: &str) -> (r: Option<String>)
    ensures
        ov(r) == spec_non_noise(value@),
{
    let v = trimmed_owned(value);
    let s = v.as_str();
    if s.unicode_len() == 0 || text_eq(s, "0") || text_eq(s, "投稿") || text_eq(s, "Contribute") || contains_text(
        s,
        "Image:",
    ) || contains_text(s, "Assist Me") || contains_text(s, "Enemy Missing") {
        None
    } else {
        Some(v)
    }
}

/// The effect description: the line after the first line mentioning
/// "效果描述" or "Description", when that line carries content.
pub open spec fn spec_effect_description(text: Seq<Seq<char>>) -> Option<Seq<char>> {
    if exists|i: int| 0 <= i < text.len() - 1 && is_description_heading(#[trigger] text[i]) {
        let i = choose|i: int|
            0 <= i < text.len() - 1 && is_description_heading(text[i]) && forall|k: int|
                0 <= k < i ==> !is_description_heading(#[trigger] text[k]);
        spec_non_noise(text[i + 1])
    } else {
        None
    }
}

pub open spec fn is_description_heading(line: Seq<char>) -> bool {
    has_infix(line, "效果描述"@) || has_infix(line, "Description"@)
}

/// The effect description of a page's text.
pub fn parse_effect_description(text: &Vec<String>) -> (r: Option<String>)
    ensures
        ov(r) == spec_effect_description(texts(text@)),
{
    let ghost tv = texts(text@);
    let n = text.len();
    if n < 2 {
        return None;
    }
    let mut i: usize = 0;
    while i < n - 1
        invariant
            0 <= i <= n - 1,
            n == text@.len(),
            n >= 2,
            tv == texts(text@),
            forall|k: int| 0 <= k < i ==> !is_description_heading(#[trigger] tv[k]),
        decreases text@.len() - i,
    {
        if contains_text(text[i].as_str(), "效果描述") || contains_text(text[i].as_str(), "Description") {
            proof {
                assert(is_description_heading(tv[i as int]));
                let w = choose|w: int|
                    0 <= w < tv.len() - 1 && is_description_heading(tv[w]) && forall|k: int|
                        0 <= k < w ==> !is_description_heading(#[trigger] tv[k]);
                if w < i {
                    assert(!is_description_heading(tv[w]));
                }
                if w > i {
                    assert(!is_description_heading(tv[i as int]));
                }
            }
            return non_noise_text(text[i + 1].as_str());
        }
        i = i + 1;
    }
    proof {
        assert forall|k: int| 0 <= k < tv.len() - 1 implies !is_description_heading(#[trigger] tv[k]) by {
            assert(k < i);
        }
    }
    None
}

/// The ratings a champion can get on a page.
pub open spec fn is_rating(v: Seq<char>) -> bool {
    v == "SS"@ || v == "S"@ || v == "A"@ || v == "B"@ || v == "C"@ || v == "D"@
}

/// The champion's rating on a page's text: at the first line naming the
/// champion (in lookup form), the first rating among the next four lines
/// (none means no rating), and as summary the first of the five lines after
/// the rating that carries content.
pub open spec fn spec_champion_rating(text: Seq<Seq<char>>, champion: Seq<char>) -> Option<(Seq<char>, Option<Seq<char>>)> {
    let target = lookup_text(champion);
    if exists|i: int| 0 <= i < text.len() && lookup_text(#[trigger] text[i]) == target {
        let i = choose|i: int|
            0 <= i < text.len() && lookup_text(text[i]) == target && forall|k: int|
                0 <= k < i ==> lookup_text(#[trigger] text[k]) != target;
        match first_where(text, i + 1, 4, |v: Seq<char>| is_rating(trimmed(v))) {
            None => None,
            Some(r) => Some((trimmed(text[r]), first_content(text, r + 1, 5))),
        }
    } else {
        None
    }
}

/// The first position in `[from, from + count)` of `text` whose line satisfies `p`.
pub open spec fn first_where(text: Seq<Seq<char>>, from: int, count: nat, p: spec_fn(Seq<char>) -> bool) -> Option<int>
    decreases count,
{
    if count == 0 || from >= text.len() {
        None
    } else if p(text[from]) {
        Some(from)
    } else {
        first_where(text, from + 1, (count - 1) as nat, p)
    }
}

/// The first line in `[from, from + count)` of `text` that carries content.
pub open spec fn first_content(text: Seq<Seq<char>>, from: int, count: nat) -> Option<Seq<char>>
    decreases count,
{
    if count == 0 || from >= text.len() {
        None
    } else {
        match spec_non_noise(text[from]) {
            Some(v) => Some(v),
            None => first_content(text, from + 1, (count - 1) as nat),
        }
    }
}

fn is_rating_text(v: &str) -> (r: bool)
    ensures
        r == is_rating(v@),
{
    text_eq(v, "SS") || text_eq(v, "S") || text_eq(v, "A") || text_eq(v, "B") || text_eq(v, "C") || text_eq(v, "D")
}

fn find_rating(text: &Vec<String>, from: usize) -> (r: Option<usize>)
    requires
        from >= 1,
    ensures
        match r {
            Some(k) => k < text@.len() && first_where(
                texts(text@),
                from as int,
                4,
                |v: Seq<char>| is_rating(trimmed(v)),
            ) == Some(k as int),
            None => first_where(texts(text@), from as int, 4, |v: Seq<char>| is_rating(trimmed(v)))
                is None,
        },
{
    let ghost tv = texts(text@);
    let ghost p = |v: Seq<char>| is_rating(trimmed(v));
    let mut k: usize = from;
    let mut left: usize = 4;
    while left > 0 && k < text.len()
        invariant
            k + left == from + 4,
            left <= 4,
            tv == texts(text@),
            p == (|v: Seq<char>| is_rating(trimmed(v))),
            first_where(tv, from as int, 4, p) == first_where(tv, k as int, left as nat, p),
        decreases left,
    {
        let t = trimmed_owned(text[k].as_str());
        if is_rating_text(t.as_str()) {
            return Some(k);
        }
        k = k + 1;
        left = left - 1;
    }
    None
}

fn find_content(text: &Vec<String>, from: usize) -> (r: Option<String>)
    ensures
        ov(r) == first_content(texts(text@), from as int, 5),
{
    let ghost tv = texts(text@);
    let mut k: usize = from;
    let mut left: usize = 5;
    while left > 0 && k < text.len()
        invariant
            left <= 5,
            k >= from,
            tv == texts(text@),
            first_content(tv, from as int, 5) == first_content(tv, k as int, left as nat),
        decreases left,
    {
        match non_noise_text(text[k].as_str()) {
            Some(v) => return Some(v),
            None => {},
        }
        k = k + 1;
        left = left - 1;
    }
    None
}

/// The champion's rating and summary on a page's text.
pub fn parse_champion_rating(text: &Vec<String>, champion_name: &str) -> (r: Option<(String, Option<String>)>)
    ensures
        match r {
            Some((rating, summary)) => spec_champion_rating(texts(text@), champion_name@) == Some(
                (rating@, ov(summary)),
            ),
            None => spec_champion_rating(texts(text@), champion_name@) is None,
        },
{
    let ghost tv = texts(text@);
    let target = normalize_lookup_text(champion_name);
    let mut i: usize = 0;
    while i < text.len()
        invariant
            0 <= i <= text@.len(),
            tv == texts(text@),
            target@ == lookup_text(champion_name@),
            forall|k: int| 0 <= k < i ==> lookup_text(#[trigger] tv[k]) != target@,
        decreases text@.len() - i,
    {
        let item = normalize_lookup_text(text[i].as_str());
        if text_eq(item.as_str(), target.as_str()) {
            proof {
                assert(lookup_text(tv[i as int]) == target@);
                let w = choose|w: int|
                    0 <= w < tv.len() && lookup_text(tv[w]) == target@ && forall|k: int|
                        0 <= k < w ==> lookup_text(#[trigger] tv[k]) != target@;
                if w < i {
                    assert(lookup_text(tv[w]) != target@);
                }
                if w > i {
                    assert(lookup_text(tv[i as int]) != target@);
                }
            }
            match find_rating(text, i + 1) {
                None => return None,
                Some(r) => {
                    let rating = trimmed_owned(text[r].as_str());
                    let summary = find_content(text, r + 1);
                    return Some((rating, summary));
                },
            }
        }
        i = i + 1;
    }
    None
}

// ---------------------------------------------------------------------------
// Results
// ---------------------------------------------------------------------------

/// Whether `r` is the no-data result for a lookup with the given status and reason.
pub open spec fn is_no_data_result(
    r: ApexLookupResult,
    champion: Seq<char>,
    augment: Seq<char>,
    source_url: Seq<char>,
    request_url: Seq<char>,
    duration_ms: u128,
    status: ApexParseStatus,
    reason: Seq<char>,
    now: i64,
) -> bool {
    &&& r.champion_name@ == champion
    &&& r.augment_name@ == augment
    &&& r.rating is None
    &&& r.summary@ == NO_DATA_TEXT@
    &&& r.tip is None
    &&& r.source@ == APEX_SOURCE_NAME@
    &&& r.source_url@ == source_url
    &&& r.fetched_at == now
    &&& !r.cache_hit
    &&& r.status == status
    &&& ov(r.error) == Some(reason)
    &&& r.request_log.request_url@ == request_url
    &&& r.request_log.duration_ms == duration_ms
    &&& !r.request_log.cache_hit
    &&& r.request_log.parse_status == status
    &&& ov(r.request_log.failure_reason) == Some(reason)
}

/// The result of a lookup that found no usable data.
pub fn no_data_result(
    champion_name: &str,
    augment_name: &str,
    source_url: &str,
    request_url: &str,
    duration_ms: u128,
    status: ApexParseStatus,
    reason: &str,
    now: i64,
) -> (r: ApexLookupResult)
    ensures
        is_no_data_result(r, champion_name@, augment_name@, source_url@, request_url@, duration_ms, status, reason@, now),
{
    ApexLookupResult {
        champion_name: owned(champion_name),
        augment_name: owned(augment_name),
        rating: None,
        summary: owned(NO_DATA_TEXT),
        tip: None,
        source: owned(APEX_SOURCE_NAME),
        source_url: owned(source_url),
        fetched_at: now,
        cache_hit: false,
        status: status,
        error: Some(owned(reason)),
        request_log: ApexRequestLog {
            request_url: owned(request_url),
            duration_ms: duration_ms,
            cache_hit: false,
            parse_status: status,
            failure_reason: Some(owned(reason)),
        },
    }
}

/// Reads a detail page's text: with a rating for the champion the result is
/// `Found` with the rating, the summary (or "暂无数据") and the effect description;
/// without one it is the `ParseFailed` no-data result.
pub open spec fn detail_result_holds(
    r: ApexLookupResult,
    text: Seq<Seq<char>>,
    source_url: Seq<char>,
    champion: Seq<char>,
    augment: Seq<char>,
    request_url: Seq<char>,
    duration_ms: u128,
    now: i64,
) -> bool {
    match spec_champion_rating(text, champion) {
        None => is_no_data_result(
            r,
            champion,
            augment,
            source_url,
            request_url,
            duration_ms,
            ApexParseStatus::ParseFailed,
            "未在来源页面中解析到当前英雄与海克斯的联动评级"@,
            now,
        ),
        Some((rating, summary)) => {
            &&& r.champion_name@ == champion
            &&& r.augment_name@ == augment
            &&& ov(r.rating) == Some(rating)
            &&& r.summary@ == match summary {
                Some(s) => s,
                None => NO_DATA_TEXT@,
            }
            &&& ov(r.tip) == spec_effect_description(text)
            &&& r.source@ == APEX_SOURCE_NAME@
            &&& r.source_url@ == source_url
            &&& r.fetched_at == now
            &&& !r.cache_hit
            &&& r.status == ApexParseStatus::Found
            &&& r.error is None
            &&& r.request_log.request_url@ == request_url
            &&& r.request_log.duration_ms == duration_ms
            &&& !r.request_log.cache_hit
            &&& r.request_log.parse_status == ApexParseStatus::Found
            &&& r.request_log.failure_reason is None
        },
    }
}

/// The lookup result for a detail page's visible text.
pub fn detail_page_result(
    text: &Vec<String>,
    source_url: &str,
    champion_name: &str,
    augment_name: &str,
    request_url: &str,
    duration_ms: u128,
    now: i64,
) -> (r: ApexLookupResult)
    ensures
        detail_result_holds(r, texts(text@), source_url@, champion_name@, augment_name@, request_url@, duration_ms, now),
{
    match parse_champion_rating(text, champion_name) {
        None => no_data_result(
            champion_name,
            augment_name,
            source_url,
            request_url,
            duration_ms,
            ApexParseStatus::ParseFailed,
            "未在来源页面中解析到当前英雄与海克斯的联动评级",
            now,
        ),
        Some((rating, summary)) => ApexLookupResult {
            champion_name: owned(champion_name),
            augment_name: owned(augment_name),
            rating: Some(rating),
            summary: match summary {
                Some(s) => s,
                None => owned(NO_DATA_TEXT),
            },
            tip: parse_effect_description(text),
            source: owned(APEX_SOURCE_NAME),
            source_url: owned(source_url),
            fetched_at: now,
            cache_hit: false,
            status: ApexParseStatus::Found,
            error: None,
            request_log: ApexRequestLog {
                request_url: owned(request_url),
                duration_ms: duration_ms,
                cache_hit: false,
                parse_status: ApexParseStatus::Found,
                failure_reason: None,
            },
        },
    }
}

/// `chrono::Utc::now()` in milliseconds since the epoch.
#[verifier::external_body]
pub(crate) fn now_millis() -> (r: i64) {
    chrono::Utc::now().timestamp_millis()
}

/// Reads an ApexLOL detail page: the lookup result for its visible text, fetched now.
pub fn parse_apex_detail_page(
    html: &str,
    source_url: &str,
    champion_name: &str,
    augment_name: &str,
    request_url: &str,
    duration_ms: u128,
) -> (r: ApexLookupResult)
    ensures
        detail_result_holds(
            r,
            visible_lines(body_text_nodes(html@)),
            source_url@,
            champion_name@,
            augment_name@,
            request_url@,
            duration_ms,
            r.fetched_at,
        ),
{
    let text = visible_text(html);
    let now = now_millis();
    detail_page_result(&text, source_url, champion_name, augment_name, request_url, duration_ms, now)
}

/// The link of the first anchor whose text (its text nodes run together)
/// names the augment in lookup form and that has a link, resolved against
/// the index page.
pub open spec fn spec_augment_link(index_url: Seq<char>, anchors: Seq<(Seq<Seq<char>>, Option<Seq<char>>)>, augment: Seq<char>) -> Option<Seq<char>>
    decreases anchors.len(),
{
    if anchors.len() == 0 {
        None
    } else if lookup_text(join_with(anchors[0].0, ""@)) == lookup_text(augment) && anchors[0].1 is Some {
        Some(spec_absolute_url(index_url, anchors[0].1->0))
    } else {
        spec_augment_link(index_url, anchors.drop_first(), augment)
    }
}

/// The augment's page on an index page, if the index links it.
pub fn find_augment_link(index_url: &str, html: &str, augment_name: &str) -> (r: Option<String>)
    ensures
        ov(r) == spec_augment_link(index_url@, document_anchors(html@), augment_name@),
{
    let anchors = html_anchors(html);
    let ghost av = anchor_views(anchors@);
    let target = normalize_lookup_text(augment_name);
    let mut i: usize = 0;
    proof {
        assert(av.skip(0) =~= av);
    }
    while i < anchors.len()
        invariant
            0 <= i <= anchors@.len(),
            av == anchor_views(anchors@),
            av == document_anchors(html@),
            target@ == lookup_text(augment_name@),
            spec_augment_link(index_url@, av, augment_name@) == spec_augment_link(index_url@, av.skip(i as int), augment_name@),
        decreases anchors@.len() - i,
    {
        proof {
            assert(av.skip(i as int).drop_first() =~= av.skip(i + 1));
            assert(av.skip(i as int)[0] == av[i as int]);
        }
        let mut text = String::new();
        push_joined(&mut text, &anchors[i].0, "");
        proof {
            assert(Seq::<char>::empty() + join_with(texts(anchors@[i as int].0@), ""@) =~= join_with(texts(anchors@[i as int].0@), ""@));
        }
        let label = normalize_lookup_text(text.as_str());
        if text_eq(label.as_str(), target.as_str()) {
            match &anchors[i].1 {
                Some(href) => {
                    proof {
                        assert(av[i as int] == (texts(anchors@[i as int].0@), ov(anchors@[i as int].1)));
                        assert(av.skip(i as int).len() > 0);
                        assert(av.skip(i as int)[0].0 == texts(anchors@[i as int].0@));
                        assert(lookup_text(join_with(av.skip(i as int)[0].0, ""@)) == lookup_text(augment_name@));
                        assert(av.skip(i as int)[0].1 == Some(href@));
                        assert(spec_augment_link(index_url@, av.skip(i as int), augment_name@)
                            == Some(spec_absolute_url(index_url@, href@)));
                    }
                    let u = absolute_url(index_url, href.as_str());
                    return Some(u);
                },
                None => {},
            }
        }
        i = i + 1;
    }
    None
}

// ---------------------------------------------------------------------------
// Cache
// ---------------------------------------------------------------------------

/// A configured count read as a signed 64-bit number, as `as i64` reads it:
/// counts above `i64::MAX` wrap around to negative ones.
pub open spec fn signed_count(v: u64) -> int {
    if v <= i64::MAX {
        v as int
    } else {
        v - 0x1_0000_0000_0000_0000
    }
}

fn to_signed(v: u64) -> (r: i64)
    ensures
        r == signed_count(v),
{
    if v <= 0x7fff_ffff_ffff_ffff {
        v as i64
    } else {
        let below: u64 = v - 0x8000_0000_0000_0000;
        (below as i64) - 0x7fff_ffff_ffff_ffff - 1
    }
}

/// How long a result stays in the cache, in milliseconds: the data TTL for
/// found data, the failure TTL otherwise, each count read as a signed number.
pub open spec fn ttl_ms(status: ApexParseStatus, settings: ApexLookupSettings) -> int {
    if status == ApexParseStatus::Found {
        signed_count(settings.cache_ttl_hours) * 3_600_000
    } else {
        signed_count(settings.failed_cache_ttl_minutes) * 60_000
    }
}

/// Whether the expiry of a result is representable: chrono takes the TTL
/// as a time delta and adds it to the fetch time without panicking.
pub open spec fn expiry_defined(fetched_at: i64, status: ApexParseStatus, settings: ApexLookupSettings) -> bool {
    &&& status == ApexParseStatus::Found ==> -(MAX_DELTA_HOURS as int) <= signed_count(settings.cache_ttl_hours)
        <= MAX_DELTA_HOURS
    &&& status != ApexParseStatus::Found ==> -(MAX_DELTA_MINUTES as int) <= signed_count(
        settings.failed_cache_ttl_minutes,
    ) <= MAX_DELTA_MINUTES
    &&& MIN_DATETIME_MS <= fetched_at + ttl_ms(status, settings) <= MAX_DATETIME_MS
}

/// Whether the expiry of a result is representable.
pub fn expiry_is_defined(fetched_at: i64, status: ApexParseStatus, settings: &ApexLookupSettings) -> (r: bool)
    ensures
        r == expiry_defined(fetched_at, status, *settings),
{
    let ttl: i128 = if status == ApexParseStatus::Found {
        let h = to_signed(settings.cache_ttl_hours);
        if h > MAX_DELTA_HOURS as i64 || h < -(MAX_DELTA_HOURS as i64) {
            return false;
        }
        h as i128 * 3_600_000
    } else {
        let m = to_signed(settings.failed_cache_ttl_minutes);
        if m > MAX_DELTA_MINUTES as i64 || m < -(MAX_DELTA_MINUTES as i64) {
            return false;
        }
        m as i128 * 60_000
    };
    let at = fetched_at as i128 + ttl;
    MIN_DATETIME_MS as i128 <= at && at <= MAX_DATETIME_MS as i128
}

/// Whether `e` is the cache entry that records `r`.
pub open spec fn is_entry_of(e: ApexCacheEntry, r: ApexLookupResult, settings: ApexLookupSettings) -> bool {
    &&& e.champion_name@ == r.champion_name@
    &&& e.augment_name@ == r.augment_name@
    &&& ov(e.rating) == ov(r.rating)
    &&& e.summary@ == r.summary@
    &&& ov(e.tip) == ov(r.tip)
    &&& e.source@ == r.source@
    &&& e.source_url@ == r.source_url@
    &&& e.fetched_at == r.fetched_at
    &&& e.expires_at == r.fetched_at + ttl_ms(r.status, settings)
    &&& !e.cache_hit
    &&& e.status == r.status
    &&& ov(e.error) == ov(r.error)
    &&& e.request_url@ == r.request_log.request_url@
    &&& e.duration_ms == r.request_log.duration_ms
}

/// The cache entry that records a fetched result.
pub fn cache_entry_from_result(result: &ApexLookupResult, settings: &ApexLookupSettings) -> (e: ApexCacheEntry)
    requires
        expiry_defined(result.fetched_at, result.status, *settings),
    ensures
        is_entry_of(e, *result, *settings),
{
    let ttl: i64 = if result.status == ApexParseStatus::Found {
        to_signed(settings.cache_ttl_hours) * 3_600_000
    } else {
        to_signed(settings.failed_cache_ttl_minutes) * 60_000
    };
    ApexCacheEntry {
        champion_name: result.champion_name.clone(),
        augment_name: result.augment_name.clone(),
        rating: copy_opt(&result.rating),
        summary: result.summary.clone(),
        tip: copy_opt(&result.tip),
        source: result.source.clone(),
        source_url: result.source_url.clone(),
        fetched_at: result.fetched_at,
        expires_at: result.fetched_at + ttl,
        cache_hit: false,
        status: result.status,
        error: copy_opt(&result.error),
        request_url: result.request_log.request_url.clone(),
        duration_ms: result.request_log.duration_ms,
    }
}

/// Whether `r` is the cache hit served from entry `e`.
pub open spec fn is_result_of_entry(r: ApexLookupResult, e: ApexCacheEntry) -> bool {
    &&& r.champion_name@ == e.champion_name@
    &&& r.augment_name@ == e.augment_name@
    &&& ov(r.rating) == ov(e.rating)
    &&& r.summary@ == e.summary@
    &&& ov(r.tip) == ov(e.tip)
    &&& r.source@ == e.source@
    &&& r.source_url@ == e.source_url@
    &&& r.fetched_at == e.fetched_at
    &&& r.cache_hit
    &&& r.status == e.status
    &&& ov(r.error) == ov(e.error)
    &&& r.request_log.request_url@ == e.request_url@
    &&& r.request_log.duration_ms == e.duration_ms
    &&& r.request_log.cache_hit
    &&& r.request_log.parse_status == e.status
    &&& ov(r.request_log.failure_reason) == ov(e.error)
}

/// The result served from a cache entry.
pub fn result_from_cache_entry(entry: &ApexCacheEntry) -> (r: ApexLookupResult)
    ensures
        is_result_of_entry(r, *entry),
{
    ApexLookupResult {
        champion_name: entry.champion_name.clone(),
        augment_name: entry.augment_name.clone(),
        rating: copy_opt(&entry.rating),
        summary: entry.summary.clone(),
        tip: copy_opt(&entry.tip),
        source: entry.source.clone(),
        source_url: entry.source_url.clone(),
        fetched_at: entry.fetched_at,
        cache_hit: true,
        status: entry.status,
        error: copy_opt(&entry.error),
        request_log: ApexRequestLog {
            request_url: entry.request_url.clone(),
            duration_ms: entry.duration_ms,
            cache_hit: true,
            parse_status: entry.status,
            failure_reason: copy_opt(&entry.error),
        },
    }
}

/// The cached result to serve, if any: the entry is used when the lookup
/// does not force a refresh and the entry has not expired yet.
pub fn cached_lookup(entry: Option<&ApexCacheEntry>, force_refresh: bool, now: i64) -> (r: Option<ApexLookupResult>)
    ensures
        match r {
            Some(res) => !force_refresh && entry is Some && entry->0.expires_at > now && is_result_of_entry(res, *entry->0),
            None => force_refresh || entry is None || entry->0.expires_at <= now,
        },
{
    if force_refresh {
        return None;
    }
    match entry {
        Some(e) => if e.expires_at > now {
            Some(result_from_cache_entry(e))
        } else {
            None
        },
        None => None,
    }
}

/// The cache's entries by key; a later entry for a key stands over an
/// earlier one.
pub open spec fn cache_map(entries: Seq<(String, ApexCacheEntry)>) -> Map<Seq<char>, ApexCacheEntry>
    decreases entries.len(),
{
    if entries.len() == 0 {
        Map::empty()
    } else {
        cache_map(entries.drop_last()).insert(entries.last().0@, entries.last().1)
    }
}

/// The entry the cache holds for a key, if any.
pub fn find_cache_entry<'a>(entries: &'a Vec<(String, ApexCacheEntry)>, key: &str) -> (r: Option<&'a ApexCacheEntry>)
    ensures
        r is Some <==> cache_map(entries@).contains_key(key@),
        r matches Some(e) ==> *e == cache_map(entries@)[key@],
{
    let mut i: usize = entries.len();
    proof {
        assert(entries@.take(i as int) =~= entries@);
    }
    while i > 0
        invariant
            i <= entries@.len(),
            cache_map(entries@).contains_key(key@) <==> cache_map(entries@.take(i as int)).contains_key(key@),
            cache_map(entries@).contains_key(key@) ==> cache_map(entries@)[key@] == cache_map(
                entries@.take(i as int),
            )[key@],
        decreases i,
    {
        let j: usize = i - 1;
        proof {
            assert(entries@.take(i as int).drop_last() =~= entries@.take(j as int));
            assert(entries@.take(i as int).last() == entries@[j as int]);
        }
        if text_eq(entries[j].0.as_str(), key) {
            return Some(&entries[j].1);
        }
        i = j;
    }
    None
}

/// The cached result to serve for a key, if any: the key's entry when the
/// lookup does not force a refresh and the entry has not expired yet.
pub fn lookup_in_cache(entries: &Vec<(String, ApexCacheEntry)>, key: &str, force_refresh: bool, now: i64) -> (r:
    Option<ApexLookupResult>)
    ensures
        r is Some <==> !force_refresh && cache_map(entries@).contains_key(key@) && cache_map(entries@)[key@].expires_at
            > now,
        r matches Some(res) ==> is_result_of_entry(res, cache_map(entries@)[key@]),
{
    cached_lookup(find_cache_entry(entries, key), force_refresh, now)
}

/// Stores a fetched result under its key: the key then maps to the entry
/// recording the result, and every other key keeps its entry.
pub fn store_fetched_result(
    entries: &mut Vec<(String, ApexCacheEntry)>,
    key: String,
    result: &ApexLookupResult,
    settings: &ApexLookupSettings,
)
    requires
        expiry_defined(result.fetched_at, result.status, *settings),
    ensures
        cache_map(final(entries)@).dom() == cache_map(old(entries)@).dom().insert(key@),
        is_entry_of(cache_map(final(entries)@)[key@], *result, *settings),
        forall|k: Seq<char>|
            k != key@ && cache_map(old(entries)@).contains_key(k) ==> #[trigger] cache_map(final(entries)@)[k]
                == cache_map(old(entries)@)[k],
{
    let entry = cache_entry_from_result(result, settings);
    let ghost before = entries@;
    entries.push((key, entry));
    proof {
        assert(entries@.drop_last() =~= before);
    }
}

#[derive(Debug, Clone, PartialEq, Eq)]
pub struct ApexCacheReportEntry {
    pub cache_key: String,
    pub champion_name: String,
    pub augment_name: String,
    pub source_url: String,
    pub fetched_at: i64,
    pub expires_at: i64,
    pub expired: bool,
    pub status: ApexParseStatus,
    pub error: Option<String>,
}

#[derive(Debug, Clone, PartialEq, Eq)]
pub struct ApexCacheReport {
    pub cache_path: String,
    pub generated_at: i64,
    pub total_entries: usize,
    pub ok_entries: usize,
    pub failed_entries: usize,
    pub expired_entries: usize,
    pub entries: Vec<ApexCacheReportEntry>,
}

/// The number of entries whose status is `Found`.
pub open spec fn count_ok(entries: Seq<ApexCacheReportEntry>) -> nat
    decreases entries.len(),
{
    if entries.len() == 0 {
        0
    } else {
        count_ok(entries.drop_last()) + if entries.last().status == ApexParseStatus::Found {
            1nat
        } else {
            0nat
        }
    }
}

/// The number of expired entries.
pub open spec fn count_expired(entries: Seq<ApexCacheReportEntry>) -> nat
    decreases entries.len(),
{
    if entries.len() == 0 {
        0
    } else {
        count_expired(entries.drop_last()) + if entries.last().expired {
            1nat
        } else {
            0nat
        }
    }
}

proof fn lemma_count_ok_bound(entries: Seq<ApexCacheReportEntry>)
    ensures
        count_ok(entries) <= entries.len(),
        count_expired(entries) <= entries.len(),
    decreases entries.len(),
{
    if entries.len() > 0 {
        lemma_count_ok_bound(entries.drop_last());
    }
}

/// Whether `r` reports the cache entry `e` under key `key` at time `now`.
pub open spec fn reports_entry(r: ApexCacheReportEntry, key: Seq<char>, e: ApexCacheEntry, now: i64) -> bool {
    &&& r.cache_key@ == key
    &&& r.champion_name@ == e.champion_name@
    &&& r.augment_name@ == e.augment_name@
    &&& r.source_url@ == e.source_url@
    &&& r.fetched_at == e.fetched_at
    &&& r.expires_at == e.expires_at
    &&& r.expired == (e.expires_at <= now)
    &&& r.status == e.status
    &&& ov(r.error) == ov(e.error)
}

/// The report on the cache entries (by key, in key order) at time `now`.
pub fn build_cache_report(cache_path: String, entries: &Vec<(String, ApexCacheEntry)>, now: i64) -> (r: ApexCacheReport)
    ensures
        r.cache_path@ == cache_path@,
        r.generated_at == now,
        r.entries@.len() == entries@.len(),
        forall|i: int| 0 <= i < entries@.len() ==> reports_entry(#[trigger] r.entries@[i], entries@[i].0@, entries@[i].1, now),
        r.total_entries == entries@.len(),
        r.ok_entries == count_ok(r.entries@),
        r.failed_entries == entries@.len() - count_ok(r.entries@),
        r.expired_entries == count_expired(r.entries@),
{
    let mut out: Vec<ApexCacheReportEntry> = Vec::new();
    let mut ok: usize = 0;
    let mut expired: usize = 0;
    let mut i: usize = 0;
    while i < entries.len()
        invariant
            0 <= i <= entries@.len(),
            out@.len() == i,
            forall|k: int| 0 <= k < i ==> reports_entry(#[trigger] out@[k], entries@[k].0@, entries@[k].1, now),
            ok == count_ok(out@),
            expired == count_expired(out@),
        decreases entries@.len() - i,
    {
        let (key, e) = (&entries[i].0, &entries[i].1);
        let report = ApexCacheReportEntry {
            cache_key: key.clone(),
            champion_name: e.champion_name.clone(),
            augment_name: e.augment_name.clone(),
            source_url: e.source_url.clone(),
            fetched_at: e.fetched_at,
            expires_at: e.expires_at,
            expired: e.expires_at <= now,
            status: e.status,
            error: copy_opt(&e.error),
        };
        proof {
            lemma_count_ok_bound(out@);
        }
        if report.status == ApexParseStatus::Found {
            ok = ok + 1;
        }
        if report.expired {
            expired = expired + 1;
        }
        let ghost before = out@;
        out.push(report);
        proof {
            assert(out@.drop_last() =~= before);
        }
        i = i + 1;
    }
    proof {
        lemma_count_ok_bound(out@);
    }
    ApexCacheReport {
        cache_path: cache_path,
        generated_at: now,
        total_entries: out.len(),
        ok_entries: ok,
        failed_entries: out.len() - ok,
        expired_entries: expired,
        entries: out,
    }
}

// ---------------------------------------------------------------------------
// Laws
// ---------------------------------------------------------------------------

/// A stored result is served exactly until its expiry, one TTL after the
/// fetch: the data TTL in hours for found data, the failure TTL in minutes
/// otherwise (each as configured, when it fits a signed 64-bit number).
pub proof fn lemma_entry_served_until_expiry(
    result: ApexLookupResult,
    settings: ApexLookupSettings,
    entry: ApexCacheEntry,
    now: i64,
)
    requires
        is_entry_of(entry, result, settings),
    ensures
        entry.expires_at > now <==> now < result.fetched_at + ttl_ms(result.status, settings),
        result.status == ApexParseStatus::Found && settings.cache_ttl_hours <= i64::MAX ==> ttl_ms(result.status, settings)
            == settings.cache_ttl_hours * 3_600_000,
        result.status != ApexParseStatus::Found && settings.failed_cache_ttl_minutes <= i64::MAX ==> ttl_ms(
            result.status,
            settings,
        ) == settings.failed_cache_ttl_minutes * 60_000,
{
}

/// The lookup form of ASCII texts ignores letter case: two texts that agree
/// letter for letter up to case have the same lookup form (and so two such
/// pairs of names have the same cache key).
pub proof fn lemma_ascii_lookup_ignores_case(s: Seq<char>, t: Seq<char>)
    requires
        s.len() == t.len(),
        forall|i: int| 0 <= i < s.len() ==> ascii_lowercase(#[trigger] s[i]) == ascii_lowercase(t[i]),
        is_ascii_text(s),
        is_ascii_text(t),
    ensures
        ascii_lookup_text(s) == ascii_lookup_text(t),
    decreases s.len(),
{
    if s.len() > 0 {
        let n = s.len() - 1;
        assert forall|i: int| 0 <= i < s.drop_last().len() implies ascii_lowercase(#[trigger] s.drop_last()[i])
            == ascii_lowercase(t.drop_last()[i]) by {
            assert(ascii_lowercase(s[i]) == ascii_lowercase(t[i]));
        }
        assert(is_ascii_text(s.drop_last()) && is_ascii_text(t.drop_last())) by {
            assert forall|i: int| 0 <= i < s.drop_last().len() implies (#[trigger] s.drop_last()[i] as u32) < 128 by {
                assert((s[i] as u32) < 128);
            }
            assert forall|i: int| 0 <= i < t.drop_last().len() implies (#[trigger] t.drop_last()[i] as u32) < 128 by {
                assert((t[i] as u32) < 128);
            }
        }
        lemma_ascii_lookup_ignores_case(s.drop_last(), t.drop_last());
        assert(ascii_lowercase(s[n]) == ascii_lowercase(t[n]));
        assert((s[n] as u32) < 128 && (t[n] as u32) < 128);
        assert(dropped_in_lookup(s[n]) == dropped_in_lookup(t[n]));
    }
}

/// Each of the six ApexLOL ratings (SS, S, A, B, C, D) is read as the
/// champion's rating: for every champion, a page whose text is the
/// champion's line followed by the rating, and nothing more, gives that
/// rating with no summary.
pub proof fn lemma_every_rating_is_recognized(champion: Seq<char>, rating: Seq<char>)
    requires
        rating == "SS"@ || rating == "S"@ || rating == "A"@ || rating == "B"@ || rating == "C"@ || rating == "D"@,
    ensures
        spec_champion_rating(seq![champion, rating], champion) == Some((rating, None::<Seq<char>>)),
{
    let text = seq![champion, rating];
    let target = lookup_text(champion);
    reveal_strlit("SS");
    reveal_strlit("S");
    reveal_strlit("A");
    reveal_strlit("B");
    reveal_strlit("C");
    reveal_strlit("D");
    assert(lookup_text(text[0]) == target);
    let i = choose|i: int|
        0 <= i < text.len() && lookup_text(text[i]) == target && forall|k: int|
            0 <= k < i ==> lookup_text(#[trigger] text[k]) != target;
    assert(0 <= i < text.len() && lookup_text(text[i]) == target && forall|k: int|
            0 <= k < i ==> lookup_text(#[trigger] text[k]) != target) by {
        assert(0 < text.len() && lookup_text(text[0]) == target && forall|k: int|
            0 <= k < 0 ==> lookup_text(#[trigger] text[k]) != target);
    }
    if i > 0 {
        assert(lookup_text(text[0]) != target);
    }
    assert(i == 0);
    crate::text::lemma_trim_unique(rating);
    assert(rating.subrange(0, rating.len() as int) =~= rating);
    assert(crate::text::is_trim_of(rating, rating)) by {
        assert(!is_whitespace(rating[0]));
        assert(!is_whitespace(rating[rating.len() - 1]));
    }
    assert(trimmed(text[1]) == rating);
    assert(text[1] == rating);
    assert(first_where(text, 1, 4, |v: Seq<char>| is_rating(trimmed(v))) == Some(1int));
    assert(first_content(text, 2, 5) is None);
}

/// Serving a stored result gives back what was stored: the fields of the
/// fetched result and of its request, now marked as a cache hit, with the
/// request log telling the stored status and error; the entry expires one
/// TTL after the fetch (the data TTL for found data, the failure TTL
/// otherwise).
pub proof fn lemma_cache_round_trip(
    result: ApexLookupResult,
    settings: ApexLookupSettings,
    entry: ApexCacheEntry,
    served: ApexLookupResult,
)
    requires
        is_entry_of(entry, result, settings),
        is_result_of_entry(served, entry),
    ensures
        served.champion_name@ == result.champion_name@,
        served.augment_name@ == result.augment_name@,
        ov(served.rating) == ov(result.rating),
        served.summary@ == result.summary@,
        ov(served.tip) == ov(result.tip),
        served.source_url@ == result.source_url@,
        served.fetched_at == result.fetched_at,
        served.status == result.status,
        ov(served.error) == ov(result.error),
        served.source@ == result.source@,
        served.request_log.request_url@ == result.request_log.request_url@,
        served.request_log.duration_ms == result.request_log.duration_ms,
        served.cache_hit,
        served.request_log.cache_hit,
        served.request_log.parse_status == result.status,
        ov(served.request_log.failure_reason) == ov(result.error),
        entry.expires_at == result.fetched_at + ttl_ms(result.status, settings),
        result.status == ApexParseStatus::Found ==> entry.expires_at == result.fetched_at + signed_count(
            settings.cache_ttl_hours,
        ) * 3_600_000,
        result.status != ApexParseStatus::Found ==> entry.expires_at == result.fetched_at + signed_count(
            settings.failed_cache_ttl_minutes,
        ) * 60_000,
{
}

/// Every cache entry is counted once: found or failed.
pub proof fn lemma_report_counts_partition(report: ApexCacheReport)
    requires
        report.ok_entries == count_ok(report.entries@),
        report.failed_entries == report.entries@.len() - count_ok(report.entries@),
        report.total_entries == report.entries@.len(),
    ensures
        report.ok_entries + report.failed_entries == report.total_entries,
        report.expired_entries == count_expired(report.entries@) ==> report.expired_entries <= report.total_entries,
{
    lemma_count_ok_bound(report.entries@);
}

/// A lookup without a rating for the champion never claims data: its status
/// is not `Found`, it has no rating and its summary is "暂无数据".
pub proof fn lemma_no_rating_no_fake_data(
    r: ApexLookupResult,
    text: Seq<Seq<char>>,
    source_url: Seq<char>,
    champion: Seq<char>,
    augment: Seq<char>,
    request_url: Seq<char>,
    duration_ms: u128,
    now: i64,
)
    requires
        detail_result_holds(r, text, source_url, champion, augment, request_url, duration_ms, now),
        spec_champion_rating(text, champion) is None,
    ensures
        r.status == ApexParseStatus::ParseFailed,
        r.rating is None,
        r.summary@ == NO_DATA_TEXT@,
        r.error is Some,
{
}


/// Where the lookup cache of a cache directory is kept.
pub fn cache_path(cache_dir: &str) -> (r: String)
    ensures
        r@ == crate::text::joined(crate::text::joined(cache_dir@, "apex-cache"@), "cache.json"@),
{
    let dir = crate::text::join_path(cache_dir, "apex-cache");
    crate::text::join_path(dir.as_str(), "cache.json")
}

} // verus!
