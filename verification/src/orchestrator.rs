//! Runtime orchestration rules: which Live Client results pause the runtime,
//! when the panel is read, what the overlay shows for each visible choice,
//! how often the listener polls, and the bounded log of recent runtime events.
use vstd::prelude::*;
use crate::apex::{ApexLookupResult, ApexParseStatus, APEX_SOURCE_NAME, NO_DATA_TEXT, ov};
use crate::live_client::{
    error_code_text, error_message, pause_reason_text, result_category_text, LiveClientError, LiveClientErrorView,
    ResolvedPlayerSnapshot,
};
use crate::ocr::{AugmentDictionary, AugmentEntry};
use crate::models::CaptureSettings;
use crate::overlay::{slot_views, OverlaySlotData, RuntimeOverlaySyncAction, RuntimeOverlaySyncReport, SlotDataModel};
use crate::models::ApexLolSettings;
use crate::apex::ApexLookupSettings;
use crate::state_machine::{
    visible_view, choice_views, events_view, player_view, spec_apply, AssistantState, AssistantStateMachine, AugmentChoice,
    EventModel, InputModel, LivePlayerSnapshot, PanelState, PauseReason, PlayerModel, StateMachineInput,
    StateModel, StateTransitionEvent,
};
use crate::text::{
    str_opt,    char_is_whitespace, decimal, is_whitespace, join_with, lowercase_text, owned, push_char, str_lowercase, push_decimal, push_joined, push_str, squeeze, squeeze_whitespace,
    text_eq, texts, trimmed, trimmed_owned,
};

verus! {

broadcast use vstd::std_specs::btree::group_btree_axioms, vstd::laws_cmp::group_laws_cmp;

// ---------------------------------------------------------------------------
// Overlay texts
// ---------------------------------------------------------------------------


/// A text trimmed, or nothing when only whitespace is left.
pub open spec fn spec_normalized_text(v: Seq<char>) -> Option<Seq<char>> {
    let t = trimmed(v);
    if t.len() == 0 {
        None
    } else {
        Some(t)
    }
}

/// An optional text trimmed, or nothing when absent or blank.
pub open spec fn spec_normalized_option(v: Option<Seq<char>>) -> Option<Seq<char>> {
    match v {
        Some(x) => spec_normalized_text(x),
        None => None,
    }
}

/// A summary for display: trimmed, "暂无数据" when blank.
pub open spec fn spec_normalized_summary(v: Seq<char>) -> Seq<char> {
    match spec_normalized_text(v) {
        Some(t) => t,
        None => NO_DATA_TEXT@,
    }
}

/// A text trimmed, or nothing when only whitespace is left.
pub fn normalize_overlay_text(value: &str) -> (r: Option<String>)
    ensures
        ov(r) == spec_normalized_text(value@),
{
    let t = trimmed_owned(value);
    if t.as_str().unicode_len() == 0 {
        None
    } else {
        Some(t)
    }
}

/// An optional text trimmed, or nothing when absent or blank.
pub fn normalize_overlay_text_option(value: Option<&str>) -> (r: Option<String>)
    ensures
        ov(r) == spec_normalized_option(str_opt(value)),
{
    match value {
        Some(v) => normalize_overlay_text(v),
        None => None,
    }
}

/// A summary for display: trimmed, "暂无数据" when blank.
pub fn normalize_overlay_summary(summary: &str) -> (r: String)
    ensures
        r@ == spec_normalized_summary(summary@),
{
    match normalize_overlay_text(summary) {
        Some(t) => t,
        None => owned(NO_DATA_TEXT),
    }
}

/// An error message on one line: whitespace runs collapsed to single spaces.
pub fn shrink_error_message(value: &str) -> (r: String)
    ensures
        r@ == squeeze_whitespace(value@),
{
    squeeze(value)
}

/// The card body: the summary, then the tips joined by "；" when there are
/// any, then the insight when it is not blank, separated by spaces.
pub open spec fn spec_overlay_body(summary: Seq<char>, tips: Seq<Seq<char>>, insight: Option<Seq<char>>) -> Seq<char> {
    let head = "摘要："@ + summary;
    let with_tips = if tips.len() > 0 {
        head + " 提醒："@ + join_with(tips, "；"@)
    } else {
        head
    };
    match spec_normalized_option(insight) {
        Some(i) => with_tips + " 结论："@ + i,
        None => with_tips,
    }
}

/// The card body of an overlay slot.
pub fn build_overlay_body(summary: &str, tips: &Vec<String>, insight: Option<&str>) -> (r: String)
    ensures
        r@ == spec_overlay_body(summary@, texts(tips@), str_opt(insight)),
{
    let mut out = owned("摘要：");
    push_str(&mut out, summary);
    if tips.len() > 0 {
        push_str(&mut out, " 提醒：");
        push_joined(&mut out, tips, "；");
    }
    match normalize_overlay_text_option(insight) {
        Some(i) => {
            push_str(&mut out, " 结论：");
            push_str(&mut out, i.as_str());
        },
        None => {},
    }
    out
}

/// The tips of a card: the effect description when it is not blank and
/// differs from the summary.
pub open spec fn spec_overlay_tips(tip: Option<Seq<char>>, summary: Option<Seq<char>>) -> Seq<Seq<char>> {
    let s = spec_normalized_option(summary);
    match spec_normalized_option(tip) {
        Some(t) => if s == Some(t) {
            Seq::empty()
        } else {
            seq![t]
        },
        None => Seq::empty(),
    }
}

/// The tips of an overlay card.
pub fn build_overlay_tips(tip: Option<&str>, summary: Option<&str>) -> (r: Vec<String>)
    ensures
        texts(r@) == spec_overlay_tips(str_opt(tip), str_opt(summary)),
{
    let s = normalize_overlay_text_option(summary);
    let mut out: Vec<String> = Vec::new();
    match normalize_overlay_text_option(tip) {
        Some(t) => {
            let same = match &s {
                Some(sv) => text_eq(sv.as_str(), t.as_str()),
                None => false,
            };
            if !same {
                out.push(t);
            }
        },
        None => {},
    }
    assert(texts(out@) =~= spec_overlay_tips(str_opt(tip), str_opt(summary)));
    out
}

/// The insight line of a card backed by data.
pub open spec fn spec_success_insight(champion: Seq<char>, tier: u8, augment: Seq<char>, rating: Option<Seq<char>>) -> Seq<char> {
    match spec_normalized_option(rating) {
        Some(r) => champion + " 第 "@ + decimal(tier as nat) + " 档选择「"@ + augment + "」的 ApexLOL 评级为 "@ + r,
        None => champion + " 第 "@ + decimal(tier as nat) + " 档可重点关注「"@ + augment + "」"@,
    }
}

/// The insight line of a card backed by data.
pub fn build_success_insight(champion_name: &str, pending_tier: u8, augment_name: &str, rating: Option<&str>) -> (r: String)
    ensures
        r@ == spec_success_insight(champion_name@, pending_tier, augment_name@, str_opt(rating)),
{
    let mut out = owned(champion_name);
    push_str(&mut out, " 第 ");
    push_decimal(&mut out, pending_tier as u128);
    match normalize_overlay_text_option(rating) {
        Some(r) => {
            push_str(&mut out, " 档选择「");
            push_str(&mut out, augment_name);
            push_str(&mut out, "」的 ApexLOL 评级为 ");
            push_str(&mut out, r.as_str());
        },
        None => {
            push_str(&mut out, " 档可重点关注「");
            push_str(&mut out, augment_name);
            push_str(&mut out, "」");
        },
    }
    out
}

/// Where the data of a card came from: the cache or a live fetch, and the page.
pub open spec fn spec_success_source_detail(cache_hit: bool, source_url: Seq<char>) -> Seq<char> {
    (if cache_hit {
        "缓存命中"@
    } else {
        "实时抓取"@
    }) + " · "@ + source_url
}

/// Where the data of a card came from.
pub fn build_success_source_detail(result: &ApexLookupResult) -> (r: String)
    ensures
        r@ == spec_success_source_detail(result.cache_hit, result.source_url@),
{
    let mut out = if result.cache_hit {
        owned("缓存命中")
    } else {
        owned("实时抓取")
    };
    push_str(&mut out, " · ");
    push_str(&mut out, result.source_url.as_str());
    out
}

/// Why a card fell back, by lookup status.
pub open spec fn failure_reason_text(status: ApexParseStatus) -> Seq<char> {
    match status {
        ApexParseStatus::NoData => "未找到联动数据"@,
        ApexParseStatus::RequestFailed => "请求失败"@,
        ApexParseStatus::ParseFailed => "页面解析失败"@,
        ApexParseStatus::Found => "已回退到兜底展示"@,
    }
}

/// The source detail of a fallback card: the reason, then the error on one
/// line when there is one that is not blank.
pub open spec fn spec_failure_source_detail(status: ApexParseStatus, error: Option<Seq<char>>) -> Seq<char> {
    let reason = failure_reason_text(status);
    match error {
        Some(e) => {
            let m = squeeze_whitespace(e);
            if m.len() > 0 {
                reason + " · "@ + m
            } else {
                reason
            }
        },
        None => reason,
    }
}

/// The source detail of a fallback card.
pub fn build_failure_source_detail(status: ApexParseStatus, error: Option<&str>) -> (r: String)
    ensures
        r@ == spec_failure_source_detail(status, str_opt(error)),
{
    let mut out = match status {
        ApexParseStatus::NoData => owned("未找到联动数据"),
        ApexParseStatus::RequestFailed => owned("请求失败"),
        ApexParseStatus::ParseFailed => owned("页面解析失败"),
        ApexParseStatus::Found => owned("已回退到兜底展示"),
    };
    match error {
        Some(e) => {
            let m = shrink_error_message(e);
            if m.as_str().unicode_len() > 0 {
                push_str(&mut out, " · ");
                push_str(&mut out, m.as_str());
            }
        },
        None => {},
    }
    out
}


// ---------------------------------------------------------------------------
// Overlay slot data
// ---------------------------------------------------------------------------

/// A visible choice resolved against the augment dictionary: the title to
/// show, the dictionary id when one matched, and the name to look up.
#[derive(Debug, Clone, PartialEq, Eq)]
pub struct RuntimeOverlayResolvedChoice {
    pub slot: u8,
    pub raw_name: String,
    pub title: String,
    pub augment_id: Option<String>,
    pub lookup_name: String,
}

pub struct ResolvedChoiceModel {
    pub slot: u8,
    pub raw_name: Seq<char>,
    pub title: Seq<char>,
    pub augment_id: Option<Seq<char>>,
    pub lookup_name: Seq<char>,
}

impl View for RuntimeOverlayResolvedChoice {
    type V = ResolvedChoiceModel;

    open spec fn view(&self) -> ResolvedChoiceModel {
        ResolvedChoiceModel {
            slot: self.slot,
            raw_name: self.raw_name@,
            title: self.title@,
            augment_id: ov(self.augment_id),
            lookup_name: self.lookup_name@,
        }
    }
}

/// The summary of a card without data.
pub open spec fn fallback_summary(title: Seq<char>) -> Seq<char> {
    "暂无数据：未找到「"@ + title + "」的联动推荐"@
}

/// The tip of a card without data.
pub open spec fn fallback_tip(champion: Seq<char>, tier: u8) -> Seq<char> {
    champion + " 第 "@ + decimal(tier as nat) + " 档请结合阵容、装备和经济节奏手动判断"@
}

/// The insight of a card without data.
pub open spec fn fallback_insight(champion: Seq<char>, tier: u8) -> Seq<char> {
    champion + " · 第 "@ + decimal(tier as nat) + " 档 · 使用兜底展示"@
}

/// A card without data: no rank and no score, a "暂无数据" summary, a tip to
/// judge by hand, and the given source.
pub open spec fn spec_fallback_slot(
    champion: Seq<char>,
    tier: u8,
    choice: ResolvedChoiceModel,
    augment_id: Option<Seq<char>>,
    source_label: Option<Seq<char>>,
    source_detail: Seq<char>,
) -> SlotDataModel {
    let summary = fallback_summary(choice.title);
    let tips = seq![fallback_tip(champion, tier)];
    let insight = fallback_insight(champion, tier);
    SlotDataModel {
        slot: choice.slot,
        title: choice.title,
        body: Some(spec_overlay_body(summary, tips, Some(insight))),
        augment_id,
        rank: None,
        score: None,
        summary: Some(summary),
        tips: Some(tips),
        source_label,
        source_detail: Some(source_detail),
        insight: Some(insight),
    }
}

/// The overlay data of a slot for which no data was found.
pub fn build_fallback_overlay_slot_data(
    champion_name: &str,
    pending_tier: u8,
    choice: RuntimeOverlayResolvedChoice,
    augment_id: Option<String>,
    source_label: Option<String>,
    source_detail: String,
) -> (r: OverlaySlotData)
    ensures
        r@ == spec_fallback_slot(champion_name@, pending_tier, choice@, ov(augment_id), ov(source_label), source_detail@),
{
    let ghost c = choice@;
    let mut summary = owned("暂无数据：未找到「");
    push_str(&mut summary, choice.title.as_str());
    push_str(&mut summary, "」的联动推荐");
    let mut tip = owned(champion_name);
    push_str(&mut tip, " 第 ");
    push_decimal(&mut tip, pending_tier as u128);
    push_str(&mut tip, " 档请结合阵容、装备和经济节奏手动判断");
    let mut insight = owned(champion_name);
    push_str(&mut insight, " · 第 ");
    push_decimal(&mut insight, pending_tier as u128);
    push_str(&mut insight, " 档 · 使用兜底展示");
    let mut tips: Vec<String> = Vec::new();
    tips.push(tip);
    assert(texts(tips@) =~= seq![fallback_tip(champion_name@, pending_tier)]);
    let body = build_overlay_body(summary.as_str(), &tips, Some(insight.as_str()));
    let r = OverlaySlotData {
        slot: choice.slot,
        title: choice.title,
        body: Some(body),
        augment_id: augment_id,
        rank: None,
        score: None,
        summary: Some(summary),
        tips: Some(tips),
        source_label: source_label,
        source_detail: Some(source_detail),
        insight: Some(insight),
    };
    assert(r@ =~= spec_fallback_slot(champion_name@, pending_tier, c, ov(augment_id), ov(source_label), source_detail@));
    r
}

/// The id a card carries: the dictionary id, or the raw name when none matched.
pub open spec fn carried_augment_id(choice: ResolvedChoiceModel) -> Option<Seq<char>> {
    match choice.augment_id {
        Some(a) => Some(a),
        None => Some(choice.raw_name),
    }
}

/// A card backed by found data: the trimmed summary, the effect description
/// as tip when it adds something, the rating as rank, and where it came from.
pub open spec fn spec_success_slot(champion: Seq<char>, tier: u8, choice: ResolvedChoiceModel, result: ApexLookupResult) -> SlotDataModel {
    let summary = spec_normalized_summary(result.summary@);
    let tips = spec_overlay_tips(ov(result.tip), Some(summary));
    let insight = spec_success_insight(champion, tier, choice.title, ov(result.rating));
    SlotDataModel {
        slot: choice.slot,
        title: choice.title,
        body: Some(spec_overlay_body(summary, tips, Some(insight))),
        augment_id: carried_augment_id(choice),
        rank: spec_normalized_option(ov(result.rating)),
        score: None,
        summary: Some(summary),
        tips: if tips.len() > 0 {
            Some(tips)
        } else {
            None
        },
        source_label: Some(result.source@),
        source_detail: Some(spec_success_source_detail(result.cache_hit, result.source_url@)),
        insight: Some(insight),
    }
}

/// The overlay data of a slot given the outcome of its ApexLOL lookup: found
/// data makes a data card; any other status, or a failed lookup, a fallback
/// card that says why.
pub open spec fn spec_slot_data(
    champion: Seq<char>,
    tier: u8,
    choice: ResolvedChoiceModel,
    lookup: Result<ApexLookupResult, String>,
) -> SlotDataModel {
    match lookup {
        Ok(r) => if r.status == ApexParseStatus::Found {
            spec_success_slot(champion, tier, choice, r)
        } else {
            spec_fallback_slot(
                champion,
                tier,
                choice,
                carried_augment_id(choice),
                Some(r.source@),
                spec_failure_source_detail(r.status, ov(r.error)),
            )
        },
        Err(e) => spec_fallback_slot(
            champion,
            tier,
            choice,
            carried_augment_id(choice),
            Some(APEX_SOURCE_NAME@),
            "查询失败："@ + squeeze_whitespace(e@),
        ),
    }
}

fn as_str_opt(v: &Option<String>) -> (r: Option<&str>)
    ensures
        str_opt(r) == ov(*v),
{
    match v {
        Some(s) => Some(s.as_str()),
        None => None,
    }
}

/// The overlay data of a slot given the outcome of its ApexLOL lookup.
pub fn build_overlay_slot_data(
    champion_name: &str,
    pending_tier: u8,
    choice: RuntimeOverlayResolvedChoice,
    lookup: Result<ApexLookupResult, String>,
) -> (r: OverlaySlotData)
    ensures
        r@ == spec_slot_data(champion_name@, pending_tier, choice@, lookup),
{
    let ghost c = choice@;
    let fallback_augment_id = match &choice.augment_id {
        Some(a) => Some(a.clone()),
        None => Some(choice.raw_name.clone()),
    };
    match lookup {
        Ok(result) => {
            if result.status == ApexParseStatus::Found {
                let summary = normalize_overlay_summary(result.summary.as_str());
                let tips = build_overlay_tips(as_str_opt(&result.tip), Some(summary.as_str()));
                let insight = build_success_insight(
                    champion_name,
                    pending_tier,
                    choice.title.as_str(),
                    as_str_opt(&result.rating),
                );
                let body = build_overlay_body(summary.as_str(), &tips, Some(insight.as_str()));
                let rank = normalize_overlay_text_option(as_str_opt(&result.rating));
                let detail = build_success_source_detail(&result);
                let ghost tv = texts(tips@);
                let r = OverlaySlotData {
                    slot: choice.slot,
                    title: choice.title,
                    body: Some(body),
                    augment_id: fallback_augment_id,
                    rank: rank,
                    score: None,
                    summary: Some(summary),
                    tips: if tips.len() > 0 {
                        Some(tips)
                    } else {
                        None
                    },
                    source_label: Some(result.source.clone()),
                    source_detail: Some(detail),
                    insight: Some(insight),
                };
                assert(r@ =~= spec_success_slot(champion_name@, pending_tier, c, result));
                r
            } else {
                let detail = build_failure_source_detail(result.status, as_str_opt(&result.error));
                build_fallback_overlay_slot_data(
                    champion_name,
                    pending_tier,
                    choice,
                    fallback_augment_id,
                    Some(result.source.clone()),
                    detail,
                )
            }
        },
        Err(error) => {
            let mut detail = owned("查询失败：");
            let m = shrink_error_message(error.as_str());
            push_str(&mut detail, m.as_str());
            build_fallback_overlay_slot_data(
                champion_name,
                pending_tier,
                choice,
                fallback_augment_id,
                Some(owned(APEX_SOURCE_NAME)),
                detail,
            )
        },
    }
}


// ---------------------------------------------------------------------------
// Resolving visible choices
// ---------------------------------------------------------------------------

/// Whether a character is left out of overlay lookup text: whitespace and apostrophes.
pub open spec fn dropped_in_overlay_lookup(c: char) -> bool {
    is_whitespace(c) || c == '\'' || c == '’'
}

/// `s` without whitespace and apostrophes.
pub open spec fn without_dropped(s: Seq<char>) -> Seq<char>
    decreases s.len(),
{
    if s.len() == 0 {
        Seq::empty()
    } else {
        let prev = without_dropped(s.drop_last());
        if dropped_in_overlay_lookup(s.last()) {
            prev
        } else {
            prev.push(s.last())
        }
    }
}

/// The overlay lookup form of a name: trimmed, lowercased, whitespace and
/// apostrophes removed.
pub open spec fn overlay_lookup_text(s: Seq<char>) -> Seq<char> {
    without_dropped(str_lowercase(trimmed(s)))
}

/// The overlay lookup form of a name.
pub fn normalize_overlay_lookup_text(value: &str) -> (r: String)
    ensures
        r@ == overlay_lookup_text(value@),
{
    let t = trimmed_owned(value);
    let lower = lowercase_text(t.as_str());
    let n = lower.as_str().unicode_len();
    let mut out = String::new();
    let mut i: usize = 0;
    while i < n
        invariant
            0 <= i <= n,
            n == lower@.len(),
            lower@ == str_lowercase(trimmed(value@)),
            out@ == without_dropped(lower@.take(i as int)),
        decreases n - i,
    {
        let c = lower.as_str().get_char(i);
        proof {
            assert(lower@.take(i + 1).drop_last() =~= lower@.take(i as int));
        }
        if !(char_is_whitespace(c) || c == '\'' || c == '’') {
            push_char(&mut out, c);
        }
        i = i + 1;
    }
    assert(lower@.take(n as int) =~= lower@);
    out
}

/// Whether a dictionary entry is named by a lookup text: by its id, its name
/// or one of its aliases.
pub open spec fn entry_named(e: AugmentEntry, n: Seq<char>) -> bool {
    overlay_lookup_text(e.id@) == n || overlay_lookup_text(e.name@) == n || exists|j: int|
        0 <= j < e.aliases@.len() && overlay_lookup_text(#[trigger] e.aliases@[j]@) == n
}

/// The first dictionary entry named by a lookup text.
pub open spec fn first_named_entry(entries: Seq<AugmentEntry>, n: Seq<char>) -> Option<AugmentEntry>
    decreases entries.len(),
{
    if entries.len() == 0 {
        None
    } else if entry_named(entries[0], n) {
        Some(entries[0])
    } else {
        first_named_entry(entries.drop_first(), n)
    }
}

/// A visible choice resolved against the dictionary: the first entry named by
/// the raw name gives the title, the id and the lookup name; without one the
/// raw name serves for all three and no id is known.
pub open spec fn spec_resolved_choice(slot: u8, raw: Seq<char>, dictionary: Option<AugmentDictionary>) -> ResolvedChoiceModel {
    let found = match dictionary {
        Some(d) => first_named_entry(d.augments@, overlay_lookup_text(raw)),
        None => None,
    };
    match found {
        Some(e) => ResolvedChoiceModel {
            slot,
            raw_name: raw,
            title: e.name@,
            augment_id: Some(e.id@),
            lookup_name: e.name@,
        },
        None => ResolvedChoiceModel { slot, raw_name: raw, title: raw, augment_id: None, lookup_name: raw },
    }
}

fn entry_is_named(e: &AugmentEntry, n: &str) -> (r: bool)
    ensures
        r == entry_named(*e, n@),
{
    let id = normalize_overlay_lookup_text(e.id.as_str());
    if text_eq(id.as_str(), n) {
        return true;
    }
    let name = normalize_overlay_lookup_text(e.name.as_str());
    if text_eq(name.as_str(), n) {
        return true;
    }
    let mut j: usize = 0;
    while j < e.aliases.len()
        invariant
            0 <= j <= e.aliases@.len(),
            forall|k: int| 0 <= k < j ==> overlay_lookup_text(#[trigger] e.aliases@[k]@) != n@,
        decreases e.aliases@.len() - j,
    {
        let a = normalize_overlay_lookup_text(e.aliases[j].as_str());
        if text_eq(a.as_str(), n) {
            return true;
        }
        j = j + 1;
    }
    false
}

/// A visible choice resolved against the augment dictionary, if one is loaded.
pub fn resolve_overlay_choice(slot: u8, raw_name: &str, dictionary: Option<&AugmentDictionary>) -> (r: RuntimeOverlayResolvedChoice)
    ensures
        r@ == spec_resolved_choice(slot, raw_name@, match dictionary {
            Some(d) => Some(*d),
            None => None,
        }),
{
    let normalized = normalize_overlay_lookup_text(raw_name);
    match dictionary {
        Some(d) => {
            let ghost entries = d.augments@;
            let mut i: usize = 0;
            proof {
                assert(entries.skip(0) =~= entries);
            }
            while i < d.augments.len()
                invariant
                    0 <= i <= entries.len(),
                    entries == d.augments@,
                    dictionary == Some(d),
                    normalized@ == overlay_lookup_text(raw_name@),
                    first_named_entry(entries, normalized@) == first_named_entry(entries.skip(i as int), normalized@),
                decreases entries.len() - i,
            {
                proof {
                    assert(entries.skip(i as int).drop_first() =~= entries.skip(i + 1));
                    assert(entries.skip(i as int)[0] == entries[i as int]);
                }
                let e = &d.augments[i];
                if entry_is_named(e, normalized.as_str()) {
                    proof {
                        assert(entries.skip(i as int).len() > 0);
                        assert(first_named_entry(entries, normalized@) == Some(entries[i as int]));
                    }
                    let r = RuntimeOverlayResolvedChoice {
                        slot: slot,
                        raw_name: owned(raw_name),
                        title: e.name.clone(),
                        augment_id: Some(e.id.clone()),
                        lookup_name: e.name.clone(),
                    };
                    return r;
                }
                i = i + 1;
            }
            proof {
                assert(entries.skip(entries.len() as int) =~= Seq::<AugmentEntry>::empty());
            }
        },
        None => {},
    }
    RuntimeOverlayResolvedChoice {
        slot: slot,
        raw_name: owned(raw_name),
        title: owned(raw_name),
        augment_id: None,
        lookup_name: owned(raw_name),
    }
}


// ---------------------------------------------------------------------------
// Live Client results
// ---------------------------------------------------------------------------

/// Events kept in the runtime's recent-event log.
pub const RECENT_EVENT_LIMIT: usize = 40;

/// The shortest poll interval while a choice may be on screen.
pub const MIN_ACTIVE_LISTEN_INTERVAL_MS: u64 = 250;

/// The shortest poll interval while nothing is to be chosen.
pub const MIN_IDLE_LISTEN_INTERVAL_MS: u64 = 1500;

/// The game mode the runtime runs in.
pub const ALLOWED_GAME_MODE: &'static str = "KIWI";

/// The error code of a game in another mode.
pub const MODE_MISMATCH_ERROR_CODE: &'static str = "HEX-LIVE-CLIENT-MODE-MISMATCH";

/// The code of a character with ASCII upper-case letters folded to lower case.
pub open spec fn ascii_lower_code(c: char) -> int {
    if 65 <= (c as u32) && (c as u32) <= 90 {
        (c as u32) + 32
    } else {
        (c as u32) as int
    }
}

/// `str::eq_ignore_ascii_case` of std: equal up to ASCII letter case.
pub open spec fn eq_ignore_ascii_case(a: Seq<char>, b: Seq<char>) -> bool {
    a.len() == b.len() && forall|i: int| 0 <= i < a.len() ==> ascii_lower_code(#[trigger] a[i]) == ascii_lower_code(b[i])
}

fn lower_code(c: char) -> (r: u32)
    ensures
        r == ascii_lower_code(c),
{
    let v = c as u32;
    if 65 <= v && v <= 90 {
        v + 32
    } else {
        v
    }
}

pub(crate) fn ascii_case_eq(a: &str, b: &str) -> (r: bool)
    ensures
        r == eq_ignore_ascii_case(a@, b@),
{
    let n = a.unicode_len();
    if n != b.unicode_len() {
        return false;
    }
    let mut i: usize = 0;
    while i < n
        invariant
            0 <= i <= n,
            n == a@.len(),
            n == b@.len(),
            forall|k: int| 0 <= k < i ==> ascii_lower_code(#[trigger] a@[k]) == ascii_lower_code(b@[k]),
        decreases n - i,
    {
        if lower_code(a.get_char(i)) != lower_code(b.get_char(i)) {
            return false;
        }
        i = i + 1;
    }
    true
}

/// Whether the runtime runs in a game mode: a mode that, trimmed, is not
/// blank and equals "KIWI" up to ASCII case. An unknown mode is not allowed.
pub open spec fn spec_allowed_game_mode(mode: Option<Seq<char>>) -> bool {
    match mode {
        Some(m) => {
            let t = trimmed(m);
            t.len() > 0 && eq_ignore_ascii_case(t, ALLOWED_GAME_MODE@)
        },
        None => false,
    }
}

/// Whether the runtime runs in a game mode.
pub fn is_allowed_game_mode(game_mode: Option<&str>) -> (r: bool)
    ensures
        r == spec_allowed_game_mode(str_opt(game_mode)),
{
    match game_mode {
        Some(m) => {
            let t = trimmed_owned(m);
            t.as_str().unicode_len() > 0 && ascii_case_eq(t.as_str(), ALLOWED_GAME_MODE)
        },
        None => false,
    }
}

/// What one Live Client result means for the runtime: the player it brings,
/// or why the runtime pauses, with the error code and message to report.
#[derive(Debug, Clone, PartialEq, Eq)]
pub struct LiveOutcome {
    pub player: Option<LivePlayerSnapshot>,
    pub pause_reason: Option<PauseReason>,
    pub error_code: Option<String>,
    pub error_message: Option<String>,
    pub result_category: String,
}

pub struct LiveOutcomeModel {
    pub player: Option<PlayerModel>,
    pub pause_reason: Option<PauseReason>,
    pub error_code: Option<Seq<char>>,
    pub error_message: Option<Seq<char>>,
    pub result_category: Seq<char>,
}

impl View for LiveOutcome {
    type V = LiveOutcomeModel;

    open spec fn view(&self) -> LiveOutcomeModel {
        LiveOutcomeModel {
            player: crate::state_machine::player_view(self.player),
            pause_reason: self.pause_reason,
            error_code: ov(self.error_code),
            error_message: ov(self.error_message),
            result_category: self.result_category@,
        }
    }
}

/// The message of a game in another mode.
pub open spec fn mode_mismatch_message(mode: Option<Seq<char>>) -> Seq<char> {
    "当前模式 "@ + (match mode {
        Some(m) => m,
        None => "未知模式"@,
    }) + " 不在允许列表 [\"KIWI\"]，运行时暂停"@
}

/// The pause reason of a failed request: invalid data for an invalid
/// payload, an unavailable client otherwise.
pub open spec fn pause_reason_for(e: LiveClientErrorView) -> PauseReason {
    if pause_reason_text(e) == "InvalidLiveClientData"@ {
        PauseReason::InvalidLiveClientData
    } else {
        PauseReason::LiveClientUnavailable
    }
}

/// A Live Client result read by the runtime: a player in the allowed mode is
/// passed on; a player in another mode pauses the runtime as unsupported; a
/// failed request pauses it with the failure's reason, code and message.
pub open spec fn spec_live_outcome(live: Result<ResolvedPlayerSnapshot, LiveClientError>) -> LiveOutcomeModel {
    match live {
        Ok(s) => if spec_allowed_game_mode(ov(s.game_mode)) {
            LiveOutcomeModel {
                player: Some(PlayerModel { champion: s.champion_name@, level: s.level }),
                pause_reason: None,
                error_code: None,
                error_message: None,
                result_category: "success"@,
            }
        } else {
            LiveOutcomeModel {
                player: None,
                pause_reason: Some(PauseReason::UnsupportedGameMode),
                error_code: Some(MODE_MISMATCH_ERROR_CODE@),
                error_message: Some(mode_mismatch_message(ov(s.game_mode))),
                result_category: "success"@,
            }
        },
        Err(e) => LiveOutcomeModel {
            player: None,
            pause_reason: Some(pause_reason_for(e@)),
            error_code: Some(error_code_text(e@)),
            error_message: Some(error_message(e@)),
            result_category: result_category_text(e@),
        },
    }
}

/// What a Live Client result means for the runtime.
pub fn live_outcome(live: &Result<ResolvedPlayerSnapshot, LiveClientError>) -> (r: LiveOutcome)
    ensures
        r@ == spec_live_outcome(*live),
{
    match live {
        Ok(s) => {
            if is_allowed_game_mode(as_str_opt(&s.game_mode)) {
                LiveOutcome {
                    player: Some(LivePlayerSnapshot { champion_name: s.champion_name.clone(), level: s.level }),
                    pause_reason: None,
                    error_code: None,
                    error_message: None,
                    result_category: owned("success"),
                }
            } else {
                let mut message = owned("当前模式 ");
                match &s.game_mode {
                    Some(m) => push_str(&mut message, m.as_str()),
                    None => push_str(&mut message, "未知模式"),
                }
                push_str(&mut message, " 不在允许列表 [\"KIWI\"]，运行时暂停");
                LiveOutcome {
                    player: None,
                    pause_reason: Some(PauseReason::UnsupportedGameMode),
                    error_code: Some(owned(MODE_MISMATCH_ERROR_CODE)),
                    error_message: Some(message),
                    result_category: owned("success"),
                }
            }
        },
        Err(e) => {
            let reason = if text_eq(e.pause_reason(), "InvalidLiveClientData") {
                PauseReason::InvalidLiveClientData
            } else {
                PauseReason::LiveClientUnavailable
            };
            LiveOutcome {
                player: None,
                pause_reason: Some(reason),
                error_code: Some(owned(e.error_code())),
                error_message: Some(e.message()),
                result_category: owned(e.result_category()),
            }
        },
    }
}

/// The error code logged with the state-machine input: none without a pause;
/// the mode mismatch for an unsupported mode; otherwise the client being
/// unavailable after an HTTP failure, a payload problem in any other case.
pub open spec fn spec_input_error_code(pause_reason: Option<PauseReason>, category: Seq<char>) -> Option<Seq<char>> {
    match pause_reason {
        None => None,
        Some(PauseReason::UnsupportedGameMode) => Some(MODE_MISMATCH_ERROR_CODE@),
        Some(_) => if category == "http_error"@ {
            Some("HEX-LIVE-CLIENT-UNAVAILABLE"@)
        } else {
            Some("HEX-LIVE-CLIENT-PAYLOAD"@)
        },
    }
}

/// The error code logged with the state-machine input.
pub fn input_error_code(pause_reason: Option<PauseReason>, result_category: &str) -> (r: Option<&'static str>)
    ensures
        str_opt(r) == spec_input_error_code(pause_reason, result_category@),
{
    match pause_reason {
        None => None,
        Some(PauseReason::UnsupportedGameMode) => Some(MODE_MISMATCH_ERROR_CODE),
        Some(_) => if text_eq(result_category, "http_error") {
            Some("HEX-LIVE-CLIENT-UNAVAILABLE")
        } else {
            Some("HEX-LIVE-CLIENT-PAYLOAD")
        },
    }
}

/// The message recorded for a tick: why it paused, or that it refreshed.
pub open spec fn spec_tick_message(error_message: Option<Seq<char>>) -> Seq<char> {
    match error_message {
        Some(m) => "运行时编排暂停: "@ + m,
        None => "运行时编排完成一次状态刷新"@,
    }
}

/// The message recorded for a tick.
pub fn tick_message(error_message: Option<&str>) -> (r: String)
    ensures
        r@ == spec_tick_message(str_opt(error_message)),
{
    match error_message {
        Some(m) => {
            let mut out = owned("运行时编排暂停: ");
            push_str(&mut out, m);
            out
        },
        None => owned("运行时编排完成一次状态刷新"),
    }
}


// ---------------------------------------------------------------------------
// Panel snapshots, triggers and recorded events
// ---------------------------------------------------------------------------

/// What the calibrated panel shows: whether it is expanded, its choices and
/// the slot the player selected.
#[derive(Debug, Clone, PartialEq, Eq)]
pub struct CalibratedPanelSnapshot {
    pub panel_state: PanelState,
    pub choices: Vec<AugmentChoice>,
    pub selected_slot: Option<u8>,
}

pub struct PanelSnapshotModel {
    pub panel: PanelState,
    pub choices: Seq<(u8, Seq<char>)>,
    pub selected_slot: Option<u8>,
}

impl View for CalibratedPanelSnapshot {
    type V = PanelSnapshotModel;

    open spec fn view(&self) -> PanelSnapshotModel {
        PanelSnapshotModel { panel: self.panel_state, choices: choice_views(self.choices@), selected_slot: self.selected_slot }
    }
}

/// A collapsed panel without choices or selection.
pub open spec fn empty_panel() -> PanelSnapshotModel {
    PanelSnapshotModel { panel: PanelState::Collapsed, choices: Seq::empty(), selected_slot: None }
}

fn copy_choices(v: &Vec<AugmentChoice>) -> (r: Vec<AugmentChoice>)
    ensures
        choice_views(r@) == choice_views(v@),
{
    let mut out: Vec<AugmentChoice> = Vec::new();
    let mut i: usize = 0;
    while i < v.len()
        invariant
            0 <= i <= v@.len(),
            choice_views(out@) == choice_views(v@.take(i as int)),
        decreases v@.len() - i,
    {
        let ghost before = out@;
        let c = AugmentChoice { slot: v[i].slot, augment_id: v[i].augment_id.clone() };
        assert(c@ == v@[i as int]@);
        out.push(c);
        assert(out@ == before.push(c));
        assert(v@.take(i + 1) == v@.take(i as int).push(v@[i as int]));
        assert(choice_views(before.push(c)) =~= choice_views(before).push(c@));
        assert(choice_views(v@.take(i as int).push(v@[i as int])) =~= choice_views(v@.take(i as int)).push(v@[i as int]@));
        i = i + 1;
    }
    assert(v@.take(v@.len() as int) =~= v@);
    out
}

impl CalibratedPanelSnapshot {
    /// A collapsed panel without choices or selection.
    pub fn collapsed() -> (r: Self)
        ensures
            r@ == empty_panel(),
    {
        let r = CalibratedPanelSnapshot { panel_state: PanelState::Collapsed, choices: Vec::new(), selected_slot: None };
        assert(r@.choices =~= Seq::<(u8, Seq<char>)>::empty());
        r
    }

    /// A copy of the snapshot.
    pub fn copy(&self) -> (r: Self)
        ensures
            r@ == self@,
    {
        CalibratedPanelSnapshot {
            panel_state: self.panel_state,
            choices: copy_choices(&self.choices),
            selected_slot: self.selected_slot,
        }
    }
}

impl Default for CalibratedPanelSnapshot {
    fn default() -> (r: Self)
        ensures
            r@ == empty_panel(),
    {
        CalibratedPanelSnapshot::collapsed()
    }
}

#[derive(Debug, Clone, PartialEq, Eq)]
pub struct RuntimeTriggerRequest {
    pub panel_snapshot: Option<CalibratedPanelSnapshot>,
}

#[derive(Debug, Clone, Copy, PartialEq, Eq, Structural)]
pub enum RuntimeTriggerEvent {
    Manual,
    LowFrequencyPoll,
    ListenerStarted,
    ListenerStopped,
}

#[derive(Debug, Clone, PartialEq, Eq)]
pub struct RuntimeSlotChange {
    pub slot: u8,
    pub previous_value: Option<String>,
    pub next_value: Option<String>,
}

impl View for RuntimeSlotChange {
    type V = (u8, Option<Seq<char>>, Option<Seq<char>>);

    open spec fn view(&self) -> (u8, Option<Seq<char>>, Option<Seq<char>>) {
        (self.slot, ov(self.previous_value), ov(self.next_value))
    }
}

pub open spec fn slot_change_views(v: Seq<RuntimeSlotChange>) -> Seq<(u8, Option<Seq<char>>, Option<Seq<char>>)> {
    v.map_values(|c: RuntimeSlotChange| c@)
}

#[derive(Debug, Clone, PartialEq, Eq)]
pub struct RuntimeStructuredEvent {
    pub trace_id: String,
    pub occurred_at: String,
    pub trigger_event: RuntimeTriggerEvent,
    pub champion_name: Option<String>,
    pub level: Option<u8>,
    pub pending_tiers: Vec<u8>,
    pub state_events: Vec<StateTransitionEvent>,
    pub slot_changes: Vec<RuntimeSlotChange>,
    pub error_code: Option<String>,
    pub message: String,
}

pub struct RuntimeEventModel {
    pub trace_id: Seq<char>,
    pub occurred_at: Seq<char>,
    pub trigger_event: RuntimeTriggerEvent,
    pub champion_name: Option<Seq<char>>,
    pub level: Option<u8>,
    pub pending_tiers: Seq<u8>,
    pub state_events: Seq<EventModel>,
    pub slot_changes: Seq<(u8, Option<Seq<char>>, Option<Seq<char>>)>,
    pub error_code: Option<Seq<char>>,
    pub message: Seq<char>,
}

impl View for RuntimeStructuredEvent {
    type V = RuntimeEventModel;

    open spec fn view(&self) -> RuntimeEventModel {
        RuntimeEventModel {
            trace_id: self.trace_id@,
            occurred_at: self.occurred_at@,
            trigger_event: self.trigger_event,
            champion_name: ov(self.champion_name),
            level: self.level,
            pending_tiers: self.pending_tiers@,
            state_events: events_view(self.state_events@),
            slot_changes: slot_change_views(self.slot_changes@),
            error_code: ov(self.error_code),
            message: self.message@,
        }
    }
}

pub open spec fn event_log_view(v: Seq<RuntimeStructuredEvent>) -> Seq<RuntimeEventModel> {
    v.map_values(|e: RuntimeStructuredEvent| e@)
}

/// The slot changes among a tick's transitions: one for each transition that
/// names a slot, in order, with its previous and next value.
pub open spec fn slot_changes_of(events: Seq<EventModel>) -> Seq<(u8, Option<Seq<char>>, Option<Seq<char>>)>
    decreases events.len(),
{
    if events.len() == 0 {
        Seq::empty()
    } else {
        let prev = slot_changes_of(events.drop_last());
        let e = events.last();
        match e.slot {
            Some(slot) => prev.push((slot, e.previous_value, e.next_value)),
            None => prev,
        }
    }
}

fn copy_bytes(v: &Vec<u8>) -> (r: Vec<u8>)
    ensures
        r@ == v@,
{
    let mut out: Vec<u8> = Vec::new();
    let mut i: usize = 0;
    while i < v.len()
        invariant
            0 <= i <= v@.len(),
            out@ == v@.take(i as int),
        decreases v@.len() - i,
    {
        out.push(v[i]);
        assert(out@ =~= v@.take(i + 1));
        i = i + 1;
    }
    assert(v@.take(v@.len() as int) =~= v@);
    out
}

fn copy_text(v: &Option<String>) -> (r: Option<String>)
    ensures
        ov(r) == ov(*v),
{
    match v {
        Some(s) => Some(s.clone()),
        None => None,
    }
}

fn copy_transition(e: &StateTransitionEvent) -> (r: StateTransitionEvent)
    ensures
        r@ == e@,
{
    StateTransitionEvent {
        kind: e.kind,
        from_status: e.from_status,
        to_status: e.to_status,
        tier: e.tier,
        slot: e.slot,
        previous_value: copy_text(&e.previous_value),
        next_value: copy_text(&e.next_value),
        reason: e.reason,
    }
}

fn copy_transitions(v: &Vec<StateTransitionEvent>) -> (r: Vec<StateTransitionEvent>)
    ensures
        events_view(r@) == events_view(v@),
{
    let mut out: Vec<StateTransitionEvent> = Vec::new();
    let mut i: usize = 0;
    while i < v.len()
        invariant
            0 <= i <= v@.len(),
            events_view(out@) == events_view(v@.take(i as int)),
        decreases v@.len() - i,
    {
        let ghost before = out@;
        let x = copy_transition(&v[i]);
        out.push(x);
        proof {
            assert(v@.take(i + 1) == v@.take(i as int).push(v@[i as int]));
            assert(events_view(before.push(x)) =~= events_view(before).push(x@));
            assert(events_view(v@.take(i as int).push(v@[i as int])) =~= events_view(v@.take(i as int)).push(v@[i as int]@));
        }
        i = i + 1;
    }
    assert(v@.take(v@.len() as int) =~= v@);
    out
}

/// The slot changes among a tick's transitions.
pub fn slot_changes(events: &Vec<StateTransitionEvent>) -> (r: Vec<RuntimeSlotChange>)
    ensures
        slot_change_views(r@) == slot_changes_of(events_view(events@)),
{
    let ghost ev = events_view(events@);
    let mut out: Vec<RuntimeSlotChange> = Vec::new();
    let mut i: usize = 0;
    while i < events.len()
        invariant
            0 <= i <= events@.len(),
            ev == events_view(events@),
            slot_change_views(out@) == slot_changes_of(ev.take(i as int)),
        decreases events@.len() - i,
    {
        proof {
            assert(ev.take(i + 1).drop_last() =~= ev.take(i as int));
        }
        let e = &events[i];
        match e.slot {
            Some(slot) => {
                out.push(
                    RuntimeSlotChange {
                        slot: slot,
                        previous_value: copy_text(&e.previous_value),
                        next_value: copy_text(&e.next_value),
                    },
                );
                assert(slot_change_views(out@) =~= slot_changes_of(ev.take(i + 1)));
            },
            None => {
                assert(slot_change_views(out@) =~= slot_changes_of(ev.take(i + 1)));
            },
        }
        i = i + 1;
    }
    assert(ev.take(events@.len() as int) =~= ev);
    out
}

fn copy_slot_changes(v: &Vec<RuntimeSlotChange>) -> (r: Vec<RuntimeSlotChange>)
    ensures
        slot_change_views(r@) == slot_change_views(v@),
{
    let mut out: Vec<RuntimeSlotChange> = Vec::new();
    let mut i: usize = 0;
    while i < v.len()
        invariant
            0 <= i <= v@.len(),
            slot_change_views(out@) == slot_change_views(v@.take(i as int)),
        decreases v@.len() - i,
    {
        let ghost before = out@;
        let x = RuntimeSlotChange {
            slot: v[i].slot,
            previous_value: copy_text(&v[i].previous_value),
            next_value: copy_text(&v[i].next_value),
        };
        out.push(x);
        proof {
            assert(v@.take(i + 1) == v@.take(i as int).push(v@[i as int]));
            assert(slot_change_views(before.push(x)) =~= slot_change_views(before).push(x@));
            assert(slot_change_views(v@.take(i as int).push(v@[i as int])) =~= slot_change_views(v@.take(i as int)).push(v@[i as int]@));
        }
        i = i + 1;
    }
    assert(v@.take(v@.len() as int) =~= v@);
    out
}

impl RuntimeStructuredEvent {
    /// A copy of the event.
    pub fn copy(&self) -> (r: Self)
        ensures
            r@ == self@,
    {
        RuntimeStructuredEvent {
            trace_id: self.trace_id.clone(),
            occurred_at: self.occurred_at.clone(),
            trigger_event: self.trigger_event,
            champion_name: copy_text(&self.champion_name),
            level: self.level,
            pending_tiers: copy_bytes(&self.pending_tiers),
            state_events: copy_transitions(&self.state_events),
            slot_changes: copy_slot_changes(&self.slot_changes),
            error_code: copy_text(&self.error_code),
            message: self.message.clone(),
        }
    }
}

fn copy_event_log(v: &Vec<RuntimeStructuredEvent>) -> (r: Vec<RuntimeStructuredEvent>)
    ensures
        event_log_view(r@) == event_log_view(v@),
{
    let mut out: Vec<RuntimeStructuredEvent> = Vec::new();
    let mut i: usize = 0;
    while i < v.len()
        invariant
            0 <= i <= v@.len(),
            event_log_view(out@) == event_log_view(v@.take(i as int)),
        decreases v@.len() - i,
    {
        let ghost before = out@;
        let x = v[i].copy();
        out.push(x);
        proof {
            assert(v@.take(i + 1) == v@.take(i as int).push(v@[i as int]));
            assert(event_log_view(before.push(x)) =~= event_log_view(before).push(x@));
            assert(event_log_view(v@.take(i as int).push(v@[i as int])) =~= event_log_view(v@.take(i as int)).push(v@[i as int]@));
        }
        i = i + 1;
    }
    assert(v@.take(v@.len() as int) =~= v@);
    out
}

/// What the runtime reports of itself: whether it listens, the machine's
/// state, the panel snapshot, the recent events (newest first) and the last
/// error code.
#[derive(Debug, Clone, PartialEq, Eq)]
pub struct RuntimeLoopSnapshot {
    pub listening: bool,
    pub state: AssistantState,
    pub panel_snapshot: CalibratedPanelSnapshot,
    pub recent_events: Vec<RuntimeStructuredEvent>,
    pub last_error_code: Option<String>,
}

/// What the overlay is to do after a tick: show these slots, or hide, and why.
#[derive(Debug, Clone, PartialEq, Eq)]
pub enum RuntimeOverlayPlan {
    Show { reason: String, slots: Vec<OverlaySlotData> },
    Hide { reason: String },
}

pub enum PlanModel {
    Show { reason: Seq<char>, slots: Seq<SlotDataModel> },
    Hide { reason: Seq<char> },
}

impl View for RuntimeOverlayPlan {
    type V = PlanModel;

    open spec fn view(&self) -> PlanModel {
        match self {
            RuntimeOverlayPlan::Show { reason, slots } => PlanModel::Show { reason: reason@, slots: slot_views(slots@) },
            RuntimeOverlayPlan::Hide { reason } => PlanModel::Hide { reason: reason@ },
        }
    }
}


fn copy_opt_strings(v: &Option<Vec<String>>) -> (r: Option<Vec<String>>)
    ensures
        match (r, *v) {
            (Some(a), Some(b)) => texts(a@) == texts(b@),
            (None, None) => true,
            _ => false,
        },
{
    match v {
        Some(items) => {
            let mut out: Vec<String> = Vec::new();
            let mut i: usize = 0;
            while i < items.len()
                invariant
                    0 <= i <= items@.len(),
                    texts(out@) == texts(items@.take(i as int)),
                decreases items@.len() - i,
            {
                let ghost before = out@;
                let x = items[i].clone();
                out.push(x);
                proof {
                    assert(items@.take(i + 1) == items@.take(i as int).push(items@[i as int]));
                    assert(texts(before.push(x)) =~= texts(before).push(x@));
                    assert(texts(items@.take(i as int).push(items@[i as int])) =~= texts(items@.take(i as int)).push(items@[i as int]@));
                }
                i = i + 1;
            }
            assert(items@.take(items@.len() as int) =~= items@);
            Some(out)
        },
        None => None,
    }
}

fn copy_slot(d: &OverlaySlotData) -> (r: OverlaySlotData)
    ensures
        r@ == d@,
{
    let r = OverlaySlotData {
        slot: d.slot,
        title: d.title.clone(),
        body: copy_text(&d.body),
        augment_id: copy_text(&d.augment_id),
        rank: copy_text(&d.rank),
        score: copy_text(&d.score),
        summary: copy_text(&d.summary),
        tips: copy_opt_strings(&d.tips),
        source_label: copy_text(&d.source_label),
        source_detail: copy_text(&d.source_detail),
        insight: copy_text(&d.insight),
    };
    assert(r@ =~= d@);
    r
}

fn copy_slots(v: &Vec<OverlaySlotData>) -> (r: Vec<OverlaySlotData>)
    ensures
        slot_views(r@) == slot_views(v@),
{
    let mut out: Vec<OverlaySlotData> = Vec::new();
    let mut i: usize = 0;
    while i < v.len()
        invariant
            0 <= i <= v@.len(),
            slot_views(out@) == slot_views(v@.take(i as int)),
        decreases v@.len() - i,
    {
        let ghost before = out@;
        let x = copy_slot(&v[i]);
        out.push(x);
        proof {
            assert(v@.take(i + 1) == v@.take(i as int).push(v@[i as int]));
            assert(slot_views(before.push(x)) =~= slot_views(before).push(x@));
            assert(slot_views(v@.take(i as int).push(v@[i as int])) =~= slot_views(v@.take(i as int)).push(v@[i as int]@));
        }
        i = i + 1;
    }
    assert(v@.take(v@.len() as int) =~= v@);
    out
}

// ---------------------------------------------------------------------------
// The orchestrator
// ---------------------------------------------------------------------------

/// The runtime's own state: the augment state machine, the panel snapshot it
/// reads choices from, the overlay data prepared for the visible choices, the
/// recent events (newest first) and the last error code.
pub struct RuntimeOrchestrator {
    pub machine: AssistantStateMachine,
    pub panel_snapshot: CalibratedPanelSnapshot,
    pub overlay_slots: Vec<OverlaySlotData>,
    pub recent_events: Vec<RuntimeStructuredEvent>,
    pub last_error_code: Option<String>,
}

/// Whether the panel is read for a player: only from level 3 on, when the
/// first augment tier can be open.
pub open spec fn spec_should_detect_panel(player: Option<PlayerModel>) -> bool {
    match player {
        Some(p) => p.level >= 3,
        None => false,
    }
}

/// Whether the panel is read for a player.
pub fn should_detect_panel(player: Option<&LivePlayerSnapshot>) -> (r: bool)
    ensures
        r == spec_should_detect_panel(match player {
            Some(p) => Some(p@),
            None => None,
        }),
{
    match player {
        Some(p) => p.level >= 3,
        None => false,
    }
}

/// The panel snapshot after a refresh: without detection a snapshot showing
/// anything is reset to a collapsed empty panel; with detection a detected
/// panel replaces it (without selection) and a failed detection keeps it.
pub open spec fn spec_refreshed_panel(
    old: PanelSnapshotModel,
    player: Option<PlayerModel>,
    detected: Option<(PanelState, Seq<(u8, Seq<char>)>)>,
) -> PanelSnapshotModel {
    if !spec_should_detect_panel(player) {
        if old.panel != PanelState::Collapsed || old.choices.len() > 0 {
            empty_panel()
        } else {
            old
        }
    } else {
        match detected {
            Some((panel, choices)) => PanelSnapshotModel { panel, choices, selected_slot: None },
            None => old,
        }
    }
}

/// The state-machine input of a tick: the player and pause reason of the
/// Live Client result with the panel snapshot's state, choices and selection.
pub open spec fn tick_input(panel: PanelSnapshotModel, player: Option<PlayerModel>, pause_reason: Option<PauseReason>) -> InputModel {
    InputModel {
        player,
        panel: panel.panel,
        choices: panel.choices,
        selected_slot: panel.selected_slot,
        pause_reason,
    }
}

/// The visible choices with slots below `n`, in slot order.
pub open spec fn visible_list(m: Map<u8, Seq<char>>, n: nat) -> Seq<(u8, Seq<char>)>
    decreases n,
{
    if n == 0 {
        Seq::empty()
    } else {
        let prev = visible_list(m, (n - 1) as nat);
        let slot = (n - 1) as u8;
        if m.contains_key(slot) {
            prev.push((slot, m[slot]))
        } else {
            prev
        }
    }
}

/// What the overlay is to be prepared for: the champion, the pending tier and
/// the visible choices in slot order.
pub struct OverlayRequest {
    pub champion_name: String,
    pub pending_tier: u8,
    pub choices: Vec<(u8, String)>,
}

pub open spec fn pair_views(v: Seq<(u8, String)>) -> Seq<(u8, Seq<char>)> {
    v.map_values(|p: (u8, String)| (p.0, p.1@))
}

impl View for OverlayRequest {
    type V = (Seq<char>, u8, Seq<(u8, Seq<char>)>);

    open spec fn view(&self) -> (Seq<char>, u8, Seq<(u8, Seq<char>)>) {
        (self.champion_name@, self.pending_tier, pair_views(self.choices@))
    }
}

/// Whether the overlay has something to show: nothing paused, the panel
/// expanded, a pending tier and visible choices.
pub open spec fn overlay_ready(state: StateModel, panel: PanelState) -> bool {
    &&& state.pause_reason is None
    &&& panel == PanelState::Expanded
    &&& state.pending_tiers.len() > 0
    &&& state.pending_tier is Some
    &&& !state.visible.is_empty()
}

/// The overlay request of a state: when the overlay is ready and a player is
/// known, the player's champion, the pending tier and every visible choice.
pub open spec fn spec_overlay_request(state: StateModel, panel: PanelState) -> Option<(Seq<char>, u8, Seq<(u8, Seq<char>)>)> {
    if !overlay_ready(state, panel) {
        None
    } else {
        match state.player {
            Some(p) => Some((p.champion, state.pending_tier->0, visible_list(state.visible, 256))),
            None => None,
        }
    }
}

/// The name of a pause reason as `{:?}` prints it.
pub open spec fn pause_reason_name(r: PauseReason) -> Seq<char> {
    match r {
        PauseReason::LiveClientUnavailable => "LiveClientUnavailable"@,
        PauseReason::InvalidLiveClientData => "InvalidLiveClientData"@,
        PauseReason::InvalidPanelData => "InvalidPanelData"@,
        PauseReason::UnsupportedGameMode => "UnsupportedGameMode"@,
    }
}

fn pause_reason_label(r: PauseReason) -> (s: &'static str)
    ensures
        s@ == pause_reason_name(r),
{
    match r {
        PauseReason::LiveClientUnavailable => "LiveClientUnavailable",
        PauseReason::InvalidLiveClientData => "InvalidLiveClientData",
        PauseReason::InvalidPanelData => "InvalidPanelData",
        PauseReason::UnsupportedGameMode => "UnsupportedGameMode",
    }
}

/// The overlay plan of a state: hide while paused, while the panel is not
/// expanded, without a pending tier, without visible choices or while no
/// overlay data is ready (in that order of precedence); otherwise show the
/// prepared data for the pending tier.
pub open spec fn spec_overlay_plan(state: StateModel, panel: PanelState, slots: Seq<SlotDataModel>) -> PlanModel {
    match state.pause_reason {
        Some(r) => PlanModel::Hide { reason: "运行时已暂停："@ + pause_reason_name(r) },
        None => if panel != PanelState::Expanded {
            PlanModel::Hide { reason: "海克斯面板未展开"@ }
        } else if state.pending_tiers.len() == 0 || state.pending_tier is None {
            PlanModel::Hide { reason: "当前没有待处理海克斯档位"@ }
        } else if state.visible.is_empty() {
            PlanModel::Hide { reason: "当前没有可展示的海克斯选项"@ }
        } else if slots.len() == 0 {
            PlanModel::Hide { reason: "Overlay 推荐数据尚未准备完成"@ }
        } else {
            PlanModel::Show {
                reason: "海克斯面板已展开且待处理档位 "@ + decimal(state.pending_tier->0 as nat) + " 可展示"@,
                slots,
            }
        },
    }
}

/// The poll interval while a choice may be on screen.
pub open spec fn active_interval(capture: CaptureSettings) -> u64 {
    if capture.poll_interval_ms > MIN_ACTIVE_LISTEN_INTERVAL_MS {
        capture.poll_interval_ms
    } else {
        MIN_ACTIVE_LISTEN_INTERVAL_MS
    }
}

/// The poll interval while nothing is to be chosen.
pub open spec fn idle_interval(capture: CaptureSettings) -> u64 {
    if capture.idle_poll_interval_ms > MIN_IDLE_LISTEN_INTERVAL_MS {
        capture.idle_poll_interval_ms
    } else {
        MIN_IDLE_LISTEN_INTERVAL_MS
    }
}

/// Whether the listener polls at the active interval: nothing paused, a
/// player of level 3 or more, and the panel expanded or tiers pending or
/// choices visible.
pub open spec fn uses_active_interval(state: StateModel, panel: PanelState) -> bool {
    &&& state.pause_reason is None
    &&& spec_should_detect_panel(state.player)
    &&& (panel == PanelState::Expanded || state.pending_tiers.len() > 0 || !state.visible.is_empty())
}

/// The event recorded for a tick or a control action: the player given, or
/// else the machine's, the machine's pending tiers, the transitions and the
/// slot changes among them.
pub open spec fn spec_recorded_event(
    trigger: RuntimeTriggerEvent,
    player: Option<PlayerModel>,
    state: StateModel,
    events: Seq<EventModel>,
    error_code: Option<Seq<char>>,
    message: Seq<char>,
    trace_id: Seq<char>,
    occurred_at: Seq<char>,
) -> RuntimeEventModel {
    let logged = match player {
        Some(p) => Some(p),
        None => state.player,
    };
    RuntimeEventModel {
        trace_id,
        occurred_at,
        trigger_event: trigger,
        champion_name: match logged {
            Some(p) => Some(p.champion),
            None => None,
        },
        level: match logged {
            Some(p) => Some(p.level),
            None => None,
        },
        pending_tiers: state.pending_tiers,
        state_events: events,
        slot_changes: slot_changes_of(events),
        error_code,
        message,
    }
}

/// The event log with a new event in front, the oldest dropped beyond the limit.
pub open spec fn pushed_front(log: Seq<RuntimeEventModel>, e: RuntimeEventModel) -> Seq<RuntimeEventModel> {
    let all = seq![e] + log;
    if all.len() > RECENT_EVENT_LIMIT {
        all.take(RECENT_EVENT_LIMIT as int)
    } else {
        all
    }
}

/// The message of a control event.
pub open spec fn control_message(trigger: RuntimeTriggerEvent) -> Seq<char> {
    match trigger {
        RuntimeTriggerEvent::ListenerStarted => "低频监听已启动"@,
        RuntimeTriggerEvent::ListenerStopped => "低频监听已停止"@,
        _ => "运行时控制事件"@,
    }
}

impl RuntimeOrchestrator {
    /// An orchestrator in the initial state: a fresh machine, a collapsed
    /// panel, no overlay data, no events and no error.
    pub fn new() -> (r: Self)
        ensures
            r.machine@ == crate::state_machine::initial_state(),
            r.panel_snapshot@ == empty_panel(),
            r.overlay_slots@.len() == 0,
            r.recent_events@.len() == 0,
            r.last_error_code is None,
    {
        RuntimeOrchestrator {
            machine: AssistantStateMachine::new(),
            panel_snapshot: CalibratedPanelSnapshot::collapsed(),
            overlay_slots: Vec::new(),
            recent_events: Vec::new(),
            last_error_code: None,
        }
    }

    /// What the runtime reports of itself, with the given listening flag.
    pub fn snapshot(&self, listening: bool) -> (r: RuntimeLoopSnapshot)
        ensures
            r.listening == listening,
            r.state@ == self.machine@,
            r.panel_snapshot@ == self.panel_snapshot@,
            event_log_view(r.recent_events@) == event_log_view(self.recent_events@),
            ov(r.last_error_code) == ov(self.last_error_code),
    {
        RuntimeLoopSnapshot {
            listening: listening,
            state: self.machine.state_copy(),
            panel_snapshot: self.panel_snapshot.copy(),
            recent_events: copy_event_log(&self.recent_events),
            last_error_code: copy_text(&self.last_error_code),
        }
    }

    /// Takes over a panel snapshot handed in with a request, if there is one.
    pub fn apply_panel_snapshot(&mut self, panel_snapshot: Option<CalibratedPanelSnapshot>)
        ensures
            final(self).panel_snapshot@ == match panel_snapshot {
                Some(p) => p@,
                None => old(self).panel_snapshot@,
            },
            final(self).machine@ == old(self).machine@,
            final(self).overlay_slots@ == old(self).overlay_slots@,
            final(self).recent_events@ == old(self).recent_events@,
            final(self).last_error_code == old(self).last_error_code,
    {
        match panel_snapshot {
            Some(p) => self.panel_snapshot = p,
            None => {},
        }
    }

    /// Refreshes the panel snapshot for a player, given what the panel
    /// detection found when it ran (`None` when it failed).
    pub fn refresh_panel_snapshot(&mut self, player: Option<&LivePlayerSnapshot>, detected: Option<(PanelState, Vec<AugmentChoice>)>)
        ensures
            final(self).panel_snapshot@ == spec_refreshed_panel(
                old(self).panel_snapshot@,
                match player {
                    Some(p) => Some(p@),
                    None => None,
                },
                match detected {
                    Some((p, c)) => Some((p, choice_views(c@))),
                    None => None,
                },
            ),
            final(self).machine@ == old(self).machine@,
            final(self).overlay_slots@ == old(self).overlay_slots@,
            final(self).recent_events@ == old(self).recent_events@,
            final(self).last_error_code == old(self).last_error_code,
    {
        if !should_detect_panel(player) {
            if self.panel_snapshot.panel_state != PanelState::Collapsed || self.panel_snapshot.choices.len() > 0 {
                self.panel_snapshot = CalibratedPanelSnapshot::collapsed();
            }
            return;
        }
        match detected {
            Some((panel_state, choices)) => {
                self.panel_snapshot = CalibratedPanelSnapshot { panel_state: panel_state, choices: choices, selected_slot: None };
            },
            None => {},
        }
    }

    /// Feeds a Live Client outcome with the panel snapshot to the machine,
    /// keeps the outcome's error code, and returns the transitions.
    pub fn apply_live_outcome(&mut self, outcome: &LiveOutcome) -> (events: Vec<StateTransitionEvent>)
        ensures
            final(self).machine@ == spec_apply(
                old(self).machine@,
                tick_input(old(self).panel_snapshot@, outcome@.player, outcome@.pause_reason),
            ).0,
            events_view(events@) == spec_apply(
                old(self).machine@,
                tick_input(old(self).panel_snapshot@, outcome@.player, outcome@.pause_reason),
            ).1,
            ov(final(self).last_error_code) == outcome@.error_code,
            final(self).panel_snapshot@ == old(self).panel_snapshot@,
            final(self).overlay_slots@ == old(self).overlay_slots@,
            final(self).recent_events@ == old(self).recent_events@,
    {
        let player = match &outcome.player {
            Some(p) => Some(LivePlayerSnapshot { champion_name: p.champion_name.clone(), level: p.level }),
            None => None,
        };
        let input = StateMachineInput {
            player: player,
            panel_state: self.panel_snapshot.panel_state,
            choices: copy_choices(&self.panel_snapshot.choices),
            selected_slot: self.panel_snapshot.selected_slot,
            pause_reason: outcome.pause_reason,
        };
        assert(input@ == tick_input(self.panel_snapshot@, outcome@.player, outcome@.pause_reason));
        let events = self.machine.apply(input);
        self.last_error_code = copy_text(&outcome.error_code);
        events
    }

    /// What the overlay is to be prepared for, or `None` when it shows nothing.
    pub fn overlay_request(&self) -> (r: Option<OverlayRequest>)
        ensures
            match r {
                Some(q) => spec_overlay_request(self.machine@, self.panel_snapshot.panel_state) == Some(q@),
                None => spec_overlay_request(self.machine@, self.panel_snapshot.panel_state) is None,
            },
    {
        let state = self.machine.state();
        let ghost sv = state@;
        let ghost vis = state@.visible;
        if state.pause_reason.is_some() || self.panel_snapshot.panel_state != PanelState::Expanded
            || state.pending_tiers.len() == 0 || state.pending_tier.is_none() || state.visible_choices.is_empty() {
            assert(vis.dom() =~= state.visible_choices@.dom());
            return None;
        }
        assert(vis.dom() =~= state.visible_choices@.dom());
        let (champion_name, pending_tier) = match (&state.player, state.pending_tier) {
            (Some(p), Some(t)) => (p.champion_name.clone(), t),
            _ => return None,
        };
        let mut choices: Vec<(u8, String)> = Vec::new();
        let mut slot: u16 = 0;
        while slot < 256
            invariant
                0 <= slot <= 256,
                vis == visible_view(state.visible_choices),
                pair_views(choices@) == visible_list(vis, slot as nat),
            decreases 256 - slot,
        {
            let key = slot as u8;
            let ghost before = choices@;
            proof {
                assert(key as nat == slot as nat);
                assert(((slot + 1) as nat - 1) as u8 == key);
            }
            match state.visible_choices.get(&key) {
                Some(value) => {
                    let x = (key, value.clone());
                    choices.push(x);
                    proof {
                        assert(pair_views(before.push(x)) =~= pair_views(before).push((key, value@)));
                        assert(visible_list(vis, (slot + 1) as nat) =~= visible_list(vis, slot as nat).push((key, vis[key])));
                    }
                },
                None => {
                    assert(visible_list(vis, (slot + 1) as nat) =~= visible_list(vis, slot as nat));
                },
            }
            slot = slot + 1;
        }
        Some(OverlayRequest { champion_name: champion_name, pending_tier: pending_tier, choices: choices })
    }

    /// The overlay plan for the current state and the prepared overlay data.
    pub fn build_overlay_plan(&self) -> (r: RuntimeOverlayPlan)
        ensures
            r@ == spec_overlay_plan(self.machine@, self.panel_snapshot.panel_state, slot_views(self.overlay_slots@)),
    {
        let state = self.machine.state();
        assert(state@.visible.dom() =~= state.visible_choices@.dom());
        match state.pause_reason {
            Some(reason) => {
                let mut text = owned("运行时已暂停：");
                push_str(&mut text, pause_reason_label(reason));
                return RuntimeOverlayPlan::Hide { reason: text };
            },
            None => {},
        }
        if self.panel_snapshot.panel_state != PanelState::Expanded {
            return RuntimeOverlayPlan::Hide { reason: owned("海克斯面板未展开") };
        }
        let tier = match state.pending_tier {
            Some(t) => t,
            None => return RuntimeOverlayPlan::Hide { reason: owned("当前没有待处理海克斯档位") },
        };
        if state.pending_tiers.len() == 0 {
            return RuntimeOverlayPlan::Hide { reason: owned("当前没有待处理海克斯档位") };
        }
        if state.visible_choices.is_empty() {
            return RuntimeOverlayPlan::Hide { reason: owned("当前没有可展示的海克斯选项") };
        }
        if self.overlay_slots.len() == 0 {
            return RuntimeOverlayPlan::Hide { reason: owned("Overlay 推荐数据尚未准备完成") };
        }
        let mut text = owned("海克斯面板已展开且待处理档位 ");
        push_decimal(&mut text, tier as u128);
        push_str(&mut text, " 可展示");
        RuntimeOverlayPlan::Show { reason: text, slots: copy_slots(&self.overlay_slots) }
    }

    /// The interval before the next poll.
    pub fn next_poll_interval_ms(&self, capture: &CaptureSettings) -> (r: u64)
        ensures
            r == if uses_active_interval(self.machine@, self.panel_snapshot.panel_state) {
                active_interval(*capture)
            } else {
                idle_interval(*capture)
            },
    {
        let active = if capture.poll_interval_ms > MIN_ACTIVE_LISTEN_INTERVAL_MS {
            capture.poll_interval_ms
        } else {
            MIN_ACTIVE_LISTEN_INTERVAL_MS
        };
        let idle = if capture.idle_poll_interval_ms > MIN_IDLE_LISTEN_INTERVAL_MS {
            capture.idle_poll_interval_ms
        } else {
            MIN_IDLE_LISTEN_INTERVAL_MS
        };
        let state = self.machine.state();
        assert(state@.visible.dom() =~= state.visible_choices@.dom());
        let level_ok = match &state.player {
            Some(p) => p.level >= 3,
            None => false,
        };
        let use_active = state.pause_reason.is_none() && level_ok && (self.panel_snapshot.panel_state
            == PanelState::Expanded || state.pending_tiers.len() > 0 || !state.visible_choices.is_empty());
        if use_active {
            active
        } else {
            idle
        }
    }

    /// The event to record for a trigger: the player given, or else the
    /// machine's, the machine's pending tiers, the transitions and the slot
    /// changes among them.
    pub fn recorded_event(
        &self,
        trigger_event: RuntimeTriggerEvent,
        player: Option<LivePlayerSnapshot>,
        state_events: Vec<StateTransitionEvent>,
        error_code: Option<String>,
        message: String,
        trace_id: String,
        occurred_at: String,
    ) -> (r: RuntimeStructuredEvent)
        ensures
            r@ == spec_recorded_event(
                trigger_event,
                player_view(player),
                self.machine@,
                events_view(state_events@),
                ov(error_code),
                message@,
                trace_id@,
                occurred_at@,
            ),
    {
        let state = self.machine.state();
        let logged = match player {
            Some(p) => Some(p),
            None => match &state.player {
                Some(p) => Some(LivePlayerSnapshot { champion_name: p.champion_name.clone(), level: p.level }),
                None => None,
            },
        };
        let changes = slot_changes(&state_events);
        let (champion_name, level) = match logged {
            Some(p) => (Some(p.champion_name), Some(p.level)),
            None => (None, None),
        };
        RuntimeStructuredEvent {
            trace_id: trace_id,
            occurred_at: occurred_at,
            trigger_event: trigger_event,
            champion_name: champion_name,
            level: level,
            pending_tiers: copy_bytes(&state.pending_tiers),
            state_events: state_events,
            slot_changes: changes,
            error_code: error_code,
            message: message,
        }
    }

    /// The event to record for a listener control action: started, stopped,
    /// or another control action.
    pub fn control_event(&self, trigger_event: RuntimeTriggerEvent, trace_id: String, occurred_at: String) -> (r:
        RuntimeStructuredEvent)
        ensures
            r@ == spec_recorded_event(
                trigger_event,
                None,
                self.machine@,
                Seq::empty(),
                None,
                control_message(trigger_event),
                trace_id@,
                occurred_at@,
            ),
    {
        let message = match trigger_event {
            RuntimeTriggerEvent::ListenerStarted => owned("低频监听已启动"),
            RuntimeTriggerEvent::ListenerStopped => owned("低频监听已停止"),
            _ => owned("运行时控制事件"),
        };
        let none: Vec<StateTransitionEvent> = Vec::new();
        assert(events_view(none@) =~= Seq::<EventModel>::empty());
        self.recorded_event(trigger_event, None, none, None, message, trace_id, occurred_at)
    }

    /// Puts an event at the front of the recent-event log, keeping at most
    /// the newest forty.
    pub fn push_recent_event(&mut self, event: RuntimeStructuredEvent)
        ensures
            event_log_view(final(self).recent_events@) == pushed_front(event_log_view(old(self).recent_events@), event@),
            final(self).recent_events@.len() <= RECENT_EVENT_LIMIT,
            final(self).machine@ == old(self).machine@,
            final(self).panel_snapshot@ == old(self).panel_snapshot@,
            final(self).overlay_slots@ == old(self).overlay_slots@,
            final(self).last_error_code == old(self).last_error_code,
    {
        let ghost ev = event@;
        let ghost log0 = self.recent_events@;
        self.recent_events.insert(0, event);
        proof {
            assert(log0.insert(0, event) =~= seq![event] + log0);
            assert(event_log_view(seq![event] + log0) =~= seq![ev] + event_log_view(log0));
        }
        self.recent_events.truncate(RECENT_EVENT_LIMIT);
        proof {
            let all = seq![event] + log0;
            if all.len() > RECENT_EVENT_LIMIT {
                assert(event_log_view(all.subrange(0, RECENT_EVENT_LIMIT as int)) =~= event_log_view(all).take(
                    RECENT_EVENT_LIMIT as int,
                ));
            }
        }
    }

    /// Records an event once its log line was written: on a successful write
    /// the event goes to the front of the recent-event log, on a failed one the
    /// log stays as it was and the write's error is returned.
    pub fn record_logged_event(&mut self, event: RuntimeStructuredEvent, logged: Result<(), String>) -> (r: Result<
        (),
        String,
    >)
        ensures
            r == logged,
            logged is Ok ==> event_log_view(final(self).recent_events@) == pushed_front(
                event_log_view(old(self).recent_events@),
                event@,
            ),
            logged is Err ==> final(self).recent_events@ == old(self).recent_events@,
            final(self).machine@ == old(self).machine@,
            final(self).panel_snapshot@ == old(self).panel_snapshot@,
            final(self).overlay_slots@ == old(self).overlay_slots@,
            final(self).last_error_code == old(self).last_error_code,
    {
        match logged {
            Ok(done) => {
                self.push_recent_event(event);
                Ok(done)
            },
            Err(e) => Err(e),
        }
    }

    /// Settles a listener start whose generation was granted: once the start
    /// event's log line was written, the event is recorded and the generation
    /// returned; when the write failed, nothing is recorded, the start is
    /// undone (the listener stops and the generation is retired) and the
    /// write's error is returned.
    pub fn settle_listener_start(
        &mut self,
        control: &mut ListenerControl,
        generation: u64,
        event: RuntimeStructuredEvent,
        logged: Result<(), String>,
    ) -> (r: Result<Option<u64>, String>)
        ensures
            logged is Ok ==> r == Ok::<Option<u64>, String>(Some(generation)) && *final(control) == *old(control)
                && event_log_view(final(self).recent_events@) == pushed_front(
                event_log_view(old(self).recent_events@),
                event@,
            ),
            logged matches Err(e) ==> r == Err::<Option<u64>, String>(e) && final(self).recent_events@ == old(
                self,
            ).recent_events@ && !final(control).listening && final(control).generation == next_generation(
                old(control).generation,
            ),
            final(self).machine@ == old(self).machine@,
            final(self).panel_snapshot@ == old(self).panel_snapshot@,
            final(self).overlay_slots@ == old(self).overlay_slots@,
            final(self).last_error_code == old(self).last_error_code,
    {
        match self.record_logged_event(event, logged) {
            Ok(()) => Ok(Some(generation)),
            Err(e) => {
                control.abort_start();
                Err(e)
            },
        }
    }

    /// Records an event at the front of the recent-event log, keeping at most
    /// the newest forty.
    pub fn record_event(
        &mut self,
        trigger_event: RuntimeTriggerEvent,
        player: Option<LivePlayerSnapshot>,
        state_events: Vec<StateTransitionEvent>,
        error_code: Option<String>,
        message: String,
        trace_id: String,
        occurred_at: String,
    )
        ensures
            event_log_view(final(self).recent_events@) == pushed_front(
                event_log_view(old(self).recent_events@),
                spec_recorded_event(
                    trigger_event,
                    player_view(player),
                    old(self).machine@,
                    events_view(state_events@),
                    ov(error_code),
                    message@,
                    trace_id@,
                    occurred_at@,
                ),
            ),
            final(self).recent_events@.len() <= RECENT_EVENT_LIMIT,
            final(self).machine@ == old(self).machine@,
            final(self).panel_snapshot@ == old(self).panel_snapshot@,
            final(self).overlay_slots@ == old(self).overlay_slots@,
            final(self).last_error_code == old(self).last_error_code,
    {
        let event = self.recorded_event(trigger_event, player, state_events, error_code, message, trace_id, occurred_at);
        self.push_recent_event(event);
    }

    /// Records a listener control event: started, stopped, or another control action.
    pub fn record_control_event(&mut self, trigger_event: RuntimeTriggerEvent, trace_id: String, occurred_at: String)
        ensures
            event_log_view(final(self).recent_events@) == pushed_front(
                event_log_view(old(self).recent_events@),
                spec_recorded_event(
                    trigger_event,
                    None,
                    old(self).machine@,
                    Seq::empty(),
                    None,
                    control_message(trigger_event),
                    trace_id@,
                    occurred_at@,
                ),
            ),
            final(self).recent_events@.len() <= RECENT_EVENT_LIMIT,
            final(self).machine@ == old(self).machine@,
            final(self).panel_snapshot@ == old(self).panel_snapshot@,
            final(self).overlay_slots@ == old(self).overlay_slots@,
            final(self).last_error_code == old(self).last_error_code,
    {
        let event = self.control_event(trigger_event, trace_id, occurred_at);
        self.push_recent_event(event);
    }
}


// ---------------------------------------------------------------------------
// Preparing the overlay data of a request
// ---------------------------------------------------------------------------

impl RuntimeOverlayResolvedChoice {
    /// A copy of the resolved choice.
    pub fn copy(&self) -> (r: Self)
        ensures
            r@ == self@,
    {
        RuntimeOverlayResolvedChoice {
            slot: self.slot,
            raw_name: self.raw_name.clone(),
            title: self.title.clone(),
            augment_id: copy_text(&self.augment_id),
            lookup_name: self.lookup_name.clone(),
        }
    }
}

/// Every visible choice of a request resolved against the dictionary, in order.
pub fn resolve_request_choices(request: &OverlayRequest, dictionary: Option<&AugmentDictionary>) -> (r: Vec<RuntimeOverlayResolvedChoice>)
    ensures
        r@.len() == request.choices@.len(),
        forall|i: int|
            0 <= i < r@.len() ==> (#[trigger] r@[i])@ == spec_resolved_choice(
                request.choices@[i].0,
                request.choices@[i].1@,
                match dictionary {
                    Some(d) => Some(*d),
                    None => None,
                },
            ),
{
    let mut out: Vec<RuntimeOverlayResolvedChoice> = Vec::new();
    let mut i: usize = 0;
    while i < request.choices.len()
        invariant
            0 <= i <= request.choices@.len(),
            out@.len() == i,
            forall|k: int|
                0 <= k < i ==> (#[trigger] out@[k])@ == spec_resolved_choice(
                    request.choices@[k].0,
                    request.choices@[k].1@,
                    match dictionary {
                        Some(d) => Some(*d),
                        None => None,
                    },
                ),
        decreases request.choices@.len() - i,
    {
        let (slot, raw) = &request.choices[i];
        out.push(resolve_overlay_choice(*slot, raw.as_str(), dictionary));
        i = i + 1;
    }
    out
}

/// The overlay data of resolved choices, each with the outcome of its lookup.
pub fn build_overlay_slots(
    champion_name: &str,
    pending_tier: u8,
    choices: Vec<RuntimeOverlayResolvedChoice>,
    lookups: Vec<Result<ApexLookupResult, String>>,
) -> (r: Vec<OverlaySlotData>)
    requires
        choices@.len() == lookups@.len(),
    ensures
        r@.len() == choices@.len(),
        forall|i: int|
            0 <= i < r@.len() ==> (#[trigger] r@[i])@ == spec_slot_data(champion_name@, pending_tier, choices@[i]@, lookups@[i]),
{
    let ghost c0 = choices@;
    let ghost l0 = lookups@;
    let mut choices = choices;
    let mut lookups = lookups;
    let mut out: Vec<OverlaySlotData> = Vec::new();
    while choices.len() > 0
        invariant
            choices@.len() == lookups@.len(),
            out@.len() + choices@.len() == c0.len(),
            c0.len() == l0.len(),
            choices@ == c0.skip(out@.len() as int),
            lookups@ == l0.skip(out@.len() as int),
            forall|k: int|
                0 <= k < out@.len() ==> (#[trigger] out@[k])@ == spec_slot_data(champion_name@, pending_tier, c0[k]@, l0[k]),
        decreases choices@.len(),
    {
        let ghost n = out@.len();
        let c = choices.remove(0);
        let l = lookups.remove(0);
        proof {
            assert(c == c0[n as int]);
            assert(l == l0[n as int]);
            assert(choices@ =~= c0.skip((n + 1) as int));
            assert(lookups@ =~= l0.skip((n + 1) as int));
        }
        out.push(build_overlay_slot_data(champion_name, pending_tier, c, l));
    }
    out
}

/// The settings of ApexLOL lookups taken from the application settings.
pub fn apex_lookup_settings(settings: &ApexLolSettings) -> (r: ApexLookupSettings)
    ensures
        r.cache_ttl_hours == settings.cache_ttl_hours,
        r.request_timeout_ms == settings.request_timeout_ms,
        r.failed_cache_ttl_minutes == settings.failed_cache_ttl_minutes,
{
    ApexLookupSettings {
        cache_ttl_hours: settings.cache_ttl_hours,
        request_timeout_ms: settings.request_timeout_ms,
        failed_cache_ttl_minutes: settings.failed_cache_ttl_minutes,
    }
}

// ---------------------------------------------------------------------------
// Runtime log entries and sync reports
// ---------------------------------------------------------------------------

/// How one runtime log entry is filed: its kind, summary, level and error code.
#[derive(Debug, Clone, Copy, PartialEq, Eq)]
pub struct LogEntryKind {
    pub kind: &'static str,
    pub output_summary: &'static str,
    pub level: &'static str,
    pub error_code: Option<&'static str>,
}

/// The entry of an overlay trigger decision: ready when the plan shows;
/// skipped otherwise, as a warning when the tick carried an error.
pub fn overlay_trigger_entry(plan: &RuntimeOverlayPlan, has_error: bool) -> (r: LogEntryKind)
    ensures
        r.kind@ == (if plan is Show {
            "overlay-trigger-ready"@
        } else {
            "overlay-trigger-skipped"@
        }),
        r.output_summary@ == (if plan is Show {
            "overlay 已满足触发条件"@
        } else {
            "overlay 未满足触发条件"@
        }),
        r.level@ == (if !(plan is Show) && has_error {
            "warn"@
        } else {
            "info"@
        }),
        r.error_code is None,
{
    match plan {
        RuntimeOverlayPlan::Show { .. } => LogEntryKind {
            kind: "overlay-trigger-ready",
            output_summary: "overlay 已满足触发条件",
            level: "info",
            error_code: None,
        },
        RuntimeOverlayPlan::Hide { .. } => LogEntryKind {
            kind: "overlay-trigger-skipped",
            output_summary: "overlay 未满足触发条件",
            level: if has_error {
                "warn"
            } else {
                "info"
            },
            error_code: None,
        },
    }
}

/// The entry of an overlay sync: applied, or failed as a warning with its code.
pub fn overlay_sync_entry(failed: bool) -> (r: LogEntryKind)
    ensures
        r.kind@ == (if failed {
            "overlay-sync-failed"@
        } else {
            "overlay-sync-applied"@
        }),
        r.output_summary@ == (if failed {
            "overlay 自动同步失败"@
        } else {
            "overlay 自动同步完成"@
        }),
        r.level@ == (if failed {
            "warn"@
        } else {
            "info"@
        }),
        str_opt(r.error_code) == (if failed {
            Some("HEX-OVERLAY-SYNC-FAILED"@)
        } else {
            None
        }),
{
    if failed {
        LogEntryKind {
            kind: "overlay-sync-failed",
            output_summary: "overlay 自动同步失败",
            level: "warn",
            error_code: Some("HEX-OVERLAY-SYNC-FAILED"),
        }
    } else {
        LogEntryKind {
            kind: "overlay-sync-applied",
            output_summary: "overlay 自动同步完成",
            level: "info",
            error_code: None,
        }
    }
}

/// The entry of a panel snapshot refresh: applied when a report came back,
/// failed otherwise; a warning with its code when there is an error message.
pub fn panel_refresh_entry(applied: bool, has_error: bool) -> (r: LogEntryKind)
    ensures
        r.kind@ == (if applied {
            "panel-snapshot-refresh-applied"@
        } else {
            "panel-snapshot-refresh-failed"@
        }),
        r.output_summary@ == (if applied {
            "运行时面板快照刷新完成"@
        } else {
            "运行时面板快照刷新失败"@
        }),
        r.level@ == (if has_error {
            "warn"@
        } else {
            "info"@
        }),
        str_opt(r.error_code) == (if has_error {
            Some("HEX-RUNTIME-PANEL-SNAPSHOT-FAILED"@)
        } else {
            None
        }),
{
    LogEntryKind {
        kind: if applied {
            "panel-snapshot-refresh-applied"
        } else {
            "panel-snapshot-refresh-failed"
        },
        output_summary: if applied {
            "运行时面板快照刷新完成"
        } else {
            "运行时面板快照刷新失败"
        },
        level: if has_error {
            "warn"
        } else {
            "info"
        },
        error_code: if has_error {
            Some("HEX-RUNTIME-PANEL-SNAPSHOT-FAILED")
        } else {
            None
        },
    }
}

/// The sync report logged when applying a plan failed: the window counts as
/// created for a show plan and hidden for a hide plan, with the plan's slot
/// count and reason.
pub fn failed_sync_report(plan: &RuntimeOverlayPlan) -> (r: RuntimeOverlaySyncReport)
    ensures
        r.label@ == "hex-assistant-overlay"@,
        r.action == (if plan is Show {
            RuntimeOverlaySyncAction::Created
        } else {
            RuntimeOverlaySyncAction::Hidden
        }),
        r.visible == plan is Show,
        !r.window_exists,
        r.slot_count == match plan {
            RuntimeOverlayPlan::Show { slots, .. } => slots@.len(),
            RuntimeOverlayPlan::Hide { .. } => 0,
        },
        r.reason@ == match plan {
            RuntimeOverlayPlan::Show { reason, .. } => reason@,
            RuntimeOverlayPlan::Hide { reason } => reason@,
        },
        r.log_path is None,
        r.message@ == "Overlay 自动同步失败"@,
{
    match plan {
        RuntimeOverlayPlan::Show { reason, slots } => RuntimeOverlaySyncReport {
            label: owned("hex-assistant-overlay"),
            action: RuntimeOverlaySyncAction::Created,
            visible: true,
            window_exists: false,
            slot_count: slots.len(),
            reason: reason.clone(),
            log_path: None,
            message: owned("Overlay 自动同步失败"),
        },
        RuntimeOverlayPlan::Hide { reason } => RuntimeOverlaySyncReport {
            label: owned("hex-assistant-overlay"),
            action: RuntimeOverlaySyncAction::Hidden,
            visible: false,
            window_exists: false,
            slot_count: 0,
            reason: reason.clone(),
            log_path: None,
            message: owned("Overlay 自动同步失败"),
        },
    }
}

impl RuntimeOrchestrator {
    /// How the next poll interval is labelled: "active" when it equals the
    /// active interval, "idle" otherwise.
    pub fn poll_interval_mode(&self, capture: &CaptureSettings) -> (r: &'static str)
        ensures
            r@ == (if (if uses_active_interval(self.machine@, self.panel_snapshot.panel_state) {
                active_interval(*capture)
            } else {
                idle_interval(*capture)
            }) == active_interval(*capture) {
                "active"@
            } else {
                "idle"@
            }),
    {
        let next = self.next_poll_interval_ms(capture);
        let active = if capture.poll_interval_ms > MIN_ACTIVE_LISTEN_INTERVAL_MS {
            capture.poll_interval_ms
        } else {
            MIN_ACTIVE_LISTEN_INTERVAL_MS
        };
        if next == active {
            "active"
        } else {
            "idle"
        }
    }
}

// ---------------------------------------------------------------------------
// The background listener
// ---------------------------------------------------------------------------

/// Whether the background listener runs, and the generation that tells the
/// current listener from retired ones.
#[derive(Debug, Clone, Copy, PartialEq, Eq, Structural)]
pub struct ListenerControl {
    pub listening: bool,
    pub generation: u64,
}

/// The generation after `g`, wrapping as an atomic counter does.
pub open spec fn next_generation(g: u64) -> u64 {
    if g == u64::MAX {
        0
    } else {
        (g + 1) as u64
    }
}

/// A start request: ignored while listening; otherwise the listener runs
/// under the next generation, which is returned.
pub open spec fn spec_begin_start(c: ListenerControl) -> (ListenerControl, Option<u64>) {
    if c.listening {
        (c, None)
    } else {
        let g = next_generation(c.generation);
        (ListenerControl { listening: true, generation: g }, Some(g))
    }
}

/// Whether a worker of `generation` is the one to keep running.
pub open spec fn spec_is_current(c: ListenerControl, generation: u64) -> bool {
    c.listening && c.generation == generation
}

fn advance(g: u64) -> (r: u64)
    ensures
        r == next_generation(g),
{
    if g == u64::MAX {
        0
    } else {
        g + 1
    }
}

impl ListenerControl {
    /// No listener yet.
    pub fn new() -> (r: Self)
        ensures
            !r.listening,
            r.generation == 0,
    {
        ListenerControl { listening: false, generation: 0 }
    }

    /// Registers a start: the generation to run under, or `None` when a
    /// listener already runs.
    pub fn begin_start(&mut self) -> (r: Option<u64>)
        ensures
            (*final(self), r) == spec_begin_start(*old(self)),
    {
        if self.listening {
            return None;
        }
        self.listening = true;
        self.generation = advance(self.generation);
        Some(self.generation)
    }

    /// Undoes a start that could not be recorded: stops listening and
    /// retires the generation.
    pub fn abort_start(&mut self)
        ensures
            !final(self).listening,
            final(self).generation == next_generation(old(self).generation),
    {
        self.listening = false;
        self.generation = advance(self.generation);
    }

    /// Stops the listener and retires its generation; returns whether it was listening.
    pub fn stop(&mut self) -> (was_listening: bool)
        ensures
            was_listening == old(self).listening,
            !final(self).listening,
            final(self).generation == next_generation(old(self).generation),
    {
        let was = self.listening;
        self.listening = false;
        self.generation = advance(self.generation);
        was
    }

    /// Whether a worker of `generation` is the one to keep running.
    pub fn is_current(&self, generation: u64) -> (r: bool)
        ensures
            r == spec_is_current(*self, generation),
    {
        self.listening && self.generation == generation
    }
}

// ---------------------------------------------------------------------------
// Laws
// ---------------------------------------------------------------------------

/// The overlay is shown exactly when it is ready (nothing paused, panel
/// expanded, a pending tier, visible choices) and its data is prepared; a
/// shown plan carries exactly the prepared data.
pub proof fn lemma_overlay_shows_only_when_ready(state: StateModel, panel: PanelState, slots: Seq<SlotDataModel>)
    ensures
        (spec_overlay_plan(state, panel, slots) is Show) <==> (overlay_ready(state, panel) && slots.len() > 0),
        spec_overlay_plan(state, panel, slots) is Show ==> spec_overlay_plan(state, panel, slots)->Show_slots == slots,
{
}

/// A card without found data never carries a rank or a score, says that
/// there is no data, and asks the player to judge by hand.
pub proof fn lemma_fallback_card_fakes_nothing(
    champion: Seq<char>,
    tier: u8,
    choice: ResolvedChoiceModel,
    lookup: Result<ApexLookupResult, String>,
)
    requires
        !(lookup matches Ok(r) && r.status == ApexParseStatus::Found),
    ensures
        spec_slot_data(champion, tier, choice, lookup).rank is None,
        spec_slot_data(champion, tier, choice, lookup).score is None,
        spec_slot_data(champion, tier, choice, lookup).summary == Some(fallback_summary(choice.title)),
        spec_slot_data(champion, tier, choice, lookup).tips == Some(seq![fallback_tip(champion, tier)]),
        spec_slot_data(champion, tier, choice, lookup).title == choice.title,
{
}

/// A card with found data shows the source's rating (trimmed) as rank, never
/// a score, and names the source it came from.
pub proof fn lemma_found_card_shows_source_rating(
    champion: Seq<char>,
    tier: u8,
    choice: ResolvedChoiceModel,
    result: ApexLookupResult,
)
    requires
        result.status == ApexParseStatus::Found,
    ensures
        spec_slot_data(champion, tier, choice, Ok(result)).rank == spec_normalized_option(ov(result.rating)),
        spec_slot_data(champion, tier, choice, Ok(result)).score is None,
        spec_slot_data(champion, tier, choice, Ok(result)).source_label == Some(result.source@),
        spec_slot_data(champion, tier, choice, Ok(result)).title == choice.title,
{
}

/// A game outside the allowed mode pauses the runtime as unsupported and
/// hides the overlay, whatever the panel shows.
pub proof fn lemma_unsupported_mode_pauses(
    s: StateModel,
    panel: PanelSnapshotModel,
    snapshot: ResolvedPlayerSnapshot,
    slots: Seq<SlotDataModel>,
)
    requires
        !spec_allowed_game_mode(ov(snapshot.game_mode)),
    ensures
        spec_live_outcome(Ok(snapshot)).pause_reason == Some(PauseReason::UnsupportedGameMode),
        spec_live_outcome(Ok(snapshot)).player is None,
        ({
            let next = spec_apply(s, tick_input(panel, None, Some(PauseReason::UnsupportedGameMode))).0;
            &&& next.pause_reason == Some(PauseReason::UnsupportedGameMode)
            &&& spec_overlay_plan(next, panel.panel, slots) is Hide
        }),
{
}

/// The recent-event log holds at most forty events, the newest first, and
/// the events before it in their order.
pub proof fn lemma_event_log_newest_first(log: Seq<RuntimeEventModel>, e: RuntimeEventModel)
    ensures
        pushed_front(log, e).len() <= RECENT_EVENT_LIMIT,
        pushed_front(log, e)[0] == e,
        forall|i: int| 0 <= i < pushed_front(log, e).len() - 1 ==> #[trigger] pushed_front(log, e)[i + 1] == log[i],
        log.len() < RECENT_EVENT_LIMIT ==> pushed_front(log, e).len() == log.len() + 1,
{
}

/// Starting twice starts once: a second start request changes nothing and
/// returns no generation.
pub proof fn lemma_start_is_idempotent(c: ListenerControl)
    ensures
        spec_begin_start(spec_begin_start(c).0).0 == spec_begin_start(c).0,
        spec_begin_start(spec_begin_start(c).0).1 is None,
        spec_begin_start(c).1 matches Some(g) ==> spec_is_current(spec_begin_start(c).0, g),
{
}

/// A start that is granted and logged is recorded once: the listener runs
/// under the next generation, the start event stands newest in the log (one
/// more event, below the limit), and a second start request is refused and
/// changes nothing, so it records nothing.
pub proof fn lemma_listener_start_recorded_once(
    c: ListenerControl,
    log: Seq<RuntimeEventModel>,
    state: StateModel,
    trace_id: Seq<char>,
    occurred_at: Seq<char>,
)
    requires
        !c.listening,
    ensures
        ({
            let (c1, g) = spec_begin_start(c);
            let e = spec_recorded_event(
                RuntimeTriggerEvent::ListenerStarted,
                None,
                state,
                Seq::empty(),
                None,
                control_message(RuntimeTriggerEvent::ListenerStarted),
                trace_id,
                occurred_at,
            );
            let log1 = pushed_front(log, e);
            &&& g == Some(next_generation(c.generation))
            &&& spec_is_current(c1, g->0)
            &&& spec_begin_start(c1) == (c1, None::<u64>)
            &&& log1[0].trigger_event == RuntimeTriggerEvent::ListenerStarted
            &&& log.len() < RECENT_EVENT_LIMIT ==> log1.len() == log.len() + 1
        }),
{
}

/// After a stop no worker is current, whatever its generation.
pub proof fn lemma_stop_retires_every_worker(c: ListenerControl, generation: u64)
    ensures
        !spec_is_current(ListenerControl { listening: false, generation: next_generation(c.generation) }, generation),
{
}

/// A stop then a start runs a new listener: the start is accepted, and the
/// worker that ran before the stop is no longer current.
pub proof fn lemma_restart_retires_the_old_worker(c: ListenerControl)
    requires
        c.listening,
    ensures
        ({
            let stopped = ListenerControl { listening: false, generation: next_generation(c.generation) };
            let (restarted, g) = spec_begin_start(stopped);
            &&& g is Some
            &&& spec_is_current(restarted, g->0)
            &&& !spec_is_current(restarted, c.generation)
        }),
{
}

/// The poll interval is never below the active minimum, and never below the
/// idle minimum when nothing is to be chosen.
pub proof fn lemma_poll_interval_floor(state: StateModel, panel: PanelState, capture: CaptureSettings)
    ensures
        active_interval(capture) >= MIN_ACTIVE_LISTEN_INTERVAL_MS,
        idle_interval(capture) >= MIN_IDLE_LISTEN_INTERVAL_MS,
        !uses_active_interval(state, panel) ==> idle_interval(capture) >= MIN_IDLE_LISTEN_INTERVAL_MS,
        active_interval(capture) >= capture.poll_interval_ms,
        idle_interval(capture) >= capture.idle_poll_interval_ms,
{
}


/// Below level 3 nothing is read or shown: the panel is not read, the
/// overlay hides and the listener polls at the idle interval.
pub proof fn lemma_below_level_three_shows_nothing(state: StateModel, panel: PanelState, slots: Seq<SlotDataModel>)
    requires
        crate::state_machine::well_formed(state),
        match state.player {
            Some(p) => p.level < 3,
            None => true,
        },
    ensures
        !spec_should_detect_panel(state.player),
        spec_overlay_plan(state, panel, slots) is Hide,
        spec_overlay_request(state, panel) is None,
        !uses_active_interval(state, panel),
{
    match state.player {
        Some(p) => {
            crate::state_machine::lemma_pending_tiers_facts(p.level, state.completed);
            let r = crate::state_machine::spec_pending_tiers(p.level, state.completed);
            if r.len() > 0 {
                assert(crate::state_machine::augment_tiers().contains(r[0]));
                assert(p.level >= r[0]);
            }
        },
        None => {},
    }
}

} // verus!
