//! OCR resources and the matching of recognized text against the augment
//! dictionary: name normalization, edit distance and the choice of the best
//! dictionary entry, plus the checks on offline replay inputs.
use vstd::prelude::*;
use crate::text::{decimal, decimal_string, join_path, joined, owned, push_str};

verus! {

pub const PPOCR_V4_REC_MODEL: &'static str = "ppocrv4_rec.onnx";

pub const AUGMENT_DICTIONARY_ZH_CN: &'static str = "augments.zh-CN.json";

pub const CALIBRATED_NAME_SLOT_COUNT: usize = 3;

#[derive(Debug, Clone, Copy, PartialEq, Eq, Structural)]
pub enum OcrErrorCode {
    ModelMissing,
    DictionaryMissing,
    InvalidDictionary,
    InvalidReplayInput,
    OrtSession,
    InferenceNotImplemented,
    Io,
    Serialization,
}

#[derive(Debug, Clone, PartialEq, Eq)]
pub struct OcrError {
    pub code: OcrErrorCode,
    pub message: String,
    pub path: Option<String>,
}

impl OcrError {
    /// An error with its code, message and the path it is about.
    pub fn new(code: OcrErrorCode, message: String, path: Option<String>) -> (r: Self)
        ensures
            r.code == code,
            r.message@ == message@,
            r.path == path,
    {
        OcrError { code, message, path }
    }

    /// The human-readable description: the message, then the path when there is one.
    pub fn message_text(&self) -> (r: String)
        ensures
            r@ == match self.path {
                Some(p) => self.message@ + ": "@ + p@,
                None => self.message@,
            },
    {
        let mut r = self.message.clone();
        match &self.path {
            Some(p) => {
                push_str(&mut r, ": ");
                push_str(&mut r, p.as_str());
            },
            None => {},
        }
        r
    }
}

#[derive(Debug, Clone)]
pub struct PpOcrResourcePaths {
    pub model_path: String,
}

/// Where the recognition model lies under a resource root.
pub open spec fn model_path_of(resource_root: Seq<char>) -> Seq<char> {
    joined(joined(resource_root, "models"@), "ppocrv4_rec.onnx"@)
}

impl PpOcrResourcePaths {
    /// The resource paths under `resource_root`.
    pub fn from_resource_root(resource_root: &str) -> (r: Self)
        ensures
            r.model_path@ == model_path_of(resource_root@),
    {
        let models = join_path(resource_root, "models");
        PpOcrResourcePaths { model_path: join_path(models.as_str(), PPOCR_V4_REC_MODEL) }
    }
}

#[derive(Debug, Clone, PartialEq, Eq)]
pub struct OcrResourceStatus {
    pub engine: String,
    pub model_path: String,
    pub model_exists: bool,
    pub ready: bool,
    pub error_code: Option<String>,
    pub message: String,
}

/// The status report for a model path and whether the file is there.
pub open spec fn resource_status_holds(r: OcrResourceStatus, model_path: Seq<char>, model_exists: bool) -> bool {
    &&& r.engine@ == "ppocr-v4-rec-onnx"@
    &&& r.model_path@ == model_path
    &&& r.model_exists == model_exists
    &&& r.ready == model_exists
    &&& match r.error_code {
        Some(code) => !model_exists && code@ == "HEX-OCR-MODEL-MISSING"@,
        None => model_exists,
    }
    &&& r.message@ == if model_exists {
        "PP-OCRv4 rec ONNX 模型文件已就绪"@
    } else {
        "缺少 PP-OCRv4 rec ONNX 模型文件，请放置到 "@ + model_path
    }
}

/// The status report for a model path, given whether the model file exists.
pub fn resource_status(model_path: String, model_exists: bool) -> (r: OcrResourceStatus)
    ensures
        resource_status_holds(r, model_path@, model_exists),
{
    let message = if model_exists {
        owned("PP-OCRv4 rec ONNX 模型文件已就绪")
    } else {
        let mut m = owned("缺少 PP-OCRv4 rec ONNX 模型文件，请放置到 ");
        push_str(&mut m, model_path.as_str());
        m
    };
    OcrResourceStatus {
        engine: owned("ppocr-v4-rec-onnx"),
        model_path: model_path,
        model_exists: model_exists,
        ready: model_exists,
        error_code: if model_exists {
            None
        } else {
            Some(owned("HEX-OCR-MODEL-MISSING"))
        },
        message: message,
    }
}

/// `std::path::Path::is_file`: whether a regular file is at `path` now.
#[verifier::external_body]
pub(crate) fn path_is_file(path: &str) -> (r: bool) {
    std::path::Path::new(path).is_file()
}

/// Checks the recognition resources under `resource_root`; the report is the
/// one for the model path and for what the file system answered.
pub fn check_ppocr_resources(resource_root: &str) -> (r: OcrResourceStatus)
    ensures
        resource_status_holds(r, model_path_of(resource_root@), r.model_exists),
{
    let paths = PpOcrResourcePaths::from_resource_root(resource_root);
    let exists = path_is_file(paths.model_path.as_str());
    resource_status(paths.model_path, exists)
}

// ---------------------------------------------------------------------------
// Name normalization and edit distance
// ---------------------------------------------------------------------------

/// Whether std's `char::is_alphanumeric` holds of `c`.
pub uninterp spec fn is_alphanumeric(c: char) -> bool;

/// The first character of std's `char::to_lowercase` of `c` (`c` itself when
/// the mapping is empty).
pub uninterp spec fn lowercase_first(c: char) -> char;

/// `char::is_alphanumeric` of std.
#[verifier::external_body]
fn char_is_alphanumeric(c: char) -> (r: bool)
    ensures
        r == is_alphanumeric(c),
{
    c.is_alphanumeric()
}

/// `char::to_lowercase` of std, first character.
#[verifier::external_body]
fn char_lowercase_first(c: char) -> (r: char)
    ensures
        r == lowercase_first(c),
{
    c.to_lowercase().next().unwrap_or(c)
}

/// Whether `c` is a CJK unified ideograph (extension A, the basic block, or a
/// compatibility ideograph).
pub open spec fn spec_is_cjk(c: char) -> bool {
    (0x3400 <= c as u32 <= 0x4DBF) || (0x4E00 <= c as u32 <= 0x9FFF) || (0xF900 <= c as u32 <= 0xFAFF)
}

/// Whether `c` is a CJK unified ideograph.
pub fn is_cjk(c: char) -> (r: bool)
    ensures
        r == spec_is_cjk(c),
{
    let v = c as u32;
    (0x3400 <= v && v <= 0x4DBF) || (0x4E00 <= v && v <= 0x9FFF) || (0xF900 <= v && v <= 0xFAFF)
}

/// Whether a character takes part in name matching.
pub open spec fn kept_in_name(c: char) -> bool {
    is_alphanumeric(c) || spec_is_cjk(c)
}

/// The matching form of a name: letters, digits and CJK ideographs only, lowercased.
pub open spec fn normalized_name(s: Seq<char>) -> Seq<char> {
    s.filter(|c: char| kept_in_name(c)).map_values(|c: char| lowercase_first(c))
}

/// The matching form of a name.
pub fn normalize_name(value: &str) -> (r: Vec<char>)
    ensures
        r@ == normalized_name(value@),
{
    let n = value.unicode_len();
    let mut r: Vec<char> = Vec::new();
    let mut i: usize = 0;
    let ghost pred = |c: char| kept_in_name(c);
    let ghost low = |c: char| lowercase_first(c);
    while i < n
        invariant
            0 <= i <= n,
            n == value@.len(),
            pred == (|c: char| kept_in_name(c)),
            low == (|c: char| lowercase_first(c)),
            r@ == value@.take(i as int).filter(pred).map_values(low),
        decreases n - i,
    {
        let c = value.get_char(i);
        proof {
            assert(value@.take(i + 1).drop_last() =~= value@.take(i as int));
            reveal_with_fuel(Seq::<char>::filter, 1);
        }
        if char_is_alphanumeric(c) || is_cjk(c) {
            let lower = char_lowercase_first(c);
            r.push(lower);
            proof {
                assert(value@.take(i + 1).filter(pred) == value@.take(i as int).filter(pred).push(c));
                assert(value@.take(i + 1).filter(pred).map_values(low) =~= value@.take(i as int).filter(
                    pred,
                ).map_values(low).push(lower));
            }
        } else {
            proof {
                assert(value@.take(i + 1).filter(pred) == value@.take(i as int).filter(pred));
            }
        }
        i = i + 1;
    }
    assert(value@.take(n as int) =~= value@);
    r
}

pub open spec fn min2(a: nat, b: nat) -> nat {
    if a <= b {
        a
    } else {
        b
    }
}

/// The edit (Levenshtein) distance: the least number of single-character
/// insertions, deletions and substitutions turning `a` into `b`.
pub open spec fn edit_distance(a: Seq<char>, b: Seq<char>) -> nat
    decreases a.len() + b.len(),
{
    if a.len() == 0 {
        b.len()
    } else if b.len() == 0 {
        a.len()
    } else {
        min2(
            min2(edit_distance(a.drop_last(), b) + 1, edit_distance(a, b.drop_last()) + 1),
            edit_distance(a.drop_last(), b.drop_last()) + if a.last() == b.last() {
                0nat
            } else {
                1nat
            },
        )
    }
}

/// The edit distance is at most the longer length.
pub proof fn lemma_edit_distance_bound(a: Seq<char>, b: Seq<char>)
    ensures
        edit_distance(a, b) <= if a.len() >= b.len() {
            a.len()
        } else {
            b.len()
        },
    decreases a.len() + b.len(),
{
    if a.len() > 0 && b.len() > 0 {
        lemma_edit_distance_bound(a.drop_last(), b.drop_last());
    }
}

/// The edit distance between `left` and `right`.
pub fn levenshtein(left: &Vec<char>, right: &Vec<char>) -> (r: usize)
    ensures
        r == edit_distance(left@, right@),
{
    let n = left.len();
    let m = right.len();
    let mut previous: Vec<u128> = Vec::new();
    let mut j: usize = 0;
    while j < m
        invariant
            0 <= j <= m,
            m == right@.len(),
            previous@.len() == j,
            forall|k: int| 0 <= k < j ==> previous@[k] == edit_distance(Seq::<char>::empty(), right@.take(k)),
        decreases m - j,
    {
        previous.push(j as u128);
        proof {
            assert(right@.take(j as int).len() == j);
        }
        j = j + 1;
    }
    previous.push(m as u128);
    proof {
        assert(right@.take(m as int).len() == m);
    }
    let mut i: usize = 0;
    while i < n
        invariant
            0 <= i <= n,
            n == left@.len(),
            m == right@.len(),
            previous@.len() == m + 1,
            forall|k: int| 0 <= k <= m ==> previous@[k] == edit_distance(left@.take(i as int), right@.take(k)),
        decreases n - i,
    {
        let mut current: Vec<u128> = Vec::new();
        proof {
            assert(right@.take(0) =~= Seq::<char>::empty());
            assert(left@.take(i + 1).len() == i + 1);
        }
        current.push(i as u128 + 1);
        let mut k: usize = 0;
        while k < m
            invariant
                0 <= k <= m,
                0 <= i < n,
                n == left@.len(),
                m == right@.len(),
                previous@.len() == m + 1,
                current@.len() == k + 1,
                forall|q: int| 0 <= q <= m ==> previous@[q] == edit_distance(left@.take(i as int), right@.take(q)),
                forall|q: int| 0 <= q <= k ==> current@[q] == edit_distance(left@.take(i + 1), right@.take(q)),
            decreases m - k,
        {
            proof {
                let a = left@.take(i + 1);
                let b = right@.take(k + 1);
                assert(a.drop_last() =~= left@.take(i as int));
                assert(b.drop_last() =~= right@.take(k as int));
                assert(a.last() == left@[i as int]);
                assert(b.last() == right@[k as int]);
                lemma_edit_distance_bound(left@.take(i + 1), right@.take(k as int));
                lemma_edit_distance_bound(left@.take(i as int), right@.take(k + 1));
                lemma_edit_distance_bound(left@.take(i as int), right@.take(k as int));
            }
            let insertion = current[k] + 1;
            let deletion = previous[k + 1] + 1;
            let substitution = previous[k] + if left[i] == right[k] {
                0
            } else {
                1
            };
            let best = if insertion <= deletion {
                insertion
            } else {
                deletion
            };
            let best = if best <= substitution {
                best
            } else {
                substitution
            };
            current.push(best);
            k = k + 1;
        }
        previous = current;
        i = i + 1;
    }
    proof {
        assert(left@.take(n as int) =~= left@);
        assert(right@.take(m as int) =~= right@);
        lemma_edit_distance_bound(left@, right@);
    }
    previous[m] as usize
}

// ---------------------------------------------------------------------------
// Dictionary matching
// ---------------------------------------------------------------------------

#[derive(Debug, Clone, PartialEq, Eq)]
pub struct AugmentEntry {
    pub id: String,
    pub name: String,
    pub aliases: Vec<String>,
}

#[derive(Debug, Clone, PartialEq, Eq)]
pub struct AugmentDictionary {
    pub locale: String,
    pub version: u32,
    pub augments: Vec<AugmentEntry>,
}

/// The texts an entry can be recognized by: its name, then its aliases.
pub open spec fn entry_texts(e: AugmentEntry) -> Seq<Seq<char>> {
    seq![e.name@] + e.aliases@.map_values(|a: String| a@)
}

/// Every recognizable text of the dictionary with the index of its entry, in
/// dictionary order.
pub open spec fn candidates(entries: Seq<AugmentEntry>) -> Seq<(int, Seq<char>)>
    decreases entries.len(),
{
    if entries.len() == 0 {
        Seq::empty()
    } else {
        let k = entries.len() - 1;
        candidates(entries.drop_last()) + entry_texts(entries.last()).map_values(|t: Seq<char>| (k, t))
    }
}

/// The similarity of a normalized candidate to the normalized recognized text
/// is `1 - distance / longer length`; it is kept as the pair (distance, longer length).
pub open spec fn score_of(raw: Seq<char>, candidate: Seq<char>) -> (nat, nat) {
    let c = normalized_name(candidate);
    (edit_distance(raw, c), if raw.len() >= c.len() {
        raw.len()
    } else {
        c.len()
    })
}

/// Whether the score `x` is at least as high as the score `y` (lengths positive).
pub open spec fn at_least_as_similar(x: (nat, nat), y: (nat, nat)) -> bool {
    x.0 * y.1 <= y.0 * x.1
}

/// The position in `cands` of the most similar candidate; among equally
/// similar ones the last wins.
pub open spec fn best_position(raw: Seq<char>, cands: Seq<(int, Seq<char>)>) -> Option<int>
    decreases cands.len(),
{
    if cands.len() == 0 {
        None
    } else {
        let k = cands.len() - 1;
        match best_position(raw, cands.drop_last()) {
            None => Some(k),
            Some(b) => if at_least_as_similar(score_of(raw, cands[k].1), score_of(raw, cands[b].1)) {
                Some(k)
            } else {
                Some(b)
            },
        }
    }
}

#[derive(Debug, Clone, Copy, PartialEq, Eq, Structural)]
pub enum DictionaryMatch {
    /// Nothing is left of the recognized text after normalization.
    EmptyText,
    /// The dictionary has no entry.
    EmptyDictionary,
    /// The most similar entry, with the edit distance and the longer
    /// normalized length that make up its similarity.
    Best { entry: usize, distance: usize, longer_len: usize },
}

/// The best dictionary match of a recognized text.
pub open spec fn spec_best_match(dictionary: AugmentDictionary, raw_text: Seq<char>) -> DictionaryMatch {
    let raw = normalized_name(raw_text);
    let cands = candidates(dictionary.augments@);
    if raw.len() == 0 {
        DictionaryMatch::EmptyText
    } else {
        match best_position(raw, cands) {
            None => DictionaryMatch::EmptyDictionary,
            Some(b) => DictionaryMatch::Best {
                entry: cands[b].0 as usize,
                distance: score_of(raw, cands[b].1).0 as usize,
                longer_len: score_of(raw, cands[b].1).1 as usize,
            },
        }
    }
}

proof fn lemma_candidates_step(entries: Seq<AugmentEntry>, i: int)
    requires
        0 <= i < entries.len(),
    ensures
        candidates(entries.take(i + 1)) == candidates(entries.take(i)) + entry_texts(entries[i]).map_values(
            |t: Seq<char>| (i, t),
        ),
{
    assert(entries.take(i + 1).drop_last() =~= entries.take(i));
}

proof fn lemma_candidates_entries(entries: Seq<AugmentEntry>)
    ensures
        forall|p: int| 0 <= p < candidates(entries).len() ==> 0 <= (#[trigger] candidates(entries)[p]).0 < entries.len(),
    decreases entries.len(),
{
    if entries.len() > 0 {
        lemma_candidates_entries(entries.drop_last());
        let prev = candidates(entries.drop_last());
        let k = entries.len() - 1;
        let added = entry_texts(entries.last()).map_values(|t: Seq<char>| (k, t));
        assert forall|p: int| 0 <= p < candidates(entries).len() implies 0 <= (#[trigger] candidates(entries)[p]).0 < entries.len() by {
            if p < prev.len() {
                assert(candidates(entries)[p] == prev[p]);
            } else {
                assert(candidates(entries)[p] == added[p - prev.len()]);
            }
        }
    }
}

proof fn lemma_best_position_in_range(raw: Seq<char>, cands: Seq<(int, Seq<char>)>)
    ensures
        match best_position(raw, cands) {
            Some(b) => 0 <= b < cands.len(),
            None => cands.len() == 0,
        },
    decreases cands.len(),
{
    if cands.len() > 0 {
        lemma_best_position_in_range(raw, cands.drop_last());
    }
}

proof fn lemma_best_position_push(raw: Seq<char>, cands: Seq<(int, Seq<char>)>, x: (int, Seq<char>))
    ensures
        best_position(raw, cands.push(x)) == match best_position(raw, cands) {
            None => Some(cands.len() as int),
            Some(b) => if at_least_as_similar(score_of(raw, x.1), score_of(raw, cands[b].1)) {
                Some(cands.len() as int)
            } else {
                Some(b)
            },
        },
        forall|b: int| 0 <= b < cands.len() ==> cands.push(x)[b] == cands[b],
{
    assert(cands.push(x).drop_last() =~= cands);
    lemma_best_position_in_range(raw, cands);
}

pub open spec fn triple_matches(t: (usize, usize, usize), entry: int, score: (nat, nat)) -> bool {
    t.0 == entry && t.1 == score.0 && t.2 == score.1
}

/// Whether `best` holds the entry and score of the best position among `cands`.
pub open spec fn tracks_best(raw: Seq<char>, cands: Seq<(int, Seq<char>)>, best: Option<(usize, usize, usize)>) -> bool {
    match best_position(raw, cands) {
        None => best is None,
        Some(b) => {
            &&& 0 <= b < cands.len()
            &&& best is Some
            &&& triple_matches(best->0, cands[b].0, score_of(raw, cands[b].1))
        },
    }
}

/// Considers one more candidate.
fn consider(
    raw: &Vec<char>,
    text: &str,
    entry: usize,
    best: Option<(usize, usize, usize)>,
) -> (r: (usize, usize, usize))
    requires
        raw@.len() > 0,
    ensures
        ({
            let s = score_of(raw@, text@);
            let take = match best {
                None => true,
                Some(b) => at_least_as_similar(s, (b.1 as nat, b.2 as nat)),
            };
            if take {
                r.0 == entry && r.1 == s.0 && r.2 == s.1
            } else {
                best == Some(r)
            }
        }),
{
    let candidate = normalize_name(text);
    let distance = levenshtein(raw, &candidate);
    let longer = if raw.len() >= candidate.len() {
        raw.len()
    } else {
        candidate.len()
    };
    match best {
        None => (entry, distance, longer),
        Some(b) => {
            proof {
                assert((distance as u128) * (b.2 as u128) <= 0xFFFF_FFFF_FFFF_FFFFu128 * 0xFFFF_FFFF_FFFF_FFFFu128)
                    by (nonlinear_arith)
                    requires
                        distance <= 0xFFFF_FFFF_FFFF_FFFFu128,
                        b.2 <= 0xFFFF_FFFF_FFFF_FFFFu128,
                ;
                assert((b.1 as u128) * (longer as u128) <= 0xFFFF_FFFF_FFFF_FFFFu128 * 0xFFFF_FFFF_FFFF_FFFFu128)
                    by (nonlinear_arith)
                    requires
                        longer <= 0xFFFF_FFFF_FFFF_FFFFu128,
                        b.1 <= 0xFFFF_FFFF_FFFF_FFFFu128,
                ;
            }
            let lhs = (distance as u128) * (b.2 as u128);
            let rhs = (b.1 as u128) * (longer as u128);
            if lhs <= rhs {
                (entry, distance, longer)
            } else {
                b
            }
        },
    }
}

/// The best dictionary match of a recognized text: the dictionary text with
/// the highest similarity to it (the later one among equals), after both were normalized.
pub fn best_dictionary_match(dictionary: &AugmentDictionary, raw_text: &str) -> (r: DictionaryMatch)
    ensures
        r == spec_best_match(*dictionary, raw_text@),
{
    let raw = normalize_name(raw_text);
    if raw.len() == 0 {
        return DictionaryMatch::EmptyText;
    }
    let ghost entries = dictionary.augments@;
    let mut best: Option<(usize, usize, usize)> = None;
    let mut i: usize = 0;
    while i < dictionary.augments.len()
        invariant
            0 <= i <= dictionary.augments@.len(),
            entries == dictionary.augments@,
            raw@ == normalized_name(raw_text@),
            raw@.len() > 0,
            tracks_best(raw@, candidates(entries.take(i as int)), best),
        decreases dictionary.augments@.len() - i,
    {
        let entry = &dictionary.augments[i];
        let ghost texts = entry_texts(*entry).map_values(|t: Seq<char>| (i as int, t));
        let ghost before = candidates(entries.take(i as int));
        proof {
            lemma_candidates_step(entries, i as int);
        }
        let r0 = consider(&raw, entry.name.as_str(), i, best);
        proof {
            assert(before + texts.take(1) =~= before.push((i as int, entry.name@)));
            lemma_best_position_push(raw@, before, (i as int, entry.name@));
        }
        best = Some(r0);
        let mut j: usize = 0;
        while j < entry.aliases.len()
            invariant
                0 <= j <= entry.aliases@.len(),
                0 <= i < entries.len(),
                entry == entries[i as int],
                texts == entry_texts(*entry).map_values(|t: Seq<char>| (i as int, t)),
                raw@.len() > 0,
                tracks_best(raw@, before + texts.take(j + 1), best),
            decreases entry.aliases@.len() - j,
        {
            let r1 = consider(&raw, entry.aliases[j].as_str(), i, best);
            proof {
                let c = before + texts.take(j + 1);
                assert(before + texts.take(j + 2) =~= c.push((i as int, entry.aliases@[j as int]@)));
                lemma_best_position_push(raw@, c, (i as int, entry.aliases@[j as int]@));
            }
            best = Some(r1);
            j = j + 1;
        }
        proof {
            assert(texts.take(entry.aliases@.len() + 1 as int) =~= texts);
        }
        i = i + 1;
    }
    proof {
        assert(entries.take(entries.len() as int) =~= entries);
    }
    match best {
        None => DictionaryMatch::EmptyDictionary,
        Some(b) => DictionaryMatch::Best { entry: b.0, distance: b.1, longer_len: b.2 },
    }
}

// ---------------------------------------------------------------------------
// Calibrated name slots and replay inputs
// ---------------------------------------------------------------------------

#[derive(Debug, Clone, Copy, PartialEq, Eq, Structural)]
pub enum CalibratedNameSlot {
    Left,
    Center,
    Right,
}

pub open spec fn slot_name(slot: CalibratedNameSlot) -> Seq<char> {
    match slot {
        CalibratedNameSlot::Left => "left"@,
        CalibratedNameSlot::Center => "center"@,
        CalibratedNameSlot::Right => "right"@,
    }
}

impl CalibratedNameSlot {
    /// The slot's name in reports.
    pub fn as_str(self) -> (r: &'static str)
        ensures
            r@ == slot_name(self),
    {
        match self {
            CalibratedNameSlot::Left => "left",
            CalibratedNameSlot::Center => "center",
            CalibratedNameSlot::Right => "right",
        }
    }
}

/// Whether the slot at position `k` already occurred before it.
pub open spec fn repeats_at(slots: Seq<CalibratedNameSlot>, k: int) -> bool {
    exists|q: int| 0 <= q < k && #[trigger] slots[q] == slots[k]
}

/// The first position below `n` whose slot already occurred before it.
pub open spec fn first_repeat(slots: Seq<CalibratedNameSlot>, n: nat) -> Option<int>
    decreases n,
{
    if n == 0 {
        None
    } else {
        match first_repeat(slots, (n - 1) as nat) {
            Some(k) => Some(k),
            None => if repeats_at(slots, n - 1) {
                Some(n - 1)
            } else {
                None
            },
        }
    }
}

/// Replay inputs are accepted when they name exactly three slots, each once.
pub open spec fn replay_check(slots: Seq<CalibratedNameSlot>) -> Result<(), (OcrErrorCode, Seq<char>)> {
    if slots.len() != CALIBRATED_NAME_SLOT_COUNT {
        Err((
            OcrErrorCode::InvalidReplayInput,
            "离线回放只接受 3 个校准名称区域，实际收到 "@ + decimal(slots.len()) + " 个"@,
        ))
    } else {
        match first_repeat(slots, slots.len()) {
            Some(k) => Err((OcrErrorCode::InvalidReplayInput, "离线回放存在重复名称区域 "@ + slot_name(slots[k]))),
            None => Ok(()),
        }
    }
}

/// Checks the slots of an offline replay: exactly three, none repeated.
pub fn check_replay_slots(slots: &Vec<CalibratedNameSlot>) -> (r: Result<(), OcrError>)
    ensures
        match r {
            Ok(()) => replay_check(slots@) == Ok::<(), (OcrErrorCode, Seq<char>)>(()),
            Err(e) => e.path is None && replay_check(slots@) == Err::<(), (OcrErrorCode, Seq<char>)>(
                (e.code, e.message@),
            ),
        },
{
    if slots.len() != CALIBRATED_NAME_SLOT_COUNT {
        let mut message = owned("离线回放只接受 3 个校准名称区域，实际收到 ");
        let count = decimal_string(slots.len() as u128);
        push_str(&mut message, count.as_str());
        push_str(&mut message, " 个");
        return Err(OcrError::new(OcrErrorCode::InvalidReplayInput, message, None));
    }
    let mut k: usize = 0;
    while k < slots.len()
        invariant
            0 <= k <= slots@.len(),
            slots@.len() == 3,
            first_repeat(slots@, k as nat) is None,
        decreases slots@.len() - k,
    {
        let mut q: usize = 0;
        while q < k
            invariant
                0 <= q <= k < slots@.len(),
                slots@.len() == 3,
                first_repeat(slots@, k as nat) is None,
                forall|q2: int| 0 <= q2 < q ==> slots@[q2] != slots@[k as int],
            decreases k - q,
        {
            if slots[q] == slots[k] {
                proof {
                    assert(slots@[q as int] == slots@[k as int]);
                    assert(repeats_at(slots@, k as int));
                    assert(first_repeat(slots@, (k + 1) as nat) == Some(k as int));
                    lemma_first_repeat_stable(slots@, (k + 1) as nat, 3);
                }
                let mut message = owned("离线回放存在重复名称区域 ");
                push_str(&mut message, slots[k].as_str());
                return Err(OcrError::new(OcrErrorCode::InvalidReplayInput, message, None));
            }
            q = q + 1;
        }
        proof {
            assert(!repeats_at(slots@, k as int));
        }
        k = k + 1;
    }
    Ok(())
}

proof fn lemma_first_repeat_stable(slots: Seq<CalibratedNameSlot>, n: nat, m: nat)
    requires
        n <= m,
        first_repeat(slots, n) is Some,
    ensures
        first_repeat(slots, m) == first_repeat(slots, n),
    decreases m - n,
{
    if n < m {
        lemma_first_repeat_stable(slots, n, (m - 1) as nat);
    }
}

} // verus!
