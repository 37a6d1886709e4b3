//! Reading the augment panel at runtime: which calibrated slots and button
//! look active, when OCR is run, how recognized names become choices, and
//! the preferred monitor setting.
use vstd::prelude::*;
use crate::calibration::PixelRect;
use crate::ocr::{slot_name, CalibratedNameSlot};
use crate::state_machine::{choice_views, AugmentChoice, PanelState};
use crate::text::{
    owned, parse_u32, parses_as_u32, push_str, text_eq, trimmed, trimmed_owned,
    digits_value, unsigned_digits, u32_parse_error,
};

verus! {

/// What OCR made of one calibrated name slot: the slot and, when the name
/// matched the dictionary, the augment id.
#[derive(Debug, Clone, PartialEq, Eq)]
pub struct OcrSlotChoice {
    pub slot: CalibratedNameSlot,
    pub augment_id: Option<String>,
}

/// The panel slot number of a calibrated name slot: left 1, center 2, right 3.
pub open spec fn spec_slot_index(slot: CalibratedNameSlot) -> u8 {
    let name = slot_name(slot);
    if name == "left"@ {
        1
    } else if name == "center"@ {
        2
    } else if name == "right"@ {
        3
    } else {
        0
    }
}

/// The panel slot number of a calibrated name slot.
pub fn slot_index(slot: CalibratedNameSlot) -> (r: u8)
    ensures
        r == spec_slot_index(slot),
{
    let name = slot.as_str();
    if text_eq(name, "left") {
        1
    } else if text_eq(name, "center") {
        2
    } else if text_eq(name, "right") {
        3
    } else {
        0
    }
}

/// The choices OCR recognized: one for each slot with a matched augment id,
/// in slot report order.
pub open spec fn spec_choices_from_ocr(slots: Seq<OcrSlotChoice>) -> Seq<(u8, Seq<char>)>
    decreases slots.len(),
{
    if slots.len() == 0 {
        Seq::empty()
    } else {
        let prev = spec_choices_from_ocr(slots.drop_last());
        match slots.last().augment_id {
            Some(id) => prev.push((spec_slot_index(slots.last().slot), id@)),
            None => prev,
        }
    }
}

/// The choices OCR recognized.
pub fn build_choices_from_ocr(slots: &Vec<OcrSlotChoice>) -> (r: Vec<AugmentChoice>)
    ensures
        choice_views(r@) == spec_choices_from_ocr(slots@),
{
    let mut out: Vec<AugmentChoice> = Vec::new();
    let mut i: usize = 0;
    while i < slots.len()
        invariant
            0 <= i <= slots@.len(),
            choice_views(out@) == spec_choices_from_ocr(slots@.take(i as int)),
        decreases slots@.len() - i,
    {
        proof {
            assert(slots@.take(i + 1).drop_last() =~= slots@.take(i as int));
        }
        match &slots[i].augment_id {
            Some(id) => {
                let ghost before = out@;
                let c = AugmentChoice { slot: slot_index(slots[i].slot), augment_id: id.clone() };
                out.push(c);
                proof {
                    assert(choice_views(before.push(c)) =~= choice_views(before).push(c@));
                }
            },
            None => {},
        }
        i = i + 1;
    }
    assert(slots@.take(slots@.len() as int) =~= slots@);
    out
}

/// How many of the flags are set.
pub open spec fn count_true(flags: Seq<bool>) -> nat
    decreases flags.len(),
{
    if flags.len() == 0 {
        0
    } else {
        count_true(flags.drop_last()) + if flags.last() {
            1nat
        } else {
            0nat
        }
    }
}

fn visible_count(flags: &Vec<bool>) -> (r: usize)
    ensures
        r == count_true(flags@),
{
    let mut n: usize = 0;
    let mut i: usize = 0;
    while i < flags.len()
        invariant
            0 <= i <= flags@.len(),
            n == count_true(flags@.take(i as int)),
            n <= i,
        decreases flags@.len() - i,
    {
        proof {
            assert(flags@.take(i + 1).drop_last() =~= flags@.take(i as int));
        }
        if flags[i] {
            n = n + 1;
        }
        i = i + 1;
    }
    assert(flags@.take(flags@.len() as int) =~= flags@);
    n
}

/// Whether OCR is run on a capture: when the button looks active or at least
/// two name slots do.
pub open spec fn spec_should_run_ocr(button_visible: bool, slot_visible: Seq<bool>) -> bool {
    button_visible || count_true(slot_visible) >= 2
}

/// Whether OCR is run on a capture.
pub fn should_run_ocr(button_visible: bool, slot_visible: &Vec<bool>) -> (r: bool)
    ensures
        r == spec_should_run_ocr(button_visible, slot_visible@),
{
    button_visible || visible_count(slot_visible) >= 2
}

/// Whether the panel counts as expanded: two recognized choices, or two
/// active name slots, or an active button with at least one of either.
pub open spec fn spec_panel_expanded(button_visible: bool, visible_slots: nat, recognized: nat) -> bool {
    recognized >= 2 || visible_slots >= 2 || (button_visible && (recognized >= 1 || visible_slots >= 1))
}

/// The panel state and choices read from a capture: the choices OCR
/// recognized (none without an OCR report) and the state they and the
/// region activity imply.
pub fn build_panel_result(
    button_visible: bool,
    slot_visible: &Vec<bool>,
    ocr_slots: Option<&Vec<OcrSlotChoice>>,
) -> (r: (PanelState, Vec<AugmentChoice>))
    ensures
        choice_views(r.1@) == match ocr_slots {
            Some(s) => spec_choices_from_ocr(s@),
            None => Seq::empty(),
        },
        (r.0 == PanelState::Expanded) == spec_panel_expanded(button_visible, count_true(slot_visible@), r.1@.len()),
{
    let choices = match ocr_slots {
        Some(s) => build_choices_from_ocr(s),
        None => {
            let v: Vec<AugmentChoice> = Vec::new();
            assert(choice_views(v@) =~= Seq::<(u8, Seq<char>)>::empty());
            v
        },
    };
    let visible = visible_count(slot_visible);
    let recognized = choices.len();
    let panel_state = if recognized >= 2 || visible >= 2 || (button_visible && (recognized >= 1 || visible >= 1)) {
        PanelState::Expanded
    } else {
        PanelState::Collapsed
    };
    (panel_state, choices)
}

/// A region cut to an image: its edges clamped to the image (with saturation),
/// nothing when it is empty afterwards.
pub open spec fn spec_clamp_rect(rect: PixelRect, image_width: u32, image_height: u32) -> Option<PixelRect> {
    let x = if rect.x < image_width { rect.x } else { image_width };
    let y = if rect.y < image_height { rect.y } else { image_height };
    let r0 = rect.x.saturating_add(rect.width);
    let b0 = rect.y.saturating_add(rect.height);
    let right = if r0 < image_width { r0 } else { image_width };
    let bottom = if b0 < image_height { b0 } else { image_height };
    let width = right.saturating_sub(x);
    let height = bottom.saturating_sub(y);
    if width == 0 || height == 0 {
        None
    } else {
        Some(PixelRect { x, y, width, height })
    }
}

/// A region cut to an image.
pub fn clamp_rect(rect: PixelRect, image_width: u32, image_height: u32) -> (r: Option<PixelRect>)
    ensures
        r == spec_clamp_rect(rect, image_width, image_height),
{
    let x = if rect.x < image_width { rect.x } else { image_width };
    let y = if rect.y < image_height { rect.y } else { image_height };
    let r0 = rect.x.saturating_add(rect.width);
    let b0 = rect.y.saturating_add(rect.height);
    let right = if r0 < image_width { r0 } else { image_width };
    let bottom = if b0 < image_height { b0 } else { image_height };
    let width = right.saturating_sub(x);
    let height = bottom.saturating_sub(y);
    if width == 0 || height == 0 {
        None
    } else {
        Some(PixelRect { x: x, y: y, width: width, height: height })
    }
}

/// A clamped region is not empty and lies inside the image.
pub proof fn lemma_clamped_rect_inside(rect: PixelRect, image_width: u32, image_height: u32)
    ensures
        spec_clamp_rect(rect, image_width, image_height) matches Some(c) ==> {
            &&& c.width > 0 && c.height > 0
            &&& c.x + c.width <= image_width
            &&& c.y + c.height <= image_height
        },
{
}

/// The preferred monitor setting read: blank or absent means none; otherwise
/// the trimmed text as a `u32`, or an error naming it.
pub open spec fn spec_preferred_monitor_id(value: Option<Seq<char>>) -> Result<Option<u32>, Seq<char>> {
    match value {
        None => Ok(None),
        Some(v) => {
            let t = trimmed(v);
            if t.len() == 0 {
                Ok(None)
            } else if parses_as_u32(t) {
                Ok(Some(digits_value(unsigned_digits(t)) as u32))
            } else {
                Err("HEX-RUNTIME-PANEL-MONITOR-ID: 无法解析显示器 ID "@ + t + ": "@ + u32_parse_error(t))
            }
        },
    }
}

/// The preferred monitor setting read.
pub fn parse_preferred_monitor_id(value: Option<&str>) -> (r: Result<Option<u32>, String>)
    ensures
        match (r, spec_preferred_monitor_id(match value {
            Some(v) => Some(v@),
            None => None,
        })) {
            (Ok(a), Ok(b)) => a == b,
            (Err(e), Err(m)) => e@ == m,
            _ => false,
        },
{
    match value {
        None => Ok(None),
        Some(v) => {
            let t = trimmed_owned(v);
            if t.as_str().unicode_len() == 0 {
                return Ok(None);
            }
            match parse_u32(t.as_str()) {
                Ok(id) => Ok(Some(id)),
                Err(error) => {
                    let mut message = owned("HEX-RUNTIME-PANEL-MONITOR-ID: 无法解析显示器 ID ");
                    push_str(&mut message, t.as_str());
                    push_str(&mut message, ": ");
                    push_str(&mut message, error.as_str());
                    Err(message)
                },
            }
        },
    }
}


/// The ONNX Runtime library a platform loads from a resource root.
pub open spec fn spec_ort_dylib_path(resource_root: Seq<char>, target_os: Seq<char>) -> Seq<char> {
    let file = if target_os == "windows"@ {
        "onnxruntime.dll"@
    } else if target_os == "macos"@ {
        "libonnxruntime.dylib"@
    } else {
        "libonnxruntime.so"@
    };
    crate::text::joined(crate::text::joined(resource_root, "onnxruntime"@), file)
}

/// The ONNX Runtime library a platform (named as `std::env::consts::OS`
/// names it) loads from a resource root.
pub fn ort_dylib_path(resource_root: &str, target_os: &str) -> (r: String)
    ensures
        r@ == spec_ort_dylib_path(resource_root@, target_os@),
{
    let file = if text_eq(target_os, "windows") {
        "onnxruntime.dll"
    } else if text_eq(target_os, "macos") {
        "libonnxruntime.dylib"
    } else {
        "libonnxruntime.so"
    };
    let dir = crate::text::join_path(resource_root, "onnxruntime");
    crate::text::join_path(dir.as_str(), file)
}


/// The panel read from a capture: a black screen shows a collapsed panel with
/// no choices and runs no OCR; otherwise OCR runs only when the activity calls
/// for it, and the panel follows from the activity and the recognized choices.
pub fn screened_panel_result(
    black_screen: bool,
    button_visible: bool,
    slot_visible: &Vec<bool>,
    ocr_slots: Option<&Vec<OcrSlotChoice>>,
) -> (r: (PanelState, Vec<AugmentChoice>))
    ensures
        black_screen ==> r.0 == PanelState::Collapsed && r.1@.len() == 0,
        !black_screen ==> {
            &&& choice_views(r.1@) == match ocr_slots {
                Some(s) => if spec_should_run_ocr(button_visible, slot_visible@) {
                    spec_choices_from_ocr(s@)
                } else {
                    Seq::empty()
                },
                None => Seq::empty(),
            }
            &&& (r.0 == PanelState::Expanded) == spec_panel_expanded(button_visible, count_true(slot_visible@), r.1@.len())
        },
{
    if black_screen {
        return (PanelState::Collapsed, Vec::new());
    }
    if should_run_ocr(button_visible, slot_visible) {
        build_panel_result(button_visible, slot_visible, ocr_slots)
    } else {
        build_panel_result(button_visible, slot_visible, None)
    }
}

} // verus!
