//! Overlay geometry and data: where a card goes inside a work area, the three
//! slot cards above the panel anchors, and how the runtime overlay is synced.
use vstd::prelude::*;
use crate::text::{decimal, owned, push_decimal, push_signed, push_str, signed_decimal};

verus! {

pub const DEFAULT_CARD_WIDTH: u32 = 260;

pub const DEFAULT_CARD_HEIGHT: u32 = 118;

pub const DEFAULT_GAP: i32 = 18;

pub const I32_MAX: u32 = 2147483647;

#[derive(Debug, Clone, Copy, PartialEq, Eq, Structural)]
pub enum OverlayAnchor {
    TopLeft,
    TopRight,
    BottomLeft,
    BottomRight,
}

#[derive(Debug, Clone, Copy, PartialEq, Eq, Structural)]
pub struct OverlayRect {
    pub x: i32,
    pub y: i32,
    pub width: u32,
    pub height: u32,
}

#[derive(Debug, Clone, Copy, PartialEq, Eq, Structural)]
pub struct OverlayPoint {
    pub x: i32,
    pub y: i32,
}

#[derive(Debug, Clone, Copy, PartialEq, Eq, Structural)]
pub struct OverlaySize {
    pub width: u32,
    pub height: u32,
}

#[derive(Debug, Clone, Copy, PartialEq, Eq, Structural)]
pub struct OverlayBounds {
    pub x: i32,
    pub y: i32,
    pub width: u32,
    pub height: u32,
}

#[derive(Debug, Clone, PartialEq, Eq)]
pub enum OverlayError {
    NoMonitor,
    MonitorNotFound(String),
    InvalidSize { width: u32, height: u32 },
    OutOfBounds { bounds: OverlayBounds, work_area: OverlayRect },
    Tauri(String),
}

pub open spec fn in_i32(v: int) -> bool {
    i32::MIN <= v <= i32::MAX
}

/// `i32::try_from(v).unwrap_or(i32::MAX)` for an unsigned value.
pub open spec fn clamp_to_i32(v: u32) -> int {
    if v <= I32_MAX {
        v as int
    } else {
        I32_MAX as int
    }
}

/// Whether a right or bottom edge and the work area's are representable.
pub open spec fn inside_check_defined(b: OverlayBounds, wa: OverlayRect) -> bool {
    &&& in_i32(b.x + clamp_to_i32(b.width))
    &&& in_i32(b.y + clamp_to_i32(b.height))
    &&& in_i32(wa.x + clamp_to_i32(wa.width))
    &&& in_i32(wa.y + clamp_to_i32(wa.height))
}

/// Whether `b` lies inside `wa`.
pub open spec fn inside(b: OverlayBounds, wa: OverlayRect) -> bool {
    &&& b.x >= wa.x
    &&& b.y >= wa.y
    &&& b.x + clamp_to_i32(b.width) <= wa.x + clamp_to_i32(wa.width)
    &&& b.y + clamp_to_i32(b.height) <= wa.y + clamp_to_i32(wa.height)
}

/// Checks that `bounds` lies inside `work_area`.
pub fn ensure_bounds_inside_work_area(bounds: OverlayBounds, work_area: OverlayRect) -> (r: Result<(), OverlayError>)
    requires
        inside_check_defined(bounds, work_area),
    ensures
        r is Ok <==> inside(bounds, work_area),
        r matches Err(e) ==> e == (OverlayError::OutOfBounds { bounds, work_area }),
{
    let w: i32 = if bounds.width <= I32_MAX {
        bounds.width as i32
    } else {
        2147483647
    };
    let h: i32 = if bounds.height <= I32_MAX {
        bounds.height as i32
    } else {
        2147483647
    };
    let ww: i32 = if work_area.width <= I32_MAX {
        work_area.width as i32
    } else {
        2147483647
    };
    let wh: i32 = if work_area.height <= I32_MAX {
        work_area.height as i32
    } else {
        2147483647
    };
    let right = bounds.x + w;
    let bottom = bounds.y + h;
    let work_right = work_area.x + ww;
    let work_bottom = work_area.y + wh;
    if bounds.x < work_area.x || bounds.y < work_area.y || right > work_right || bottom > work_bottom {
        return Err(OverlayError::OutOfBounds { bounds, work_area });
    }
    Ok(())
}

/// The top-left corner of a card of the given size at an anchor of the work
/// area, each partial sum taken in order; `None` when one leaves `i32`.
pub open spec fn anchor_corner(wa: OverlayRect, anchor: OverlayAnchor, w: int, h: int, gap: int) -> Option<(int, int)> {
    let left = wa.x + gap;
    let top = wa.y + gap;
    let r1 = wa.x + wa.width;
    let r2 = r1 - w;
    let right = r2 - gap;
    let b1 = wa.y + wa.height;
    let b2 = b1 - h;
    let bottom = b2 - gap;
    let x_ok_left = in_i32(left);
    let y_ok_top = in_i32(top);
    let x_ok_right = in_i32(r1) && in_i32(r2) && in_i32(right);
    let y_ok_bottom = in_i32(b1) && in_i32(b2) && in_i32(bottom);
    match anchor {
        OverlayAnchor::TopLeft => if x_ok_left && y_ok_top {
            Some((left, top))
        } else {
            None
        },
        OverlayAnchor::TopRight => if x_ok_right && y_ok_top {
            Some((right, top))
        } else {
            None
        },
        OverlayAnchor::BottomLeft => if x_ok_left && y_ok_bottom {
            Some((left, bottom))
        } else {
            None
        },
        OverlayAnchor::BottomRight => if x_ok_right && y_ok_bottom {
            Some((right, bottom))
        } else {
            None
        },
    }
}

/// Whether the size checks of a plan pass.
pub open spec fn plan_sizes_ok(wa: OverlayRect, width: u32, height: u32) -> bool {
    width != 0 && height != 0 && width <= I32_MAX && height <= I32_MAX && wa.width <= I32_MAX && wa.height
        <= I32_MAX
}

/// Whether planning a card is free of integer overflow (the inputs the plan is defined on).
pub open spec fn plan_defined(wa: OverlayRect, anchor: OverlayAnchor, width: u32, height: u32, gap: i32) -> bool {
    plan_sizes_ok(wa, width, height) ==> match anchor_corner(wa, anchor, width as int, height as int, gap as int) {
        Some((x, y)) => in_i32(x + width) && in_i32(y + height) && in_i32(wa.x + wa.width) && in_i32(
            wa.y + wa.height,
        ),
        None => false,
    }
}

/// The result of planning a card of `width` x `height` at `anchor` of the work area, `gap` from its edges.
pub open spec fn spec_plan_bounds(wa: OverlayRect, anchor: OverlayAnchor, width: u32, height: u32, gap: i32) -> Result<OverlayBounds, OverlayError> {
    if width == 0 || height == 0 || width > I32_MAX || height > I32_MAX {
        Err(OverlayError::InvalidSize { width, height })
    } else if wa.width > I32_MAX || wa.height > I32_MAX {
        Err(OverlayError::OutOfBounds { bounds: OverlayBounds { x: wa.x, y: wa.y, width, height }, work_area: wa })
    } else {
        let (x, y) = anchor_corner(wa, anchor, width as int, height as int, gap as int)->0;
        let b = OverlayBounds { x: x as i32, y: y as i32, width, height };
        if inside(b, wa) {
            Ok(b)
        } else {
            Err(OverlayError::OutOfBounds { bounds: b, work_area: wa })
        }
    }
}

/// Whether [`plan_overlay_bounds`] is defined on these inputs.
pub fn plan_overlay_bounds_defined(work_area: OverlayRect, anchor: OverlayAnchor, width: u32, height: u32, gap: i32) -> (r: bool)
    ensures
        r == plan_defined(work_area, anchor, width, height, gap),
{
    if !(width != 0 && height != 0 && width <= I32_MAX && height <= I32_MAX && work_area.width <= I32_MAX
        && work_area.height <= I32_MAX) {
        return true;
    }
    let w = width as i64;
    let h = height as i64;
    let g = gap as i64;
    let min = -2147483648i64;
    let max = 2147483647i64;
    let left = work_area.x as i64 + g;
    let top = work_area.y as i64 + g;
    let r1 = work_area.x as i64 + work_area.width as i64;
    let r2 = r1 - w;
    let right = r2 - g;
    let b1 = work_area.y as i64 + work_area.height as i64;
    let b2 = b1 - h;
    let bottom = b2 - g;
    let x_left = min <= left && left <= max;
    let y_top = min <= top && top <= max;
    let x_right = min <= r1 && r1 <= max && min <= r2 && r2 <= max && min <= right && right <= max;
    let y_bottom = min <= b1 && b1 <= max && min <= b2 && b2 <= max && min <= bottom && bottom <= max;
    let (ok, x, y) = match anchor {
        OverlayAnchor::TopLeft => (x_left && y_top, left, top),
        OverlayAnchor::TopRight => (x_right && y_top, right, top),
        OverlayAnchor::BottomLeft => (x_left && y_bottom, left, bottom),
        OverlayAnchor::BottomRight => (x_right && y_bottom, right, bottom),
    };
    ok && min <= x + w && x + w <= max && min <= y + h && y + h <= max && r1 <= max && b1 <= max
}

/// Plans a card of `width` x `height` at `anchor` of the work area, `gap`
/// away from its edges; the card must fit inside the work area.
pub fn plan_overlay_bounds(work_area: OverlayRect, anchor: OverlayAnchor, width: u32, height: u32, gap: i32) -> (r: Result<OverlayBounds, OverlayError>)
    requires
        plan_defined(work_area, anchor, width, height, gap),
    ensures
        r == spec_plan_bounds(work_area, anchor, width, height, gap),
{
    if width == 0 || height == 0 {
        return Err(OverlayError::InvalidSize { width, height });
    }
    if width > I32_MAX || height > I32_MAX {
        return Err(OverlayError::InvalidSize { width, height });
    }
    let width_i32 = width as i32;
    let height_i32 = height as i32;
    if work_area.width > I32_MAX || work_area.height > I32_MAX {
        return Err(
            OverlayError::OutOfBounds {
                bounds: OverlayBounds { x: work_area.x, y: work_area.y, width, height },
                work_area,
            },
        );
    }
    let work_width = work_area.width as i32;
    let work_height = work_area.height as i32;
    let (x, y) = match anchor {
        OverlayAnchor::TopLeft => (work_area.x + gap, work_area.y + gap),
        OverlayAnchor::TopRight => (work_area.x + work_width - width_i32 - gap, work_area.y + gap),
        OverlayAnchor::BottomLeft => (work_area.x + gap, work_area.y + work_height - height_i32 - gap),
        OverlayAnchor::BottomRight => (
            work_area.x + work_width - width_i32 - gap,
            work_area.y + work_height - height_i32 - gap,
        ),
    };
    let bounds = OverlayBounds { x, y, width, height };
    match ensure_bounds_inside_work_area(bounds, work_area) {
        Ok(()) => Ok(bounds),
        Err(e) => Err(e),
    }
}

// ---------------------------------------------------------------------------
// Slot cards
// ---------------------------------------------------------------------------

#[derive(Debug, Clone, PartialEq, Eq)]
pub struct OverlaySlotData {
    pub slot: u8,
    pub title: String,
    pub body: Option<String>,
    pub augment_id: Option<String>,
    pub rank: Option<String>,
    pub score: Option<String>,
    pub summary: Option<String>,
    pub tips: Option<Vec<String>>,
    pub source_label: Option<String>,
    pub source_detail: Option<String>,
    pub insight: Option<String>,
}

/// The plain content of one slot's overlay data.
#[verifier::ext_equal]
pub struct SlotDataModel {
    pub slot: u8,
    pub title: Seq<char>,
    pub body: Option<Seq<char>>,
    pub augment_id: Option<Seq<char>>,
    pub rank: Option<Seq<char>>,
    pub score: Option<Seq<char>>,
    pub summary: Option<Seq<char>>,
    pub tips: Option<Seq<Seq<char>>>,
    pub source_label: Option<Seq<char>>,
    pub source_detail: Option<Seq<char>>,
    pub insight: Option<Seq<char>>,
}

impl View for OverlaySlotData {
    type V = SlotDataModel;

    open spec fn view(&self) -> SlotDataModel {
        SlotDataModel {
            slot: self.slot,
            title: self.title@,
            body: opt_view(self.body),
            augment_id: opt_view(self.augment_id),
            rank: opt_view(self.rank),
            score: opt_view(self.score),
            summary: opt_view(self.summary),
            tips: match self.tips {
                Some(t) => Some(crate::text::texts(t@)),
                None => None,
            },
            source_label: opt_view(self.source_label),
            source_detail: opt_view(self.source_detail),
            insight: opt_view(self.insight),
        }
    }
}

/// The plain content of a list of slot data.
pub open spec fn slot_views(v: Seq<OverlaySlotData>) -> Seq<SlotDataModel> {
    v.map_values(|d: OverlaySlotData| d@)
}

#[derive(Debug, Clone, PartialEq, Eq)]
pub struct OverlayCardInfo {
    pub slot: u8,
    pub title: String,
    pub body: String,
    pub augment_id: Option<String>,
    pub rank: Option<String>,
    pub score: Option<String>,
    pub bounds: OverlayBounds,
    pub source: String,
}

/// `(v).clamp(lo, hi)` for `lo <= hi`.
pub open spec fn clamp_int(v: int, lo: int, hi: int) -> int {
    if v < lo {
        lo
    } else if v > hi {
        hi
    } else {
        v
    }
}

/// The largest left (or top) offset keeping a card of `size` inside `extent`.
pub open spec fn max_offset(extent: u32, size: u32) -> int {
    if extent >= size {
        clamp_to_i32((extent - size) as u32)
    } else {
        0
    }
}

/// Whether placing a card above an anchor pixel is free of integer overflow.
pub open spec fn card_defined(target: OverlayBounds, anchor_x: i32, anchor_y: i32, width: u32, height: u32, gap: i32) -> bool {
    (width <= I32_MAX && height <= I32_MAX) ==> {
        &&& in_i32(anchor_x - (width as int) / 2)
        &&& in_i32(anchor_y - height)
        &&& in_i32(anchor_y - height - gap)
        &&& in_i32(clamp_int(anchor_x - (width as int) / 2, 0, max_offset(target.width, width)) + width)
        &&& in_i32(clamp_int(anchor_y - height - gap, 0, max_offset(target.height, height)) + height)
    }
}

/// The bounds of a card centred horizontally on the anchor pixel and ending
/// `gap` above it, pushed inside the target area.
pub open spec fn spec_card_bounds(target: OverlayBounds, anchor_x: i32, anchor_y: i32, width: u32, height: u32, gap: i32) -> Result<OverlayBounds, OverlayError> {
    if width > I32_MAX || height > I32_MAX {
        Err(OverlayError::InvalidSize { width, height })
    } else {
        let x = clamp_int(anchor_x - (width as int) / 2, 0, max_offset(target.width, width));
        let y = clamp_int(anchor_y - height - gap, 0, max_offset(target.height, height));
        let b = OverlayBounds { x: x as i32, y: y as i32, width, height };
        let area = OverlayRect { x: 0, y: 0, width: target.width, height: target.height };
        if inside(b, area) {
            Ok(b)
        } else {
            Err(OverlayError::OutOfBounds { bounds: b, work_area: area })
        }
    }
}

/// Places a card above an anchor pixel of the target area.
pub fn card_bounds_from_anchor(target: OverlayBounds, anchor_x: i32, anchor_y: i32, width: u32, height: u32, gap: i32) -> (r: Result<OverlayBounds, OverlayError>)
    requires
        card_defined(target, anchor_x, anchor_y, width, height, gap),
    ensures
        r == spec_card_bounds(target, anchor_x, anchor_y, width, height, gap),
{
    if width > I32_MAX || height > I32_MAX {
        return Err(OverlayError::InvalidSize { width, height });
    }
    let width_i32 = width as i32;
    let height_i32 = height as i32;
    let max_x: i32 = if target.width >= width {
        let d = target.width - width;
        if d <= I32_MAX {
            d as i32
        } else {
            2147483647
        }
    } else {
        0
    };
    let max_y: i32 = if target.height >= height {
        let d = target.height - height;
        if d <= I32_MAX {
            d as i32
        } else {
            2147483647
        }
    } else {
        0
    };
    let raw_x = anchor_x - width_i32 / 2;
    let raw_y = anchor_y - height_i32 - gap;
    let x = if raw_x < 0 {
        0
    } else if raw_x > max_x {
        max_x
    } else {
        raw_x
    };
    let y = if raw_y < 0 {
        0
    } else if raw_y > max_y {
        max_y
    } else {
        raw_y
    };
    let bounds = OverlayBounds { x, y, width, height };
    let area = OverlayRect { x: 0, y: 0, width: target.width, height: target.height };
    proof {
        assert(max_x == max_offset(target.width, width));
        assert(max_y == max_offset(target.height, height));
        assert(x == clamp_int(anchor_x - (width as int) / 2, 0, max_offset(target.width, width)));
        assert(y == clamp_int(anchor_y - height - gap, 0, max_offset(target.height, height)));
        assert(in_i32(x + width));
        assert(in_i32(y + height));
    }
    match ensure_bounds_inside_work_area(bounds, area) {
        Ok(()) => Ok(bounds),
        Err(e) => Err(e),
    }
}

/// `requested.min(extent.max(1))`.
pub open spec fn card_extent(requested: u32, extent: u32) -> u32 {
    let cap: u32 = if extent >= 1 {
        extent
    } else {
        1
    };
    if requested <= cap {
        requested
    } else {
        cap
    }
}

/// Whether placing a card above one anchor pixel stays within `i32`.
pub fn card_placement_defined(target: OverlayBounds, anchor_x: i32, anchor_y: i32, width: u32, height: u32, gap: i32) -> (r: bool)
    ensures
        r == card_defined(target, anchor_x, anchor_y, width, height, gap),
{
    if width > I32_MAX || height > I32_MAX {
        return true;
    }
    let min = -2147483648i64;
    let max = 2147483647i64;
    let w = width as i64;
    let h = height as i64;
    let raw_x = anchor_x as i64 - w / 2;
    let above = anchor_y as i64 - h;
    let raw_y = above - gap as i64;
    let max_x: i64 = if target.width >= width {
        let d = (target.width - width) as i64;
        if d <= max { d } else { max }
    } else {
        0
    };
    let max_y: i64 = if target.height >= height {
        let d = (target.height - height) as i64;
        if d <= max { d } else { max }
    } else {
        0
    };
    let x = if raw_x < 0 { 0 } else if raw_x > max_x { max_x } else { raw_x };
    let y = if raw_y < 0 { 0 } else if raw_y > max_y { max_y } else { raw_y };
    proof {
        assert(max_x == max_offset(target.width, width));
        assert(max_y == max_offset(target.height, height));
    }
    min <= raw_x && raw_x <= max && min <= above && above <= max && min <= raw_y && raw_y <= max && x + w <= max && y + h
        <= max
}

/// Whether planning cards of the requested size above every anchor pixel
/// stays within `i32` (the precondition of [`plan_overlay_cards`]).
pub fn cards_placement_defined(
    target: OverlayBounds,
    anchors: &Vec<(i32, i32)>,
    requested_width: u32,
    requested_height: u32,
    gap: i32,
) -> (r: bool)
    ensures
        r == forall|i: int|
            0 <= i < anchors@.len() ==> card_defined(
                target,
                (#[trigger] anchors@[i]).0,
                anchors@[i].1,
                card_extent(requested_width, target.width),
                card_extent(requested_height, target.height),
                gap,
            ),
{
    let cap_w = if target.width >= 1 { target.width } else { 1 };
    let cap_h = if target.height >= 1 { target.height } else { 1 };
    let width = if requested_width <= cap_w { requested_width } else { cap_w };
    let height = if requested_height <= cap_h { requested_height } else { cap_h };
    let mut i: usize = 0;
    while i < anchors.len()
        invariant
            0 <= i <= anchors@.len(),
            width == card_extent(requested_width, target.width),
            height == card_extent(requested_height, target.height),
            forall|k: int| 0 <= k < i ==> card_defined(target, (#[trigger] anchors@[k]).0, anchors@[k].1, width, height, gap),
        decreases anchors@.len() - i,
    {
        if !card_placement_defined(target, anchors[i].0, anchors[i].1, width, height, gap) {
            return false;
        }
        i = i + 1;
    }
    true
}

/// The slot number of the card at `index` (counting from zero).
pub open spec fn card_slot(index: int) -> u8 {
    if index + 1 <= 255 {
        (index + 1) as u8
    } else {
        3
    }
}

/// The first payload for `slot`, if any.
pub open spec fn payload_for(slots: Seq<OverlaySlotData>, slot: u8) -> Option<OverlaySlotData>
    decreases slots.len(),
{
    if slots.len() == 0 {
        None
    } else if slots[0].slot == slot {
        Some(slots[0])
    } else {
        payload_for(slots.drop_first(), slot)
    }
}

pub open spec fn opt_view(s: Option<String>) -> Option<Seq<char>> {
    match s {
        Some(s) => Some(s@),
        None => None,
    }
}

/// Whether `card` is the card for `slot` with the given payload and bounds.
pub open spec fn card_matches(
    card: OverlayCardInfo,
    slot: u8,
    payload: Option<OverlaySlotData>,
    bounds: OverlayBounds,
    source: Seq<char>,
) -> bool {
    &&& card.slot == slot
    &&& card.bounds == bounds
    &&& card.source@ == source
    &&& card.title@ == match payload {
        Some(p) => p.title@,
        None => "测试卡片 "@ + decimal(slot as nat),
    }
    &&& card.body@ == match payload {
        Some(p) => match p.body {
            Some(b) => b@,
            None => "透明置顶点击穿透验证卡片"@,
        },
        None => "透明置顶点击穿透验证卡片"@,
    }
    &&& opt_view(card.augment_id) == match payload {
        Some(p) => opt_view(p.augment_id),
        None => None,
    }
    &&& opt_view(card.rank) == match payload {
        Some(p) => opt_view(p.rank),
        None => None,
    }
    &&& opt_view(card.score) == match payload {
        Some(p) => opt_view(p.score),
        None => None,
    }
}

/// The source name of the anchors.
pub open spec fn anchor_source(calibrated: bool) -> Seq<char> {
    if calibrated {
        "calibration.bottomAnchors"@
    } else {
        "fallback.staticAnchors"@
    }
}

/// Whether `card` is the planned card number `index` for the anchor pixel.
pub open spec fn planned_card(
    target: OverlayBounds,
    anchor: (i32, i32),
    width: u32,
    height: u32,
    gap: i32,
    card: OverlayCardInfo,
    index: int,
    slot_data: Seq<OverlaySlotData>,
    calibrated: bool,
) -> bool {
    match spec_card_bounds(target, anchor.0, anchor.1, width, height, gap) {
        Ok(b) => card_matches(card, card_slot(index), payload_for(slot_data, card_slot(index)), b, anchor_source(calibrated)),
        Err(_) => false,
    }
}

fn find_payload(slots: &Vec<OverlaySlotData>, slot: u8) -> (r: Option<&OverlaySlotData>)
    ensures
        match r {
            Some(p) => payload_for(slots@, slot) == Some(*p),
            None => payload_for(slots@, slot) is None,
        },
{
    let mut i: usize = 0;
    assert(slots@.skip(0) =~= slots@);
    while i < slots.len()
        invariant
            0 <= i <= slots@.len(),
            payload_for(slots@, slot) == payload_for(slots@.skip(i as int), slot),
        decreases slots@.len() - i,
    {
        proof {
            assert(slots@.skip(i as int).drop_first() =~= slots@.skip(i + 1));
        }
        if slots[i].slot == slot {
            return Some(&slots[i]);
        }
        i = i + 1;
    }
    None
}

fn copy_opt(s: &Option<String>) -> (r: Option<String>)
    ensures
        opt_view(r) == opt_view(*s),
{
    match s {
        Some(v) => Some(v.clone()),
        None => None,
    }
}

/// Plans one card per anchor pixel (slots 1, 2, 3, ... in anchor order),
/// filled from the payload for its slot; the first card that does not fit is the error.
pub fn plan_overlay_cards(
    target: OverlayBounds,
    anchors: &Vec<(i32, i32)>,
    calibrated: bool,
    slot_data: &Vec<OverlaySlotData>,
    requested_width: u32,
    requested_height: u32,
    gap: i32,
) -> (r: Result<Vec<OverlayCardInfo>, OverlayError>)
    requires
        anchors@.len() < 255,
        forall|i: int|
            0 <= i < anchors@.len() ==> card_defined(
                target,
                (#[trigger] anchors@[i]).0,
                anchors@[i].1,
                card_extent(requested_width, target.width),
                card_extent(requested_height, target.height),
                gap,
            ),
    ensures
        requested_width == 0 || requested_height == 0 ==> r == Err::<Vec<OverlayCardInfo>, OverlayError>(
            OverlayError::InvalidSize { width: requested_width, height: requested_height },
        ),
        requested_width != 0 && requested_height != 0 ==> match r {
            Ok(cards) => cards@.len() == anchors@.len() && forall|i: int|
                0 <= i < anchors@.len() ==> planned_card(
                    target,
                    anchors@[i],
                    card_extent(requested_width, target.width),
                    card_extent(requested_height, target.height),
                    gap,
                    #[trigger] cards@[i],
                    i,
                    slot_data@,
                    calibrated,
                ),
            Err(e) => exists|i: int|
                0 <= i < anchors@.len() && spec_card_bounds(
                    target,
                    anchors@[i].0,
                    anchors@[i].1,
                    card_extent(requested_width, target.width),
                    card_extent(requested_height, target.height),
                    gap,
                ) == Err::<OverlayBounds, OverlayError>(e) && forall|k: int|
                    0 <= k < i ==> #[trigger] spec_card_bounds(
                        target,
                        anchors@[k].0,
                        anchors@[k].1,
                        card_extent(requested_width, target.width),
                        card_extent(requested_height, target.height),
                        gap,
                    ) is Ok,
        },
{
    if requested_width == 0 || requested_height == 0 {
        return Err(OverlayError::InvalidSize { width: requested_width, height: requested_height });
    }
    let cap_w = if target.width >= 1 {
        target.width
    } else {
        1
    };
    let cap_h = if target.height >= 1 {
        target.height
    } else {
        1
    };
    let width = if requested_width <= cap_w {
        requested_width
    } else {
        cap_w
    };
    let height = if requested_height <= cap_h {
        requested_height
    } else {
        cap_h
    };
    let mut cards: Vec<OverlayCardInfo> = Vec::new();
    let mut i: usize = 0;
    while i < anchors.len()
        invariant
            0 <= i <= anchors@.len() < 255,
            requested_width != 0 && requested_height != 0,
            width == card_extent(requested_width, target.width),
            height == card_extent(requested_height, target.height),
            cards@.len() == i,
            forall|k: int|
                0 <= k < anchors@.len() ==> card_defined(target, (#[trigger] anchors@[k]).0, anchors@[k].1, width, height, gap),
            forall|k: int|
                0 <= k < i ==> planned_card(target, anchors@[k], width, height, gap, #[trigger] cards@[k], k, slot_data@, calibrated),
        decreases anchors@.len() - i,
    {
        let slot: u8 = (i + 1) as u8;
        let (ax, ay) = anchors[i];
        let bounds = match card_bounds_from_anchor(target, ax, ay, width, height, gap) {
            Ok(b) => b,
            Err(e) => {
                proof {
                    assert(anchors@[i as int].0 == ax);
                    assert forall|k: int| 0 <= k < i implies #[trigger] spec_card_bounds(
                        target,
                        anchors@[k].0,
                        anchors@[k].1,
                        card_extent(requested_width, target.width),
                        card_extent(requested_height, target.height),
                        gap,
                    ) is Ok by {
                        assert(planned_card(target, anchors@[k], width, height, gap, cards@[k], k, slot_data@, calibrated));
                    }
                }
                return Err(e);
            },
        };
        let payload = find_payload(slot_data, slot);
        let title = match payload {
            Some(p) => p.title.clone(),
            None => {
                let mut t = owned("测试卡片 ");
                push_decimal(&mut t, slot as u128);
                t
            },
        };
        let body = match payload {
            Some(p) => match &p.body {
                Some(b) => b.clone(),
                None => owned("透明置顶点击穿透验证卡片"),
            },
            None => owned("透明置顶点击穿透验证卡片"),
        };
        let (augment_id, rank, score) = match payload {
            Some(p) => (copy_opt(&p.augment_id), copy_opt(&p.rank), copy_opt(&p.score)),
            None => (None, None, None),
        };
        let source = if calibrated {
            owned("calibration.bottomAnchors")
        } else {
            owned("fallback.staticAnchors")
        };
        let card = OverlayCardInfo { slot, title, body, augment_id, rank, score, bounds, source };
        proof {
            assert(card_slot(i as int) == slot);
        }
        cards.push(card);
        i = i + 1;
    }
    Ok(cards)
}

// ---------------------------------------------------------------------------
// Runtime overlay sync and reports
// ---------------------------------------------------------------------------

#[derive(Debug, Clone, Copy, PartialEq, Eq, Structural)]
pub enum RuntimeOverlaySyncAction {
    Created,
    Updated,
    UpdatedAndShown,
    Hidden,
    AlreadyHidden,
    NoWindow,
}

/// What showing the runtime overlay does, given whether its window exists and is visible.
pub open spec fn spec_show_action(window_exists: bool, was_visible: bool) -> RuntimeOverlaySyncAction {
    if !window_exists {
        RuntimeOverlaySyncAction::Created
    } else if was_visible {
        RuntimeOverlaySyncAction::Updated
    } else {
        RuntimeOverlaySyncAction::UpdatedAndShown
    }
}

/// What hiding the runtime overlay does, given whether its window exists and is visible.
pub open spec fn spec_hide_action(window_exists: bool, was_visible: bool) -> RuntimeOverlaySyncAction {
    if !window_exists {
        RuntimeOverlaySyncAction::NoWindow
    } else if was_visible {
        RuntimeOverlaySyncAction::Hidden
    } else {
        RuntimeOverlaySyncAction::AlreadyHidden
    }
}

/// What showing the runtime overlay does.
pub fn show_action(window_exists: bool, was_visible: bool) -> (r: RuntimeOverlaySyncAction)
    ensures
        r == spec_show_action(window_exists, was_visible),
{
    if !window_exists {
        RuntimeOverlaySyncAction::Created
    } else if was_visible {
        RuntimeOverlaySyncAction::Updated
    } else {
        RuntimeOverlaySyncAction::UpdatedAndShown
    }
}

/// What hiding the runtime overlay does.
pub fn hide_action(window_exists: bool, was_visible: bool) -> (r: RuntimeOverlaySyncAction)
    ensures
        r == spec_hide_action(window_exists, was_visible),
{
    if !window_exists {
        RuntimeOverlaySyncAction::NoWindow
    } else if was_visible {
        RuntimeOverlaySyncAction::Hidden
    } else {
        RuntimeOverlaySyncAction::AlreadyHidden
    }
}

/// Whether the overlay is visible after a sync action.
pub open spec fn visible_after(action: RuntimeOverlaySyncAction) -> bool {
    match action {
        RuntimeOverlaySyncAction::Created | RuntimeOverlaySyncAction::Updated
        | RuntimeOverlaySyncAction::UpdatedAndShown => true,
        _ => false,
    }
}

pub open spec fn sync_message(action: RuntimeOverlaySyncAction) -> Seq<char> {
    match action {
        RuntimeOverlaySyncAction::Created => "Overlay 已按实时数据自动创建。"@,
        RuntimeOverlaySyncAction::Updated => "Overlay 已更新实时 slot 数据。"@,
        RuntimeOverlaySyncAction::UpdatedAndShown => "Overlay 已恢复显示并更新实时 slot 数据。"@,
        RuntimeOverlaySyncAction::Hidden => "Overlay 已按运行时状态自动隐藏。"@,
        RuntimeOverlaySyncAction::AlreadyHidden => "Overlay 已处于隐藏状态。"@,
        RuntimeOverlaySyncAction::NoWindow => "Overlay 窗口不存在，无需隐藏。"@,
    }
}

#[derive(Debug, Clone, PartialEq, Eq)]
pub struct RuntimeOverlaySyncReport {
    pub label: String,
    pub action: RuntimeOverlaySyncAction,
    pub visible: bool,
    pub window_exists: bool,
    pub slot_count: usize,
    pub reason: String,
    pub log_path: Option<String>,
    pub message: String,
}

/// The report of a sync action.
pub fn sync_report(
    action: RuntimeOverlaySyncAction,
    slot_count: usize,
    reason: &str,
    log_path: Option<String>,
) -> (r: RuntimeOverlaySyncReport)
    ensures
        r.label@ == "hex-assistant-overlay"@,
        r.action == action,
        r.visible == visible_after(action),
        r.window_exists == (action != RuntimeOverlaySyncAction::NoWindow),
        r.slot_count == (if visible_after(action) {
            slot_count
        } else {
            0
        }),
        r.reason@ == reason@,
        r.log_path == log_path,
        r.message@ == sync_message(action),
{
    let visible = match action {
        RuntimeOverlaySyncAction::Created | RuntimeOverlaySyncAction::Updated
        | RuntimeOverlaySyncAction::UpdatedAndShown => true,
        _ => false,
    };
    let message = match action {
        RuntimeOverlaySyncAction::Created => "Overlay 已按实时数据自动创建。",
        RuntimeOverlaySyncAction::Updated => "Overlay 已更新实时 slot 数据。",
        RuntimeOverlaySyncAction::UpdatedAndShown => "Overlay 已恢复显示并更新实时 slot 数据。",
        RuntimeOverlaySyncAction::Hidden => "Overlay 已按运行时状态自动隐藏。",
        RuntimeOverlaySyncAction::AlreadyHidden => "Overlay 已处于隐藏状态。",
        RuntimeOverlaySyncAction::NoWindow => "Overlay 窗口不存在，无需隐藏。",
    };
    RuntimeOverlaySyncReport {
        label: owned("hex-assistant-overlay"),
        action: action,
        visible: visible,
        window_exists: match action {
            RuntimeOverlaySyncAction::NoWindow => false,
            _ => true,
        },
        slot_count: if visible {
            slot_count
        } else {
            0
        },
        reason: owned(reason),
        log_path: log_path,
        message: owned(message),
    }
}

/// The human-readable description of an overlay failure.
pub open spec fn overlay_error_message(e: OverlayError) -> Seq<char> {
    match e {
        OverlayError::NoMonitor => "HEX-OVERLAY-NO-MONITOR: 未找到可用显示器"@,
        OverlayError::MonitorNotFound(name) => "HEX-OVERLAY-MONITOR-MISSING: 未找到目标显示器 "@ + name@,
        OverlayError::InvalidSize { width, height } => "HEX-OVERLAY-BAD-SIZE: Overlay 尺寸无效 "@ + decimal(
            width as nat,
        ) + "x"@ + decimal(height as nat),
        OverlayError::OutOfBounds { bounds, work_area } => "HEX-OVERLAY-OUT-OF-BOUNDS: bounds=("@
            + signed_decimal(bounds.x as int) + ", "@ + signed_decimal(bounds.y as int) + ", "@ + decimal(
            bounds.width as nat,
        ) + "x"@ + decimal(bounds.height as nat) + "), workArea=("@ + signed_decimal(work_area.x as int)
            + ", "@ + signed_decimal(work_area.y as int) + ", "@ + decimal(work_area.width as nat) + "x"@
            + decimal(work_area.height as nat) + ")"@,
        OverlayError::Tauri(message) => message@,
    }
}

impl OverlayError {
    /// The human-readable description of the failure.
    pub fn message(&self) -> (r: String)
        ensures
            r@ == overlay_error_message(*self),
    {
        let mut out = String::new();
        match self {
            OverlayError::NoMonitor => push_str(&mut out, "HEX-OVERLAY-NO-MONITOR: 未找到可用显示器"),
            OverlayError::MonitorNotFound(name) => {
                push_str(&mut out, "HEX-OVERLAY-MONITOR-MISSING: 未找到目标显示器 ");
                push_str(&mut out, name.as_str());
            },
            OverlayError::InvalidSize { width, height } => {
                push_str(&mut out, "HEX-OVERLAY-BAD-SIZE: Overlay 尺寸无效 ");
                push_decimal(&mut out, *width as u128);
                push_str(&mut out, "x");
                push_decimal(&mut out, *height as u128);
            },
            OverlayError::OutOfBounds { bounds, work_area } => {
                push_str(&mut out, "HEX-OVERLAY-OUT-OF-BOUNDS: bounds=(");
                push_signed(&mut out, bounds.x as i64);
                push_str(&mut out, ", ");
                push_signed(&mut out, bounds.y as i64);
                push_str(&mut out, ", ");
                push_decimal(&mut out, bounds.width as u128);
                push_str(&mut out, "x");
                push_decimal(&mut out, bounds.height as u128);
                push_str(&mut out, "), workArea=(");
                push_signed(&mut out, work_area.x as i64);
                push_str(&mut out, ", ");
                push_signed(&mut out, work_area.y as i64);
                push_str(&mut out, ", ");
                push_decimal(&mut out, work_area.width as u128);
                push_str(&mut out, "x");
                push_decimal(&mut out, work_area.height as u128);
                push_str(&mut out, ")");
            },
            OverlayError::Tauri(message) => push_str(&mut out, message.as_str()),
        }
        assert(out@ =~= overlay_error_message(*self));
        out
    }
}

// ---------------------------------------------------------------------------
// Laws
// ---------------------------------------------------------------------------

/// A planned card always lies inside the work area, has the requested size,
/// and keeps the gap from the edges of its anchor.
pub proof fn lemma_planned_card_inside(wa: OverlayRect, anchor: OverlayAnchor, width: u32, height: u32, gap: i32)
    requires
        plan_defined(wa, anchor, width, height, gap),
        spec_plan_bounds(wa, anchor, width, height, gap) is Ok,
    ensures
        ({
            let b = spec_plan_bounds(wa, anchor, width, height, gap)->Ok_0;
            &&& inside(b, wa)
            &&& b.width == width
            &&& b.height == height
            &&& (anchor == OverlayAnchor::TopLeft || anchor == OverlayAnchor::BottomLeft) ==> b.x == wa.x + gap
            &&& (anchor == OverlayAnchor::TopRight || anchor == OverlayAnchor::BottomRight) ==> b.x + width + gap
                == wa.x + wa.width
            &&& (anchor == OverlayAnchor::TopLeft || anchor == OverlayAnchor::TopRight) ==> b.y == wa.y + gap
            &&& (anchor == OverlayAnchor::BottomLeft || anchor == OverlayAnchor::BottomRight) ==> b.y + height
                + gap == wa.y + wa.height
        }),
{
}

/// A placed card never sticks out of the target area.
pub proof fn lemma_card_inside_target(target: OverlayBounds, anchor_x: i32, anchor_y: i32, width: u32, height: u32, gap: i32)
    requires
        spec_card_bounds(target, anchor_x, anchor_y, width, height, gap) is Ok,
    ensures
        ({
            let b = spec_card_bounds(target, anchor_x, anchor_y, width, height, gap)->Ok_0;
            &&& b.x >= 0 && b.y >= 0
            &&& b.x + width <= target.width
            &&& b.y + height <= target.height
        }),
{
}

/// A card that fits the target is never refused: it fails only when it is
/// wider or taller than the target area.
pub proof fn lemma_card_fits_when_small(target: OverlayBounds, anchor_x: i32, anchor_y: i32, width: u32, height: u32, gap: i32)
    requires
        width <= target.width,
        height <= target.height,
        target.width <= I32_MAX,
        target.height <= I32_MAX,
    ensures
        spec_card_bounds(target, anchor_x, anchor_y, width, height, gap) is Ok,
{
}


// ---------------------------------------------------------------------------
// Requests and reports
// ---------------------------------------------------------------------------

/// Where the overlay window's page is served from.
pub const OVERLAY_URL: &'static str = "index.html?view=overlay";

/// The label of the overlay window.
pub const OVERLAY_LABEL: &'static str = "hex-assistant-overlay";

#[derive(Debug, Clone, PartialEq, Eq)]
pub struct OverlayTestCardRequest {
    pub monitor_name: Option<String>,
    pub anchor: OverlayAnchor,
    pub width: Option<u32>,
    pub height: Option<u32>,
    pub gap: Option<i32>,
    pub click_through: bool,
    pub slots: Vec<OverlaySlotData>,
}

impl Default for OverlayTestCardRequest {
    /// A bottom-right default card that lets clicks through, on the default monitor.
    fn default() -> (r: Self)
        ensures
            r.monitor_name is None,
            r.anchor == OverlayAnchor::BottomRight,
            r.width == Some(DEFAULT_CARD_WIDTH),
            r.height == Some(DEFAULT_CARD_HEIGHT),
            r.gap == Some(DEFAULT_GAP),
            r.click_through,
            r.slots@.len() == 0,
    {
        OverlayTestCardRequest {
            monitor_name: None,
            anchor: OverlayAnchor::BottomRight,
            width: Some(DEFAULT_CARD_WIDTH),
            height: Some(DEFAULT_CARD_HEIGHT),
            gap: Some(DEFAULT_GAP),
            click_through: true,
            slots: Vec::new(),
        }
    }
}

#[derive(Debug, Clone, PartialEq, Eq)]
pub struct OverlayCreationParams {
    pub url: String,
    pub transparent: bool,
    pub background_color: String,
    pub always_on_top: bool,
    pub decorations: bool,
    pub skip_taskbar: bool,
    pub focused: bool,
    pub focusable: bool,
    pub resizable: bool,
    pub visible_on_create: bool,
}

impl OverlayCreationParams {
    /// How the overlay window is created: the overlay page, a transparent
    /// background (a transparent window except on macOS), always on top,
    /// undecorated, off the taskbar, never focused or resizable, and hidden
    /// until shown.
    pub fn for_platform(is_macos: bool) -> (r: Self)
        ensures
            r.url@ == OVERLAY_URL@,
            r.transparent == !is_macos,
            r.background_color@ == "rgba(0,0,0,0)"@,
            r.always_on_top,
            !r.decorations,
            r.skip_taskbar,
            !r.focused,
            !r.focusable,
            !r.resizable,
            !r.visible_on_create,
    {
        OverlayCreationParams {
            url: owned(OVERLAY_URL),
            transparent: !is_macos,
            background_color: owned("rgba(0,0,0,0)"),
            always_on_top: true,
            decorations: false,
            skip_taskbar: true,
            focused: false,
            focusable: false,
            resizable: false,
            visible_on_create: false,
        }
    }
}

#[derive(Debug, Clone, PartialEq, Eq)]
pub struct OverlayMonitorReport {
    pub name: Option<String>,
    pub scale_factor: String,
    pub position: OverlayPoint,
    pub size: OverlaySize,
    pub work_area: OverlayRect,
}

#[derive(Debug, Clone, PartialEq, Eq)]
pub struct OverlayVisibilityChange {
    pub from: bool,
    pub to: bool,
    pub reason: String,
}

#[derive(Debug, Clone, Copy, PartialEq, Eq, Structural)]
pub enum OverlayClickThroughStatus {
    Applied,
    PendingManualAcceptance,
    Failed,
}

#[derive(Debug, Clone, PartialEq, Eq)]
pub struct OverlayChildWindowResult {
    pub phase: String,
    pub delay_ms: Option<u64>,
    pub applied_count: usize,
    pub details: Vec<String>,
}

#[derive(Debug, Clone, PartialEq, Eq)]
pub struct OverlayClickThroughReport {
    pub requested: bool,
    pub platform: String,
    pub status: OverlayClickThroughStatus,
    pub message: String,
    pub child_window_results: Vec<OverlayChildWindowResult>,
}

#[derive(Debug, Clone, PartialEq, Eq)]
pub struct OverlayOperationReport {
    pub label: String,
    pub created: bool,
    pub visible: bool,
    pub creation: OverlayCreationParams,
    pub monitor: OverlayMonitorReport,
    pub bounds: OverlayBounds,
    pub logical_bounds: OverlayBounds,
    pub cards: Vec<OverlayCardInfo>,
    pub visibility_changes: Vec<OverlayVisibilityChange>,
    pub click_through: OverlayClickThroughReport,
    pub log_path: Option<String>,
    pub messages: Vec<String>,
}

#[derive(Debug, Clone, PartialEq, Eq)]
pub struct OverlaySlotUpdateReport {
    pub label: String,
    pub visible: bool,
    pub updated_slots: Vec<OverlaySlotData>,
    pub log_path: Option<String>,
    pub message: String,
}


/// Whether a monitor carries a name.
pub open spec fn named_as(monitor_name: Option<String>, name: Seq<char>) -> bool {
    match monitor_name {
        Some(n) => n@ == name,
        None => false,
    }
}

/// The first monitor carrying a name, by position.
pub open spec fn first_named(names: Seq<Option<String>>, name: Seq<char>) -> Option<int> {
    if exists|i: int| 0 <= i < names.len() && named_as(#[trigger] names[i], name) {
        Some(choose|i: int| 0 <= i < names.len() && named_as(names[i], name) && forall|k: int| 0 <= k < i ==> !named_as(#[trigger] names[k], name))
    } else {
        None
    }
}

/// The monitor an overlay goes on, by position in the monitor list: the
/// first with the requested name when a name is requested (an error naming it
/// when there is none), else the primary one, else the first (an error when
/// there is no monitor).
pub fn select_overlay_monitor(names: &Vec<Option<String>>, requested: Option<&str>, primary: Option<usize>) -> (r: Result<usize, OverlayError>)
    ensures
        match requested {
            Some(name) => match first_named(names@, name@) {
                Some(i) => r matches Ok(k) && k == i,
                None => r matches Err(OverlayError::MonitorNotFound(n)) && n@ == name@,
            },
            None => match primary {
                Some(p) => r == Ok::<usize, OverlayError>(p),
                None => if names@.len() > 0 {
                    r == Ok::<usize, OverlayError>(0)
                } else {
                    r == Err::<usize, OverlayError>(OverlayError::NoMonitor)
                },
            },
        },
{
    match requested {
        Some(name) => {
            let ghost ns = names@;
            let mut i: usize = 0;
            while i < names.len()
                invariant
                    0 <= i <= ns.len(),
                    ns == names@,
                    requested == Some(name),
                    forall|k: int| 0 <= k < i ==> !named_as(#[trigger] ns[k], name@),
                decreases ns.len() - i,
            {
                let hit = match &names[i] {
                    Some(n) => crate::text::text_eq(n.as_str(), name),
                    None => false,
                };
                if hit {
                    proof {
                        assert(named_as(ns[i as int], name@));
                        let w = choose|w: int| 0 <= w < ns.len() && named_as(ns[w], name@) && forall|k: int| 0 <= k < w ==> !named_as(#[trigger] ns[k], name@);
                        if w < i {
                            assert(!named_as(ns[w], name@));
                        }
                        if w > i {
                            assert(!named_as(ns[i as int], name@));
                        }
                        assert(first_named(ns, name@) == Some(i as int));
                    }
                    return Ok(i);
                }
                i = i + 1;
            }
            proof {
                assert forall|k: int| 0 <= k < ns.len() implies !named_as(#[trigger] ns[k], name@) by {
                    assert(k < i);
                }
            }
            Err(OverlayError::MonitorNotFound(owned(name)))
        },
        None => match primary {
            Some(p) => Ok(p),
            None => if names.len() > 0 {
                Ok(0)
            } else {
                Err(OverlayError::NoMonitor)
            },
        },
    }
}

/// The click-through report on a platform where it is not applied: as
/// requested, pending manual acceptance on a Windows desktop.
pub fn platform_pending_click_through(requested: bool, platform: String) -> (r: OverlayClickThroughReport)
    ensures
        r.requested == requested,
        r.platform == platform,
        r.status == OverlayClickThroughStatus::PendingManualAcceptance,
        r.message@ == "非 Windows 平台暂不执行 set_ignore_cursor_events，待 Windows 桌面验收"@,
        r.child_window_results@.len() == 0,
{
    OverlayClickThroughReport {
        requested: requested,
        platform: platform,
        status: OverlayClickThroughStatus::PendingManualAcceptance,
        message: owned("非 Windows 平台暂不执行 set_ignore_cursor_events，待 Windows 桌面验收"),
        child_window_results: Vec::new(),
    }
}

} // verus!
