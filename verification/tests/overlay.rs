use hex_assistant_app::overlay::{
    card_bounds_from_anchor, card_placement_defined, cards_placement_defined, ensure_bounds_inside_work_area, hide_action, plan_overlay_bounds, plan_overlay_cards,
    show_action, sync_report, OverlayAnchor, OverlayBounds, OverlayCreationParams, OverlayError, OverlayRect,
    OverlaySlotData, OverlayTestCardRequest, RuntimeOverlaySyncAction,
};

#[test]
fn plan_overlay_bounds_generates_top_right_coordinates() {
    let work_area = OverlayRect { x: 100, y: 50, width: 1920, height: 1040 };

    let bounds = plan_overlay_bounds(work_area, OverlayAnchor::TopRight, 360, 96, 24).unwrap();

    assert_eq!(bounds, OverlayBounds { x: 1636, y: 74, width: 360, height: 96 });
}

#[test]
fn plan_overlay_bounds_generates_bottom_left_coordinates() {
    let work_area = OverlayRect { x: -1280, y: 0, width: 1280, height: 720 };

    let bounds = plan_overlay_bounds(work_area, OverlayAnchor::BottomLeft, 320, 88, 12).unwrap();

    assert_eq!(bounds, OverlayBounds { x: -1268, y: 620, width: 320, height: 88 });
}

#[test]
fn plan_overlay_bounds_rejects_out_of_bounds_card() {
    let work_area = OverlayRect { x: 0, y: 0, width: 300, height: 200 };

    let error = plan_overlay_bounds(work_area, OverlayAnchor::TopRight, 360, 96, 24).unwrap_err();

    assert!(matches!(error, OverlayError::OutOfBounds { .. }));
}

#[test]
fn plan_overlay_bounds_rejects_zero_size() {
    let work_area = OverlayRect { x: 0, y: 0, width: 300, height: 200 };

    let error = plan_overlay_bounds(work_area, OverlayAnchor::TopLeft, 0, 96, 8).unwrap_err();

    assert_eq!(error, OverlayError::InvalidSize { width: 0, height: 96 });
}

#[test]
fn overlay_error_messages() {
    assert_eq!(
        OverlayError::InvalidSize { width: 0, height: 96 }.message(),
        "HEX-OVERLAY-BAD-SIZE: Overlay 尺寸无效 0x96"
    );
    let error = OverlayError::OutOfBounds {
        bounds: OverlayBounds { x: -84, y: 24, width: 360, height: 96 },
        work_area: OverlayRect { x: 0, y: 0, width: 300, height: 200 },
    };
    assert_eq!(error.message(), "HEX-OVERLAY-OUT-OF-BOUNDS: bounds=(-84, 24, 360x96), workArea=(0, 0, 300x200)");
    assert!(ensure_bounds_inside_work_area(
        OverlayBounds { x: 0, y: 0, width: 300, height: 200 },
        OverlayRect { x: 0, y: 0, width: 300, height: 200 }
    )
    .is_ok());
}

#[test]
fn plan_overlay_cards_uses_calibration_bottom_anchors() {
    let target = OverlayBounds { x: 0, y: 0, width: 1920, height: 1080 };
    let anchors = vec![(480, 864), (960, 864), (1440, 864)];

    let cards = plan_overlay_cards(target, &anchors, true, &vec![], 260, 118, 18).unwrap();

    assert_eq!(cards.len(), 3);
    assert_eq!(cards[0].bounds.x, 350);
    assert_eq!(cards[0].bounds.y, 728);
    assert_eq!(cards[1].source, "calibration.bottomAnchors");
    assert_eq!(cards[2].title, "测试卡片 3");
}

#[test]
fn plan_overlay_cards_applies_slot_payload() {
    let target = OverlayBounds { x: 0, y: 0, width: 1280, height: 720 };
    let anchors = vec![(358, 605), (640, 605), (922, 605)];
    let payload = OverlaySlotData {
        slot: 2,
        title: "棱彩门票".to_string(),
        body: Some("Apex 推荐".to_string()),
        augment_id: Some("prismatic-ticket".to_string()),
        rank: Some("S".to_string()),
        score: Some("4.55".to_string()),
        summary: None,
        tips: None,
        source_label: None,
        source_detail: None,
        insight: None,
    };

    let cards = plan_overlay_cards(target, &anchors, false, &vec![payload], 240, 110, 16).unwrap();

    assert_eq!(cards[1].title, "棱彩门票");
    assert_eq!(cards[1].rank.as_deref(), Some("S"));
    assert_eq!(cards[1].score.as_deref(), Some("4.55"));
    assert_eq!(cards[0].source, "fallback.staticAnchors");
    assert_eq!(cards[0].body, "透明置顶点击穿透验证卡片");
    assert!(plan_overlay_cards(target, &anchors, false, &vec![], 0, 110, 16).is_err());
}

#[test]
fn card_is_pushed_inside_the_target() {
    let target = OverlayBounds { x: 0, y: 0, width: 400, height: 300 };
    let bounds = card_bounds_from_anchor(target, 10, 50, 100, 80, 10).unwrap();
    assert_eq!(bounds, OverlayBounds { x: 0, y: 0, width: 100, height: 80 });
}

#[test]
fn sync_actions_follow_the_window() {
    assert_eq!(show_action(false, false), RuntimeOverlaySyncAction::Created);
    assert_eq!(show_action(true, true), RuntimeOverlaySyncAction::Updated);
    assert_eq!(show_action(true, false), RuntimeOverlaySyncAction::UpdatedAndShown);
    assert_eq!(hide_action(false, false), RuntimeOverlaySyncAction::NoWindow);
    assert_eq!(hide_action(true, false), RuntimeOverlaySyncAction::AlreadyHidden);
    assert_eq!(hide_action(true, true), RuntimeOverlaySyncAction::Hidden);
    let report = sync_report(RuntimeOverlaySyncAction::Hidden, 3, "reason", None);
    assert!(!report.visible);
    assert_eq!(report.slot_count, 0);
    assert_eq!(report.label, "hex-assistant-overlay");
}

#[test]
fn default_requests_and_creation_params() {
    let request = OverlayTestCardRequest::default();
    assert_eq!(request.anchor, OverlayAnchor::BottomRight);
    assert_eq!(request.width, Some(260));
    assert_eq!(request.height, Some(118));
    assert_eq!(request.gap, Some(18));
    assert!(request.click_through);
    let params = OverlayCreationParams::for_platform(false);
    assert!(params.transparent);
    assert_eq!(params.url, "index.html?view=overlay");
    assert!(!OverlayCreationParams::for_platform(true).transparent);
}

#[test]
fn card_placement_is_defined_unless_coordinates_overflow() {
    let target = OverlayBounds { x: 0, y: 0, width: 1920, height: 1080 };
    assert!(cards_placement_defined(target, &vec![(480, 864), (960, 864), (1440, 864)], 260, 118, 18));
    assert!(card_placement_defined(target, 480, 864, 260, 118, 18));
    assert!(!cards_placement_defined(target, &vec![(480, 864), (i32::MIN, 864)], 260, 118, 18));
    assert!(!card_placement_defined(target, 0, i32::MIN + 10, 260, 118, 18));
}
