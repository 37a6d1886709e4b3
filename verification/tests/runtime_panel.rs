use hex_assistant_app::calibration::PixelRect;
use hex_assistant_app::ocr::CalibratedNameSlot;
use hex_assistant_app::runtime_panel::{
    build_choices_from_ocr, build_panel_result, clamp_rect, parse_preferred_monitor_id, should_run_ocr, slot_index,
    OcrSlotChoice,
};
use hex_assistant_app::state_machine::PanelState;

#[test]
fn build_choices_from_ocr_uses_expected_slot_mapping() {
    let choices = build_choices_from_ocr(&vec![
        OcrSlotChoice { slot: CalibratedNameSlot::Left, augment_id: Some("prismatic-ticket".to_string()) },
        OcrSlotChoice { slot: CalibratedNameSlot::Center, augment_id: Some("build-a-bud".to_string()) },
    ]);

    assert_eq!(choices.len(), 2);
    assert_eq!(choices[0].slot, 1);
    assert_eq!(choices[1].slot, 2);
    assert_eq!(choices[0].augment_id, "prismatic-ticket");
    assert_eq!(choices[1].augment_id, "build-a-bud");
}

#[test]
fn parse_preferred_monitor_id_accepts_empty_value() {
    assert_eq!(parse_preferred_monitor_id(None).unwrap(), None);
    assert_eq!(parse_preferred_monitor_id(Some("")).unwrap(), None);
    assert_eq!(parse_preferred_monitor_id(Some("7")).unwrap(), Some(7));
    assert!(parse_preferred_monitor_id(Some("abc")).is_err());
}

#[test]
fn monitor_id_errors_name_the_value() {
    let error = parse_preferred_monitor_id(Some(" 4x ")).unwrap_err();
    assert!(error.starts_with("HEX-RUNTIME-PANEL-MONITOR-ID: 无法解析显示器 ID 4x: "));
    assert_eq!(parse_preferred_monitor_id(Some(" +12 ")).unwrap(), Some(12));
    assert!(parse_preferred_monitor_id(Some("4294967296")).is_err());
}

#[test]
fn build_panel_result_expands_when_two_slots_visible() {
    let (panel_state, choices) = build_panel_result(false, &vec![true, true, false], None);

    assert_eq!(panel_state, PanelState::Expanded);
    assert!(choices.is_empty());
}

#[test]
fn panel_stays_collapsed_without_enough_activity() {
    let (panel_state, _) = build_panel_result(false, &vec![true, false, false], None);
    assert_eq!(panel_state, PanelState::Collapsed);
    let ocr = vec![OcrSlotChoice { slot: CalibratedNameSlot::Right, augment_id: Some("x".to_string()) }];
    let (panel_state, choices) = build_panel_result(true, &vec![false, false, false], Some(&ocr));
    assert_eq!(panel_state, PanelState::Expanded);
    assert_eq!(choices[0].slot, 3);
    assert!(should_run_ocr(true, &vec![]));
    assert!(should_run_ocr(false, &vec![true, false, true]));
    assert!(!should_run_ocr(false, &vec![true, false, false]));
    assert_eq!(slot_index(CalibratedNameSlot::Right), 3);
}

#[test]
fn regions_are_clamped_to_the_image() {
    let rect = PixelRect { x: 1900, y: 1000, width: 100, height: 200 };
    assert_eq!(clamp_rect(rect, 1920, 1080), Some(PixelRect { x: 1900, y: 1000, width: 20, height: 80 }));
    assert_eq!(clamp_rect(PixelRect { x: 2000, y: 0, width: 10, height: 10 }, 1920, 1080), None);
    assert_eq!(
        clamp_rect(PixelRect { x: u32::MAX - 1, y: 0, width: 10, height: 10 }, u32::MAX, 10),
        Some(PixelRect { x: u32::MAX - 1, y: 0, width: 1, height: 10 })
    );
}
