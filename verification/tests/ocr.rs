use hex_assistant_app::ocr::{
    best_dictionary_match, check_ppocr_resources, check_replay_slots, levenshtein, normalize_name,
    AugmentDictionary, AugmentEntry, CalibratedNameSlot, DictionaryMatch, OcrErrorCode, PpOcrResourcePaths,
};

#[test]
fn resource_check_reports_missing_model_path() {
    let root = "/tmp/hex-ocr-resource-check";
    let status = check_ppocr_resources(root);
    assert!(!status.ready);
    assert_eq!(status.model_path, "/tmp/hex-ocr-resource-check/models/ppocrv4_rec.onnx");
    assert_eq!(status.error_code.as_deref(), Some("HEX-OCR-MODEL-MISSING"));
}

#[test]
fn resource_paths_point_at_the_model() {
    let paths = PpOcrResourcePaths::from_resource_root("/res");
    assert_eq!(paths.model_path, "/res/models/ppocrv4_rec.onnx");
}

fn dictionary() -> AugmentDictionary {
    AugmentDictionary {
        locale: "zh-CN".to_string(),
        version: 1,
        augments: vec![
            AugmentEntry {
                id: "prismatic-ticket".to_string(),
                name: "棱彩门票".to_string(),
                aliases: vec!["Prismatic Ticket".to_string()],
            },
            AugmentEntry { id: "build-a-bud".to_string(), name: "构建伙伴".to_string(), aliases: vec![] },
        ],
    }
}

#[test]
fn dictionary_match_finds_the_closest_entry() {
    assert_eq!(
        best_dictionary_match(&dictionary(), " 棱彩 门票 "),
        DictionaryMatch::Best { entry: 0, distance: 0, longer_len: 4 }
    );
    assert_eq!(
        best_dictionary_match(&dictionary(), "prismatic tickets"),
        DictionaryMatch::Best { entry: 0, distance: 1, longer_len: 16 }
    );
    assert_eq!(best_dictionary_match(&dictionary(), " !! "), DictionaryMatch::EmptyText);
    let empty = AugmentDictionary { locale: "zh-CN".to_string(), version: 1, augments: vec![] };
    assert_eq!(best_dictionary_match(&empty, "abc"), DictionaryMatch::EmptyDictionary);
}

#[test]
fn edit_distance_and_normalization() {
    assert_eq!(levenshtein(&"kitten".chars().collect(), &"sitting".chars().collect()), 3);
    assert_eq!(levenshtein(&vec![], &"abc".chars().collect()), 3);
    assert_eq!(normalize_name(" Ab-C 门票!"), vec!['a', 'b', 'c', '门', '票']);
}

#[test]
fn replay_needs_three_distinct_slots() {
    assert!(check_replay_slots(&vec![CalibratedNameSlot::Left, CalibratedNameSlot::Center, CalibratedNameSlot::Right]).is_ok());
    let short = check_replay_slots(&vec![CalibratedNameSlot::Left]).unwrap_err();
    assert_eq!(short.code, OcrErrorCode::InvalidReplayInput);
    assert_eq!(short.message, "离线回放只接受 3 个校准名称区域，实际收到 1 个");
    let repeated =
        check_replay_slots(&vec![CalibratedNameSlot::Left, CalibratedNameSlot::Left, CalibratedNameSlot::Right])
            .unwrap_err();
    assert_eq!(repeated.message, "离线回放存在重复名称区域 left");
    assert_eq!(CalibratedNameSlot::Center.as_str(), "center");
}

fn test_dictionary() -> AugmentDictionary {
    AugmentDictionary {
        locale: "zh-CN".to_string(),
        version: 1,
        augments: vec![
            AugmentEntry {
                id: "prismatic-ticket".to_string(),
                name: "棱彩门票".to_string(),
                aliases: vec!["彩色门票".to_string()],
            },
            AugmentEntry { id: "build-a-bud".to_string(), name: "好事成双".to_string(), aliases: vec![] },
            AugmentEntry { id: "trade-sector".to_string(), name: "利滚利".to_string(), aliases: vec![] },
        ],
    }
}

#[test]
fn dictionary_match_uses_generic_similarity() {
    let dictionary = test_dictionary();
    let matched = best_dictionary_match(&dictionary, " 棱彩 门票 ");
    let DictionaryMatch::Best { entry, distance, longer_len } = matched else {
        panic!("a match is expected");
    };
    assert_eq!(dictionary.augments[entry].name, "棱彩门票");
    assert_eq!(dictionary.augments[entry].id, "prismatic-ticket");
    let (confidence, min_confidence, min_match_score): (f32, f32, f32) = (0.95, 0.8, 0.8);
    let match_score = 1.0 - distance as f32 / longer_len as f32;
    assert!(confidence >= min_confidence && match_score >= min_match_score);
}

#[test]
fn offline_replay_requires_three_slots() {
    let error = check_replay_slots(&vec![CalibratedNameSlot::Left]).unwrap_err();
    assert_eq!(error.code, OcrErrorCode::InvalidReplayInput);
}
