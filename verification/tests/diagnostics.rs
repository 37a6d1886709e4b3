use hex_assistant_app::app_paths::AppPaths;
use hex_assistant_app::commands::{evaluate_state_machine, png_data_url};
use hex_assistant_app::diagnostics::{
    check_release_inputs, checksums_text, entry_checksum, health_check_items, release_resource_entries, release_root_readme,
    run_state_machine_self_check, zip_entry_name, HealthFindings,
};
use hex_assistant_app::models::{HealthStatus, TelemetryEventInput};
use hex_assistant_app::ocr::resource_status;
use hex_assistant_app::overlay::{OverlayBounds, OverlayError};
use hex_assistant_app::state_machine::{AssistantStatus, LivePlayerSnapshot, PanelState, StateMachineInput};
use hex_assistant_app::telemetry::{build_event, new_trace_id, trace_id_at};

#[test]
fn state_machine_self_check_reports_the_sample() {
    let item = run_state_machine_self_check();
    assert_eq!(item.key, "state-machine");
    assert_eq!(item.status, HealthStatus::Pass);
    assert_eq!(item.details, "状态 PendingSelection，待选阶段 Some(3)，待处理档位 [3, 7]，事件数 6");
}

#[test]
fn health_items_cover_every_check() {
    let paths = AppPaths::from_root("/data/app");
    let findings = HealthFindings {
        language: "zh-CN".to_string(),
        display_mode: "borderless".to_string(),
        calibration_exists: false,
        ocr_status: resource_status("/res/models/ppocrv4_rec.onnx".to_string(), false),
        apex_report: Ok((2, 1)),
        overlay_plan: Ok(OverlayBounds { x: 1552, y: 8, width: 360, height: 96 }),
    };
    let items = health_check_items(&paths, &findings);
    assert_eq!(items.len(), 12);
    assert_eq!(items[1].details, "语言 zh-CN，默认显示模式 borderless");
    assert_eq!(items[4].status, HealthStatus::Warn);
    assert_eq!(items[4].error_code.as_deref(), Some("HEX-CALIBRATION-MISSING"));
    assert_eq!(items[4].details, "尚未保存校准配置 /data/app/calibration/screen-calibration.json");
    assert_eq!(items[5].error_code.as_deref(), Some("HEX-OCR-MODEL-MISSING"));
    assert_eq!(items[10].details, "缓存报告可生成；总条目 2，失败条目 1，健康检查不请求 ApexLOL 网络");
    assert_eq!(items[11].details, "几何规划可用 360x96 @ 1552,8；真实透明置顶与点击穿透需在 Windows 桌面验收");

    let failing = HealthFindings {
        calibration_exists: true,
        apex_report: Err("broken".to_string()),
        overlay_plan: Err(OverlayError::NoMonitor),
        ..findings
    };
    let items = health_check_items(&paths, &failing);
    assert_eq!(items[4].status, HealthStatus::Pass);
    assert_eq!(items[10].status, HealthStatus::Fail);
    assert_eq!(items[10].details, "ApexLOL 缓存报告生成失败: broken");
    assert_eq!(items[11].details, "Overlay 几何规划失败: HEX-OVERLAY-NO-MONITOR: 未找到可用显示器");
}

#[test]
fn release_checks_need_an_exe_and_every_resource() {
    let resources: Vec<(String, String, bool)> = release_resource_entries("/w")
        .into_iter()
        .map(|(source, entry)| (source, entry, true))
        .collect();
    assert_eq!(resources[1].0, "/w/src-tauri/resources/models/ppocrv4_rec.onnx");
    assert_eq!(resources[1].1, "resources/models/ppocrv4_rec.onnx");
    assert!(check_release_inputs(&vec![Some("dll".to_string()), Some("EXE".to_string())], &resources).is_ok());
    assert!(check_release_inputs(&vec![Some("dll".to_string()), None], &resources)
        .unwrap_err()
        .starts_with("未找到 Windows exe"));
    let mut missing = resources.clone();
    missing[0].2 = false;
    missing[2].2 = false;
    assert_eq!(
        check_release_inputs(&vec![Some("exe".to_string())], &missing).unwrap_err(),
        "缺少 release 必需资源，拒绝生成用户包：resources/dictionaries/augments.zh-CN.json <- /w/src-tauri/resources/dictionaries/augments.zh-CN.json; resources/onnxruntime/onnxruntime.dll <- /w/src-tauri/resources/onnxruntime/onnxruntime.dll"
    );
}

#[test]
fn release_texts() {
    assert!(release_root_readme().starts_with("LOL 海克斯助手 Windows 用户包\n\n运行方式："));
    assert!(release_root_readme().ends_with("可用。\n"));
    assert_eq!(
        checksums_text(&vec![("README.txt".to_string(), "ab".to_string()), ("a/b".to_string(), "cd".to_string())]),
        "ab  README.txt\ncd  a/b\n"
    );
    assert_eq!(zip_entry_name(r"resources\models\x.onnx"), "resources/models/x.onnx");
}

#[test]
fn commands_compute_data_urls_and_evaluations() {
    let result = png_data_url("/tmp/a.png".to_string(), &b"hello".to_vec());
    assert_eq!(result.data_url, "data:image/png;base64,aGVsbG8=");
    assert_eq!(result.bytes, 5);
    let evaluated = evaluate_state_machine(StateMachineInput {
        player: Some(LivePlayerSnapshot { champion_name: "Ahri".to_string(), level: 3 }),
        panel_state: PanelState::Collapsed,
        choices: vec![],
        selected_slot: None,
        pause_reason: None,
    })
    .unwrap();
    assert_eq!(evaluated.state.status, AssistantStatus::PendingSelection);
    assert_eq!(evaluated.state.pending_tier, Some(3));
}

#[test]
fn trace_ids_and_events() {
    assert_eq!(trace_id_at("health", 42), "health-42");
    assert!(new_trace_id("diag").starts_with("diag-"));
    let event = build_event(
        TelemetryEventInput {
            stage: "test-stage".to_string(),
            input_summary: "输入摘要".to_string(),
            output_summary: "输出摘要".to_string(),
            duration_ms: 12,
            level: "info".to_string(),
            error_code: None,
            message: "测试日志".to_string(),
        },
        "2024-01-01T00:00:00Z".to_string(),
        "test-stage-1".to_string(),
    );
    assert_eq!(event.trace_id, "test-stage-1");
    assert_eq!(event.stage, "test-stage");
    assert_eq!(event.duration_ms, 12);
}

#[test]
fn entry_checksums_are_sha256_hex() {
    assert_eq!(entry_checksum(b""), "e3b0c44298fc1c149afbf4c8996fb92427ae41e4649b934ca495991b7852b855");
    assert_eq!(entry_checksum(b"abc"), "ba7816bf8f01cfea414140de5dae2223b00361a396177a9cb410ff61f20015ad");
}
