use hex_assistant_app::apex::{ApexLookupResult, ApexParseStatus, ApexRequestLog, APEX_SOURCE_NAME, NO_DATA_TEXT};
use hex_assistant_app::live_client::{request_failure, ResolvedPlayerSnapshot};
use hex_assistant_app::models::CaptureSettings;
use hex_assistant_app::ocr::{AugmentDictionary, AugmentEntry};
use hex_assistant_app::orchestrator::{
    build_overlay_slot_data, build_overlay_slots, is_allowed_game_mode, live_outcome, normalize_overlay_lookup_text,
    resolve_overlay_choice, resolve_request_choices, shrink_error_message, CalibratedPanelSnapshot, ListenerControl,
    RuntimeOrchestrator, RuntimeOverlayPlan, RuntimeTriggerEvent,
};
use hex_assistant_app::overlay::OverlaySlotData;
use hex_assistant_app::state_machine::{
    AssistantStatus, AugmentChoice, LivePlayerSnapshot, PanelState, PauseReason, StateMachineInput,
};

fn choice(slot: u8, id: &str) -> AugmentChoice {
    AugmentChoice { slot, augment_id: id.to_string() }
}

fn snapshot(level: u8, mode: &str) -> ResolvedPlayerSnapshot {
    ResolvedPlayerSnapshot {
        active_player_name: "loccen#65238".to_string(),
        champion_name: "Ahri".to_string(),
        level,
        game_mode: Some(mode.to_string()),
        source_endpoint: "https://127.0.0.1:2999/liveclientdata/allgamedata".to_string(),
        fallback_used: false,
    }
}

fn expanded_input(choices: Vec<AugmentChoice>) -> StateMachineInput {
    StateMachineInput {
        player: Some(LivePlayerSnapshot { champion_name: "Ahri".to_string(), level: 7 }),
        panel_state: PanelState::Expanded,
        choices,
        selected_slot: None,
        pause_reason: None,
    }
}

fn dictionary() -> AugmentDictionary {
    AugmentDictionary {
        locale: "zh-CN".to_string(),
        version: 1,
        augments: vec![
            AugmentEntry {
                id: "prismatic-ticket".to_string(),
                name: "棱彩门票".to_string(),
                aliases: vec!["Prismatic Ticket".to_string()],
            },
            AugmentEntry {
                id: "trade-sector".to_string(),
                name: "交易扇区".to_string(),
                aliases: vec!["Trade Sector".to_string()],
            },
        ],
    }
}

fn cached_result(augment: &str, rating: Option<&str>, summary: &str, tip: Option<&str>, status: ApexParseStatus) -> ApexLookupResult {
    ApexLookupResult {
        champion_name: "Ahri".to_string(),
        augment_name: augment.to_string(),
        rating: rating.map(|r| r.to_string()),
        summary: summary.to_string(),
        tip: tip.map(|t| t.to_string()),
        source: APEX_SOURCE_NAME.to_string(),
        source_url: "https://apexlol.info/zh/hextech/77".to_string(),
        fetched_at: 1_000,
        cache_hit: true,
        status,
        error: None,
        request_log: ApexRequestLog {
            request_url: "https://apexlol.info/zh/hextech/77".to_string(),
            duration_ms: 12,
            cache_hit: true,
            parse_status: status,
            failure_reason: None,
        },
    }
}

#[test]
fn overlay_plan_hides_when_panel_is_collapsed() {
    let mut orchestrator = RuntimeOrchestrator::new();
    orchestrator.overlay_slots = vec![OverlaySlotData {
        slot: 1,
        title: "棱彩门票".to_string(),
        body: Some("摘要：适合连胜经济局。".to_string()),
        augment_id: Some("prismatic-ticket".to_string()),
        rank: Some("S".to_string()),
        score: None,
        summary: Some("适合连胜经济局。".to_string()),
        tips: Some(vec!["优先补前排".to_string()]),
        source_label: Some(APEX_SOURCE_NAME.to_string()),
        source_detail: Some("缓存命中".to_string()),
        insight: Some("Ahri 第 3 档选择「棱彩门票」的 ApexLOL 评级为 S".to_string()),
    }];
    orchestrator.machine.apply(StateMachineInput {
        player: Some(LivePlayerSnapshot { champion_name: "Ahri".to_string(), level: 7 }),
        panel_state: PanelState::Collapsed,
        choices: vec![choice(1, "prismatic-ticket")],
        selected_slot: None,
        pause_reason: None,
    });
    orchestrator.panel_snapshot = CalibratedPanelSnapshot {
        panel_state: PanelState::Collapsed,
        choices: vec![choice(1, "prismatic-ticket")],
        selected_slot: None,
    };

    let plan = orchestrator.build_overlay_plan();
    assert_eq!(plan, RuntimeOverlayPlan::Hide { reason: "海克斯面板未展开".to_string() });
}

#[test]
fn manual_tick_steps_record_pending_tiers_and_slot_changes() {
    let mut orchestrator = RuntimeOrchestrator::new();
    orchestrator.apply_panel_snapshot(Some(CalibratedPanelSnapshot {
        panel_state: PanelState::Expanded,
        choices: vec![choice(1, "prismatic-ticket"), choice(2, "build-a-bud")],
        selected_slot: None,
    }));
    let live = Ok(snapshot(11, "KIWI"));
    let outcome = live_outcome(&live);
    assert_eq!(outcome.result_category, "success");
    orchestrator.refresh_panel_snapshot(outcome.player.as_ref(), None);
    let events = orchestrator.apply_live_outcome(&outcome);
    orchestrator.record_event(
        RuntimeTriggerEvent::Manual,
        outcome.player.clone(),
        events,
        outcome.error_code.clone(),
        "运行时编排完成一次状态刷新".to_string(),
        "runtime-orchestrator-1".to_string(),
        "2024-01-01T00:00:00Z".to_string(),
    );

    let snapshot = orchestrator.snapshot(false);
    assert_eq!(snapshot.state.pending_tier, Some(3));
    assert_eq!(snapshot.state.pending_tiers, vec![3, 7, 11]);
    assert_eq!(snapshot.recent_events[0].champion_name.as_deref(), Some("Ahri"));
    assert_eq!(snapshot.recent_events[0].slot_changes.len(), 2);
    assert_eq!(snapshot.recent_events[0].pending_tiers, vec![3, 7, 11]);
    assert!(!snapshot.listening);
}

#[test]
fn unsupported_mode_pauses_the_runtime() {
    let mut orchestrator = RuntimeOrchestrator::new();
    let outcome = live_outcome(&Ok(snapshot(5, "ARAM")));
    assert_eq!(outcome.pause_reason, Some(PauseReason::UnsupportedGameMode));
    assert_eq!(outcome.error_code.as_deref(), Some("HEX-LIVE-CLIENT-MODE-MISMATCH"));
    assert_eq!(
        outcome.error_message.as_deref(),
        Some("当前模式 ARAM 不在允许列表 [\"KIWI\"]，运行时暂停")
    );
    orchestrator.apply_live_outcome(&outcome);
    let state = orchestrator.machine.state();
    assert_eq!(state.status, AssistantStatus::Paused);
    assert_eq!(state.pause_reason, Some(PauseReason::UnsupportedGameMode));
    assert_eq!(orchestrator.last_error_code.as_deref(), Some("HEX-LIVE-CLIENT-MODE-MISMATCH"));
    match orchestrator.build_overlay_plan() {
        RuntimeOverlayPlan::Hide { reason } => assert_eq!(reason, "运行时已暂停：UnsupportedGameMode"),
        RuntimeOverlayPlan::Show { .. } => panic!("a paused runtime shows nothing"),
    }
}

#[test]
fn failed_request_pauses_with_its_code() {
    let error = request_failure(None, "connection refused".to_string());
    let outcome = live_outcome(&Err(error));
    assert_eq!(outcome.pause_reason, Some(PauseReason::LiveClientUnavailable));
    assert_eq!(outcome.error_code.as_deref(), Some("HEX-LIVE-CLIENT-UNAVAILABLE"));
    assert_eq!(outcome.result_category, "http_error");
    assert!(outcome.player.is_none());
}

#[test]
fn game_mode_is_matched_trimmed_and_ignoring_case() {
    assert!(is_allowed_game_mode(Some("KIWI")));
    assert!(is_allowed_game_mode(Some("  kiwi ")));
    assert!(!is_allowed_game_mode(Some("ARAM")));
    assert!(!is_allowed_game_mode(Some("   ")));
    assert!(!is_allowed_game_mode(None));
}

#[test]
fn overlay_plan_shows_visible_choices_when_runtime_ready() {
    let mut orchestrator = RuntimeOrchestrator::new();
    let choices = vec![choice(1, "prismatic-ticket"), choice(3, "trade-sector")];
    orchestrator.machine.apply(expanded_input(choices.clone()));
    orchestrator.panel_snapshot = CalibratedPanelSnapshot { panel_state: PanelState::Expanded, choices, selected_slot: None };

    let request = orchestrator.overlay_request().expect("the overlay is ready");
    assert_eq!(request.champion_name, "Ahri");
    assert_eq!(request.pending_tier, 3);
    assert_eq!(request.choices, vec![(1, "prismatic-ticket".to_string()), (3, "trade-sector".to_string())]);
    let dictionary = dictionary();
    let resolved = resolve_request_choices(&request, Some(&dictionary));
    assert_eq!(resolved[0].title, "棱彩门票");
    assert_eq!(resolved[1].lookup_name, "交易扇区");
    let lookups = vec![
        Ok(cached_result("棱彩门票", Some("S"), "适合连胜经济局。", Some("优先补前排"), ApexParseStatus::Found)),
        Ok(cached_result("交易扇区", None, NO_DATA_TEXT, None, ApexParseStatus::NoData)),
    ];
    orchestrator.overlay_slots = build_overlay_slots(&request.champion_name, request.pending_tier, resolved, lookups);

    match orchestrator.build_overlay_plan() {
        RuntimeOverlayPlan::Show { reason, slots } => {
            assert!(reason.contains("待处理档位 3"));
            assert_eq!(slots.len(), 2);
            assert_eq!(slots[0].slot, 1);
            assert_eq!(slots[0].title, "棱彩门票");
            assert_eq!(slots[0].augment_id.as_deref(), Some("prismatic-ticket"));
            assert_eq!(slots[0].rank.as_deref(), Some("S"));
            assert_eq!(slots[0].summary.as_deref(), Some("适合连胜经济局。"));
            assert_eq!(slots[0].tips.as_ref(), Some(&vec!["优先补前排".to_string()]));
            assert_eq!(slots[0].source_label.as_deref(), Some(APEX_SOURCE_NAME));
            assert!(slots[0].source_detail.as_deref().is_some_and(|detail| detail.contains("缓存命中")));
            assert!(slots[0].body.as_deref().is_some_and(|body| body.contains("结论：Ahri")));
            assert!(slots[1].rank.is_none());
        },
        RuntimeOverlayPlan::Hide { reason } => panic!("expected a show plan, got hide: {reason}"),
    }
}

#[test]
fn found_lookup_builds_a_data_card() {
    let choice = resolve_overlay_choice(1, "prismatic ticket", Some(&dictionary()));
    let slot = build_overlay_slot_data(
        "Ahri",
        7,
        choice,
        Ok(cached_result("棱彩门票", Some(" S "), "  适合连胜经济局。 ", Some("优先补前排"), ApexParseStatus::Found)),
    );
    assert_eq!(slot.title, "棱彩门票");
    assert_eq!(slot.rank.as_deref(), Some("S"));
    assert_eq!(slot.augment_id.as_deref(), Some("prismatic-ticket"));
    assert_eq!(slot.summary.as_deref(), Some("适合连胜经济局。"));
    assert_eq!(slot.source_detail.as_deref(), Some("缓存命中 · https://apexlol.info/zh/hextech/77"));
    assert_eq!(slot.tips.as_ref(), Some(&vec!["优先补前排".to_string()]));
    assert_eq!(
        slot.body.as_deref(),
        Some("摘要：适合连胜经济局。 提醒：优先补前排 结论：Ahri 第 7 档选择「棱彩门票」的 ApexLOL 评级为 S")
    );
    assert_eq!(slot.insight.as_deref(), Some("Ahri 第 7 档选择「棱彩门票」的 ApexLOL 评级为 S"));
}

#[test]
fn no_data_lookup_falls_back_without_faking_rank() {
    let choice = resolve_overlay_choice(2, "棱彩门票", None);
    let slot = build_overlay_slot_data(
        "Ahri",
        3,
        choice,
        Ok(cached_result("棱彩门票", None, NO_DATA_TEXT, None, ApexParseStatus::NoData)),
    );
    assert_eq!(slot.title, "棱彩门票");
    assert!(slot.rank.is_none());
    assert!(slot.score.is_none());
    assert_eq!(slot.augment_id.as_deref(), Some("棱彩门票"));
    assert!(slot.summary.as_deref().is_some_and(|summary| summary.contains("暂无")));
    assert_eq!(slot.source_label.as_deref(), Some(APEX_SOURCE_NAME));
    assert_eq!(slot.source_detail.as_deref(), Some("未找到联动数据"));
    assert!(slot.tips.as_ref().is_some_and(|tips| tips.iter().any(|tip| tip.contains("手动判断"))));
    assert_eq!(slot.insight.as_deref(), Some("Ahri · 第 3 档 · 使用兜底展示"));
    assert!(slot.body.as_deref().is_some_and(|body| body.contains("暂无")));
}

#[test]
fn failed_lookup_is_marked_as_fallback() {
    let choice = resolve_overlay_choice(3, "交易扇区", None);
    let slot = build_overlay_slot_data("Ahri", 3, choice, Err("请求 ApexLOL 失败:\n  timeout   after 6s".to_string()));
    assert_eq!(slot.source_label.as_deref(), Some(APEX_SOURCE_NAME));
    assert_eq!(slot.source_detail.as_deref(), Some("查询失败：请求 ApexLOL 失败: timeout after 6s"));
    assert!(slot.body.as_deref().is_some_and(|body| body.contains("手动判断") && body.contains("兜底展示")));

    let choice = resolve_overlay_choice(3, "交易扇区", None);
    let mut failed = cached_result("交易扇区", None, NO_DATA_TEXT, None, ApexParseStatus::RequestFailed);
    failed.error = Some("  ".to_string());
    let slot = build_overlay_slot_data("Ahri", 3, choice, Ok(failed));
    assert_eq!(slot.source_detail.as_deref(), Some("请求失败"));
}

#[test]
fn overlay_lookup_text_is_trimmed_lowercased_and_compact() {
    assert_eq!(normalize_overlay_lookup_text("  Prismatic Ticket's "), "prismatictickets");
    assert_eq!(shrink_error_message(" a \n b\t c "), "a b c");
    let resolved = resolve_overlay_choice(1, "TRADE sector", Some(&dictionary()));
    assert_eq!(resolved.augment_id.as_deref(), Some("trade-sector"));
    let unknown = resolve_overlay_choice(1, "未知强化", Some(&dictionary()));
    assert_eq!(unknown.title, "未知强化");
    assert!(unknown.augment_id.is_none());
}

#[test]
fn register_listener_start_is_idempotent() {
    let mut control = ListenerControl::new();
    let mut orchestrator = RuntimeOrchestrator::new();
    let granted = control.begin_start();
    assert_eq!(granted, Some(1));
    let event = orchestrator.control_event(RuntimeTriggerEvent::ListenerStarted, "t".to_string(), "now".to_string());
    let first_generation = orchestrator.settle_listener_start(&mut control, 1, event, Ok(()));
    assert_eq!(first_generation, Ok(Some(1)));
    let second_generation = control.begin_start();
    assert_eq!(second_generation, None);
    assert!(control.listening);
    assert_eq!(control.generation, 1);
    assert!(control.is_current(1));

    let snapshot = orchestrator.snapshot(control.listening);
    assert_eq!(snapshot.recent_events.len(), 1);
    assert_eq!(snapshot.recent_events[0].trigger_event, RuntimeTriggerEvent::ListenerStarted);
    assert_eq!(snapshot.recent_events[0].message, "低频监听已启动");

    assert!(control.stop());
    assert!(!control.is_current(1));
    assert_eq!(control.generation, 2);
    assert!(!control.stop());
}

#[test]
fn failed_start_log_records_nothing_and_undoes_the_start() {
    let mut control = ListenerControl::new();
    let mut orchestrator = RuntimeOrchestrator::new();
    orchestrator.record_control_event(RuntimeTriggerEvent::Manual, "a".to_string(), "now".to_string());
    let generation = control.begin_start().expect("the first start is accepted");
    let event = orchestrator.control_event(RuntimeTriggerEvent::ListenerStarted, "b".to_string(), "now".to_string());
    let result = orchestrator.settle_listener_start(&mut control, generation, event, Err("disk full".to_string()));
    assert_eq!(result, Err("disk full".to_string()));
    assert!(!control.listening);
    assert_eq!(control.generation, 2);
    assert_eq!(orchestrator.recent_events.len(), 1);
    assert_eq!(orchestrator.recent_events[0].trace_id, "a");

    let event = orchestrator.control_event(RuntimeTriggerEvent::Manual, "c".to_string(), "now".to_string());
    assert_eq!(orchestrator.record_logged_event(event, Err("no log".to_string())), Err("no log".to_string()));
    assert_eq!(orchestrator.recent_events.len(), 1);
    let event = orchestrator.control_event(RuntimeTriggerEvent::Manual, "d".to_string(), "now".to_string());
    assert_eq!(orchestrator.record_logged_event(event, Ok(())), Ok(()));
    assert_eq!(orchestrator.recent_events.len(), 2);
    assert_eq!(orchestrator.recent_events[0].trace_id, "d");
}

#[test]
fn restart_after_stop_retires_the_old_worker() {
    let mut control = ListenerControl::new();
    let first = control.begin_start().expect("the first start is accepted");
    assert!(control.stop());
    let second = control.begin_start().expect("a start after a stop is accepted");
    assert_eq!((first, second), (1, 3));
    assert!(control.is_current(second));
    assert!(!control.is_current(first));
    control.abort_start();
    assert!(!control.listening);
    assert!(!control.is_current(second));
}

#[test]
fn event_log_keeps_the_newest_forty() {
    let mut orchestrator = RuntimeOrchestrator::new();
    for i in 0..45 {
        orchestrator.record_control_event(RuntimeTriggerEvent::Manual, format!("trace-{i}"), "now".to_string());
    }
    assert_eq!(orchestrator.recent_events.len(), 40);
    assert_eq!(orchestrator.recent_events[0].trace_id, "trace-44");
    assert_eq!(orchestrator.recent_events[39].trace_id, "trace-5");
    assert_eq!(orchestrator.recent_events[0].message, "运行时控制事件");
}

#[test]
fn poll_interval_depends_on_what_is_on_screen() {
    let capture = CaptureSettings {
        preferred_monitor_id: None,
        poll_interval_ms: 100,
        idle_poll_interval_ms: 5000,
        retry_delay_ms: 200,
        default_display_mode: "borderless".to_string(),
    };
    let mut orchestrator = RuntimeOrchestrator::new();
    assert_eq!(orchestrator.next_poll_interval_ms(&capture), 5000);
    assert_eq!(orchestrator.poll_interval_mode(&capture), "idle");
    let choices = vec![choice(1, "prismatic-ticket")];
    orchestrator.machine.apply(expanded_input(choices.clone()));
    orchestrator.panel_snapshot = CalibratedPanelSnapshot { panel_state: PanelState::Expanded, choices, selected_slot: None };
    assert_eq!(orchestrator.next_poll_interval_ms(&capture), 250);
    assert_eq!(orchestrator.poll_interval_mode(&capture), "active");
}

#[test]
fn panel_snapshot_is_reset_below_level_three() {
    let mut orchestrator = RuntimeOrchestrator::new();
    orchestrator.apply_panel_snapshot(Some(CalibratedPanelSnapshot {
        panel_state: PanelState::Expanded,
        choices: vec![choice(1, "a")],
        selected_slot: Some(1),
    }));
    let low = LivePlayerSnapshot { champion_name: "Ahri".to_string(), level: 2 };
    orchestrator.refresh_panel_snapshot(Some(&low), Some((PanelState::Expanded, vec![choice(2, "b")])));
    assert_eq!(orchestrator.panel_snapshot, CalibratedPanelSnapshot::default());

    let high = LivePlayerSnapshot { champion_name: "Ahri".to_string(), level: 3 };
    orchestrator.refresh_panel_snapshot(Some(&high), Some((PanelState::Expanded, vec![choice(2, "b")])));
    assert_eq!(orchestrator.panel_snapshot.choices, vec![choice(2, "b")]);
    assert_eq!(orchestrator.panel_snapshot.selected_slot, None);
}
