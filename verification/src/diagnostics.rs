//! What the diagnostics report: the health check items, the offline
//! state-machine self check, and the checks and texts of a release package.
use vstd::prelude::*;
use crate::app_paths::AppPaths;
use crate::calibration::{calibration_config_path, spec_calibration_config_path};
use crate::capture::{bytes_to_hex, capture_samples_dir, hex_of, sha256, sha256_digest, spec_capture_samples_dir};
use crate::live_client::active_player_url_text;
use crate::models::{HealthCheckItem, HealthStatus};
use crate::ocr::OcrResourceStatus;
use crate::orchestrator::eq_ignore_ascii_case;
use crate::overlay::{overlay_error_message, OverlayBounds, OverlayError};
use crate::state_machine::{
    initial_state, spec_apply, AssistantStateMachine, AssistantStatus, AugmentChoice, InputModel,
    LivePlayerSnapshot, PanelState, PlayerModel, StateMachineInput,
};
use crate::text::{
    decimal, join_path, join_with, joined, owned, push_char, push_decimal, push_joined, push_signed,
    push_str, signed_decimal, texts,
};

verus! {

// ---------------------------------------------------------------------------
// The state-machine self check
// ---------------------------------------------------------------------------

/// How `{:?}` prints a status.
pub open spec fn status_name(s: AssistantStatus) -> Seq<char> {
    match s {
        AssistantStatus::WaitingForGame => "WaitingForGame"@,
        AssistantStatus::WaitingForTier => "WaitingForTier"@,
        AssistantStatus::PendingSelection => "PendingSelection"@,
        AssistantStatus::Paused => "Paused"@,
    }
}

/// How `{:?}` prints an optional tier.
pub open spec fn debug_opt_u8(v: Option<u8>) -> Seq<char> {
    match v {
        Some(t) => "Some("@ + decimal(t as nat) + ")"@,
        None => "None"@,
    }
}

/// How `{:?}` prints a list of tiers.
pub open spec fn debug_u8_list(v: Seq<u8>) -> Seq<char> {
    "["@ + join_with(v.map_values(|t: u8| decimal(t as nat)), ", "@) + "]"@
}

/// The sample the self check feeds the machine: Ahri at level 7 before an
/// expanded panel with three choices, nothing selected, nothing paused.
pub open spec fn self_check_input() -> InputModel {
    InputModel {
        player: Some(PlayerModel { champion: "Ahri"@, level: 7 }),
        panel: PanelState::Expanded,
        choices: seq![(0u8, "prismatic-ticket"@), (1u8, "build-a-bud"@), (2u8, "trade-sector"@)],
        selected_slot: None,
        pause_reason: None,
    }
}

/// The details of the self check: the status, pending tier, pending tiers and
/// event count of a fresh machine after the sample.
pub open spec fn self_check_details() -> Seq<char> {
    let (s, events) = spec_apply(initial_state(), self_check_input());
    "状态 "@ + status_name(s.status) + "，待选阶段 "@ + debug_opt_u8(s.pending_tier) + "，待处理档位 "@
        + debug_u8_list(s.pending_tiers) + "，事件数 "@ + decimal(events.len())
}

fn status_label(s: AssistantStatus) -> (r: &'static str)
    ensures
        r@ == status_name(s),
{
    match s {
        AssistantStatus::WaitingForGame => "WaitingForGame",
        AssistantStatus::WaitingForTier => "WaitingForTier",
        AssistantStatus::PendingSelection => "PendingSelection",
        AssistantStatus::Paused => "Paused",
    }
}

fn push_u8_list(out: &mut String, v: &Vec<u8>)
    ensures
        final(out)@ == old(out)@ + debug_u8_list(v@),
{
    let ghost start = out@;
    let ghost dv = v@.map_values(|t: u8| decimal(t as nat));
    push_str(out, "[");
    let mut i: usize = 0;
    while i < v.len()
        invariant
            0 <= i <= v@.len(),
            dv == v@.map_values(|t: u8| decimal(t as nat)),
            out@ == start + "["@ + join_with(dv.take(i as int), ", "@),
        decreases v@.len() - i,
    {
        proof {
            assert(dv.take(i + 1).drop_last() =~= dv.take(i as int));
        }
        if i > 0 {
            push_str(out, ", ");
        }
        push_decimal(out, v[i] as u128);
        proof {
            if i == 0 {
                assert(dv.take(1) =~= seq![dv[0]]);
            }
            assert(out@ =~= start + "["@ + join_with(dv.take(i + 1), ", "@));
        }
        i = i + 1;
    }
    assert(dv.take(v@.len() as int) =~= dv);
    push_str(out, "]");
}

fn item(key: &str, name: &str, status: HealthStatus, details: String, error_code: Option<String>) -> (r: HealthCheckItem)
    ensures
        r.key@ == key@,
        r.name@ == name@,
        r.status == status,
        r.details == details,
        r.error_code == error_code,
{
    HealthCheckItem { key: owned(key), name: owned(name), status: status, details: details, error_code: error_code }
}

/// The offline state-machine check of the health report: a fresh machine
/// fed the sample, reported as passed with what it ended in.
pub fn run_state_machine_self_check() -> (r: HealthCheckItem)
    ensures
        r.key@ == "state-machine"@,
        r.name@ == "状态机离线模拟"@,
        r.status == HealthStatus::Pass,
        r.details@ == self_check_details(),
        r.error_code is None,
{
    let mut machine = AssistantStateMachine::new();
    let mut choices: Vec<AugmentChoice> = Vec::new();
    choices.push(AugmentChoice { slot: 0, augment_id: owned("prismatic-ticket") });
    choices.push(AugmentChoice { slot: 1, augment_id: owned("build-a-bud") });
    choices.push(AugmentChoice { slot: 2, augment_id: owned("trade-sector") });
    assert(crate::state_machine::choice_views(choices@) =~= seq![
        (0u8, "prismatic-ticket"@),
        (1u8, "build-a-bud"@),
        (2u8, "trade-sector"@),
    ]);
    let input = StateMachineInput {
        player: Some(LivePlayerSnapshot { champion_name: owned("Ahri"), level: 7 }),
        panel_state: PanelState::Expanded,
        choices: choices,
        selected_slot: None,
        pause_reason: None,
    };
    assert(input@ =~= self_check_input());
    let events = machine.apply(input);
    let state = machine.state();
    let mut details = owned("状态 ");
    push_str(&mut details, status_label(state.status));
    push_str(&mut details, "，待选阶段 ");
    match state.pending_tier {
        Some(t) => {
            push_str(&mut details, "Some(");
            push_decimal(&mut details, t as u128);
            push_str(&mut details, ")");
        },
        None => push_str(&mut details, "None"),
    }
    push_str(&mut details, "，待处理档位 ");
    push_u8_list(&mut details, &state.pending_tiers);
    push_str(&mut details, "，事件数 ");
    push_decimal(&mut details, events.len() as u128);
    proof {
        assert(crate::state_machine::events_view(events@).len() == events@.len());
    }
    item("state-machine", "状态机离线模拟", HealthStatus::Pass, details, None)
}

// ---------------------------------------------------------------------------
// Health check items
// ---------------------------------------------------------------------------

/// The plain content of a health item.
pub struct HealthItemModel {
    pub key: Seq<char>,
    pub name: Seq<char>,
    pub status: HealthStatus,
    pub details: Seq<char>,
    pub error_code: Option<Seq<char>>,
}

impl View for HealthCheckItem {
    type V = HealthItemModel;

    open spec fn view(&self) -> HealthItemModel {
        HealthItemModel {
            key: self.key@,
            name: self.name@,
            status: self.status,
            details: self.details@,
            error_code: crate::apex::ov(self.error_code),
        }
    }
}

/// What the health check found out before reporting: the settings' language
/// and display mode, whether a calibration is saved, the OCR resource status,
/// the ApexLOL cache report (total and failed entries) and the overlay plan
/// of a test card.
pub struct HealthFindings {
    pub language: String,
    pub display_mode: String,
    pub calibration_exists: bool,
    pub ocr_status: OcrResourceStatus,
    pub apex_report: Result<(usize, usize), String>,
    pub overlay_plan: Result<OverlayBounds, OverlayError>,
}

fn hi(key: Seq<char>, name: Seq<char>, status: HealthStatus, details: Seq<char>, error_code: Option<Seq<char>>) -> (r: HealthItemModel)
    ensures
        r == (HealthItemModel { key, name, status, details, error_code }),
{
    HealthItemModel { key, name, status, details, error_code }
}

/// The items of the health report, in order.
pub open spec fn spec_health_items(paths: AppPaths, f: HealthFindings) -> Seq<HealthItemModel> {
    let calibration = spec_calibration_config_path(paths.root@);
    seq![
        HealthItemModel { key: "app-data"@, name: "应用数据目录"@, status: HealthStatus::Pass, details: "已准备 "@ + paths.root@, error_code: None },
        HealthItemModel {
            key: "settings"@,
            name: "默认配置"@,
            status: HealthStatus::Pass,
            details: "语言 "@ + f.language@ + "，默认显示模式 "@ + f.display_mode@,
            error_code: None,
        },
        HealthItemModel {
            key: "logs"@,
            name: "结构化日志"@,
            status: HealthStatus::Pass,
            details: "写入 "@ + joined(paths.logs@, "app.jsonl"@),
            error_code: None,
        },
        HealthItemModel {
            key: "capture-command"@,
            name: "截图样本采集"@,
            status: HealthStatus::NotChecked,
            details: "命令已接入；健康检查不主动截屏，样本目录 "@ + spec_capture_samples_dir(paths.root@),
            error_code: None,
        },
        HealthItemModel {
            key: "calibration"@,
            name: "屏幕校准配置"@,
            status: if f.calibration_exists { HealthStatus::Pass } else { HealthStatus::Warn },
            details: if f.calibration_exists { "已找到 "@ + calibration } else { "尚未保存校准配置 "@ + calibration },
            error_code: if f.calibration_exists { None } else { Some("HEX-CALIBRATION-MISSING"@) },
        },
        HealthItemModel {
            key: "ocr-model"@,
            name: "OCR 模型文件"@,
            status: if f.ocr_status.ready { HealthStatus::Pass } else { HealthStatus::Warn },
            details: f.ocr_status.message@,
            error_code: crate::apex::ov(f.ocr_status.error_code),
        },
        HealthItemModel {
            key: "ort-runtime"@,
            name: "ORT 动态库"@,
            status: HealthStatus::Warn,
            details: "阶段 4 接入 ORT 动态库加载检查；当前未加载推理运行时"@,
            error_code: Some("HEX-ORT-PENDING"@),
        },
        HealthItemModel {
            key: "live-client"@,
            name: "Live Client Data API"@,
            status: HealthStatus::NotChecked,
            details: "只读接口命令已接入；健康检查不主动访问 "@ + active_player_url_text(),
            error_code: None,
        },
        HealthItemModel { key: "state-machine"@, name: "状态机离线模拟"@, status: HealthStatus::Pass, details: self_check_details(), error_code: None },
        HealthItemModel {
            key: "runtime-orchestrator"@,
            name: "局内闭环编排器"@,
            status: HealthStatus::NotChecked,
            details: "命令已接入；低频监听只读取 Live Client 本地接口并复用已校准面板状态，健康检查不主动访问游戏接口"@,
            error_code: None,
        },
        HealthItemModel {
            key: "apex-lol"@,
            name: "ApexLOL 缓存"@,
            status: if f.apex_report is Ok { HealthStatus::Pass } else { HealthStatus::Fail },
            details: match f.apex_report {
                Ok((total, failed)) => "缓存报告可生成；总条目 "@ + decimal(total as nat) + "，失败条目 "@ + decimal(failed as nat)
                    + "，健康检查不请求 ApexLOL 网络"@,
                Err(e) => "ApexLOL 缓存报告生成失败: "@ + e@,
            },
            error_code: None,
        },
        HealthItemModel {
            key: "overlay"@,
            name: "Overlay 能力"@,
            status: if f.overlay_plan is Ok { HealthStatus::Pass } else { HealthStatus::Fail },
            details: match f.overlay_plan {
                Ok(b) => "几何规划可用 "@ + decimal(b.width as nat) + "x"@ + decimal(b.height as nat) + " @ "@ + signed_decimal(b.x as int)
                    + ","@ + signed_decimal(b.y as int) + "；真实透明置顶与点击穿透需在 Windows 桌面验收"@,
                Err(e) => "Overlay 几何规划失败: "@ + overlay_error_message(e),
            },
            error_code: None,
        },
    ]
}

fn copy_opt_text(v: &Option<String>) -> (r: Option<String>)
    ensures
        crate::apex::ov(r) == crate::apex::ov(*v),
{
    match v {
        Some(s) => Some(s.clone()),
        None => None,
    }
}

/// The items of the health report for an application data layout and what
/// the check found out.
pub fn health_check_items(paths: &AppPaths, findings: &HealthFindings) -> (r: Vec<HealthCheckItem>)
    ensures
        r@.map_values(|i: HealthCheckItem| i@) == spec_health_items(*paths, *findings),
{
    let mut items: Vec<HealthCheckItem> = Vec::new();
    let mut d = owned("已准备 ");
    push_str(&mut d, paths.root.as_str());
    items.push(item("app-data", "应用数据目录", HealthStatus::Pass, d, None));

    let mut d = owned("语言 ");
    push_str(&mut d, findings.language.as_str());
    push_str(&mut d, "，默认显示模式 ");
    push_str(&mut d, findings.display_mode.as_str());
    items.push(item("settings", "默认配置", HealthStatus::Pass, d, None));

    let mut d = owned("写入 ");
    let log = paths.app_log_path();
    push_str(&mut d, log.as_str());
    items.push(item("logs", "结构化日志", HealthStatus::Pass, d, None));

    let mut d = owned("命令已接入；健康检查不主动截屏，样本目录 ");
    let samples = capture_samples_dir(paths.root.as_str());
    push_str(&mut d, samples.as_str());
    items.push(item("capture-command", "截图样本采集", HealthStatus::NotChecked, d, None));

    let calibration = calibration_config_path(paths.root.as_str());
    if findings.calibration_exists {
        let mut d = owned("已找到 ");
        push_str(&mut d, calibration.as_str());
        items.push(item("calibration", "屏幕校准配置", HealthStatus::Pass, d, None));
    } else {
        let mut d = owned("尚未保存校准配置 ");
        push_str(&mut d, calibration.as_str());
        items.push(item("calibration", "屏幕校准配置", HealthStatus::Warn, d, Some(owned("HEX-CALIBRATION-MISSING"))));
    }

    items.push(
        item(
            "ocr-model",
            "OCR 模型文件",
            if findings.ocr_status.ready {
                HealthStatus::Pass
            } else {
                HealthStatus::Warn
            },
            findings.ocr_status.message.clone(),
            copy_opt_text(&findings.ocr_status.error_code),
        ),
    );

    items.push(
        item(
            "ort-runtime",
            "ORT 动态库",
            HealthStatus::Warn,
            owned("阶段 4 接入 ORT 动态库加载检查；当前未加载推理运行时"),
            Some(owned("HEX-ORT-PENDING")),
        ),
    );

    let mut d = owned("只读接口命令已接入；健康检查不主动访问 ");
    push_str(&mut d, crate::live_client::LiveClientDataApi::new().active_player_url());
    items.push(item("live-client", "Live Client Data API", HealthStatus::NotChecked, d, None));

    items.push(run_state_machine_self_check());

    items.push(
        item(
            "runtime-orchestrator",
            "局内闭环编排器",
            HealthStatus::NotChecked,
            owned("命令已接入；低频监听只读取 Live Client 本地接口并复用已校准面板状态，健康检查不主动访问游戏接口"),
            None,
        ),
    );

    match &findings.apex_report {
        Ok((total, failed)) => {
            let mut d = owned("缓存报告可生成；总条目 ");
            push_decimal(&mut d, *total as u128);
            push_str(&mut d, "，失败条目 ");
            push_decimal(&mut d, *failed as u128);
            push_str(&mut d, "，健康检查不请求 ApexLOL 网络");
            items.push(item("apex-lol", "ApexLOL 缓存", HealthStatus::Pass, d, None));
        },
        Err(e) => {
            let mut d = owned("ApexLOL 缓存报告生成失败: ");
            push_str(&mut d, e.as_str());
            items.push(item("apex-lol", "ApexLOL 缓存", HealthStatus::Fail, d, None));
        },
    }

    match &findings.overlay_plan {
        Ok(b) => {
            let mut d = owned("几何规划可用 ");
            push_decimal(&mut d, b.width as u128);
            push_str(&mut d, "x");
            push_decimal(&mut d, b.height as u128);
            push_str(&mut d, " @ ");
            push_signed(&mut d, b.x as i64);
            push_str(&mut d, ",");
            push_signed(&mut d, b.y as i64);
            push_str(&mut d, "；真实透明置顶与点击穿透需在 Windows 桌面验收");
            items.push(item("overlay", "Overlay 能力", HealthStatus::Pass, d, None));
        },
        Err(e) => {
            let mut d = owned("Overlay 几何规划失败: ");
            let m = e.message();
            push_str(&mut d, m.as_str());
            items.push(item("overlay", "Overlay 能力", HealthStatus::Fail, d, None));
        },
    }
    assert(items@.map_values(|i: HealthCheckItem| i@) =~= spec_health_items(*paths, *findings));
    items
}

// ---------------------------------------------------------------------------
// Release packages
// ---------------------------------------------------------------------------

/// The README placed at the root of a release package.
pub const RELEASE_README: &'static str = "LOL 海克斯助手 Windows 用户包\n\n运行方式：\n1. 解压整个 zip，不要只单独复制 exe。\n2. 双击 hex-assistant-app.exe 启动。\n3. 首次使用前确认 LOL 使用无边框模式，并在应用内完成截图区域校准。\n\n包内资源：\n- 已包含 PP-OCRv4 rec 模型：resources/models/ppocrv4_rec.onnx\n- 已包含 ONNX Runtime：resources/onnxruntime/onnxruntime.dll\n- 已包含 ONNX Runtime 共享库：resources/onnxruntime/onnxruntime_providers_shared.dll\n- 已包含海克斯词库：resources/dictionaries/augments.zh-CN.json\n\n诊断包导出：\n- 应用内使用“导出诊断包”或“导出 release”相关按钮生成诊断材料。\n- 反馈问题时保留日志、截图样本、OCR 报告和 release-index.json。\n\n仍需 Windows 真实验收：\n- 在真实 Windows 桌面启动本 exe。\n- 确认 ppocrv4_rec.onnx 和 onnxruntime.dll 从本包资源目录加载。\n- 确认 Overlay 透明、置顶、不抢焦点、点击穿透。\n- 确认 LOL 无边框模式下真实截图、OCR 和局内流程可用。\n";

/// The README placed at the root of a release package.
pub fn release_root_readme() -> (r: String)
    ensures
        r@ == RELEASE_README@,
{
    owned(RELEASE_README)
}

/// The resources every release package carries: where each lies under the
/// workspace and its entry in the package.
pub open spec fn spec_release_resource_entries(workspace_root: Seq<char>) -> Seq<(Seq<char>, Seq<char>)> {
    let resources = joined(joined(workspace_root, "src-tauri"@), "resources"@);
    seq![
        (joined(joined(resources, "dictionaries"@), "augments.zh-CN.json"@), "resources/dictionaries/augments.zh-CN.json"@),
        (joined(joined(resources, "models"@), "ppocrv4_rec.onnx"@), "resources/models/ppocrv4_rec.onnx"@),
        (joined(joined(resources, "onnxruntime"@), "onnxruntime.dll"@), "resources/onnxruntime/onnxruntime.dll"@),
        (
            joined(joined(resources, "onnxruntime"@), "onnxruntime_providers_shared.dll"@),
            "resources/onnxruntime/onnxruntime_providers_shared.dll"@,
        ),
    ]
}

fn entry(dir: &str, sub: &str, file: &str, name: &str) -> (r: (String, String))
    ensures
        r.0@ == joined(joined(dir@, sub@), file@),
        r.1@ == name@,
{
    let d = join_path(dir, sub);
    (join_path(d.as_str(), file), owned(name))
}

/// The resources every release package carries.
pub fn release_resource_entries(workspace_root: &str) -> (r: Vec<(String, String)>)
    ensures
        r@.map_values(|e: (String, String)| (e.0@, e.1@)) == spec_release_resource_entries(workspace_root@),
{
    let tauri = join_path(workspace_root, "src-tauri");
    let resources = join_path(tauri.as_str(), "resources");
    let mut v: Vec<(String, String)> = Vec::new();
    v.push(entry(resources.as_str(), "dictionaries", "augments.zh-CN.json", "resources/dictionaries/augments.zh-CN.json"));
    v.push(entry(resources.as_str(), "models", "ppocrv4_rec.onnx", "resources/models/ppocrv4_rec.onnx"));
    v.push(entry(resources.as_str(), "onnxruntime", "onnxruntime.dll", "resources/onnxruntime/onnxruntime.dll"));
    v.push(
        entry(
            resources.as_str(),
            "onnxruntime",
            "onnxruntime_providers_shared.dll",
            "resources/onnxruntime/onnxruntime_providers_shared.dll",
        ),
    );
    assert(v@.map_values(|e: (String, String)| (e.0@, e.1@)) =~= spec_release_resource_entries(workspace_root@));
    v
}

/// Whether an artifact extension is `exe`, in any ASCII case.
pub open spec fn is_exe(extension: Option<String>) -> bool {
    match extension {
        Some(e) => eq_ignore_ascii_case(e@, "exe"@),
        None => false,
    }
}

/// Whether some artifact is a Windows executable.
pub open spec fn has_windows_exe(extensions: Seq<Option<String>>) -> bool {
    exists|i: int| 0 <= i < extensions.len() && is_exe(#[trigger] extensions[i])
}

/// The missing resources as "entry <- source", in order.
pub open spec fn missing_resource_lines(resources: Seq<(String, String, bool)>) -> Seq<Seq<char>>
    decreases resources.len(),
{
    if resources.len() == 0 {
        Seq::empty()
    } else {
        let prev = missing_resource_lines(resources.drop_last());
        let (source, name, present) = resources.last();
        if present {
            prev
        } else {
            prev.push(name@ + " <- "@ + source@)
        }
    }
}

/// Whether a release package may be built: it needs a Windows executable
/// among the artifacts, then every required resource (source, entry, present).
pub open spec fn spec_release_check(extensions: Seq<Option<String>>, resources: Seq<(String, String, bool)>) -> Result<(), Seq<char>> {
    if !has_windows_exe(extensions) {
        Err("未找到 Windows exe，拒绝生成看起来像交付包的 release zip。请先执行 Windows GNU 构建。"@)
    } else if missing_resource_lines(resources).len() > 0 {
        Err("缺少 release 必需资源，拒绝生成用户包："@ + join_with(missing_resource_lines(resources), "; "@))
    } else {
        Ok(())
    }
}

fn ascii_eq_exe(e: &str) -> (r: bool)
    ensures
        r == eq_ignore_ascii_case(e@, "exe"@),
{
    crate::orchestrator::ascii_case_eq(e, "exe")
}

/// Whether a release package may be built from the artifacts (by
/// extension) and the required resources.
pub fn check_release_inputs(artifact_extensions: &Vec<Option<String>>, resources: &Vec<(String, String, bool)>) -> (r: Result<(), String>)
    ensures
        match (r, spec_release_check(artifact_extensions@, resources@)) {
            (Ok(()), Ok(())) => true,
            (Err(e), Err(m)) => e@ == m,
            _ => false,
        },
{
    let mut has_exe = false;
    let mut i: usize = 0;
    while i < artifact_extensions.len()
        invariant
            0 <= i <= artifact_extensions@.len(),
            has_exe == exists|k: int| 0 <= k < i && is_exe(#[trigger] artifact_extensions@[k]),
        decreases artifact_extensions@.len() - i,
    {
        match &artifact_extensions[i] {
            Some(e) => {
                if ascii_eq_exe(e.as_str()) {
                    has_exe = true;
                }
            },
            None => {},
        }
        i = i + 1;
    }
    if !has_exe {
        return Err(owned("未找到 Windows exe，拒绝生成看起来像交付包的 release zip。请先执行 Windows GNU 构建。"));
    }
    let mut missing: Vec<String> = Vec::new();
    let mut k: usize = 0;
    while k < resources.len()
        invariant
            0 <= k <= resources@.len(),
            texts(missing@) == missing_resource_lines(resources@.take(k as int)),
        decreases resources@.len() - k,
    {
        proof {
            assert(resources@.take(k + 1).drop_last() =~= resources@.take(k as int));
        }
        let (source, name, present) = &resources[k];
        if !*present {
            let mut line = name.clone();
            push_str(&mut line, " <- ");
            push_str(&mut line, source.as_str());
            let ghost before = missing@;
            missing.push(line);
            proof {
                assert(texts(missing@) =~= texts(before).push(line@));
            }
        }
        k = k + 1;
    }
    assert(resources@.take(resources@.len() as int) =~= resources@);
    if missing.len() > 0 {
        let mut message = owned("缺少 release 必需资源，拒绝生成用户包：");
        push_joined(&mut message, &missing, "; ");
        return Err(message);
    }
    Ok(())
}

/// The checksum listing of a package: "checksum  entry" per line, in order.
pub open spec fn spec_checksums_text(entries: Seq<(String, String)>) -> Seq<char>
    decreases entries.len(),
{
    if entries.len() == 0 {
        Seq::empty()
    } else {
        spec_checksums_text(entries.drop_last()) + entries.last().1@ + "  "@ + entries.last().0@ + "\n"@
    }
}

/// The checksum of a package entry: its SHA-256 digest in lowercase hex.
pub fn entry_checksum(content: &[u8]) -> (r: String)
    ensures
        r@ == hex_of(sha256(content@)),
        r@.len() == 64,
{
    let digest = sha256_digest(content);
    bytes_to_hex(digest.as_slice())
}

/// The checksum listing of a package from (entry, checksum) pairs.
pub fn checksums_text(entries: &Vec<(String, String)>) -> (r: String)
    ensures
        r@ == spec_checksums_text(entries@),
{
    let mut out = String::new();
    let mut i: usize = 0;
    while i < entries.len()
        invariant
            0 <= i <= entries@.len(),
            out@ == spec_checksums_text(entries@.take(i as int)),
        decreases entries@.len() - i,
    {
        proof {
            assert(entries@.take(i + 1).drop_last() =~= entries@.take(i as int));
        }
        push_str(&mut out, entries[i].1.as_str());
        push_str(&mut out, "  ");
        push_str(&mut out, entries[i].0.as_str());
        push_str(&mut out, "\n");
        i = i + 1;
    }
    assert(entries@.take(entries@.len() as int) =~= entries@);
    out
}

/// A package entry name with every `\` turned into `/`.
pub open spec fn spec_zip_entry_name(name: Seq<char>) -> Seq<char> {
    name.map_values(|c: char| if c == '\\' { '/' } else { c })
}

/// A package entry name with every `\` turned into `/`.
pub fn zip_entry_name(name: &str) -> (r: String)
    ensures
        r@ == spec_zip_entry_name(name@),
{
    let n = name.unicode_len();
    let mut out = String::new();
    let mut i: usize = 0;
    while i < n
        invariant
            0 <= i <= n,
            n == name@.len(),
            out@ == spec_zip_entry_name(name@.take(i as int)),
        decreases n - i,
    {
        let c = name.get_char(i);
        if c == '\\' {
            push_char(&mut out, '/');
        } else {
            push_char(&mut out, c);
        }
        assert(out@ =~= spec_zip_entry_name(name@.take(i + 1)));
        i = i + 1;
    }
    assert(name@.take(n as int) =~= name@);
    out
}

} // verus!
