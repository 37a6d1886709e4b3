//! Settings and report records shared by the runtime, the diagnostics and the
//! telemetry log. Paths are kept as text.
use vstd::prelude::*;

verus! {

#[derive(Debug, Clone, PartialEq, Eq)]
pub struct CaptureSettings {
    pub preferred_monitor_id: Option<String>,
    pub poll_interval_ms: u64,
    pub idle_poll_interval_ms: u64,
    pub retry_delay_ms: u64,
    pub default_display_mode: String,
}

#[derive(Debug, Clone, Copy, PartialEq, Eq, Structural)]
pub struct OverlaySettings {
    pub enabled: bool,
    pub click_through: bool,
    pub gap: u32,
    pub max_height: u32,
}

#[derive(Debug, Clone, Copy, PartialEq, Eq, Structural)]
pub struct ApexLolSettings {
    pub cache_ttl_hours: u64,
    pub request_timeout_ms: u64,
    pub failed_cache_ttl_minutes: u64,
}

#[derive(Debug, Clone, PartialEq, Eq)]
pub struct DirectoryStatus {
    pub key: String,
    pub path: String,
    pub exists: bool,
}

#[derive(Debug, Clone, PartialEq, Eq)]
pub struct HealthCheckReport {
    pub trace_id: String,
    pub generated_at: String,
    pub items: Vec<HealthCheckItem>,
}

#[derive(Debug, Clone, PartialEq, Eq)]
pub struct HealthCheckItem {
    pub key: String,
    pub name: String,
    pub status: HealthStatus,
    pub details: String,
    pub error_code: Option<String>,
}

#[derive(Debug, Clone, Copy, PartialEq, Eq, Structural)]
pub enum HealthStatus {
    Pass,
    Warn,
    Fail,
    NotChecked,
}

#[derive(Debug, Clone, PartialEq, Eq)]
pub struct DiagnosticExportResult {
    pub trace_id: String,
    pub zip_path: String,
    pub included_files: usize,
}

#[derive(Debug, Clone, PartialEq, Eq)]
pub struct TelemetryEventInput {
    pub stage: String,
    pub input_summary: String,
    pub output_summary: String,
    pub duration_ms: u128,
    pub level: String,
    pub error_code: Option<String>,
    pub message: String,
}

#[derive(Debug, Clone, PartialEq, Eq)]
pub struct TelemetryEvent {
    pub timestamp: String,
    pub trace_id: String,
    pub stage: String,
    pub input_summary: String,
    pub output_summary: String,
    pub duration_ms: u128,
    pub level: String,
    pub error_code: Option<String>,
    pub message: String,
}

} // verus!
