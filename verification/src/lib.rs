//! Decision logic of the LOL hextech assistant: the augment-selection state
//! machine, Live Client payload parsing, OCR name matching, overlay geometry,
//! runtime orchestration rules, ApexLOL page and cache rules, and frame checks.
pub mod text;
pub mod state_machine;
pub mod live_client;
pub mod ocr;
pub mod overlay;
pub mod apex;
pub mod models;
pub mod orchestrator;
pub mod calibration;
pub mod runtime_panel;
pub mod capture;
pub mod app_paths;
pub mod resource_paths;
pub mod telemetry;
pub mod commands;
pub mod diagnostics;
