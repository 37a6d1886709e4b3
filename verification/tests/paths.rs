use hex_assistant_app::app_paths::AppPaths;
use hex_assistant_app::calibration::{calibration_config_path, check_pixel_point, check_pixel_rect, ScreenshotSize};
use hex_assistant_app::resource_paths::{
    any_found, choose_resource_root, is_network_resource_path, prepare_runtime_resource_root, resolve_resource_root,
    mirror_is_current, resource_folders, resource_probes, runtime_cache_paths, same_mirror_index, MirrorIndex,
    ResourceFileSignature,
};

#[test]
fn recognizes_unc_paths_as_network_resource_dirs() {
    assert!(is_network_resource_path(r"\\wsl$\Ubuntu\home\code\hex-assistant-app\src-tauri\resources"));
    assert!(is_network_resource_path(r"\\?\UNC\wsl$\Ubuntu\home\code\hex-assistant-app\src-tauri\resources"));
    assert!(!is_network_resource_path(r"C:\Users\loccen\AppData\Local\Programs\hex-assistant\resources"));
}

#[test]
fn local_resources_are_used_in_place_and_network_ones_from_the_cache() {
    let local = prepare_runtime_resource_root("/opt/app/resources", "/data/cache", false);
    assert_eq!(local.runtime_root, "/opt/app/resources");
    assert!(!local.mirrored_from_network);
    assert!(!local.cache_hit);
    let network = prepare_runtime_resource_root("//server/share/resources", "/data/cache", true);
    assert_eq!(network.runtime_root, "/data/cache/runtime-resources/resources");
    assert!(network.mirrored_from_network);
    assert!(network.cache_hit);
    let (root, mirror, index) = runtime_cache_paths("/data/cache");
    assert_eq!(root, "/data/cache/runtime-resources");
    assert_eq!(mirror, "/data/cache/runtime-resources/resources");
    assert_eq!(index, "/data/cache/runtime-resources/mirror-index.json");
}

#[test]
fn exe_adjacent_resources_come_first() {
    let existing = vec!["/tmp/x/hex-assistant-release".to_string(), "/tmp/x/wsl-redirected-root".to_string()];
    let stocked = vec!["/tmp/x/hex-assistant-release/resources".to_string(), "/tmp/x/wsl-redirected-root".to_string()];
    let root = choose_resource_root(
        Some("/tmp/x/hex-assistant-release"),
        Some("/tmp/x/wsl-redirected-root"),
        None,
        &existing,
        &stocked,
    );
    assert_eq!(root, "/tmp/x/hex-assistant-release/resources");
}

#[test]
fn resource_dir_itself_or_its_resources() {
    let existing = vec!["/b/resources".to_string()];
    let stocked = vec!["/b/resources".to_string()];
    assert_eq!(choose_resource_root(None, Some("/b/resources"), None, &existing, &stocked), "/b/resources");
    let existing = vec!["/b".to_string()];
    let stocked = vec!["/b/resources".to_string()];
    assert_eq!(choose_resource_root(None, Some("/b"), None, &existing, &stocked), "/b/resources");
}

#[test]
fn development_resources_are_the_last_resort() {
    let stocked = vec!["/w/src-tauri/resources".to_string()];
    assert_eq!(choose_resource_root(None, None, Some("/w"), &vec![], &stocked), "/w/src-tauri/resources");
    assert_eq!(choose_resource_root(None, None, Some("/w"), &vec![], &vec![]), "/w/src-tauri/resources");
    assert_eq!(choose_resource_root(None, None, None, &vec![], &vec![]), "./src-tauri/resources");
}

#[test]
fn app_paths_layout() {
    let paths = AppPaths::from_root("/data/app");
    assert_eq!(paths.config, "/data/app/config");
    assert_eq!(paths.ocr_replay, "/data/app/ocr-replay");
    assert_eq!(paths.settings_path(), "/data/app/config/settings.json");
    assert_eq!(paths.app_log_path(), "/data/app/logs/app.jsonl");
    let dirs = paths.all_dirs();
    assert_eq!(dirs.len(), 9);
    assert_eq!(dirs[0], "/data/app");
    assert_eq!(dirs[8], "/data/app/cache");
    let named = paths.named_dirs();
    assert_eq!(named[5], ("ocr-replay".to_string(), "/data/app/ocr-replay".to_string()));
    let status = paths.status_list();
    assert_eq!(status.len(), 9);
    assert_eq!(status[3].key, "logs");
    assert_eq!(status[3].path, "/data/app/logs");
}

#[test]
fn calibration_path_and_pixel_checks() {
    assert_eq!(calibration_config_path("/data/app"), "/data/app/calibration/screen-calibration.json");
    let size = ScreenshotSize { width: 1920, height: 1080 };
    assert!(check_pixel_rect(192, 108, 384, 216, size).is_ok());
    assert_eq!(check_pixel_rect(1800, 0, 200, 10, size).unwrap_err(), "区域超出截图尺寸");
    assert_eq!(check_pixel_rect(0, 0, 0, 10, size).unwrap_err(), "区域尺寸不能为 0");
    assert_eq!(check_pixel_rect(0, 0, 1, 1, ScreenshotSize { width: 0, height: 5 }).unwrap_err(), "截图尺寸不能为 0");
    assert!(check_pixel_point(1920, 1080, size).is_ok());
    assert_eq!(check_pixel_point(1921, 0, size).unwrap_err(), "点位超出截图尺寸");
}

#[test]
fn resource_probes_follow_the_given_directories() {
    assert_eq!(
        resource_probes(Some("/app"), Some("/res/"), Some("/work")),
        vec!["/app", "/app/resources", "/res/", "/res/resources", "/work/src-tauri/resources"]
    );
    assert_eq!(resource_probes(None, None, Some("/work")), vec!["/work/src-tauri/resources"]);
    assert!(resource_probes(None, None, None).is_empty());
    assert_eq!(resource_folders("/r"), vec!["/r/models", "/r/dictionaries", "/r/onnxruntime"]);
    assert!(any_found(&vec![false, true, false]));
    assert!(!any_found(&vec![false, false, false]));
    assert!(!any_found(&Vec::new()));
}

#[test]
fn resolve_resource_root_falls_back_to_development_resources() {
    let missing = "/nonexistent-hex-assistant-test-dir";
    assert_eq!(
        resolve_resource_root(Some(missing), Some(missing), Some(missing)),
        format!("{missing}/src-tauri/resources")
    );
    assert_eq!(resolve_resource_root(None, None, None), "./src-tauri/resources");
}

fn index(size: u64) -> MirrorIndex {
    MirrorIndex {
        source_root: r"\\server\res".to_string(),
        files: vec![
            ResourceFileSignature { relative_path: "models/a.onnx".to_string(), size, modified_ms: 7 },
            ResourceFileSignature { relative_path: "dictionaries/b.json".to_string(), size: 2, modified_ms: 9 },
        ],
    }
}

#[test]
fn mirror_is_current_only_for_the_same_index() {
    assert!(same_mirror_index(&index(1), &index(1)));
    assert!(!same_mirror_index(&index(1), &index(3)));
    let mut shorter = index(1);
    shorter.files.pop();
    assert!(!same_mirror_index(&index(1), &shorter));
    let mut moved = index(1);
    moved.source_root = "/local".to_string();
    assert!(!same_mirror_index(&index(1), &moved));
    let missing = "/nonexistent-hex-assistant-mirror";
    assert!(!mirror_is_current(None, &index(1), missing));
    assert!(!mirror_is_current(Some(&index(3)), &index(1), missing));
    assert!(!mirror_is_current(Some(&index(1)), &index(1), missing));
}
