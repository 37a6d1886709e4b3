//! The application data layout: the directories under the data root and the
//! files the application writes there. Paths are kept as text.
use vstd::prelude::*;
use crate::models::DirectoryStatus;
use crate::text::{join_path, joined, owned};

verus! {

#[derive(Debug, Clone, PartialEq, Eq)]
pub struct AppPaths {
    pub root: String,
    pub config: String,
    pub calibration: String,
    pub logs: String,
    pub samples: String,
    pub ocr_replay: String,
    pub captures: String,
    pub reports: String,
    pub cache: String,
}

/// The names of the directories under the data root, in layout order.
pub open spec fn dir_names() -> Seq<Seq<char>> {
    seq!["config"@, "calibration"@, "logs"@, "samples"@, "ocr-replay"@, "captures"@, "reports"@, "cache"@]
}

/// The directories of an application data root: the root, then each named
/// directory under it.
pub open spec fn spec_all_dirs(root: Seq<char>) -> Seq<Seq<char>> {
    seq![root] + dir_names().map_values(|n: Seq<char>| joined(root, n))
}

/// The keys under which the directories are reported: "root", then the names.
pub open spec fn dir_keys() -> Seq<Seq<char>> {
    seq!["root"@] + dir_names()
}

impl AppPaths {
    /// The plain texts of the directories, in layout order.
    pub open spec fn dirs(&self) -> Seq<Seq<char>> {
        seq![
            self.root@,
            self.config@,
            self.calibration@,
            self.logs@,
            self.samples@,
            self.ocr_replay@,
            self.captures@,
            self.reports@,
            self.cache@,
        ]
    }

    /// The layout under an application data root.
    pub fn from_root(root: &str) -> (r: Self)
        ensures
            r.dirs() == spec_all_dirs(root@),
    {
        let r = AppPaths {
            root: owned(root),
            config: join_path(root, "config"),
            calibration: join_path(root, "calibration"),
            logs: join_path(root, "logs"),
            samples: join_path(root, "samples"),
            ocr_replay: join_path(root, "ocr-replay"),
            captures: join_path(root, "captures"),
            reports: join_path(root, "reports"),
            cache: join_path(root, "cache"),
        };
        assert(r.dirs() =~= spec_all_dirs(root@));
        r
    }

    /// The settings file.
    pub fn settings_path(&self) -> (r: String)
        ensures
            r@ == joined(self.config@, "settings.json"@),
    {
        join_path(self.config.as_str(), "settings.json")
    }

    /// The structured log file.
    pub fn app_log_path(&self) -> (r: String)
        ensures
            r@ == joined(self.logs@, "app.jsonl"@),
    {
        join_path(self.logs.as_str(), "app.jsonl")
    }

    /// The overlay's debug log file.
    pub fn overlay_debug_log_path(&self) -> (r: String)
        ensures
            r@ == joined(self.logs@, "overlay-debug.log"@),
    {
        join_path(self.logs.as_str(), "overlay-debug.log")
    }

    /// Every directory of the layout, the root first.
    pub fn all_dirs(&self) -> (r: Vec<String>)
        ensures
            crate::text::texts(r@) == self.dirs(),
    {
        let mut v: Vec<String> = Vec::new();
        v.push(self.root.clone());
        v.push(self.config.clone());
        v.push(self.calibration.clone());
        v.push(self.logs.clone());
        v.push(self.samples.clone());
        v.push(self.ocr_replay.clone());
        v.push(self.captures.clone());
        v.push(self.reports.clone());
        v.push(self.cache.clone());
        assert(crate::text::texts(v@) =~= self.dirs());
        v
    }

    /// Every directory of the layout with the key it is reported under.
    pub fn named_dirs(&self) -> (r: Vec<(String, String)>)
        ensures
            r@.len() == 9,
            forall|i: int| 0 <= i < 9 ==> (#[trigger] r@[i]).0@ == dir_keys()[i] && r@[i].1@ == self.dirs()[i],
    {
        let mut v: Vec<(String, String)> = Vec::new();
        v.push((owned("root"), self.root.clone()));
        v.push((owned("config"), self.config.clone()));
        v.push((owned("calibration"), self.calibration.clone()));
        v.push((owned("logs"), self.logs.clone()));
        v.push((owned("samples"), self.samples.clone()));
        v.push((owned("ocr-replay"), self.ocr_replay.clone()));
        v.push((owned("captures"), self.captures.clone()));
        v.push((owned("reports"), self.reports.clone()));
        v.push((owned("cache"), self.cache.clone()));
        v
    }

    /// Every directory of the layout with its key and whether it exists now.
    pub fn status_list(&self) -> (r: Vec<DirectoryStatus>)
        ensures
            r@.len() == 9,
            forall|i: int| 0 <= i < 9 ==> (#[trigger] r@[i]).key@ == dir_keys()[i] && r@[i].path@ == self.dirs()[i],
    {
        let named = self.named_dirs();
        let mut out: Vec<DirectoryStatus> = Vec::new();
        let mut i: usize = 0;
        while i < named.len()
            invariant
                0 <= i <= 9,
                named@.len() == 9,
                forall|k: int| 0 <= k < 9 ==> (#[trigger] named@[k]).0@ == dir_keys()[k] && named@[k].1@ == self.dirs()[k],
                out@.len() == i,
                forall|k: int| 0 <= k < i ==> (#[trigger] out@[k]).key@ == dir_keys()[k] && out@[k].path@ == self.dirs()[k],
            decreases 9 - i,
        {
            let exists = path_exists(named[i].1.as_str());
            out.push(DirectoryStatus { key: named[i].0.clone(), path: named[i].1.clone(), exists: exists });
            i = i + 1;
        }
        out
    }
}

/// `std::path::Path::exists`: whether anything is at `path` now.
#[verifier::external_body]
pub(crate) fn path_exists(path: &str) -> (r: bool) {
    std::path::Path::new(path).exists()
}

/// `std::path::Path::is_dir`: whether a directory is at `path` now.
#[verifier::external_body]
pub(crate) fn path_is_dir(path: &str) -> (r: bool) {
    std::path::Path::new(path).is_dir()
}

} // verus!
