//! Where the runtime resources (models, dictionaries, ONNX Runtime) are
//! found, and whether they are first mirrored to a local cache because they
//! sit on a network path.
use vstd::prelude::*;
use crate::app_paths::{path_exists, path_is_dir};
use crate::text::{str_opt, has_prefix, join_path, joined, owned, starts_with, text_eq};

verus! {

#[derive(Debug, Clone, PartialEq, Eq)]
pub struct PreparedResourceRoot {
    pub source_root: String,
    pub runtime_root: String,
    pub mirrored_from_network: bool,
    pub cache_hit: bool,
}

/// Whether a path is a network path: a `\\?\UNC\` path, a `\\` UNC path or a
/// `//` path.
pub open spec fn spec_is_network_path(path: Seq<char>) -> bool {
    has_prefix(path, "\\\\?\\UNC\\"@) || has_prefix(path, "\\\\"@) || has_prefix(path, "//"@)
}

/// Whether a path is a network path.
pub fn is_network_resource_path(path: &str) -> (r: bool)
    ensures
        r == spec_is_network_path(path@),
{
    starts_with(path, "\\\\?\\UNC\\") || starts_with(path, "\\\\") || starts_with(path, "//")
}

/// The development resource directory under a working directory.
pub open spec fn dev_resources(current: Seq<char>) -> Seq<char> {
    joined(joined(current, "src-tauri"@), "resources"@)
}

/// The places searched for resources, in order: `resources` next to the
/// executable (when its directory exists), the resource directory and its
/// `resources` (when it exists), then the development resources under the
/// working directory.
pub open spec fn resource_candidates(
    exe_dir: Option<Seq<char>>,
    resource_dir: Option<Seq<char>>,
    current_dir: Option<Seq<char>>,
    existing: Set<Seq<char>>,
) -> Seq<Seq<char>> {
    let a = match exe_dir {
        Some(e) => if existing.contains(e) {
            seq![joined(e, "resources"@)]
        } else {
            Seq::empty()
        },
        None => Seq::empty(),
    };
    let b = match resource_dir {
        Some(r) => if existing.contains(r) {
            seq![r, joined(r, "resources"@)]
        } else {
            Seq::empty()
        },
        None => Seq::empty(),
    };
    let c = match current_dir {
        Some(cur) => seq![dev_resources(cur)],
        None => Seq::empty(),
    };
    a + b + c
}

/// The first candidate holding resources.
pub open spec fn first_stocked(candidates: Seq<Seq<char>>, stocked: Set<Seq<char>>) -> Option<Seq<char>>
    decreases candidates.len(),
{
    if candidates.len() == 0 {
        None
    } else if stocked.contains(candidates[0]) {
        Some(candidates[0])
    } else {
        first_stocked(candidates.drop_first(), stocked)
    }
}

/// The resource root given which paths exist and which hold resources: the
/// first candidate holding resources; else the first existing of the
/// executable's `resources`, the resource directory, its `resources` and the
/// development resources; else the development resources under the working
/// directory, or under `.` without one.
pub open spec fn spec_resource_root(
    exe_dir: Option<Seq<char>>,
    resource_dir: Option<Seq<char>>,
    current_dir: Option<Seq<char>>,
    existing: Set<Seq<char>>,
    stocked: Set<Seq<char>>,
) -> Seq<char> {
    match first_stocked(resource_candidates(exe_dir, resource_dir, current_dir, existing), stocked) {
        Some(c) => c,
        None => if exe_dir matches Some(e) && existing.contains(e) && existing.contains(joined(e, "resources"@)) {
            joined(exe_dir->0, "resources"@)
        } else if resource_dir matches Some(r) && existing.contains(r) {
            resource_dir->0
        } else if current_dir matches Some(cur) && existing.contains(dev_resources(cur)) {
            dev_resources(current_dir->0)
        } else {
            match current_dir {
                Some(cur) => dev_resources(cur),
                None => dev_resources("."@),
            }
        },
    }
}

fn contains_text_item(items: &Vec<String>, s: &str) -> (r: bool)
    ensures
        r == crate::text::texts(items@).contains(s@),
{
    let ghost tv = crate::text::texts(items@);
    let mut i: usize = 0;
    while i < items.len()
        invariant
            0 <= i <= items@.len(),
            tv == crate::text::texts(items@),
            forall|k: int| 0 <= k < i ==> tv[k] != s@,
        decreases items@.len() - i,
    {
        if text_eq(items[i].as_str(), s) {
            assert(tv[i as int] == s@);
            return true;
        }
        i = i + 1;
    }
    false
}

/// The resource root given the paths known to exist and the paths known to
/// hold resources.
pub fn choose_resource_root(
    exe_dir: Option<&str>,
    resource_dir: Option<&str>,
    current_dir: Option<&str>,
    existing: &Vec<String>,
    stocked: &Vec<String>,
) -> (r: String)
    ensures
        r@ == spec_resource_root(
            str_opt(exe_dir),
            str_opt(resource_dir),
            str_opt(current_dir),
            crate::text::texts(existing@).to_set(),
            crate::text::texts(stocked@).to_set(),
        ),
{
    let ghost ex = crate::text::texts(existing@).to_set();
    let ghost st = crate::text::texts(stocked@).to_set();
    let ghost e_opt = str_opt(exe_dir);
    let ghost r_opt = str_opt(resource_dir);
    let ghost c_opt = str_opt(current_dir);
    let mut candidates: Vec<String> = Vec::new();
    match exe_dir {
        Some(e) => if contains_text_item(existing, e) {
            candidates.push(join_path(e, "resources"));
        },
        None => {},
    }
    match resource_dir {
        Some(rd) => if contains_text_item(existing, rd) {
            candidates.push(owned(rd));
            candidates.push(join_path(rd, "resources"));
        },
        None => {},
    }
    let dev = match current_dir {
        Some(cur) => {
            let d = join_path(cur, "src-tauri");
            join_path(d.as_str(), "resources")
        },
        None => {
            let d = join_path(".", "src-tauri");
            join_path(d.as_str(), "resources")
        },
    };
    match current_dir {
        Some(_) => candidates.push(dev.clone()),
        None => {},
    }
    let ghost cands = crate::text::texts(candidates@);
    assert(cands =~= resource_candidates(e_opt, r_opt, c_opt, ex));
    let mut i: usize = 0;
    proof {
        assert(cands.skip(0) =~= cands);
    }
    while i < candidates.len()
        invariant
            0 <= i <= candidates@.len(),
            cands == crate::text::texts(candidates@),
            st == crate::text::texts(stocked@).to_set(),
            ex == crate::text::texts(existing@).to_set(),
            cands == resource_candidates(e_opt, r_opt, c_opt, ex),
            e_opt == str_opt(exe_dir),
            r_opt == str_opt(resource_dir),
            c_opt == str_opt(current_dir),
            first_stocked(cands, st) == first_stocked(cands.skip(i as int), st),
        decreases candidates@.len() - i,
    {
        proof {
            assert(cands.skip(i as int).drop_first() =~= cands.skip(i + 1));
            assert(cands.skip(i as int)[0] == cands[i as int]);
        }
        if contains_text_item(stocked, candidates[i].as_str()) {
            proof {
                assert(st.contains(cands[i as int]));
                assert(first_stocked(cands, st) == Some(cands[i as int]));
            }
            return candidates[i].clone();
        }
        i = i + 1;
    }
    proof {
        assert(cands.skip(cands.len() as int) =~= Seq::<Seq<char>>::empty());
    }
    match exe_dir {
        Some(e) => if contains_text_item(existing, e) {
            let er = join_path(e, "resources");
            if contains_text_item(existing, er.as_str()) {
                return er;
            }
        },
        None => {},
    }
    match resource_dir {
        Some(rd) => if contains_text_item(existing, rd) {
            return owned(rd);
        },
        None => {},
    }
    match current_dir {
        Some(_) => if contains_text_item(existing, dev.as_str()) {
            return dev;
        },
        None => {},
    }
    dev
}

/// The folders whose presence marks a resource root: `models`,
/// `dictionaries` and `onnxruntime` under it.
pub open spec fn spec_resource_folders(root: Seq<char>) -> Seq<Seq<char>> {
    seq![joined(root, "models"@), joined(root, "dictionaries"@), joined(root, "onnxruntime"@)]
}

/// The folders whose presence marks a resource root.
pub fn resource_folders(root: &str) -> (r: Vec<String>)
    ensures
        crate::text::texts(r@) == spec_resource_folders(root@),
{
    let mut r: Vec<String> = Vec::new();
    r.push(join_path(root, "models"));
    r.push(join_path(root, "dictionaries"));
    r.push(join_path(root, "onnxruntime"));
    assert(crate::text::texts(r@) =~= spec_resource_folders(root@));
    r
}

/// Whether any probe answered yes.
pub fn any_found(found: &Vec<bool>) -> (r: bool)
    ensures
        r == found@.contains(true),
{
    let mut i: usize = 0;
    while i < found.len()
        invariant
            0 <= i <= found@.len(),
            forall|k: int| 0 <= k < i ==> !found@[k],
        decreases found@.len() - i,
    {
        if found[i] {
            assert(found@[i as int] == true);
            return true;
        }
        i = i + 1;
    }
    assert(!found@.contains(true));
    false
}

/// Whether a directory holds any of the expected resource folders now. Each
/// folder of `resource_folders` is asked of the file system, which gives the
/// answer at the moment of the call, so the contract states nothing of it.
pub fn has_expected_resources(root: &str) -> (r: bool) {
    let folders = resource_folders(root);
    let mut found: Vec<bool> = Vec::new();
    let mut i: usize = 0;
    while i < folders.len()
        invariant
            0 <= i <= folders@.len(),
        decreases folders@.len() - i,
    {
        found.push(path_is_dir(folders[i].as_str()));
        i = i + 1;
    }
    any_found(&found)
}

/// The paths the resource root depends on, in order: the executable's
/// directory and its `resources`, the resource directory and its
/// `resources`, and the development resources under the working directory,
/// each where that directory is given.
pub open spec fn spec_resource_probes(
    exe_dir: Option<Seq<char>>,
    resource_dir: Option<Seq<char>>,
    current_dir: Option<Seq<char>>,
) -> Seq<Seq<char>> {
    let a = match exe_dir {
        Some(e) => seq![e, joined(e, "resources"@)],
        None => Seq::empty(),
    };
    let b = match resource_dir {
        Some(r) => seq![r, joined(r, "resources"@)],
        None => Seq::empty(),
    };
    let c = match current_dir {
        Some(cur) => seq![dev_resources(cur)],
        None => Seq::empty(),
    };
    a + b + c
}

/// The paths the resource root depends on.
pub fn resource_probes(exe_dir: Option<&str>, resource_dir: Option<&str>, current_dir: Option<&str>) -> (r: Vec<
    String,
>)
    ensures
        crate::text::texts(r@) == spec_resource_probes(str_opt(exe_dir), str_opt(resource_dir), str_opt(current_dir)),
{
    let mut probes: Vec<String> = Vec::new();
    match exe_dir {
        Some(e) => {
            probes.push(owned(e));
            probes.push(join_path(e, "resources"));
        },
        None => {},
    }
    match resource_dir {
        Some(rd) => {
            probes.push(owned(rd));
            probes.push(join_path(rd, "resources"));
        },
        None => {},
    }
    match current_dir {
        Some(cur) => {
            let d = join_path(cur, "src-tauri");
            probes.push(join_path(d.as_str(), "resources"));
        },
        None => {},
    }
    assert(crate::text::texts(probes@) =~= spec_resource_probes(
        str_opt(exe_dir),
        str_opt(resource_dir),
        str_opt(current_dir),
    ));
    probes
}

/// The resource root for the given executable, resource and working
/// directories, by asking the file system which of `resource_probes` exist
/// and which hold resources. The answer is the choice for some such
/// knowledge of the disk about those paths.
pub fn resolve_resource_root(exe_dir: Option<&str>, resource_dir: Option<&str>, current_dir: Option<&str>) -> (r: String)
    ensures
        exists|existing: Set<Seq<char>>, stocked: Set<Seq<char>>|
            existing.subset_of(
                spec_resource_probes(str_opt(exe_dir), str_opt(resource_dir), str_opt(current_dir)).to_set(),
            ) && stocked.subset_of(
                spec_resource_probes(str_opt(exe_dir), str_opt(resource_dir), str_opt(current_dir)).to_set(),
            ) && r@ == #[trigger] spec_resource_root(
                str_opt(exe_dir),
                str_opt(resource_dir),
                str_opt(current_dir),
                existing,
                stocked,
            ),
{
    let probes = resource_probes(exe_dir, resource_dir, current_dir);
    let ghost pset = crate::text::texts(probes@).to_set();
    let mut existing: Vec<String> = Vec::new();
    let mut stocked: Vec<String> = Vec::new();
    let mut i: usize = 0;
    while i < probes.len()
        invariant
            0 <= i <= probes@.len(),
            pset == crate::text::texts(probes@).to_set(),
            crate::text::texts(existing@).to_set().subset_of(pset),
            crate::text::texts(stocked@).to_set().subset_of(pset),
        decreases probes@.len() - i,
    {
        let ghost probe = probes@[i as int]@;
        assert(crate::text::texts(probes@)[i as int] == probe);
        assert(pset.contains(probe));
        if path_exists(probes[i].as_str()) {
            let ghost before = crate::text::texts(existing@);
            existing.push(probes[i].clone());
            assert(crate::text::texts(existing@) =~= before.push(probe));
            proof {
                before.lemma_push_to_set_commute(probe);
            }
        }
        if has_expected_resources(probes[i].as_str()) {
            let ghost before = crate::text::texts(stocked@);
            stocked.push(probes[i].clone());
            assert(crate::text::texts(stocked@) =~= before.push(probe));
            proof {
                before.lemma_push_to_set_commute(probe);
            }
        }
        i = i + 1;
    }
    choose_resource_root(exe_dir, resource_dir, current_dir, &existing, &stocked)
}

/// One file of a resource tree, as the mirror index records it.
#[derive(Debug, Clone, PartialEq, Eq)]
pub struct ResourceFileSignature {
    pub relative_path: String,
    pub size: u64,
    pub modified_ms: u128,
}

/// What a mirror was made from: the source root and its files.
#[derive(Debug, Clone, PartialEq, Eq)]
pub struct MirrorIndex {
    pub source_root: String,
    pub files: Vec<ResourceFileSignature>,
}

impl View for ResourceFileSignature {
    type V = (Seq<char>, u64, u128);

    open spec fn view(&self) -> (Seq<char>, u64, u128) {
        (self.relative_path@, self.size, self.modified_ms)
    }
}

impl View for MirrorIndex {
    type V = (Seq<char>, Seq<(Seq<char>, u64, u128)>);

    open spec fn view(&self) -> (Seq<char>, Seq<(Seq<char>, u64, u128)>) {
        (self.source_root@, self.files@.map_values(|f: ResourceFileSignature| f@))
    }
}

/// Whether two mirror indexes record the same source root and the same files
/// in the same order.
pub fn same_mirror_index(a: &MirrorIndex, b: &MirrorIndex) -> (r: bool)
    ensures
        r == (a@ == b@),
{
    if !text_eq(a.source_root.as_str(), b.source_root.as_str()) {
        return false;
    }
    if a.files.len() != b.files.len() {
        assert(a@.1.len() != b@.1.len());
        return false;
    }
    let mut i: usize = 0;
    while i < a.files.len()
        invariant
            0 <= i <= a.files@.len(),
            a.files@.len() == b.files@.len(),
            forall|k: int| 0 <= k < i ==> (#[trigger] a.files@[k])@ == b.files@[k]@,
        decreases a.files@.len() - i,
    {
        let fa = &a.files[i];
        let fb = &b.files[i];
        if !(text_eq(fa.relative_path.as_str(), fb.relative_path.as_str()) && fa.size == fb.size && fa.modified_ms
            == fb.modified_ms) {
            assert(a@.1[i as int] != b@.1[i as int]);
            return false;
        }
        i = i + 1;
    }
    assert(a@.1 =~= b@.1);
    true
}

/// Whether the mirror under `mirror_root` is current: the index it was made
/// from equals the source's index now, and the mirror holds resource folders
/// (asked of the file system, whose answer the contract does not state).
pub fn mirror_is_current(cached: Option<&MirrorIndex>, current: &MirrorIndex, mirror_root: &str) -> (r: bool)
    ensures
        r ==> (cached matches Some(c) && c@ == current@),
{
    match cached {
        Some(c) => same_mirror_index(c, current) && has_expected_resources(mirror_root),
        None => false,
    }
}

/// Where mirrored resources are cached: the cache root, the mirrored
/// `resources` and the index of what was mirrored.
pub open spec fn spec_runtime_cache_paths(cache_dir: Seq<char>) -> (Seq<char>, Seq<char>, Seq<char>) {
    let root = joined(cache_dir, "runtime-resources"@);
    (root, joined(root, "resources"@), joined(root, "mirror-index.json"@))
}

/// Where mirrored resources are cached.
pub fn runtime_cache_paths(cache_dir: &str) -> (r: (String, String, String))
    ensures
        (r.0@, r.1@, r.2@) == spec_runtime_cache_paths(cache_dir@),
{
    let root = join_path(cache_dir, "runtime-resources");
    let mirror = join_path(root.as_str(), "resources");
    let index = join_path(root.as_str(), "mirror-index.json");
    (root, mirror, index)
}

/// The resource root the runtime loads from: a local root is used in place;
/// a network root is used from its mirror in the cache, with whether the
/// mirror was already current.
pub fn prepare_runtime_resource_root(resource_root: &str, cache_dir: &str, cache_hit: bool) -> (r: PreparedResourceRoot)
    ensures
        r.source_root@ == resource_root@,
        r.mirrored_from_network == spec_is_network_path(resource_root@),
        !spec_is_network_path(resource_root@) ==> r.runtime_root@ == resource_root@ && !r.cache_hit,
        spec_is_network_path(resource_root@) ==> r.runtime_root@ == spec_runtime_cache_paths(cache_dir@).1 && r.cache_hit == cache_hit,
{
    if !is_network_resource_path(resource_root) {
        return PreparedResourceRoot {
            source_root: owned(resource_root),
            runtime_root: owned(resource_root),
            mirrored_from_network: false,
            cache_hit: false,
        };
    }
    let (_root, mirror, _index) = runtime_cache_paths(cache_dir);
    PreparedResourceRoot {
        source_root: owned(resource_root),
        runtime_root: mirror,
        mirrored_from_network: true,
        cache_hit: cache_hit,
    }
}

} // verus!
