//! The download scheduler's verified half: the flat work list for an
//! installation (client jar, platform-filtered libraries, asset objects),
//! the skip-what-is-present decision, the all-or-nothing aggregation of
//! transfer outcomes, and the metadata record a finished installation
//! persists.
//!
//! The shell around the core creates the planned directories, performs
//! the transfers under its concurrency bound, and hands every outcome
//! back for aggregation.
use vstd::prelude::*;
use vstd::string::StrSliceExecFns;
use vstd::string::StringExecFns;

use crate::errors::{JsonField, LauncherError};
use crate::json::{json_doc, parse_document, JsonValue};
use crate::metadata::{spec_string_views, InstallationMetadata, InstallationMetadataView};
use crate::paths::{join_path, spec_joined};
use crate::platform::LibraryView;
use crate::resolve::{spec_needed_pred, spec_ref_library_views, VersionData, VersionDataView};

verus! {

/// Where the asset objects are mirrored from.
pub fn resources_base_url() -> (r: &'static str)
    ensures
        r@ == spec_resources_base_url(),
{
    "https://resources.download.minecraft.net"
}

pub open spec fn spec_resources_base_url() -> Seq<char> {
    "https://resources.download.minecraft.net"@
}

/// One transfer of the installation's work list.
#[derive(Debug, Clone)]
pub struct DownloadTask {
    pub download_uri: String,
    /// The destination, relative to the installation root.
    pub download_path: String,
    /// Whether the downloaded archive must afterwards have its platform
    /// binaries extracted.
    pub is_native: bool,
}

pub struct DownloadTaskView {
    pub download_uri: Seq<char>,
    pub download_path: Seq<char>,
    pub is_native: bool,
}

impl View for DownloadTask {
    type V = DownloadTaskView;

    open spec fn view(&self) -> DownloadTaskView {
        DownloadTaskView {
            download_uri: self.download_uri@,
            download_path: self.download_path@,
            is_native: self.is_native,
        }
    }
}

pub open spec fn spec_task_views(tasks: Seq<DownloadTask>) -> Seq<DownloadTaskView> {
    tasks.map_values(|t: DownloadTask| t@)
}

/// The client jar's place, relative to the installation root.
pub open spec fn spec_client_jar_relative(version_id: Seq<char>) -> Seq<char> {
    spec_joined(spec_joined("versions"@, version_id), version_id + ".jar"@)
}

/// Where the asset index document is persisted, relative to the root.
pub open spec fn spec_asset_index_relative(asset_index_id: Seq<char>) -> Seq<char> {
    spec_joined("assets/indexes"@, asset_index_id + ".json"@)
}

/// The client jar's transfer.
pub open spec fn spec_client_task(v: VersionDataView) -> DownloadTaskView {
    DownloadTaskView {
        download_uri: v.client_jar_download_url,
        download_path: spec_client_jar_relative(v.version_id),
        is_native: false,
    }
}

/// One library's transfer.
pub open spec fn spec_library_task(l: LibraryView) -> DownloadTaskView {
    DownloadTaskView {
        download_uri: l.download_url,
        download_path: spec_joined("libraries"@, l.download_path),
        is_native: l.is_native,
    }
}

pub open spec fn spec_library_tasks(libraries: Seq<LibraryView>) -> Seq<DownloadTaskView> {
    libraries.map_values(|l: LibraryView| spec_library_task(l))
}

/// The predicate selecting the classpath's libraries: everything that is
/// not a native artifact.
pub open spec fn spec_non_native_pred() -> spec_fn(LibraryView) -> bool {
    |l: LibraryView| !l.is_native
}

/// The classpath of an installation: every non-native library's path,
/// relative to the libraries root, in catalog order.
pub open spec fn spec_classpath(libraries: Seq<LibraryView>) -> Seq<Seq<char>> {
    libraries.filter(spec_non_native_pred()).map_values(|l: LibraryView| l.download_path)
}

/// One asset object's transfer: the object is addressed by its hash,
/// sharded under the hash's first two characters, on the remote side and
/// the local side alike.
pub open spec fn spec_asset_task(hash: Seq<char>) -> DownloadTaskView {
    let shard = hash.take(2);
    DownloadTaskView {
        download_uri: spec_joined(spec_joined(spec_resources_base_url(), shard), hash),
        download_path: spec_joined(spec_joined("assets/objects"@, shard), hash),
        is_native: false,
    }
}

pub open spec fn spec_asset_tasks(hashes: Seq<Seq<char>>) -> Seq<DownloadTaskView> {
    hashes.map_values(|h: Seq<char>| spec_asset_task(h))
}

/// The hashes listed under `objects` in an asset index document, in
/// document order. A hash of fewer than two characters cannot be sharded
/// and counts as a mistyped field.
pub open spec fn spec_parse_asset_hashes(entries: Seq<(String, JsonValue)>) -> Result<
    Seq<Seq<char>>,
    JsonField,
>
    decreases entries.len(),
{
    if entries.len() == 0 {
        Ok(Seq::empty())
    } else {
        match entries[0].1.spec_get_str("hash"@) {
            None => Err(JsonField::ObjectHash),
            Some(hash) => if hash.len() < 2 {
                Err(JsonField::ObjectHash)
            } else {
                match spec_parse_asset_hashes(entries.drop_first()) {
                    Err(f) => Err(f),
                    Ok(tail) => Ok(seq![hash] + tail),
                }
            },
        }
    }
}

/// The asset index document's hash list.
pub open spec fn spec_asset_hashes(doc: JsonValue) -> Result<Seq<Seq<char>>, JsonField> {
    match doc.spec_get("objects"@) {
        None => Err(JsonField::Objects),
        Some(objects) => match objects.spec_entries() {
            None => Err(JsonField::Objects),
            Some(entries) => spec_parse_asset_hashes(entries),
        },
    }
}

proof fn lemma_parse_asset_hashes_step(entries: Seq<(String, JsonValue)>, i: int)
    requires
        0 <= i < entries.len(),
    ensures
        spec_parse_asset_hashes(entries.skip(i)) == (match entries[i].1.spec_get_str("hash"@) {
            None => Err::<Seq<Seq<char>>, JsonField>(JsonField::ObjectHash),
            Some(hash) => if hash.len() < 2 {
                Err(JsonField::ObjectHash)
            } else {
                match spec_parse_asset_hashes(entries.skip(i + 1)) {
                    Err(f) => Err(f),
                    Ok(tail) => Ok(seq![hash] + tail),
                }
            },
        }),
{
    assert(entries.skip(i)[0] == entries[i]);
    assert(entries.skip(i).drop_first() =~= entries.skip(i + 1));
}

fn parse_asset_hashes(entries: &Vec<(String, JsonValue)>) -> (r: Result<Vec<String>, JsonField>)
    ensures
        match spec_parse_asset_hashes(entries@) {
            Ok(hashes) => r matches Ok(parsed) && spec_string_views(parsed@) == hashes,
            Err(f) => r matches Err(got) && got == f,
        },
{
    let mut parsed: Vec<String> = Vec::new();
    let n: usize = entries.len();
    assert(entries@.skip(0) =~= entries@);
    assert(spec_string_views(parsed@) =~= Seq::<Seq<char>>::empty());
    for i in 0..n
        invariant
            n == entries@.len(),
            forall|tail: Seq<Seq<char>>|
                spec_parse_asset_hashes(entries@.skip(i as int)) == Ok::<_, JsonField>(tail)
                    ==> spec_parse_asset_hashes(entries@) == Ok::<_, JsonField>(
                    spec_string_views(parsed@) + tail,
                ),
            forall|f: JsonField|
                spec_parse_asset_hashes(entries@.skip(i as int)) == Err::<Seq<Seq<char>>, _>(f)
                    ==> spec_parse_asset_hashes(entries@) == Err::<Seq<Seq<char>>, JsonField>(f),
    {
        proof {
            lemma_parse_asset_hashes_step(entries@, i as int);
        }
        let hash: &String = match entries[i].1.get_str("hash") {
            Some(hash) => hash,
            None => {
                return Err(JsonField::ObjectHash);
            },
        };
        if hash.as_str().unicode_len() < 2 {
            return Err(JsonField::ObjectHash);
        }
        let ghost old_parsed = parsed@;
        parsed.push(hash.clone());
        proof {
            assert(spec_string_views(parsed@) =~= spec_string_views(old_parsed) + seq![hash@]);
            assert(forall|tail: Seq<Seq<char>>|
                spec_string_views(old_parsed) + (seq![hash@] + tail) =~= spec_string_views(parsed@)
                    + tail);
        }
    }
    assert(entries@.skip(n as int) =~= Seq::<(String, JsonValue)>::empty());
    assert(spec_string_views(parsed@) + Seq::<Seq<char>>::empty() =~= spec_string_views(parsed@));
    Ok(parsed)
}

/// Everything the shell must do for one installation, in order: create
/// the directories, persist the asset index document, run the transfers,
/// and on full success persist the metadata record.
#[derive(Debug)]
pub struct InstallPlan {
    /// Directories to create under the installation root before any
    /// transfer starts.
    pub subdirectories: Vec<String>,
    /// Where the asset index document is persisted, relative to the root.
    pub asset_index_relative: String,
    /// The flat work list: the client jar, every applicable library, and
    /// every asset object.
    pub tasks: Vec<DownloadTask>,
    /// The record to persist once every task has succeeded.
    pub metadata: InstallationMetadata,
}

pub struct InstallPlanView {
    pub subdirectories: Seq<Seq<char>>,
    pub asset_index_relative: Seq<char>,
    pub tasks: Seq<DownloadTaskView>,
    pub metadata: InstallationMetadataView,
}

impl View for InstallPlan {
    type V = InstallPlanView;

    open spec fn view(&self) -> InstallPlanView {
        InstallPlanView {
            subdirectories: spec_string_views(self.subdirectories@),
            asset_index_relative: self.asset_index_relative@,
            tasks: spec_task_views(self.tasks@),
            metadata: self.metadata@,
        }
    }
}

/// The plan for installing `v` on the host named `os_name`, with the
/// asset index listing `hashes`.
pub open spec fn spec_install_plan(
    v: VersionDataView,
    os_name: Seq<char>,
    hashes: Seq<Seq<char>>,
) -> InstallPlanView {
    let needed = v.libraries.filter(spec_needed_pred(os_name));
    InstallPlanView {
        subdirectories: seq![
            spec_joined("versions"@, v.version_id),
            "libraries"@,
            "assets/objects"@,
            "assets/indexes"@,
            "natives"@,
        ],
        asset_index_relative: spec_asset_index_relative(v.asset_index_id),
        tasks: seq![spec_client_task(v)] + spec_library_tasks(needed) + spec_asset_tasks(hashes),
        metadata: InstallationMetadataView {
            main_class: v.main_class,
            version: v.version_id,
            asset_index_id: v.asset_index_id,
            client_jar_relative: spec_client_jar_relative(v.version_id),
            classpath_relative: spec_classpath(needed),
        },
    }
}

/// Plan the installation of `version` on the host named `os_name`, given
/// the raw bytes of the fetched asset index document.
pub fn plan_installation(version: &VersionData, os_name: &str, asset_index_bytes: &[u8]) -> (r:
    Result<InstallPlan, LauncherError>)
    ensures
        match json_doc(asset_index_bytes@) {
            None => r matches Err(e) && e == LauncherError::MalformedDocument,
            Some(doc) => match spec_asset_hashes(doc) {
                Err(f) => r matches Err(e) && e == LauncherError::MissingField(f),
                Ok(hashes) => r matches Ok(plan) && plan@ == spec_install_plan(
                    version@,
                    os_name@,
                    hashes,
                ),
            },
        },
{
    let doc: JsonValue = match parse_document(asset_index_bytes) {
        Some(doc) => doc,
        None => {
            return Err(LauncherError::MalformedDocument);
        },
    };
    let objects: &Vec<(String, JsonValue)> = match doc.get("objects") {
        Some(objects) => match objects.entries() {
            Some(entries) => entries,
            None => {
                return Err(LauncherError::MissingField(JsonField::Objects));
            },
        },
        None => {
            return Err(LauncherError::MissingField(JsonField::Objects));
        },
    };
    let hashes: Vec<String> = match parse_asset_hashes(objects) {
        Ok(hashes) => hashes,
        Err(f) => {
            return Err(LauncherError::MissingField(f));
        },
    };
    proof {
        lemma_asset_hashes_shardable(objects@);
        assert(forall|j: int|
            0 <= j < hashes@.len() ==> #[trigger] hashes@[j]@ == spec_string_views(hashes@)[j]);
    }
    Ok(build_plan(version, os_name, &hashes))
}

/// Every hash a successful asset index parse yields is long enough to
/// shard.
proof fn lemma_asset_hashes_shardable(entries: Seq<(String, JsonValue)>)
    ensures
        spec_parse_asset_hashes(entries) matches Ok(hashes) ==> forall|j: int|
            0 <= j < hashes.len() ==> #[trigger] hashes[j].len() >= 2,
    decreases entries.len(),
{
    if entries.len() > 0 {
        lemma_asset_hashes_shardable(entries.drop_first());
        if spec_parse_asset_hashes(entries) is Ok {
            let hashes = spec_parse_asset_hashes(entries)->Ok_0;
            let head = entries[0].1.spec_get_str("hash"@)->0;
            let tail = spec_parse_asset_hashes(entries.drop_first())->Ok_0;
            assert(hashes == seq![head] + tail);
            assert(forall|j: int| 1 <= j < hashes.len() ==> #[trigger] hashes[j] == tail[j - 1]);
        }
    }
}

/// Assemble the plan from the resolved version and the asset hash list.
fn build_plan(version: &VersionData, os_name: &str, hashes: &Vec<String>) -> (r: InstallPlan)
    requires
        forall|j: int| 0 <= j < hashes@.len() ==> #[trigger] hashes@[j]@.len() >= 2,
    ensures
        r@ == spec_install_plan(version@, os_name@, spec_string_views(hashes@)),
{
    let ghost goal = spec_install_plan(version@, os_name@, spec_string_views(hashes@));
    let ghost needed_views = version@.libraries.filter(spec_needed_pred(os_name@));

    let version_dir: String = join_path("versions", version.version_id.as_str());
    let mut jar_name: String = version.version_id.clone();
    jar_name.append(".jar");
    let client_jar_relative: String = join_path(version_dir.as_str(), jar_name.as_str());

    let mut index_name: String = version.asset_index_id.clone();
    index_name.append(".json");
    let asset_index_relative: String = join_path("assets/indexes", index_name.as_str());

    let mut subdirectories: Vec<String> = Vec::new();
    subdirectories.push(version_dir);
    subdirectories.push("libraries".to_owned());
    subdirectories.push("assets/objects".to_owned());
    subdirectories.push("assets/indexes".to_owned());
    subdirectories.push("natives".to_owned());
    proof {
        assert(spec_string_views(subdirectories@) =~= goal.subdirectories);
    }

    let mut tasks: Vec<DownloadTask> = Vec::new();
    tasks.push(DownloadTask {
        download_uri: version.client_jar_download_url.clone(),
        download_path: client_jar_relative.clone(),
        is_native: false,
    });
    proof {
        assert(spec_task_views(tasks@) =~= seq![spec_client_task(version@)]);
    }

    let needed = version.get_os_required_libraries(os_name);
    let mut classpath_relative: Vec<String> = Vec::new();
    let n: usize = needed.len();
    proof {
        assert(needed_views.take(0) =~= Seq::<LibraryView>::empty());
        reveal_with_fuel(Seq::filter, 2);
        assert(Seq::<LibraryView>::empty().filter(spec_non_native_pred()) =~= Seq::<
            LibraryView,
        >::empty());
        assert(spec_classpath(needed_views.take(0)) =~= Seq::<Seq<char>>::empty());
        assert(spec_string_views(classpath_relative@) =~= Seq::<Seq<char>>::empty());
    }
    for i in 0..n
        invariant
            n == needed@.len(),
            needed_views == spec_ref_library_views(needed@),
            needed_views.len() == n,
            spec_task_views(tasks@) == seq![spec_client_task(version@)] + spec_library_tasks(
                needed_views.take(i as int),
            ),
            spec_string_views(classpath_relative@) == spec_classpath(needed_views.take(i as int)),
    {
        let ghost x = needed_views[i as int];
        proof {
            assert(x == needed@[i as int]@);
            assert(needed_views.take(i as int + 1).drop_last() =~= needed_views.take(i as int));
            assert(needed_views.take(i as int + 1).last() == x);
        }
        let library = needed[i];
        let ghost old_tasks = tasks@;
        tasks.push(DownloadTask {
            download_uri: library.download_url.clone(),
            download_path: join_path("libraries", library.download_path.as_str()),
            is_native: library.is_native,
        });
        proof {
            assert(spec_task_views(tasks@) =~= spec_task_views(old_tasks).push(
                spec_library_task(x),
            ));
            assert(spec_library_tasks(needed_views.take(i as int + 1)) =~= spec_library_tasks(
                needed_views.take(i as int),
            ).push(spec_library_task(x)));
            assert(seq![spec_client_task(version@)] + spec_library_tasks(
                needed_views.take(i as int),
            ).push(spec_library_task(x)) =~= (seq![spec_client_task(version@)]
                + spec_library_tasks(needed_views.take(i as int))).push(spec_library_task(x)));
        }
        if !library.is_native {
            let ghost old_classpath = classpath_relative@;
            classpath_relative.push(library.download_path.clone());
            proof {
                lemma_classpath_step(needed_views, i as int);
                assert(spec_string_views(classpath_relative@) =~= spec_string_views(
                    old_classpath,
                ).push(x.download_path));
            }
        } else {
            proof {
                lemma_classpath_step(needed_views, i as int);
            }
        }
    }
    proof {
        assert(needed_views.take(n as int) =~= needed_views);
    }

    let m: usize = hashes.len();
    let ghost tasks_before_assets = spec_task_views(tasks@);
    proof {
        assert(spec_string_views(hashes@).take(0) =~= Seq::<Seq<char>>::empty());
        assert(spec_asset_tasks(spec_string_views(hashes@).take(0)) =~= Seq::<
            DownloadTaskView,
        >::empty());
        assert(tasks_before_assets + Seq::<DownloadTaskView>::empty() =~= tasks_before_assets);
    }
    for i in 0..m
        invariant
            m == hashes@.len(),
            forall|j: int| 0 <= j < m ==> #[trigger] hashes@[j]@.len() >= 2,
            spec_task_views(tasks@) == tasks_before_assets + spec_asset_tasks(
                spec_string_views(hashes@).take(i as int),
            ),
    {
        let hash: &String = &hashes[i];
        let shard: &str = hash.as_str().substring_char(0, 2);
        let object_suffix: String = join_path(shard, hash.as_str());
        let ghost old_tasks = tasks@;
        tasks.push(DownloadTask {
            download_uri: join_path(resources_base_url(), object_suffix.as_str()),
            download_path: join_path("assets/objects", object_suffix.as_str()),
            is_native: false,
        });
        proof {
            let hs = spec_string_views(hashes@);
            assert(hs[i as int] == hashes@[i as int]@);
            assert(shard@ =~= hs[i as int].take(2));
            assert(spec_joined(spec_resources_base_url(), spec_joined(
                hs[i as int].take(2),
                hs[i as int],
            )) =~= spec_joined(spec_joined(spec_resources_base_url(), hs[i as int].take(2)),
                hs[i as int],
            ));
            assert(spec_joined("assets/objects"@, spec_joined(hs[i as int].take(2), hs[i as int]))
                =~= spec_joined(spec_joined("assets/objects"@, hs[i as int].take(2)),
                hs[i as int],
            ));
            assert(spec_task_views(tasks@) =~= spec_task_views(old_tasks).push(
                spec_asset_task(hs[i as int]),
            ));
            assert(hs.take(i as int + 1).drop_last() =~= hs.take(i as int));
            assert(spec_asset_tasks(hs.take(i as int + 1)) =~= spec_asset_tasks(
                hs.take(i as int),
            ).push(spec_asset_task(hs[i as int])));
            assert(tasks_before_assets + spec_asset_tasks(hs.take(i as int)).push(
                spec_asset_task(hs[i as int]),
            ) =~= (tasks_before_assets + spec_asset_tasks(hs.take(i as int))).push(
                spec_asset_task(hs[i as int]),
            ));
        }
    }
    proof {
        assert(spec_string_views(hashes@).take(m as int) =~= spec_string_views(hashes@));
    }

    let metadata = InstallationMetadata {
        main_class: version.main_class.clone(),
        version: version.version_id.clone(),
        asset_index_id: version.asset_index_id.clone(),
        client_jar_relative: client_jar_relative,
        classpath_relative: classpath_relative,
    };

    let plan = InstallPlan {
        subdirectories: subdirectories,
        asset_index_relative: asset_index_relative,
        tasks: tasks,
        metadata: metadata,
    };
    proof {
        assert(plan@.subdirectories =~= goal.subdirectories);
        assert(plan@.tasks =~= goal.tasks);
        assert(plan@.metadata.classpath_relative =~= goal.metadata.classpath_relative);
    }
    plan
}

proof fn lemma_classpath_step(libraries: Seq<LibraryView>, i: int)
    requires
        0 <= i < libraries.len(),
    ensures
        spec_classpath(libraries.take(i + 1)) == if libraries[i].is_native {
            spec_classpath(libraries.take(i))
        } else {
            spec_classpath(libraries.take(i)).push(libraries[i].download_path)
        },
{
    let pred = spec_non_native_pred();
    let prefix = libraries.take(i);
    let next_prefix = libraries.take(i + 1);
    let x = libraries[i];
    reveal_with_fuel(Seq::filter, 3);
    assert(next_prefix =~= prefix + seq![x]);
    Seq::<LibraryView>::filter_distributes_over_add(prefix, seq![x], pred);
    assert(seq![x].drop_last() =~= Seq::<LibraryView>::empty());
    assert(Seq::<LibraryView>::empty().filter(pred) =~= Seq::<LibraryView>::empty());
    if pred(x) {
        assert(seq![x].filter(pred) =~= seq![x]);
        assert(prefix.filter(pred) + seq![x] =~= prefix.filter(pred).push(x));
        assert(spec_classpath(next_prefix) =~= spec_classpath(prefix).push(x.download_path));
    } else {
        assert(seq![x].filter(pred) =~= Seq::<LibraryView>::empty());
        assert(prefix.filter(pred) + Seq::<LibraryView>::empty() =~= prefix.filter(pred));
        assert(spec_classpath(next_prefix) =~= spec_classpath(prefix));
    }
}

/// Which tasks still need a transfer: exactly those whose destination is
/// not already present. Present destinations are skipped whole — this is
/// what makes a re-run of an installation idempotent.
pub open spec fn spec_pending(tasks: Seq<DownloadTaskView>, present: Seq<bool>) -> Seq<
    DownloadTaskView,
>
    recommends
        tasks.len() == present.len(),
    decreases tasks.len(),
{
    if tasks.len() == 0 {
        Seq::empty()
    } else {
        let rest = spec_pending(tasks.drop_last(), present.drop_last());
        if present.len() == tasks.len() && present.last() {
            rest
        } else {
            rest.push(tasks.last())
        }
    }
}

/// Select the tasks whose destination file does not exist yet. The shell
/// reports presence per task, in task order.
pub fn pending_tasks(tasks: &Vec<DownloadTask>, present: &Vec<bool>) -> (r: Vec<DownloadTask>)
    requires
        tasks@.len() == present@.len(),
    ensures
        spec_task_views(r@) == spec_pending(spec_task_views(tasks@), present@),
{
    let ghost all = spec_task_views(tasks@);
    let mut selected: Vec<DownloadTask> = Vec::new();
    let n: usize = tasks.len();
    proof {
        assert(all.take(0) =~= Seq::<DownloadTaskView>::empty());
        assert(present@.take(0) =~= Seq::<bool>::empty());
        assert(spec_task_views(selected@) =~= Seq::<DownloadTaskView>::empty());
    }
    for i in 0..n
        invariant
            n == tasks@.len(),
            n == present@.len(),
            all == spec_task_views(tasks@),
            all.len() == n,
            spec_task_views(selected@) == spec_pending(all.take(i as int), present@.take(i as int)),
    {
        proof {
            assert(all.take(i as int + 1).drop_last() =~= all.take(i as int));
            assert(present@.take(i as int + 1).drop_last() =~= present@.take(i as int));
            assert(all.take(i as int + 1).last() == all[i as int]);
            assert(all[i as int] == tasks@[i as int]@);
        }
        if !present[i] {
            let ghost old_selected = selected@;
            let task = &tasks[i];
            selected.push(DownloadTask {
                download_uri: task.download_uri.clone(),
                download_path: task.download_path.clone(),
                is_native: task.is_native,
            });
            proof {
                assert(spec_task_views(selected@) =~= spec_task_views(old_selected).push(
                    all[i as int],
                ));
            }
        }
    }
    proof {
        assert(all.take(n as int) =~= all);
        assert(present@.take(n as int) =~= present@);
    }
    selected
}

/// A re-run over a fully present installation transfers nothing: where
/// every destination exists, the pending work list is empty.
pub proof fn lemma_rerun_transfers_nothing(tasks: Seq<DownloadTaskView>, present: Seq<bool>)
    requires
        tasks.len() == present.len(),
        forall|i: int| 0 <= i < present.len() ==> present[i],
    ensures
        spec_pending(tasks, present).len() == 0,
    decreases tasks.len(),
{
    if tasks.len() > 0 {
        lemma_rerun_transfers_nothing(tasks.drop_last(), present.drop_last());
    }
}

/// The first failure in a batch of transfer outcomes, or success when
/// every task succeeded.
pub open spec fn spec_first_error(results: Seq<Result<(), LauncherError>>) -> Result<
    (),
    LauncherError,
>
    decreases results.len(),
{
    if results.len() == 0 {
        Ok(())
    } else {
        match results[0] {
            Err(e) => Err(e),
            Ok(u) => spec_first_error(results.drop_first()),
        }
    }
}

proof fn lemma_first_error_at(results: Seq<Result<(), LauncherError>>, idx: int)
    requires
        0 <= idx < results.len(),
        results[idx] is Err,
        forall|j: int| 0 <= j < idx ==> #[trigger] results[j] is Ok,
    ensures
        spec_first_error(results) == results[idx],
    decreases results.len(),
{
    if idx > 0 {
        let tail = results.drop_first();
        assert(forall|j: int| 0 <= j < tail.len() ==> tail[j] == results[j + 1]);
        lemma_first_error_at(tail, idx - 1);
    }
}

proof fn lemma_first_error_none(results: Seq<Result<(), LauncherError>>)
    requires
        forall|j: int| 0 <= j < results.len() ==> #[trigger] results[j] is Ok,
    ensures
        spec_first_error(results) == Ok::<(), LauncherError>(()),
    decreases results.len(),
{
    if results.len() > 0 {
        let tail = results.drop_first();
        assert(forall|j: int| 0 <= j < tail.len() ==> tail[j] == results[j + 1]);
        lemma_first_error_none(tail);
    }
}

fn first_error_index(results: &Vec<Result<(), LauncherError>>) -> (r: usize)
    ensures
        r <= results@.len(),
        forall|j: int| 0 <= j < r ==> #[trigger] results@[j] is Ok,
        r < results@.len() ==> results@[r as int] is Err,
{
    let n: usize = results.len();
    for i in 0..n
        invariant
            n == results@.len(),
            forall|j: int| 0 <= j < i ==> #[trigger] results@[j] is Ok,
    {
        match &results[i] {
            Err(_) => {
                return i;
            },
            Ok(_) => {
            },
        }
    }
    n
}

/// Aggregate a batch of transfer outcomes: success only when every task
/// succeeded, else the first failure, after all outcomes are in. There is
/// no partial success and no retry.
pub fn collect_outcomes(results: Vec<Result<(), LauncherError>>) -> (r: Result<(), LauncherError>)
    ensures
        r == spec_first_error(results@),
{
    let idx: usize = first_error_index(&results);
    if idx == results.len() {
        proof {
            lemma_first_error_none(results@);
        }
        Ok(())
    } else {
        proof {
            lemma_first_error_at(results@, idx as int);
        }
        let mut owned = results;
        let taken: Result<(), LauncherError> = owned.remove(idx);
        match taken {
            Err(e) => Err(e),
            Ok(u) => {
                proof {
                    assert(false);
                }
                Ok(u)
            },
        }
    }
}

} // verus!
