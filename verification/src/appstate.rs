//! The plain data behind the launcher's user interface: the persisted
//! preferences, the message vocabulary, the bounded log buffer, and the
//! version-list filter. The windowing shell around the core only wires
//! these into widgets.
use vstd::prelude::*;
use vstd::string::StrSliceExecFns;
use vstd::string::StringExecFns;

use crate::catalog::{spec_version_views, ManifestVersion, ManifestVersionView, VersionType};
use crate::metadata::spec_string_views;

verus! {

/// How many characters the in-memory log buffer keeps at most.
pub const MAX_LOGS_LENGTH: usize = 5000;

/// Who produced a log line.
#[derive(Debug, Clone, Copy, PartialEq, Eq, Structural)]
pub enum LogSource {
    NeliusLauncher,
    Minecraft,
    Unknown,
}

/// Everything the user interface can ask of the launcher, and everything
/// the launcher reports back to it.
#[derive(Debug)]
pub enum Message {
    VersionChanged(String),
    MinecraftVersionsLoaded(Result<Vec<ManifestVersion>, String>),
    InstalledVersionsLoaded(Result<Vec<String>, String>),
    ShowReleasesUpdated(bool),
    ShowSnapshotsUpdated(bool),
    StartGameRequest,
    MinecraftLaunched(Option<String>),
    SubmitLogLine(String, LogSource),
    MinecraftClosed,
    ChangeJavaBinaryRequested,
    SetJavaBinary(Option<String>),
    AutoScrollLogsToggled(bool),
    PersistentStateSaved(Result<(), String>),
}

/// The preferences that survive a restart.
#[derive(Debug, Clone)]
pub struct PersistentAppState {
    pub java_binary: Option<String>,
    pub show_releases: bool,
    pub show_snapshots: bool,
    pub auto_scroll: bool,
    pub selected_version: Option<String>,
}

pub struct PersistentAppStateView {
    pub java_binary: Option<Seq<char>>,
    pub show_releases: bool,
    pub show_snapshots: bool,
    pub auto_scroll: bool,
    pub selected_version: Option<Seq<char>>,
}

impl View for PersistentAppState {
    type V = PersistentAppStateView;

    open spec fn view(&self) -> PersistentAppStateView {
        PersistentAppStateView {
            java_binary: match self.java_binary {
                Some(ref s) => Some(s@),
                None => None,
            },
            show_releases: self.show_releases,
            show_snapshots: self.show_snapshots,
            auto_scroll: self.auto_scroll,
            selected_version: match self.selected_version {
                Some(ref s) => Some(s@),
                None => None,
            },
        }
    }
}

impl Default for PersistentAppState {
    /// A fresh state: no java binary chosen, releases shown, snapshots
    /// hidden, logs auto-scrolling, nothing selected.
    fn default() -> (r: PersistentAppState)
        ensures
            r@.java_binary is None,
            r@.show_releases == true,
            r@.show_snapshots == false,
            r@.auto_scroll == true,
            r@.selected_version is None,
    {
        PersistentAppState {
            java_binary: None,
            show_releases: true,
            show_snapshots: false,
            auto_scroll: true,
            selected_version: None,
        }
    }
}

impl PersistentAppState {
    /// Apply one of the interface's preference messages. Exactly the five
    /// preference messages change the state — each sets its one field and
    /// leaves the rest — and only they report a change to persist; every
    /// other message leaves the state untouched.
    pub fn apply_preference(&mut self, msg: &Message) -> (changed: bool)
        ensures
            match *msg {
                Message::VersionChanged(ref v) => changed && final(self)@ == (
                PersistentAppStateView { selected_version: Some(v@), ..old(self)@ }),
                Message::ShowReleasesUpdated(b) => changed && final(self)@ == (
                PersistentAppStateView { show_releases: b, ..old(self)@ }),
                Message::ShowSnapshotsUpdated(b) => changed && final(self)@ == (
                PersistentAppStateView { show_snapshots: b, ..old(self)@ }),
                Message::SetJavaBinary(ref binary) => changed && final(self)@ == (
                PersistentAppStateView {
                    java_binary: match *binary {
                        Some(ref s) => Some(s@),
                        None => None,
                    },
                    ..old(self)@
                }),
                Message::AutoScrollLogsToggled(b) => changed && final(self)@ == (
                PersistentAppStateView { auto_scroll: b, ..old(self)@ }),
                _ => !changed && final(self)@ == old(self)@,
            },
    {
        match msg {
            Message::VersionChanged(v) => {
                self.selected_version = Some(v.clone());
                true
            },
            Message::ShowReleasesUpdated(b) => {
                self.show_releases = *b;
                true
            },
            Message::ShowSnapshotsUpdated(b) => {
                self.show_snapshots = *b;
                true
            },
            Message::SetJavaBinary(binary) => {
                self.java_binary = match binary {
                    Some(s) => Some(s.clone()),
                    None => None,
                };
                true
            },
            Message::AutoScrollLogsToggled(b) => {
                self.auto_scroll = *b;
                true
            },
            _ => false,
        }
    }

    /// The guard in front of a launch: a game can start only once a
    /// version and a java binary are chosen and no game is running.
    pub fn can_start_game(&self, game_locked: bool) -> (r: bool)
        ensures
            r == (self@.selected_version is Some && self@.java_binary is Some && !game_locked),
    {
        if game_locked {
            return false;
        }
        match (&self.selected_version, &self.java_binary) {
            (Some(_), Some(_)) => true,
            _ => false,
        }
    }
}

/// The line a log entry adds to the buffer: the source's tag, the line,
/// and a newline.
pub open spec fn spec_log_line(line: Seq<char>, source: LogSource) -> Seq<char> {
    match source {
        LogSource::NeliusLauncher => "[NELIUS LAUNCHER] "@ + line + "\n"@,
        LogSource::Minecraft => "[MINECRAFT] "@ + line + "\n"@,
        LogSource::Unknown => line + "\n"@,
    }
}

/// The buffer after an append: the formatted line at the end, and the
/// front cut off so that at most `max_len` characters remain.
pub open spec fn spec_appended_log(
    logs: Seq<char>,
    line: Seq<char>,
    source: LogSource,
    max_len: int,
) -> Seq<char> {
    let grown = logs + spec_log_line(line, source);
    if grown.len() <= max_len {
        grown
    } else {
        grown.skip(grown.len() - max_len)
    }
}

/// Append one line to the bounded log buffer, dropping the oldest
/// characters once the buffer would exceed `max_len`.
pub fn append_log(logs: &mut String, line: &str, source: LogSource, max_len: usize)
    ensures
        final(logs)@ == spec_appended_log(old(logs)@, line@, source, max_len as int),
{
    match source {
        LogSource::NeliusLauncher => {
            logs.append("[NELIUS LAUNCHER] ");
        },
        LogSource::Minecraft => {
            logs.append("[MINECRAFT] ");
        },
        LogSource::Unknown => {
        },
    }
    logs.append(line);
    logs.append("\n");
    let total: usize = logs.as_str().unicode_len();
    if total > max_len {
        let kept: String = logs.as_str().substring_char(total - max_len, total).to_owned();
        *logs = kept;
    }
    proof {
        assert(logs@ =~= spec_appended_log(old(logs)@, line@, source, max_len as int));
    }
}

/// Whether a version is listed under the current filter: releases and
/// snapshots each behind their toggle, anything unknown always.
pub open spec fn spec_version_listed(
    v: ManifestVersionView,
    show_releases: bool,
    show_snapshots: bool,
) -> bool {
    match v.version_type {
        VersionType::Release => show_releases,
        VersionType::Snapshot => show_snapshots,
        VersionType::Unknown => true,
    }
}

pub open spec fn spec_listed_pred(show_releases: bool, show_snapshots: bool) -> spec_fn(
    ManifestVersionView,
) -> bool {
    |v: ManifestVersionView| spec_version_listed(v, show_releases, show_snapshots)
}

/// The ids shown in the version list: every version that passes the
/// filter, in manifest order.
pub open spec fn spec_filtered_versions(
    versions: Seq<ManifestVersionView>,
    show_releases: bool,
    show_snapshots: bool,
) -> Seq<Seq<char>> {
    versions.filter(spec_listed_pred(show_releases, show_snapshots)).map_values(
        |v: ManifestVersionView| v.version_id,
    )
}

proof fn lemma_filtered_versions_step(
    versions: Seq<ManifestVersionView>,
    show_releases: bool,
    show_snapshots: bool,
    i: int,
)
    requires
        0 <= i < versions.len(),
    ensures
        spec_filtered_versions(versions.take(i + 1), show_releases, show_snapshots)
            == if spec_version_listed(versions[i], show_releases, show_snapshots) {
            spec_filtered_versions(versions.take(i), show_releases, show_snapshots).push(
                versions[i].version_id,
            )
        } else {
            spec_filtered_versions(versions.take(i), show_releases, show_snapshots)
        },
{
    let pred = spec_listed_pred(show_releases, show_snapshots);
    let prefix = versions.take(i);
    let next_prefix = versions.take(i + 1);
    let x = versions[i];
    reveal_with_fuel(Seq::filter, 3);
    assert(next_prefix =~= prefix + seq![x]);
    Seq::<ManifestVersionView>::filter_distributes_over_add(prefix, seq![x], pred);
    assert(seq![x].drop_last() =~= Seq::<ManifestVersionView>::empty());
    assert(Seq::<ManifestVersionView>::empty().filter(pred) =~= Seq::<
        ManifestVersionView,
    >::empty());
    if pred(x) {
        assert(seq![x].filter(pred) =~= seq![x]);
        assert(prefix.filter(pred) + seq![x] =~= prefix.filter(pred).push(x));
        assert(spec_filtered_versions(next_prefix, show_releases, show_snapshots)
            =~= spec_filtered_versions(prefix, show_releases, show_snapshots).push(x.version_id));
    } else {
        assert(seq![x].filter(pred) =~= Seq::<ManifestVersionView>::empty());
        assert(prefix.filter(pred) + Seq::<ManifestVersionView>::empty() =~= prefix.filter(pred));
        assert(spec_filtered_versions(next_prefix, show_releases, show_snapshots)
            =~= spec_filtered_versions(prefix, show_releases, show_snapshots));
    }
}

/// The version ids the list shows under the given toggles.
pub fn filter_versions(
    versions: &Vec<ManifestVersion>,
    show_releases: bool,
    show_snapshots: bool,
) -> (r: Vec<String>)
    ensures
        spec_string_views(r@) == spec_filtered_versions(
            spec_version_views(versions@),
            show_releases,
            show_snapshots,
        ),
{
    let ghost views = spec_version_views(versions@);
    let mut listed: Vec<String> = Vec::new();
    let n: usize = versions.len();
    proof {
        reveal_with_fuel(Seq::filter, 2);
        assert(views.take(0) =~= Seq::<ManifestVersionView>::empty());
        assert(Seq::<ManifestVersionView>::empty().filter(
            spec_listed_pred(show_releases, show_snapshots),
        ) =~= Seq::<ManifestVersionView>::empty());
        assert(spec_filtered_versions(views.take(0), show_releases, show_snapshots) =~= Seq::<
            Seq<char>,
        >::empty());
        assert(spec_string_views(listed@) =~= Seq::<Seq<char>>::empty());
    }
    for i in 0..n
        invariant
            n == versions@.len(),
            views == spec_version_views(versions@),
            views.len() == n,
            spec_string_views(listed@) == spec_filtered_versions(
                views.take(i as int),
                show_releases,
                show_snapshots,
            ),
    {
        proof {
            lemma_filtered_versions_step(views, show_releases, show_snapshots, i as int);
            assert(views[i as int] == versions@[i as int]@);
        }
        let shown: bool = match versions[i].version_type {
            VersionType::Release => show_releases,
            VersionType::Snapshot => show_snapshots,
            VersionType::Unknown => true,
        };
        if shown {
            let ghost old_listed = listed@;
            listed.push(versions[i].version_id.clone());
            proof {
                assert(spec_string_views(listed@) =~= spec_string_views(old_listed).push(
                    views[i as int].version_id,
                ));
            }
        }
    }
    proof {
        assert(views.take(n as int) =~= views);
    }
    listed
}

} // verus!
