//! Profiles: a named pairing of a game version with a java binary, the
//! directory each profile installs into, and the full argument list a
//! launch hands to the java process.
use vstd::prelude::*;
use vstd::string::StringExecFns;

use crate::json::{json_doc, parse_document, JsonValue};
use crate::metadata::{spec_string_views, ProfileInstallationData, ProfileInstallationDataView};
use crate::paths::{join_path, spec_joined, DirectoriesView, Directories};
use crate::text::str_eq;

verus! {

/// One launchable configuration a user keeps.
#[derive(Debug, Clone)]
pub struct Profile {
    pub profile_name: String,
    pub version_id: String,
    pub java_binary_path: String,
}

pub struct ProfileView {
    pub profile_name: Seq<char>,
    pub version_id: Seq<char>,
    pub java_binary_path: Seq<char>,
}

impl View for Profile {
    type V = ProfileView;

    open spec fn view(&self) -> ProfileView {
        ProfileView {
            profile_name: self.profile_name@,
            version_id: self.version_id@,
            java_binary_path: self.java_binary_path@,
        }
    }
}

impl Profile {
    /// The directory this profile installs into, under the profiles root.
    pub fn get_profile_directory(&self, profiles_root: &str) -> (r: String)
        ensures
            r@ == spec_joined(profiles_root@, self@.profile_name),
    {
        join_path(profiles_root, self.profile_name.as_str())
    }
}

/// Whether `existing` already holds `name`.
pub open spec fn spec_contains_name(existing: Seq<String>, name: Seq<char>) -> bool {
    exists|i: int| 0 <= i < existing.len() && existing[i]@ == name
}

/// A profile name is acceptable when it is non-empty and no profile
/// carries it yet.
pub fn validate_profile_name(name: &str, existing: &Vec<String>) -> (r: bool)
    ensures
        r == (name@.len() > 0 && !spec_contains_name(existing@, name@)),
{
    let n: usize = existing.len();
    for i in 0..n
        invariant
            n == existing@.len(),
            forall|j: int| 0 <= j < i ==> existing@[j]@ != name@,
    {
        if str_eq(existing[i].as_str(), name) {
            return false;
        }
    }
    if name.is_empty() {
        return false;
    }
    true
}

/// One profile of the profile-store document: the three string fields,
/// or nothing where any is absent or mistyped.
pub open spec fn spec_parse_profile(v: JsonValue) -> Option<ProfileView> {
    match v.spec_get_str("profile_name"@) {
        None => None,
        Some(profile_name) => match v.spec_get_str("version_id"@) {
            None => None,
            Some(version_id) => match v.spec_get_str("java_binary_path"@) {
                None => None,
                Some(java_binary_path) => Some(
                    ProfileView { profile_name, version_id, java_binary_path },
                ),
            },
        },
    }
}

/// The profile-store document's entries: each key names a profile. One
/// malformed entry spoils the whole document, as the store then falls
/// back to an empty one.
pub open spec fn spec_parse_profile_entries(entries: Seq<(String, JsonValue)>) -> Option<
    Seq<(Seq<char>, ProfileView)>,
>
    decreases entries.len(),
{
    if entries.len() == 0 {
        Some(Seq::empty())
    } else {
        match spec_parse_profile(entries[0].1) {
            None => None,
            Some(head) => match spec_parse_profile_entries(entries.drop_first()) {
                None => None,
                Some(tail) => Some(seq![(entries[0].0@, head)] + tail),
            },
        }
    }
}

pub open spec fn spec_parse_profiles(doc: JsonValue) -> Option<Seq<(Seq<char>, ProfileView)>> {
    match doc.spec_entries() {
        None => None,
        Some(entries) => spec_parse_profile_entries(entries),
    }
}

pub open spec fn spec_named_profile_views(profiles: Seq<(String, Profile)>) -> Seq<
    (Seq<char>, ProfileView),
> {
    profiles.map_values(|p: (String, Profile)| (p.0@, p.1@))
}

fn parse_profile(v: &JsonValue) -> (r: Option<Profile>)
    ensures
        match r {
            Some(p) => spec_parse_profile(*v) == Some(p@),
            None => spec_parse_profile(*v) is None,
        },
{
    let profile_name: &String = match v.get_str("profile_name") {
        Some(profile_name) => profile_name,
        None => {
            return None;
        },
    };
    let version_id: &String = match v.get_str("version_id") {
        Some(version_id) => version_id,
        None => {
            return None;
        },
    };
    let java_binary_path: &String = match v.get_str("java_binary_path") {
        Some(java_binary_path) => java_binary_path,
        None => {
            return None;
        },
    };
    Some(Profile {
        profile_name: profile_name.clone(),
        version_id: version_id.clone(),
        java_binary_path: java_binary_path.clone(),
    })
}

proof fn lemma_parse_profile_entries_step(entries: Seq<(String, JsonValue)>, i: int)
    requires
        0 <= i < entries.len(),
    ensures
        spec_parse_profile_entries(entries.skip(i)) == (match spec_parse_profile(entries[i].1) {
            None => None::<Seq<(Seq<char>, ProfileView)>>,
            Some(head) => match spec_parse_profile_entries(entries.skip(i + 1)) {
                None => None,
                Some(tail) => Some(seq![(entries[i].0@, head)] + tail),
            },
        }),
{
    assert(entries.skip(i)[0] == entries[i]);
    assert(entries.skip(i).drop_first() =~= entries.skip(i + 1));
}

/// Parse the raw bytes of the profile-store document: an object whose
/// keys name profiles. `None` — the signal to start from an empty store —
/// where the bytes are not JSON, the document is no object, or any entry
/// is malformed.
pub fn profiles_from_bytes(bytes: &[u8]) -> (r: Option<Vec<(String, Profile)>>)
    ensures
        match json_doc(bytes@) {
            None => r is None,
            Some(doc) => match spec_parse_profiles(doc) {
                None => r is None,
                Some(views) => r matches Some(parsed) && spec_named_profile_views(parsed@)
                    == views,
            },
        },
{
    let doc: JsonValue = match parse_document(bytes) {
        Some(doc) => doc,
        None => {
            return None;
        },
    };
    let entries: &Vec<(String, JsonValue)> = match doc.entries() {
        Some(entries) => entries,
        None => {
            return None;
        },
    };
    let mut parsed: Vec<(String, Profile)> = Vec::new();
    let n: usize = entries.len();
    assert(entries@.skip(0) =~= entries@);
    assert(spec_named_profile_views(parsed@) =~= Seq::<(Seq<char>, ProfileView)>::empty());
    for i in 0..n
        invariant
            n == entries@.len(),
            json_doc(bytes@) == Some(doc),
            spec_parse_profiles(doc) == spec_parse_profile_entries(entries@),
            forall|tail: Seq<(Seq<char>, ProfileView)>|
                spec_parse_profile_entries(entries@.skip(i as int)) == Some(tail)
                    ==> spec_parse_profile_entries(entries@) == Some(
                    spec_named_profile_views(parsed@) + tail,
                ),
            spec_parse_profile_entries(entries@.skip(i as int)) is None
                ==> spec_parse_profile_entries(entries@) is None,
    {
        proof {
            lemma_parse_profile_entries_step(entries@, i as int);
        }
        let current: &(String, JsonValue) = &entries[i];
        match parse_profile(&current.1) {
            Some(profile) => {
                let ghost old_parsed = parsed@;
                let key: String = entries[i].0.clone();
                parsed.push((key, profile));
                proof {
                    assert(spec_named_profile_views(parsed@) =~= spec_named_profile_views(
                        old_parsed,
                    ) + seq![(entries@[i as int].0@, profile@)]);
                    assert(forall|tail: Seq<(Seq<char>, ProfileView)>|
                        spec_named_profile_views(old_parsed) + (seq![
                            (entries@[i as int].0@, profile@),
                        ] + tail) =~= spec_named_profile_views(parsed@) + tail);
                }
            },
            None => {
                return None;
            },
        }
    }
    assert(entries@.skip(n as int) =~= Seq::<(String, JsonValue)>::empty());
    assert(spec_named_profile_views(parsed@) + Seq::<(Seq<char>, ProfileView)>::empty()
        =~= spec_named_profile_views(parsed@));
    Some(parsed)
}

/// One installed version the launcher remembers.
#[derive(Debug, Clone)]
pub struct InstalledVersion {
    pub id: String,
    pub version: String,
}

pub struct InstalledVersionView {
    pub id: Seq<char>,
    pub version: Seq<char>,
}

impl View for InstalledVersion {
    type V = InstalledVersionView;

    open spec fn view(&self) -> InstalledVersionView {
        InstalledVersionView { id: self.id@, version: self.version@ }
    }
}

impl Default for InstalledVersion {
    fn default() -> (r: InstalledVersion)
        ensures
            r@.id.len() == 0,
            r@.version.len() == 0,
    {
        InstalledVersion { id: String::new(), version: String::new() }
    }
}

/// The classpath separator of the host named `os_name`.
pub open spec fn spec_classpath_separator(os_name: Seq<char>) -> Seq<char> {
    if os_name == "windows"@ {
        ";"@
    } else {
        ":"@
    }
}

pub fn classpath_separator(os_name: &str) -> (r: &'static str)
    ensures
        r@ == spec_classpath_separator(os_name@),
{
    if str_eq(os_name, "windows") {
        ";"
    } else {
        ":"
    }
}

/// `entries` joined by `sep`.
pub open spec fn spec_join_all(entries: Seq<Seq<char>>, sep: Seq<char>) -> Seq<char>
    decreases entries.len(),
{
    if entries.len() == 0 {
        Seq::empty()
    } else if entries.len() == 1 {
        entries[0]
    } else {
        spec_join_all(entries.drop_last(), sep) + sep + entries.last()
    }
}

/// Join path strings with a separator (the classpath's shape).
pub fn join_all(entries: &Vec<String>, sep: &str) -> (r: String)
    ensures
        r@ == spec_join_all(spec_string_views(entries@), sep@),
{
    let mut out = String::new();
    let n: usize = entries.len();
    let ghost views = spec_string_views(entries@);
    proof {
        assert(views.take(0) =~= Seq::<Seq<char>>::empty());
    }
    for i in 0..n
        invariant
            n == entries@.len(),
            views == spec_string_views(entries@),
            views.len() == n,
            out@ == spec_join_all(views.take(i as int), sep@),
    {
        if i > 0 {
            out.append(sep);
        }
        out.append(entries[i].as_str());
        proof {
            assert(views.take(i as int + 1).drop_last() =~= views.take(i as int));
            assert(views.take(i as int + 1).last() == views[i as int]);
            assert(views[i as int] == entries@[i as int]@);
            if i == 0 {
                assert(Seq::<char>::empty() + views[0] =~= views[0]);
                assert(out@ =~= spec_join_all(views.take(1), sep@));
            } else {
                assert(out@ =~= spec_join_all(views.take(i as int + 1), sep@));
            }
        }
    }
    proof {
        assert(views.take(n as int) =~= views);
    }
    out
}

/// The classpath a launch hands to java: every library path under the
/// libraries root, then the client jar under the minecraft root, in that
/// order.
pub open spec fn spec_classpath_entries(
    data: ProfileInstallationDataView,
    dirs: DirectoriesView,
) -> Seq<Seq<char>> {
    data.classpath_relative.map_values(|p: Seq<char>| spec_joined(dirs.libraries, p)) + seq![
        spec_joined(dirs.minecraft_root, data.client_jar_relative),
    ]
}

/// The joined classpath string for the host named `os_name`.
pub open spec fn spec_classpath_string(
    data: ProfileInstallationDataView,
    dirs: DirectoriesView,
    os_name: Seq<char>,
) -> Seq<char> {
    spec_join_all(spec_classpath_entries(data, dirs), spec_classpath_separator(os_name))
}

pub fn build_classpath_string(
    data: &ProfileInstallationData,
    dirs: &Directories,
    os_name: &str,
) -> (r: String)
    ensures
        r@ == spec_classpath_string(data@, dirs@, os_name@),
{
    let mut entries: Vec<String> = Vec::new();
    let n: usize = data.classpath_relative.len();
    let ghost goal = spec_classpath_entries(data@, dirs@);
    proof {
        assert(spec_string_views(entries@) =~= Seq::<Seq<char>>::empty());
    }
    for i in 0..n
        invariant
            n == data.classpath_relative@.len(),
            data@.classpath_relative == spec_string_views(data.classpath_relative@),
            data@.classpath_relative.len() == n,
            dirs@ == dirs@,
            spec_string_views(entries@) == data@.classpath_relative.take(i as int).map_values(
                |p: Seq<char>| spec_joined(dirs@.libraries, p),
            ),
    {
        let ghost old_entries = entries@;
        entries.push(join_path(dirs.libraries.as_str(), data.classpath_relative[i].as_str()));
        proof {
            assert(data@.classpath_relative[i as int] == data.classpath_relative@[i as int]@);
            assert(spec_string_views(entries@) =~= spec_string_views(old_entries).push(
                spec_joined(dirs@.libraries, data@.classpath_relative[i as int]),
            ));
            assert(data@.classpath_relative.take(i as int + 1).map_values(
                |p: Seq<char>| spec_joined(dirs@.libraries, p),
            ) =~= data@.classpath_relative.take(i as int).map_values(
                |p: Seq<char>| spec_joined(dirs@.libraries, p),
            ).push(spec_joined(dirs@.libraries, data@.classpath_relative[i as int])));
        }
    }
    proof {
        assert(data@.classpath_relative.take(n as int) =~= data@.classpath_relative);
    }
    entries.push(join_path(dirs.minecraft_root.as_str(), data.client_jar_relative.as_str()));
    proof {
        assert(spec_string_views(entries@) =~= goal);
    }
    let sep: &str = classpath_separator(os_name);
    join_all(&entries, sep)
}

/// The argument list a launch hands to the java process, in order.
pub open spec fn spec_launch_arguments(
    profile: ProfileView,
    data: ProfileInstallationDataView,
    dirs: DirectoriesView,
    os_name: Seq<char>,
) -> Seq<Seq<char>> {
    seq![
        "-Djava.library.path="@ + dirs.libraries,
        "-Xmx4G"@,
        "-cp"@,
        spec_classpath_string(data, dirs, os_name),
        data.main_class,
        "--username"@,
        "Nelius"@,
        "--version"@,
        profile.version_id,
        "--gameDir"@,
        spec_joined(dirs.profiles, profile.profile_name),
        "-assetsDir"@,
        dirs.assets,
        "--assetIndex"@,
        data.asset_index_id,
        "--uuid"@,
        "0"@,
        "--accessToken"@,
        "0"@,
    ]
}

impl Profile {
    /// Compose the argument list for launching this profile's
    /// installation; the shell spawns `java_binary_path` with exactly
    /// these arguments, from the profile's directory.
    pub fn make_launch_arguments(
        &self,
        data: &ProfileInstallationData,
        dirs: &Directories,
        os_name: &str,
    ) -> (r: Vec<String>)
        ensures
            spec_string_views(r@) == spec_launch_arguments(self@, data@, dirs@, os_name@),
    {
        let mut args: Vec<String> = Vec::new();
        let mut library_path: String = "-Djava.library.path=".to_owned();
        library_path.append(dirs.libraries.as_str());
        args.push(library_path);
        args.push("-Xmx4G".to_owned());
        args.push("-cp".to_owned());
        args.push(build_classpath_string(data, dirs, os_name));
        args.push(data.main_class.clone());
        args.push("--username".to_owned());
        args.push("Nelius".to_owned());
        args.push("--version".to_owned());
        args.push(self.version_id.clone());
        args.push("--gameDir".to_owned());
        args.push(self.get_profile_directory(dirs.profiles.as_str()));
        args.push("-assetsDir".to_owned());
        args.push(dirs.assets.clone());
        args.push("--assetIndex".to_owned());
        args.push(data.asset_index_id.clone());
        args.push("--uuid".to_owned());
        args.push("0".to_owned());
        args.push("--accessToken".to_owned());
        args.push("0".to_owned());
        proof {
            assert(spec_string_views(args@) =~= spec_launch_arguments(
                self@,
                data@,
                dirs@,
                os_name@,
            ));
        }
        args
    }
}

} // verus!
