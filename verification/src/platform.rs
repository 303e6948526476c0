//! The platform rule engine: decides, per catalog library entry, whether
//! the library applies to the running operating system and whether it is a
//! platform-native artifact.
use vstd::prelude::*;

use crate::errors::{JsonField, LauncherError};
use crate::json::{obj_lookup, spec_obj_lookup, JsonValue};
use crate::text::str_eq;

verus! {

/// Operating systems the catalog's library rules can name.
#[derive(Debug, Clone, Copy, PartialEq, Eq, Structural)]
pub enum MinecraftCompatibleOS {
    Linux,
    OSX,
    Windows,
}

impl MinecraftCompatibleOS {
    /// Whether `os_name`, in the convention of `std::env::consts::OS`,
    /// names this operating system.
    pub open spec fn spec_matches_os_name(self, os_name: Seq<char>) -> bool {
        match self {
            MinecraftCompatibleOS::Linux => os_name == "linux"@,
            MinecraftCompatibleOS::OSX => os_name == "macos"@,
            MinecraftCompatibleOS::Windows => os_name == "windows"@,
        }
    }

    pub fn matches_os_name(&self, os_name: &str) -> (r: bool)
        ensures
            r == self.spec_matches_os_name(os_name@),
    {
        match self {
            MinecraftCompatibleOS::Linux => str_eq(os_name, "linux"),
            MinecraftCompatibleOS::OSX => str_eq(os_name, "macos"),
            MinecraftCompatibleOS::Windows => str_eq(os_name, "windows"),
        }
    }
}

/// The operating system an allow-rule's `os.name` field names.
pub open spec fn spec_os_from_rule_name(name: Seq<char>) -> Option<MinecraftCompatibleOS> {
    if name == "linux"@ {
        Some(MinecraftCompatibleOS::Linux)
    } else if name == "osx"@ {
        Some(MinecraftCompatibleOS::OSX)
    } else if name == "windows"@ {
        Some(MinecraftCompatibleOS::Windows)
    } else {
        None
    }
}

fn os_from_rule_name(name: &str) -> (r: Option<MinecraftCompatibleOS>)
    ensures
        r == spec_os_from_rule_name(name@),
{
    if str_eq(name, "linux") {
        Some(MinecraftCompatibleOS::Linux)
    } else if str_eq(name, "osx") {
        Some(MinecraftCompatibleOS::OSX)
    } else if str_eq(name, "windows") {
        Some(MinecraftCompatibleOS::Windows)
    } else {
        None
    }
}

/// The classifier key under which a library's native artifact for the
/// given host is listed, or `None` for a host the catalog cannot serve.
pub open spec fn spec_native_classifier_key(os_name: Seq<char>) -> Option<Seq<char>> {
    if os_name == "windows"@ {
        Some("natives-windows"@)
    } else if os_name == "macos"@ {
        Some("natives-osx"@)
    } else if os_name == "linux"@ {
        Some("natives-linux"@)
    } else {
        None
    }
}

fn native_classifier_key(os_name: &str) -> (r: Option<&'static str>)
    ensures
        match r {
            Some(k) => spec_native_classifier_key(os_name@) == Some(k@),
            None => spec_native_classifier_key(os_name@) is None,
        },
{
    if str_eq(os_name, "windows") {
        Some("natives-windows")
    } else if str_eq(os_name, "macos") {
        Some("natives-osx")
    } else if str_eq(os_name, "linux") {
        Some("natives-linux")
    } else {
        None
    }
}

/// A single dependency artifact of a version: a plain jar, or a
/// platform-native binary bundle.
#[derive(Debug, Clone)]
pub struct Library {
    pub library_name: String,
    /// The operating system the catalog restricts this library to;
    /// absent where it applies everywhere.
    pub specific_os: Option<MinecraftCompatibleOS>,
    /// Where the artifact lives, relative to the libraries root; the same
    /// path serves as the remote URL suffix and the local destination.
    pub download_path: String,
    pub download_url: String,
    pub is_native: bool,
}

pub struct LibraryView {
    pub library_name: Seq<char>,
    pub specific_os: Option<MinecraftCompatibleOS>,
    pub download_path: Seq<char>,
    pub download_url: Seq<char>,
    pub is_native: bool,
}

impl View for Library {
    type V = LibraryView;

    open spec fn view(&self) -> LibraryView {
        LibraryView {
            library_name: self.library_name@,
            specific_os: self.specific_os,
            download_path: self.download_path@,
            download_url: self.download_url@,
            is_native: self.is_native,
        }
    }
}

impl LibraryView {
    /// The library-inclusion filter: a library is needed when it is not
    /// restricted to an operating system, or restricted to the running one.
    pub open spec fn spec_needed_for(self, os_name: Seq<char>) -> bool {
        match self.specific_os {
            None => true,
            Some(os) => os.spec_matches_os_name(os_name),
        }
    }
}

/// What parsing one catalog library entry comes to.
pub enum LibraryParseOutcome {
    /// The entry describes an artifact for this host.
    Parsed(LibraryView),
    /// The entry lists native classifiers but none for this host: the
    /// library does not apply to this platform at all.
    NotApplicable,
    /// The entry lacks a field the parse needs.
    Missing(JsonField),
    /// The host's operating system is not one the catalog can serve.
    UnsupportedHost,
}

/// The library entry's `downloads.classifiers` object, if it has one.
pub open spec fn spec_classifiers(entry: JsonValue) -> Option<Seq<(String, JsonValue)>> {
    match entry.spec_get("downloads"@) {
        Some(downloads) => match downloads.spec_get("classifiers"@) {
            Some(classifiers) => classifiers.spec_entries(),
            None => None,
        },
        None => None,
    }
}

/// The library entry's `rules` array; a missing or mistyped one counts as
/// empty.
pub open spec fn spec_rules(entry: JsonValue) -> Seq<JsonValue> {
    match entry.spec_get("rules"@) {
        Some(rules) => match rules.spec_arr() {
            Some(items) => items,
            None => Seq::empty(),
        },
        None => Seq::empty(),
    }
}

/// A rule's `action` string, if it has one.
pub open spec fn spec_rule_action(rule: JsonValue) -> Option<Seq<char>> {
    rule.spec_get_str("action"@)
}

/// The operating system an allow rule names under `os.name`; `None` where
/// the name is absent or not one of the three known systems.
pub open spec fn spec_rule_allow_os(rule: JsonValue) -> Option<MinecraftCompatibleOS> {
    match rule.spec_get("os"@) {
        Some(os_field) => match os_field.spec_get_str("name"@) {
            Some(name) => spec_os_from_rule_name(name),
            None => None,
        },
        None => None,
    }
}

/// The sequential scan of a `rules` array, starting from `acc`: every
/// allow rule overwrites the recorded system, so the last allow rule wins;
/// rules with another action are ignored; a rule without an action string
/// is a hard parse error.
pub open spec fn spec_rules_os(
    rules: Seq<JsonValue>,
    acc: Option<MinecraftCompatibleOS>,
) -> Result<Option<MinecraftCompatibleOS>, JsonField>
    decreases rules.len(),
{
    if rules.len() == 0 {
        Ok(acc)
    } else {
        match spec_rule_action(rules[0]) {
            None => Err(JsonField::RuleAction),
            Some(action) => if action == "allow"@ {
                spec_rules_os(rules.drop_first(), spec_rule_allow_os(rules[0]))
            } else {
                spec_rules_os(rules.drop_first(), acc)
            },
        }
    }
}

/// The full parse of one library entry for a host named `os_name`,
/// mirroring the order in which the fields are consulted: the classifier
/// or artifact section first, then the rules scan, then the name.
pub open spec fn spec_library_from_json(entry: JsonValue, os_name: Seq<char>) -> LibraryParseOutcome {
    match spec_classifiers(entry) {
        Some(classifiers) => match spec_native_classifier_key(os_name) {
            None => LibraryParseOutcome::UnsupportedHost,
            Some(key) => match spec_obj_lookup(classifiers, key) {
                None => LibraryParseOutcome::NotApplicable,
                Some(native) => spec_finish_entry(
                    entry,
                    native.spec_get_str("url"@),
                    native.spec_get_str("path"@),
                    true,
                    JsonField::ClassifierUrl,
                    JsonField::ClassifierPath,
                ),
            },
        },
        None => {
            let artifact = match entry.spec_get("downloads"@) {
                Some(downloads) => downloads.spec_get("artifact"@),
                None => None,
            };
            let url = match artifact {
                Some(a) => a.spec_get_str("url"@),
                None => None,
            };
            let path = match artifact {
                Some(a) => a.spec_get_str("path"@),
                None => None,
            };
            spec_finish_entry(entry, url, path, false, JsonField::ArtifactUrl, JsonField::ArtifactPath)
        },
    }
}

/// The tail of the entry parse shared by the native and the generic
/// branch: the download coordinates, then the rules, then the name.
pub open spec fn spec_finish_entry(
    entry: JsonValue,
    url: Option<Seq<char>>,
    path: Option<Seq<char>>,
    is_native: bool,
    url_field: JsonField,
    path_field: JsonField,
) -> LibraryParseOutcome {
    match url {
        None => LibraryParseOutcome::Missing(url_field),
        Some(url_chars) => match path {
            None => LibraryParseOutcome::Missing(path_field),
            Some(path_chars) => match spec_rules_os(spec_rules(entry), None) {
                Err(f) => LibraryParseOutcome::Missing(f),
                Ok(system) => match entry.spec_get_str("name"@) {
                    None => LibraryParseOutcome::Missing(JsonField::LibraryName),
                    Some(name_chars) => LibraryParseOutcome::Parsed(
                        LibraryView {
                            library_name: name_chars,
                            specific_os: system,
                            download_path: path_chars,
                            download_url: url_chars,
                            is_native: is_native,
                        },
                    ),
                },
            },
        },
    }
}

impl Library {
    /// Whether this library is needed on the host named `os_name` (in the
    /// convention of `std::env::consts::OS`).
    pub fn is_needed_for_this_os(&self, os_name: &str) -> (r: bool)
        ensures
            r == self@.spec_needed_for(os_name@),
    {
        match &self.specific_os {
            None => true,
            Some(os) => os.matches_os_name(os_name),
        }
    }

    /// Parse one entry of a version's `libraries` array for the host named
    /// `os_name`.
    ///
    /// `Ok(None)` is the entry that lists native classifiers but none for
    /// this host: such a library does not apply to this platform at all,
    /// independent of its `rules`.
    pub fn from_json(entry: &JsonValue, os_name: &str) -> (r: Result<
        Option<Library>,
        LauncherError,
    >)
        ensures
            match spec_library_from_json(*entry, os_name@) {
                LibraryParseOutcome::Parsed(lv) => r matches Ok(Some(lib)) && lib@ == lv,
                LibraryParseOutcome::NotApplicable => r matches Ok(None),
                LibraryParseOutcome::Missing(f) => r matches Err(e) && e == LauncherError::MissingField(f),
                LibraryParseOutcome::UnsupportedHost => r matches Err(e)
                    && e matches LauncherError::UnsupportedOs(os) && os@ == os_name@,
            },
    {
        let classifiers_opt: Option<&Vec<(String, JsonValue)>> = match entry.get("downloads") {
            Some(downloads) => match downloads.get("classifiers") {
                Some(classifiers) => classifiers.entries(),
                None => None,
            },
            None => None,
        };

        let download_url: &String;
        let download_path: &String;
        let is_native: bool;

        match classifiers_opt {
            Some(classifiers) => {
                let key: &str = match native_classifier_key(os_name) {
                    Some(key) => key,
                    None => {
                        return Err(LauncherError::UnsupportedOs(os_name.to_owned()));
                    },
                };
                let native = match obj_lookup(classifiers, key) {
                    Some(native) => native,
                    None => {
                        return Ok(None);
                    },
                };
                download_url = match native.get_str("url") {
                    Some(url) => url,
                    None => {
                        return Err(LauncherError::MissingField(JsonField::ClassifierUrl));
                    },
                };
                download_path = match native.get_str("path") {
                    Some(path) => path,
                    None => {
                        return Err(LauncherError::MissingField(JsonField::ClassifierPath));
                    },
                };
                is_native = true;
            },
            None => {
                let artifact: Option<&JsonValue> = match entry.get("downloads") {
                    Some(downloads) => downloads.get("artifact"),
                    None => None,
                };
                download_url = match artifact {
                    Some(a) => match a.get_str("url") {
                        Some(url) => url,
                        None => {
                            return Err(LauncherError::MissingField(JsonField::ArtifactUrl));
                        },
                    },
                    None => {
                        return Err(LauncherError::MissingField(JsonField::ArtifactUrl));
                    },
                };
                download_path = match artifact {
                    Some(a) => match a.get_str("path") {
                        Some(path) => path,
                        None => {
                            return Err(LauncherError::MissingField(JsonField::ArtifactPath));
                        },
                    },
                    None => {
                        return Err(LauncherError::MissingField(JsonField::ArtifactPath));
                    },
                };
                is_native = false;
            },
        }

        let system: Option<MinecraftCompatibleOS> = match scan_rules(entry) {
            Ok(system) => system,
            Err(f) => {
                return Err(LauncherError::MissingField(f));
            },
        };

        let library_name: &String = match entry.get_str("name") {
            Some(name) => name,
            None => {
                return Err(LauncherError::MissingField(JsonField::LibraryName));
            },
        };

        Ok(Some(Library {
            library_name: library_name.clone(),
            specific_os: system,
            download_path: download_path.clone(),
            download_url: download_url.clone(),
            is_native: is_native,
        }))
    }
}

proof fn lemma_scan_rules_step(
    rules: Seq<JsonValue>,
    acc: Option<MinecraftCompatibleOS>,
    next: Option<MinecraftCompatibleOS>,
    i: int,
)
    requires
        0 <= i < rules.len(),
        spec_rule_action(rules[i]) is Some,
        next == if spec_rule_action(rules[i]) == Some("allow"@) {
            spec_rule_allow_os(rules[i])
        } else {
            acc
        },
    ensures
        spec_rules_os(rules.skip(i), acc) == spec_rules_os(rules.skip(i + 1), next),
{
    assert(rules.skip(i)[0] == rules[i]);
    assert(rules.skip(i).drop_first() =~= rules.skip(i + 1));
}

/// The sequential rules scan over a library entry: the last allow rule
/// determines the recorded operating system.
fn scan_rules(entry: &JsonValue) -> (r: Result<Option<MinecraftCompatibleOS>, JsonField>)
    ensures
        r == spec_rules_os(spec_rules(*entry), None),
{
    let rules_opt: Option<&Vec<JsonValue>> = match entry.get("rules") {
        Some(rules) => rules.as_array(),
        None => None,
    };
    let rules = match rules_opt {
        Some(rules) => rules,
        None => {
            assert(spec_rules(*entry) =~= Seq::<JsonValue>::empty());
            return Ok(None);
        },
    };

    let mut system: Option<MinecraftCompatibleOS> = None;
    let n: usize = rules.len();
    assert(rules@.skip(0) =~= rules@);
    for i in 0..n
        invariant
            n == rules@.len(),
            spec_rules(*entry) == rules@,
            spec_rules_os(rules@, None) == spec_rules_os(rules@.skip(i as int), system),
    {
        let rule = &rules[i];
        let action: &String = match rule.get_str("action") {
            Some(action) => action,
            None => {
                assert(rules@.skip(i as int)[0] == rules@[i as int]);
                return Err(JsonField::RuleAction);
            },
        };
        let next: Option<MinecraftCompatibleOS> = if str_eq(action.as_str(), "allow") {
            let name_opt: Option<&String> = match rule.get("os") {
                Some(os_field) => os_field.get_str("name"),
                None => None,
            };
            match name_opt {
                Some(name) => os_from_rule_name(name.as_str()),
                None => None,
            }
        } else {
            system
        };
        proof {
            lemma_scan_rules_step(rules@, system, next, i as int);
        }
        system = next;
    }
    assert(rules@.skip(n as int) =~= Seq::<JsonValue>::empty());
    Ok(system)
}

/// The last allow rule wins: where `rules[k]` is an allow rule and every
/// later rule has some other action, the scan records exactly the system
/// `rules[k]` names, whatever came before.
pub proof fn lemma_last_allow_rule_wins(
    rules: Seq<JsonValue>,
    acc: Option<MinecraftCompatibleOS>,
    k: int,
)
    requires
        0 <= k < rules.len(),
        spec_rule_action(rules[k]) == Some("allow"@),
        forall|j: int|
            0 <= j < rules.len() ==> #[trigger] spec_rule_action(rules[j]) is Some,
        forall|j: int|
            k < j < rules.len() ==> #[trigger] spec_rule_action(rules[j]) != Some("allow"@),
    ensures
        spec_rules_os(rules, acc) == Ok::<Option<MinecraftCompatibleOS>, JsonField>(
            spec_rule_allow_os(rules[k]),
        ),
    decreases rules.len(),
{
    assert(spec_rule_action(rules[0]) is Some);
    let tail = rules.drop_first();
    assert(forall|j: int| 0 <= j < tail.len() ==> tail[j] == rules[j + 1]);
    if k == 0 {
        if tail.len() == 0 {
            assert(spec_rules_os(tail, spec_rule_allow_os(rules[0])) == Ok::<
                Option<MinecraftCompatibleOS>,
                JsonField,
            >(spec_rule_allow_os(rules[0])));
        } else {
            lemma_no_allow_keeps_acc(tail, spec_rule_allow_os(rules[0]));
        }
    } else {
        lemma_last_allow_rule_wins(tail, spec_rules_first_step(rules, acc), k - 1);
    }
}

/// The accumulator after the scan consumed the first rule.
pub open spec fn spec_rules_first_step(
    rules: Seq<JsonValue>,
    acc: Option<MinecraftCompatibleOS>,
) -> Option<MinecraftCompatibleOS>
    recommends
        rules.len() > 0,
{
    if spec_rule_action(rules[0]) == Some("allow"@) {
        spec_rule_allow_os(rules[0])
    } else {
        acc
    }
}

/// A scan over rules none of which is an allow rule leaves the recorded
/// system as it was.
pub proof fn lemma_no_allow_keeps_acc(rules: Seq<JsonValue>, acc: Option<MinecraftCompatibleOS>)
    requires
        forall|j: int|
            0 <= j < rules.len() ==> #[trigger] spec_rule_action(rules[j]) is Some,
        forall|j: int|
            0 <= j < rules.len() ==> #[trigger] spec_rule_action(rules[j]) != Some("allow"@),
    ensures
        spec_rules_os(rules, acc) == Ok::<Option<MinecraftCompatibleOS>, JsonField>(acc),
    decreases rules.len(),
{
    if rules.len() > 0 {
        let tail = rules.drop_first();
        assert(forall|j: int| 0 <= j < tail.len() ==> tail[j] == rules[j + 1]);
        lemma_no_allow_keeps_acc(tail, acc);
    }
}

} // verus!
