//! The catalog client and version list: the remote manifest's shape, its
//! parse, the write-once in-process cache, and the case- and
//! whitespace-insensitive version lookup.
use vstd::prelude::*;

use crate::errors::{JsonField, LauncherError};
use crate::json::{json_doc, parse_document, JsonValue};
use crate::text::{canon, canonical_version_id, str_eq};

verus! {

/// Where the version manifest is fetched from.
pub fn manifest_url() -> (r: &'static str)
    ensures
        r@ == spec_manifest_url(),
{
    "https://piston-meta.mojang.com/mc/game/version_manifest_v2.json"
}

pub open spec fn spec_manifest_url() -> Seq<char> {
    "https://piston-meta.mojang.com/mc/game/version_manifest_v2.json"@
}

#[derive(Debug, Clone, Copy, PartialEq, Eq, Structural)]
pub enum VersionType {
    Snapshot,
    Release,
    Unknown,
}

/// The version type the manifest's `type` string names; anything but the
/// two known names is `Unknown`.
pub open spec fn spec_version_type(name: Seq<char>) -> VersionType {
    if name == "release"@ {
        VersionType::Release
    } else if name == "snapshot"@ {
        VersionType::Snapshot
    } else {
        VersionType::Unknown
    }
}

fn version_type_of(name: &str) -> (r: VersionType)
    ensures
        r == spec_version_type(name@),
{
    if str_eq(name, "release") {
        VersionType::Release
    } else if str_eq(name, "snapshot") {
        VersionType::Snapshot
    } else {
        VersionType::Unknown
    }
}

/// One entry of the manifest's version list.
#[derive(Debug, Clone)]
pub struct ManifestVersion {
    pub version_id: String,
    pub version_type: VersionType,
    /// Where the full version record is fetched from.
    pub details_url: String,
}

pub struct ManifestVersionView {
    pub version_id: Seq<char>,
    pub version_type: VersionType,
    pub details_url: Seq<char>,
}

impl View for ManifestVersion {
    type V = ManifestVersionView;

    open spec fn view(&self) -> ManifestVersionView {
        ManifestVersionView {
            version_id: self.version_id@,
            version_type: self.version_type,
            details_url: self.details_url@,
        }
    }
}

/// The remote catalog of all known versions.
#[derive(Debug, Clone)]
pub struct Manifest {
    pub latest_release: String,
    pub latest_snapshot: String,
    pub versions: Vec<ManifestVersion>,
}

pub struct ManifestView {
    pub latest_release: Seq<char>,
    pub latest_snapshot: Seq<char>,
    pub versions: Seq<ManifestVersionView>,
}

impl View for Manifest {
    type V = ManifestView;

    open spec fn view(&self) -> ManifestView {
        ManifestView {
            latest_release: self.latest_release@,
            latest_snapshot: self.latest_snapshot@,
            versions: spec_version_views(self.versions@),
        }
    }
}

pub open spec fn spec_version_views(versions: Seq<ManifestVersion>) -> Seq<ManifestVersionView> {
    versions.map_values(|v: ManifestVersion| v@)
}

/// The parse of one element of the manifest's `versions` array, consulting
/// the fields in the order the catalog client reads them: the type first,
/// then the id, then the details URL.
pub open spec fn spec_parse_manifest_version(v: JsonValue) -> Result<
    ManifestVersionView,
    JsonField,
> {
    match v.spec_get_str("type"@) {
        None => Err(JsonField::VersionTypeName),
        Some(kind_name) => match v.spec_get_str("id"@) {
            None => Err(JsonField::VersionId),
            Some(id) => match v.spec_get_str("url"@) {
                None => Err(JsonField::VersionUrl),
                Some(url) => Ok(
                    ManifestVersionView {
                        version_id: id,
                        version_type: spec_version_type(kind_name),
                        details_url: url,
                    },
                ),
            },
        },
    }
}

/// The parse of the whole `versions` array; the first malformed element
/// is the parse's error.
pub open spec fn spec_parse_versions(items: Seq<JsonValue>) -> Result<
    Seq<ManifestVersionView>,
    JsonField,
>
    decreases items.len(),
{
    if items.len() == 0 {
        Ok(Seq::empty())
    } else {
        match spec_parse_manifest_version(items[0]) {
            Err(f) => Err(f),
            Ok(head) => match spec_parse_versions(items.drop_first()) {
                Err(f) => Err(f),
                Ok(tail) => Ok(seq![head] + tail),
            },
        }
    }
}

/// The parse of the manifest document: the `versions` array and its
/// elements first, then the two `latest` fields.
pub open spec fn spec_parse_manifest(doc: JsonValue) -> Result<ManifestView, JsonField> {
    match doc.spec_get("versions"@) {
        None => Err(JsonField::Versions),
        Some(versions_field) => match versions_field.spec_arr() {
            None => Err(JsonField::Versions),
            Some(items) => match spec_parse_versions(items) {
                Err(f) => Err(f),
                Ok(versions) => match spec_latest(doc, "release"@) {
                    None => Err(JsonField::LatestRelease),
                    Some(latest_release) => match spec_latest(doc, "snapshot"@) {
                        None => Err(JsonField::LatestSnapshot),
                        Some(latest_snapshot) => Ok(
                            ManifestView { latest_release, latest_snapshot, versions },
                        ),
                    },
                },
            },
        },
    }
}

/// The string under `latest.<key>` in the manifest document.
pub open spec fn spec_latest(doc: JsonValue, key: Seq<char>) -> Option<Seq<char>> {
    match doc.spec_get("latest"@) {
        Some(latest) => latest.spec_get_str(key),
        None => None,
    }
}

fn parse_manifest_version(v: &JsonValue) -> (r: Result<ManifestVersion, JsonField>)
    ensures
        match spec_parse_manifest_version(*v) {
            Ok(mv) => r matches Ok(parsed) && parsed@ == mv,
            Err(f) => r matches Err(got) && got == f,
        },
{
    let kind_name: &String = match v.get_str("type") {
        Some(kind_name) => kind_name,
        None => {
            return Err(JsonField::VersionTypeName);
        },
    };
    let version_type = version_type_of(kind_name.as_str());
    let version_id: &String = match v.get_str("id") {
        Some(id) => id,
        None => {
            return Err(JsonField::VersionId);
        },
    };
    let details_url: &String = match v.get_str("url") {
        Some(url) => url,
        None => {
            return Err(JsonField::VersionUrl);
        },
    };
    Ok(ManifestVersion {
        version_id: version_id.clone(),
        version_type: version_type,
        details_url: details_url.clone(),
    })
}

proof fn lemma_parse_versions_step(items: Seq<JsonValue>, i: int)
    requires
        0 <= i < items.len(),
    ensures
        spec_parse_versions(items.skip(i)) == (match spec_parse_manifest_version(items[i]) {
            Err(f) => Err::<Seq<ManifestVersionView>, JsonField>(f),
            Ok(head) => match spec_parse_versions(items.skip(i + 1)) {
                Err(f) => Err(f),
                Ok(tail) => Ok(seq![head] + tail),
            },
        }),
{
    assert(items.skip(i)[0] == items[i]);
    assert(items.skip(i).drop_first() =~= items.skip(i + 1));
}

fn parse_versions(items: &Vec<JsonValue>) -> (r: Result<Vec<ManifestVersion>, JsonField>)
    ensures
        match spec_parse_versions(items@) {
            Ok(views) => r matches Ok(parsed) && spec_version_views(parsed@) == views,
            Err(f) => r matches Err(got) && got == f,
        },
{
    let mut parsed: Vec<ManifestVersion> = Vec::new();
    let n: usize = items.len();
    assert(items@.skip(0) =~= items@);
    assert(spec_version_views(parsed@) =~= Seq::<ManifestVersionView>::empty());
    for i in 0..n
        invariant
            n == items@.len(),
            forall|tail: Seq<ManifestVersionView>|
                spec_parse_versions(items@.skip(i as int)) == Ok::<_, JsonField>(tail)
                    ==> spec_parse_versions(items@) == Ok::<_, JsonField>(
                    spec_version_views(parsed@) + tail,
                ),
            forall|f: JsonField|
                spec_parse_versions(items@.skip(i as int)) == Err::<Seq<ManifestVersionView>, _>(f)
                    ==> spec_parse_versions(items@) == Err::<Seq<ManifestVersionView>, JsonField>(f),
    {
        proof {
            lemma_parse_versions_step(items@, i as int);
        }
        match parse_manifest_version(&items[i]) {
            Ok(mv) => {
                let ghost old_parsed = parsed@;
                parsed.push(mv);
                proof {
                    assert(spec_version_views(parsed@) =~= spec_version_views(old_parsed) + seq![
                        mv@,
                    ]);
                    assert(forall|tail: Seq<ManifestVersionView>|
                        spec_version_views(old_parsed) + (seq![mv@] + tail) =~= spec_version_views(
                            parsed@,
                        ) + tail);
                }
            },
            Err(f) => {
                return Err(f);
            },
        }
    }
    assert(items@.skip(n as int) =~= Seq::<JsonValue>::empty());
    assert(spec_version_views(parsed@) + Seq::<ManifestVersionView>::empty() =~= spec_version_views(
        parsed@,
    ));
    Ok(parsed)
}

/// Parse the manifest document into the catalog's shape.
pub fn parse_manifest(doc: &JsonValue) -> (r: Result<Manifest, LauncherError>)
    ensures
        match spec_parse_manifest(*doc) {
            Ok(mv) => r matches Ok(m) && m@ == mv,
            Err(f) => r matches Err(e) && e == LauncherError::MissingField(f),
        },
{
    let items: &Vec<JsonValue> = match doc.get("versions") {
        Some(versions_field) => match versions_field.as_array() {
            Some(items) => items,
            None => {
                return Err(LauncherError::MissingField(JsonField::Versions));
            },
        },
        None => {
            return Err(LauncherError::MissingField(JsonField::Versions));
        },
    };
    let versions = match parse_versions(items) {
        Ok(versions) => versions,
        Err(f) => {
            return Err(LauncherError::MissingField(f));
        },
    };
    let latest: &JsonValue = match doc.get("latest") {
        Some(latest) => latest,
        None => {
            return Err(LauncherError::MissingField(JsonField::LatestRelease));
        },
    };
    let latest_release: &String = match latest.get_str("release") {
        Some(latest_release) => latest_release,
        None => {
            return Err(LauncherError::MissingField(JsonField::LatestRelease));
        },
    };
    let latest_snapshot: &String = match latest.get_str("snapshot") {
        Some(latest_snapshot) => latest_snapshot,
        None => {
            return Err(LauncherError::MissingField(JsonField::LatestSnapshot));
        },
    };
    let m = Manifest {
        latest_release: latest_release.clone(),
        latest_snapshot: latest_snapshot.clone(),
        versions: versions,
    };
    Ok(m)
}

/// Parse the raw bytes of the manifest endpoint's response.
pub fn manifest_from_bytes(bytes: &[u8]) -> (r: Result<Manifest, LauncherError>)
    ensures
        match json_doc(bytes@) {
            None => r matches Err(e) && e == LauncherError::MalformedDocument,
            Some(doc) => match spec_parse_manifest(doc) {
                Ok(mv) => r matches Ok(m) && m@ == mv,
                Err(f) => r matches Err(e) && e == LauncherError::MissingField(f),
            },
        },
{
    match parse_document(bytes) {
        Some(doc) => parse_manifest(&doc),
        None => Err(LauncherError::MalformedDocument),
    }
}

/// The first manifest entry whose version id reads `key` under the
/// canonical form (trimmed, lowercased).
pub open spec fn spec_find_version(versions: Seq<ManifestVersionView>, key: Seq<char>) -> Option<
    ManifestVersionView,
>
    decreases versions.len(),
{
    if versions.len() == 0 {
        None
    } else if canon(versions[0].version_id) == key {
        Some(versions[0])
    } else {
        spec_find_version(versions.drop_first(), key)
    }
}

impl Manifest {
    /// Look a version id up, insensitive to case and to surrounding
    /// whitespace.
    pub fn find_version(&self, version_id: &str) -> (r: Option<&ManifestVersion>)
        ensures
            match r {
                Some(v) => spec_find_version(self@.versions, canon(version_id@)) == Some(v@),
                None => spec_find_version(self@.versions, canon(version_id@)) is None,
            },
    {
        let key: String = canonical_version_id(version_id);
        let n: usize = self.versions.len();
        proof {
            assert(self@.versions =~= spec_version_views(self.versions@));
            assert(spec_version_views(self.versions@).skip(0) =~= self@.versions);
        }
        for i in 0..n
            invariant
                n == self.versions@.len(),
                key@ == canon(version_id@),
                self@.versions == spec_version_views(self.versions@),
                self@.versions.len() == n,
                spec_find_version(self@.versions, key@) == spec_find_version(
                    self@.versions.skip(i as int),
                    key@,
                ),
        {
            let candidate: String = canonical_version_id(self.versions[i].version_id.as_str());
            proof {
                assert(self@.versions.skip(i as int)[0] == self@.versions[i as int]);
                assert(self@.versions[i as int] == self.versions@[i as int]@);
            }
            if candidate == key {
                return Some(&self.versions[i]);
            }
            proof {
                assert(self@.versions.skip(i as int).drop_first() =~= self@.versions.skip(
                    i as int + 1,
                ));
            }
        }
        assert(self@.versions.skip(n as int) =~= Seq::<ManifestVersionView>::empty());
        None
    }

    /// Look a version id up, or fail with the lookup error the resolver
    /// surfaces for an id the manifest does not carry.
    pub fn resolve_version(&self, version_id: &str) -> (r: Result<&ManifestVersion, LauncherError>)
        ensures
            match r {
                Ok(v) => spec_find_version(self@.versions, canon(version_id@)) == Some(v@),
                Err(e) => spec_find_version(self@.versions, canon(version_id@)) is None && (e
                    matches LauncherError::VersionNotFound(id) && id@ == version_id@),
            },
    {
        match self.find_version(version_id) {
            Some(v) => Ok(v),
            None => Err(LauncherError::VersionNotFound(version_id.to_owned())),
        }
    }
}

/// Lookup is insensitive to case and whitespace: two queries with the
/// same canonical form resolve to the same manifest entry, because the
/// lookup consults nothing of the query but that canonical form.
pub proof fn lemma_lookup_is_canonical(
    versions: Seq<ManifestVersionView>,
    query_a: Seq<char>,
    query_b: Seq<char>,
)
    requires
        canon(query_a) == canon(query_b),
    ensures
        spec_find_version(versions, canon(query_a)) == spec_find_version(versions, canon(query_b)),
{
}

/// The process-wide manifest cache: empty until the first successful
/// fetch, then filled once and never changed again.
pub struct CatalogCache {
    manifest: Option<Manifest>,
}

impl View for CatalogCache {
    type V = Option<ManifestView>;

    closed spec fn view(&self) -> Option<ManifestView> {
        match self.manifest {
            Some(m) => Some(m@),
            None => None,
        }
    }
}

impl CatalogCache {
    /// Whether a fetch of the catalog is still owed.
    pub open spec fn spec_needs_fetch(self) -> bool {
        self@ is None
    }

    /// The version sequence the cache serves, once it is filled.
    pub open spec fn spec_versions(self) -> Option<Seq<ManifestVersionView>> {
        match self@ {
            Some(m) => Some(m.versions),
            None => None,
        }
    }

    pub fn new() -> (r: CatalogCache)
        ensures
            r@ is None,
    {
        CatalogCache { manifest: None }
    }

    pub fn needs_fetch(&self) -> (r: bool)
        ensures
            r == self.spec_needs_fetch(),
    {
        match &self.manifest {
            Some(_) => false,
            None => true,
        }
    }

    /// The cached manifest, if the fetch has happened.
    pub fn get_manifest(&self) -> (r: Option<&Manifest>)
        ensures
            match r {
                Some(m) => self@ == Some(m@),
                None => self@ is None,
            },
    {
        match &self.manifest {
            Some(m) => Some(m),
            None => None,
        }
    }

    /// The read-only view into the cached manifest's version list.
    pub fn get_versions(&self) -> (r: Option<&Vec<ManifestVersion>>)
        ensures
            match r {
                Some(versions) => self.spec_versions() == Some(spec_version_views(versions@)),
                None => self@ is None,
            },
    {
        match &self.manifest {
            Some(m) => Some(&m.versions),
            None => None,
        }
    }

    /// Hand the cache the raw bytes of a catalog fetch.
    ///
    /// A filled cache stays exactly as it is, whatever the bytes: the
    /// catalog is fetched at most once for the process's life. On a parse
    /// failure the cache stays empty, so a later call can retry.
    pub fn fill_from_document(&mut self, bytes: &[u8]) -> (r: Result<(), LauncherError>)
        ensures
            old(self)@ is Some ==> final(self)@ == old(self)@ && r is Ok,
            old(self)@ is None ==> match json_doc(bytes@) {
                None => final(self)@ is None && (r matches Err(e) && e
                    == LauncherError::MalformedDocument),
                Some(doc) => match spec_parse_manifest(doc) {
                    Ok(mv) => final(self)@ == Some(mv) && r is Ok,
                    Err(f) => final(self)@ is None && (r matches Err(e) && e
                        == LauncherError::MissingField(f)),
                },
            },
    {
        if let Some(_) = &self.manifest {
            return Ok(());
        }
        match manifest_from_bytes(bytes) {
            Ok(m) => {
                self.manifest = Some(m);
                Ok(())
            },
            Err(e) => Err(e),
        }
    }
}

/// A filled catalog cache asks for no further fetch, and the versions it
/// serves are exactly the stored manifest's, however often they are read.
pub proof fn lemma_fetch_once(cache: CatalogCache, m: ManifestView)
    requires
        cache@ == Some(m),
    ensures
        !cache.spec_needs_fetch(),
        cache.spec_versions() == Some(m.versions),
{
}

} // verus!
