//! Typed failures of the launcher core.
//!
//! Malformed catalog documents name the field that was missing or had the
//! wrong shape, so a caller can report exactly what the remote sent.
use vstd::prelude::*;
use vstd::string::StringExecFns;

verus! {

/// A field of one of the catalog's JSON documents that a parse step needs.
#[derive(Debug, Clone, Copy, PartialEq, Eq, Structural)]
pub enum JsonField {
    Versions,
    LatestRelease,
    LatestSnapshot,
    VersionId,
    VersionTypeName,
    VersionUrl,
    AssetIndexUrl,
    AssetIndexId,
    ClientJarUrl,
    MainClass,
    Libraries,
    LibraryName,
    ClassifierUrl,
    ClassifierPath,
    ArtifactUrl,
    ArtifactPath,
    RuleAction,
    Objects,
    ObjectHash,
    MetadataVersion,
    MetadataAssetIndexId,
    MetadataClientJar,
    MetadataClasspath,
    MetadataMainClass,
}

impl JsonField {
    /// The field's path in the document it belongs to.
    pub open spec fn spec_name(self) -> Seq<char> {
        match self {
            JsonField::Versions => "versions"@,
            JsonField::LatestRelease => "latest.release"@,
            JsonField::LatestSnapshot => "latest.snapshot"@,
            JsonField::VersionId => "id"@,
            JsonField::VersionTypeName => "type"@,
            JsonField::VersionUrl => "url"@,
            JsonField::AssetIndexUrl => "assetIndex.url"@,
            JsonField::AssetIndexId => "assetIndex.id"@,
            JsonField::ClientJarUrl => "downloads.client.url"@,
            JsonField::MainClass => "mainClass"@,
            JsonField::Libraries => "libraries"@,
            JsonField::LibraryName => "name"@,
            JsonField::ClassifierUrl => "downloads.classifiers.url"@,
            JsonField::ClassifierPath => "downloads.classifiers.path"@,
            JsonField::ArtifactUrl => "downloads.artifact.url"@,
            JsonField::ArtifactPath => "downloads.artifact.path"@,
            JsonField::RuleAction => "rules.action"@,
            JsonField::Objects => "objects"@,
            JsonField::ObjectHash => "hash"@,
            JsonField::MetadataVersion => "version"@,
            JsonField::MetadataAssetIndexId => "asset_index_id"@,
            JsonField::MetadataClientJar => "client_jar_relative"@,
            JsonField::MetadataClasspath => "classpath_relative"@,
            JsonField::MetadataMainClass => "main_class"@,
        }
    }

    pub fn name(&self) -> (r: &'static str)
        ensures
            r@ == self.spec_name(),
    {
        match self {
            JsonField::Versions => "versions",
            JsonField::LatestRelease => "latest.release",
            JsonField::LatestSnapshot => "latest.snapshot",
            JsonField::VersionId => "id",
            JsonField::VersionTypeName => "type",
            JsonField::VersionUrl => "url",
            JsonField::AssetIndexUrl => "assetIndex.url",
            JsonField::AssetIndexId => "assetIndex.id",
            JsonField::ClientJarUrl => "downloads.client.url",
            JsonField::MainClass => "mainClass",
            JsonField::Libraries => "libraries",
            JsonField::LibraryName => "name",
            JsonField::ClassifierUrl => "downloads.classifiers.url",
            JsonField::ClassifierPath => "downloads.classifiers.path",
            JsonField::ArtifactUrl => "downloads.artifact.url",
            JsonField::ArtifactPath => "downloads.artifact.path",
            JsonField::RuleAction => "rules.action",
            JsonField::Objects => "objects",
            JsonField::ObjectHash => "hash",
            JsonField::MetadataVersion => "version",
            JsonField::MetadataAssetIndexId => "asset_index_id",
            JsonField::MetadataClientJar => "client_jar_relative",
            JsonField::MetadataClasspath => "classpath_relative",
            JsonField::MetadataMainClass => "main_class",
        }
    }
}

/// Everything the launcher core can fail with.
///
/// Transport and filesystem failures are produced by the I/O shell around
/// the core and only carried through here; the other variants are produced
/// by the core itself.
#[derive(Debug)]
pub enum LauncherError {
    /// The bytes handed in were not a JSON document at all.
    MalformedDocument,
    /// The document was JSON, but the named field was absent or mistyped.
    MissingField(JsonField),
    /// The requested version id is not in the manifest.
    VersionNotFound(String),
    /// The running operating system is not one the catalog can serve.
    UnsupportedOs(String),
    /// A network transfer failed; the payload describes it.
    Transport(String),
    /// A local file or directory operation failed; the payload describes it.
    Filesystem(String),
    /// A downloaded native archive could not be opened or read.
    ArchiveUnreadable,
}

impl LauncherError {
    pub open spec fn spec_describe(self) -> Seq<char> {
        match self {
            LauncherError::MalformedDocument => "bad json: the response is not a json document"@,
            LauncherError::MissingField(f) => "bad json: missing or mistyped field "@ + f.spec_name(),
            LauncherError::VersionNotFound(id) => "the version "@ + id@ + " does not exist"@,
            LauncherError::UnsupportedOs(os) => "unsupported operating system "@ + os@,
            LauncherError::Transport(d) => "network error: "@ + d@,
            LauncherError::Filesystem(d) => "filesystem error: "@ + d@,
            LauncherError::ArchiveUnreadable => "failed reading the native archive"@,
        }
    }

    /// A human-readable account of the failure.
    pub fn describe(&self) -> (r: String)
        ensures
            r@ == self.spec_describe(),
    {
        match self {
            LauncherError::MalformedDocument => {
                String::from_str("bad json: the response is not a json document")
            },
            LauncherError::MissingField(f) => {
                let mut s = String::from_str("bad json: missing or mistyped field ");
                s.append(f.name());
                s
            },
            LauncherError::VersionNotFound(id) => {
                let mut s = String::from_str("the version ");
                s.append(id.as_str());
                s.append(" does not exist");
                s
            },
            LauncherError::UnsupportedOs(os) => {
                let mut s = String::from_str("unsupported operating system ");
                s.append(os.as_str());
                s
            },
            LauncherError::Transport(d) => {
                let mut s = String::from_str("network error: ");
                s.append(d.as_str());
                s
            },
            LauncherError::Filesystem(d) => {
                let mut s = String::from_str("filesystem error: ");
                s.append(d.as_str());
                s
            },
            LauncherError::ArchiveUnreadable => {
                String::from_str("failed reading the native archive")
            },
        }
    }
}

} // verus!
