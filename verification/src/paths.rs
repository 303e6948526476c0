//! Path building for the launcher's on-disk layout, over plain strings
//! with `/` as the separator. The shell around the core turns these into
//! the host's native paths.
use vstd::prelude::*;
use vstd::string::StringExecFns;

verus! {

/// `base` and `rest`, joined by one separator.
pub open spec fn spec_joined(base: Seq<char>, rest: Seq<char>) -> Seq<char> {
    base + "/"@ + rest
}

pub fn join_path(base: &str, rest: &str) -> (r: String)
    ensures
        r@ == spec_joined(base@, rest@),
{
    let mut out: String = base.to_owned();
    out.append("/");
    out.append(rest);
    out
}

/// The fixed directory layout the launcher keeps under its configuration
/// and data roots.
#[derive(Debug, Clone)]
pub struct Directories {
    pub config: String,
    pub data: String,
    pub minecraft_root: String,
    pub config_file: String,
    pub profiles: String,
    pub natives: String,
    pub objects: String,
    pub versions: String,
    pub libraries: String,
    pub indexes: String,
    pub assets: String,
}

pub struct DirectoriesView {
    pub config: Seq<char>,
    pub data: Seq<char>,
    pub minecraft_root: Seq<char>,
    pub config_file: Seq<char>,
    pub profiles: Seq<char>,
    pub natives: Seq<char>,
    pub objects: Seq<char>,
    pub versions: Seq<char>,
    pub libraries: Seq<char>,
    pub indexes: Seq<char>,
    pub assets: Seq<char>,
}

impl View for Directories {
    type V = DirectoriesView;

    open spec fn view(&self) -> DirectoriesView {
        DirectoriesView {
            config: self.config@,
            data: self.data@,
            minecraft_root: self.minecraft_root@,
            config_file: self.config_file@,
            profiles: self.profiles@,
            natives: self.natives@,
            objects: self.objects@,
            versions: self.versions@,
            libraries: self.libraries@,
            indexes: self.indexes@,
            assets: self.assets@,
        }
    }
}

/// The layout rooted at the given configuration and data directories.
pub open spec fn spec_directories(config: Seq<char>, data: Seq<char>) -> DirectoriesView {
    let minecraft_root = spec_joined(data, "minecraft-root"@);
    let assets = spec_joined(minecraft_root, "assets"@);
    DirectoriesView {
        config: config,
        data: data,
        minecraft_root: minecraft_root,
        config_file: spec_joined(config, "config.json"@),
        profiles: spec_joined(data, "profiles"@),
        natives: spec_joined(minecraft_root, "natives"@),
        objects: spec_joined(assets, "objects"@),
        versions: spec_joined(minecraft_root, "versions"@),
        libraries: spec_joined(minecraft_root, "libraries"@),
        indexes: spec_joined(assets, "indexes"@),
        assets: assets,
    }
}

/// Build the launcher's directory layout from the host's configuration
/// and data roots (which only the shell can discover).
pub fn get_directories(config_root: &str, data_root: &str) -> (r: Directories)
    ensures
        r@ == spec_directories(config_root@, data_root@),
{
    let minecraft_root: String = join_path(data_root, "minecraft-root");
    let assets: String = join_path(minecraft_root.as_str(), "assets");
    Directories {
        config: config_root.to_owned(),
        data: data_root.to_owned(),
        config_file: join_path(config_root, "config.json"),
        profiles: join_path(data_root, "profiles"),
        natives: join_path(minecraft_root.as_str(), "natives"),
        objects: join_path(assets.as_str(), "objects"),
        versions: join_path(minecraft_root.as_str(), "versions"),
        libraries: join_path(minecraft_root.as_str(), "libraries"),
        indexes: join_path(assets.as_str(), "indexes"),
        assets: assets,
        minecraft_root: minecraft_root,
    }
}

} // verus!
