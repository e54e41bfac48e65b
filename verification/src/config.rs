//! The configuration model: which projects to publish, to which services,
//! for which loaders and game versions, and at which release level — plus
//! the pure decisions the surrounding tool makes over it.

use vstd::prelude::*;

verus! {

use crate::chars::clone_copy_vec;
use crate::chars::clone_strings;
use crate::curseforge::ProjectRelation;
use crate::curseforge::ReleaseType;
use crate::error::ErrLayer;
use crate::error::MuError;
use crate::github::Release;
use crate::modrinth::Dependency;
use crate::modrinth::VersionType;
use crate::pattern::regex_valid;
use crate::pattern::FileRegex;

/// The first of two optional values: a project setting, or the
/// configuration-wide one it falls back to.
pub open spec fn or_config<T>(own: Option<T>, base: Option<T>) -> Option<T> {
    if own is Some {
        own
    } else {
        base
    }
}

/// The whole configuration file.
#[derive(Clone)]
pub struct Config {
    /// GitHub project (format: "owner/repo")
    pub github: String,
    /// Target loaders
    pub loaders: Option<Vec<Loader>>,
    /// CurseForge project ID
    pub curseforge: Option<CurseForgeSettings>,
    /// Modrinth configuration
    pub modrinth: Option<ModrinthSettings>,
    /// Projects
    pub projects: Option<Vec<Project>>,
    /// Game versions
    pub game_versions: Option<Vec<String>>,
    /// File regex
    pub file_regex: Option<String>,
    /// Release level
    pub release_level: Option<ReleaseLevel>,
}

/// One published project; every setting falls back to the configuration.
#[derive(Clone)]
pub struct Project {
    /// Target loaders
    pub loaders: Option<Vec<Loader>>,
    /// CurseForge project ID
    pub curseforge: Option<CurseForgeSettings>,
    /// Modrinth configuration
    pub modrinth: Option<ModrinthSettings>,
    /// Game versions
    pub game_versions: Option<Vec<String>>,
    /// File regex
    pub file_regex: Option<String>,
}

/// The CurseForge target of a project.
#[derive(Clone)]
pub struct CurseForgeSettings {
    pub project_id: u32,
    pub relations: Option<Vec<ProjectRelation>>,
    pub slug: Option<String>,
}

/// The Modrinth target of a project.
#[derive(Clone)]
pub struct ModrinthSettings {
    pub project_id: String,
    pub dependencies: Option<Vec<Dependency>>,
    pub version_number: Option<String>,
    pub slug: Option<String>,
}

impl Project {
    /// A project with no setting of its own.
    pub fn empty() -> (r: Self)
        ensures
            r.loaders is None,
            r.curseforge is None,
            r.modrinth is None,
            r.game_versions is None,
            r.file_regex is None,
    {
        Project { loaders: None, curseforge: None, modrinth: None, game_versions: None, file_regex: None }
    }

    /// The file filter in force: the project's pattern or the
    /// configuration's, compiled — or nothing when neither sets one.
    pub fn get_regex(&self, config: &Config) -> (r: Result<Option<FileRegex>, MuError>)
        ensures
            match r {
                Ok(filter) => match filter {
                    Some(fr) => or_config(self.file_regex, config.file_regex) matches Some(p)
                        && fr.spec_pattern() == p@ && regex_valid(p@),
                    None => or_config(self.file_regex, config.file_regex) is None,
                },
                Err(_) => or_config(self.file_regex, config.file_regex) matches Some(p)
                    && !regex_valid(p@),
            },
    {
        let pattern: Option<&String> = match &self.file_regex {
            Some(p) => Some(p),
            None => match &config.file_regex {
                Some(p) => Some(p),
                None => None,
            },
        };
        match pattern {
            None => Ok(None),
            Some(p) => match FileRegex::new(p.as_str()) {
                Ok(fr) => Ok(Some(fr)),
                Err(msg) => Err(MuError::new(msg.as_str())),
            },
        }
    }

    /// The game versions in force; an error when neither the project nor
    /// the configuration names any.
    pub fn get_game_versions(&self, config: &Config) -> (r: Result<Vec<String>, MuError>)
        ensures
            match r {
                Ok(v) => or_config(self.game_versions, config.game_versions) matches Some(g)
                    && v@ == g@,
                Err(e) => {
                    &&& or_config(self.game_versions, config.game_versions) is None
                    &&& e@ == seq![
                        ErrLayer {
                            msg: "No game versions defined!"@,
                            source: None,
                            span: None,
                            help: None,
                        },
                    ]
                },
            },
    {
        match &self.game_versions {
            Some(g) => Ok(clone_strings(g)),
            None => match &config.game_versions {
                Some(g) => Ok(clone_strings(g)),
                None => Err(MuError::new("No game versions defined!")),
            },
        }
    }

    /// The target loaders in force; an error when neither the project nor
    /// the configuration names any.
    pub fn get_loaders(&self, config: &Config) -> (r: Result<Vec<Loader>, MuError>)
        ensures
            match r {
                Ok(v) => or_config(self.loaders, config.loaders) matches Some(l) && v@ == l@,
                Err(e) => {
                    &&& or_config(self.loaders, config.loaders) is None
                    &&& e@ == seq![
                        ErrLayer {
                            msg: "No loaders defined!"@,
                            source: None,
                            span: None,
                            help: None,
                        },
                    ]
                },
            },
    {
        match &self.loaders {
            Some(l) => Ok(clone_copy_vec(l)),
            None => match &config.loaders {
                Some(l) => Ok(clone_copy_vec(l)),
                None => Err(MuError::new("No loaders defined!")),
            },
        }
    }

    /// The CurseForge settings in force, if any.
    pub fn get_curseforge<'a>(&'a self, config: &'a Config) -> (r: Option<&'a CurseForgeSettings>)
        ensures
            match r {
                Some(s) => or_config(self.curseforge, config.curseforge) == Some(*s),
                None => or_config(self.curseforge, config.curseforge) is None,
            },
    {
        match &self.curseforge {
            Some(s) => Some(s),
            None => match &config.curseforge {
                Some(s) => Some(s),
                None => None,
            },
        }
    }

    /// The Modrinth settings in force, if any.
    pub fn get_modrinth<'a>(&'a self, config: &'a Config) -> (r: Option<&'a ModrinthSettings>)
        ensures
            match r {
                Some(s) => or_config(self.modrinth, config.modrinth) == Some(*s),
                None => or_config(self.modrinth, config.modrinth) is None,
            },
    {
        match &self.modrinth {
            Some(s) => Some(s),
            None => match &config.modrinth {
                Some(s) => Some(s),
                None => None,
            },
        }
    }
}

/// The tool's credentials for the services it talks to.
pub struct Secrets {
    pub github_token: String,
    pub curseforge_token: String,
}

/// How a release is staged on the hosting services.
#[derive(Clone, Copy, PartialEq, Eq, Structural, Debug)]
pub enum ReleaseLevel {
    Release,
    Beta,
    Alpha,
}

/// The release level in force: the configured one, or beta for a
/// prerelease and release otherwise.
pub open spec fn spec_release_level(config: Config, release: Release) -> ReleaseLevel {
    match config.release_level {
        Some(level) => level,
        None => if release.prerelease {
            ReleaseLevel::Beta
        } else {
            ReleaseLevel::Release
        },
    }
}

impl ReleaseLevel {
    /// This level in CurseForge's terms.
    pub open spec fn spec_as_curseforge(self) -> ReleaseType {
        match self {
            ReleaseLevel::Release => ReleaseType::Release,
            ReleaseLevel::Beta => ReleaseType::Beta,
            ReleaseLevel::Alpha => ReleaseType::Alpha,
        }
    }

    /// This level in Modrinth's terms.
    pub open spec fn spec_as_modrinth(self) -> VersionType {
        match self {
            ReleaseLevel::Release => VersionType::Release,
            ReleaseLevel::Beta => VersionType::Beta,
            ReleaseLevel::Alpha => VersionType::Alpha,
        }
    }

    /// This level in CurseForge's terms.
    pub fn as_curseforge(&self) -> (r: ReleaseType)
        ensures
            r == self.spec_as_curseforge(),
    {
        match self {
            Self::Release => ReleaseType::Release,
            Self::Beta => ReleaseType::Beta,
            Self::Alpha => ReleaseType::Alpha,
        }
    }

    /// This level in Modrinth's terms.
    pub fn as_modrinth(&self) -> (r: VersionType)
        ensures
            r == self.spec_as_modrinth(),
    {
        match self {
            Self::Release => VersionType::Release,
            Self::Beta => VersionType::Beta,
            Self::Alpha => VersionType::Alpha,
        }
    }

    /// The release level in force for this release.
    pub fn get(config: &Config, release: &Release) -> (r: ReleaseLevel)
        ensures
            r == spec_release_level(*config, *release),
    {
        if let Some(level) = &config.release_level {
            *level
        } else if release.prerelease {
            ReleaseLevel::Beta
        } else {
            ReleaseLevel::Release
        }
    }
}

/// A mod loader a file can target.
#[derive(Clone, Copy, PartialEq, Eq, Structural, Debug)]
pub enum Loader {
    Fabric,
    Forge,
    Quilt,
}

impl Loader {
    /// This loader's identifier on Modrinth.
    pub open spec fn spec_modrinth_id(self) -> Seq<char> {
        match self {
            Loader::Fabric => "fabric"@,
            Loader::Forge => "forge"@,
            Loader::Quilt => "quilt"@,
        }
    }

    /// This loader's display name on CurseForge.
    pub open spec fn spec_curseforge_name(self) -> Seq<char> {
        match self {
            Loader::Fabric => "Fabric"@,
            Loader::Forge => "Forge"@,
            Loader::Quilt => "Quilt"@,
        }
    }

    /// Every loader, in a fixed order.
    pub fn values() -> (r: Vec<Self>)
        ensures
            r@ == seq![Loader::Fabric, Loader::Forge, Loader::Quilt],
    {
        let mut r: Vec<Loader> = Vec::new();
        r.push(Loader::Fabric);
        r.push(Loader::Forge);
        r.push(Loader::Quilt);
        proof {
            assert(r@ =~= seq![Loader::Fabric, Loader::Forge, Loader::Quilt]);
        }
        r
    }

    /// This loader's identifier on Modrinth.
    pub fn modrinth_id(&self) -> (r: &'static str)
        ensures
            r@ == self.spec_modrinth_id(),
    {
        match self {
            Self::Fabric => "fabric",
            Self::Forge => "forge",
            Self::Quilt => "quilt",
        }
    }

    /// This loader's display name on CurseForge.
    pub fn curseforge_name(&self) -> (r: &'static str)
        ensures
            r@ == self.spec_curseforge_name(),
    {
        match self {
            Self::Fabric => "Fabric",
            Self::Forge => "Forge",
            Self::Quilt => "Quilt",
        }
    }
}

/// Where the tool takes its secrets from.
#[derive(Clone, Copy, PartialEq, Eq, Structural, Debug)]
pub enum SecretsSource {
    /// Read the secrets file.
    SecretsFile,
    /// Read the two environment variables.
    Environment,
    /// An explicit secrets file cannot be combined with the environment flag.
    FlagConflict,
    /// An explicitly named secrets file does not exist.
    FileNotFound,
}

/// The secrets-source decision: an explicitly named file must exist and
/// cannot be combined with the environment flag; without an explicit path
/// the environment is used when asked for, or when the default file is
/// missing.
pub open spec fn spec_secrets_source(
    path_given: bool,
    env_secrets: bool,
    file_exists: bool,
) -> SecretsSource {
    if path_given {
        if env_secrets {
            SecretsSource::FlagConflict
        } else if !file_exists {
            SecretsSource::FileNotFound
        } else {
            SecretsSource::SecretsFile
        }
    } else {
        if env_secrets || !file_exists {
            SecretsSource::Environment
        } else {
            SecretsSource::SecretsFile
        }
    }
}

/// Decides where the secrets come from, given the command-line flags and
/// whether the file in question exists.
pub fn secrets_source(path_given: bool, env_secrets: bool, file_exists: bool) -> (r: SecretsSource)
    ensures
        r == spec_secrets_source(path_given, env_secrets, file_exists),
{
    if path_given {
        if env_secrets {
            SecretsSource::FlagConflict
        } else if !file_exists {
            SecretsSource::FileNotFound
        } else {
            SecretsSource::SecretsFile
        }
    } else {
        if env_secrets || !file_exists {
            SecretsSource::Environment
        } else {
            SecretsSource::SecretsFile
        }
    }
}

} // verus!
