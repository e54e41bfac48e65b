//! The Modrinth side: the data model of its version-creation API and the
//! pure computations behind an upload — above all the version number, which
//! may come from a template resolved against the release tag.  The HTTP
//! calls themselves live outside the library and consume these values.

use vstd::prelude::*;

verus! {

use crate::chars::clone_opt_string;
use crate::config::or_config;
use crate::config::spec_release_level;
use crate::config::Config;
use crate::config::Loader;
use crate::config::ModrinthSettings;
use crate::config::Project;
use crate::config::ReleaseLevel;
use crate::error::ErrLayer;
use crate::error::MuError;
use crate::github::Asset;
use crate::github::Release;
use crate::template::msg_unresolved;
use crate::template::spec_parse;
use crate::template::spec_resolve;
use crate::template::wrap_err;
use crate::template::Lookup;
use crate::template::Template;
use crate::template::VarTable;

/// The base of every Modrinth API endpoint.
pub const API_URL: &'static str = "https://api.modrinth.com/v2";

/// How a version depends on another project or version.
#[derive(Clone, Copy, PartialEq, Eq, Structural, Debug)]
pub enum DependencyType {
    Required,
    Optional,
    Incompatible,
    Embedded,
}

/// One dependency declared on an uploaded version.
#[derive(Clone, Debug)]
pub struct Dependency {
    pub dependency_type: DependencyType,
    pub file_name: Option<String>,
    pub project_id: Option<String>,
    pub version_id: Option<String>,
}

/// How a Modrinth version is staged.
#[derive(Clone, Copy, PartialEq, Eq, Structural, Debug)]
pub enum VersionType {
    Release,
    Beta,
    Alpha,
}

/// The payload creating one Modrinth version.
#[derive(Debug)]
pub struct CreateVersionData {
    pub name: String,
    pub version_number: String,
    pub changelog: Option<String>,
    pub dependencies: Vec<Dependency>,
    pub game_versions: Vec<String>,
    pub version_type: VersionType,
    pub loaders: Vec<String>,
    pub featured: bool,
    pub project_id: String,
    pub file_parts: Vec<String>,
    pub primary_file: String,
}

/// The lookup a version-number template is resolved against: the release
/// tag under the name `tag`, nothing else.
pub open spec fn tag_lookup(tag: Seq<char>) -> spec_fn(Seq<char>) -> Option<Seq<char>> {
    |n: Seq<char>|
        if n == "tag"@ {
            Some(tag)
        } else {
            None
        }
}

/// The context message wrapped around a version-number failure.
pub open spec fn msg_version_number_context() -> Seq<char> {
    "Could not compute Modrinth version number"@
}

/// What the version number is: the template resolved against the release
/// tag, or the tag itself when no template is configured.  A template that
/// does not parse, or that names a variable other than `tag`, is the
/// failure this gives the full diagnostic of.
pub open spec fn spec_version_number(template: Option<String>, tag: Seq<char>) -> Result<
    Seq<char>,
    Seq<ErrLayer>,
> {
    match template {
        None => Ok(tag),
        Some(t) => match spec_parse(t@) {
            Ok(parts) => match spec_resolve(parts, tag_lookup(tag)) {
                Ok(out) => Ok(out),
                Err(name) => Err(wrap_err(
                    seq![
                        ErrLayer { msg: msg_unresolved(name), source: None, span: None, help: None },
                    ],
                    msg_version_number_context(),
                )),
            },
            Err(e) => Err(wrap_err(e, msg_version_number_context())),
        },
    }
}

/// Two lookups that answer alike resolve alike.
proof fn lemma_resolve_same_lookup(
    parts: Seq<crate::template::PartView>,
    lk1: spec_fn(Seq<char>) -> Option<Seq<char>>,
    lk2: spec_fn(Seq<char>) -> Option<Seq<char>>,
)
    requires
        forall|n: Seq<char>| #[trigger] lk1(n) == lk2(n),
    ensures
        spec_resolve(parts, lk1) == spec_resolve(parts, lk2),
    decreases parts.len(),
{
    if parts.len() > 0 {
        lemma_resolve_same_lookup(parts.drop_first(), lk1, lk2);
    }
}

/// Computes the version number: the settings' template resolved against
/// the release tag, or the tag itself when no template is set.
pub fn resolve_version_number(settings: &ModrinthSettings, release: &Release) -> (r: Result<
    String,
    MuError,
>)
    ensures
        match r {
            Ok(v) => spec_version_number(settings.version_number, release.tag_name@) == Ok::<
                Seq<char>,
                Seq<ErrLayer>,
            >(v@),
            Err(e) => spec_version_number(settings.version_number, release.tag_name@) == Err::<
                Seq<char>,
                Seq<ErrLayer>,
            >(e@),
        },
{
    match &settings.version_number {
        None => Ok(release.tag_name.clone()),
        Some(t) => {
            let template = match Template::parse(t.as_str()) {
                Ok(template) => template,
                Err(e) => {
                    return Err(e.and_then("Could not compute Modrinth version number"));
                },
            };
            let mut table = VarTable::new();
            table.add("tag", release.tag_name.as_str());
            proof {
                assert(table.entries@.take(0) =~= Seq::<(String, String)>::empty());
                assert(table.entries@.drop_first() =~= Seq::<(String, String)>::empty());
                assert forall|n: Seq<char>| #[trigger] table.spec_lookup(n) == tag_lookup(
                    release.tag_name@,
                )(n) by {
                    let e = table.entries@;
                    assert(tag_lookup(release.tag_name@)(n) == (if n == "tag"@ {
                        Some(release.tag_name@)
                    } else {
                        None
                    }));
                    if e[0].0@ == n {
                        assert(table.spec_lookup(n) == Some(e[0].1@));
                    } else {
                        assert(crate::template::table_lookup(e.drop_first(), n) is None);
                    }
                }
            }
            match template.resolve(&table) {
                Ok(out) => {
                    proof {
                        lemma_resolve_same_lookup(
                            template@,
                            |n: Seq<char>| table.spec_lookup(n),
                            tag_lookup(release.tag_name@),
                        );
                    }
                    Ok(out)
                },
                Err(e) => {
                    proof {
                        lemma_resolve_same_lookup(
                            template@,
                            |n: Seq<char>| table.spec_lookup(n),
                            tag_lookup(release.tag_name@),
                        );
                    }
                    Err(e.and_then("Could not compute Modrinth version number"))
                },
            }
        },
    }
}

/// A copy of a vector of dependencies, value for value.
#[verifier::loop_isolation(false)]
fn clone_dependencies(v: &Vec<Dependency>) -> (r: Vec<Dependency>)
    ensures
        r@ == v@,
{
    let mut r: Vec<Dependency> = Vec::new();
    let mut i: usize = 0;
    while i < v.len()
        invariant
            i <= v@.len(),
            r@ == v@.take(i as int),
        decreases v@.len() - i,
    {
        let d = &v[i];
        r.push(
            Dependency {
                dependency_type: d.dependency_type,
                file_name: clone_opt_string(&d.file_name),
                project_id: clone_opt_string(&d.project_id),
                version_id: clone_opt_string(&d.version_id),
            },
        );
        i = i + 1;
        proof {
            assert(r@ =~= v@.take(i as int));
        }
    }
    proof {
        assert(r@ =~= v@);
    }
    r
}

/// Assembles the payload creating one Modrinth version.  `assets` is the
/// already-filtered asset list, first asset first; its first entry names
/// the primary file.
#[verifier::loop_isolation(false)]
pub fn build_create_version_data(
    config: &Config,
    project: &Project,
    release: &Release,
    settings: &ModrinthSettings,
    assets: &Vec<Asset>,
) -> (r: Result<CreateVersionData, MuError>)
    requires
        assets@.len() > 0,
    ensures
        r is Ok <==> (spec_version_number(settings.version_number, release.tag_name@) is Ok
            && or_config(project.game_versions, config.game_versions) is Some && or_config(
            project.loaders,
            config.loaders,
        ) is Some),
        match r {
            Ok(data) => {
                &&& spec_version_number(settings.version_number, release.tag_name@) matches Ok(vn)
                    && data.version_number@ == vn
                &&& or_config(project.game_versions, config.game_versions) matches Some(gv)
                    && data.game_versions@ == gv@
                &&& or_config(project.loaders, config.loaders) matches Some(ls)
                    && data.loaders@.map_values(|s: String| s@) == ls@.map_values(
                    |l: Loader| l.spec_modrinth_id(),
                )
                &&& data.name@ == (match release.name {
                    Some(n) => n@,
                    None => release.tag_name@,
                })
                &&& data.changelog == release.body
                &&& data.dependencies@ == (match settings.dependencies {
                    Some(d) => d@,
                    None => Seq::<Dependency>::empty(),
                })
                &&& data.version_type == spec_release_level(*config, *release).spec_as_modrinth()
                &&& data.featured == false
                &&& data.project_id@ == settings.project_id@
                &&& data.file_parts@.map_values(|s: String| s@) == assets@.map_values(
                    |a: Asset| a.name@,
                )
                &&& data.primary_file@ == assets@[0].name@
            },
            Err(e) => {
                ||| spec_version_number(settings.version_number, release.tag_name@) matches Err(d)
                    && e@ == d
                ||| (spec_version_number(settings.version_number, release.tag_name@) is Ok
                    && or_config(project.game_versions, config.game_versions) is None && e@ == seq![
                    ErrLayer {
                        msg: "No game versions defined!"@,
                        source: None,
                        span: None,
                        help: None,
                    },
                ])
                ||| (spec_version_number(settings.version_number, release.tag_name@) is Ok
                    && or_config(project.game_versions, config.game_versions) is Some && or_config(
                    project.loaders,
                    config.loaders,
                ) is None && e@ == seq![
                    ErrLayer { msg: "No loaders defined!"@, source: None, span: None, help: None },
                ])
            },
        },
{
    let version_number = match resolve_version_number(settings, release) {
        Ok(v) => v,
        Err(e) => {
            return Err(e);
        },
    };
    let game_versions = match project.get_game_versions(config) {
        Ok(v) => v,
        Err(e) => {
            return Err(e);
        },
    };
    let loader_values = match project.get_loaders(config) {
        Ok(v) => v,
        Err(e) => {
            return Err(e);
        },
    };

    let mut loaders: Vec<String> = Vec::new();
    let mut i: usize = 0;
    while i < loader_values.len()
        invariant
            i <= loader_values@.len(),
            loaders@.len() == i,
            forall|k: int| 0 <= k < i ==> loaders@[k]@ == loader_values@[k].spec_modrinth_id(),
        decreases loader_values@.len() - i,
    {
        loaders.push(loader_values[i].modrinth_id().to_owned());
        i = i + 1;
    }

    let mut file_parts: Vec<String> = Vec::new();
    let mut j: usize = 0;
    while j < assets.len()
        invariant
            j <= assets@.len(),
            file_parts@.len() == j,
            forall|k: int| 0 <= k < j ==> file_parts@[k]@ == assets@[k].name@,
        decreases assets@.len() - j,
    {
        file_parts.push(assets[j].name.clone());
        j = j + 1;
    }

    let name = match &release.name {
        Some(n) => n.clone(),
        None => release.tag_name.clone(),
    };
    let dependencies = match &settings.dependencies {
        Some(d) => clone_dependencies(d),
        None => Vec::new(),
    };
    proof {
        if settings.dependencies is None {
            assert(dependencies@ =~= Seq::<Dependency>::empty());
        }
    }
    let primary_file = assets[0].name.clone();
    let data = CreateVersionData {
        name,
        version_number,
        changelog: clone_opt_string(&release.body),
        dependencies,
        game_versions,
        version_type: ReleaseLevel::get(config, release).as_modrinth(),
        loaders,
        featured: false,
        project_id: settings.project_id.clone(),
        file_parts,
        primary_file,
    };
    proof {
        assert(data.loaders@.map_values(|s: String| s@) =~= loader_values@.map_values(
            |l: Loader| l.spec_modrinth_id(),
        ));
        assert(data.file_parts@.map_values(|s: String| s@) =~= assets@.map_values(
            |a: Asset| a.name@,
        ));
    }
    Ok(data)
}

/// The endpoint a new version is created at.
pub fn create_version_url() -> (r: String)
    ensures
        r@ == API_URL@ + "/version"@,
{
    let mut u = API_URL.to_owned();
    u.append("/version");
    u
}

/// The public page of an uploaded version, shown after a successful
/// upload; the project is named by its slug, or by its id when no slug is
/// configured.
pub fn version_link(slug_or_id: &str, version_number: &str) -> (r: String)
    ensures
        r@ == "https://modrinth.com/mod/"@ + slug_or_id@ + "/version/"@ + version_number@,
{
    let mut u = "https://modrinth.com/mod/".to_owned();
    u.append(slug_or_id);
    u.append("/version/");
    u.append(version_number);
    u
}

} // verus!
