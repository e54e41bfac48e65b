//! The CurseForge side: the data model of its upload API and the pure
//! computations behind an upload — which game version types and versions an
//! upload may name, the upload metadata, and the endpoint and link texts.
//! The HTTP calls themselves live outside the library and consume these
//! values.

use vstd::prelude::*;

verus! {

use crate::chars::clone_copy_vec;
use crate::chars::clone_opt_string;
use crate::chars::dec_chars;
use crate::chars::push_dec_u32;
use crate::chars::spec_starts_with;
use crate::chars::str_eq;
use crate::chars::str_starts_with;
use crate::config::or_config;
use crate::config::spec_release_level;
use crate::config::Config;
use crate::config::CurseForgeSettings;
use crate::config::Project;
use crate::config::ReleaseLevel;
use crate::error::ErrLayer;
use crate::error::MuError;
use crate::github::Release;

/// The base of every CurseForge API endpoint.
pub const API_URL: &'static str = "https://minecraft.curseforge.com/api";

/// How a CurseForge file release is staged.
#[derive(Clone, Copy, PartialEq, Eq, Structural, Debug)]
pub enum ReleaseType {
    Release,
    Beta,
    Alpha,
}

/// One axis of game versions (the game itself, java, modloader, ...).
pub struct GameVersionType {
    pub id: u32,
    pub slug: String,
}

/// One version on some axis, tied to its axis by `game_version_type_id`.
pub struct GameVersion {
    pub id: u32,
    pub name: String,
    pub game_version_type_id: u32,
}

/// The project relations attached to an upload.
pub struct Relations {
    pub projects: Vec<ProjectRelation>,
}

/// A relation to another project, by its slug.
#[derive(Clone)]
pub struct ProjectRelation {
    pub slug: String,
    pub relation_type: RelationType,
}

/// How a related project is related.
#[derive(Clone, Copy, PartialEq, Eq, Structural, Debug)]
pub enum RelationType {
    EmbeddedLibrary,
    Incompatible,
    OptionalDependency,
    RequiredDependency,
    Tool,
}

impl Default for RelationType {
    fn default() -> (r: Self)
        ensures
            r == RelationType::RequiredDependency,
    {
        RelationType::RequiredDependency
    }
}

/// Names the request for the list of game version types.
pub struct GameVersionTypes;

impl GameVersionTypes {
    /// The endpoint listing the game version types.
    pub fn url() -> (r: String)
        ensures
            r@ == API_URL@ + "/game/version-types"@,
    {
        let mut u = API_URL.to_owned();
        u.append("/game/version-types");
        u
    }
}

/// Names the request for the list of game versions.
pub struct GameVersions;

impl GameVersions {
    /// The endpoint listing the game versions.
    pub fn url() -> (r: String)
        ensures
            r@ == API_URL@ + "/game/versions"@,
    {
        let mut u = API_URL.to_owned();
        u.append("/game/versions");
        u
    }
}

/// Whether an upload may name versions of this type: the game's own
/// version axes plus the java and modloader axes.
pub open spec fn allowed_version_type(t: GameVersionType) -> bool {
    spec_starts_with(t.slug@, "minecraft-"@) || t.slug@ == "java"@ || t.slug@ == "modloader"@
}

/// The ids of the allowed version types, in order.
pub open spec fn allowed_version_type_ids(ts: Seq<GameVersionType>) -> Seq<u32>
    decreases ts.len(),
{
    if ts.len() == 0 {
        Seq::empty()
    } else {
        (if allowed_version_type(ts[0]) {
            seq![ts[0].id]
        } else {
            Seq::empty()
        }) + allowed_version_type_ids(ts.drop_first())
    }
}

proof fn lemma_allowed_ids_append(a: Seq<GameVersionType>, b: Seq<GameVersionType>)
    ensures
        allowed_version_type_ids(a + b) == allowed_version_type_ids(a) + allowed_version_type_ids(
            b,
        ),
    decreases a.len(),
{
    if a.len() == 0 {
        assert(a + b =~= b);
        assert(allowed_version_type_ids(a) + allowed_version_type_ids(b)
            =~= allowed_version_type_ids(b));
    } else {
        assert((a + b).drop_first() =~= a.drop_first() + b);
        lemma_allowed_ids_append(a.drop_first(), b);
        assert(allowed_version_type_ids(a + b) =~= allowed_version_type_ids(a)
            + allowed_version_type_ids(b));
    }
}

/// Keeps the ids of the version types an upload may reference.
#[verifier::loop_isolation(false)]
pub fn allowed_game_version_type_ids(types: &Vec<GameVersionType>) -> (r: Vec<u32>)
    ensures
        r@ == allowed_version_type_ids(types@),
{
    let mut r: Vec<u32> = Vec::new();
    let mut i: usize = 0;
    proof {
        assert(r@ =~= allowed_version_type_ids(types@.take(0)));
    }
    while i < types.len()
        invariant
            i <= types@.len(),
            r@ == allowed_version_type_ids(types@.take(i as int)),
        decreases types@.len() - i,
    {
        let t = &types[i];
        if str_starts_with(t.slug.as_str(), "minecraft-") || str_eq(t.slug.as_str(), "java")
            || str_eq(t.slug.as_str(), "modloader") {
            r.push(t.id);
        }
        i = i + 1;
        proof {
            let ghost pre = types@.take(i - 1);
            let ghost one = seq![types@[i - 1]];
            assert(types@.take(i as int) =~= pre + one);
            lemma_allowed_ids_append(pre, one);
            assert(one.drop_first() =~= Seq::<GameVersionType>::empty());
            assert(allowed_version_type_ids(Seq::<GameVersionType>::empty())
                =~= Seq::<u32>::empty());
            assert(r@ =~= allowed_version_type_ids(types@.take(i as int)));
        }
    }
    proof {
        assert(types@.take(types@.len() as int) =~= types@);
    }
    r
}

/// Whether some entry of `names` reads `n`.
pub open spec fn contains_name(names: Seq<String>, n: Seq<char>) -> bool {
    exists|i: int| 0 <= i < names.len() && names[i]@ == n
}

/// Whether an upload keeps this game version: its type is allowed and its
/// name is asked for.
pub open spec fn version_kept(v: GameVersion, allowed: Seq<u32>, names: Seq<String>) -> bool {
    allowed.contains(v.game_version_type_id) && contains_name(names, v.name@)
}

/// The ids of the kept game versions, in order.
pub open spec fn kept_version_ids(
    vs: Seq<GameVersion>,
    allowed: Seq<u32>,
    names: Seq<String>,
) -> Seq<u32>
    decreases vs.len(),
{
    if vs.len() == 0 {
        Seq::empty()
    } else {
        (if version_kept(vs[0], allowed, names) {
            seq![vs[0].id]
        } else {
            Seq::empty()
        }) + kept_version_ids(vs.drop_first(), allowed, names)
    }
}

proof fn lemma_kept_ids_append(
    a: Seq<GameVersion>,
    b: Seq<GameVersion>,
    allowed: Seq<u32>,
    names: Seq<String>,
)
    ensures
        kept_version_ids(a + b, allowed, names) == kept_version_ids(a, allowed, names)
            + kept_version_ids(b, allowed, names),
    decreases a.len(),
{
    if a.len() == 0 {
        assert(a + b =~= b);
        assert(kept_version_ids(a, allowed, names) + kept_version_ids(b, allowed, names)
            =~= kept_version_ids(b, allowed, names));
    } else {
        assert((a + b).drop_first() =~= a.drop_first() + b);
        lemma_kept_ids_append(a.drop_first(), b, allowed, names);
        assert(kept_version_ids(a + b, allowed, names) =~= kept_version_ids(a, allowed, names)
            + kept_version_ids(b, allowed, names));
    }
}

/// Whether `v` holds `x`.
#[verifier::loop_isolation(false)]
fn contains_u32(v: &Vec<u32>, x: u32) -> (r: bool)
    ensures
        r == v@.contains(x),
{
    let mut i: usize = 0;
    while i < v.len()
        invariant
            i <= v@.len(),
            forall|k: int| 0 <= k < i ==> v@[k] != x,
        decreases v@.len() - i,
    {
        if v[i] == x {
            return true;
        }
        i = i + 1;
    }
    false
}

/// Whether some entry of `names` reads `s`.
#[verifier::loop_isolation(false)]
fn contains_string(names: &Vec<String>, s: &str) -> (r: bool)
    ensures
        r == contains_name(names@, s@),
{
    let mut i: usize = 0;
    while i < names.len()
        invariant
            i <= names@.len(),
            forall|k: int| 0 <= k < i ==> names@[k]@ != s@,
        decreases names@.len() - i,
    {
        if str_eq(names[i].as_str(), s) {
            return true;
        }
        i = i + 1;
    }
    false
}

/// The ids of the game versions whose type is allowed and whose name the
/// project asks for.
#[verifier::loop_isolation(false)]
pub fn game_version_ids(versions: &Vec<GameVersion>, allowed: &Vec<u32>, names: &Vec<String>) -> (r:
    Vec<u32>)
    ensures
        r@ == kept_version_ids(versions@, allowed@, names@),
{
    let mut r: Vec<u32> = Vec::new();
    let mut i: usize = 0;
    proof {
        assert(r@ =~= kept_version_ids(versions@.take(0), allowed@, names@));
    }
    while i < versions.len()
        invariant
            i <= versions@.len(),
            r@ == kept_version_ids(versions@.take(i as int), allowed@, names@),
        decreases versions@.len() - i,
    {
        let v = &versions[i];
        if contains_u32(allowed, v.game_version_type_id) && contains_string(names, v.name.as_str())
        {
            r.push(v.id);
        }
        i = i + 1;
        proof {
            let ghost pre = versions@.take(i - 1);
            let ghost one = seq![versions@[i - 1]];
            assert(versions@.take(i as int) =~= pre + one);
            lemma_kept_ids_append(pre, one, allowed@, names@);
            assert(one.drop_first() =~= Seq::<GameVersion>::empty());
            assert(kept_version_ids(Seq::<GameVersion>::empty(), allowed@, names@)
                =~= Seq::<u32>::empty());
            assert(r@ =~= kept_version_ids(versions@.take(i as int), allowed@, names@));
        }
    }
    proof {
        assert(versions@.take(versions@.len() as int) =~= versions@);
    }
    r
}

/// The version names an upload asks CurseForge for: the project's game
/// versions followed by each target loader's name.
#[verifier::loop_isolation(false)]
pub fn upload_version_names(project: &Project, config: &Config) -> (r: Result<Vec<String>, MuError>)
    ensures
        match r {
            Ok(v) => {
                &&& or_config(project.game_versions, config.game_versions) matches Some(gv)
                    && or_config(project.loaders, config.loaders) matches Some(ls)
                    && v@.map_values(|s: String| s@) == gv@.map_values(|s: String| s@)
                    + ls@.map_values(|l: crate::config::Loader| l.spec_curseforge_name())
            },
            Err(e) => {
                ||| (or_config(project.game_versions, config.game_versions) is None && e@ == seq![
                    ErrLayer {
                        msg: "No game versions defined!"@,
                        source: None,
                        span: None,
                        help: None,
                    },
                ])
                ||| (or_config(project.game_versions, config.game_versions) is Some && or_config(
                    project.loaders,
                    config.loaders,
                ) is None && e@ == seq![
                    ErrLayer { msg: "No loaders defined!"@, source: None, span: None, help: None },
                ])
            },
        },
{
    let mut names = match project.get_game_versions(config) {
        Ok(v) => v,
        Err(e) => {
            return Err(e);
        },
    };
    let loaders = match project.get_loaders(config) {
        Ok(v) => v,
        Err(e) => {
            return Err(e);
        },
    };
    let ghost gv_views = names@.map_values(|s: String| s@);
    let ghost loader_views = loaders@.map_values(|l: crate::config::Loader| l.spec_curseforge_name());
    let mut i: usize = 0;
    while i < loaders.len()
        invariant
            i <= loaders@.len(),
            names@.len() == gv_views.len() + i,
            forall|k: int| 0 <= k < gv_views.len() ==> names@[k]@ == gv_views[k],
            forall|k: int|
                0 <= k < i ==> names@[gv_views.len() + k]@ == loaders@[k].spec_curseforge_name(),
        decreases loaders@.len() - i,
    {
        names.push(loaders[i].curseforge_name().to_owned());
        i = i + 1;
    }
    proof {
        assert(names@.map_values(|s: String| s@) =~= gv_views + loader_views);
    }
    Ok(names)
}

/// The metadata sent along with one uploaded file.
pub struct ProjectUploadFileData {
    pub changelog: String,
    pub changelog_type: &'static str,
    pub display_name: Option<String>,
    pub parent_file_id: Option<u32>,
    pub game_versions: Vec<u32>,
    pub release_type: ReleaseType,
    pub relations: Relations,
}

/// What CurseForge answers an upload with.
pub struct ProjectUploadFileResponse {
    pub id: u32,
}

/// A copy of a vector of project relations, value for value.
#[verifier::loop_isolation(false)]
fn clone_relations(v: &Vec<ProjectRelation>) -> (r: Vec<ProjectRelation>)
    ensures
        r@ == v@,
{
    let mut r: Vec<ProjectRelation> = Vec::new();
    let mut i: usize = 0;
    while i < v.len()
        invariant
            i <= v@.len(),
            r@ == v@.take(i as int),
        decreases v@.len() - i,
    {
        let p = &v[i];
        r.push(ProjectRelation { slug: p.slug.clone(), relation_type: p.relation_type });
        i = i + 1;
        proof {
            assert(r@ =~= v@.take(i as int));
        }
    }
    proof {
        assert(r@ =~= v@);
    }
    r
}

/// Assembles the metadata of one CurseForge file upload: the release notes
/// as changelog, the release's display name, the ids of the game versions
/// asked for, the staged release type, and the settings' relations.
pub fn build_upload_file_data(
    config: &Config,
    release: &Release,
    settings: &CurseForgeSettings,
    parent_file_id: Option<u32>,
    game_versions: &Vec<u32>,
) -> (r: ProjectUploadFileData)
    ensures
        r.changelog@ == (match release.body {
            Some(b) => b@,
            None => Seq::<char>::empty(),
        }),
        r.changelog_type@ == "markdown"@,
        r.display_name == release.name,
        r.parent_file_id == parent_file_id,
        r.game_versions@ == game_versions@,
        r.release_type == spec_release_level(*config, *release).spec_as_curseforge(),
        r.relations.projects@ == (match settings.relations {
            Some(v) => v@,
            None => Seq::<ProjectRelation>::empty(),
        }),
{
    let changelog = match &release.body {
        Some(b) => b.clone(),
        None => String::new(),
    };
    let projects = match &settings.relations {
        Some(v) => clone_relations(v),
        None => Vec::new(),
    };
    proof {
        if settings.relations is None {
            assert(projects@ =~= Seq::<ProjectRelation>::empty());
        }
    }
    ProjectUploadFileData {
        changelog,
        changelog_type: "markdown",
        display_name: clone_opt_string(&release.name),
        parent_file_id,
        game_versions: clone_copy_vec(game_versions),
        release_type: ReleaseLevel::get(config, release).as_curseforge(),
        relations: Relations { projects },
    }
}

/// The endpoint one file upload goes to.
pub fn upload_url(project_id: u32) -> (r: String)
    ensures
        r@ == API_URL@ + "/projects/"@ + dec_chars(project_id as nat) + "/upload-file"@,
{
    let mut u = API_URL.to_owned();
    u.append("/projects/");
    push_dec_u32(&mut u, project_id);
    u.append("/upload-file");
    u
}

/// The public page of an uploaded file, shown after a successful upload.
pub fn file_link(slug: &str, file_id: u32) -> (r: String)
    ensures
        r@ == "https://curseforge.com/minecraft/mc-mods/"@ + slug@ + "/files/"@ + dec_chars(
            file_id as nat,
        ),
{
    let mut u = "https://curseforge.com/minecraft/mc-mods/".to_owned();
    u.append(slug);
    u.append("/files/");
    push_dec_u32(&mut u, file_id);
    u
}

} // verus!
