use bytes::Bytes;
use mirror_upload::config::{Config, CurseForgeSettings, Loader, ModrinthSettings, Project};
use mirror_upload::curseforge::{
    allowed_game_version_type_ids, build_upload_file_data, game_version_ids, upload_url,
    upload_version_names, file_link, GameVersion, GameVersionType, GameVersionTypes, GameVersions,
    ProjectRelation, RelationType, ReleaseType,
};
use mirror_upload::error::MuError;
use mirror_upload::github::{Asset, GetReleaseByTagName, Release};
use mirror_upload::modrinth::{
    build_create_version_data, create_version_url, resolve_version_number, version_link,
    VersionType,
};
use mirror_upload::pattern::FileRegex;

fn config() -> Config {
    Config {
        github: "octo/mirror".to_string(),
        loaders: Some(vec![Loader::Fabric, Loader::Quilt]),
        curseforge: None,
        modrinth: None,
        projects: None,
        game_versions: Some(vec!["1.19.4".to_string(), "1.20".to_string()]),
        file_regex: None,
        release_level: None,
    }
}

fn release() -> Release {
    Release {
        tag_name: "2.3.4".to_string(),
        name: Some("The Update".to_string()),
        body: Some("notes".to_string()),
        prerelease: false,
        assets: vec![
            Asset {
                url: "https://example.invalid/a".to_string(),
                name: "mod-2.3.4.jar".to_string(),
            },
            Asset {
                url: "https://example.invalid/b".to_string(),
                name: "mod-2.3.4-sources.jar".to_string(),
            },
            Asset {
                url: "https://example.invalid/c".to_string(),
                name: "changelog.txt".to_string(),
            },
        ],
    }
}

fn modrinth_settings(version_number: Option<&str>) -> ModrinthSettings {
    ModrinthSettings {
        project_id: "AABBCCDD".to_string(),
        dependencies: None,
        version_number: version_number.map(|s| s.to_string()),
        slug: Some("mirror-mod".to_string()),
    }
}

#[test]
fn assets_are_filtered_by_the_file_regex() {
    let filter = Some(FileRegex::new("\\.jar$").unwrap());
    let kept = release().get_assets(&filter);
    let names: Vec<&str> = kept.iter().map(|a| a.name.as_str()).collect();
    assert_eq!(names, vec!["mod-2.3.4.jar", "mod-2.3.4-sources.jar"]);
}

#[test]
fn without_filter_every_asset_is_kept() {
    assert_eq!(release().get_assets(&None).len(), 3);
}

#[test]
fn version_number_defaults_to_the_tag() {
    let v = resolve_version_number(&modrinth_settings(None), &release()).unwrap();
    assert_eq!(v, "2.3.4");
}

#[test]
fn version_number_template_resolves_the_tag() {
    let v = resolve_version_number(&modrinth_settings(Some("v${ tag }+fabric")), &release())
        .unwrap();
    assert_eq!(v, "v2.3.4+fabric");
}

#[test]
fn version_number_template_failure_is_wrapped() {
    let err =
        resolve_version_number(&modrinth_settings(Some("$nope")), &release()).unwrap_err();
    assert_eq!(err.msg, "Could not compute Modrinth version number");
    let cause = err.cause.as_deref().unwrap();
    assert_eq!(cause.msg, "Could not resolve variable 'nope' in template");
}

#[test]
fn create_version_data_is_assembled_from_the_release() {
    let cfg = config();
    let project = Project::empty();
    let settings = modrinth_settings(Some("$tag"));
    let assets = release().get_assets(&Some(FileRegex::new("\\.jar$").unwrap()));
    let data =
        build_create_version_data(&cfg, &project, &release(), &settings, &assets).unwrap();
    assert_eq!(data.name, "The Update");
    assert_eq!(data.version_number, "2.3.4");
    assert_eq!(data.changelog.as_deref(), Some("notes"));
    assert!(data.dependencies.is_empty());
    assert_eq!(data.game_versions, vec!["1.19.4", "1.20"]);
    assert_eq!(data.version_type, VersionType::Release);
    assert_eq!(data.loaders, vec!["fabric", "quilt"]);
    assert!(!data.featured);
    assert_eq!(data.project_id, "AABBCCDD");
    assert_eq!(
        data.file_parts,
        vec!["mod-2.3.4.jar", "mod-2.3.4-sources.jar"]
    );
    assert_eq!(data.primary_file, "mod-2.3.4.jar");
}

#[test]
fn create_version_data_needs_game_versions() {
    let mut cfg = config();
    cfg.game_versions = None;
    let assets = vec![Asset {
        url: "u".to_string(),
        name: "a.jar".to_string(),
    }];
    let err = build_create_version_data(
        &cfg,
        &Project::empty(),
        &release(),
        &modrinth_settings(None),
        &assets,
    )
    .unwrap_err();
    assert_eq!(err.msg, "No game versions defined!");
}

#[test]
fn allowed_version_types_keep_game_java_and_modloader() {
    let types = vec![
        GameVersionType { id: 1, slug: "minecraft-1-19".to_string() },
        GameVersionType { id: 2, slug: "java".to_string() },
        GameVersionType { id: 3, slug: "addons".to_string() },
        GameVersionType { id: 4, slug: "modloader".to_string() },
    ];
    assert_eq!(allowed_game_version_type_ids(&types), vec![1, 2, 4]);
}

#[test]
fn game_version_ids_filter_by_type_and_name() {
    let versions = vec![
        GameVersion { id: 10, name: "1.19.4".to_string(), game_version_type_id: 1 },
        GameVersion { id: 11, name: "1.19.4".to_string(), game_version_type_id: 9 },
        GameVersion { id: 12, name: "1.18".to_string(), game_version_type_id: 1 },
        GameVersion { id: 13, name: "Fabric".to_string(), game_version_type_id: 2 },
    ];
    let allowed = vec![1, 2];
    let names = vec!["1.19.4".to_string(), "Fabric".to_string()];
    assert_eq!(game_version_ids(&versions, &allowed, &names), vec![10, 13]);
}

#[test]
fn upload_version_names_append_loader_names() {
    let names = upload_version_names(&Project::empty(), &config()).unwrap();
    assert_eq!(names, vec!["1.19.4", "1.20", "Fabric", "Quilt"]);
}

#[test]
fn upload_file_data_is_assembled_from_the_release() {
    let cfg = config();
    let settings = CurseForgeSettings {
        project_id: 4242,
        relations: Some(vec![ProjectRelation {
            slug: "some-lib".to_string(),
            relation_type: RelationType::RequiredDependency,
        }]),
        slug: None,
    };
    let data = build_upload_file_data(&cfg, &release(), &settings, Some(99), &vec![10, 13]);
    assert_eq!(data.changelog, "notes");
    assert_eq!(data.changelog_type, "markdown");
    assert_eq!(data.display_name.as_deref(), Some("The Update"));
    assert_eq!(data.parent_file_id, Some(99));
    assert_eq!(data.game_versions, vec![10, 13]);
    assert_eq!(data.release_type, ReleaseType::Release);
    assert_eq!(data.relations.projects.len(), 1);
    assert_eq!(data.relations.projects[0].slug, "some-lib");
}

#[test]
fn relation_type_defaults_to_required() {
    assert_eq!(RelationType::default(), RelationType::RequiredDependency);
}

#[test]
fn endpoint_texts() {
    assert_eq!(
        GameVersionTypes::url(),
        "https://minecraft.curseforge.com/api/game/version-types"
    );
    assert_eq!(
        GameVersions::url(),
        "https://minecraft.curseforge.com/api/game/versions"
    );
    assert_eq!(
        upload_url(4242),
        "https://minecraft.curseforge.com/api/projects/4242/upload-file"
    );
    assert_eq!(
        create_version_url(),
        "https://api.modrinth.com/v2/version"
    );
    assert_eq!(
        file_link("mirror-mod", 31337),
        "https://curseforge.com/minecraft/mc-mods/mirror-mod/files/31337"
    );
    assert_eq!(
        version_link("mirror-mod", "v2.3.4"),
        "https://modrinth.com/mod/mirror-mod/version/v2.3.4"
    );
    let request = GetReleaseByTagName {
        owner: "octo".to_string(),
        repo: "mirror".to_string(),
        tag: "2.3.4".to_string(),
    };
    assert_eq!(
        request.url(),
        "https://api.github.com/repos/octo/mirror/releases/tags/2.3.4"
    );
}

#[test]
fn error_builder_layers_context() {
    let inner = MuError::new("inner").source_code("abc".to_string());
    let outer = inner.and_then("outer");
    assert_eq!(outer.msg, "outer");
    assert_eq!(outer.source_code.as_deref(), Some("abc"));
    let cause = outer.cause.as_deref().unwrap();
    assert_eq!(cause.msg, "inner");
    assert!(cause.cause.is_none());
}

#[test]
fn error_builder_sets_help() {
    let e = MuError::new("m").help("try this".to_string());
    assert_eq!(e.help.as_deref(), Some("try this"));
    let e = e.help(None);
    assert!(e.help.is_none());
}

#[test]
fn file_field_carries_downloaded_bytes() {
    // the path an asset takes: raw bytes into a form field, then out
    let mut form = mirror_upload::multipart::Form::new();
    form.file("file", "mod-2.3.4.jar", Bytes::from_static(b"\x50\x4b\x03\x04"));
    let body = form.bytes();
    let needle: &[u8] = b"\x50\x4b\x03\x04\r\n";
    assert!(body.as_ref().windows(needle.len()).any(|w| w == needle));
}
