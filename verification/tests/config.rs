use mirror_upload::config::{
    secrets_source, Config, CurseForgeSettings, Loader, ModrinthSettings, Project, ReleaseLevel,
    SecretsSource,
};
use mirror_upload::curseforge::ReleaseType;
use mirror_upload::github::{Release, Repo};
use mirror_upload::modrinth::VersionType;
use mirror_upload::pattern::FileRegex;

fn empty_config() -> Config {
    Config {
        github: "owner/repo".to_string(),
        loaders: None,
        curseforge: None,
        modrinth: None,
        projects: None,
        game_versions: None,
        file_regex: None,
        release_level: None,
    }
}

fn release(prerelease: bool) -> Release {
    Release {
        tag_name: "1.0.0".to_string(),
        name: None,
        body: None,
        prerelease,
        assets: Vec::new(),
    }
}

#[test]
fn empty_project_has_no_settings() {
    let p = Project::empty();
    assert!(p.loaders.is_none());
    assert!(p.curseforge.is_none());
    assert!(p.modrinth.is_none());
    assert!(p.game_versions.is_none());
    assert!(p.file_regex.is_none());
}

#[test]
fn project_game_versions_shadow_config() {
    let mut config = empty_config();
    config.game_versions = Some(vec!["1.19".to_string()]);
    let mut project = Project::empty();
    assert_eq!(
        project.get_game_versions(&config).unwrap(),
        vec!["1.19".to_string()]
    );
    project.game_versions = Some(vec!["1.20".to_string()]);
    assert_eq!(
        project.get_game_versions(&config).unwrap(),
        vec!["1.20".to_string()]
    );
}

#[test]
fn missing_game_versions_is_an_error() {
    let err = Project::empty()
        .get_game_versions(&empty_config())
        .unwrap_err();
    assert_eq!(err.msg, "No game versions defined!");
}

#[test]
fn missing_loaders_is_an_error() {
    let err = Project::empty().get_loaders(&empty_config()).unwrap_err();
    assert_eq!(err.msg, "No loaders defined!");
}

#[test]
fn project_loaders_shadow_config() {
    let mut config = empty_config();
    config.loaders = Some(vec![Loader::Forge]);
    let loaders = Project::empty().get_loaders(&config).unwrap();
    assert!(matches!(loaders.as_slice(), [Loader::Forge]));
}

#[test]
fn modrinth_settings_fall_back_to_config() {
    let mut config = empty_config();
    config.modrinth = Some(ModrinthSettings {
        project_id: "abc".to_string(),
        dependencies: None,
        version_number: None,
        slug: None,
    });
    let project = Project::empty();
    assert_eq!(project.get_modrinth(&config).unwrap().project_id, "abc");
    assert!(project.get_curseforge(&config).is_none());
}

#[test]
fn curseforge_settings_fall_back_to_config() {
    let mut config = empty_config();
    config.curseforge = Some(CurseForgeSettings {
        project_id: 77,
        relations: None,
        slug: None,
    });
    assert_eq!(
        Project::empty().get_curseforge(&config).unwrap().project_id,
        77
    );
}

#[test]
fn release_level_prefers_configuration() {
    let mut config = empty_config();
    config.release_level = Some(ReleaseLevel::Alpha);
    assert!(matches!(
        ReleaseLevel::get(&config, &release(false)),
        ReleaseLevel::Alpha
    ));
}

#[test]
fn prerelease_defaults_to_beta() {
    let config = empty_config();
    assert!(matches!(
        ReleaseLevel::get(&config, &release(true)),
        ReleaseLevel::Beta
    ));
    assert!(matches!(
        ReleaseLevel::get(&config, &release(false)),
        ReleaseLevel::Release
    ));
}

#[test]
fn release_levels_map_to_service_terms() {
    assert_eq!(ReleaseLevel::Release.as_curseforge(), ReleaseType::Release);
    assert_eq!(ReleaseLevel::Beta.as_curseforge(), ReleaseType::Beta);
    assert_eq!(ReleaseLevel::Alpha.as_curseforge(), ReleaseType::Alpha);
    assert_eq!(ReleaseLevel::Release.as_modrinth(), VersionType::Release);
    assert_eq!(ReleaseLevel::Beta.as_modrinth(), VersionType::Beta);
    assert_eq!(ReleaseLevel::Alpha.as_modrinth(), VersionType::Alpha);
}

#[test]
fn loader_names() {
    assert_eq!(Loader::values().len(), 3);
    assert_eq!(Loader::Fabric.modrinth_id(), "fabric");
    assert_eq!(Loader::Forge.modrinth_id(), "forge");
    assert_eq!(Loader::Quilt.modrinth_id(), "quilt");
    assert_eq!(Loader::Fabric.curseforge_name(), "Fabric");
    assert_eq!(Loader::Forge.curseforge_name(), "Forge");
    assert_eq!(Loader::Quilt.curseforge_name(), "Quilt");
}

#[test]
fn secrets_source_decision() {
    assert_eq!(secrets_source(true, true, true), SecretsSource::FlagConflict);
    assert_eq!(secrets_source(true, false, false), SecretsSource::FileNotFound);
    assert_eq!(secrets_source(true, false, true), SecretsSource::SecretsFile);
    assert_eq!(secrets_source(false, true, true), SecretsSource::Environment);
    assert_eq!(secrets_source(false, false, false), SecretsSource::Environment);
    assert_eq!(secrets_source(false, false, true), SecretsSource::SecretsFile);
}

#[test]
fn repo_parse_splits_at_first_slash() {
    let repo = Repo::parse("octo/mirror").unwrap();
    assert_eq!(repo.owner, "octo");
    assert_eq!(repo.name, "mirror");
    let repo = Repo::parse("a/b/c").unwrap();
    assert_eq!(repo.owner, "a");
    assert_eq!(repo.name, "b/c");
    let repo = Repo::parse("/x").unwrap();
    assert_eq!(repo.owner, "");
    assert_eq!(repo.name, "x");
}

#[test]
fn repo_parse_rejects_missing_slash() {
    let err = Repo::parse("nodash").unwrap_err();
    assert_eq!(
        err.msg,
        "Expected GitHub repository name in the format 'owner/repo', found nodash"
    );
}

#[test]
fn get_regex_compiles_the_effective_pattern() {
    let mut config = empty_config();
    config.file_regex = Some(".*\\.jar".to_string());
    let filter = Project::empty().get_regex(&config).unwrap().unwrap();
    assert!(filter.is_match("mod-1.0.jar"));
    assert!(!filter.is_match("mod-1.0.txt"));
}

#[test]
fn get_regex_without_pattern_is_none() {
    assert!(Project::empty()
        .get_regex(&empty_config())
        .unwrap()
        .is_none());
}

#[test]
fn get_regex_reports_a_bad_pattern() {
    let mut config = empty_config();
    config.file_regex = Some("(".to_string());
    assert!(Project::empty().get_regex(&config).is_err());
    assert!(FileRegex::new("(").is_err());
}
