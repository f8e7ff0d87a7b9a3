use dhara_storage::repo::{next_version, parse_env_content, BumpError, SemanticVersion, VersionPart};
use dhara_storage::repo::{CiConfig, NuGetConfig, RepoConfig, VersionConfig};
use dhara_storage::repo::{check_config_fields, required_paths, VersionChannel};
use dhara_storage::repo::canonical_version;

fn get<'a>(entries: &'a [(String, String)], key: &str) -> Option<&'a String> {
    entries.iter().find(|(k, _)| k == key).map(|(_, v)| v)
}

#[test]
fn parses_env_content() {
    let parsed = parse_env_content(
        r#"
NUGET_API_KEY=
# comment
NUGET_SOURCE=https://api.nuget.org/v3/index.json
"#,
    )
    .expect("env parsing should succeed");

    assert_eq!(get(&parsed, "NUGET_API_KEY"), Some(&String::new()));
    assert_eq!(
        get(&parsed, "NUGET_SOURCE"),
        Some(&"https://api.nuget.org/v3/index.json".to_owned())
    );
}

#[test]
fn env_entries_are_ordered_and_later_lines_win() {
    let parsed = parse_env_content("B = 2\r\nA=1\nB=3 \n\n  # note\n").unwrap();
    assert_eq!(
        parsed,
        vec![
            ("A".to_string(), "1".to_string()),
            ("B".to_string(), "3".to_string())
        ]
    );
    assert_eq!(parse_env_content("").unwrap(), vec![]);
}

#[test]
fn env_line_without_equals_is_refused() {
    assert_eq!(
        parse_env_content("A=1\n\nnot an entry\nB=2"),
        Err("invalid env entry on line 3: expected KEY=VALUE".to_string())
    );
}

#[test]
fn versions_bump_by_part() {
    assert_eq!(next_version("2.0.0", VersionPart::Minor), Ok("2.1.0".to_string()));
    assert_eq!(next_version("2.3.4", VersionPart::Major), Ok("3.0.0".to_string()));
    assert_eq!(next_version("2.3.4", VersionPart::Patch), Ok("2.3.5".to_string()));
    assert_eq!(
        next_version("1.2.3-beta.1+build.5", VersionPart::Patch),
        Ok("1.2.4-beta.1+build.5".to_string())
    );
    assert_eq!(
        next_version("not-a-version", VersionPart::Patch),
        Err(BumpError::InvalidVersion { text: "not-a-version".to_string() })
    );
    assert_eq!(
        next_version("1.2.18446744073709551615", VersionPart::Patch),
        Err(BumpError::ComponentOverflow)
    );
}

#[test]
fn version_text_matches_semver_display() {
    let v = SemanticVersion::parse("10.20.30-rc.1+meta").unwrap();
    assert_eq!(v.major, 10);
    assert_eq!(v.pre, "rc.1");
    assert_eq!(v.to_text(), semver::Version::parse("10.20.30-rc.1+meta").unwrap().to_string());
}

fn sample_config() -> dhara_storage::repo::RepoConfig {
    RepoConfig {
        versions: VersionConfig {
            rust_workspace: "0.2.0".to_owned(),
            nuget_package: "2.0.0".to_owned(),
        },
        nuget: NuGetConfig {
            package_id: "Rheo.Storage".to_owned(),
            source: "https://api.nuget.org/v3/index.json".to_owned(),
            authors: vec!["Naveen Dharmathunga".to_owned()],
            description: "High-level .NET bindings for the native Rheo Storage Rust runtime."
                .to_owned(),
            tags: vec!["storage".to_owned(), "ffi".to_owned(), "rust".to_owned()],
            readme: "bindings/dotnet/Rheo.Storage/README.md".to_owned(),
            icon: Some("bindings/dotnet/Rheo.Storage/icon-small.png".to_owned()),
            repository_url: "https://github.com/D-Naveenz/rheo_storage".to_owned(),
            project_url: "https://github.com/D-Naveenz/rheo_storage".to_owned(),
        },
        ci: CiConfig {
            smoke_project:
                "bindings/dotnet/Rheo.Storage.ConsumerSmoke/Rheo.Storage.ConsumerSmoke.csproj"
                    .to_owned(),
            package_project: "bindings/dotnet/Rheo.Storage/Rheo.Storage.csproj".to_owned(),
            tests_project: "bindings/dotnet/Rheo.Storage.Tests/Rheo.Storage.Tests.csproj".to_owned(),
            environment: "nuget-production".to_owned(),
            runtime: "win-x64".to_owned(),
        },
    }
}

#[test]
fn config_fields_are_checked_in_order() {
    let mut config = sample_config();
    assert_eq!(check_config_fields(&config), Ok(()));
    let paths = required_paths(&config);
    assert_eq!(paths.len(), 8);
    assert_eq!(paths[0], "rheo.config.toml");
    assert_eq!(paths[6], "bindings/dotnet/Rheo.Storage/icon-small.png");
    assert_eq!(paths[7], ".env.example");

    config.nuget.tags.clear();
    config.nuget.package_id = "  ".to_owned();
    assert_eq!(
        check_config_fields(&config),
        Err("nuget.package_id must not be empty".to_string())
    );
    config.versions.set_version_of(VersionChannel::NuGet, "two".to_owned());
    assert_eq!(config.versions.version_of(VersionChannel::Rust), "0.2.0");
    assert_eq!(
        check_config_fields(&config),
        Err("invalid nuget package version: two".to_string())
    );
}

#[test]
fn canonical_versions() {
    assert_eq!(canonical_version("1.2.3"), Ok("1.2.3".to_string()));
    assert!(canonical_version("1.2").is_err());
}
