use assert_fs::prelude::{FileWriteStr, PathChild};
use assert_fs::TempDir;
use nmt::configurations::{Cli, Docker, Strategy};
use nmt::container_configurations::ContainerConfigurations;

#[test]
fn test_cli_default_is_empty() {
    let cli = Cli::default();
    assert_eq!(cli.project_root_location, "");
    assert!(cli.entry_point_location.is_empty());
    assert_eq!(cli.node_modules_location, "");
    assert!(!cli.dry_run);
    assert!(!cli.minify);
    assert!(cli.keep.is_none());
    assert_eq!(cli.strategy, Strategy::Static);
}

#[test]
fn test_keep_files_empty_without_patterns() {
    let cli = Cli::default();
    assert_eq!(cli.keep_files().unwrap(), Vec::<String>::new());
}

#[test]
fn test_keep_files_matches_only_files() {
    let temp = TempDir::new().unwrap();
    temp.child("a.js").write_str("x").unwrap();
    temp.child("b.js").write_str("x").unwrap();
    temp.child("sub.js/inner.txt").write_str("x").unwrap();
    let cli = Cli {
        project_root_location: temp.path().to_str().unwrap().to_string(),
        keep: Some(vec!["*.js".to_string()]),
        ..Cli::default()
    };
    let mut found = cli.keep_files().unwrap();
    found.sort();
    let mut expected = vec![
        format!("{}/a.js", temp.path().to_str().unwrap()),
        format!("{}/b.js", temp.path().to_str().unwrap()),
    ];
    expected.sort();
    assert_eq!(found, expected);
    temp.close().unwrap();
}

#[test]
fn test_destination_image_from_tag() {
    let mut docker = Docker {
        source_image: "hello-world:foo".to_string(),
        ..Docker::default()
    };
    docker.default_destination_image();
    assert_eq!(docker.destination_image, "hello-world:trimmed");
}

#[test]
fn test_destination_image_from_sha() {
    let mut docker = Docker {
        source_image:
            "hello-world:@sha256:c34ce3c1fcc0c7431e1392cc3abd0dfe2192ffea1898d5250f199d3ac8d8720f"
                .to_string(),
        ..Docker::default()
    };
    docker.default_destination_image();
    assert_eq!(docker.destination_image, "hello-world:trimmed");
}

#[test]
fn test_destination_image_kept_when_named() {
    let mut docker = Docker {
        source_image: "hello-world".to_string(),
        destination_image: "already:set".to_string(),
        ..Docker::default()
    };
    docker.default_destination_image();
    assert_eq!(docker.destination_image, "already:set");
}

#[test]
fn test_dockerfile_env_defaults() {
    let cli = Cli {
        project_root_location: ".".to_string(),
        node_modules_location: "node_modules".to_string(),
        home_location: "~".to_string(),
        entry_point_location: vec!["dist/index.js".to_string()],
        ..Cli::default()
    };
    assert_eq!(
        cli.to_dockerfile_env(),
        "ENV PROJECT_ROOT_LOCATION=.\nENV NODE_MODULES_LOCATION=node_modules\nENV HOME_LOCATION=~\nENV STRATEGY=Static\nENV ENTRY_POINT_LOCATION=\"dist/index.js\""
    );
}

#[test]
fn test_dockerfile_env_switches_and_keep() {
    let cli = Cli {
        project_root_location: "PROJECT_ROOT_LOCATION".to_string(),
        node_modules_location: "node_modules".to_string(),
        home_location: "~".to_string(),
        entry_point_location: vec!["dist/index.js".to_string()],
        dry_run: true,
        keep: Some(vec!["path/1".to_string(), "path/2".to_string()]),
        ..Cli::default()
    };
    assert_eq!(
        cli.to_dockerfile_env(),
        "ENV PROJECT_ROOT_LOCATION=PROJECT_ROOT_LOCATION\nENV NODE_MODULES_LOCATION=node_modules\nENV HOME_LOCATION=~\nENV STRATEGY=Static\nENV ENTRY_POINT_LOCATION=\"dist/index.js\"\nENV DRY_RUN=true\nENV KEEP=\"path/1,path/2\""
    );
}

#[test]
fn test_dockerfile_env_escapes_quotes() {
    let cli = Cli {
        entry_point_location: vec!["odd\"name.js".to_string()],
        strategy: Strategy::Ast,
        ..Cli::default()
    };
    assert_eq!(
        cli.to_dockerfile_env(),
        "ENV PROJECT_ROOT_LOCATION=\nENV NODE_MODULES_LOCATION=\nENV HOME_LOCATION=\nENV STRATEGY=Ast\nENV ENTRY_POINT_LOCATION=\"odd\\\"name.js\""
    );
}

#[test]
fn test_dockerfile_empty() {
    let config = ContainerConfigurations::default();
    assert_eq!(config.to_dockerfile(), "");
}

#[test]
fn test_dockerfile_joins_in_order() {
    let config = ContainerConfigurations {
        workdir: Some("WORKDIR /app".to_string()),
        command: None,
        entry_point: Some("ENTRYPOINT node index.js".to_string()),
        health_check: Some("HEALTHCHECK --retries=3".to_string()),
        user: None,
        env: Some("ENV PATH=/bin".to_string()),
    };
    assert_eq!(
        config.to_dockerfile(),
        "WORKDIR /app\nENTRYPOINT node index.js\nENV PATH=/bin\nHEALTHCHECK --retries=3"
    );
}
