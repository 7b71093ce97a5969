use assert_fs::prelude::{FileWriteStr, PathChild};
use assert_fs::TempDir;
use nmt::cleaner::Cleaner;
use nmt::configurations::Cli;
use nmt::disk::canonicalize_path;
use nmt::glob::retrieve_glob_paths;

fn write_fixture_tree(temp: &TempDir) {
    temp.child("node_modules/ilteoood/package.json")
        .write_str("{\"name\":\"ilteoood\",\"main\":\"legit.js\"}")
        .unwrap();
    temp.child("node_modules/ilteoood/legit.js").write_str("x").unwrap();
    temp.child("node_modules/ilteoood/legit.esm.js").write_str("x").unwrap();
    temp.child("node_modules/ilteoood/unlegit.min.js").write_str("x").unwrap();
    temp.child("node_modules/@types/node/index.d.ts").write_str("x").unwrap();
    temp.child("node_modules/busboy/package.json").write_str("{}").unwrap();
    temp.child("node_modules/busboy/main.js").write_str("x").unwrap();
    temp.child("node_modules/fastify/fastify.js").write_str("x").unwrap();
}

#[test]
fn test_retrieve_glob_paths() {
    let temp = TempDir::new().unwrap().into_persistent();
    temp.child("ilteoood/legit.js").write_str("x").unwrap();
    temp.child("ilteoood/legit.esm.js").write_str("x").unwrap();
    temp.child("ilteoood/unlegit.min.js").write_str("x").unwrap();
    let root = temp.path().to_str().unwrap();
    let paths = retrieve_glob_paths(&vec![format!("{root}/ilteoood/*.js")]).unwrap();
    assert!(paths.contains(&format!("{root}/ilteoood/legit.js")));
    assert!(paths.contains(&format!("{root}/ilteoood/legit.esm.js")));
    assert!(paths.contains(&format!("{root}/ilteoood/unlegit.min.js")));
    temp.close().unwrap();
}

#[test]
fn test_graph_garbage_selection() {
    let temp = TempDir::new().unwrap().into_persistent();
    write_fixture_tree(&temp);
    let root = canonicalize_path(temp.path().to_str().unwrap()).unwrap();
    let legit = canonicalize_path(
        temp.child("node_modules/ilteoood/legit.js").path().to_str().unwrap(),
    )
    .unwrap();
    let legit_esm = canonicalize_path(
        temp.child("node_modules/ilteoood/legit.esm.js").path().to_str().unwrap(),
    )
    .unwrap();
    let cli = Cli { project_root_location: root.clone(), ..Cli::default() };

    let cleaner =
        Cleaner::from_module_graph(&cli, &vec![legit.clone(), legit_esm.clone()]).unwrap();
    let garbage = cleaner.retrieve_garbage();

    assert!(garbage.contains(&format!("{root}/node_modules/ilteoood/unlegit.min.js")));
    assert!(garbage.contains(&format!("{root}/node_modules/@types/node/index.d.ts")));
    assert!(garbage.contains(&format!("{root}/node_modules/busboy/main.js")));
    assert!(garbage.contains(&format!("{root}/node_modules/fastify/fastify.js")));
    assert!(!garbage.contains(&legit));
    assert!(!garbage.contains(&legit_esm));
    temp.close().unwrap();
}

#[test]
fn test_package_json_never_garbage() {
    let temp = TempDir::new().unwrap().into_persistent();
    write_fixture_tree(&temp);
    let root = canonicalize_path(temp.path().to_str().unwrap()).unwrap();
    let cli = Cli { project_root_location: root.clone(), ..Cli::default() };

    // Even with an empty keep-set every package.json survives.
    let cleaner = Cleaner::from_module_graph(&cli, &Vec::new()).unwrap();
    for path in cleaner.retrieve_garbage() {
        assert!(!path.ends_with("package.json"));
    }
    temp.close().unwrap();
}

#[test]
fn test_static_garbage_matches_patterns() {
    let temp = TempDir::new().unwrap().into_persistent();
    write_fixture_tree(&temp);
    temp.child("node_modules/busboy/README.md").write_str("x").unwrap();
    let root = canonicalize_path(temp.path().to_str().unwrap()).unwrap();
    let cli = Cli {
        node_modules_location: format!("{root}/node_modules"),
        ..Cli::default()
    };
    let cleaner = Cleaner::from_static_garbage(&cli).unwrap();
    let garbage = cleaner.retrieve_garbage();
    assert!(garbage.contains(&format!("{root}/node_modules/@types")));
    assert!(garbage.contains(&format!("{root}/node_modules/busboy/README.md")));
    assert!(garbage.contains(&format!("{root}/node_modules/ilteoood/unlegit.min.js")));
    assert!(!garbage.contains(&format!("{root}/node_modules/ilteoood/legit.js")));
    temp.close().unwrap();
}

fn delete_garbage(cleaner: &Cleaner) -> usize {
    let mut deleted: usize = 0;
    for path in cleaner.retrieve_garbage() {
        if fs_extra::file::remove(path).is_ok() {
            deleted += 1;
        }
    }
    deleted
}

#[test]
fn test_clean_keeps_only_graph_and_manifests() {
    let temp = TempDir::new().unwrap().into_persistent();
    write_fixture_tree(&temp);
    let root = canonicalize_path(temp.path().to_str().unwrap()).unwrap();
    let legit = canonicalize_path(
        temp.child("node_modules/ilteoood/legit.js").path().to_str().unwrap(),
    )
    .unwrap();
    let legit_esm = canonicalize_path(
        temp.child("node_modules/ilteoood/legit.esm.js").path().to_str().unwrap(),
    )
    .unwrap();
    let cli = Cli { project_root_location: root.clone(), ..Cli::default() };

    let cleaner =
        Cleaner::from_module_graph(&cli, &vec![legit.clone(), legit_esm.clone()]).unwrap();
    delete_garbage(&cleaner);

    // Kept files and every package.json still exist; everything else is gone.
    assert!(temp.child("node_modules/ilteoood/legit.js").path().exists());
    assert!(temp.child("node_modules/ilteoood/legit.esm.js").path().exists());
    assert!(temp.child("node_modules/ilteoood/package.json").path().exists());
    assert!(temp.child("node_modules/busboy/package.json").path().exists());
    assert!(!temp.child("node_modules/ilteoood/unlegit.min.js").path().exists());
    assert!(!temp.child("node_modules/@types/node/index.d.ts").path().exists());
    assert!(!temp.child("node_modules/busboy/main.js").path().exists());
    assert!(!temp.child("node_modules/fastify/fastify.js").path().exists());
    temp.close().unwrap();
}

#[test]
fn test_second_prune_deletes_nothing() {
    let temp = TempDir::new().unwrap().into_persistent();
    write_fixture_tree(&temp);
    let root = canonicalize_path(temp.path().to_str().unwrap()).unwrap();
    let legit = canonicalize_path(
        temp.child("node_modules/ilteoood/legit.js").path().to_str().unwrap(),
    )
    .unwrap();
    let cli = Cli { project_root_location: root.clone(), ..Cli::default() };

    let keep = vec![legit.clone()];
    let first = Cleaner::from_module_graph(&cli, &keep).unwrap();
    assert!(delete_garbage(&first) > 0);

    let second = Cleaner::from_module_graph(&cli, &keep).unwrap();
    assert_eq!(second.retrieve_garbage().len(), 0);
    assert_eq!(delete_garbage(&second), 0);
    temp.close().unwrap();
}

#[test]
fn test_dry_run_deletes_nothing() {
    let temp = TempDir::new().unwrap().into_persistent();
    write_fixture_tree(&temp);
    let root = canonicalize_path(temp.path().to_str().unwrap()).unwrap();
    let cli = Cli { project_root_location: root.clone(), dry_run: true, ..Cli::default() };

    // In a dry run the garbage is only reported; computing and reading it
    // must leave the tree as it was.
    let cleaner = Cleaner::from_module_graph(&cli, &Vec::new()).unwrap();
    let _report: Vec<String> = cleaner.retrieve_garbage().clone();
    assert!(temp.child("node_modules/ilteoood/unlegit.min.js").path().exists());
    assert!(temp.child("node_modules/busboy/main.js").path().exists());
    assert!(temp.child("node_modules/fastify/fastify.js").path().exists());
    temp.close().unwrap();
}

#[test]
fn test_select_garbage_exact() {
    let files = vec![
        "/r/node_modules/a/package.json".to_string(),
        "/r/node_modules/a/kept.js".to_string(),
        "/r/node_modules/a/doomed.js".to_string(),
    ];
    let canonicals: Vec<Option<String>> = files.iter().map(|f| Some(f.clone())).collect();
    let keep = vec!["/r/node_modules/a/kept.js".to_string()];
    assert_eq!(
        nmt::cleaner::select_garbage(files, &canonicals, &keep),
        vec!["/r/node_modules/a/doomed.js".to_string()]
    );
}

#[test]
fn test_select_garbage_decides_on_canonical_form() {
    // The tree is reached through a symlinked spelling; the keep-set holds
    // canonical paths. Membership must be decided on the canonical form,
    // and a file without one is preserved.
    let files = vec![
        "/link/node_modules/a/kept.js".to_string(),
        "/link/node_modules/a/doomed.js".to_string(),
        "/link/node_modules/a/vanished.js".to_string(),
    ];
    let canonicals = vec![
        Some("/real/node_modules/a/kept.js".to_string()),
        Some("/real/node_modules/a/doomed.js".to_string()),
        None,
    ];
    let keep = vec!["/real/node_modules/a/kept.js".to_string()];
    assert_eq!(
        nmt::cleaner::select_garbage(files, &canonicals, &keep),
        vec!["/link/node_modules/a/doomed.js".to_string()]
    );
}

#[test]
fn test_invalid_glob_pattern_is_an_error() {
    assert_eq!(
        retrieve_glob_paths(&vec!["[".to_string()]),
        Err(nmt::glob::GlobError::InvalidPattern)
    );
}

#[test]
fn test_ambient_paths() {
    let cli = Cli {
        project_root_location: "/srv/app".to_string(),
        home_location: "/home/me".to_string(),
        ..Cli::default()
    };
    let cleaner = Cleaner::from_module_graph(&cli, &Vec::new()).unwrap();
    assert_eq!(cleaner.npm_cache_path(), "/home/me/.npm");
    assert_eq!(
        cleaner.pnpm_cache_paths(),
        vec!["/home/me/.pnpm-state".to_string(), "/home/me/.local/share/pnpm".to_string()]
    );
    assert_eq!(
        cleaner.lock_file_paths(),
        vec![
            "/srv/app/package-lock.json".to_string(),
            "/srv/app/yarn.lock".to_string(),
            "/srv/app/pnpm-lock.yaml".to_string(),
        ]
    );
}
