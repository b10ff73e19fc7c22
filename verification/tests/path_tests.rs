use rustic_fourier::anchor;
use rustic_fourier::errors::FixtureError;
use rustic_fourier::parts::{fragment_components, is_hidden, split_components};
use rustic_fourier::resolve::{resolve_fixture_path, resolve_in, PathManage};

fn strings(v: &[&str]) -> Vec<String> {
    v.iter().map(|s| s.to_string()).collect()
}

#[test]
fn find_root() {
    let root = "RusticFourier";
    let mut cwd = strings(&["home", "dev", "RusticFourier"]);
    cwd.extend(split_components("datasets/wavegen/sinc"));

    let result = anchor::find_root(&cwd, root).unwrap();

    assert_eq!(result.ups, 3);
    assert_eq!(result.to_path_string(), "./../../..");
}

#[test]
fn find_root_current_dir() {
    let cwd = strings(&["home", "dev", "RusticFourier"]);
    let result = anchor::find_root(&cwd, "RusticFourier").unwrap();
    assert_eq!(result.ups, 0);
    assert_eq!(result.to_path_string(), ".");
}

#[test]
fn find_root_innermost_wins() {
    let cwd = strings(&["RusticFourier", "vendor", "RusticFourier", "src"]);
    let result = anchor::find_root(&cwd, "RusticFourier").unwrap();
    assert_eq!(result.ups, 1);
    assert_eq!(result.to_path_string(), "./..");
}

#[test]
fn find_root_missing() {
    let cwd = strings(&["home", "dev", "elsewhere", "src"]);
    let result = anchor::find_root(&cwd, "RusticFourier");
    assert_eq!(result, Err(FixtureError::RootNotFound));
}

#[test]
fn path() {
    let cwd = strings(&["RusticFourier"]);
    let root = PathManage::new(&cwd, "RusticFourier").unwrap();
    root.path("datasets/io");
}

#[test]
fn path_resolves_the_anchor_itself() {
    let cwd = strings(&["RusticFourier"]);
    let root = PathManage::new(&cwd, "RusticFourier").unwrap();
    assert_eq!(root.path("."), Some(".".to_string()));
}

#[test]
fn resolve_verbatim_entry() {
    let entries = strings(&["./..", "./../datasets", "./../datasets/io", "./../datasets/io/x.json"]);
    let found = resolve_in(&entries, "datasets/io");
    assert_eq!(found, Some("datasets/io".to_string()));
}

#[test]
fn resolve_permuted_fragment() {
    let entries = strings(&["./data/alpha/beta"]);
    assert_eq!(resolve_in(&entries, "beta/alpha"), Some("beta/alpha".to_string()));
    assert_eq!(resolve_in(&entries, "beta/gamma"), None);
}

#[test]
fn resolve_fragment_longer_than_entry() {
    let entries = strings(&["./a/b"]);
    assert_eq!(resolve_in(&entries, "a/b/c/d"), None);
}

#[test]
fn fragment_components_filters_special_parts() {
    let parts = fragment_components("./../datasets//io/");
    assert_eq!(parts, strings(&["datasets", "io"]));
    assert_eq!(split_components(""), Vec::<String>::new());
    assert_eq!(split_components("a//b/"), strings(&["a", "b"]));
}

#[test]
fn hidden_names() {
    assert!(is_hidden(".git"));
    assert!(!is_hidden("src"));
    assert!(!is_hidden(""));
}

#[test]
fn scenario_missing_fragment() {
    let cwd = strings(&["RusticFourier"]);
    let r = resolve_fixture_path(&cwd, "RusticFourier", "does/not/exist");
    assert_eq!(r, Err(FixtureError::FragmentUnresolved));
}

#[test]
fn scenario_missing_root() {
    let cwd = strings(&["home", "elsewhere"]);
    let r = resolve_fixture_path(&cwd, "RusticFourier", "datasets/io");
    assert_eq!(r, Err(FixtureError::RootNotFound));
}
