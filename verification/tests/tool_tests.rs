use aur_helper::api::{dependency_names, info_url, missing_packages, package_names, search_url, PackageInfo};
use aur_helper::error::{exit_outcome, ToolError};
use aur_helper::git::{clone_url, pull_changed, pull_outcome};
use aur_helper::makepkg::{find_pkg_files, is_pkg_file};
use aur_helper::text::{clone_strings, contains_name};

fn texts_of(items: &[&str]) -> Vec<String> {
    items.iter().map(|s| s.to_string()).collect()
}

fn plain_record(name: &str, depends: &[&str]) -> PackageInfo {
    PackageInfo {
        co_maintainers: Vec::new(),
        depends: texts_of(depends),
        description: None,
        first_submitted: 0,
        id: 0,
        keywords: Vec::new(),
        last_modified: 0,
        license: Vec::new(),
        maintainer: None,
        name: name.to_string(),
        num_votes: 0,
        opt_depends: Vec::new(),
        submitter: None,
        version: "1.0".to_string(),
        popularity: 0,
    }
}

#[test]
fn info_url_joins_the_names() {
    assert_eq!(
        info_url(&texts_of(&["foo", "bar"])),
        "https://aur.archlinux.org/rpc/v5/info?arg[]=foo&arg[]=bar"
    );
    assert_eq!(info_url(&texts_of(&["foo"])), "https://aur.archlinux.org/rpc/v5/info?arg[]=foo");
}

#[test]
fn info_url_without_names_has_no_query() {
    assert_eq!(info_url(&Vec::new()), "https://aur.archlinux.org/rpc/v5/info");
}

#[test]
fn info_url_passes_names_literally() {
    assert_eq!(
        info_url(&texts_of(&["a b&c"])),
        "https://aur.archlinux.org/rpc/v5/info?arg[]=a b&c"
    );
}

#[test]
fn search_url_appends_the_term() {
    assert_eq!(search_url("foo"), "https://aur.archlinux.org/rpc/v5/search/foo");
    assert_eq!(search_url(""), "https://aur.archlinux.org/rpc/v5/search/");
}

#[test]
fn clone_url_names_the_repository() {
    assert_eq!(clone_url("foo"), "https://aur.archlinux.org/foo.git");
}

#[test]
fn pull_changed_unless_already_up_to_date() {
    assert!(!pull_changed("Already up to date.\n"));
    assert!(pull_changed("Updating 1a2b3c..4d5e6f\nFast-forward\n"));
    assert!(pull_changed(""));
    assert!(pull_changed("already up to date"));
}

#[test]
fn pull_outcome_fails_on_bad_exit() {
    assert_eq!(pull_outcome(false, "Already up to date."), Err(ToolError::Pull));
    assert_eq!(pull_outcome(true, "Already up to date."), Ok(false));
    assert_eq!(pull_outcome(true, "Fast-forward"), Ok(true));
}

#[test]
fn exit_outcome_follows_the_exit() {
    assert_eq!(exit_outcome(true, ToolError::Build), Ok(()));
    assert_eq!(exit_outcome(false, ToolError::Build), Err(ToolError::Build));
    assert_eq!(exit_outcome(false, ToolError::Clone), Err(ToolError::Clone));
}

#[test]
fn each_failure_has_its_message() {
    assert_eq!(ToolError::Clone.message(), "non-zero exit code during git clone");
    assert_eq!(ToolError::Clean.message(), "non-zero exit code during git clean");
    assert_eq!(ToolError::Pull.message(), "non-zero exit code during git fetch");
    assert_eq!(ToolError::Build.message(), "non-zero exit code during makepkg");
    assert_eq!(ToolError::Install.message(), "non-zero exit code during pacman -S");
    assert_eq!(ToolError::Query.message(), "non-zero exit code during pacman -Q");
    assert_eq!(ToolError::InstallLocal.message(), "non-zero exit code during pacman -U");
}

#[test]
fn archives_are_told_by_their_suffix() {
    assert!(is_pkg_file("foo-1.0-1-x86_64.pkg.tar.zst"));
    assert!(is_pkg_file(".pkg.tar.zst"));
    assert!(!is_pkg_file("foo-1.0-1-x86_64.pkg.tar.xz"));
    assert!(!is_pkg_file("foo.pkg.tar.zst.sig"));
    assert!(!is_pkg_file("PKGBUILD"));
    assert!(!is_pkg_file(""));
}

#[test]
fn find_pkg_files_keeps_archives_in_order() {
    let listing = texts_of(&["PKGBUILD", "b-1.pkg.tar.zst", "src", "a-1.pkg.tar.zst", "a.tar.gz"]);
    assert_eq!(find_pkg_files(&listing), texts_of(&["b-1.pkg.tar.zst", "a-1.pkg.tar.zst"]));
    assert_eq!(find_pkg_files(&texts_of(&["PKGBUILD"])), Vec::<String>::new());
    assert_eq!(find_pkg_files(&Vec::new()), Vec::<String>::new());
}

#[test]
fn names_and_dependencies_of_records() {
    let records = vec![plain_record("foo", &["bar>=2", "baz"]), plain_record("qux", &[]), plain_record("zap", &["bar<3"])];
    assert_eq!(package_names(&records), texts_of(&["foo", "qux", "zap"]));
    assert_eq!(dependency_names(&records), texts_of(&["bar", "baz", "bar"]));
    assert_eq!(dependency_names(&Vec::new()), Vec::<String>::new());
}

#[test]
fn missing_packages_are_the_requested_ones_not_found() {
    let found = texts_of(&["foo", "bar"]);
    assert_eq!(missing_packages(&texts_of(&["foo", "missing"]), &found), texts_of(&["missing"]));
    assert_eq!(missing_packages(&texts_of(&["x", "foo", "x"]), &found), texts_of(&["x", "x"]));
    assert_eq!(missing_packages(&texts_of(&["bar", "foo", "foo"]), &found), Vec::<String>::new());
}

#[test]
fn string_helpers() {
    let names = texts_of(&["a", "b"]);
    assert_eq!(clone_strings(&names), names);
    assert!(contains_name(&names, &"b".to_string()));
    assert!(!contains_name(&names, &"c".to_string()));
    assert!(!contains_name(&Vec::new(), &"a".to_string()));
}
