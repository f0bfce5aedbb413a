use aur_helper::error::ToolError;
use aur_helper::pacman::query_outcome;

#[test]
fn strip_package_version() {
    assert_eq!(aur_helper::pacman::strip_package_version("alsa-lib>=1.0.14"), "alsa-lib");
    assert_eq!(aur_helper::pacman::strip_package_version("alsa-lib"), "alsa-lib");
}

#[test]
fn strip_stops_at_each_operator() {
    assert_eq!(aur_helper::pacman::strip_package_version("glibc>2.30"), "glibc");
    assert_eq!(aur_helper::pacman::strip_package_version("glibc=2.30"), "glibc");
    assert_eq!(aur_helper::pacman::strip_package_version("glibc<2.30"), "glibc");
    assert_eq!(aur_helper::pacman::strip_package_version("glibc<=2.30"), "glibc");
}

#[test]
fn strip_stops_at_the_first_operator() {
    assert_eq!(aur_helper::pacman::strip_package_version("a=b>c"), "a");
    assert_eq!(aur_helper::pacman::strip_package_version(">=1"), "");
    assert_eq!(aur_helper::pacman::strip_package_version(""), "");
}

#[test]
fn strip_counts_characters_not_bytes() {
    assert_eq!(aur_helper::pacman::strip_package_version("caf\u{e9}-\u{4e2d}>=1"), "caf\u{e9}-\u{4e2d}");
    assert_eq!(aur_helper::pacman::strip_package_version("na\u{ef}ve"), "na\u{ef}ve");
}

#[test]
fn query_that_succeeds_means_installed() {
    assert_eq!(query_outcome(true, "bar 2.0-1\n"), Ok(true));
    assert_eq!(query_outcome(true, "not found"), Ok(true));
}

#[test]
fn query_that_reports_not_found_means_absent() {
    assert_eq!(query_outcome(false, "error: package 'bar' was not found\n"), Ok(false));
}

#[test]
fn query_that_fails_otherwise_is_an_error() {
    assert_eq!(query_outcome(false, ""), Err(ToolError::Query));
    assert_eq!(query_outcome(false, "not  found"), Err(ToolError::Query));
}
