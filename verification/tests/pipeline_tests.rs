use aur_helper::api::PackageInfo;
use aur_helper::pipeline::{Action, Event, LocalDir, Pipeline, Stage, Verdict, Workflow};

fn names(items: &[&str]) -> Vec<String> {
    items.iter().map(|s| s.to_string()).collect()
}

fn package(name: &str, version: &str, depends: &[&str]) -> PackageInfo {
    PackageInfo {
        co_maintainers: Vec::new(),
        depends: names(depends),
        description: None,
        first_submitted: 0,
        id: 0,
        keywords: Vec::new(),
        last_modified: 0,
        license: Vec::new(),
        maintainer: None,
        name: name.to_string(),
        num_votes: 0,
        opt_depends: Vec::new(),
        submitter: None,
        version: version.to_string(),
        popularity: 0,
    }
}

fn dir(name: &str, has_recipe: bool) -> LocalDir {
    LocalDir { name: name.to_string(), has_recipe }
}

fn text(s: &str) -> String {
    s.to_string()
}

#[test]
fn install_one_package_with_a_missing_dependency() {
    let mut run = Pipeline::start_install(names(&["foo"]));
    assert_eq!(run.workflow(), Workflow::Install);
    assert_eq!(
        run.action(),
        Action::FetchInfo(text("https://aur.archlinux.org/rpc/v5/info?arg[]=foo"))
    );
    run = run.step(Event::Resolved(vec![package("foo", "1.0", &["bar>=2"])]));
    assert_eq!(run.packages(), &names(&["foo"]));
    assert_eq!(run.action(), Action::QueryInstalled(text("bar")));
    run = run.step(Event::Answer(false));
    assert_eq!(run.action(), Action::InstallDependencies(names(&["bar"])));
    run = run.step(Event::Completed);
    assert_eq!(run.action(), Action::CloneRepo(text("https://aur.archlinux.org/foo.git")));
    run = run.step(Event::Completed);
    assert_eq!(run.action(), Action::Build(text("foo")));
    run = run.step(Event::Completed);
    assert_eq!(run.action(), Action::FindArchives(text("foo")));
    run = run.step(Event::Archives(names(&["foo/foo-1.0-1-any.pkg.tar.zst"])));
    assert_eq!(run.action(), Action::InstallArchives(names(&["foo/foo-1.0-1-any.pkg.tar.zst"])));
    run = run.step(Event::Completed);
    assert_eq!(run.action(), Action::Clean(text("foo")));
    run = run.step(Event::Completed);
    assert_eq!(run.action(), Action::Finish(Verdict::Success));
    assert_eq!(run.stage(), Stage::Finished(Verdict::Success));
}

#[test]
fn install_stops_when_a_package_is_missing() {
    let mut run = Pipeline::start_install(names(&["foo", "missing"]));
    assert_eq!(
        run.action(),
        Action::FetchInfo(text("https://aur.archlinux.org/rpc/v5/info?arg[]=foo&arg[]=missing"))
    );
    run = run.step(Event::Resolved(vec![package("foo", "1.0", &["bar>=2"])]));
    assert_eq!(run.action(), Action::Finish(Verdict::NotFound));
    assert_eq!(run.missing(), &names(&["missing"]));
    run = run.step(Event::Completed);
    run = run.step(Event::Answer(true));
    run = run.step(Event::Archives(names(&["x.pkg.tar.zst"])));
    assert_eq!(run.action(), Action::Finish(Verdict::NotFound));
    assert_eq!(run.stage(), Stage::Finished(Verdict::NotFound));
}

#[test]
fn install_without_packages_does_nothing() {
    let mut run = Pipeline::start_install(Vec::new());
    assert_eq!(run.action(), Action::Finish(Verdict::NothingRequested));
    run = run.step(Event::Completed);
    run = run.step(Event::Resolved(vec![package("foo", "1.0", &[])]));
    assert_eq!(run.action(), Action::Finish(Verdict::NothingRequested));
    assert_eq!(run.stage(), Stage::Finished(Verdict::NothingRequested));
}

#[test]
fn install_fails_when_the_lookup_fails() {
    let mut run = Pipeline::start_install(names(&["foo"]));
    run = run.step(Event::Failed(text("request failed")));
    assert_eq!(run.action(), Action::Finish(Verdict::Failed));
    assert_eq!(run.cause(), "request failed");
}

#[test]
fn install_skips_installed_dependencies() {
    let mut run = Pipeline::start_install(names(&["foo", "qux"]));
    run = run.step(Event::Resolved(vec![
        package("foo", "1.0", &["bar>=2", "baz"]),
        package("qux", "2.0", &["zip=1"]),
    ]));
    assert_eq!(run.action(), Action::QueryInstalled(text("bar")));
    run = run.step(Event::Answer(true));
    assert_eq!(run.action(), Action::QueryInstalled(text("baz")));
    run = run.step(Event::Failed(text("query failed")));
    assert_eq!(run.action(), Action::QueryInstalled(text("zip")));
    run = run.step(Event::Answer(false));
    assert_eq!(run.action(), Action::InstallDependencies(names(&["baz", "zip"])));
    run = run.step(Event::Completed);
    assert_eq!(run.action(), Action::CloneRepo(text("https://aur.archlinux.org/foo.git")));
    run = run.step(Event::Completed);
    assert_eq!(run.action(), Action::CloneRepo(text("https://aur.archlinux.org/qux.git")));
    run = run.step(Event::Completed);
    assert_eq!(run.action(), Action::Build(text("foo")));
    run = run.step(Event::Completed);
    run = run.step(Event::Archives(names(&["foo/a.pkg.tar.zst", "foo/b.pkg.tar.zst"])));
    assert_eq!(run.action(), Action::Build(text("qux")));
    run = run.step(Event::Completed);
    assert_eq!(run.action(), Action::FindArchives(text("qux")));
    run = run.step(Event::Archives(names(&["qux/c.pkg.tar.zst"])));
    assert_eq!(
        run.action(),
        Action::InstallArchives(names(&["foo/a.pkg.tar.zst", "foo/b.pkg.tar.zst", "qux/c.pkg.tar.zst"]))
    );
    run = run.step(Event::Completed);
    assert_eq!(run.action(), Action::Clean(text("foo")));
    run = run.step(Event::Completed);
    assert_eq!(run.action(), Action::Clean(text("qux")));
    run = run.step(Event::Completed);
    assert_eq!(run.action(), Action::Finish(Verdict::Success));
}

#[test]
fn install_goes_straight_to_cloning_without_dependencies() {
    let mut run = Pipeline::start_install(names(&["foo"]));
    run = run.step(Event::Resolved(vec![package("foo", "1.0", &[])]));
    assert_eq!(run.action(), Action::CloneRepo(text("https://aur.archlinux.org/foo.git")));
}

#[test]
fn install_skips_dependency_install_when_all_are_present() {
    let mut run = Pipeline::start_install(names(&["foo"]));
    run = run.step(Event::Resolved(vec![package("foo", "1.0", &["bar"])]));
    run = run.step(Event::Answer(true));
    assert_eq!(run.action(), Action::CloneRepo(text("https://aur.archlinux.org/foo.git")));
}

#[test]
fn install_stops_at_the_first_failure() {
    let mut run = Pipeline::start_install(names(&["foo", "qux"]));
    run = run.step(Event::Resolved(vec![package("foo", "1.0", &[]), package("qux", "1.0", &[])]));
    run = run.step(Event::Completed);
    assert_eq!(run.action(), Action::CloneRepo(text("https://aur.archlinux.org/qux.git")));
    run = run.step(Event::Failed(text("non-zero exit code during git clone")));
    assert_eq!(run.action(), Action::Finish(Verdict::Failed));
    assert_eq!(run.cause(), "non-zero exit code during git clone");
    run = run.step(Event::Completed);
    assert_eq!(run.action(), Action::Finish(Verdict::Failed));
}

#[test]
fn failed_dependency_install_stops_the_run() {
    let mut run = Pipeline::start_install(names(&["foo"]));
    run = run.step(Event::Resolved(vec![package("foo", "1.0", &["bar"])]));
    run = run.step(Event::Answer(false));
    run = run.step(Event::Failed(text("non-zero exit code during pacman -S")));
    assert_eq!(run.action(), Action::Finish(Verdict::Failed));
}

#[test]
fn failed_cleanup_is_told_apart() {
    let mut run = Pipeline::start_install(names(&["foo"]));
    run = run.step(Event::Resolved(vec![package("foo", "1.0", &[])]));
    run = run.step(Event::Completed);
    run = run.step(Event::Completed);
    run = run.step(Event::Archives(Vec::new()));
    assert_eq!(run.action(), Action::InstallArchives(Vec::new()));
    run = run.step(Event::Completed);
    run = run.step(Event::Failed(text("non-zero exit code during git clean")));
    assert_eq!(run.action(), Action::Finish(Verdict::CleanupFailed));
    assert_eq!(run.cause(), "non-zero exit code during git clean");
}

#[test]
fn event_that_does_not_fit_changes_nothing() {
    let mut run = Pipeline::start_install(names(&["foo"]));
    run = run.step(Event::Completed);
    run = run.step(Event::Answer(true));
    run = run.step(Event::Archives(names(&["a"])));
    assert_eq!(run.stage(), Stage::Resolving);
    run = run.step(Event::Resolved(vec![package("foo", "1.0", &[])]));
    run = run.step(Event::Answer(true));
    assert_eq!(run.stage(), Stage::Cloning(0));
}

#[test]
fn duplicate_requests_resolve_to_the_returned_records() {
    let mut run = Pipeline::start_install(names(&["foo", "foo"]));
    run = run.step(Event::Resolved(vec![package("foo", "1.0", &[])]));
    assert_eq!(run.packages(), &names(&["foo"]));
    assert_eq!(run.stage(), Stage::Cloning(0));
}

#[test]
fn update_builds_only_changed_recipe_directories() {
    let mut run = Pipeline::start_update(&vec![dir("a", true), dir("b", true), dir("c", false)]);
    assert_eq!(run.workflow(), Workflow::Update);
    assert_eq!(run.action(), Action::Pull(text("a")));
    run = run.step(Event::Answer(true));
    assert_eq!(run.action(), Action::Pull(text("b")));
    run = run.step(Event::Answer(false));
    assert_eq!(run.packages(), &names(&["a"]));
    assert_eq!(run.action(), Action::Build(text("a")));
    run = run.step(Event::Completed);
    assert_eq!(run.action(), Action::FindArchives(text("a")));
    run = run.step(Event::Archives(names(&["a/a-2.pkg.tar.zst"])));
    assert_eq!(run.action(), Action::InstallArchives(names(&["a/a-2.pkg.tar.zst"])));
    run = run.step(Event::Completed);
    assert_eq!(run.action(), Action::Clean(text("a")));
    run = run.step(Event::Completed);
    assert_eq!(run.action(), Action::Finish(Verdict::Success));
}

#[test]
fn update_never_pulls_a_directory_without_recipe() {
    let mut run = Pipeline::start_update(&vec![dir("c", false), dir("a", true), dir("d", false)]);
    assert_eq!(run.action(), Action::Pull(text("a")));
    run = run.step(Event::Answer(true));
    assert_eq!(run.packages(), &names(&["a"]));
    assert_eq!(run.action(), Action::Build(text("a")));
}

#[test]
fn update_treats_a_failed_pull_as_unchanged() {
    let mut run = Pipeline::start_update(&vec![dir("a", true), dir("b", true)]);
    run = run.step(Event::Failed(text("non-zero exit code during git fetch")));
    assert_eq!(run.action(), Action::Pull(text("b")));
    run = run.step(Event::Answer(true));
    assert_eq!(run.packages(), &names(&["b"]));
    assert_eq!(run.action(), Action::Build(text("b")));
}

#[test]
fn update_with_nothing_changed_reports_no_updates() {
    let mut run = Pipeline::start_update(&vec![dir("a", true), dir("b", true)]);
    run = run.step(Event::Answer(false));
    run = run.step(Event::Failed(text("offline")));
    assert_eq!(run.action(), Action::Finish(Verdict::NoUpdates));
    assert_eq!(run.packages(), &Vec::<String>::new());
}

#[test]
fn update_without_recipe_directories_reports_no_updates() {
    let run = Pipeline::start_update(&vec![dir("c", false)]);
    assert_eq!(run.action(), Action::Finish(Verdict::NoUpdates));
    let empty = Pipeline::start_update(&Vec::new());
    assert_eq!(empty.action(), Action::Finish(Verdict::NoUpdates));
}

#[test]
fn update_stops_when_a_build_fails() {
    let mut run = Pipeline::start_update(&vec![dir("a", true), dir("b", true)]);
    run = run.step(Event::Answer(true));
    run = run.step(Event::Answer(true));
    assert_eq!(run.action(), Action::Build(text("a")));
    run = run.step(Event::Completed);
    run = run.step(Event::Archives(names(&["a/a.pkg.tar.zst"])));
    assert_eq!(run.action(), Action::Build(text("b")));
    run = run.step(Event::Failed(text("non-zero exit code during makepkg")));
    assert_eq!(run.action(), Action::Finish(Verdict::Failed));
    assert_eq!(run.cause(), "non-zero exit code during makepkg");
}
