//! The order of the steps of an install or update run.
//!
//! A [`Pipeline`] holds where a run stands. [`Pipeline::action`] names the
//! one thing to do next; the caller does it and reports what happened as an
//! [`Event`] to [`Pipeline::step`], which moves the run on. The pipeline
//! itself does nothing to the outside world.

use vstd::prelude::*;
use crate::api::{
    dependencies_of, dependency_names, info_url, info_url_text, missing_of, missing_packages,
    names_of, package_names, PackageInfo,
};
use crate::git::{clone_url, clone_url_text};
use crate::text::{
    clone_strings, lemma_texts_concat, lemma_texts_empty, lemma_texts_index, lemma_texts_push, texts,
    Text,
};

verus! {

/// The two kinds of run.
#[derive(Clone, Copy, PartialEq, Eq, Structural, Debug)]
pub enum Workflow {
    Install,
    Update,
}

/// How a run ended.
#[derive(Clone, Copy, PartialEq, Eq, Structural, Debug)]
pub enum Verdict {
    /// Everything was built, installed and cleaned.
    Success,
    /// An install run was given no package.
    NothingRequested,
    /// An update run found no package with new content.
    NoUpdates,
    /// The index does not know some requested package; nothing was done.
    NotFound,
    /// A step failed before or during installation; the run stopped there.
    Failed,
    /// The packages are installed, but cleaning a directory failed.
    CleanupFailed,
}

/// Where a run stands: what the caller is doing at the moment. A number is
/// the position of the package, or of the dependency, that is worked on.
#[derive(Clone, Copy, PartialEq, Eq, Structural, Debug)]
pub enum Stage {
    /// Asking the index for the requested packages.
    Resolving,
    /// Asking whether a dependency is installed.
    Checking(usize),
    /// Installing the dependencies that are not.
    InstallingDeps,
    /// Cloning a package's recipe.
    Cloning(usize),
    /// Pulling into a local package directory.
    Pulling(usize),
    /// Building a package.
    Building(usize),
    /// Listing the archives that a build left.
    Collecting(usize),
    /// Installing all archives at once.
    Installing,
    /// Cleaning a package directory.
    Cleaning(usize),
    /// The run is over.
    Finished(Verdict),
}

/// A directory below the working directory.
#[derive(Debug, Clone, PartialEq, Eq)]
pub struct LocalDir {
    /// The directory's name, which is the package's name.
    pub name: String,
    /// Whether it holds a build recipe.
    pub has_recipe: bool,
}

/// What the caller reports after doing what [`Pipeline::action`] named.
#[derive(Debug, Clone, PartialEq, Eq)]
pub enum Event {
    /// The index answered with these records.
    Resolved(Vec<PackageInfo>),
    /// The answer to a question: whether the dependency is installed, or
    /// whether the pull brought new content.
    Answer(bool),
    /// The step succeeded and has nothing to tell.
    Completed,
    /// The archives found in the package directory.
    Archives(Vec<String>),
    /// The step failed, for this reason.
    Failed(String),
}

/// The one thing to do next.
#[derive(Debug, Clone, PartialEq, Eq)]
pub enum Action {
    /// Fetch the records of the requested packages from this address.
    FetchInfo(String),
    /// Ask the package manager whether this package is installed.
    QueryInstalled(String),
    /// Install these packages as dependencies, in one call.
    InstallDependencies(Vec<String>),
    /// Clone the repository at this address.
    CloneRepo(String),
    /// Pull into this directory.
    Pull(String),
    /// Build in this directory.
    Build(String),
    /// List the archives in this directory.
    FindArchives(String),
    /// Install these archives, in one call.
    InstallArchives(Vec<String>),
    /// Clean this directory.
    Clean(String),
    /// Nothing more: the run ended like this.
    Finish(Verdict),
}

/// The mathematical value of an [`Action`].
pub enum ActionModel {
    FetchInfo(Text),
    QueryInstalled(Text),
    InstallDependencies(Seq<Text>),
    CloneRepo(Text),
    Pull(Text),
    Build(Text),
    FindArchives(Text),
    InstallArchives(Seq<Text>),
    Clean(Text),
    Finish(Verdict),
}

impl View for Action {
    type V = ActionModel;

    open spec fn view(&self) -> ActionModel {
        match *self {
            Action::FetchInfo(url) => ActionModel::FetchInfo(url@),
            Action::QueryInstalled(name) => ActionModel::QueryInstalled(name@),
            Action::InstallDependencies(names) => ActionModel::InstallDependencies(texts(names@)),
            Action::CloneRepo(url) => ActionModel::CloneRepo(url@),
            Action::Pull(dir) => ActionModel::Pull(dir@),
            Action::Build(dir) => ActionModel::Build(dir@),
            Action::FindArchives(dir) => ActionModel::FindArchives(dir@),
            Action::InstallArchives(paths) => ActionModel::InstallArchives(texts(paths@)),
            Action::Clean(dir) => ActionModel::Clean(dir@),
            Action::Finish(verdict) => ActionModel::Finish(verdict),
        }
    }
}

/// The mathematical value of a [`Pipeline`].
pub struct Model {
    pub workflow: Workflow,
    pub stage: Stage,
    /// Install: the names that were asked for.
    pub requested: Seq<Text>,
    /// Install: the dependencies of the resolved packages. Update: the
    /// directories that hold a recipe.
    pub pending: Seq<Text>,
    /// Install: the dependencies found not to be installed so far.
    pub needed: Seq<Text>,
    /// The packages to build: the resolved ones, or those with new content.
    pub names: Seq<Text>,
    /// The archives collected so far.
    pub archives: Seq<Text>,
    /// The requested names that the index does not know.
    pub missing: Seq<Text>,
    /// Why the run failed, where it did.
    pub cause: Text,
}

/// The names of the directories that hold a recipe, in order.
pub open spec fn recipe_dirs(entries: Seq<LocalDir>) -> Seq<Text> {
    entries.filter(|d: LocalDir| d.has_recipe).map_values(|d: LocalDir| d.name@)
}

impl Model {
    /// The positions are in range, the stage belongs to the workflow, and
    /// an update run builds only what it pulled.
    pub open spec fn wf(self) -> bool {
        &&& match self.stage {
            Stage::Resolving => self.workflow == Workflow::Install && self.requested.len() > 0,
            Stage::Checking(i) => self.workflow == Workflow::Install && i < self.pending.len()
                && self.names.len() > 0,
            Stage::InstallingDeps => self.workflow == Workflow::Install && self.names.len() > 0,
            Stage::Cloning(i) => self.workflow == Workflow::Install && i < self.names.len(),
            Stage::Pulling(i) => self.workflow == Workflow::Update && i < self.pending.len(),
            Stage::Building(i) => i < self.names.len(),
            Stage::Collecting(i) => i < self.names.len(),
            Stage::Installing => self.names.len() > 0,
            Stage::Cleaning(i) => i < self.names.len(),
            Stage::Finished(_) => true,
        }
        &&& self.workflow == Workflow::Update ==> forall|k: int|
            0 <= k < self.names.len() ==> self.pending.contains(#[trigger] self.names[k])
    }

    /// The run is over.
    pub open spec fn finished(self) -> bool {
        self.stage is Finished
    }

    /// The run stopped for this reason.
    pub open spec fn fail(self, cause: Text) -> Model {
        Model { stage: Stage::Finished(Verdict::Failed), cause, ..self }
    }

    /// The index answered: stop if a requested name is missing, else go on
    /// to the dependencies, or to cloning where there are none.
    pub open spec fn resolve(self, records: Seq<PackageInfo>) -> Model {
        let missing = missing_of(self.requested, names_of(records));
        if missing.len() > 0 {
            Model { stage: Stage::Finished(Verdict::NotFound), missing, ..self }
        } else {
            let pending = dependencies_of(records);
            Model {
                stage: if pending.len() > 0 {
                    Stage::Checking(0)
                } else {
                    Stage::Cloning(0)
                },
                names: names_of(records),
                pending,
                ..self
            }
        }
    }

    /// A dependency was checked and `needed` are those to install so far.
    pub open spec fn checked(self, i: usize, needed: Seq<Text>) -> Model {
        Model {
            stage: if i + 1 < self.pending.len() {
                Stage::Checking((i + 1) as usize)
            } else if needed.len() > 0 {
                Stage::InstallingDeps
            } else {
                Stage::Cloning(0)
            },
            needed,
            ..self
        }
    }

    /// A directory was pulled and `names` are those with new content so far.
    pub open spec fn pulled(self, i: usize, names: Seq<Text>) -> Model {
        Model {
            stage: if i + 1 < self.pending.len() {
                Stage::Pulling((i + 1) as usize)
            } else if names.len() > 0 {
                Stage::Building(0)
            } else {
                Stage::Finished(Verdict::NoUpdates)
            },
            names,
            ..self
        }
    }

    /// The run after `event`. A failed step ends the run, with two
    /// exceptions: a dependency whose check failed counts as not installed,
    /// and a directory whose pull failed counts as unchanged. An event that
    /// does not answer the current action changes nothing, and nothing
    /// changes a run that is over.
    pub open spec fn next(self, event: Event) -> Model {
        match self.stage {
            Stage::Resolving => match event {
                Event::Resolved(records) => self.resolve(records@),
                Event::Failed(cause) => self.fail(cause@),
                _ => self,
            },
            Stage::Checking(i) => match event {
                Event::Answer(installed) => self.checked(
                    i,
                    if installed {
                        self.needed
                    } else {
                        self.needed.push(self.pending[i as int])
                    },
                ),
                Event::Failed(_) => self.checked(i, self.needed.push(self.pending[i as int])),
                _ => self,
            },
            Stage::InstallingDeps => match event {
                Event::Completed => Model { stage: Stage::Cloning(0), ..self },
                Event::Failed(cause) => self.fail(cause@),
                _ => self,
            },
            Stage::Cloning(i) => match event {
                Event::Completed => Model {
                    stage: if i + 1 < self.names.len() {
                        Stage::Cloning((i + 1) as usize)
                    } else {
                        Stage::Building(0)
                    },
                    ..self
                },
                Event::Failed(cause) => self.fail(cause@),
                _ => self,
            },
            Stage::Pulling(i) => match event {
                Event::Answer(changed) => self.pulled(
                    i,
                    if changed {
                        self.names.push(self.pending[i as int])
                    } else {
                        self.names
                    },
                ),
                Event::Failed(_) => self.pulled(i, self.names),
                _ => self,
            },
            Stage::Building(i) => match event {
                Event::Completed => Model { stage: Stage::Collecting(i), ..self },
                Event::Failed(cause) => self.fail(cause@),
                _ => self,
            },
            Stage::Collecting(i) => match event {
                Event::Archives(found) => Model {
                    stage: if i + 1 < self.names.len() {
                        Stage::Building((i + 1) as usize)
                    } else {
                        Stage::Installing
                    },
                    archives: self.archives + texts(found@),
                    ..self
                },
                Event::Failed(cause) => self.fail(cause@),
                _ => self,
            },
            Stage::Installing => match event {
                Event::Completed => Model { stage: Stage::Cleaning(0), ..self },
                Event::Failed(cause) => self.fail(cause@),
                _ => self,
            },
            Stage::Cleaning(i) => match event {
                Event::Completed => Model {
                    stage: if i + 1 < self.names.len() {
                        Stage::Cleaning((i + 1) as usize)
                    } else {
                        Stage::Finished(Verdict::Success)
                    },
                    ..self
                },
                Event::Failed(cause) => Model {
                    stage: Stage::Finished(Verdict::CleanupFailed),
                    cause: cause@,
                    ..self
                },
                _ => self,
            },
            Stage::Finished(_) => self,
        }
    }

    /// What the caller has to do at this point of the run.
    pub open spec fn action(self) -> ActionModel {
        match self.stage {
            Stage::Resolving => ActionModel::FetchInfo(info_url_text(self.requested)),
            Stage::Checking(i) => ActionModel::QueryInstalled(self.pending[i as int]),
            Stage::InstallingDeps => ActionModel::InstallDependencies(self.needed),
            Stage::Cloning(i) => ActionModel::CloneRepo(clone_url_text(self.names[i as int])),
            Stage::Pulling(i) => ActionModel::Pull(self.pending[i as int]),
            Stage::Building(i) => ActionModel::Build(self.names[i as int]),
            Stage::Collecting(i) => ActionModel::FindArchives(self.names[i as int]),
            Stage::Installing => ActionModel::InstallArchives(self.archives),
            Stage::Cleaning(i) => ActionModel::Clean(self.names[i as int]),
            Stage::Finished(verdict) => ActionModel::Finish(verdict),
        }
    }

    /// Whether the action changes anything outside: everything does but
    /// the two questions, the fetch and the end of the run.
    pub open spec fn acts(self) -> bool {
        match self.stage {
            Stage::Resolving | Stage::Checking(_) | Stage::Finished(_) => false,
            _ => true,
        }
    }

    /// An install run at its start.
    pub open spec fn install(requested: Seq<Text>) -> Model {
        Model {
            workflow: Workflow::Install,
            stage: if requested.len() == 0 {
                Stage::Finished(Verdict::NothingRequested)
            } else {
                Stage::Resolving
            },
            requested,
            pending: Seq::empty(),
            needed: Seq::empty(),
            names: Seq::empty(),
            archives: Seq::empty(),
            missing: Seq::empty(),
            cause: Seq::empty(),
        }
    }

    /// An update run at its start.
    pub open spec fn update(entries: Seq<LocalDir>) -> Model {
        Model {
            workflow: Workflow::Update,
            stage: if recipe_dirs(entries).len() == 0 {
                Stage::Finished(Verdict::NoUpdates)
            } else {
                Stage::Pulling(0)
            },
            requested: Seq::empty(),
            pending: recipe_dirs(entries),
            needed: Seq::empty(),
            names: Seq::empty(),
            archives: Seq::empty(),
            missing: Seq::empty(),
            cause: Seq::empty(),
        }
    }

    /// The run after all of `events`, one after the other.
    pub open spec fn run(self, events: Seq<Event>) -> Model
        decreases events.len(),
    {
        if events.len() == 0 {
            self
        } else {
            self.run(events.drop_last()).next(events.last())
        }
    }
}


/// A step keeps a run well formed and in its workflow, and an update run
/// never changes its list of recipe directories.
pub proof fn lemma_next_wf(m: Model, event: Event)
    requires
        m.wf(),
    ensures
        m.next(event).wf(),
        m.next(event).workflow == m.workflow,
        m.workflow == Workflow::Update ==> m.next(event).pending == m.pending,
{
    let n = m.next(event);
    match m.stage {
        Stage::Resolving => {
            if let Event::Resolved(records) = event {
                let found = names_of(records@);
                let absent = |name: Text| !found.contains(name);
                if missing_of(m.requested, found).len() == 0 {
                    if !found.contains(m.requested[0]) {
                        m.requested.lemma_filter_contains(absent, 0);
                    }
                    assert(found.len() > 0);
                }
            }
        },
        Stage::Pulling(i) => {
            assert(m.pending.contains(m.pending[i as int]));
        },
        _ => {},
    }
}

/// Nothing changes a run that is over.
pub proof fn lemma_finished_stays(m: Model, events: Seq<Event>)
    requires
        m.finished(),
    ensures
        m.run(events) == m,
    decreases events.len(),
{
    if events.len() > 0 {
        lemma_finished_stays(m, events.drop_last());
    }
}

/// An install run that was given no package is over before it starts, with
/// the verdict that nothing was requested: the caller is never asked to do
/// anything, whatever it reports.
pub proof fn lemma_empty_install_does_nothing(events: Seq<Event>)
    ensures
        Model::install(Seq::empty()).run(events) == Model::install(Seq::empty()),
        Model::install(Seq::empty()).action() == ActionModel::Finish(Verdict::NothingRequested),
{
    lemma_finished_stays(Model::install(Seq::empty()), events);
}

/// An install run validates before it acts: where the index returned no record for one
/// of the requested names, the run is over as soon as the answer is in,
/// with the verdict that a package was not found and that name among the
/// missing ones. Up to then it only fetched; from then on nothing that is
/// reported moves it, so no clone, build, install or cleanup is ever asked
/// for.
pub proof fn lemma_missing_package_stops_install(
    requested: Seq<Text>,
    records: Vec<PackageInfo>,
    name: Text,
    later: Seq<Event>,
)
    requires
        requested.contains(name),
        !names_of(records@).contains(name),
    ensures
        Model::install(requested).stage == Stage::Resolving,
        !Model::install(requested).acts(),
        ({
            let stopped = Model::install(requested).next(Event::Resolved(records));
            &&& stopped.stage == Stage::Finished(Verdict::NotFound)
            &&& stopped.missing.contains(name)
            &&& !stopped.acts()
            &&& stopped.run(later) == stopped
        }),
{
    let found = names_of(records@);
    let absent = |n: Text| !found.contains(n);
    let i = choose|i: int| 0 <= i < requested.len() && requested[i] == name;
    requested.lemma_filter_contains(absent, i);
    let stopped = Model::install(requested).next(Event::Resolved(records));
    assert(missing_of(requested, found).contains(name));
    assert(missing_of(requested, found).len() > 0);
    lemma_finished_stays(stopped, later);
}

/// An update run stays an update run over the same recipe directories.
pub proof fn lemma_update_run(entries: Seq<LocalDir>, events: Seq<Event>)
    ensures
        Model::update(entries).run(events).wf(),
        Model::update(entries).run(events).workflow == Workflow::Update,
        Model::update(entries).run(events).pending == recipe_dirs(entries),
    decreases events.len(),
{
    if events.len() > 0 {
        lemma_update_run(entries, events.drop_last());
        lemma_next_wf(Model::update(entries).run(events.drop_last()), events.last());
    }
}

/// Whatever is reported during an update run, every package that it builds
/// is a directory that holds a recipe: one without a recipe is never part
/// of the update, however a pull into it would end.
pub proof fn lemma_update_set_has_recipe(entries: Seq<LocalDir>, events: Seq<Event>, k: int)
    requires
        0 <= k < Model::update(entries).run(events).names.len(),
    ensures
        exists|j: int|
            0 <= j < entries.len() && (#[trigger] entries[j]).has_recipe && entries[j].name@
                == Model::update(entries).run(events).names[k],
{
    let m = Model::update(entries).run(events);
    lemma_update_run(entries, events);
    let name = m.names[k];
    assert(m.pending.contains(name));
    let keep = |d: LocalDir| d.has_recipe;
    let kept = entries.filter(keep);
    let p = choose|p: int| 0 <= p < m.pending.len() && m.pending[p] == name;
    assert(kept[p].name@ == name);
    entries.lemma_filter_pred(keep, p);
    assert(kept.contains(kept[p]));
    entries.lemma_filter_contains_rev(keep, kept[p]);
    let j = choose|j: int| 0 <= j < entries.len() && entries[j] == kept[p];
    assert(entries[j].has_recipe && entries[j].name@ == name);
}

/// A run of the install or update workflow.
pub struct Pipeline {
    workflow: Workflow,
    stage: Stage,
    requested: Vec<String>,
    pending: Vec<String>,
    needed: Vec<String>,
    names: Vec<String>,
    archives: Vec<String>,
    missing: Vec<String>,
    cause: String,
}

impl View for Pipeline {
    type V = Model;

    closed spec fn view(&self) -> Model {
        Model {
            workflow: self.workflow,
            stage: self.stage,
            requested: texts(self.requested@),
            pending: texts(self.pending@),
            needed: texts(self.needed@),
            names: texts(self.names@),
            archives: texts(self.archives@),
            missing: texts(self.missing@),
            cause: self.cause@,
        }
    }
}

impl Pipeline {
    /// Every pipeline is well formed, at every moment.
    #[verifier::type_invariant]
    spec fn well_formed(&self) -> bool {
        self@.wf()
    }

    /// Starts an install run for the requested packages. With none
    /// requested the run is over at once.
    pub fn start_install(requested: Vec<String>) -> (run: Pipeline)
        ensures
            run@ == Model::install(texts(requested@)),
            run@.wf(),
    {
        let stage = if requested.len() == 0 {
            Stage::Finished(Verdict::NothingRequested)
        } else {
            Stage::Resolving
        };
        let run = Pipeline {
            workflow: Workflow::Install,
            stage,
            requested,
            pending: Vec::new(),
            needed: Vec::new(),
            names: Vec::new(),
            archives: Vec::new(),
            missing: Vec::new(),
            cause: String::new(),
        };
        proof {
            lemma_texts_empty();
            lemma_texts_index(requested@);
        }
        run
    }

    /// Starts an update run over the directories below the working
    /// directory. Only those that hold a recipe are pulled; with none of
    /// them the run is over at once.
    pub fn start_update(entries: &Vec<LocalDir>) -> (run: Pipeline)
        ensures
            run@ == Model::update(entries@),
            run@.wf(),
    {
        let ghost keep = |d: LocalDir| d.has_recipe;
        let mut pending: Vec<String> = Vec::new();
        let mut i: usize = 0;
        while i < entries.len()
            invariant
                i <= entries.len(),
                keep == (|d: LocalDir| d.has_recipe),
                texts(pending@) == recipe_dirs(entries@.take(i as int)),
            decreases entries.len() - i,
        {
            proof {
                reveal(Seq::filter);
                assert(entries@.take(i + 1).drop_last() =~= entries@.take(i as int));
                assert(entries@.take(i + 1).last() == entries@[i as int]);
            }
            if entries[i].has_recipe {
                proof {
                    lemma_texts_push(pending@, entries@[i as int].name);
                    assert(recipe_dirs(entries@.take(i + 1)) =~= recipe_dirs(
                        entries@.take(i as int),
                    ).push(entries@[i as int].name@));
                }
                pending.push(entries[i].name.clone());
            }
            i += 1;
        }
        assert(entries@.take(i as int) =~= entries@);
        let stage = if pending.len() == 0 {
            Stage::Finished(Verdict::NoUpdates)
        } else {
            Stage::Pulling(0)
        };
        let run = Pipeline {
            workflow: Workflow::Update,
            stage,
            requested: Vec::new(),
            pending,
            needed: Vec::new(),
            names: Vec::new(),
            archives: Vec::new(),
            missing: Vec::new(),
            cause: String::new(),
        };
        proof {
            lemma_texts_empty();
            lemma_texts_index(pending@);
        }
        run
    }

    /// Which workflow this run follows.
    pub fn workflow(&self) -> (workflow: Workflow)
        ensures
            workflow == self@.workflow,
    {
        self.workflow
    }

    /// Where the run stands.
    pub fn stage(&self) -> (stage: Stage)
        ensures
            stage == self@.stage,
    {
        self.stage
    }

    /// The packages that the run builds: the resolved ones of an install
    /// run, those with new content of an update run.
    pub fn packages(&self) -> (names: &Vec<String>)
        ensures
            texts(names@) == self@.names,
    {
        &self.names
    }

    /// The requested names that the index does not know.
    pub fn missing(&self) -> (names: &Vec<String>)
        ensures
            texts(names@) == self@.missing,
    {
        &self.missing
    }

    /// Why the run failed, where it did.
    pub fn cause(&self) -> (cause: &String)
        ensures
            cause@ == self@.cause,
    {
        &self.cause
    }

    /// What the caller has to do now.
    pub fn action(&self) -> (action: Action)
        ensures
            action@ == self@.action(),
    {
        proof {
            use_type_invariant(self);
            lemma_texts_index(self.pending@);
            lemma_texts_index(self.names@);
        }
        match self.stage {
            Stage::Resolving => Action::FetchInfo(info_url(&self.requested)),
            Stage::Checking(i) => Action::QueryInstalled(self.pending[i].clone()),
            Stage::InstallingDeps => Action::InstallDependencies(clone_strings(&self.needed)),
            Stage::Cloning(i) => Action::CloneRepo(clone_url(self.names[i].as_str())),
            Stage::Pulling(i) => Action::Pull(self.pending[i].clone()),
            Stage::Building(i) => Action::Build(self.names[i].clone()),
            Stage::Collecting(i) => Action::FindArchives(self.names[i].clone()),
            Stage::Installing => Action::InstallArchives(clone_strings(&self.archives)),
            Stage::Cleaning(i) => Action::Clean(self.names[i].clone()),
            Stage::Finished(verdict) => Action::Finish(verdict),
        }
    }

    /// The run after what the caller reports.
    pub fn step(self, event: Event) -> (next: Pipeline)
        ensures
            next@ == self@.next(event),
            next@.wf(),
    {
        proof {
            use_type_invariant(&self);
            lemma_next_wf(self@, event);
            lemma_texts_index(self.pending@);
            lemma_texts_index(self.names@);
            lemma_texts_index(self.needed@);
        }
        let ghost before = self@;
        let Pipeline {
            workflow,
            stage,
            requested,
            pending,
            needed,
            names,
            archives,
            missing,
            cause,
        } = self;
        assert(before.pending.len() == pending.len() && before.names.len() == names.len());
        let mut stage = stage;
        let mut pending = pending;
        let mut needed = needed;
        let mut names = names;
        let mut archives = archives;
        let mut missing = missing;
        let mut cause = cause;
        match stage {
            Stage::Resolving => match event {
                Event::Resolved(records) => {
                    let found = package_names(&records);
                    let absent = missing_packages(&requested, &found);
                    proof {
                        lemma_texts_index(absent@);
                    }
                    if absent.len() > 0 {
                        stage = Stage::Finished(Verdict::NotFound);
                        missing = absent;
                    } else {
                        let deps = dependency_names(&records);
                        proof {
                            lemma_texts_index(deps@);
                        }
                        stage = if deps.len() > 0 {
                            Stage::Checking(0)
                        } else {
                            Stage::Cloning(0)
                        };
                        names = found;
                        pending = deps;
                    }
                },
                Event::Failed(why) => {
                    stage = Stage::Finished(Verdict::Failed);
                    cause = why;
                },
                _ => {},
            },
            Stage::Checking(i) => {
                let answer = match event {
                    Event::Answer(installed) => Some(installed),
                    Event::Failed(_) => Some(false),
                    _ => None,
                };
                if let Some(installed) = answer {
                    if !installed {
                        proof {
                            lemma_texts_push(needed@, pending@[i as int]);
                            lemma_texts_index(needed@.push(pending@[i as int]));
                        }
                        needed.push(pending[i].clone());
                    }
                    stage = if i + 1 < pending.len() {
                        Stage::Checking(i + 1)
                    } else if needed.len() > 0 {
                        Stage::InstallingDeps
                    } else {
                        Stage::Cloning(0)
                    };
                }
            },
            Stage::InstallingDeps => match event {
                Event::Completed => {
                    stage = Stage::Cloning(0);
                },
                Event::Failed(why) => {
                    stage = Stage::Finished(Verdict::Failed);
                    cause = why;
                },
                _ => {},
            },
            Stage::Cloning(i) => match event {
                Event::Completed => {
                    stage = if i + 1 < names.len() {
                        Stage::Cloning(i + 1)
                    } else {
                        Stage::Building(0)
                    };
                },
                Event::Failed(why) => {
                    stage = Stage::Finished(Verdict::Failed);
                    cause = why;
                },
                _ => {},
            },
            Stage::Pulling(i) => {
                let answer = match event {
                    Event::Answer(changed) => Some(changed),
                    Event::Failed(_) => Some(false),
                    _ => None,
                };
                if let Some(changed) = answer {
                    if changed {
                        proof {
                            lemma_texts_push(names@, pending@[i as int]);
                            lemma_texts_index(names@.push(pending@[i as int]));
                        }
                        names.push(pending[i].clone());
                    }
                    stage = if i + 1 < pending.len() {
                        Stage::Pulling(i + 1)
                    } else if names.len() > 0 {
                        Stage::Building(0)
                    } else {
                        Stage::Finished(Verdict::NoUpdates)
                    };
                }
            },
            Stage::Building(i) => match event {
                Event::Completed => {
                    stage = Stage::Collecting(i);
                },
                Event::Failed(why) => {
                    stage = Stage::Finished(Verdict::Failed);
                    cause = why;
                },
                _ => {},
            },
            Stage::Collecting(i) => match event {
                Event::Archives(found) => {
                    let mut found = found;
                    proof {
                        lemma_texts_concat(archives@, found@);
                    }
                    archives.append(&mut found);
                    stage = if i + 1 < names.len() {
                        Stage::Building(i + 1)
                    } else {
                        Stage::Installing
                    };
                },
                Event::Failed(why) => {
                    stage = Stage::Finished(Verdict::Failed);
                    cause = why;
                },
                _ => {},
            },
            Stage::Installing => match event {
                Event::Completed => {
                    stage = Stage::Cleaning(0);
                },
                Event::Failed(why) => {
                    stage = Stage::Finished(Verdict::Failed);
                    cause = why;
                },
                _ => {},
            },
            Stage::Cleaning(i) => match event {
                Event::Completed => {
                    stage = if i + 1 < names.len() {
                        Stage::Cleaning(i + 1)
                    } else {
                        Stage::Finished(Verdict::Success)
                    };
                },
                Event::Failed(why) => {
                    stage = Stage::Finished(Verdict::CleanupFailed);
                    cause = why;
                },
                _ => {},
            },
            Stage::Finished(_) => {},
        }
        let ghost after = Model {
            workflow,
            stage,
            requested: texts(requested@),
            pending: texts(pending@),
            needed: texts(needed@),
            names: texts(names@),
            archives: texts(archives@),
            missing: texts(missing@),
            cause: cause@,
        };
        assert(after == before.next(event));
        Pipeline { workflow, stage, requested, pending, needed, names, archives, missing, cause }
    }
}

} // verus!
