//! Restoring what is missing: the plan of directories to create and
//! repositories to clone, and the run that carries it out step by step.
//!
//! The plan is made against one snapshot of the disk, taken before the
//! first step. Nothing is undone when a step fails: what was created
//! stays, and restoring again picks up where the failed run stopped.
use vstd::prelude::*;
use vstd::string::*;

use crate::config::declares;
use crate::config::entries_view;
use crate::config::first_at;
use crate::config::lemma_view_children;
use crate::config::own_project_entries;
use crate::config::projects_view;
use crate::config::Config;
use crate::config::Project;
use crate::config::ProjectModel;
use crate::config::Workspace;
use crate::config::WorkspaceModel;
use crate::diagnosis::contains_path;
use crate::diagnosis::doctor;
use crate::diagnosis::lemma_missing_contains;
use crate::diagnosis::absent_from;
use crate::diagnosis::missing_spec;
use crate::error::Error;
use crate::git::git_for;
use crate::git::Git;
use crate::git::GitModel;
use crate::git::ProjectGitSettings;
use crate::paths::join;
use crate::paths::normal_spec;
use crate::paths::normalize;
use crate::paths::parent;
use crate::paths::parent_spec;
use crate::paths::strings_view;

verus! {

/// What to restore.
#[derive(Debug, Clone, PartialEq, Eq)]
pub enum RestoreOption {
    /// One workspace, with or without the projects it declares.
    Workspace { ws_path: String, include_projects: bool },
    /// Every missing workspace, with or without its projects.
    AllWorkspaces { include_projects: bool },
    /// One project, and the directory of the workspace that owns it.
    Project { proj_path: String },
}

/// One step of a restoration.
#[derive(Debug, Clone, PartialEq, Eq)]
pub enum RestoreAction {
    /// Create the directory of a workspace.
    CreateWorkspaceDir(String),
    /// Create the directory of a project that has no repository.
    CreateProjectDir(String),
    /// Clone the repository of a project.
    CloneProject(Git),
}

/// One step of a restoration, as a value.
pub ghost enum ActionModel {
    CreateWorkspaceDir(Seq<char>),
    CreateProjectDir(Seq<char>),
    CloneProject(GitModel),
}

impl View for RestoreAction {
    type V = ActionModel;

    open spec fn view(&self) -> ActionModel {
        match self {
            RestoreAction::CreateWorkspaceDir(p) => ActionModel::CreateWorkspaceDir(p@),
            RestoreAction::CreateProjectDir(p) => ActionModel::CreateProjectDir(p@),
            RestoreAction::CloneProject(g) => ActionModel::CloneProject(g@),
        }
    }
}

/// The steps as values.
pub open spec fn actions_view(actions: Seq<RestoreAction>) -> Seq<ActionModel> {
    Seq::new(actions.len(), |i: int| actions[i]@)
}

impl ActionModel {
    /// The path that exists once the step is done.
    pub open spec fn target(self) -> Seq<char> {
        match self {
            ActionModel::CreateWorkspaceDir(p) => p,
            ActionModel::CreateProjectDir(p) => p,
            ActionModel::CloneProject(g) => g.path,
        }
    }
}

/// The step that brings the project at `path` into being: an empty
/// directory where it has no repository, a clone where it has one.
pub open spec fn project_action(path: Seq<char>, project: ProjectModel) -> ActionModel {
    match project.git {
        None => ActionModel::CreateProjectDir(path),
        Some(repo) => ActionModel::CloneProject(git_for(path, repo)),
    }
}

/// One step for each of the first `upto` projects of `own` whose path is
/// not among `present`.
pub open spec fn project_actions(
    own: Seq<(Seq<char>, ProjectModel)>,
    present: Seq<Seq<char>>,
    upto: int,
) -> Seq<ActionModel>
    decreases upto,
{
    if upto <= 0 {
        Seq::empty()
    } else if present.contains(own[upto - 1].0) {
        project_actions(own, present, upto - 1)
    } else {
        project_actions(own, present, upto - 1).push(
            project_action(own[upto - 1].0, own[upto - 1].1),
        )
    }
}

/// The steps that restore the workspace at `path`: its directory unless
/// that is present, then, if asked for, the projects it declares itself
/// that are not present.
pub open spec fn workspace_plan(
    path: Seq<char>,
    ws: WorkspaceModel,
    include_projects: bool,
    present: Seq<Seq<char>>,
) -> Seq<ActionModel> {
    let directory = if present.contains(path) {
        Seq::empty()
    } else {
        seq![ActionModel::CreateWorkspaceDir(path)]
    };
    if include_projects {
        directory + project_actions(own_project_entries(path, ws), present, ws.projects.len() as int)
    } else {
        directory
    }
}

/// The steps that restore each of the first `upto` workspaces of `entries`
/// that is missing, in their order.
pub open spec fn all_workspaces_plan(
    entries: Seq<(Seq<char>, WorkspaceModel)>,
    include_projects: bool,
    present: Seq<Seq<char>>,
    upto: int,
) -> Seq<ActionModel>
    decreases upto,
{
    if upto <= 0 {
        Seq::empty()
    } else if present.contains(entries[upto - 1].0) {
        all_workspaces_plan(entries, include_projects, present, upto - 1)
    } else {
        all_workspaces_plan(entries, include_projects, present, upto - 1) + workspace_plan(
            entries[upto - 1].0,
            entries[upto - 1].1,
            include_projects,
            present,
        )
    }
}

/// The index at which `entries` first holds `target`.
pub open spec fn first_index<T>(entries: Seq<(Seq<char>, T)>, target: Seq<char>) -> int {
    choose|i: int| first_at(entries, target, i)
}

/// The steps that restore the workspace at `ws_path`, or the path that was
/// not found.
pub open spec fn workspace_target_plan(
    config: Config,
    ws_path: Seq<char>,
    include_projects: bool,
    present: Seq<Seq<char>>,
) -> Result<Seq<ActionModel>, Seq<char>> {
    let entries = config.workspace_entries();
    if declares(entries, ws_path) {
        Ok(
            workspace_plan(
                ws_path,
                entries[first_index(entries, ws_path)].1,
                include_projects,
                present,
            ),
        )
    } else {
        Err(ws_path)
    }
}

/// The steps that restore the project at `proj_path`, or the path that
/// was not found. The workspace one level up must be declared; its
/// directory comes first. The project follows if it is declared and its
/// path is not present.
pub open spec fn project_target_plan(config: Config, proj_path: Seq<char>, present: Seq<Seq<char>>) -> Result<
    Seq<ActionModel>,
    Seq<char>,
> {
    match parent_spec(proj_path) {
        None => Err(proj_path),
        Some(up) => match workspace_target_plan(config, up, false, present) {
            Err(p) => Err(p),
            Ok(first) => {
                let projects = config.project_entries();
                if missing_spec(config.project_paths(), present).contains(proj_path) {
                    Ok(
                        first.push(
                            project_action(
                                proj_path,
                                projects[first_index(projects, proj_path)].1,
                            ),
                        ),
                    )
                } else {
                    Ok(first)
                }
            },
        },
    }
}

/// The steps that `opt` asks for, against the paths in `present`, or the
/// path that was not found. A path that `opt` names is taken in its
/// normal form.
pub open spec fn restore_spec(config: Config, opt: RestoreOption, present: Seq<Seq<char>>) -> Result<
    Seq<ActionModel>,
    Seq<char>,
> {
    match opt {
        RestoreOption::Workspace { ws_path, include_projects } => workspace_target_plan(
            config,
            normal_spec(ws_path@),
            include_projects,
            present,
        ),
        RestoreOption::AllWorkspaces { include_projects } => Ok(
            all_workspaces_plan(
                config.workspace_entries(),
                include_projects,
                present,
                config.workspace_entries().len() as int,
            ),
        ),
        RestoreOption::Project { proj_path } => project_target_plan(
            config,
            normal_spec(proj_path@),
            present,
        ),
    }
}

/// What a function that plans returns, held against what was to be
/// planned: the steps, or a not-found error for the path.
pub open spec fn plan_matches(
    planned: Result<Vec<RestoreAction>, Error>,
    wanted: Result<Seq<ActionModel>, Seq<char>>,
) -> bool {
    match planned {
        Ok(actions) => wanted == Ok::<Seq<ActionModel>, Seq<char>>(actions_view(actions@)),
        Err(Error::NotFound(p)) => wanted == Err::<Seq<ActionModel>, Seq<char>>(p@),
        Err(_) => false,
    }
}

/// Only one index holds a path first.
pub proof fn lemma_first_index<T>(entries: Seq<(Seq<char>, T)>, target: Seq<char>, i: int)
    requires
        first_at(entries, target, i),
    ensures
        first_index(entries, target) == i,
        declares(entries, target),
{
    let j = first_index(entries, target);
    assert(first_at(entries, target, j));
    if j < i {
        assert(entries[j].0 != target);
    }
    if i < j {
        assert(entries[i].0 != target);
    }
}

/// The step that restores the project at `path`, unless the path is
/// present.
pub fn restore_project(path: &str, project: &Project, present: &Vec<String>) -> (step: Option<
    RestoreAction,
>)
    ensures
        match step {
            Some(action) => !strings_view(present@).contains(path@) && action@ == project_action(
                path@,
                project@,
            ),
            None => strings_view(present@).contains(path@),
        },
{
    if contains_path(present, path) {
        return None;
    }
    match &project.git {
        None => Some(RestoreAction::CreateProjectDir(String::from_str(path))),
        Some(settings) => {
            let copy = ProjectGitSettings::new(settings.repo.clone(), settings.core_settings);
            Some(RestoreAction::CloneProject(Git::new(String::from_str(path), copy)))
        },
    }
}

/// Appends to `actions` the steps that restore the workspace `ws` at
/// `path`.
pub fn plan_workspace(
    path: &str,
    ws: &Workspace,
    include_projects: bool,
    present: &Vec<String>,
    actions: &mut Vec<RestoreAction>,
)
    ensures
        actions_view(final(actions)@) == actions_view(old(actions)@) + workspace_plan(
            path@,
            ws@,
            include_projects,
            strings_view(present@),
        ),
{
    let ghost start = actions_view(actions@);
    let ghost there = strings_view(present@);
    if !contains_path(present, path) {
        actions.push(RestoreAction::CreateWorkspaceDir(String::from_str(path)));
        assert(actions_view(actions@) =~= start + seq![ActionModel::CreateWorkspaceDir(path@)]);
    } else {
        assert(actions_view(actions@) =~= start + Seq::empty());
    }
    if !include_projects {
        return ;
    }
    let ghost directory = actions_view(actions@);
    let ghost own = own_project_entries(path@, ws@);
    proof {
        lemma_view_children(*ws);
    }
    let n: usize = ws.projects.len();
    let mut j: usize = 0;
    assert(actions_view(actions@) =~= directory + project_actions(own, there, 0));
    while j < n
        invariant
            j <= n,
            n == ws.projects@.len(),
            ws@.projects == projects_view(ws.projects@),
            own == own_project_entries(path@, ws@),
            there == strings_view(present@),
            actions_view(actions@) == directory + project_actions(own, there, j as int),
        decreases n - j,
    {
        let ghost before = actions_view(actions@);
        let project_path = join(path, ws.projects[j].name.as_str());
        assert(own[j as int] == (project_path@, ws.projects@[j as int].project@));
        match restore_project(project_path.as_str(), &ws.projects[j].project, present) {
            Some(action) => {
                actions.push(action);
                assert(actions_view(actions@) =~= before.push(action@));
                assert(before.push(action@) =~= directory + project_actions(own, there, j + 1));
            },
            None => {},
        }
        j = j + 1;
    }
    assert(directory + project_actions(own, there, n as int) =~= start + workspace_plan(
        path@,
        ws@,
        include_projects,
        there,
    ));
}

/// The steps that restore the workspace at `ws_path`.
pub fn restore_workspace(
    config: &Config,
    ws_path: &str,
    include_projects: bool,
    present: &Vec<String>,
) -> (planned: Result<Vec<RestoreAction>, Error>)
    ensures
        plan_matches(
            planned,
            workspace_target_plan(*config, ws_path@, include_projects, strings_view(present@)),
        ),
{
    let ws = match config.lookup_workspace(ws_path) {
        Ok(ws) => ws,
        Err(e) => {
            return Err(e);
        },
    };
    proof {
        let entries = config.workspace_entries();
        let i = choose|i: int| first_at(entries, ws_path@, i) && entries[i].1 == ws@;
        lemma_first_index(entries, ws_path@, i);
    }
    let target = String::from_str(ws_path);
    let mut actions: Vec<RestoreAction> = Vec::new();
    assert(actions_view(actions@) =~= Seq::empty());
    plan_workspace(target.as_str(), ws, include_projects, present, &mut actions);
    assert(Seq::empty() + workspace_plan(
        target@,
        ws@,
        include_projects,
        strings_view(present@),
    ) =~= workspace_plan(target@, ws@, include_projects, strings_view(present@)));
    Ok(actions)
}

/// Plans the restoration that `opt` asks for. `present` holds the paths
/// that exist on disk; the diagnosis made from it decides what is missing.
///
/// The steps come in the order in which they are to be carried out, and
/// carrying them out stops at the first that fails. A path that exists is
/// left alone. A path is taken in its normal form and as it stands: a
/// workspace path that is not declared is not found, and so is the
/// workspace one level above a project path.
pub fn restore(config: &Config, opt: RestoreOption, present: &Vec<String>) -> (planned: Result<
    Vec<RestoreAction>,
    Error,
>)
    ensures
        plan_matches(planned, restore_spec(*config, opt, strings_view(present@))),
{
    let ghost there = strings_view(present@);
    match opt {
        RestoreOption::Workspace { ws_path, include_projects } => restore_workspace(
            config,
            normalize(ws_path.as_str()).as_str(),
            include_projects,
            present,
        ),
        RestoreOption::AllWorkspaces { include_projects } => {
            let entries = config.flatten();
            let ghost flat = config.workspace_entries();
            let mut actions: Vec<RestoreAction> = Vec::new();
            let n: usize = entries.len();
            let mut i: usize = 0;
            assert(actions_view(actions@) =~= all_workspaces_plan(flat, include_projects, there, 0));
            while i < n
                invariant
                    i <= n,
                    n == entries@.len(),
                    flat == entries_view(entries@),
                    there == strings_view(present@),
                    actions_view(actions@) == all_workspaces_plan(
                        flat,
                        include_projects,
                        there,
                        i as int,
                    ),
                decreases n - i,
            {
                if !contains_path(present, entries[i].path.as_str()) {
                    plan_workspace(
                        entries[i].path.as_str(),
                        entries[i].workspace,
                        include_projects,
                        present,
                        &mut actions,
                    );
                }
                i = i + 1;
            }
            Ok(actions)
        },
        RestoreOption::Project { proj_path } => {
            let proj_path = normalize(proj_path.as_str());
            let Some(up) = parent(proj_path.as_str()) else {
                return Err(Error::NotFound(proj_path));
            };
            let mut actions = match restore_workspace(config, up.as_str(), false, present) {
                Ok(actions) => actions,
                Err(e) => {
                    return Err(e);
                },
            };
            let diagnosis = match doctor(config, present) {
                Ok(diagnosis) => diagnosis,
                Err(e) => {
                    return Err(e);
                },
            };
            let target = proj_path.clone();
            if !contains_path(&diagnosis.missing_projects, target.as_str()) {
                return Ok(actions);
            }
            let ghost projects = config.project_entries();
            let ghost declared = config.project_paths();
            let ghost missing = missing_spec(declared, there);
            proof {
                let k = choose|k: int| 0 <= k < missing.len() && missing[k] == target@;
                declared.lemma_filter_pred(absent_from(there), k);
                declared.lemma_filter_contains_rev(absent_from(there), target@);
                let i = choose|i: int| 0 <= i < declared.len() && declared[i] == target@;
                assert(projects[i].0 == target@);
                assert(declares(projects, target@));
                assert(!there.contains(target@));
            }
            let project = match config.lookup_project(proj_path.as_str()) {
                Ok(project) => project,
                Err(e) => {
                    return Err(e);
                },
            };
            proof {
                let i = choose|i: int| first_at(projects, target@, i) && projects[i].1 == project@;
                lemma_first_index(projects, target@, i);
            }
            let ghost first = actions_view(actions@);
            match restore_project(target.as_str(), project, present) {
                Some(action) => {
                    actions.push(action);
                    assert(actions_view(actions@) =~= first.push(action@));
                },
                None => {},
            }
            Ok(actions)
        },
    }
}

/// How one step ended.
#[derive(Debug, Clone, PartialEq, Eq)]
pub enum StepOutcome {
    /// The directory was created, or the repository cloned.
    Done,
    /// The path was there already.
    AlreadyExists,
    /// The step failed; the text says how.
    Failed(String),
    /// The clone was refused with every credential tried.
    AuthExhausted,
}

/// A plan being carried out: the steps, the index of the one in turn, and
/// whether a failure has stopped the run.
#[derive(Debug, Clone, PartialEq, Eq)]
pub struct RestoreRun {
    pub actions: Vec<RestoreAction>,
    pub next: usize,
    pub stopped: bool,
}

/// The error that a failed step is reported with: a filesystem error
/// where a directory was to be created, a transport error where a
/// repository was to be cloned, and exhausted authentication as itself.
pub open spec fn is_failure_of(error: Error, action: ActionModel, outcome: StepOutcome) -> bool {
    match outcome {
        StepOutcome::Failed(text) => match action {
            ActionModel::CloneProject(_) => error matches Error::Transport(t) && t@ == text@,
            _ => error matches Error::Fs(t) && t@ == text@,
        },
        StepOutcome::AuthExhausted => error == Error::AuthExhausted,
        _ => false,
    }
}

impl RestoreRun {
/// The index of the step in turn lies within the steps or just behind
/// them.
    pub open spec fn wf(self) -> bool {
        self.next <= self.actions@.len()
    }

    /// The step in turn: none once every step is done or one has failed.
    pub open spec fn pending(self) -> Option<ActionModel> {
        if !self.stopped && self.next < self.actions@.len() {
            Some(self.actions@[self.next as int]@)
        } else {
            None
        }
    }

    /// A run with every step of `actions` still to do.
    pub fn new(actions: Vec<RestoreAction>) -> (run: RestoreRun)
        ensures
            run.wf(),
            run.actions == actions,
            run.next == 0,
            !run.stopped,
    {
        RestoreRun { actions, next: 0, stopped: false }
    }

    /// The step in turn.
    pub fn current(&self) -> (step: Option<&RestoreAction>)
        requires
            self.wf(),
        ensures
            match step {
                Some(action) => self.pending() == Some(action@),
                None => self.pending().is_none(),
            },
    {
        if !self.stopped && self.next < self.actions.len() {
            Some(&self.actions[self.next])
        } else {
            None
        }
    }

    /// Notes how the step in turn ended. A step that is done, or whose
    /// path was there already, makes way for the next one. A failure
    /// stops the run: no later step comes in turn, and the failure is
    /// returned as the error of the run. With no step in turn nothing
    /// changes.
    pub fn record(&mut self, outcome: StepOutcome) -> (noted: Result<(), Error>)
        requires
            old(self).wf(),
        ensures
            final(self).wf(),
            final(self).actions == old(self).actions,
            match old(self).pending() {
                None => *final(self) == *old(self) && noted.is_ok(),
                Some(action) => match outcome {
                    StepOutcome::Done | StepOutcome::AlreadyExists => {
                        &&& noted.is_ok()
                        &&& final(self).next == old(self).next + 1
                        &&& !final(self).stopped
                    },
                    _ => {
                        &&& noted.is_err()
                        &&& is_failure_of(noted.unwrap_err(), action, outcome)
                        &&& final(self).next == old(self).next
                        &&& final(self).stopped
                        &&& final(self).pending().is_none()
                    },
                },
            },
    {
        if self.stopped || self.next >= self.actions.len() {
            return Ok(());
        }
        match outcome {
            StepOutcome::Done | StepOutcome::AlreadyExists => {
                self.next = self.next + 1;
                Ok(())
            },
            StepOutcome::Failed(text) => {
                self.stopped = true;
                match &self.actions[self.next] {
                    RestoreAction::CloneProject(_) => Err(Error::Transport(text)),
                    _ => Err(Error::Fs(text)),
                }
            },
            StepOutcome::AuthExhausted => {
                self.stopped = true;
                Err(Error::AuthExhausted)
            },
        }
    }
}

/// The paths that exist once every step of `actions` is done.
pub open spec fn created_paths(actions: Seq<ActionModel>) -> Seq<Seq<char>> {
    Seq::new(actions.len(), |i: int| actions[i].target())
}

/// Every project among the first `upto` is present or gets a step that
/// creates its path.
pub proof fn lemma_project_actions_cover(
    own: Seq<(Seq<char>, ProjectModel)>,
    present: Seq<Seq<char>>,
    upto: int,
    k: int,
)
    requires
        0 <= k < upto <= own.len(),
    ensures
        present.contains(own[k].0) || created_paths(project_actions(own, present, upto)).contains(
            own[k].0,
        ),
    decreases upto,
{
    let steps = project_actions(own, present, upto);
    let before = project_actions(own, present, upto - 1);
    if k < upto - 1 {
        lemma_project_actions_cover(own, present, upto - 1, k);
        if !present.contains(own[k].0) {
            let at = choose|at: int|
                0 <= at < created_paths(before).len() && created_paths(before)[at] == own[k].0;
            assert(steps[at] == before[at]);
            assert(created_paths(steps)[at] == own[k].0);
        }
    } else if !present.contains(own[k].0) {
        let at = steps.len() - 1;
        assert(steps[at] == project_action(own[k].0, own[k].1));
        assert(created_paths(steps)[at] == own[k].0);
    }
}

/// Where every project among the first `upto` is present, no step is
/// planned for them.
pub proof fn lemma_project_actions_none(
    own: Seq<(Seq<char>, ProjectModel)>,
    present: Seq<Seq<char>>,
    upto: int,
)
    requires
        0 <= upto <= own.len(),
        forall|k: int| 0 <= k < upto ==> present.contains(#[trigger] own[k].0),
    ensures
        project_actions(own, present, upto) == Seq::<ActionModel>::empty(),
    decreases upto,
{
    if upto > 0 {
        lemma_project_actions_none(own, present, upto - 1);
        assert(present.contains(own[upto - 1].0));
    }
}

/// What holds of `later` when it holds every path of `present` and every
/// path that `steps` create.
pub open spec fn holds_all(later: Seq<Seq<char>>, present: Seq<Seq<char>>, steps: Seq<ActionModel>) -> bool {
    &&& forall|p: Seq<char>| present.contains(p) ==> later.contains(p)
    &&& forall|p: Seq<char>| created_paths(steps).contains(p) ==> later.contains(p)
}

/// Once the steps that restore a workspace are done, restoring it again
/// takes no step.
pub proof fn lemma_workspace_plan_settles(
    path: Seq<char>,
    ws: WorkspaceModel,
    include_projects: bool,
    present: Seq<Seq<char>>,
    later: Seq<Seq<char>>,
)
    requires
        holds_all(later, present, workspace_plan(path, ws, include_projects, present)),
    ensures
        workspace_plan(path, ws, include_projects, later) == Seq::<ActionModel>::empty(),
{
    let steps = workspace_plan(path, ws, include_projects, present);
    let own = own_project_entries(path, ws);
    let n = ws.projects.len() as int;
    if !present.contains(path) {
        assert(steps[0] == ActionModel::CreateWorkspaceDir(path));
        assert(created_paths(steps)[0] == path);
    }
    assert(later.contains(path));
    if include_projects {
        let directory: Seq<ActionModel> = if present.contains(path) {
            Seq::empty()
        } else {
            seq![ActionModel::CreateWorkspaceDir(path)]
        };
        let projects = project_actions(own, present, n);
        assert(steps == directory + projects);
        assert forall|k: int| 0 <= k < n implies later.contains(#[trigger] own[k].0) by {
            lemma_project_actions_cover(own, present, n, k);
            if !present.contains(own[k].0) {
                let at = choose|at: int|
                    0 <= at < created_paths(projects).len() && created_paths(projects)[at]
                        == own[k].0;
                assert(steps[directory.len() + at] == projects[at]);
                assert(created_paths(steps)[directory.len() + at] == own[k].0);
            }
        }
        lemma_project_actions_none(own, later, n);
        assert(workspace_plan(path, ws, include_projects, later) =~= Seq::<ActionModel>::empty());
    }
}

/// The steps planned for the first `a` workspaces open those planned for
/// the first `b`.
pub proof fn lemma_all_workspaces_prefix(
    entries: Seq<(Seq<char>, WorkspaceModel)>,
    include_projects: bool,
    present: Seq<Seq<char>>,
    a: int,
    b: int,
)
    requires
        0 <= a <= b,
    ensures
        all_workspaces_plan(entries, include_projects, present, a).len() <= all_workspaces_plan(
            entries,
            include_projects,
            present,
            b,
        ).len(),
        forall|k: int|
            0 <= k < all_workspaces_plan(entries, include_projects, present, a).len()
                ==> all_workspaces_plan(entries, include_projects, present, b)[k]
                == all_workspaces_plan(entries, include_projects, present, a)[k],
    decreases b - a,
{
    if a < b {
        lemma_all_workspaces_prefix(entries, include_projects, present, a, b - 1);
    }
}

/// Once the steps that restore every missing workspace are done, no
/// workspace among the first `upto` is missing.
pub proof fn lemma_all_workspaces_settle(
    entries: Seq<(Seq<char>, WorkspaceModel)>,
    include_projects: bool,
    present: Seq<Seq<char>>,
    later: Seq<Seq<char>>,
    upto: int,
)
    requires
        0 <= upto <= entries.len(),
        holds_all(later, present, all_workspaces_plan(entries, include_projects, present, upto)),
    ensures
        all_workspaces_plan(entries, include_projects, later, upto) == Seq::<ActionModel>::empty(),
    decreases upto,
{
    if upto > 0 {
        let steps = all_workspaces_plan(entries, include_projects, present, upto);
        let before = all_workspaces_plan(entries, include_projects, present, upto - 1);
        lemma_all_workspaces_prefix(entries, include_projects, present, upto - 1, upto);
        assert forall|p: Seq<char>| created_paths(before).contains(p) implies later.contains(
            p,
        ) by {
            let at = choose|at: int|
                0 <= at < created_paths(before).len() && created_paths(before)[at] == p;
            assert(steps[at] == before[at]);
            assert(created_paths(steps)[at] == p);
        }
        lemma_all_workspaces_settle(entries, include_projects, present, later, upto - 1);
        let path = entries[upto - 1].0;
        if !present.contains(path) {
            let own = workspace_plan(path, entries[upto - 1].1, include_projects, present);
            assert(steps == before + own);
            assert(own[0] == ActionModel::CreateWorkspaceDir(path));
            assert(steps[before.len() as int] == own[0]);
            assert(created_paths(steps)[before.len() as int] == path);
        }
        assert(later.contains(path));
    }
}

/// Restoring is idempotent. Let a restoration be planned against the
/// paths in `present`, and let `later` hold those paths and every path
/// that the planned steps create. Then the same restoration planned
/// against `later` takes no step. A restoration that fails to find its
/// path fails the same way whatever is present.
pub proof fn lemma_restore_idempotent(
    config: Config,
    opt: RestoreOption,
    present: Seq<Seq<char>>,
    later: Seq<Seq<char>>,
)
    requires
        restore_spec(config, opt, present).is_ok() ==> holds_all(
            later,
            present,
            restore_spec(config, opt, present)->Ok_0,
        ),
    ensures
        match restore_spec(config, opt, present) {
            Ok(_) => restore_spec(config, opt, later) == Ok::<Seq<ActionModel>, Seq<char>>(
                Seq::empty(),
            ),
            Err(p) => restore_spec(config, opt, later) == Err::<Seq<ActionModel>, Seq<char>>(p),
        },
{
    let entries = config.workspace_entries();
    match opt {
        RestoreOption::Workspace { ws_path, include_projects } => {
            let target = normal_spec(ws_path@);
            if declares(entries, target) {
                lemma_workspace_plan_settles(
                    target,
                    entries[first_index(entries, target)].1,
                    include_projects,
                    present,
                    later,
                );
            }
        },
        RestoreOption::AllWorkspaces { include_projects } => {
            lemma_all_workspaces_settle(
                entries,
                include_projects,
                present,
                later,
                entries.len() as int,
            );
        },
        RestoreOption::Project { proj_path } => {
            match parent_spec(normal_spec(proj_path@)) {
                None => {},
                Some(up) => {
                    let owner = up;
                    if declares(entries, owner) {
                        let ws = entries[first_index(entries, owner)].1;
                        let first = workspace_plan(owner, ws, false, present);
                        let steps = restore_spec(config, opt, present)->Ok_0;
                        let target = normal_spec(proj_path@);
                        let declared = config.project_paths();
                        lemma_missing_contains(declared, present, target);
                        lemma_missing_contains(declared, later, target);
                        if missing_spec(declared, present).contains(target) {
                            let projects = config.project_entries();
                            let action = project_action(
                                target,
                                projects[first_index(projects, target)].1,
                            );
                            assert(steps == first.push(action));
                            assert(steps[first.len() as int] == action);
                            assert(created_paths(steps)[first.len() as int] == target);
                            assert forall|p: Seq<char>|
                                created_paths(first).contains(p) implies later.contains(p) by {
                                let at = choose|at: int|
                                    0 <= at < created_paths(first).len() && created_paths(
                                        first,
                                    )[at] == p;
                                assert(steps[at] == first[at]);
                                assert(created_paths(steps)[at] == p);
                            }
                        } else {
                            assert(steps == first);
                        }
                        lemma_workspace_plan_settles(owner, ws, false, present, later);
                    }
                },
            }
        },
    }
}

} // verus!
