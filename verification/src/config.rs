//! The declared tree of workspaces and projects: its paths, the lookup of
//! a path, and its loading from what was written.
use vstd::prelude::*;
use vstd::string::*;

use crate::error::Error;
use crate::git::default_settings;
use crate::git::overlay_spec;
use crate::git::GitConfig;
use crate::git::ProjectGitSettings;
use crate::git::RepoModel;
use crate::paths::expand_spec;
use crate::paths::is_absolute;
use crate::paths::join;
use crate::paths::join_spec;
use crate::paths::parent;
use crate::paths::parent_spec;
use crate::paths::option_str_view;
use crate::paths::resolvable;
use crate::paths::strings_view;
use crate::paths::made_absolute;
use crate::paths::try_absolute_path;
use crate::paths::try_absolute_path_from;
use crate::resolve::lemma_declared_paths_stay;
use crate::resolve::lemma_resolved_entries;
use crate::resolve::merged_settings;
use crate::resolve::resolve_list;
use crate::resolve::resolve_project;
use crate::resolve::resolve_workspace;
use crate::resolve::workspace_resolved;

verus! {

/// A project: a directory, backed by a repository where `git` is set.
#[derive(Debug, Clone, PartialEq, Eq)]
pub struct Project {
    pub git: Option<ProjectGitSettings>,
}

/// A project under the name it is declared with.
#[derive(Debug, Clone, PartialEq, Eq)]
pub struct NamedProject {
    pub name: String,
    pub project: Project,
}

/// A workspace: a directory that groups projects and further workspaces.
#[derive(Debug, PartialEq, Eq)]
pub struct Workspace {
    pub projects: Vec<NamedProject>,
    pub git: Option<GitConfig>,
    pub workspaces: Vec<NamedWorkspace>,
}

/// A workspace under the name it is declared with.
#[derive(Debug, PartialEq, Eq)]
pub struct NamedWorkspace {
    pub name: String,
    pub workspace: Workspace,
}

/// The whole declaration: the root directory, the settings that every
/// workspace inherits, and the workspaces directly below the root.
#[derive(Debug, PartialEq, Eq)]
pub struct Config {
    pub root: String,
    pub git: GitConfig,
    pub workspaces: Vec<NamedWorkspace>,
}

/// A declared workspace together with its path.
#[derive(Debug)]
pub struct WorkspaceEntry<'a> {
    pub path: String,
    pub workspace: &'a Workspace,
}

/// A project as a value.
pub ghost struct ProjectModel {
    pub git: Option<RepoModel>,
}

/// A workspace as a value: its projects and its workspaces by name, in the
/// order of their declaration.
pub ghost struct WorkspaceModel {
    pub projects: Seq<(Seq<char>, ProjectModel)>,
    pub git: Option<GitConfig>,
    pub workspaces: Seq<(Seq<char>, WorkspaceModel)>,
}

impl View for Project {
    type V = ProjectModel;

    open spec fn view(&self) -> ProjectModel {
        ProjectModel {
            git: match self.git {
                Some(g) => Some(g@),
                None => None,
            },
        }
    }
}

/// The projects of a workspace as values, by name.
pub open spec fn projects_view(list: Seq<NamedProject>) -> Seq<(Seq<char>, ProjectModel)> {
    Seq::new(list.len(), |i: int| (list[i].name@, list[i].project@))
}

/// A workspace as a value.
pub open spec fn workspace_view(ws: Workspace) -> WorkspaceModel
    decreases ws,
{
    WorkspaceModel {
        projects: projects_view(ws.projects@),
        git: ws.git,
        workspaces: Seq::new(
            ws.workspaces@.len(),
            |i: int|
                if 0 <= i < ws.workspaces@.len() {
                    (ws.workspaces@[i].name@, workspace_view(ws.workspaces@[i].workspace))
                } else {
                    arbitrary()
                },
        ),
    }
}

impl View for Workspace {
    type V = WorkspaceModel;

    open spec fn view(&self) -> WorkspaceModel {
        workspace_view(*self)
    }
}

/// The workspaces of one level as values, by name.
pub open spec fn workspaces_view(list: Seq<NamedWorkspace>) -> Seq<(Seq<char>, WorkspaceModel)> {
    Seq::new(list.len(), |i: int| (list[i].name@, list[i].workspace@))
}

/// Workspaces with their paths as values.
pub open spec fn entries_view(list: Seq<WorkspaceEntry>) -> Seq<(Seq<char>, WorkspaceModel)> {
    Seq::new(list.len(), |i: int| (list[i].path@, list[i].workspace@))
}

/// The workspaces declared in `list` from index `from` on and in all that
/// they hold, each with its path: the path of the level above joined
/// with its name. A workspace comes before the workspaces it holds, and
/// those before the workspace declared after it.
pub open spec fn workspace_entries(
    parent: Seq<char>,
    list: Seq<(Seq<char>, WorkspaceModel)>,
    from: int,
) -> Seq<(Seq<char>, WorkspaceModel)>
    decreases list, list.len() - from,
{
    if 0 <= from < list.len() {
        let path = join_spec(parent, list[from].0);
        seq![(path, list[from].1)] + workspace_entries(path, list[from].1.workspaces, 0)
            + workspace_entries(parent, list, from + 1)
    } else {
        Seq::empty()
    }
}

/// The projects that the workspace at `path` declares itself, each with
/// its path.
pub open spec fn own_project_entries(path: Seq<char>, ws: WorkspaceModel) -> Seq<
    (Seq<char>, ProjectModel),
> {
    Seq::new(ws.projects.len(), |j: int| (join_spec(path, ws.projects[j].0), ws.projects[j].1))
}

/// The projects of the first `upto` workspaces of `entries`, workspace by
/// workspace.
pub open spec fn project_entries(entries: Seq<(Seq<char>, WorkspaceModel)>, upto: int) -> Seq<
    (Seq<char>, ProjectModel),
>
    decreases upto,
{
    if upto <= 0 {
        Seq::empty()
    } else {
        project_entries(entries, upto - 1) + own_project_entries(
            entries[upto - 1].0,
            entries[upto - 1].1,
        )
    }
}

/// The paths of `entries`, in their order.
pub open spec fn paths_of<T>(entries: Seq<(Seq<char>, T)>) -> Seq<Seq<char>> {
    Seq::new(entries.len(), |i: int| entries[i].0)
}

/// `entries` holds `target`, and holds it first at index `i`.
pub open spec fn first_at<T>(entries: Seq<(Seq<char>, T)>, target: Seq<char>, i: int) -> bool {
    &&& 0 <= i < entries.len()
    &&& entries[i].0 == target
    &&& forall|j: int| 0 <= j < i ==> entries[j].0 != target
}

/// Some entry has the path `target`.
pub open spec fn declares<T>(entries: Seq<(Seq<char>, T)>, target: Seq<char>) -> bool {
    exists|i: int| 0 <= i < entries.len() && entries[i].0 == target
}

/// The path of every workspace and of every project declared in `list`
/// below `root`.
pub open spec fn declared_paths(root: Seq<char>, list: Seq<(Seq<char>, WorkspaceModel)>) -> Seq<
    Seq<char>,
> {
    let entries = workspace_entries(root, list, 0);
    paths_of(entries) + paths_of(project_entries(entries, entries.len() as int))
}

/// The first of two equal strings in `paths` stands before index `j`,
/// the second at it.
pub open spec fn repeats_at(paths: Seq<Seq<char>>, j: int) -> bool {
    0 <= j < paths.len() && exists|i: int| 0 <= i < j && paths[i] == paths[j]
}

/// The value of a workspace holds the values of its projects and of its
/// workspaces, under their names and in their order.
pub proof fn lemma_view_children(ws: Workspace)
    ensures
        ws@.workspaces == workspaces_view(ws.workspaces@),
        ws@.projects == projects_view(ws.projects@),
        ws@.git == ws.git,
{
    assert(ws@.workspaces =~= workspaces_view(ws.workspaces@));
}

/// The projects of the first `a` workspaces open the projects of the
/// first `b`, for `a` up to `b`.
pub proof fn lemma_project_entries_prefix(
    entries: Seq<(Seq<char>, WorkspaceModel)>,
    a: int,
    b: int,
)
    requires
        0 <= a <= b,
    ensures
        project_entries(entries, a).len() <= project_entries(entries, b).len(),
        forall|k: int|
            0 <= k < project_entries(entries, a).len() ==> project_entries(entries, b)[k]
                == project_entries(entries, a)[k],
    decreases b - a,
{
    if a < b {
        lemma_project_entries_prefix(entries, a, b - 1);
    }
}

/// The paths of two lists of entries, one after the other.
pub proof fn lemma_paths_of_concat<T>(a: Seq<(Seq<char>, T)>, b: Seq<(Seq<char>, T)>)
    ensures
        paths_of(a + b) == paths_of(a) + paths_of(b),
{
    assert(paths_of(a + b) =~= paths_of(a) + paths_of(b));
}

/// The first index at which `paths` repeats an earlier string, if it
/// repeats any.
pub fn first_repeat(paths: &Vec<String>) -> (at: Option<usize>)
    ensures
        match at {
            Some(j) => {
                &&& repeats_at(strings_view(paths@), j as int)
                &&& forall|i: int| 0 <= i < j ==> !repeats_at(strings_view(paths@), i)
            },
            None => strings_view(paths@).no_duplicates(),
        },
{
    let n: usize = paths.len();
    let mut j: usize = 0;
    while j < n
        invariant
            j <= n,
            n == paths@.len(),
            forall|a: int, b: int| 0 <= a < b < j ==> paths@[a]@ != paths@[b]@,
        decreases n - j,
    {
        let mut i: usize = 0;
        while i < j
            invariant
                i <= j < n,
                n == paths@.len(),
                forall|a: int, b: int| 0 <= a < b < j ==> paths@[a]@ != paths@[b]@,
                forall|a: int| 0 <= a < i ==> paths@[a]@ != paths@[j as int]@,
            decreases j - i,
        {
            if paths[i] == paths[j] {
                assert(strings_view(paths@)[i as int] == strings_view(paths@)[j as int]);
                assert forall|b: int| 0 <= b < j implies !repeats_at(strings_view(paths@), b) by {
                    if repeats_at(strings_view(paths@), b) {
                        let a = choose|a: int|
                            0 <= a < b && strings_view(paths@)[a] == strings_view(paths@)[b];
                        assert(paths@[a]@ != paths@[b]@);
                    }
                }
                return Some(j);
            }
            i = i + 1;
        }
        j = j + 1;
    }
    assert forall|a: int, b: int|
        0 <= a < strings_view(paths@).len() && 0 <= b < strings_view(paths@).len() && a
            != b implies strings_view(paths@)[a] != strings_view(paths@)[b] by {
        if a < b {
            assert(paths@[a]@ != paths@[b]@);
        } else {
            assert(paths@[b]@ != paths@[a]@);
        }
    }
    None
}

/// Appends to `out` the workspaces declared in `list` and in all that they
/// hold, each with its path below `parent`.
pub fn flatten_into<'a>(
    parent: &str,
    list: &'a Vec<NamedWorkspace>,
    out: &mut Vec<WorkspaceEntry<'a>>,
)
    ensures
        entries_view(final(out)@) == entries_view(old(out)@) + workspace_entries(
            parent@,
            workspaces_view(list@),
            0,
        ),
    decreases list,
{
    let n: usize = list.len();
    let mut i: usize = 0;
    assert(entries_view(out@) + Seq::empty() =~= entries_view(out@));
    while i < n
        invariant
            i <= n,
            n == list@.len(),
            entries_view(out@) + workspace_entries(parent@, workspaces_view(list@), i as int)
                == entries_view(old(out)@) + workspace_entries(
                parent@,
                workspaces_view(list@),
                0,
            ),
        decreases n - i,
    {
        let named = &list[i];
        let path = join(parent, named.name.as_str());
        let ghost before = entries_view(out@);
        let ghost rest = workspace_entries(parent@, workspaces_view(list@), i + 1);
        out.push(WorkspaceEntry { path: path.clone(), workspace: &named.workspace });
        assert(entries_view(out@) =~= before + seq![(path@, named.workspace@)]);
        flatten_into(path.as_str(), &named.workspace.workspaces, out);
        proof {
            lemma_view_children(named.workspace);
            let below = workspace_entries(path@, named.workspace@.workspaces, 0);
            assert(workspaces_view(list@)[i as int] == (named.name@, named.workspace@));
            assert(workspace_entries(parent@, workspaces_view(list@), i as int) == seq![
                (path@, named.workspace@),
            ] + below + rest);
            assert(entries_view(out@) + rest =~= before + (seq![(path@, named.workspace@)] + below
                + rest));
        }
        i = i + 1;
    }
    assert(entries_view(out@) + Seq::empty() =~= entries_view(out@));
}

impl Project {
    /// A project that is a directory and nothing more.
    pub fn empty() -> (project: Project)
        ensures
            project@ == (ProjectModel { git: None }),
    {
        Project { git: None }
    }

    /// A project backed by the repository of `settings`.
    pub fn with_git(settings: ProjectGitSettings) -> (project: Project)
        ensures
            project@ == (ProjectModel { git: Some(settings@) }),
    {
        Project { git: Some(settings) }
    }

    /// Lays the settings written at this project over `g`, which it
    /// inherits. A project without a repository stays as it is.
    pub fn overlay_git_config(&mut self, g: GitConfig)
        ensures
            final(self)@ == resolve_project(old(self)@, g),
    {
        match &mut self.git {
            Some(settings) => {
                settings.core_settings = settings.core_settings.overlay(g);
            },
            None => {},
        }
    }
}

impl Workspace {
    /// Lays the settings written at this workspace over `g`, which it
    /// inherits, and hands the result down to its projects and workspaces.
    pub fn overlay_git_config(&mut self, g: GitConfig)
        ensures
            final(self)@ == resolve_workspace(old(self)@, g),
        decreases *old(self),
    {
        let own = match self.git {
            Some(own) => own,
            None => GitConfig::unset(),
        };
        let merged = own.overlay(g);
        let ghost before = *self;
        proof {
            lemma_view_children(before);
        }
        let n: usize = self.projects.len();
        let mut j: usize = 0;
        while j < n
            invariant
                j <= n,
                n == before.projects@.len(),
                self.projects@.len() == n,
                self.workspaces == before.workspaces,
                self.git == before.git,
                forall|k: int|
                    0 <= k < j ==> self.projects@[k].name@ == before.projects@[k].name@
                        && self.projects@[k].project@ == resolve_project(
                        #[trigger] before.projects@[k].project@,
                        merged,
                    ),
                forall|k: int| j <= k < n ==> self.projects@[k] == before.projects@[k],
            decreases n - j,
        {
            self.projects[j].project.overlay_git_config(merged);
            j = j + 1;
        }
        let m: usize = self.workspaces.len();
        let mut i: usize = 0;
        let ghost projects_done = self.projects;
        while i < m
            invariant
                i <= m,
                m == before.workspaces@.len(),
                self.workspaces@.len() == m,
                self.projects == projects_done,
                self.git == before.git,
                before == *old(self),
                forall|k: int|
                    0 <= k < i ==> self.workspaces@[k].name@ == before.workspaces@[k].name@
                        && self.workspaces@[k].workspace@ == resolve_workspace(
                        #[trigger] before.workspaces@[k].workspace@,
                        merged,
                    ),
                forall|k: int| i <= k < m ==> self.workspaces@[k] == before.workspaces@[k],
            decreases m - i,
        {
            proof {
                assert(self.workspaces@[i as int] == before.workspaces@[i as int]);
                assert(decreases_to!(before.workspaces => before.workspaces[i as int]));
            }
            self.workspaces[i].workspace.overlay_git_config(merged);
            i = i + 1;
        }
        self.git = Some(merged);
        proof {
            lemma_view_children(*self);
            let after = resolve_workspace(before@, g);
            assert(merged == merged_settings(before@.git, g));
            assert(self@.projects =~= after.projects);
            assert(self@.workspaces =~= after.workspaces);
        }
    }

    /// The paths of the projects that this workspace declares itself, the
    /// workspace being at `parent`.
    pub fn collect_project_paths(&self, parent: &str) -> (paths: Vec<String>)
        ensures
            strings_view(paths@) == paths_of(own_project_entries(parent@, self@)),
    {
        let mut paths: Vec<String> = Vec::new();
        let n: usize = self.projects.len();
        let mut j: usize = 0;
        while j < n
            invariant
                j <= n,
                n == self.projects@.len(),
                paths@.len() == j,
                forall|k: int|
                    0 <= k < j ==> #[trigger] paths@[k]@ == join_spec(
                        parent@,
                        self.projects@[k].name@,
                    ),
            decreases n - j,
        {
            paths.push(join(parent, self.projects[j].name.as_str()));
            j = j + 1;
        }
        proof {
            lemma_view_children(*self);
            assert(strings_view(paths@) =~= paths_of(own_project_entries(parent@, self@)));
        }
        paths
    }
}

impl Config {
    /// Every declared workspace with its path.
    pub open spec fn workspace_entries(self) -> Seq<(Seq<char>, WorkspaceModel)> {
        workspace_entries(self.root@, workspaces_view(self.workspaces@), 0)
    }

    /// Every declared project with its path.
    pub open spec fn project_entries(self) -> Seq<(Seq<char>, ProjectModel)> {
        project_entries(self.workspace_entries(), self.workspace_entries().len() as int)
    }

    /// The path of every declared workspace.
    pub open spec fn workspace_paths(self) -> Seq<Seq<char>> {
        paths_of(self.workspace_entries())
    }

    /// The path of every declared project.
    pub open spec fn project_paths(self) -> Seq<Seq<char>> {
        paths_of(self.project_entries())
    }

    /// The path of every declared workspace and project.
    pub open spec fn all_paths(self) -> Seq<Seq<char>> {
        declared_paths(self.root@, workspaces_view(self.workspaces@))
    }

    /// What holds of a loaded configuration: the root is absolute, no two
    /// declared nodes share a path, and every setting is decided, at the
    /// root, at each workspace and at each project with a repository.
    pub open spec fn wf(self) -> bool {
        &&& is_absolute(self.root@)
        &&& self.all_paths().no_duplicates()
        &&& self.git.is_resolved()
        &&& forall|k: int|
            0 <= k < self.workspace_entries().len() ==> workspace_resolved(
                #[trigger] self.workspace_entries()[k].1,
            )
    }

    /// What loading comes to where `home` is the home directory, if one is
    /// known. The configuration holds `root` made absolute, with `home`
    /// for a leading tilde; the settings `git` written at the top, laid
    /// over the defaults; and the workspaces `written`, each resolved
    /// against the settings above it.
    ///
    /// A root that cannot be made absolute is a path error. Two declared
    /// nodes with one path are a parse error.
    pub open spec fn loaded_from(
        loaded: Result<Config, Error>,
        root: Seq<char>,
        git: GitConfig,
        written: Seq<(Seq<char>, WorkspaceModel)>,
        home: Option<Seq<char>>,
    ) -> bool {
        match loaded {
            Ok(config) => {
                &&& config.wf()
                &&& resolvable(root, home)
                &&& config.root@ == expand_spec(root, home.unwrap())
                &&& config.git == overlay_spec(git, default_settings())
                &&& workspaces_view(config.workspaces@) == resolve_list(written, config.git)
            },
            Err(Error::Path(p)) => p@ == root && !resolvable(root, home),
            Err(Error::Parse(_)) => {
                &&& resolvable(root, home)
                &&& !declared_paths(expand_spec(root, home.unwrap()), written).no_duplicates()
            },
            Err(_) => false,
        }
    }

    /// Builds the configuration from what was written, with `home` as the
    /// home directory.
    pub fn load_from(root: &str, git: GitConfig, workspaces: Vec<NamedWorkspace>, home: Option<&str>) -> (loaded:
        Result<Config, Error>)
        ensures
            Config::loaded_from(
                loaded,
                root@,
                git,
                workspaces_view(workspaces@),
                option_str_view(home),
            ),
    {
        let root = match try_absolute_path_from(root, home) {
            Ok(root) => root,
            Err(e) => {
                return Err(e);
            },
        };
        let top = git.overlay(GitConfig::defaults());
        let ghost written = workspaces_view(workspaces@);
        let mut workspaces = workspaces;
        let n: usize = workspaces.len();
        let mut i: usize = 0;
        while i < n
            invariant
                i <= n,
                n == written.len(),
                workspaces@.len() == n,
                forall|k: int|
                    0 <= k < i ==> workspaces@[k].name@ == (#[trigger] written[k]).0
                        && workspaces@[k].workspace@ == resolve_workspace(written[k].1, top),
                forall|k: int|
                    i <= k < n ==> workspaces@[k].name@ == (#[trigger] written[k]).0
                        && workspaces@[k].workspace@ == written[k].1,
            decreases n - i,
        {
            workspaces[i].workspace.overlay_git_config(top);
            i = i + 1;
        }
        assert(workspaces_view(workspaces@) =~= resolve_list(written, top));
        let config = Config { root, git: top, workspaces };
        proof {
            lemma_declared_paths_stay(config.root@, written, top);
        }
        let mut paths = config.collect_workspace_paths();
        let mut project_paths = config.collect_project_paths();
        let ghost first = paths@;
        let ghost second = project_paths@;
        paths.append(&mut project_paths);
        assert(strings_view(paths@) =~= strings_view(first) + strings_view(second));
        match first_repeat(&paths) {
            Some(j) => {
                let mut text = String::from_str("two declared nodes share the path ");
                text.append(paths[j].as_str());
                Err(Error::Parse(text))
            },
            None => {
                proof {
                    lemma_resolved_entries(config.root@, written, 0, top);
                }
                Ok(config)
            },
        }
    }

    /// Builds the configuration from what was written, with the home
    /// directory of the current user for a leading tilde in `root`.
    /// Whatever the environment gives as the home directory, the
    /// configuration is built with it as [`Config::load_from`] builds it.
    pub fn load(root: &str, git: GitConfig, workspaces: Vec<NamedWorkspace>) -> (loaded: Result<
        Config,
        Error,
    >)
        ensures
            exists|home: Option<Seq<char>>|
                Config::loaded_from(loaded, root@, git, workspaces_view(workspaces@), home),
    {
        let ghost written = workspaces_view(workspaces@);
        match try_absolute_path(root) {
            Ok(absolute) => {
                let ghost home = choose|home: Option<Seq<char>>|
                    made_absolute(Ok::<String, Error>(absolute), root@, home);
                let loaded = Config::load_from(absolute.as_str(), git, workspaces, None);
                proof {
                    assert(!crate::paths::has_tilde_prefix(absolute@));
                    assert(Config::loaded_from(loaded, root@, git, written, home));
                }
                loaded
            },
            Err(e) => {
                let ghost home = choose|home: Option<Seq<char>>|
                    made_absolute(Err::<String, Error>(e), root@, home);
                let loaded = Err(e);
                proof {
                    assert(Config::loaded_from(loaded, root@, git, written, home));
                }
                loaded
            },
        }
    }

    /// Every declared workspace, at any depth, with its path.
    pub fn flatten(&self) -> (entries: Vec<WorkspaceEntry<'_>>)
        ensures
            entries_view(entries@) == self.workspace_entries(),
    {
        let mut entries: Vec<WorkspaceEntry<'_>> = Vec::new();
        assert(entries_view(entries@) =~= Seq::empty());
        flatten_into(self.root.as_str(), &self.workspaces, &mut entries);
        assert(Seq::empty() + self.workspace_entries() =~= self.workspace_entries());
        entries
    }

    /// The declared workspace whose path is `ws_path`. A path that no
    /// declared workspace has is not found; so is every path that does
    /// not lie below the root, a relative one among them.
    pub fn lookup_workspace(&self, ws_path: &str) -> (found: Result<&Workspace, Error>)
        ensures
            match found {
                Ok(ws) => exists|i: int|
                    first_at(self.workspace_entries(), ws_path@, i) && self.workspace_entries()[i].1
                        == ws@,
                Err(Error::NotFound(p)) => p@ == ws_path@ && !declares(
                    self.workspace_entries(),
                    ws_path@,
                ),
                Err(_) => false,
            },
    {
        let target = String::from_str(ws_path);
        let entries = self.flatten();
        let n: usize = entries.len();
        let mut i: usize = 0;
        while i < n
            invariant
                i <= n,
                n == entries@.len(),
                entries_view(entries@) == self.workspace_entries(),
                target@ == ws_path@,
                forall|j: int| 0 <= j < i ==> self.workspace_entries()[j].0 != target@,
            decreases n - i,
        {
            if entries[i].path == target {
                let ws: &Workspace = entries[i].workspace;
                assert(first_at(self.workspace_entries(), target@, i as int));
                return Ok(ws);
            }
            i = i + 1;
        }
        Err(Error::NotFound(String::from_str(ws_path)))
    }

    /// What looking up the project at `path` fails with, if it fails:
    /// the path itself where it has no level above it; the path one
    /// level up where no workspace is declared there; the path itself
    /// where the workspace is declared and the project is not.
    pub open spec fn project_not_found(self, path: Seq<char>) -> Option<Seq<char>> {
        match parent_spec(path) {
            None => Some(path),
            Some(up) => if !declares(self.workspace_entries(), up) {
                Some(up)
            } else if !declares(self.project_entries(), path) {
                Some(path)
            } else {
                None
            },
        }
    }

    /// The declared project whose path is `proj_path`, in a declared
    /// workspace one level up. Where it is not found, the error names
    /// what was missing: the workspace one level up if none is declared
    /// there, else the project.
    pub fn lookup_project(&self, proj_path: &str) -> (found: Result<&Project, Error>)
        ensures
            match found {
                Ok(project) => self.project_not_found(proj_path@).is_none() && exists|i: int|
                    first_at(self.project_entries(), proj_path@, i) && self.project_entries()[i].1
                        == project@,
                Err(Error::NotFound(p)) => self.project_not_found(proj_path@) == Some(p@),
                Err(_) => false,
            },
    {
        let Some(up) = parent(proj_path) else {
            return Err(Error::NotFound(String::from_str(proj_path)));
        };
        match self.lookup_workspace(up.as_str()) {
            Ok(_) => {},
            Err(e) => {
                return Err(e);
            },
        }
        let target = String::from_str(proj_path);
        let entries = self.flatten();
        let ghost flat = entries_view(entries@);
        let n: usize = entries.len();
        let mut i: usize = 0;
        while i < n
            invariant
                i <= n,
                n == entries@.len(),
                flat == entries_view(entries@),
                flat == self.workspace_entries(),
                target@ == proj_path@,
                declares(self.workspace_entries(), up@),
                parent_spec(proj_path@) == Some(up@),
                !declares(project_entries(flat, i as int), target@),
            decreases n - i,
        {
            let ws: &Workspace = entries[i].workspace;
            let ghost done = project_entries(flat, i as int);
            let ghost own = own_project_entries(flat[i as int].0, flat[i as int].1);
            proof {
                lemma_view_children(*ws);
            }
            let m: usize = ws.projects.len();
            let mut j: usize = 0;
            while j < m
                invariant
                    j <= m,
                    m == ws.projects@.len(),
                    i < n,
                    n == entries@.len(),
                    flat == entries_view(entries@),
                    flat == self.workspace_entries(),
                    ws == entries@[i as int].workspace,
                    ws@.projects == projects_view(ws.projects@),
                    done == project_entries(flat, i as int),
                    own == own_project_entries(flat[i as int].0, flat[i as int].1),
                    target@ == proj_path@,
                declares(self.workspace_entries(), up@),
                parent_spec(proj_path@) == Some(up@),
                    !declares(done, target@),
                    forall|k: int| 0 <= k < j ==> own[k].0 != target@,
                decreases m - j,
            {
                let path = join(entries[i].path.as_str(), ws.projects[j].name.as_str());
                if path == target {
                    let project: &Project = &ws.projects[j].project;
                    proof {
                        let all = self.project_entries();
                        lemma_project_entries_prefix(flat, i + 1, n as int);
                        let at = done.len() + j;
                        assert((done + own)[at] == own[j as int]);
                        assert forall|k: int| 0 <= k < at implies all[k].0 != target@ by {
                            if k < done.len() {
                                assert(all[k] == done[k]);
                            } else {
                                assert(all[k] == own[k - done.len()]);
                            }
                        }
                        assert(first_at(all, target@, at));
                    }
                    return Ok(project);
                }
                j = j + 1;
            }
            proof {
                let next = project_entries(flat, i + 1);
                assert(next == done + own);
                if declares(next, target@) {
                    let k = choose|k: int| 0 <= k < next.len() && next[k].0 == target@;
                    if k < done.len() {
                        assert(done[k].0 == target@);
                    } else {
                        assert(own[k - done.len()].0 == target@);
                    }
                }
            }
            i = i + 1;
        }
        Err(Error::NotFound(String::from_str(proj_path)))
    }

    /// One path for each declared workspace, at any depth: the root joined
    /// with the names that lead to it.
    pub fn collect_workspace_paths(&self) -> (paths: Vec<String>)
        ensures
            strings_view(paths@) == self.workspace_paths(),
    {
        let entries = self.flatten();
        let mut paths: Vec<String> = Vec::new();
        let n: usize = entries.len();
        let mut i: usize = 0;
        while i < n
            invariant
                i <= n,
                n == entries@.len(),
                paths@.len() == i,
                forall|k: int| 0 <= k < i ==> #[trigger] paths@[k]@ == entries@[k].path@,
            decreases n - i,
        {
            paths.push(entries[i].path.clone());
            i = i + 1;
        }
        assert(strings_view(paths@) =~= paths_of(entries_view(entries@)));
        paths
    }

    /// One path for each declared project, at any depth: the path of its
    /// workspace joined with its name.
    pub fn collect_project_paths(&self) -> (paths: Vec<String>)
        ensures
            strings_view(paths@) == self.project_paths(),
    {
        let entries = self.flatten();
        let mut paths: Vec<String> = Vec::new();
        let n: usize = entries.len();
        let mut i: usize = 0;
        assert(strings_view(paths@) =~= paths_of(project_entries(entries_view(entries@), 0)));
        while i < n
            invariant
                i <= n,
                n == entries@.len(),
                strings_view(paths@) == paths_of(
                    project_entries(entries_view(entries@), i as int),
                ),
            decreases n - i,
        {
            let ghost before = paths@;
            let mut own = entries[i].workspace.collect_project_paths(entries[i].path.as_str());
            let ghost added = own@;
            paths.append(&mut own);
            proof {
                let flat = entries_view(entries@);
                lemma_paths_of_concat(
                    project_entries(flat, i as int),
                    own_project_entries(flat[i as int].0, flat[i as int].1),
                );
                assert(strings_view(paths@) =~= strings_view(before) + strings_view(added));
            }
            i = i + 1;
        }
        paths
    }
}

} // verus!
