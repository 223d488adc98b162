//! The inheritance of git settings down the tree, and what holds of the
//! tree once every setting is resolved.
use vstd::prelude::*;

use crate::config::declared_paths;
use crate::config::lemma_paths_of_concat;
use crate::config::own_project_entries;
use crate::config::paths_of;
use crate::config::project_entries;
use crate::config::workspace_entries;
use crate::config::ProjectModel;
use crate::config::WorkspaceModel;
use crate::git::default_settings;
use crate::git::overlay_spec;
use crate::git::unset_settings;
use crate::git::GitCloneProtocol;
use crate::git::GitCloneStrategy;
use crate::git::GitConfig;
use crate::git::GitHost;
use crate::git::RepoModel;
use crate::paths::join_spec;

verus! {

/// A project under inherited settings: where it names a repository, each
/// setting written beside it stays and each one left out is inherited.
pub open spec fn resolve_project(p: ProjectModel, inherited: GitConfig) -> ProjectModel {
    ProjectModel {
        git: match p.git {
            Some(r) => Some(
                RepoModel { repo: r.repo, core_settings: overlay_spec(r.core_settings, inherited) },
            ),
            None => None,
        },
    }
}

/// The settings in force at a workspace: its own laid over the inherited.
pub open spec fn merged_settings(own: Option<GitConfig>, inherited: GitConfig) -> GitConfig {
    overlay_spec(
        match own {
            Some(g) => g,
            None => unset_settings(),
        },
        inherited,
    )
}

/// A workspace under inherited settings: it takes the settings in force
/// at it, and its projects and workspaces inherit those.
pub open spec fn resolve_workspace(ws: WorkspaceModel, inherited: GitConfig) -> WorkspaceModel
    decreases ws,
{
    let merged = merged_settings(ws.git, inherited);
    WorkspaceModel {
        projects: Seq::new(
            ws.projects.len(),
            |j: int| (ws.projects[j].0, resolve_project(ws.projects[j].1, merged)),
        ),
        git: Some(merged),
        workspaces: Seq::new(
            ws.workspaces.len(),
            |i: int|
                if 0 <= i < ws.workspaces.len() {
                    (ws.workspaces[i].0, resolve_workspace(ws.workspaces[i].1, merged))
                } else {
                    arbitrary()
                },
        ),
    }
}

/// Every workspace of `list` under the same inherited settings.
pub open spec fn resolve_list(list: Seq<(Seq<char>, WorkspaceModel)>, inherited: GitConfig) -> Seq<
    (Seq<char>, WorkspaceModel),
> {
    Seq::new(list.len(), |i: int| (list[i].0, resolve_workspace(list[i].1, inherited)))
}

/// Every setting of the repository of `p`, if it has one, is decided.
pub open spec fn project_resolved(p: ProjectModel) -> bool {
    p.git.is_some() ==> p.git.unwrap().core_settings.is_resolved()
}

/// Every setting of the workspace is decided, and so is every setting of
/// the projects that it declares itself.
pub open spec fn workspace_resolved(ws: WorkspaceModel) -> bool {
    &&& ws.git.is_some()
    &&& ws.git.unwrap().is_resolved()
    &&& forall|j: int| 0 <= j < ws.projects.len() ==> project_resolved(#[trigger] ws.projects[j].1)
}

/// Under decided settings every workspace comes out with decided
/// settings, at any depth.
pub proof fn lemma_resolved_entries(
    parent: Seq<char>,
    list: Seq<(Seq<char>, WorkspaceModel)>,
    from: int,
    inherited: GitConfig,
)
    requires
        inherited.is_resolved(),
    ensures
        forall|k: int|
            0 <= k < workspace_entries(parent, resolve_list(list, inherited), from).len()
                ==> workspace_resolved(
                #[trigger] workspace_entries(parent, resolve_list(list, inherited), from)[k].1,
            ),
    decreases list, list.len() - from,
{
    let resolved = resolve_list(list, inherited);
    if 0 <= from < list.len() {
        let ws = list[from].1;
        let merged = merged_settings(ws.git, inherited);
        let path = join_spec(parent, resolved[from].0);
        assert(resolved[from].1.workspaces =~= resolve_list(ws.workspaces, merged));
        lemma_resolved_entries(path, ws.workspaces, 0, merged);
        lemma_resolved_entries(parent, list, from + 1, inherited);
        assert(workspace_resolved(resolved[from].1));
        let head = seq![(path, resolved[from].1)];
        let below = workspace_entries(path, resolve_list(ws.workspaces, merged), 0);
        let rest = workspace_entries(parent, resolved, from + 1);
        let all = workspace_entries(parent, resolved, from);
        assert(all == head + below + rest);
        assert forall|k: int| 0 <= k < all.len() implies workspace_resolved(#[trigger] all[k].1) by {
            if k == 0 {
                assert(all[k] == head[0]);
            } else if k < 1 + below.len() {
                assert(all[k] == below[k - 1]);
            } else {
                assert(all[k] == rest[k - 1 - below.len()]);
            }
        }
    }
}

/// The settings written at a workspace; nothing set where none are
/// written.
pub open spec fn own_settings(ws: WorkspaceModel) -> GitConfig {
    match ws.git {
        Some(g) => g,
        None => unset_settings(),
    }
}

/// The settings that each workspace of `list` from index `from` on, and
/// each workspace that they hold, inherits, in the order of the entries:
/// a workspace of `list` inherits `inherited`, and a workspace held by
/// another inherits the settings in force at that one.
pub open spec fn inherited_settings(
    list: Seq<(Seq<char>, WorkspaceModel)>,
    from: int,
    inherited: GitConfig,
) -> Seq<GitConfig>
    decreases list, list.len() - from,
{
    if 0 <= from < list.len() {
        seq![inherited] + inherited_settings(
            list[from].1.workspaces,
            0,
            merged_settings(list[from].1.git, inherited),
        ) + inherited_settings(list, from + 1, inherited)
    } else {
        Seq::empty()
    }
}

/// A field that is set stays; a field that is not takes the inherited
/// value.
pub proof fn lemma_overlay_fields(own: GitConfig, inherited: GitConfig)
    ensures
        own.host.is_some() ==> overlay_spec(own, inherited).host == own.host,
        own.host.is_none() ==> overlay_spec(own, inherited).host == inherited.host,
        own.protocol.is_some() ==> overlay_spec(own, inherited).protocol == own.protocol,
        own.protocol.is_none() ==> overlay_spec(own, inherited).protocol == inherited.protocol,
        own.clone_strategy.is_some() ==> overlay_spec(own, inherited).clone_strategy
            == own.clone_strategy,
        own.clone_strategy.is_none() ==> overlay_spec(own, inherited).clone_strategy
            == inherited.clone_strategy,
{
}

/// Resolution goes entry by entry: the resolved tree has the entries of
/// the written tree, each at its path and each resolved against the
/// settings that it inherits.
pub proof fn lemma_resolution(
    parent: Seq<char>,
    list: Seq<(Seq<char>, WorkspaceModel)>,
    from: int,
    inherited: GitConfig,
)
    ensures
        workspace_entries(parent, resolve_list(list, inherited), from).len() == workspace_entries(
            parent,
            list,
            from,
        ).len(),
        inherited_settings(list, from, inherited).len() == workspace_entries(
            parent,
            list,
            from,
        ).len(),
        forall|k: int|
            0 <= k < workspace_entries(parent, list, from).len() ==> #[trigger] workspace_entries(
                parent,
                resolve_list(list, inherited),
                from,
            )[k] == (
                workspace_entries(parent, list, from)[k].0,
                resolve_workspace(
                    workspace_entries(parent, list, from)[k].1,
                    inherited_settings(list, from, inherited)[k],
                ),
            ),
    decreases list, list.len() - from,
{
    let resolved = resolve_list(list, inherited);
    if 0 <= from < list.len() {
        let ws = list[from].1;
        let merged = merged_settings(ws.git, inherited);
        let path = join_spec(parent, list[from].0);
        assert(resolved[from].1.workspaces =~= resolve_list(ws.workspaces, merged));
        lemma_resolution(path, ws.workspaces, 0, merged);
        lemma_resolution(parent, list, from + 1, inherited);
        let w_below = workspace_entries(path, ws.workspaces, 0);
        let w_rest = workspace_entries(parent, list, from + 1);
        let w_all = workspace_entries(parent, list, from);
        let r_below = workspace_entries(path, resolve_list(ws.workspaces, merged), 0);
        let r_rest = workspace_entries(parent, resolved, from + 1);
        let r_all = workspace_entries(parent, resolved, from);
        let i_below = inherited_settings(ws.workspaces, 0, merged);
        let i_rest = inherited_settings(list, from + 1, inherited);
        let i_all = inherited_settings(list, from, inherited);
        assert(w_all == seq![(path, ws)] + w_below + w_rest);
        assert(r_all == seq![(path, resolved[from].1)] + r_below + r_rest);
        assert(i_all == seq![inherited] + i_below + i_rest);
        assert forall|k: int| 0 <= k < w_all.len() implies #[trigger] r_all[k] == (
            w_all[k].0,
            resolve_workspace(w_all[k].1, i_all[k]),
        ) by {
            if k == 0 {
            } else if k < 1 + w_below.len() {
                assert(r_all[k] == r_below[k - 1]);
                assert(w_all[k] == w_below[k - 1]);
                assert(i_all[k] == i_below[k - 1]);
            } else {
                assert(r_all[k] == r_rest[k - 1 - w_below.len()]);
                assert(w_all[k] == w_rest[k - 1 - w_below.len()]);
                assert(i_all[k] == i_rest[k - 1 - w_below.len()]);
            }
        }
    }
}

/// Where no workspace sets a field, every workspace inherits that field
/// as it comes from the top.
pub proof fn lemma_inherited_unchanged(
    parent: Seq<char>,
    list: Seq<(Seq<char>, WorkspaceModel)>,
    from: int,
    inherited: GitConfig,
)
    ensures
        inherited_settings(list, from, inherited).len() == workspace_entries(
            parent,
            list,
            from,
        ).len(),
        (forall|k: int|
            0 <= k < workspace_entries(parent, list, from).len() ==> own_settings(
                #[trigger] workspace_entries(parent, list, from)[k].1,
            ).host.is_none()) ==> forall|k: int|
            0 <= k < workspace_entries(parent, list, from).len() ==> (#[trigger] inherited_settings(
                list,
                from,
                inherited,
            )[k]).host == inherited.host,
        (forall|k: int|
            0 <= k < workspace_entries(parent, list, from).len() ==> own_settings(
                #[trigger] workspace_entries(parent, list, from)[k].1,
            ).protocol.is_none()) ==> forall|k: int|
            0 <= k < workspace_entries(parent, list, from).len() ==> (#[trigger] inherited_settings(
                list,
                from,
                inherited,
            )[k]).protocol == inherited.protocol,
        (forall|k: int|
            0 <= k < workspace_entries(parent, list, from).len() ==> own_settings(
                #[trigger] workspace_entries(parent, list, from)[k].1,
            ).clone_strategy.is_none()) ==> forall|k: int|
            0 <= k < workspace_entries(parent, list, from).len() ==> (#[trigger] inherited_settings(
                list,
                from,
                inherited,
            )[k]).clone_strategy == inherited.clone_strategy,
    decreases list, list.len() - from,
{
    if 0 <= from < list.len() {
        let ws = list[from].1;
        let merged = merged_settings(ws.git, inherited);
        let path = join_spec(parent, list[from].0);
        lemma_inherited_unchanged(path, ws.workspaces, 0, merged);
        lemma_inherited_unchanged(parent, list, from + 1, inherited);
        let w_below = workspace_entries(path, ws.workspaces, 0);
        let w_rest = workspace_entries(parent, list, from + 1);
        let w_all = workspace_entries(parent, list, from);
        let i_below = inherited_settings(ws.workspaces, 0, merged);
        let i_rest = inherited_settings(list, from + 1, inherited);
        let i_all = inherited_settings(list, from, inherited);
        assert(w_all == seq![(path, ws)] + w_below + w_rest);
        assert(i_all == seq![inherited] + i_below + i_rest);
        assert(w_all[0].1 == ws);
        assert forall|k: int| 0 <= k < w_below.len() implies #[trigger] w_below[k] == w_all[k
            + 1] by {}
        assert forall|k: int| 0 <= k < w_rest.len() implies #[trigger] w_rest[k] == w_all[k + 1
            + w_below.len()] by {}
        assert forall|k: int| 0 <= k < i_below.len() implies #[trigger] i_below[k] == i_all[k
            + 1] by {}
        assert forall|k: int| 0 <= k < i_rest.len() implies #[trigger] i_rest[k] == i_all[k + 1
            + w_below.len()] by {}
        if forall|k: int| 0 <= k < w_all.len() ==> own_settings(#[trigger] w_all[k].1).host.is_none() {
            assert(own_settings(w_all[0].1).host.is_none());
            assert forall|k: int| 0 <= k < w_below.len() implies own_settings(
                #[trigger] w_below[k].1,
            ).host.is_none() by {
                assert(w_below[k] == w_all[k + 1]);
            }
            assert forall|k: int| 0 <= k < w_rest.len() implies own_settings(
                #[trigger] w_rest[k].1,
            ).host.is_none() by {
                assert(w_rest[k] == w_all[k + 1 + w_below.len()]);
            }
            assert forall|k: int| 0 <= k < w_all.len() implies (#[trigger] i_all[k]).host
                == inherited.host by {
                if k == 0 {
                } else if k < 1 + w_below.len() {
                    assert(i_all[k] == i_below[k - 1]);
                } else {
                    assert(i_all[k] == i_rest[k - 1 - w_below.len()]);
                }
            }
        }
        if forall|k: int|
            0 <= k < w_all.len() ==> own_settings(#[trigger] w_all[k].1).protocol.is_none() {
            assert(own_settings(w_all[0].1).protocol.is_none());
            assert forall|k: int| 0 <= k < w_below.len() implies own_settings(
                #[trigger] w_below[k].1,
            ).protocol.is_none() by {
                assert(w_below[k] == w_all[k + 1]);
            }
            assert forall|k: int| 0 <= k < w_rest.len() implies own_settings(
                #[trigger] w_rest[k].1,
            ).protocol.is_none() by {
                assert(w_rest[k] == w_all[k + 1 + w_below.len()]);
            }
            assert forall|k: int| 0 <= k < w_all.len() implies (#[trigger] i_all[k]).protocol
                == inherited.protocol by {
                if k == 0 {
                } else if k < 1 + w_below.len() {
                    assert(i_all[k] == i_below[k - 1]);
                } else {
                    assert(i_all[k] == i_rest[k - 1 - w_below.len()]);
                }
            }
        }
        if forall|k: int|
            0 <= k < w_all.len() ==> own_settings(#[trigger] w_all[k].1).clone_strategy.is_none() {
            assert(own_settings(w_all[0].1).clone_strategy.is_none());
            assert forall|k: int| 0 <= k < w_below.len() implies own_settings(
                #[trigger] w_below[k].1,
            ).clone_strategy.is_none() by {
                assert(w_below[k] == w_all[k + 1]);
            }
            assert forall|k: int| 0 <= k < w_rest.len() implies own_settings(
                #[trigger] w_rest[k].1,
            ).clone_strategy.is_none() by {
                assert(w_rest[k] == w_all[k + 1 + w_below.len()]);
            }
            assert forall|k: int|
                0 <= k < w_all.len() implies (#[trigger] i_all[k]).clone_strategy
                == inherited.clone_strategy by {
                if k == 0 {
                } else if k < 1 + w_below.len() {
                    assert(i_all[k] == i_below[k - 1]);
                } else {
                    assert(i_all[k] == i_rest[k - 1 - w_below.len()]);
                }
            }
        }
    }
}

/// Every field that `written` sets has the same value in `resolved`.
pub open spec fn keeps_what_is_set(written: GitConfig, resolved: GitConfig) -> bool {
    &&& written.host.is_some() ==> resolved.host == written.host
    &&& written.protocol.is_some() ==> resolved.protocol == written.protocol
    &&& written.clone_strategy.is_some() ==> resolved.clone_strategy == written.clone_strategy
}

/// A project as resolved keeps what the project as written sets: it has
/// a repository exactly if the written one has, the same repository, and
/// every setting written beside it.
pub open spec fn project_keeps(written: ProjectModel, resolved: ProjectModel) -> bool {
    match written.git {
        None => resolved.git.is_none(),
        Some(repo) => {
            &&& resolved.git.is_some()
            &&& resolved.git.unwrap().repo == repo.repo
            &&& keeps_what_is_set(repo.core_settings, resolved.git.unwrap().core_settings)
        },
    }
}

/// A field set at a level is never overridden from above. Let `written`
/// be the workspaces as written below `root`, resolved under the
/// settings `top`. Then the resolved tree has the same workspaces at the
/// same paths, each with the same projects under the same names; every
/// workspace keeps each field that it sets itself, and so does every
/// project.
pub proof fn lemma_set_fields_stay(
    root: Seq<char>,
    written: Seq<(Seq<char>, WorkspaceModel)>,
    top: GitConfig,
)
    ensures
        workspace_entries(root, resolve_list(written, top), 0).len() == workspace_entries(
            root,
            written,
            0,
        ).len(),
        forall|k: int|
            0 <= k < workspace_entries(root, written, 0).len() ==> {
                let before = workspace_entries(root, written, 0)[k];
                let after = #[trigger] workspace_entries(root, resolve_list(written, top), 0)[k];
                &&& after.0 == before.0
                &&& after.1.git.is_some()
                &&& keeps_what_is_set(own_settings(before.1), after.1.git.unwrap())
                &&& after.1.projects.len() == before.1.projects.len()
                &&& forall|j: int|
                    0 <= j < before.1.projects.len() ==> (#[trigger] after.1.projects[j]).0
                        == before.1.projects[j].0 && project_keeps(
                        before.1.projects[j].1,
                        after.1.projects[j].1,
                    )
            },
{
    lemma_resolution(root, written, 0, top);
}

/// No workspace of `entries` sets the host.
pub open spec fn host_unset(entries: Seq<(Seq<char>, WorkspaceModel)>) -> bool {
    forall|k: int| 0 <= k < entries.len() ==> own_settings(#[trigger] entries[k].1).host.is_none()
}

/// No workspace of `entries` sets the protocol.
pub open spec fn protocol_unset(entries: Seq<(Seq<char>, WorkspaceModel)>) -> bool {
    forall|k: int|
        0 <= k < entries.len() ==> own_settings(#[trigger] entries[k].1).protocol.is_none()
}

/// No workspace of `entries` sets the clone strategy.
pub open spec fn strategy_unset(entries: Seq<(Seq<char>, WorkspaceModel)>) -> bool {
    forall|k: int|
        0 <= k < entries.len() ==> own_settings(#[trigger] entries[k].1).clone_strategy.is_none()
}

/// A field that no level sets resolves to its default. Let `git` be the
/// settings written at the top and `written` the workspaces written
/// below `root`, resolved as loading resolves them. Where neither the
/// top nor any workspace sets the host, every workspace has GitHub as
/// its host, and so has every project that does not set one itself; the
/// same holds of the protocol with HTTPS and of the clone strategy with
/// the working-tree clone.
pub proof fn lemma_unset_fields_default(
    root: Seq<char>,
    written: Seq<(Seq<char>, WorkspaceModel)>,
    git: GitConfig,
    k: int,
)
    requires
        0 <= k < workspace_entries(root, written, 0).len(),
    ensures
        ({
            let entries = workspace_entries(root, written, 0);
            let top = overlay_spec(git, default_settings());
            let after = workspace_entries(root, resolve_list(written, top), 0)[k];
            let settings = after.1.git.unwrap();
            &&& after.1.git.is_some()
            &&& after.1.projects.len() == entries[k].1.projects.len()
            &&& git.host.is_none() && host_unset(entries) ==> {
                &&& settings.host == Some(GitHost::GitHub)
                &&& forall|j: int|
                    0 <= j < after.1.projects.len() && entries[k].1.projects[j].1.git.is_some()
                        && entries[k].1.projects[j].1.git.unwrap().core_settings.host.is_none()
                        ==> (#[trigger] after.1.projects[j]).1.git.unwrap().core_settings.host
                        == Some(GitHost::GitHub)
            }
            &&& git.protocol.is_none() && protocol_unset(entries) ==> {
                &&& settings.protocol == Some(GitCloneProtocol::HTTPS)
                &&& forall|j: int|
                    0 <= j < after.1.projects.len() && entries[k].1.projects[j].1.git.is_some()
                        && entries[k].1.projects[j].1.git.unwrap().core_settings.protocol.is_none()
                        ==> (#[trigger] after.1.projects[j]).1.git.unwrap().core_settings.protocol
                        == Some(GitCloneProtocol::HTTPS)
            }
            &&& git.clone_strategy.is_none() && strategy_unset(entries) ==> {
                &&& settings.clone_strategy == Some(GitCloneStrategy::Branch)
                &&& forall|j: int|
                    0 <= j < after.1.projects.len() && entries[k].1.projects[j].1.git.is_some()
                        && entries[k].1.projects[j].1.git.unwrap().core_settings.clone_strategy.is_none()
                        ==> (#[trigger] after.1.projects[j]).1.git.unwrap().core_settings.clone_strategy
                        == Some(GitCloneStrategy::Branch)
            }
        }),
{
    let top = overlay_spec(git, default_settings());
    lemma_resolution(root, written, 0, top);
    lemma_inherited_unchanged(root, written, 0, top);
    let entries = workspace_entries(root, written, 0);
    assert(own_settings(entries[k].1) == own_settings(entries[k].1));
}

/// Resolution leaves every path as it is: the resolved tree declares the
/// paths of the written tree, in the same order.
pub proof fn lemma_declared_paths_stay(
    root: Seq<char>,
    written: Seq<(Seq<char>, WorkspaceModel)>,
    top: GitConfig,
)
    ensures
        declared_paths(root, resolve_list(written, top)) == declared_paths(root, written),
{
    let before = workspace_entries(root, written, 0);
    let after = workspace_entries(root, resolve_list(written, top), 0);
    lemma_resolution(root, written, 0, top);
    assert(paths_of(after) =~= paths_of(before));
    lemma_project_paths_stay(before, after, before.len() as int);
}

/// Where two lists of workspaces agree in the paths of their workspaces
/// and in the names of their projects, they agree in the paths of their
/// projects.
pub proof fn lemma_project_paths_stay(
    before: Seq<(Seq<char>, WorkspaceModel)>,
    after: Seq<(Seq<char>, WorkspaceModel)>,
    upto: int,
)
    requires
        0 <= upto <= before.len(),
        after.len() == before.len(),
        forall|k: int|
            0 <= k < before.len() ==> {
                &&& (#[trigger] after[k]).0 == before[k].0
                &&& after[k].1.projects.len() == before[k].1.projects.len()
                &&& forall|j: int|
                    0 <= j < before[k].1.projects.len() ==> (#[trigger] after[k].1.projects[j]).0
                        == before[k].1.projects[j].0
            },
    ensures
        paths_of(project_entries(after, upto)) == paths_of(project_entries(before, upto)),
    decreases upto,
{
    if upto > 0 {
        lemma_project_paths_stay(before, after, upto - 1);
        let k = upto - 1;
        let own_before = own_project_entries(before[k].0, before[k].1);
        let own_after = own_project_entries(after[k].0, after[k].1);
        assert(after[k].0 == before[k].0);
        assert forall|j: int| 0 <= j < own_before.len() implies own_after[j].0
            == own_before[j].0 by {
            assert(after[k].1.projects[j].0 == before[k].1.projects[j].0);
        }
        assert(paths_of(own_after) =~= paths_of(own_before));
        lemma_paths_of_concat(project_entries(after, upto - 1), own_after);
        lemma_paths_of_concat(project_entries(before, upto - 1), own_before);
    } else {
        assert(paths_of(project_entries(after, upto)) =~= paths_of(project_entries(before, upto)));
    }
}

} // verus!
