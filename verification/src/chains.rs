//! Declared nodes and collected paths: each node has one path, each path
//! one node, and the path of a node is the root joined with the names that
//! lead to it.
use vstd::prelude::*;

use crate::config::first_at;
use crate::config::lemma_project_entries_prefix;
use crate::config::own_project_entries;
use crate::config::project_entries;
use crate::config::workspace_entries;
use crate::config::workspaces_view;
use crate::config::Config;
use crate::config::WorkspaceModel;
use crate::paths::join_spec;

verus! {

/// The number of workspaces declared in `list` from index `from` on and
/// in all that they hold.
pub open spec fn tree_size(list: Seq<(Seq<char>, WorkspaceModel)>, from: int) -> nat
    decreases list, list.len() - from,
{
    if 0 <= from < list.len() {
        1 + tree_size(list[from].1.workspaces, 0) + tree_size(list, from + 1)
    } else {
        0
    }
}

/// `chain` leads to a declared workspace: its first index picks a
/// workspace of `list`, the next one a workspace held by that, and so on.
pub open spec fn chain_valid(list: Seq<(Seq<char>, WorkspaceModel)>, chain: Seq<int>) -> bool
    decreases chain.len(),
{
    &&& chain.len() > 0
    &&& 0 <= chain[0] < list.len()
    &&& chain.len() > 1 ==> chain_valid(list[chain[0]].1.workspaces, chain.drop_first())
}

/// The names along `chain`, from the top down.
pub open spec fn chain_names(list: Seq<(Seq<char>, WorkspaceModel)>, chain: Seq<int>) -> Seq<
    Seq<char>,
>
    decreases chain.len(),
{
    if chain.len() == 0 {
        Seq::empty()
    } else {
        seq![list[chain[0]].0] + chain_names(list[chain[0]].1.workspaces, chain.drop_first())
    }
}

/// The workspace that `chain` leads to.
pub open spec fn chain_node(list: Seq<(Seq<char>, WorkspaceModel)>, chain: Seq<int>) -> WorkspaceModel
    decreases chain.len(),
{
    if chain.len() <= 1 {
        list[chain[0]].1
    } else {
        chain_node(list[chain[0]].1.workspaces, chain.drop_first())
    }
}

/// `root` joined with each of `names` in turn.
pub open spec fn join_all(root: Seq<char>, names: Seq<Seq<char>>) -> Seq<char>
    decreases names.len(),
{
    if names.len() == 0 {
        root
    } else {
        join_all(join_spec(root, names[0]), names.drop_first())
    }
}

/// The place of the workspace that `chain` leads to among the entries of
/// `list`: behind every workspace declared before it at its own level
/// and at each level above, and behind the workspaces that hold it.
pub open spec fn chain_position(list: Seq<(Seq<char>, WorkspaceModel)>, chain: Seq<int>) -> int
    decreases chain.len(),
{
    if chain.len() == 0 {
        0
    } else {
        tree_size(list, 0) - tree_size(list, chain[0]) + (if chain.len() == 1 {
            0
        } else {
            1 + chain_position(list[chain[0]].1.workspaces, chain.drop_first())
        })
    }
}

/// The chain that leads to the workspace at place `k` among the entries
/// of `list` from index `from` on.
pub open spec fn chain_at(list: Seq<(Seq<char>, WorkspaceModel)>, from: int, k: int) -> Seq<int>
    decreases list, list.len() - from,
{
    if 0 <= from < list.len() {
        let below = tree_size(list[from].1.workspaces, 0);
        if k <= 0 {
            seq![from]
        } else if k <= below {
            seq![from] + chain_at(list[from].1.workspaces, 0, k - 1)
        } else {
            chain_at(list, from + 1, k - 1 - below)
        }
    } else {
        Seq::empty()
    }
}

/// There are as many entries as workspaces declared.
pub proof fn lemma_entries_len(parent: Seq<char>, list: Seq<(Seq<char>, WorkspaceModel)>, from: int)
    ensures
        workspace_entries(parent, list, from).len() == tree_size(list, from),
    decreases list, list.len() - from,
{
    if 0 <= from < list.len() {
        lemma_entries_len(join_spec(parent, list[from].0), list[from].1.workspaces, 0);
        lemma_entries_len(parent, list, from + 1);
    }
}

/// The entries from a later index on close the entries from an earlier
/// one.
pub proof fn lemma_entries_suffix(
    parent: Seq<char>,
    list: Seq<(Seq<char>, WorkspaceModel)>,
    from: int,
    i: int,
)
    requires
        0 <= from <= i <= list.len(),
    ensures
        tree_size(list, i) <= tree_size(list, from),
        forall|off: int|
            0 <= off < tree_size(list, i) ==> workspace_entries(parent, list, from)[tree_size(
                list,
                from,
            ) - tree_size(list, i) + off] == #[trigger] workspace_entries(parent, list, i)[off],
    decreases i - from,
{
    lemma_entries_len(parent, list, from);
    lemma_entries_len(parent, list, i);
    if from < i {
        lemma_entries_suffix(parent, list, from + 1, i);
        lemma_entries_len(parent, list, from + 1);
        let path = join_spec(parent, list[from].0);
        lemma_entries_len(path, list[from].1.workspaces, 0);
        let head = seq![(path, list[from].1)] + workspace_entries(path, list[from].1.workspaces, 0);
        let rest = workspace_entries(parent, list, from + 1);
        assert(workspace_entries(parent, list, from) == head + rest);
        assert forall|off: int| 0 <= off < tree_size(list, i) implies workspace_entries(
            parent,
            list,
            from,
        )[tree_size(list, from) - tree_size(list, i) + off] == #[trigger] workspace_entries(
            parent,
            list,
            i,
        )[off] by {
            let at = tree_size(list, from + 1) - tree_size(list, i) + off;
            assert(rest[at] == workspace_entries(parent, list, i)[off]);
            assert((head + rest)[head.len() + at] == rest[at]);
        }
    }
}

/// Each declared workspace has its entry: the workspace that a chain
/// leads to stands at the place of the chain, with the root joined with
/// the names along the chain as its path.
pub proof fn lemma_chain_entry(root: Seq<char>, list: Seq<(Seq<char>, WorkspaceModel)>, chain: Seq<int>)
    requires
        chain_valid(list, chain),
    ensures
        0 <= chain_position(list, chain) < workspace_entries(root, list, 0).len(),
        workspace_entries(root, list, 0)[chain_position(list, chain)] == (
            join_all(root, chain_names(list, chain)),
            chain_node(list, chain),
        ),
    decreases chain.len(),
{
    let i = chain[0];
    let path = join_spec(root, list[i].0);
    let children = list[i].1.workspaces;
    lemma_entries_len(root, list, 0);
    lemma_entries_len(root, list, i);
    lemma_entries_len(root, list, i + 1);
    lemma_entries_len(path, children, 0);
    lemma_entries_suffix(root, list, 0, i);
    let here = workspace_entries(root, list, i);
    let below = workspace_entries(path, children, 0);
    let rest = workspace_entries(root, list, i + 1);
    assert(here == seq![(path, list[i].1)] + below + rest);
    let names = chain_names(list, chain);
    assert(names[0] == list[i].0);
    if chain.len() == 1 {
        assert(chain_names(children, chain.drop_first()) =~= Seq::<Seq<char>>::empty());
        assert(names.drop_first() =~= Seq::<Seq<char>>::empty());
        assert(join_all(root, names) == join_all(path, names.drop_first()));
        assert(here[0] == (path, list[i].1));
    } else {
        let tail = chain.drop_first();
        lemma_chain_entry(path, children, tail);
        assert(names.drop_first() =~= chain_names(children, tail));
        let off = 1 + chain_position(children, tail);
        assert(here[off] == below[off - 1]);
    }
}

/// Each entry belongs to a declared workspace: the chain found for a
/// place leads to a workspace, and that workspace stands at the place.
pub proof fn lemma_entry_chain(list: Seq<(Seq<char>, WorkspaceModel)>, from: int, k: int)
    requires
        0 <= from,
        0 <= k < tree_size(list, from),
    ensures
        chain_valid(list, chain_at(list, from, k)),
        chain_at(list, from, k)[0] >= from,
        chain_position(list, chain_at(list, from, k)) == tree_size(list, 0) - tree_size(list, from)
            + k,
    decreases list, list.len() - from,
{
    if 0 <= from < list.len() {
        let children = list[from].1.workspaces;
        let below = tree_size(children, 0);
        if k == 0 {
            assert(chain_at(list, from, k) =~= seq![from]);
        } else if k <= below {
            lemma_entry_chain(children, 0, k - 1);
            let tail = chain_at(children, 0, k - 1);
            let chain = seq![from] + tail;
            assert(chain.drop_first() =~= tail);
            assert(chain[0] == from);
        } else {
            lemma_entry_chain(list, from + 1, k - 1 - below);
        }
    }
}

/// No two declared workspaces share an entry: the chain found for the
/// place of a chain is that chain.
pub proof fn lemma_chain_unique(list: Seq<(Seq<char>, WorkspaceModel)>, from: int, chain: Seq<int>)
    requires
        chain_valid(list, chain),
        0 <= from <= chain[0],
    ensures
        chain_at(
            list,
            from,
            chain_position(list, chain) - (tree_size(list, 0) - tree_size(list, from)),
        ) == chain,
    decreases list, list.len() - from,
{
    let i = chain[0];
    let k = chain_position(list, chain) - (tree_size(list, 0) - tree_size(list, from));
    let children = list[from].1.workspaces;
    let below = tree_size(children, 0);
    if from == i {
        if chain.len() == 1 {
            assert(chain =~= seq![from]);
        } else {
            let tail = chain.drop_first();
            lemma_chain_in_range(children, tail);
            lemma_chain_unique(children, 0, tail);
            assert(chain =~= seq![from] + tail);
        }
    } else {
        lemma_positions_grow(list, from + 1, i);
        if chain.len() > 1 {
            lemma_chain_in_range(list[i].1.workspaces, chain.drop_first());
        }
        lemma_chain_unique(list, from + 1, chain);
    }
}

/// The place of a chain lies among the workspaces declared.
pub proof fn lemma_chain_in_range(list: Seq<(Seq<char>, WorkspaceModel)>, chain: Seq<int>)
    requires
        chain_valid(list, chain),
    ensures
        0 <= chain[0] < list.len(),
        0 <= chain_position(list, chain) < tree_size(list, 0),
{
    lemma_chain_entry(Seq::empty(), list, chain);
    lemma_entries_len(Seq::empty(), list, 0);
}

/// Fewer workspaces are declared from a later index on.
pub proof fn lemma_positions_grow(list: Seq<(Seq<char>, WorkspaceModel)>, from: int, i: int)
    requires
        0 <= from <= i <= list.len(),
    ensures
        tree_size(list, i) <= tree_size(list, from),
    decreases i - from,
{
    if from < i {
        lemma_positions_grow(list, from + 1, i);
    }
}

/// The place of the project with index `j` of the workspace at place
/// `k`, among the projects of all workspaces.
pub open spec fn project_position(entries: Seq<(Seq<char>, WorkspaceModel)>, k: int, j: int) -> int {
    project_entries(entries, k).len() + j
}

/// Each declared project has its entry: the project with index `j` of the
/// workspace at place `k` stands at its place among the projects, with
/// the path of the workspace joined with its name as its path.
pub proof fn lemma_project_entry(entries: Seq<(Seq<char>, WorkspaceModel)>, k: int, j: int)
    requires
        0 <= k < entries.len(),
        0 <= j < entries[k].1.projects.len(),
    ensures
        0 <= project_position(entries, k, j) < project_entries(entries, entries.len() as int).len(),
        project_entries(entries, entries.len() as int)[project_position(entries, k, j)] == (
            join_spec(entries[k].0, entries[k].1.projects[j].0),
            entries[k].1.projects[j].1,
        ),
{
    lemma_project_entries_prefix(entries, k + 1, entries.len() as int);
    let own = own_project_entries(entries[k].0, entries[k].1);
    let upto = project_entries(entries, k + 1);
    assert(upto == project_entries(entries, k) + own);
    assert(upto[project_position(entries, k, j)] == own[j]);
}

/// Each entry among the projects belongs to a declared project: to the
/// project with some index `j` of the workspace at some place `k`.
pub proof fn lemma_project_owner(entries: Seq<(Seq<char>, WorkspaceModel)>, upto: int, m: int)
    requires
        0 <= upto <= entries.len(),
        0 <= m < project_entries(entries, upto).len(),
    ensures
        exists|k: int, j: int|
            0 <= k < upto && 0 <= j < entries[k].1.projects.len() && m == #[trigger] project_position(
                entries,
                k,
                j,
            ),
    decreases upto,
{
    let before = project_entries(entries, upto - 1);
    if m < before.len() {
        lemma_project_owner(entries, upto - 1, m);
    } else {
        assert(m == project_position(entries, upto - 1, m - before.len()));
    }
}

/// No two declared projects share an entry.
pub proof fn lemma_project_positions_differ(
    entries: Seq<(Seq<char>, WorkspaceModel)>,
    k1: int,
    j1: int,
    k2: int,
    j2: int,
)
    requires
        0 <= k1 < entries.len(),
        0 <= k2 < entries.len(),
        0 <= j1 < entries[k1].1.projects.len(),
        0 <= j2 < entries[k2].1.projects.len(),
        k1 != k2 || j1 != j2,
    ensures
        project_position(entries, k1, j1) != project_position(entries, k2, j2),
{
    if k1 < k2 {
        lemma_project_entries_prefix(entries, k1 + 1, k2);
    } else if k2 < k1 {
        lemma_project_entries_prefix(entries, k2 + 1, k1);
    }
}

/// The paths collected for a configuration are those of its declared
/// nodes, one for each. The workspace that `chain` leads to has the root
/// joined with the names along the chain as its path, at its place among
/// the workspace paths; each of its projects has that path joined with
/// its own name as its path, at its place among the project paths.
pub proof fn lemma_one_path_per_node(config: Config, chain: Seq<int>)
    requires
        chain_valid(workspaces_view(config.workspaces@), chain),
    ensures
        ({
            let list = workspaces_view(config.workspaces@);
            let k = chain_position(list, chain);
            let path = join_all(config.root@, chain_names(list, chain));
            let node = chain_node(list, chain);
            &&& config.workspace_paths().len() == tree_size(list, 0)
            &&& 0 <= k < config.workspace_paths().len()
            &&& config.workspace_paths()[k] == path
            &&& config.workspace_entries()[k].1 == node
            &&& forall|j: int|
                0 <= j < node.projects.len() ==> {
                    &&& 0 <= #[trigger] project_position(config.workspace_entries(), k, j)
                        < config.project_paths().len()
                    &&& config.project_paths()[project_position(config.workspace_entries(), k, j)]
                        == join_spec(path, node.projects[j].0)
                }
        }),
{
    let list = workspaces_view(config.workspaces@);
    let entries = config.workspace_entries();
    lemma_entries_len(config.root@, list, 0);
    lemma_chain_entry(config.root@, list, chain);
    let k = chain_position(list, chain);
    let node = chain_node(list, chain);
    assert forall|j: int| 0 <= j < node.projects.len() implies {
        &&& 0 <= #[trigger] project_position(entries, k, j) < config.project_paths().len()
        &&& config.project_paths()[project_position(entries, k, j)] == join_spec(
            join_all(config.root@, chain_names(list, chain)),
            node.projects[j].0,
        )
    } by {
        lemma_project_entry(entries, k, j);
    }
}

/// Looking up reverses collecting. In a loaded configuration the path
/// collected for a workspace leads back to that workspace and to no
/// other, and the path collected for a project leads back to that
/// project.
pub proof fn lemma_lookup_reverses_collect(config: Config)
    requires
        config.wf(),
    ensures
        forall|k: int|
            0 <= k < config.workspace_entries().len() ==> first_at(
                config.workspace_entries(),
                #[trigger] config.workspace_paths()[k],
                k,
            ),
        forall|m: int|
            0 <= m < config.project_entries().len() ==> first_at(
                config.project_entries(),
                #[trigger] config.project_paths()[m],
                m,
            ),
{
    let entries = config.workspace_entries();
    let projects = config.project_entries();
    let all = config.all_paths();
    assert forall|k: int| 0 <= k < entries.len() implies first_at(
        entries,
        #[trigger] config.workspace_paths()[k],
        k,
    ) by {
        assert forall|j: int| 0 <= j < k implies entries[j].0 != entries[k].0 by {
            assert(all[j] == entries[j].0);
            assert(all[k] == entries[k].0);
        }
    }
    assert forall|m: int| 0 <= m < projects.len() implies first_at(
        projects,
        #[trigger] config.project_paths()[m],
        m,
    ) by {
        lemma_project_owner(entries, entries.len() as int, m);
        let (k, j) = choose|k: int, j: int|
            0 <= k < entries.len() && 0 <= j < entries[k].1.projects.len() && m
                == #[trigger] project_position(entries, k, j);
        lemma_project_entry(entries, k, j);
        assert forall|i: int| 0 <= i < m implies projects[i].0 != projects[m].0 by {
            assert(all[entries.len() + i] == projects[i].0);
            assert(all[entries.len() + m] == projects[m].0);
        }
    }
}

} // verus!
