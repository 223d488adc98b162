//! Diagnosis: which declared paths are missing on disk.
use vstd::prelude::*;
use vstd::string::*;

use crate::config::Config;
use crate::error::Error;
use crate::paths::strings_view;

verus! {

/// The declared paths that were found missing.
#[derive(Debug, Clone, PartialEq, Eq)]
pub struct DoctorDiagnosis {
    pub missing_workspaces: Vec<String>,
    pub missing_projects: Vec<String>,
}

/// The test that a path is not among `present`.
pub open spec fn absent_from(present: Seq<Seq<char>>) -> spec_fn(Seq<char>) -> bool {
    |p: Seq<char>| !present.contains(p)
}

/// The paths of `paths` that are not among `present`, in their order.
pub open spec fn missing_spec(paths: Seq<Seq<char>>, present: Seq<Seq<char>>) -> Seq<Seq<char>> {
    paths.filter(absent_from(present))
}

/// One line of the report for each of the first `upto` paths: a tab, the
/// path, a line feed.
pub open spec fn lines_spec(paths: Seq<Seq<char>>, upto: int) -> Seq<char>
    decreases upto,
{
    if upto <= 0 {
        Seq::empty()
    } else {
        lines_spec(paths, upto - 1) + "\t"@ + paths[upto - 1] + "\n"@
    }
}

/// The report: a title, then the missing workspaces and the missing
/// projects, each list under its heading and followed by an empty line.
pub open spec fn report_spec(workspaces: Seq<Seq<char>>, projects: Seq<Seq<char>>) -> Seq<char> {
    "Dev Workspaces Doctor Diagnosis:\n\n"@ + "The following workspaces are missing:\n\n"@
        + lines_spec(workspaces, workspaces.len() as int) + "\n"@
        + "The following projects are missing:\n\n"@ + lines_spec(projects, projects.len() as int)
        + "\n"@
}

/// Whether `path` is among `list`.
pub fn contains_path(list: &Vec<String>, path: &str) -> (found: bool)
    ensures
        found == strings_view(list@).contains(path@),
{
    let wanted = String::from_str(path);
    let n: usize = list.len();
    let mut i: usize = 0;
    while i < n
        invariant
            i <= n,
            n == list@.len(),
            wanted@ == path@,
            forall|k: int| 0 <= k < i ==> list@[k]@ != path@,
        decreases n - i,
    {
        if list[i] == wanted {
            assert(strings_view(list@)[i as int] == path@);
            return true;
        }
        i = i + 1;
    }
    false
}

/// The paths of `paths` that are not among `present`, in their order.
pub fn missing_paths(paths: &Vec<String>, present: &Vec<String>) -> (missing: Vec<String>)
    ensures
        strings_view(missing@) == missing_spec(strings_view(paths@), strings_view(present@)),
{
    let mut missing: Vec<String> = Vec::new();
    let n: usize = paths.len();
    let mut i: usize = 0;
    let ghost all = strings_view(paths@);
    let ghost absent = absent_from(strings_view(present@));
    proof {
        reveal(Seq::filter);
        assert(strings_view(missing@) =~= all.take(0).filter(absent));
    }
    while i < n
        invariant
            i <= n,
            n == paths@.len(),
            all == strings_view(paths@),
            absent == absent_from(strings_view(present@)),
            strings_view(missing@) == all.take(i as int).filter(absent),
        decreases n - i,
    {
        let ghost before = strings_view(missing@);
        let ghost upto = all.take(i + 1);
        proof {
            reveal(Seq::filter);
            assert(upto.drop_last() =~= all.take(i as int));
            assert(upto.last() == paths@[i as int]@);
            assert(absent(upto.last()) == !strings_view(present@).contains(paths@[i as int]@));
            assert(upto.filter(absent) == if absent(upto.last()) {
                upto.drop_last().filter(absent).push(upto.last())
            } else {
                upto.drop_last().filter(absent)
            });
        }
        if !contains_path(present, paths[i].as_str()) {
            missing.push(paths[i].clone());
            assert(strings_view(missing@) =~= before.push(paths@[i as int]@));
        }
        assert(strings_view(missing@) == upto.filter(absent));
        i = i + 1;
    }
    assert(all.take(n as int) =~= all);
    missing
}

/// Compares the declaration with the disk. `present` holds the paths that
/// exist there; every declared workspace and project whose path is not
/// among them is reported missing, in the order of declaration. Nothing
/// but presence is looked at.
pub fn doctor(config: &Config, present: &Vec<String>) -> (diagnosis: Result<DoctorDiagnosis, Error>)
    ensures
        diagnosis.is_ok(),
        strings_view(diagnosis.unwrap().missing_workspaces@) == missing_spec(
            config.workspace_paths(),
            strings_view(present@),
        ),
        strings_view(diagnosis.unwrap().missing_projects@) == missing_spec(
            config.project_paths(),
            strings_view(present@),
        ),
{
    let workspaces = config.collect_workspace_paths();
    let projects = config.collect_project_paths();
    Ok(
        DoctorDiagnosis {
            missing_workspaces: missing_paths(&workspaces, present),
            missing_projects: missing_paths(&projects, present),
        },
    )
}

/// Appends one report line for each path of `paths` to `text`.
fn append_lines(text: &mut String, paths: &Vec<String>)
    ensures
        final(text)@ == old(text)@ + lines_spec(strings_view(paths@), paths@.len() as int),
{
    let n: usize = paths.len();
    let mut i: usize = 0;
    assert(text@ + Seq::empty() =~= text@);
    while i < n
        invariant
            i <= n,
            n == paths@.len(),
            text@ == old(text)@ + lines_spec(strings_view(paths@), i as int),
        decreases n - i,
    {
        let ghost before = text@;
        text.append("\t");
        text.append(paths[i].as_str());
        text.append("\n");
        assert(text@ =~= old(text)@ + (lines_spec(strings_view(paths@), i as int) + "\t"@
            + strings_view(paths@)[i as int] + "\n"@));
        i = i + 1;
    }
}

impl DoctorDiagnosis {
    /// The report as text, ready to be printed.
    pub fn report(&self) -> (text: String)
        ensures
            text@ == report_spec(
                strings_view(self.missing_workspaces@),
                strings_view(self.missing_projects@),
            ),
    {
        let mut text = String::from_str("Dev Workspaces Doctor Diagnosis:\n\n");
        text.append("The following workspaces are missing:\n\n");
        append_lines(&mut text, &self.missing_workspaces);
        text.append("\n");
        text.append("The following projects are missing:\n\n");
        append_lines(&mut text, &self.missing_projects);
        text.append("\n");
        text
    }
}

/// Where every path is present, none is missing.
pub proof fn lemma_nothing_missing(paths: Seq<Seq<char>>, present: Seq<Seq<char>>)
    requires
        forall|i: int| 0 <= i < paths.len() ==> present.contains(#[trigger] paths[i]),
    ensures
        missing_spec(paths, present) == Seq::<Seq<char>>::empty(),
    decreases paths.len(),
{
    reveal(Seq::filter);
    if paths.len() > 0 {
        let front = paths.drop_last();
        assert forall|i: int| 0 <= i < front.len() implies present.contains(#[trigger] front[i]) by {
            assert(front[i] == paths[i]);
        }
        lemma_nothing_missing(front, present);
        assert(present.contains(paths[paths.len() - 1]));
    }
}

/// Where no path is present, every path is missing.
pub proof fn lemma_everything_missing(paths: Seq<Seq<char>>, present: Seq<Seq<char>>)
    requires
        forall|i: int| 0 <= i < paths.len() ==> !present.contains(#[trigger] paths[i]),
    ensures
        missing_spec(paths, present) == paths,
    decreases paths.len(),
{
    reveal(Seq::filter);
    if paths.len() > 0 {
        let front = paths.drop_last();
        assert forall|i: int| 0 <= i < front.len() implies !present.contains(#[trigger] front[i]) by {
            assert(front[i] == paths[i]);
        }
        lemma_everything_missing(front, present);
        assert(!present.contains(paths[paths.len() - 1]));
        assert(front.push(paths.last()) =~= paths);
    }
}

/// A path is missing exactly if it is declared and not present.
pub proof fn lemma_missing_contains(paths: Seq<Seq<char>>, present: Seq<Seq<char>>, path: Seq<char>)
    ensures
        missing_spec(paths, present).contains(path) <==> paths.contains(path) && !present.contains(
            path,
        ),
{
    let absent = absent_from(present);
    let missing = missing_spec(paths, present);
    if missing.contains(path) {
        let k = choose|k: int| 0 <= k < missing.len() && missing[k] == path;
        paths.lemma_filter_pred(absent, k);
        paths.lemma_filter_contains_rev(absent, path);
    }
    if paths.contains(path) && !present.contains(path) {
        let i = choose|i: int| 0 <= i < paths.len() && paths[i] == path;
        paths.lemma_filter_contains(absent, i);
    }
}

/// The diagnosis of a declaration whose paths all exist reports nothing
/// missing; the diagnosis of one whose paths all fail to exist reports
/// every declared path.
pub proof fn lemma_doctor_extremes(config: Config, present: Seq<Seq<char>>)
    ensures
        (forall|i: int|
            0 <= i < config.all_paths().len() ==> present.contains(#[trigger] config.all_paths()[i]))
            ==> missing_spec(config.workspace_paths(), present).len() == 0 && missing_spec(
            config.project_paths(),
            present,
        ).len() == 0,
        (forall|i: int|
            0 <= i < config.all_paths().len() ==> !present.contains(
                #[trigger] config.all_paths()[i],
            )) ==> missing_spec(config.workspace_paths(), present) == config.workspace_paths()
            && missing_spec(config.project_paths(), present) == config.project_paths(),
{
    let workspaces = config.workspace_paths();
    let projects = config.project_paths();
    let all = config.all_paths();
    assert(all == workspaces + projects);
    if forall|i: int| 0 <= i < all.len() ==> present.contains(#[trigger] all[i]) {
        assert forall|i: int| 0 <= i < workspaces.len() implies present.contains(
            #[trigger] workspaces[i],
        ) by {
            assert(workspaces[i] == all[i]);
        }
        assert forall|i: int| 0 <= i < projects.len() implies present.contains(
            #[trigger] projects[i],
        ) by {
            assert(projects[i] == all[workspaces.len() + i]);
        }
        lemma_nothing_missing(workspaces, present);
        lemma_nothing_missing(projects, present);
    }
    if forall|i: int| 0 <= i < all.len() ==> !present.contains(#[trigger] all[i]) {
        assert forall|i: int| 0 <= i < workspaces.len() implies !present.contains(
            #[trigger] workspaces[i],
        ) by {
            assert(workspaces[i] == all[i]);
        }
        assert forall|i: int| 0 <= i < projects.len() implies !present.contains(
            #[trigger] projects[i],
        ) by {
            assert(projects[i] == all[workspaces.len() + i]);
        }
        lemma_everything_missing(workspaces, present);
        lemma_everything_missing(projects, present);
    }
}

} // verus!
