use dev_workspaces::diagnosis::contains_path;
use dev_workspaces::diagnosis::missing_paths;
use dev_workspaces::doctor;
use dev_workspaces::git::Git;
use dev_workspaces::git::GitCloneOptions;
use dev_workspaces::restore;
use dev_workspaces::restore::restore_project;
use dev_workspaces::restore::RestoreAction;
use dev_workspaces::restore::RestoreRun;
use dev_workspaces::restore::StepOutcome;
use dev_workspaces::Config;
use dev_workspaces::Error;
use dev_workspaces::GitCloneProtocol;
use dev_workspaces::GitCloneStrategy;
use dev_workspaces::GitConfig;
use dev_workspaces::GitHost;
use dev_workspaces::NamedProject;
use dev_workspaces::NamedWorkspace;
use dev_workspaces::Project;
use dev_workspaces::ProjectGitSettings;
use dev_workspaces::RestoreOption;
use dev_workspaces::Workspace;

fn no_settings() -> GitConfig {
    GitConfig { clone_strategy: None, protocol: None, host: None }
}

fn plain(name: &str) -> NamedProject {
    NamedProject { name: name.to_string(), project: Project { git: None } }
}

fn cloned(name: &str, repo: &str, settings: GitConfig) -> NamedProject {
    NamedProject {
        name: name.to_string(),
        project: Project {
            git: Some(ProjectGitSettings { repo: repo.to_string(), core_settings: settings }),
        },
    }
}

fn ws(name: &str, projects: Vec<NamedProject>, workspaces: Vec<NamedWorkspace>) -> NamedWorkspace {
    NamedWorkspace { name: name.to_string(), workspace: Workspace { projects, git: None, workspaces } }
}

fn list(items: &[&str]) -> Vec<String> {
    items.iter().map(|s| s.to_string()).collect()
}

fn scenario() -> Config {
    Config::load_from("/r", no_settings(), vec![ws("w0", vec![plain("p0")], vec![])], None).unwrap()
}

fn larger() -> Config {
    let worktree = GitConfig { clone_strategy: Some(GitCloneStrategy::Worktree), protocol: Some(GitCloneProtocol::SSH), host: None };
    Config::load_from(
        "/r",
        no_settings(),
        vec![
            ws("a", vec![plain("x"), cloned("y", "o/y", no_settings())], vec![ws("in", vec![plain("z")], vec![])]),
            ws("b", vec![cloned("t", "o/t", worktree)], vec![]),
        ],
        None,
    )
    .unwrap()
}

fn created(actions: &[RestoreAction]) -> Vec<String> {
    actions
        .iter()
        .map(|a| match a {
            RestoreAction::CreateWorkspaceDir(p) => p.clone(),
            RestoreAction::CreateProjectDir(p) => p.clone(),
            RestoreAction::CloneProject(g) => g.path.clone(),
        })
        .collect()
}

#[test]
fn scenario_collects_paths() {
    let config = scenario();
    assert_eq!(config.collect_workspace_paths(), list(&["/r/w0"]));
    assert_eq!(config.collect_project_paths(), list(&["/r/w0/p0"]));
}

#[test]
fn scenario_doctor_reports_missing() {
    let config = scenario();
    let diagnosis = doctor(&config, &list(&["/r"])).unwrap();
    assert_eq!(diagnosis.missing_workspaces, list(&["/r/w0"]));
    assert_eq!(diagnosis.missing_projects, list(&["/r/w0/p0"]));
}

#[test]
fn scenario_restore_workspace_with_projects() {
    let config = scenario();
    let plan = restore(
        &config,
        RestoreOption::Workspace { ws_path: "/r/w0".to_string(), include_projects: true },
        &list(&["/r"]),
    );
    assert_eq!(
        plan,
        Ok(vec![
            RestoreAction::CreateWorkspaceDir("/r/w0".to_string()),
            RestoreAction::CreateProjectDir("/r/w0/p0".to_string()),
        ])
    );
}

#[test]
fn doctor_with_everything_present_reports_nothing() {
    let config = larger();
    let mut present = config.collect_workspace_paths();
    present.extend(config.collect_project_paths());
    let diagnosis = doctor(&config, &present).unwrap();
    assert!(diagnosis.missing_workspaces.is_empty());
    assert!(diagnosis.missing_projects.is_empty());
}

#[test]
fn doctor_with_nothing_present_reports_everything() {
    let config = larger();
    let diagnosis = doctor(&config, &vec![]).unwrap();
    assert_eq!(diagnosis.missing_workspaces, config.collect_workspace_paths());
    assert_eq!(diagnosis.missing_projects, config.collect_project_paths());
    assert_eq!(diagnosis.missing_workspaces, list(&["/r/a", "/r/a/in", "/r/b"]));
    assert_eq!(diagnosis.missing_projects, list(&["/r/a/x", "/r/a/y", "/r/a/in/z", "/r/b/t"]));
}

#[test]
fn doctor_looks_at_presence_only() {
    let config = larger();
    let diagnosis = doctor(&config, &list(&["/r/a", "/r/a/y", "/unrelated"])).unwrap();
    assert_eq!(diagnosis.missing_workspaces, list(&["/r/a/in", "/r/b"]));
    assert_eq!(diagnosis.missing_projects, list(&["/r/a/x", "/r/a/in/z", "/r/b/t"]));
}

#[test]
fn missing_paths_keeps_order() {
    assert_eq!(missing_paths(&list(&["c", "a", "b"]), &list(&["a"])), list(&["c", "b"]));
    assert!(contains_path(&list(&["a", "b"]), "b"));
    assert!(!contains_path(&list(&["a", "b"]), "c"));
    assert!(!contains_path(&vec![], ""));
}

#[test]
fn report_lists_missing_paths() {
    let config = scenario();
    let diagnosis = doctor(&config, &vec![]).unwrap();
    assert_eq!(
        diagnosis.report(),
        "Dev Workspaces Doctor Diagnosis:\n\nThe following workspaces are missing:\n\n\t/r/w0\n\nThe following projects are missing:\n\n\t/r/w0/p0\n\n"
    );
    let none = doctor(&config, &list(&["/r/w0", "/r/w0/p0"])).unwrap();
    assert_eq!(
        none.report(),
        "Dev Workspaces Doctor Diagnosis:\n\nThe following workspaces are missing:\n\n\nThe following projects are missing:\n\n\n"
    );
}

#[test]
fn restore_workspace_without_projects() {
    let config = larger();
    let plan = restore(
        &config,
        RestoreOption::Workspace { ws_path: "/r/a/".to_string(), include_projects: false },
        &vec![],
    );
    assert_eq!(plan, Ok(vec![RestoreAction::CreateWorkspaceDir("/r/a".to_string())]));
}

#[test]
fn restore_workspace_clones_projects_with_repository() {
    let config = larger();
    let plan = restore(
        &config,
        RestoreOption::Workspace { ws_path: "/r/a".to_string(), include_projects: true },
        &list(&["/r/a"]),
    )
    .unwrap();
    assert_eq!(
        plan,
        vec![
            RestoreAction::CreateProjectDir("/r/a/x".to_string()),
            RestoreAction::CloneProject(Git {
                path: "/r/a/y".to_string(),
                repo: "o/y".to_string(),
                host: GitHost::GitHub,
                clone_options: GitCloneOptions {
                    strategy: GitCloneStrategy::Branch,
                    protocol: GitCloneProtocol::HTTPS,
                },
            }),
        ]
    );
}

#[test]
fn restore_existing_target_is_no_op() {
    let config = larger();
    let present = list(&["/r/a", "/r/a/x", "/r/a/y"]);
    let plan = restore(
        &config,
        RestoreOption::Workspace { ws_path: "/r/a".to_string(), include_projects: true },
        &present,
    );
    assert_eq!(plan, Ok(vec![]));
    let plan = restore(&config, RestoreOption::Project { proj_path: "/r/a/x".to_string() }, &present);
    assert_eq!(plan, Ok(vec![]));
}

#[test]
fn restore_all_workspaces_takes_missing_ones() {
    let config = larger();
    let plan = restore(
        &config,
        RestoreOption::AllWorkspaces { include_projects: true },
        &list(&["/r/a", "/r/a/x"]),
    )
    .unwrap();
    assert_eq!(created(&plan), list(&["/r/a/in", "/r/a/in/z", "/r/b", "/r/b/t"]));
    let plan = restore(&config, RestoreOption::AllWorkspaces { include_projects: false }, &vec![]).unwrap();
    assert_eq!(
        plan,
        vec![
            RestoreAction::CreateWorkspaceDir("/r/a".to_string()),
            RestoreAction::CreateWorkspaceDir("/r/a/in".to_string()),
            RestoreAction::CreateWorkspaceDir("/r/b".to_string()),
        ]
    );
}

#[test]
fn restore_project_creates_owner_first() {
    let config = larger();
    let plan = restore(&config, RestoreOption::Project { proj_path: "/r//b/t".to_string() }, &vec![]).unwrap();
    assert_eq!(plan.len(), 2);
    assert_eq!(plan[0], RestoreAction::CreateWorkspaceDir("/r/b".to_string()));
    match &plan[1] {
        RestoreAction::CloneProject(git) => {
            assert_eq!(git.path, "/r/b/t");
            assert_eq!(git.repo, "o/t");
            assert_eq!(git.host, GitHost::GitHub);
            assert_eq!(git.clone_options.strategy, GitCloneStrategy::Worktree);
            assert_eq!(git.clone_options.protocol, GitCloneProtocol::SSH);
        }
        other => panic!("unexpected step {:?}", other),
    }
    let plan = restore(&config, RestoreOption::Project { proj_path: "/r/a/in/z".to_string() }, &list(&["/r/a"])).unwrap();
    assert_eq!(
        plan,
        vec![
            RestoreAction::CreateWorkspaceDir("/r/a/in".to_string()),
            RestoreAction::CreateProjectDir("/r/a/in/z".to_string()),
        ]
    );
}

#[test]
fn restore_undeclared_project_restores_owner_only() {
    let config = larger();
    let plan = restore(&config, RestoreOption::Project { proj_path: "/r/a/none".to_string() }, &vec![]);
    assert_eq!(plan, Ok(vec![RestoreAction::CreateWorkspaceDir("/r/a".to_string())]));
}

#[test]
fn restore_fails_with_not_found() {
    let config = larger();
    assert_eq!(
        restore(
            &config,
            RestoreOption::Workspace { ws_path: "/r/nope".to_string(), include_projects: true },
            &vec![]
        ),
        Err(Error::NotFound("/r/nope".to_string()))
    );
    assert_eq!(
        restore(&config, RestoreOption::Project { proj_path: "/r/nope/p".to_string() }, &vec![]),
        Err(Error::NotFound("/r/nope".to_string()))
    );
    assert_eq!(
        restore(&config, RestoreOption::Project { proj_path: "/".to_string() }, &vec![]),
        Err(Error::NotFound("/".to_string()))
    );
    assert_eq!(
        restore(&config, RestoreOption::Workspace { ws_path: "/other/a".to_string(), include_projects: false }, &vec![]),
        Err(Error::NotFound("/other/a".to_string()))
    );
    assert_eq!(
        restore(&config, RestoreOption::Workspace { ws_path: "a".to_string(), include_projects: false }, &vec![]),
        Err(Error::NotFound("a".to_string()))
    );
    assert_eq!(
        restore(&config, RestoreOption::Project { proj_path: "b/t".to_string() }, &vec![]),
        Err(Error::NotFound("b".to_string()))
    );
    assert_eq!(
        restore(&config, RestoreOption::Project { proj_path: "/r/nope//p/".to_string() }, &vec![]),
        Err(Error::NotFound("/r/nope".to_string()))
    );
}

#[test]
fn restore_twice_takes_no_step_the_second_time() {
    let config = larger();
    let options = || {
        vec![
            RestoreOption::Workspace { ws_path: "/r/a".to_string(), include_projects: true },
            RestoreOption::Workspace { ws_path: "/r/b".to_string(), include_projects: false },
            RestoreOption::AllWorkspaces { include_projects: true },
            RestoreOption::AllWorkspaces { include_projects: false },
            RestoreOption::Project { proj_path: "/r/b/t".to_string() },
            RestoreOption::Project { proj_path: "/r/a/in/z".to_string() },
        ]
    };
    for (first, second) in options().into_iter().zip(options()) {
        let mut present = list(&["/r", "/r/a/x"]);
        let plan = restore(&config, first, &present).unwrap();
        assert!(!plan.is_empty());
        present.extend(created(&plan));
        assert_eq!(restore(&config, second, &present), Ok(vec![]));
    }
}

#[test]
fn restore_project_step() {
    let p = Project { git: None };
    assert_eq!(
        restore_project("/r/w/p", &p, &vec![]),
        Some(RestoreAction::CreateProjectDir("/r/w/p".to_string()))
    );
    assert_eq!(restore_project("/r/w/p", &p, &list(&["/r/w/p"])), None);
}

#[test]
fn run_goes_step_by_step() {
    let steps = vec![
        RestoreAction::CreateWorkspaceDir("/r/a".to_string()),
        RestoreAction::CreateProjectDir("/r/a/x".to_string()),
    ];
    let mut run = RestoreRun::new(steps.clone());
    assert_eq!(run.current(), Some(&steps[0]));
    assert_eq!(run.record(StepOutcome::AlreadyExists), Ok(()));
    assert_eq!(run.current(), Some(&steps[1]));
    assert_eq!(run.record(StepOutcome::Done), Ok(()));
    assert_eq!(run.current(), None);
    assert_eq!(run.record(StepOutcome::Failed("late".to_string())), Ok(()));
    assert!(!run.stopped);
}

#[test]
fn run_stops_at_first_failure() {
    let git = Git {
        path: "/r/a/y".to_string(),
        repo: "o/y".to_string(),
        host: GitHost::GitHub,
        clone_options: GitCloneOptions { strategy: GitCloneStrategy::Branch, protocol: GitCloneProtocol::HTTPS },
    };
    let steps = vec![
        RestoreAction::CreateWorkspaceDir("/r/a".to_string()),
        RestoreAction::CloneProject(git),
        RestoreAction::CreateProjectDir("/r/a/x".to_string()),
    ];
    let mut run = RestoreRun::new(steps.clone());
    assert_eq!(run.record(StepOutcome::Failed("denied".to_string())), Err(Error::Fs("denied".to_string())));
    assert_eq!(run.current(), None);
    assert_eq!(run.next, 0);

    let mut run = RestoreRun::new(steps.clone());
    assert_eq!(run.record(StepOutcome::Done), Ok(()));
    assert_eq!(run.record(StepOutcome::Failed("reset".to_string())), Err(Error::Transport("reset".to_string())));
    assert_eq!(run.current(), None);

    let mut run = RestoreRun::new(steps);
    assert_eq!(run.record(StepOutcome::Done), Ok(()));
    assert_eq!(run.record(StepOutcome::AuthExhausted), Err(Error::AuthExhausted));
    assert!(run.stopped);
    assert_eq!(run.current(), None);
}
