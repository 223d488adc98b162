use dev_workspaces::config::first_repeat;
use dev_workspaces::paths::join;
use dev_workspaces::paths::normalize;
use dev_workspaces::paths::parent;
use dev_workspaces::paths::try_absolute_path;
use dev_workspaces::paths::try_absolute_path_from;
use dev_workspaces::Config;
use dev_workspaces::Error;
use dev_workspaces::GitCloneProtocol;
use dev_workspaces::GitCloneStrategy;
use dev_workspaces::GitConfig;
use dev_workspaces::GitHost;
use dev_workspaces::NamedProject;
use dev_workspaces::NamedWorkspace;
use dev_workspaces::Project;
use dev_workspaces::ProjectGitSettings;
use dev_workspaces::Workspace;

fn unset() -> GitConfig {
    GitConfig { clone_strategy: None, protocol: None, host: None }
}

fn project(name: &str, git: Option<ProjectGitSettings>) -> NamedProject {
    NamedProject { name: name.to_string(), project: Project { git } }
}

fn workspace(
    name: &str,
    git: Option<GitConfig>,
    projects: Vec<NamedProject>,
    workspaces: Vec<NamedWorkspace>,
) -> NamedWorkspace {
    NamedWorkspace { name: name.to_string(), workspace: Workspace { projects, git, workspaces } }
}

fn nested() -> Vec<NamedWorkspace> {
    let w3 = workspace("w3", None, vec![], vec![]);
    let w2 = workspace("w2", None, vec![project("p2", None)], vec![w3]);
    let w1 = workspace("w1", None, vec![project("p1", None)], vec![w2]);
    vec![workspace("w0", None, vec![project("p0", None)], vec![w1])]
}

fn strings(list: &[&str]) -> Vec<String> {
    list.iter().map(|s| s.to_string()).collect()
}

#[test]
fn list_workspaces() {
    let config = Config::load_from("/some/root", unset(), nested(), None);
    assert!(config.is_ok());
    let config = config.unwrap();
    let mut workspaces = config.collect_workspace_paths();
    workspaces.sort();
    assert_eq!(
        workspaces,
        strings(&[
            "/some/root/w0",
            "/some/root/w0/w1",
            "/some/root/w0/w1/w2",
            "/some/root/w0/w1/w2/w3",
        ])
    );
}

#[test]
fn list_projects() {
    let config = Config::load_from("/some/root", unset(), nested(), None);
    assert!(config.is_ok());
    let config = config.unwrap();
    let mut projects = config.collect_project_paths();
    projects.sort();
    assert_eq!(
        projects,
        strings(&["/some/root/w0/p0", "/some/root/w0/w1/p1", "/some/root/w0/w1/w2/p2"])
    );
}

#[test]
fn paths_come_in_order_of_declaration() {
    let list = vec![
        workspace(
            "a",
            None,
            vec![project("x", None), project("y", None)],
            vec![workspace("inner", None, vec![project("z", None)], vec![])],
        ),
        workspace("b", None, vec![project("x", None)], vec![]),
    ];
    let config = Config::load_from("/r", unset(), list, None).unwrap();
    assert_eq!(config.collect_workspace_paths(), strings(&["/r/a", "/r/a/inner", "/r/b"]));
    assert_eq!(
        config.collect_project_paths(),
        strings(&["/r/a/x", "/r/a/y", "/r/a/inner/z", "/r/b/x"])
    );
}

#[test]
fn empty_config_has_no_paths() {
    let config = Config::load_from("/r", unset(), vec![], None).unwrap();
    assert!(config.collect_workspace_paths().is_empty());
    assert!(config.collect_project_paths().is_empty());
    assert_eq!(config.root, "/r");
}

#[test]
fn join_puts_one_separator_between() {
    assert_eq!(join("/r", "w0"), "/r/w0");
    assert_eq!(join("/r/", "w0"), "/r/w0");
    assert_eq!(join("", "w0"), "w0");
    assert_eq!(join("/r", "/abs"), "/abs");
    assert_eq!(join("/r", ""), "/r/");
    assert_eq!(join("/", "w0"), "/w0");
}

#[test]
fn parent_is_one_level_up() {
    assert_eq!(parent("/r/w0/p0"), Some("/r/w0".to_string()));
    assert_eq!(parent("/r"), Some("/".to_string()));
    assert_eq!(parent("/"), None);
    assert_eq!(parent(""), None);
    assert_eq!(parent("p0"), Some(String::new()));
    assert_eq!(parent("w0/p0"), Some("w0".to_string()));
}

#[test]
fn tilde_expands_to_home() {
    assert_eq!(try_absolute_path_from("~/code", Some("/home/u")), Ok("/home/u/code".to_string()));
    assert_eq!(try_absolute_path_from("~", Some("/home/u")), Ok("/home/u".to_string()));
    assert_eq!(try_absolute_path_from("~//code", Some("/home/u/")), Ok("/home/u/code".to_string()));
    assert_eq!(try_absolute_path_from("/abs", None), Ok("/abs".to_string()));
    assert_eq!(try_absolute_path_from("/abs/~", Some("/home/u")), Ok("/abs/~".to_string()));
}

#[test]
fn path_error_when_root_cannot_be_made_absolute() {
    assert_eq!(try_absolute_path_from("~/code", None), Err(Error::Path("~/code".to_string())));
    assert_eq!(try_absolute_path_from("relative", Some("/home/u")), Err(Error::Path("relative".to_string())));
    assert_eq!(try_absolute_path_from("~user/x", Some("/home/u")), Err(Error::Path("~user/x".to_string())));
    assert_eq!(try_absolute_path_from("", None), Err(Error::Path(String::new())));
    assert_eq!(try_absolute_path_from("~", Some("home")), Err(Error::Path("~".to_string())));
    let loaded = Config::load_from("~/code", unset(), nested(), None);
    assert_eq!(loaded, Err(Error::Path("~/code".to_string())));
}

#[test]
fn absolute_path_does_not_need_home() {
    assert_eq!(try_absolute_path("/abs/dir"), Ok("/abs/dir".to_string()));
    assert_eq!(try_absolute_path("relative"), Err(Error::Path("relative".to_string())));
    let config = Config::load("/some/root", unset(), nested()).unwrap();
    assert_eq!(config.root, "/some/root");
    assert_eq!(Config::load("some/root", unset(), nested()), Err(Error::Path("some/root".to_string())));
}

#[test]
fn tilde_takes_home_of_environment() {
    match try_absolute_path("~/code") {
        Ok(made) => {
            assert!(made.starts_with('/'));
            assert!(made.ends_with("code"));
            assert_ne!(made, "~/code");
        }
        Err(e) => assert_eq!(e, Error::Path("~/code".to_string())),
    }
}

#[test]
fn load_expands_root() {
    let config = Config::load_from("~/code", unset(), nested(), Some("/home/u")).unwrap();
    assert_eq!(config.root, "/home/u/code");
    assert_eq!(config.collect_workspace_paths()[0], "/home/u/code/w0");
}

#[test]
fn parse_error_on_shared_path() {
    let twice = vec![workspace("w", None, vec![], vec![]), workspace("w", None, vec![], vec![])];
    assert!(matches!(Config::load_from("/r", unset(), twice, None), Err(Error::Parse(_))));
    let clash = vec![workspace(
        "w",
        None,
        vec![project("x", None)],
        vec![workspace("x", None, vec![], vec![])],
    )];
    assert!(matches!(Config::load_from("/r", unset(), clash, None), Err(Error::Parse(_))));
    let far = vec![
        workspace("a", None, vec![project("b/c", None)], vec![]),
        workspace("a/b", None, vec![project("c", None)], vec![]),
    ];
    assert!(matches!(Config::load_from("/r", unset(), far, None), Err(Error::Parse(_))));
}

#[test]
fn first_repeat_finds_second_of_two() {
    assert_eq!(first_repeat(&strings(&["a", "b", "c"])), None);
    assert_eq!(first_repeat(&strings(&["a", "b", "a", "b"])), Some(2));
    assert_eq!(first_repeat(&strings(&[])), None);
}

#[test]
fn lookup_reverses_join() {
    let config = Config::load_from("/some/root", unset(), nested(), None).unwrap();
    let w1 = config.lookup_workspace("/some/root/w0/w1").unwrap();
    assert_eq!(w1.projects[0].name, "p1");
    let w0 = config.lookup_workspace("/some/root/w0").unwrap();
    assert_eq!(w0.projects[0].name, "p0");
    let w2 = config.lookup_workspace("/some/root/w0/w1/w2").unwrap();
    assert_eq!(w2.workspaces[0].name, "w3");
    assert!(config.lookup_project("/some/root/w0/w1/p1").is_ok());
    assert!(config.lookup_project("/some/root/w0/p0").is_ok());
    for path in config.collect_workspace_paths() {
        assert!(config.lookup_workspace(&path).is_ok());
    }
    for path in config.collect_project_paths() {
        assert!(config.lookup_project(&path).is_ok());
    }
}

#[test]
fn lookup_fails_with_not_found() {
    let config = Config::load_from("/some/root", unset(), nested(), None).unwrap();
    assert_eq!(
        config.lookup_workspace("/elsewhere/w0").err(),
        Some(Error::NotFound("/elsewhere/w0".to_string()))
    );
    assert_eq!(config.lookup_workspace("w9").err(), Some(Error::NotFound("w9".to_string())));
    assert_eq!(
        config.lookup_workspace("/some/root/w0/p0").err(),
        Some(Error::NotFound("/some/root/w0/p0".to_string()))
    );
    assert_eq!(
        config.lookup_workspace("/some/root/w0/").err(),
        Some(Error::NotFound("/some/root/w0/".to_string()))
    );
}

#[test]
fn lookup_does_not_find_paths_outside_root() {
    let list = vec![workspace("w0", None, vec![project("p0", None)], vec![])];
    let config = Config::load_from("/r", unset(), list, None).unwrap();
    assert!(config.lookup_workspace("/r/w0").is_ok());
    assert_eq!(config.lookup_workspace("w0").err(), Some(Error::NotFound("w0".to_string())));
    assert_eq!(
        config.lookup_workspace("/other/w0").err(),
        Some(Error::NotFound("/other/w0".to_string()))
    );
    assert_eq!(config.lookup_workspace("/r").err(), Some(Error::NotFound("/r".to_string())));
    assert!(config.lookup_project("/r/w0/p0").is_ok());
    assert_eq!(config.lookup_project("w0/p0").err(), Some(Error::NotFound("w0".to_string())));
}

#[test]
fn lookup_project_names_what_is_missing() {
    let list = vec![workspace("w0", None, vec![project("p0", None)], vec![])];
    let config = Config::load_from("/r", unset(), list, None).unwrap();
    assert_eq!(
        config.lookup_project("/r/w0/nope").err(),
        Some(Error::NotFound("/r/w0/nope".to_string()))
    );
    assert_eq!(config.lookup_project("/r/zz/p0").err(), Some(Error::NotFound("/r/zz".to_string())));
    assert_eq!(config.lookup_project("/").err(), Some(Error::NotFound("/".to_string())));
    assert_eq!(config.lookup_project("").err(), Some(Error::NotFound(String::new())));
    assert_eq!(config.lookup_project("/r/w0").err(), Some(Error::NotFound("/r".to_string())));
}

#[test]
fn normal_form_of_paths() {
    assert_eq!(normalize("/r/w0/"), "/r/w0");
    assert_eq!(normalize("/r//w0///p0"), "/r/w0/p0");
    assert_eq!(normalize("//"), "/");
    assert_eq!(normalize("/"), "/");
    assert_eq!(normalize(""), "");
    assert_eq!(normalize("w0//p0//"), "w0/p0");
    assert_eq!(normalize("/r/w0"), "/r/w0");
    assert_eq!(parent(&normalize("/r/w0/")), Some("/r".to_string()));
}

#[test]
fn overlay_keeps_deeper_setting() {
    let top = GitConfig {
        clone_strategy: Some(GitCloneStrategy::Worktree),
        protocol: Some(GitCloneProtocol::SSH),
        host: Some(GitHost::GitLab),
    };
    let own = GitConfig { clone_strategy: None, protocol: Some(GitCloneProtocol::HTTPS), host: None };
    let repo = ProjectGitSettings {
        repo: "owner/name".to_string(),
        core_settings: GitConfig {
            clone_strategy: Some(GitCloneStrategy::Branch),
            protocol: None,
            host: None,
        },
    };
    let inner = workspace(
        "inner",
        Some(GitConfig { clone_strategy: None, protocol: None, host: Some(GitHost::GitHub) }),
        vec![project("q", Some(ProjectGitSettings {
            repo: "o/q".to_string(),
            core_settings: unset(),
        }))],
        vec![],
    );
    let list = vec![workspace("w", Some(own), vec![project("p", Some(repo)), project("d", None)], vec![inner])];
    let config = Config::load_from("/r", top, list, None).unwrap();
    assert_eq!(config.git, top);
    let w = config.lookup_workspace("/r/w").unwrap();
    assert_eq!(
        w.git,
        Some(GitConfig {
            clone_strategy: Some(GitCloneStrategy::Worktree),
            protocol: Some(GitCloneProtocol::HTTPS),
            host: Some(GitHost::GitLab),
        })
    );
    let p = config.lookup_project("/r/w/p").unwrap();
    let settings = p.git.as_ref().unwrap();
    assert_eq!(settings.repo, "owner/name");
    assert_eq!(
        settings.core_settings,
        GitConfig {
            clone_strategy: Some(GitCloneStrategy::Branch),
            protocol: Some(GitCloneProtocol::HTTPS),
            host: Some(GitHost::GitLab),
        }
    );
    assert_eq!(config.lookup_project("/r/w/d").unwrap().git, None);
    let q = config.lookup_project("/r/w/inner/q").unwrap();
    assert_eq!(
        q.git.as_ref().unwrap().core_settings,
        GitConfig {
            clone_strategy: Some(GitCloneStrategy::Worktree),
            protocol: Some(GitCloneProtocol::HTTPS),
            host: Some(GitHost::GitHub),
        }
    );
}

#[test]
fn unset_everywhere_resolves_to_defaults() {
    let repo = ProjectGitSettings { repo: "o/n".to_string(), core_settings: unset() };
    let list = vec![workspace("w", None, vec![project("p", Some(repo))], vec![])];
    let config = Config::load_from("/r", unset(), list, None).unwrap();
    let defaults = GitConfig {
        clone_strategy: Some(GitCloneStrategy::Branch),
        protocol: Some(GitCloneProtocol::HTTPS),
        host: Some(GitHost::GitHub),
    };
    assert_eq!(config.git, defaults);
    assert_eq!(GitConfig::defaults(), defaults);
    assert_eq!(GitConfig::unset(), unset());
    assert_eq!(config.lookup_workspace("/r/w").unwrap().git, Some(defaults));
    assert_eq!(config.lookup_project("/r/w/p").unwrap().git.as_ref().unwrap().core_settings, defaults);
}

#[test]
fn overlay_on_single_nodes() {
    let g = GitConfig { clone_strategy: None, protocol: Some(GitCloneProtocol::SSH), host: None };
    let mut p = Project::with_git(ProjectGitSettings::new("o/n".to_string(), unset()));
    p.overlay_git_config(g);
    assert_eq!(p.git.as_ref().unwrap().core_settings, g);
    let mut e = Project::empty();
    e.overlay_git_config(g);
    assert_eq!(e.git, None);
    let mut w = Workspace { projects: vec![NamedProject { name: "p".to_string(), project: p }], git: None, workspaces: vec![] };
    w.overlay_git_config(GitConfig { host: Some(GitHost::GitLab), ..unset() });
    assert_eq!(w.git, Some(GitConfig { host: Some(GitHost::GitLab), ..unset() }));
    assert_eq!(
        w.projects[0].project.git.as_ref().unwrap().core_settings,
        GitConfig { clone_strategy: None, protocol: Some(GitCloneProtocol::SSH), host: Some(GitHost::GitLab) }
    );
    assert_eq!(w.collect_project_paths("/r/w"), strings(&["/r/w/p"]));
    assert_eq!(g.overlay(unset()), g);
}
