//! Git settings, their inheritance, and the addresses derived from them.
use vstd::prelude::*;
use vstd::string::*;

use crate::paths::join;
use crate::paths::join_spec;

verus! {

/// Where a repository is hosted.
#[derive(Debug, Clone, Copy, PartialEq, Eq, Structural)]
pub enum GitHost {
    GitHub,
    GitLab,
}

/// How a repository is laid out on disk once cloned.
#[derive(Debug, Clone, Copy, PartialEq, Eq, Structural)]
pub enum GitCloneStrategy {
    /// A bare clone in a `.bare` subdirectory, for detachable worktrees.
    Worktree,
    /// An ordinary clone with a working tree.
    Branch,
}

/// How the repository is reached.
#[derive(Debug, Clone, Copy, PartialEq, Eq, Structural)]
pub enum GitCloneProtocol {
    HTTPS,
    SSH,
}

/// Git settings as written at one level of the tree: each may be left out.
#[derive(Debug, Clone, Copy, PartialEq, Eq, Structural)]
pub struct GitConfig {
    pub clone_strategy: Option<GitCloneStrategy>,
    pub protocol: Option<GitCloneProtocol>,
    pub host: Option<GitHost>,
}

/// The repository of a project, with the settings written beside it.
#[derive(Debug, Clone, PartialEq, Eq)]
pub struct ProjectGitSettings {
    pub repo: String,
    pub core_settings: GitConfig,
}

/// The settings that decide how a clone is made.
#[derive(Debug, Clone, Copy, PartialEq, Eq, Structural)]
pub struct GitCloneOptions {
    pub strategy: GitCloneStrategy,
    pub protocol: GitCloneProtocol,
}

/// One repository to clone into one directory, every setting decided.
#[derive(Debug, Clone, PartialEq, Eq)]
pub struct Git {
    pub path: String,
    pub repo: String,
    pub host: GitHost,
    pub clone_options: GitCloneOptions,
}

/// What a clone has to do on disk and what it asks of the transport.
#[derive(Debug, Clone, PartialEq, Eq)]
pub struct CloneRequest {
    /// The directory to create before cloning, if any.
    pub create_dir: Option<String>,
    /// The directory that receives the repository.
    pub directory: String,
    /// Whether the clone is bare.
    pub bare: bool,
    /// The address tried first, without a user name of its own.
    pub url: String,
}

/// The repository of a project as a value.
pub ghost struct RepoModel {
    pub repo: Seq<char>,
    pub core_settings: GitConfig,
}

/// One repository to clone into one directory, as a value.
pub ghost struct GitModel {
    pub path: Seq<char>,
    pub repo: Seq<char>,
    pub host: GitHost,
    pub clone_options: GitCloneOptions,
}

impl View for ProjectGitSettings {
    type V = RepoModel;

    open spec fn view(&self) -> RepoModel {
        RepoModel { repo: self.repo@, core_settings: self.core_settings }
    }
}

impl View for Git {
    type V = GitModel;

    open spec fn view(&self) -> GitModel {
        GitModel {
            path: self.path@,
            repo: self.repo@,
            host: self.host,
            clone_options: self.clone_options,
        }
    }
}

/// `value` where it is set, else `fallback`.
pub open spec fn value_or<T>(value: Option<T>, fallback: T) -> T {
    match value {
        Some(v) => v,
        None => fallback,
    }
}

/// The clone of `repo` into `path`: a setting that is still open falls
/// back to GitHub, HTTPS, working-tree clone.
pub open spec fn git_for(path: Seq<char>, repo: RepoModel) -> GitModel {
    GitModel {
        path,
        repo: repo.repo,
        host: value_or(repo.core_settings.host, GitHost::GitHub),
        clone_options: GitCloneOptions {
            strategy: value_or(repo.core_settings.clone_strategy, GitCloneStrategy::Branch),
            protocol: value_or(repo.core_settings.protocol, GitCloneProtocol::HTTPS),
        },
    }
}

/// `own` where it is set, else `inherited`.
pub open spec fn or_spec<T>(own: Option<T>, inherited: Option<T>) -> Option<T> {
    if own.is_some() {
        own
    } else {
        inherited
    }
}

/// The settings of a level laid over those it inherits: a field that is set
/// stays, a field that is not takes the inherited value.
pub open spec fn overlay_spec(own: GitConfig, inherited: GitConfig) -> GitConfig {
    GitConfig {
        clone_strategy: or_spec(own.clone_strategy, inherited.clone_strategy),
        protocol: or_spec(own.protocol, inherited.protocol),
        host: or_spec(own.host, inherited.host),
    }
}

/// The settings that apply where nothing is set at any level.
pub open spec fn default_settings() -> GitConfig {
    GitConfig {
        clone_strategy: Some(GitCloneStrategy::Branch),
        protocol: Some(GitCloneProtocol::HTTPS),
        host: Some(GitHost::GitHub),
    }
}

/// Nothing set.
pub open spec fn unset_settings() -> GitConfig {
    GitConfig { clone_strategy: None, protocol: None, host: None }
}

/// The host's domain name.
pub open spec fn domain_spec(host: GitHost) -> Seq<char> {
    match host {
        GitHost::GitHub => "github.com"@,
        GitHost::GitLab => "gitlab.com"@,
    }
}

/// The user name in an SSH address: the one given, else `git`.
pub open spec fn ssh_user_spec(user: Option<Seq<char>>) -> Seq<char> {
    match user {
        Some(u) => u,
        None => "git"@,
    }
}

/// The address of `repo` on `host` over `proto`.
pub open spec fn url_spec(
    host: GitHost,
    proto: GitCloneProtocol,
    repo: Seq<char>,
    user: Option<Seq<char>>,
) -> Seq<char> {
    match proto {
        GitCloneProtocol::HTTPS => "https://"@ + domain_spec(host) + "/"@ + repo + ".git"@,
        GitCloneProtocol::SSH => ssh_user_spec(user) + "@"@ + domain_spec(host) + ":"@ + repo
            + ".git"@,
    }
}

/// A string as a value, if there is one.
pub open spec fn option_string_view(s: Option<&String>) -> Option<Seq<char>> {
    match s {
        Some(s) => Some(s@),
        None => None,
    }
}

impl GitConfig {
    /// Every field is set.
    pub open spec fn is_resolved(self) -> bool {
        self.clone_strategy.is_some() && self.protocol.is_some() && self.host.is_some()
    }

    /// A level at which nothing is set.
    pub fn unset() -> (g: GitConfig)
        ensures
            g == unset_settings(),
    {
        GitConfig { clone_strategy: None, protocol: None, host: None }
    }

    /// GitHub, HTTPS and an ordinary working-tree clone.
    pub fn defaults() -> (g: GitConfig)
        ensures
            g == default_settings(),
    {
        GitConfig {
            clone_strategy: Some(GitCloneStrategy::Branch),
            protocol: Some(GitCloneProtocol::HTTPS),
            host: Some(GitHost::GitHub),
        }
    }

    /// These settings laid over `inherited`.
    pub fn overlay(self, inherited: GitConfig) -> (merged: GitConfig)
        ensures
            merged == overlay_spec(self, inherited),
    {
        GitConfig {
            clone_strategy: if self.clone_strategy.is_some() {
                self.clone_strategy
            } else {
                inherited.clone_strategy
            },
            protocol: if self.protocol.is_some() {
                self.protocol
            } else {
                inherited.protocol
            },
            host: if self.host.is_some() {
                self.host
            } else {
                inherited.host
            },
        }
    }
}

impl GitCloneStrategy {
    /// Whether the clone is a bare one for worktrees.
    pub fn is_worktree(&self) -> (yes: bool)
        ensures
            yes == (*self == GitCloneStrategy::Worktree),
    {
        match self {
            GitCloneStrategy::Worktree => true,
            GitCloneStrategy::Branch => false,
        }
    }
}

impl GitHost {
    /// The host's domain name.
    pub fn to_string(&self) -> (domain: String)
        ensures
            domain@ == domain_spec(*self),
    {
        match self {
            GitHost::GitHub => String::from_str("github.com"),
            GitHost::GitLab => String::from_str("gitlab.com"),
        }
    }

    /// The address of `repo` on this host: `https://<domain>/<repo>.git`
    /// over HTTPS, `<user>@<domain>:<repo>.git` over SSH, where the user
    /// is `git` unless one is given.
    pub fn to_url(&self, proto: &GitCloneProtocol, repo: &String, user: Option<&String>) -> (url:
        String)
        ensures
            url@ == url_spec(*self, *proto, repo@, option_string_view(user)),
    {
        let domain = self.to_string();
        match proto {
            GitCloneProtocol::HTTPS => {
                let mut url = String::from_str("https://");
                url.append(domain.as_str());
                url.append("/");
                url.append(repo.as_str());
                url.append(".git");
                url
            },
            GitCloneProtocol::SSH => {
                let mut url = match user {
                    Some(u) => u.clone(),
                    None => String::from_str("git"),
                };
                url.append("@");
                url.append(domain.as_str());
                url.append(":");
                url.append(repo.as_str());
                url.append(".git");
                url
            },
        }
    }
}

impl ProjectGitSettings {
    /// The repository `repo` with the settings written beside it.
    pub fn new(repo: String, core_settings: GitConfig) -> (settings: ProjectGitSettings)
        ensures
            settings.repo == repo,
            settings.core_settings == core_settings,
    {
        ProjectGitSettings { repo, core_settings }
    }
}

impl Git {
    /// The repository of `proj_git`, to be cloned into `path`. A setting
    /// that is still open falls back to GitHub, HTTPS, working-tree clone.
    pub fn new(path: String, proj_git: ProjectGitSettings) -> (git: Git)
        ensures
            git@ == git_for(path@, proj_git@),
    {
        Git {
            path,
            repo: proj_git.repo,
            host: match proj_git.core_settings.host {
                Some(h) => h,
                None => GitHost::GitHub,
            },
            clone_options: GitCloneOptions {
                strategy: match proj_git.core_settings.clone_strategy {
                    Some(s) => s,
                    None => GitCloneStrategy::Branch,
                },
                protocol: match proj_git.core_settings.protocol {
                    Some(p) => p,
                    None => GitCloneProtocol::HTTPS,
                },
            },
        }
    }

    /// The directory that receives the repository: the project's own for
    /// a working-tree clone, its `.bare` subdirectory for a worktree one.
    pub open spec fn directory_spec(self) -> Seq<char> {
        if self.clone_options.strategy == GitCloneStrategy::Worktree {
            join_spec(self.path@, ".bare"@)
        } else {
            self.path@
        }
    }

    /// The address tried for `user`, or without a user name of its own.
    pub open spec fn url_for(self, user: Option<Seq<char>>) -> Seq<char> {
        url_spec(self.host, self.clone_options.protocol, self.repo@, user)
    }

    /// The same clone, held a second time.
    pub fn duplicate(&self) -> (copy: Git)
        ensures
            copy@ == self@,
    {
        Git {
            path: self.path.clone(),
            repo: self.repo.clone(),
            host: self.host,
            clone_options: self.clone_options,
        }
    }

    /// What cloning this repository takes. A worktree clone first creates
    /// the project directory and then clones bare into `.bare` below it;
    /// a branch clone goes straight into the project directory.
    pub fn clone_request(&self) -> (request: CloneRequest)
        ensures
            request.bare == (self.clone_options.strategy == GitCloneStrategy::Worktree),
            request.directory@ == self.directory_spec(),
            request.url@ == self.url_for(None),
            match request.create_dir {
                Some(d) => request.bare && d@ == self.path@,
                None => !request.bare,
            },
    {
        let url = self.host.to_url(&self.clone_options.protocol, &self.repo, None);
        if self.clone_options.strategy.is_worktree() {
            CloneRequest {
                create_dir: Some(self.path.clone()),
                directory: join(self.path.as_str(), ".bare"),
                bare: true,
                url,
            }
        } else {
            CloneRequest { create_dir: None, directory: self.path.clone(), bare: false, url }
        }
    }

    /// The address tried for `user`.
    pub fn url_with_user(&self, user: &String) -> (url: String)
        ensures
            url@ == self.url_for(Some(user@)),
    {
        self.host.to_url(&self.clone_options.protocol, &self.repo, Some(user))
    }
}

} // verus!
