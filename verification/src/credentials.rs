//! Credential negotiation for one clone: which credential to offer each
//! time the transport asks, and which user name to try next when an
//! attempt has failed.
//!
//! The transport is driven from outside. It polls [`Negotiation::decide`]
//! once per credential request, reports what the credential helper said
//! through [`Negotiation::record_helper`], and reports the end of each
//! attempt through [`Negotiation::finish_attempt`], which says what to do
//! next. The order of user names is a heuristic: a server may negotiate the
//! user name first or know it already, and nothing here can tell which.
use vstd::prelude::*;
use vstd::string::*;

use crate::paths::strings_view;

verus! {

/// The credential kinds that the transport accepts at one request.
#[derive(Debug, Clone, Copy, PartialEq, Eq, Structural)]
pub struct CredentialKinds {
    /// A bare user name.
    pub username: bool,
    /// An SSH key.
    pub ssh_key: bool,
    /// A user name with a password in plain text.
    pub user_pass_plaintext: bool,
    /// Anonymous or default credentials.
    pub default: bool,
}

/// What to hand the transport at one credential request.
#[derive(Debug, Clone, PartialEq, Eq)]
pub enum CredentialAnswer {
    /// Fail this request: a user name is needed, and the attempt is to be
    /// made again with one.
    UsernameNeeded,
    /// The given user name.
    Username(String),
    /// The key of the running SSH agent, for the user name that the
    /// transport names.
    SshKeyFromAgent,
    /// Whatever the credential helper of the system yields.
    CredentialHelper,
    /// Anonymous or default credentials.
    Default,
    /// Fail this request: no authentication method is left.
    NoMethod,
    /// Fail this request: nothing is on offer for it at this point of a
    /// retry.
    NotAvailable,
}

/// A credential answer without the user name it may carry.
#[derive(Debug, Clone, Copy, PartialEq, Eq, Structural)]
pub enum AnswerKind {
    UsernameNeeded,
    Username,
    SshKeyFromAgent,
    CredentialHelper,
    Default,
    NoMethod,
    NotAvailable,
}

/// Why a negotiation ended without a clone.
#[derive(Debug, Clone, Copy, PartialEq, Eq, Structural)]
pub enum Failure {
    /// The transport failed for a reason of its own; its error is passed
    /// on as it is.
    Transport,
    /// Every credential source was tried and none was accepted.
    AuthExhausted,
}

/// How an attempt ended.
#[derive(Debug, Clone, Copy, PartialEq, Eq, Structural)]
pub enum AttemptOutcome {
    /// The clone is made.
    Succeeded,
    /// The transport reports that the credentials were not accepted.
    Rejected,
    /// The attempt failed in any other way.
    Failed,
}

/// An answer that fails the request.
pub open spec fn refuses(answer: AnswerKind) -> bool {
    answer == AnswerKind::UsernameNeeded || answer == AnswerKind::NoMethod || answer
        == AnswerKind::NotAvailable
}

/// What follows an attempt.
#[derive(Debug, Clone, PartialEq, Eq)]
pub enum NextStep {
    /// The clone is made.
    Done,
    /// Make the attempt again, with this user name in the address.
    Retry(String),
    /// Give up.
    Failed(Failure),
}

/// Which attempt a negotiation is in.
#[derive(Debug, Clone, Copy, PartialEq, Eq, Structural)]
pub enum Phase {
    /// The first attempt, with the address as configured.
    Initial,
    /// A retry with the candidate user name at this index.
    Retry(usize),
    /// Nothing more is attempted.
    Finished,
}

/// The state of one negotiation. The flags belong to the attempt in
/// progress and to this clone alone.
#[derive(Debug, Clone, PartialEq, Eq)]
pub struct Negotiation {
    /// The user names to retry with, in order.
    pub candidates: Vec<String>,
    pub phase: Phase,
    /// The transport has asked for a bare user name in the first attempt.
    pub ssh_username_requested: bool,
    /// The agent's key has been offered in the first attempt.
    pub tried_sshkey: bool,
    /// The credential helper has failed in the first attempt.
    pub cred_helper_bad: bool,
    /// A request of the attempt in progress was failed by the negotiation
    /// itself, which had nothing to offer for it.
    pub refused: bool,
    /// The requests for a key or a password seen in the current retry:
    /// none, one, or two and more.
    pub key_requests: u8,
}

/// The user name tried first on a retry.
pub open spec fn first_candidate() -> Seq<char> {
    "git"@
}

/// The identity tried second on a retry.
pub open spec fn fallback_identity() -> Seq<char> {
    "Will Czifro"@
}

/// The user names to retry with, in order: `git`, the fallback identity,
/// then the current user of the environment if it is known.
pub open spec fn candidates_spec(env_user: Option<Seq<char>>) -> Seq<Seq<char>> {
    match env_user {
        Some(u) => seq![first_candidate(), fallback_identity(), u],
        None => seq![first_candidate(), fallback_identity()],
    }
}

/// A user name as a value, if there is one.
pub open spec fn option_name_view(name: Option<String>) -> Option<Seq<char>> {
    match name {
        Some(n) => Some(n@),
        None => None,
    }
}

/// The answer owed in the first attempt, by fixed priority: ask for a
/// retry with user names; the agent's key, once; the credential helper,
/// until it has failed; default credentials; nothing.
pub open spec fn initial_answer(
    tried_sshkey: bool,
    cred_helper_bad: bool,
    allowed: CredentialKinds,
) -> AnswerKind {
    if allowed.username {
        AnswerKind::UsernameNeeded
    } else if allowed.ssh_key && !tried_sshkey {
        AnswerKind::SshKeyFromAgent
    } else if allowed.user_pass_plaintext && !cred_helper_bad {
        AnswerKind::CredentialHelper
    } else if allowed.default {
        AnswerKind::Default
    } else {
        AnswerKind::NoMethod
    }
}

/// The answer owed in a retry that has seen `key_requests` requests for a
/// key or a password before this one: the candidate user name where a
/// bare user name is accepted; the agent's key at the second request for
/// a key or a password; nothing otherwise.
pub open spec fn retry_answer(key_requests: u8, allowed: CredentialKinds) -> AnswerKind {
    if allowed.username {
        AnswerKind::Username
    } else if (allowed.ssh_key || allowed.user_pass_plaintext) && key_requests == 1 {
        AnswerKind::SshKeyFromAgent
    } else {
        AnswerKind::NotAvailable
    }
}

/// `n` counted one further, up to two.
pub open spec fn count_up(n: u8) -> u8 {
    if n < 2 {
        (n + 1) as u8
    } else {
        n
    }
}

impl CredentialKinds {
    /// Nothing accepted.
    pub fn none() -> (kinds: CredentialKinds)
        ensures
            kinds == (CredentialKinds {
                username: false,
                ssh_key: false,
                user_pass_plaintext: false,
                default: false,
            }),
    {
        CredentialKinds {
            username: false,
            ssh_key: false,
            user_pass_plaintext: false,
            default: false,
        }
    }
}

impl CredentialAnswer {
    /// The answer without the user name.
    pub open spec fn kind_spec(self) -> AnswerKind {
        match self {
            CredentialAnswer::UsernameNeeded => AnswerKind::UsernameNeeded,
            CredentialAnswer::Username(_) => AnswerKind::Username,
            CredentialAnswer::SshKeyFromAgent => AnswerKind::SshKeyFromAgent,
            CredentialAnswer::CredentialHelper => AnswerKind::CredentialHelper,
            CredentialAnswer::Default => AnswerKind::Default,
            CredentialAnswer::NoMethod => AnswerKind::NoMethod,
            CredentialAnswer::NotAvailable => AnswerKind::NotAvailable,
        }
    }

    /// The user name that the answer carries.
    pub open spec fn name_spec(self) -> Option<Seq<char>> {
        match self {
            CredentialAnswer::Username(n) => Some(n@),
            _ => None,
        }
    }

    /// The answer without the user name.
    pub fn kind(&self) -> (kind: AnswerKind)
        ensures
            kind == self.kind_spec(),
    {
        match self {
            CredentialAnswer::UsernameNeeded => AnswerKind::UsernameNeeded,
            CredentialAnswer::Username(_) => AnswerKind::Username,
            CredentialAnswer::SshKeyFromAgent => AnswerKind::SshKeyFromAgent,
            CredentialAnswer::CredentialHelper => AnswerKind::CredentialHelper,
            CredentialAnswer::Default => AnswerKind::Default,
            CredentialAnswer::NoMethod => AnswerKind::NoMethod,
            CredentialAnswer::NotAvailable => AnswerKind::NotAvailable,
        }
    }
}

/// The user names to retry with, in order.
pub fn candidate_usernames(env_user: Option<String>) -> (names: Vec<String>)
    ensures
        strings_view(names@) == candidates_spec(option_name_view(env_user)),
{
    let mut names: Vec<String> = Vec::new();
    names.push(String::from_str("git"));
    names.push(String::from_str("Will Czifro"));
    match env_user {
        Some(u) => {
            names.push(u);
            assert(strings_view(names@) =~= candidates_spec(Some(u@)));
        },
        None => {
            assert(strings_view(names@) =~= candidates_spec(None));
        },
    }
    names
}

impl Negotiation {
    /// The index of the candidate in use lies within the candidates.
    pub open spec fn wf(self) -> bool {
        match self.phase {
            Phase::Retry(i) => i < self.candidates.len(),
            _ => true,
        }
    }

    /// The user name of the attempt in progress, if it has one.
    pub open spec fn username_spec(self) -> Option<Seq<char>> {
        match self.phase {
            Phase::Retry(i) => Some(self.candidates[i as int]@),
            _ => None,
        }
    }

    /// The answer owed to a request that accepts `allowed`.
    pub open spec fn answer_spec(self, allowed: CredentialKinds) -> AnswerKind {
        match self.phase {
            Phase::Initial => initial_answer(self.tried_sshkey, self.cred_helper_bad, allowed),
            Phase::Retry(_) => retry_answer(self.key_requests, allowed),
            Phase::Finished => AnswerKind::NoMethod,
        }
    }

    /// The state after a request that accepts `allowed` has been answered.
    pub open spec fn after_decide(self, allowed: CredentialKinds) -> Negotiation {
        match self.phase {
            Phase::Initial => {
                let answer = initial_answer(self.tried_sshkey, self.cred_helper_bad, allowed);
                Negotiation {
                    ssh_username_requested: self.ssh_username_requested || answer
                        == AnswerKind::UsernameNeeded,
                    tried_sshkey: self.tried_sshkey || answer == AnswerKind::SshKeyFromAgent,
                    refused: self.refused || refuses(answer),
                    ..self
                }
            },
            Phase::Retry(_) => {
                let answer = retry_answer(self.key_requests, allowed);
                Negotiation {
                    key_requests: if !allowed.username && (allowed.ssh_key
                        || allowed.user_pass_plaintext) {
                        count_up(self.key_requests)
                    } else {
                        self.key_requests
                    },
                    refused: self.refused || refuses(answer),
                    ..self
                }
            },
            Phase::Finished => self,
        }
    }

    /// The attempt in progress failed for want of an accepted
    /// credential: the transport says so, or the negotiation itself
    /// failed one of its requests. Any other failure is the transport's
    /// own.
    pub open spec fn rejected(self, outcome: AttemptOutcome) -> bool {
        outcome != AttemptOutcome::Succeeded && (outcome == AttemptOutcome::Rejected
            || self.refused)
    }

    /// The negotiation at the start of the retry with the candidate at
    /// `index`: no request of that attempt has been seen or failed.
    pub open spec fn retry_with(self, index: usize) -> Negotiation {
        Negotiation { phase: Phase::Retry(index), key_requests: 0, refused: false, ..self }
    }

    /// What follows an attempt that ended as `outcome` says. Success ends
    /// the negotiation. A failed first attempt is final unless the
    /// transport asked for a user name; then the first candidate is
    /// tried. After a retry that failed for want of an accepted
    /// credential the next candidate is tried, until none is left. A
    /// retry that failed in a way of the transport's own ends the
    /// negotiation.
    pub open spec fn after_attempt(self, outcome: AttemptOutcome) -> Negotiation {
        if outcome == AttemptOutcome::Succeeded {
            Negotiation { phase: Phase::Finished, ..self }
        } else {
            match self.phase {
                Phase::Initial => {
                    if self.ssh_username_requested && self.candidates.len() > 0 {
                        self.retry_with(0)
                    } else {
                        Negotiation { phase: Phase::Finished, ..self }
                    }
                },
                Phase::Retry(i) => {
                    if self.rejected(outcome) && i + 1 < self.candidates.len() {
                        self.retry_with((i + 1) as usize)
                    } else {
                        Negotiation { phase: Phase::Finished, ..self }
                    }
                },
                Phase::Finished => self,
            }
        }
    }

    /// Why the negotiation gives up after an attempt that ended as
    /// `outcome` says: authentication is exhausted where the attempt
    /// failed for want of an accepted credential; the failure is the
    /// transport's own, to be passed on unchanged, where it did not.
    pub open spec fn failure_spec(self, outcome: AttemptOutcome) -> Failure {
        if self.rejected(outcome) {
            Failure::AuthExhausted
        } else {
            Failure::Transport
        }
    }

    /// A negotiation before its first attempt.
    pub fn new(env_user: Option<String>) -> (state: Negotiation)
        ensures
            state.wf(),
            state.phase == Phase::Initial,
            strings_view(state.candidates@) == candidates_spec(option_name_view(env_user)),
            !state.ssh_username_requested,
            !state.tried_sshkey,
            !state.cred_helper_bad,
            !state.refused,
            state.key_requests == 0,
    {
        Negotiation {
            candidates: candidate_usernames(env_user),
            phase: Phase::Initial,
            ssh_username_requested: false,
            tried_sshkey: false,
            cred_helper_bad: false,
            refused: false,
            key_requests: 0,
        }
    }

    /// The user name of the attempt in progress, if it has one.
    pub fn username(&self) -> (name: Option<&String>)
        requires
            self.wf(),
        ensures
            crate::git::option_string_view(name) == self.username_spec(),
    {
        match self.phase {
            Phase::Retry(i) => Some(&self.candidates[i]),
            _ => None,
        }
    }

    /// Answers one credential request of the transport, which accepts
    /// `allowed`, and notes what was offered.
    pub fn decide(&mut self, allowed: CredentialKinds) -> (answer: CredentialAnswer)
        requires
            old(self).wf(),
        ensures
            answer.kind_spec() == old(self).answer_spec(allowed),
            answer.name_spec() == (if answer.kind_spec() == AnswerKind::Username {
                old(self).username_spec()
            } else {
                None
            }),
            *final(self) == old(self).after_decide(allowed),
            final(self).wf(),
    {
        match self.phase {
            Phase::Initial => {
                if allowed.username {
                    self.ssh_username_requested = true;
                    self.refused = true;
                    return CredentialAnswer::UsernameNeeded;
                }
                if allowed.ssh_key && !self.tried_sshkey {
                    self.tried_sshkey = true;
                    return CredentialAnswer::SshKeyFromAgent;
                }
                if allowed.user_pass_plaintext && !self.cred_helper_bad {
                    return CredentialAnswer::CredentialHelper;
                }
                if allowed.default {
                    return CredentialAnswer::Default;
                }
                self.refused = true;
                CredentialAnswer::NoMethod
            },
            Phase::Retry(i) => {
                if allowed.username {
                    return CredentialAnswer::Username(self.candidates[i].clone());
                }
                if allowed.ssh_key || allowed.user_pass_plaintext {
                    let seen: u8 = self.key_requests;
                    if seen < 2 {
                        self.key_requests = seen + 1;
                    }
                    if seen == 1 {
                        return CredentialAnswer::SshKeyFromAgent;
                    }
                }
                self.refused = true;
                CredentialAnswer::NotAvailable
            },
            Phase::Finished => CredentialAnswer::NoMethod,
        }
    }

    /// Notes whether the credential helper, asked after
    /// [`CredentialAnswer::CredentialHelper`], came back with a credential.
    /// Once it has failed it is not asked again in this attempt.
    pub fn record_helper(&mut self, ok: bool)
        ensures
            *final(self) == (Negotiation { cred_helper_bad: !ok, ..*old(self) }),
    {
        self.cred_helper_bad = !ok;
    }

    /// Ends the attempt in progress, which ended as `outcome` says, and
    /// says what follows it.
    pub fn finish_attempt(&mut self, outcome: AttemptOutcome) -> (next: NextStep)
        requires
            old(self).wf(),
        ensures
            *final(self) == old(self).after_attempt(outcome),
            final(self).wf(),
            match next {
                NextStep::Done => outcome == AttemptOutcome::Succeeded,
                NextStep::Retry(name) => {
                    &&& outcome != AttemptOutcome::Succeeded
                    &&& final(self).username_spec() == Some(name@)
                },
                NextStep::Failed(why) => {
                    &&& outcome != AttemptOutcome::Succeeded
                    &&& final(self).username_spec().is_none()
                    &&& why == old(self).failure_spec(outcome)
                },
            },
    {
        let rejected = match outcome {
            AttemptOutcome::Succeeded => {
                self.phase = Phase::Finished;
                return NextStep::Done;
            },
            AttemptOutcome::Rejected => true,
            AttemptOutcome::Failed => self.refused,
        };
        let failure = if rejected {
            Failure::AuthExhausted
        } else {
            Failure::Transport
        };
        match self.phase {
            Phase::Initial => {
                if self.ssh_username_requested && self.candidates.len() > 0 {
                    self.phase = Phase::Retry(0);
                    self.key_requests = 0;
                    self.refused = false;
                    NextStep::Retry(self.candidates[0].clone())
                } else {
                    self.phase = Phase::Finished;
                    NextStep::Failed(failure)
                }
            },
            Phase::Retry(i) => {
                if rejected && i + 1 < self.candidates.len() {
                    self.phase = Phase::Retry(i + 1);
                    self.key_requests = 0;
                    self.refused = false;
                    NextStep::Retry(self.candidates[i + 1].clone())
                } else {
                    self.phase = Phase::Finished;
                    NextStep::Failed(failure)
                }
            },
            Phase::Finished => NextStep::Failed(failure),
        }
    }
}

/// The negotiation after `n` more attempts have failed for want of an
/// accepted credential.
pub open spec fn after_failures(state: Negotiation, n: nat) -> Negotiation
    decreases n,
{
    if n == 0 {
        state
    } else {
        after_failures(state, (n - 1) as nat).after_attempt(AttemptOutcome::Rejected)
    }
}

/// Answering a request changes neither the attempt in progress nor the
/// candidates, and a request for a user name, once noted, stays noted.
pub proof fn lemma_decide_keeps_attempt(state: Negotiation, allowed: CredentialKinds)
    ensures
        state.after_decide(allowed).phase == state.phase,
        state.after_decide(allowed).candidates == state.candidates,
        state.ssh_username_requested ==> state.after_decide(allowed).ssh_username_requested,
{
}

/// The candidates are tried in their order. Once the first attempt has
/// asked for a user name, the attempt that follows `n` failures is made
/// with the candidate at index `n - 1`, as long as there is one; after
/// that nothing more is attempted.
pub proof fn lemma_candidates_in_order(state: Negotiation, n: nat)
    requires
        state.phase == Phase::Initial,
        state.ssh_username_requested,
        1 <= n,
    ensures
        after_failures(state, n).candidates == state.candidates,
        n <= state.candidates@.len() ==> after_failures(state, n).phase == Phase::Retry(
            (n - 1) as usize,
        ) && after_failures(state, n).username_spec() == Some(state.candidates@[n - 1]@),
        n > state.candidates@.len() ==> after_failures(state, n).phase == Phase::Finished,
    decreases n,
{
    let before = after_failures(state, (n - 1) as nat);
    assert(after_failures(state, n) == before.after_attempt(AttemptOutcome::Rejected));
    if n > 1 {
        lemma_candidates_in_order(state, (n - 1) as nat);
    } else {
        assert(before == state);
    }
}

} // verus!
