use dev_workspaces::credentials::candidate_usernames;
use dev_workspaces::credentials::AnswerKind;
use dev_workspaces::credentials::AttemptOutcome;
use dev_workspaces::credentials::CredentialAnswer;
use dev_workspaces::credentials::CredentialKinds;
use dev_workspaces::credentials::Failure;
use dev_workspaces::credentials::Negotiation;
use dev_workspaces::credentials::NextStep;
use dev_workspaces::credentials::Phase;

fn only_username() -> CredentialKinds {
    CredentialKinds { username: true, ..CredentialKinds::none() }
}

fn only_ssh_key() -> CredentialKinds {
    CredentialKinds { ssh_key: true, ..CredentialKinds::none() }
}

fn only_user_pass() -> CredentialKinds {
    CredentialKinds { user_pass_plaintext: true, ..CredentialKinds::none() }
}

fn only_default() -> CredentialKinds {
    CredentialKinds { default: true, ..CredentialKinds::none() }
}

/// A transport that asks for a bare user name, accepts `accepted` alone, and
/// then asks for a password until it is handed a credential.
fn attempt_with_username(state: &mut Negotiation, accepted: &str, tried: &mut Vec<String>) -> bool {
    match state.decide(only_username()) {
        CredentialAnswer::Username(name) => {
            tried.push(name.clone());
            if name != accepted {
                return false;
            }
        }
        _ => return false,
    }
    for _ in 0..4 {
        if state.decide(only_user_pass()) == CredentialAnswer::SshKeyFromAgent {
            return true;
        }
    }
    false
}

fn negotiate(env_user: Option<&str>, accepted: &str) -> (NextStep, Vec<String>) {
    let mut state = Negotiation::new(env_user.map(|u| u.to_string()));
    assert_eq!(state.decide(only_username()), CredentialAnswer::UsernameNeeded);
    let mut tried = Vec::new();
    let mut next = state.finish_attempt(AttemptOutcome::Failed);
    let mut offered = Vec::new();
    while let NextStep::Retry(name) = &next {
        offered.push(name.clone());
        assert_eq!(state.username(), Some(name));
        let ok = attempt_with_username(&mut state, accepted, &mut tried);
        next = state.finish_attempt(if ok {
            AttemptOutcome::Succeeded
        } else {
            AttemptOutcome::Rejected
        });
    }
    assert_eq!(offered, tried);
    (next, tried)
}

#[test]
fn ssh_key_only_succeeds_on_first_attempt() {
    let mut state = Negotiation::new(Some("alice".to_string()));
    assert_eq!(state.decide(only_ssh_key()), CredentialAnswer::SshKeyFromAgent);
    assert!(!state.ssh_username_requested);
    assert!(state.tried_sshkey);
    assert_eq!(state.finish_attempt(AttemptOutcome::Succeeded), NextStep::Done);
    assert_eq!(state.phase, Phase::Finished);
    assert_eq!(state.username(), None);
}

#[test]
fn usernames_are_tried_in_order() {
    let (next, tried) = negotiate(Some("alice"), "git");
    assert_eq!(next, NextStep::Done);
    assert_eq!(tried, vec!["git".to_string()]);

    let (next, tried) = negotiate(Some("alice"), "Will Czifro");
    assert_eq!(next, NextStep::Done);
    assert_eq!(tried, vec!["git".to_string(), "Will Czifro".to_string()]);

    let (next, tried) = negotiate(Some("alice"), "alice");
    assert_eq!(next, NextStep::Done);
    assert_eq!(tried, vec!["git".to_string(), "Will Czifro".to_string(), "alice".to_string()]);
}

#[test]
fn exhausted_when_no_username_is_accepted() {
    let (next, tried) = negotiate(Some("alice"), "bob");
    assert_eq!(next, NextStep::Failed(Failure::AuthExhausted));
    assert_eq!(tried, vec!["git".to_string(), "Will Czifro".to_string(), "alice".to_string()]);

    let (next, tried) = negotiate(None, "alice");
    assert_eq!(next, NextStep::Failed(Failure::AuthExhausted));
    assert_eq!(tried, vec!["git".to_string(), "Will Czifro".to_string()]);
}

#[test]
fn candidates_are_git_fallback_and_env_user() {
    assert_eq!(candidate_usernames(None), vec!["git".to_string(), "Will Czifro".to_string()]);
    assert_eq!(
        candidate_usernames(Some("alice".to_string())),
        vec!["git".to_string(), "Will Czifro".to_string(), "alice".to_string()]
    );
}

#[test]
fn first_attempt_follows_priority() {
    let all = CredentialKinds { username: true, ssh_key: true, user_pass_plaintext: true, default: true };
    let mut state = Negotiation::new(None);
    assert_eq!(state.decide(all), CredentialAnswer::UsernameNeeded);
    assert!(state.ssh_username_requested);

    let no_username = CredentialKinds { username: false, ..all };
    let mut state = Negotiation::new(None);
    assert_eq!(state.decide(no_username), CredentialAnswer::SshKeyFromAgent);
    assert_eq!(state.decide(no_username), CredentialAnswer::CredentialHelper);
    assert_eq!(state.decide(no_username), CredentialAnswer::CredentialHelper);
    state.record_helper(false);
    assert!(state.cred_helper_bad);
    assert_eq!(state.decide(no_username), CredentialAnswer::Default);
    assert!(!state.refused);

    let mut state = Negotiation::new(None);
    assert_eq!(state.decide(only_ssh_key()), CredentialAnswer::SshKeyFromAgent);
    assert_eq!(state.decide(only_ssh_key()), CredentialAnswer::NoMethod);
    assert!(state.refused);
    assert_eq!(state.finish_attempt(AttemptOutcome::Failed), NextStep::Failed(Failure::AuthExhausted));
}

#[test]
fn helper_is_asked_until_it_fails() {
    let mut state = Negotiation::new(None);
    assert_eq!(state.decide(only_user_pass()), CredentialAnswer::CredentialHelper);
    state.record_helper(true);
    assert_eq!(state.decide(only_user_pass()), CredentialAnswer::CredentialHelper);
    state.record_helper(false);
    assert_eq!(state.decide(only_user_pass()), CredentialAnswer::NoMethod);
    assert_eq!(state.decide(only_default()), CredentialAnswer::Default);
    assert_eq!(state.decide(CredentialKinds::none()), CredentialAnswer::NoMethod);
}

#[test]
fn transport_failure_is_passed_on() {
    let mut state = Negotiation::new(None);
    assert_eq!(state.finish_attempt(AttemptOutcome::Failed), NextStep::Failed(Failure::Transport));
    let mut state = Negotiation::new(None);
    assert_eq!(state.decide(only_default()), CredentialAnswer::Default);
    assert_eq!(state.finish_attempt(AttemptOutcome::Failed), NextStep::Failed(Failure::Transport));
    assert_eq!(state.phase, Phase::Finished);
    assert_eq!(state.decide(only_default()), CredentialAnswer::NoMethod);
}

#[test]
fn rejected_credentials_exhaust_authentication() {
    let mut state = Negotiation::new(None);
    assert_eq!(state.decide(only_default()), CredentialAnswer::Default);
    assert_eq!(
        state.finish_attempt(AttemptOutcome::Rejected),
        NextStep::Failed(Failure::AuthExhausted)
    );
}

#[test]
fn transport_failure_in_a_retry_ends_the_negotiation() {
    let mut state = Negotiation::new(Some("alice".to_string()));
    assert_eq!(state.decide(only_username()), CredentialAnswer::UsernameNeeded);
    assert!(state.refused);
    assert_eq!(state.finish_attempt(AttemptOutcome::Failed), NextStep::Retry("git".to_string()));
    assert!(!state.refused);
    assert_eq!(state.finish_attempt(AttemptOutcome::Failed), NextStep::Failed(Failure::Transport));
    assert_eq!(state.phase, Phase::Finished);
    assert_eq!(state.username(), None);

    let mut state = Negotiation::new(Some("alice".to_string()));
    assert_eq!(state.decide(only_username()), CredentialAnswer::UsernameNeeded);
    assert_eq!(state.finish_attempt(AttemptOutcome::Failed), NextStep::Retry("git".to_string()));
    assert_eq!(state.decide(only_username()), CredentialAnswer::Username("git".to_string()));
    assert_eq!(state.decide(only_ssh_key()), CredentialAnswer::NotAvailable);
    assert!(state.refused);
    assert_eq!(
        state.finish_attempt(AttemptOutcome::Failed),
        NextStep::Retry("Will Czifro".to_string())
    );
    assert_eq!(state.decide(only_username()), CredentialAnswer::Username("Will Czifro".to_string()));
    assert_eq!(state.finish_attempt(AttemptOutcome::Rejected), NextStep::Retry("alice".to_string()));
    assert_eq!(
        state.finish_attempt(AttemptOutcome::Rejected),
        NextStep::Failed(Failure::AuthExhausted)
    );
}

#[test]
fn retry_offers_key_at_second_request() {
    let mut state = Negotiation::new(None);
    assert_eq!(state.decide(only_username()), CredentialAnswer::UsernameNeeded);
    assert_eq!(state.finish_attempt(AttemptOutcome::Failed), NextStep::Retry("git".to_string()));
    assert_eq!(state.phase, Phase::Retry(0));
    assert_eq!(state.decide(only_default()), CredentialAnswer::NotAvailable);
    assert_eq!(state.decide(only_ssh_key()), CredentialAnswer::NotAvailable);
    assert_eq!(state.decide(only_username()), CredentialAnswer::Username("git".to_string()));
    assert_eq!(state.decide(only_user_pass()), CredentialAnswer::SshKeyFromAgent);
    assert_eq!(state.decide(only_ssh_key()), CredentialAnswer::NotAvailable);
    assert_eq!(state.decide(only_ssh_key()), CredentialAnswer::NotAvailable);
    assert_eq!(state.key_requests, 2);
    assert_eq!(state.finish_attempt(AttemptOutcome::Failed), NextStep::Retry("Will Czifro".to_string()));
    assert_eq!(state.key_requests, 0);
    assert_eq!(state.decide(only_ssh_key()).kind(), AnswerKind::NotAvailable);
    assert_eq!(state.decide(only_ssh_key()).kind(), AnswerKind::SshKeyFromAgent);
}
