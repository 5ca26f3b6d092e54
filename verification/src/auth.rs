//! The authentication exchange of an API connection: which state it is in,
//! what each step of the underlying SASL session makes of it, and what the
//! client is told.

use vstd::prelude::*;

verus! {

/// The state of an authentication exchange; `S` is the running session.
pub enum State<S> {
    InvalidMechanism,
    Finished,
    Aborted,
    Running(S),
}

/// The error codes that a failed exchange reports.
#[derive(Clone, Copy, PartialEq, Eq, Structural, Debug)]
pub enum ErrorCode {
    BadMechanism,
    Aborted,
}

/// What a step of the SASL session came to.
#[derive(Clone, Copy, PartialEq, Eq, Structural, Debug)]
pub enum SessionStep {
    /// The session is done; `has_data` tells whether it left data for the
    /// client.
    Done { has_data: bool },
    /// The session wants another round; its output is the challenge.
    NeedsMore,
    /// The session failed.
    Failed,
}

/// What the client is told after a step.
#[derive(Clone, Copy, PartialEq, Eq, Structural, Debug)]
pub enum StepAnswer {
    /// Authenticated; the session's output goes along when
    /// `additional_data` is set.
    Successful { additional_data: bool },
    /// Not yet; the session's output is the challenge.
    Challenge,
    /// The exchange failed with this code.
    Failed(ErrorCode),
    /// Nothing is filled in.
    Unanswered,
}

/// The coarse kind of a state, without the session.
#[derive(Clone, Copy, PartialEq, Eq, Structural, Debug)]
pub enum StateKind {
    InvalidMechanism,
    Finished,
    Aborted,
    Running,
}

pub open spec fn kind_of<S>(s: State<S>) -> StateKind {
    match s {
        State::InvalidMechanism => StateKind::InvalidMechanism,
        State::Finished => StateKind::Finished,
        State::Aborted => StateKind::Aborted,
        State::Running(_) => StateKind::Running,
    }
}

/// The error code that a state reports; a running exchange reports none.
pub open spec fn error_code_of(k: StateKind) -> Option<ErrorCode> {
    match k {
        StateKind::Running => None,
        StateKind::InvalidMechanism => Some(ErrorCode::BadMechanism),
        StateKind::Finished | StateKind::Aborted => Some(ErrorCode::Aborted),
    }
}

/// The error code for the failure answer in state `state`, if it is one
/// that fails.
pub fn build_error<S>(state: &State<S>) -> (r: Option<ErrorCode>)
    ensures
        r == error_code_of(kind_of(*state)),
{
    match state {
        State::Running(_) => None,
        State::InvalidMechanism => Some(ErrorCode::BadMechanism),
        State::Finished => Some(ErrorCode::Aborted),
        State::Aborted => Some(ErrorCode::Aborted),
    }
}

/// Starts a step: the exchange is marked aborted while the step runs, and
/// the running session, if there is one, is handed out.
pub fn take_session<S>(state: &mut State<S>) -> (r: Option<S>)
    ensures
        kind_of(*final(state)) == StateKind::Aborted,
        match *old(state) {
            State::Running(s) => r == Some(s),
            _ => r is None,
        },
{
    let mut taken = State::Aborted;
    std::mem::swap(state, &mut taken);
    match taken {
        State::Running(s) => Some(s),
        _ => None,
    }
}

/// The answer to a step when no session was running: the failure of the
/// state the step left, which is always an abort.
pub fn answer_without_session<S>(state: &State<S>) -> (r: StepAnswer)
    ensures
        r == match error_code_of(kind_of(*state)) {
            Some(c) => StepAnswer::Failed(c),
            None => StepAnswer::Unanswered,
        },
{
    match build_error(state) {
        Some(c) => StepAnswer::Failed(c),
        None => StepAnswer::Unanswered,
    }
}

/// The state a session step leaves and the answer to it.
pub open spec fn after_step_kind(outcome: SessionStep) -> (StateKind, StepAnswer) {
    match outcome {
        SessionStep::Done { has_data } => (StateKind::Finished, StepAnswer::Successful { additional_data: has_data }),
        SessionStep::NeedsMore => (StateKind::Running, StepAnswer::Challenge),
        SessionStep::Failed => (StateKind::Aborted, StepAnswer::Failed(ErrorCode::Aborted)),
    }
}

/// Ends a step of `session` that came to `outcome`: a finished session
/// finishes the exchange, one that wants more keeps running, a failed one
/// aborts it.
pub fn finish_step<S>(state: &mut State<S>, session: S, outcome: SessionStep) -> (r: StepAnswer)
    ensures
        (kind_of(*final(state)), r) == after_step_kind(outcome),
        outcome == SessionStep::NeedsMore ==> *final(state) == State::Running(session),
{
    match outcome {
        SessionStep::Done { has_data } => {
            *state = State::Finished;
            StepAnswer::Successful { additional_data: has_data }
        },
        SessionStep::NeedsMore => {
            *state = State::Running(session);
            StepAnswer::Challenge
        },
        SessionStep::Failed => {
            *state = State::Aborted;
            match build_error(state) {
                Some(c) => StepAnswer::Failed(c),
                None => StepAnswer::Unanswered,
            }
        },
    }
}

/// Aborts the exchange.
pub fn abort<S>(state: &mut State<S>)
    ensures
        kind_of(*final(state)) == StateKind::Aborted,
{
    *state = State::Aborted;
}

/// Every state without a running session answers with a failure; a step
/// taken in such a state (its session is taken out first, which marks the
/// exchange aborted) and a step whose session fails both answer with the
/// abort code and leave the exchange aborted.
pub proof fn law_exchange_without_session_fails(k: StateKind)
    requires
        k != StateKind::Running,
    ensures
        error_code_of(k) is Some,
        error_code_of(StateKind::Aborted) == Some(ErrorCode::Aborted),
        after_step_kind(SessionStep::Failed) == (StateKind::Aborted, StepAnswer::Failed(ErrorCode::Aborted)),
{
}

/// A session step that wants more keeps the exchange running and answers
/// with a challenge, and it is the only outcome that does; a finished
/// session finishes the exchange with a success that carries its data flag;
/// a failed one aborts it with a failure. A state reports an error code
/// exactly when no exchange is running: a bad mechanism for an invalid
/// mechanism, an abort otherwise.
pub proof fn law_step_outcomes(o: SessionStep, k: StateKind)
    ensures
        after_step_kind(o).0 == StateKind::Running <==> o == SessionStep::NeedsMore,
        after_step_kind(o).1 == StepAnswer::Challenge <==> o == SessionStep::NeedsMore,
        after_step_kind(o).1 is Successful <==> o is Done,
        after_step_kind(o).1 is Failed <==> o == SessionStep::Failed,
        o matches SessionStep::Done { has_data } ==> after_step_kind(o) == (
            StateKind::Finished,
            StepAnswer::Successful { additional_data: has_data },
        ),
        o == SessionStep::Failed ==> after_step_kind(o).0 == StateKind::Aborted,
        error_code_of(k) is None <==> k == StateKind::Running,
        k == StateKind::InvalidMechanism ==> error_code_of(k) == Some(ErrorCode::BadMechanism),
        (k == StateKind::Finished || k == StateKind::Aborted) ==> error_code_of(k) == Some(ErrorCode::Aborted),
{
}

/// The kinds of validation a SASL mechanism asks for.
#[derive(Clone, Copy, PartialEq, Eq, Structural, Debug)]
pub enum ValidationKind {
    /// A user name and password.
    Simple,
    /// Anything else.
    Other,
}

/// Why a validation was refused.
#[derive(Clone, Copy, PartialEq, Eq, Structural, Debug)]
pub enum ValidationError {
    /// The session holds no authentication id.
    NoAuthId,
    /// The session holds no password.
    NoPassword,
    /// The user name and password do not log in.
    AuthenticationFailure,
    /// This kind of validation is not offered.
    NoValidate,
}

/// The credentials a simple validation checks: the authentication id and
/// the password the session holds, looked up in that order.
pub fn simple_credentials(kind: ValidationKind, authid: Option<String>, password: Option<String>) -> (r: Result<
    (String, String),
    ValidationError,
>)
    ensures
        kind == ValidationKind::Other ==> r == Err::<(String, String), ValidationError>(ValidationError::NoValidate),
        kind == ValidationKind::Simple && authid is None ==> r == Err::<(String, String), ValidationError>(
            ValidationError::NoAuthId,
        ),
        kind == ValidationKind::Simple && authid is Some && password is None ==> r == Err::<
            (String, String),
            ValidationError,
        >(ValidationError::NoPassword),
        kind == ValidationKind::Simple && authid is Some && password is Some ==> (r matches Ok(c) && c.0@
            == authid.unwrap()@ && c.1@ == password.unwrap()@),
{
    match kind {
        ValidationKind::Other => Err(ValidationError::NoValidate),
        ValidationKind::Simple => match authid {
            None => Err(ValidationError::NoAuthId),
            Some(a) => match password {
                None => Err(ValidationError::NoPassword),
                Some(p) => Ok((a, p)),
            },
        },
    }
}

/// The outcome of a simple validation: accepted exactly when the
/// credentials log in.
pub fn login_outcome(logged_in: bool) -> (r: Result<(), ValidationError>)
    ensures
        logged_in <==> r is Ok,
        !logged_in ==> r == Err::<(), ValidationError>(ValidationError::AuthenticationFailure),
{
    if logged_in {
        Ok(())
    } else {
        Err(ValidationError::AuthenticationFailure)
    }
}

/// Authentication and authorisation data of a user, as an exchange leaves
/// it.
#[derive(Clone, Debug)]
pub struct AuthenticationData {
    authcid: String,
    authzid: String,
    auth_method: String,
    kvs: Vec<(String, String)>,
}

/// Why granting an authentication failed.
#[derive(Clone, Copy, Debug, PartialEq, Eq, Structural, PartialOrd, Ord)]
pub enum AuthError {
    /// Authentication ID is bad or unknown.
    BadAuthcid,
    /// Authorization ID is unknown.
    BadAuthzid,
    /// Authorization ID is not of the form user+uid@realm.
    MalformedAuthzid,
    /// The user may not use that authorization ID.
    NotAllowedAuthzid,
}

} // verus!
