//! The resource fetcher: turns key changes into remote-call requests and
//! completions into the outcome for the current key, tagging every call
//! with an epoch so that a result arriving for a superseded key is
//! discarded instead of overwriting a newer outcome.
use crate::server::id_is_valid;
use crate::server::server;
use crate::server::server_success_text;
use crate::server::ServerError;
use vstd::prelude::*;

verus! {

/// Why a fetch failed: the remote procedure rejected the id, or the
/// transport to it failed before any answer arrived.
#[derive(Clone, Copy, Debug, PartialEq, Eq, Structural)]
pub enum ErrorReason {
    Validation,
    Transport,
}

/// The text shown for a failure reason.
pub open spec fn reason_text(r: ErrorReason) -> Seq<char> {
    match r {
        ErrorReason::Validation => "id is invalid"@,
        ErrorReason::Transport => "transport failure"@,
    }
}

impl ErrorReason {
    /// The text shown for this failure.
    pub fn message(&self) -> (r: String)
        ensures
            r@ == reason_text(*self),
    {
        match self {
            ErrorReason::Validation => String::from_str("id is invalid"),
            ErrorReason::Transport => String::from_str("transport failure"),
        }
    }
}

/// The three rendering states exposed for the current key.
#[derive(Clone, Debug, PartialEq)]
pub enum FetchOutcome {
    Pending,
    Success(String),
    Error(ErrorReason),
}

/// The ghost image of an outcome, with the success text as a sequence.
pub enum OutcomeView {
    Pending,
    Success(Seq<char>),
    Error(ErrorReason),
}

impl View for FetchOutcome {
    type V = OutcomeView;

    open spec fn view(&self) -> OutcomeView {
        match self {
            FetchOutcome::Pending => OutcomeView::Pending,
            FetchOutcome::Success(t) => OutcomeView::Success(t@),
            FetchOutcome::Error(r) => OutcomeView::Error(*r),
        }
    }
}

/// What the fetcher asks its environment to do after a key change.
#[derive(Clone, Copy, Debug, PartialEq, Eq, Structural)]
pub enum FetchAction {
    /// Nothing: the outcome is already settled.
    NoCall,
    /// Call the remote procedure with `id` and report the result back
    /// under `epoch`.
    Call { id: i32, epoch: u64 },
}

/// The ghost image of a fetcher: the epoch of the newest key change, the
/// key it carried, and the outcome exposed for that key.
pub struct FetcherView {
    pub epoch: u64,
    pub key: Option<i32>,
    pub outcome: OutcomeView,
}

/// The placeholder outcome text for an absent key.
pub open spec fn not_yet_text() -> Seq<char> {
    "Not yet"@
}

/// One key change at the ghost level: the epoch advances; an absent key
/// settles at once to the placeholder and asks for no call; a present
/// key goes to `Pending` and asks for a call under the new epoch.
pub open spec fn key_change_step(s: FetcherView, key: Option<i32>) -> (FetcherView, FetchAction) {
    let e = (s.epoch + 1) as u64;
    match key {
        None => (
            FetcherView { epoch: e, key, outcome: OutcomeView::Success(not_yet_text()) },
            FetchAction::NoCall,
        ),
        Some(id) => (
            FetcherView { epoch: e, key, outcome: OutcomeView::Pending },
            FetchAction::Call { id, epoch: e },
        ),
    }
}

/// One completion at the ghost level: a result tagged with the current
/// epoch settles the outcome; a result tagged with any other epoch is
/// discarded wholesale.
pub open spec fn completion_step(
    s: FetcherView,
    epoch: u64,
    result: Result<Seq<char>, ErrorReason>,
) -> FetcherView {
    if epoch == s.epoch {
        FetcherView {
            outcome: match result {
                Ok(t) => OutcomeView::Success(t),
                Err(r) => OutcomeView::Error(r),
            },
            ..s
        }
    } else {
        s
    }
}

/// The ghost image of a completion result.
pub open spec fn result_view(r: Result<String, ErrorReason>) -> Result<Seq<char>, ErrorReason> {
    match r {
        Ok(t) => Ok(t@),
        Err(e) => Err(e),
    }
}

/// The result the remote contract assigns to an id: the success text for
/// a valid id, the validation failure for any other.
pub open spec fn remote_result(id: i32) -> Result<Seq<char>, ErrorReason> {
    if id_is_valid(id) {
        Ok(server_success_text())
    } else {
        Err(ErrorReason::Validation)
    }
}

/// Maps the remote procedure's raw result into a completion result,
/// folding its typed failure into the validation reason.
pub fn settle(r: Result<String, ServerError>) -> (out: Result<String, ErrorReason>)
    ensures
        r is Ok ==> out is Ok && out->Ok_0@ == r->Ok_0@,
        r is Err ==> out is Err && out->Err_0 == ErrorReason::Validation,
{
    match r {
        Ok(t) => Ok(t),
        Err(_) => Err(ErrorReason::Validation),
    }
}

/// The fetch procedure for a key when the remote call is made in place:
/// an absent key settles at once to the placeholder without any call, a
/// present key is validated remotely.
pub fn resolve(key: Option<i32>) -> (r: Result<String, ServerError>)
    ensures
        key is None ==> r is Ok && r->Ok_0@ == not_yet_text(),
        key is Some ==> (r is Ok <==> id_is_valid(key->0)),
        key is Some && r is Ok ==> r->Ok_0@ == server_success_text(),
{
    match key {
        Some(id) => server(id),
        None => Ok(String::from_str("Not yet")),
    }
}

/// Owns the (key, outcome) pair shown to the rendering layer and applies
/// key changes and completions in epoch order.
pub struct Fetcher {
    epoch: u64,
    key: Option<i32>,
    outcome: FetchOutcome,
}

impl View for Fetcher {
    type V = FetcherView;

    closed spec fn view(&self) -> FetcherView {
        FetcherView { epoch: self.epoch, key: self.key, outcome: self.outcome@ }
    }
}

impl Fetcher {
    /// A fetcher before any key change: no key, and the placeholder
    /// outcome an absent key settles to.
    pub fn new() -> (r: Fetcher)
        ensures
            r@.epoch == 0,
            r@.key is None,
            r@.outcome == OutcomeView::Success(not_yet_text()),
    {
        Fetcher { epoch: 0, key: None, outcome: FetchOutcome::Success(String::from_str("Not yet")) }
    }

    /// Applies a key change: advances the epoch, exposes the immediate
    /// outcome for the new key, and returns the call the environment
    /// must make for it, if any.
    pub fn on_key_change(&mut self, key: Option<i32>) -> (action: FetchAction)
        requires
            old(self)@.epoch < u64::MAX,
        ensures
            (final(self)@, action) == key_change_step(old(self)@, key),
    {
        self.epoch = self.epoch + 1;
        self.key = key;
        match key {
            None => {
                self.outcome = FetchOutcome::Success(String::from_str("Not yet"));
                FetchAction::NoCall
            },
            Some(id) => {
                self.outcome = FetchOutcome::Pending;
                FetchAction::Call { id, epoch: self.epoch }
            },
        }
    }

    /// Applies a completed call: a result tagged with the current epoch
    /// settles the outcome, a result tagged with any other epoch is
    /// discarded and the state is left untouched.
    pub fn on_completion(&mut self, epoch: u64, result: Result<String, ErrorReason>)
        ensures
            final(self)@ == completion_step(old(self)@, epoch, result_view(result)),
    {
        if epoch == self.epoch {
            match result {
                Ok(t) => {
                    self.outcome = FetchOutcome::Success(t);
                },
                Err(r) => {
                    self.outcome = FetchOutcome::Error(r);
                },
            }
        }
    }

    /// The epoch of the newest key change.
    pub fn epoch(&self) -> (r: u64)
        ensures
            r == self@.epoch,
    {
        self.epoch
    }

    /// The current key.
    pub fn key(&self) -> (r: Option<i32>)
        ensures
            r == self@.key,
    {
        self.key
    }

    /// The outcome currently exposed for the current key.
    pub fn outcome(&self) -> (r: &FetchOutcome)
        ensures
            r@ == self@.outcome,
    {
        &self.outcome
    }
}

/// An absent key settles at once to the placeholder outcome and issues
/// no remote call.
pub proof fn lemma_absent_key_no_call(s: FetcherView)
    ensures
        key_change_step(s, None).1 == FetchAction::NoCall,
        key_change_step(s, None).0.outcome == OutcomeView::Success(not_yet_text()),
{
}

/// A present key goes to `Pending`, and once the call requested for it
/// completes under its own epoch, the outcome is the success text
/// exactly for a valid id and the validation error for any other.
pub proof fn lemma_fetch_settles(s: FetcherView, id: i32)
    requires
        s.epoch < u64::MAX,
    ensures
        ({
            let (s1, a) = key_change_step(s, Some(id));
            let s2 = completion_step(s1, s1.epoch, remote_result(id));
            &&& a == (FetchAction::Call { id, epoch: s1.epoch })
            &&& s1.outcome == OutcomeView::Pending
            &&& id_is_valid(id) ==> s2.outcome == OutcomeView::Success(server_success_text())
            &&& !id_is_valid(id) ==> s2.outcome == OutcomeView::Error(ErrorReason::Validation)
        }),
{
}

/// A completion moves neither the key nor the epoch: the outcome shown
/// always belongs to the most recent key change.
pub proof fn lemma_completion_keeps_key(
    s: FetcherView,
    epoch: u64,
    result: Result<Seq<char>, ErrorReason>,
)
    ensures
        completion_step(s, epoch, result).key == s.key,
        completion_step(s, epoch, result).epoch == s.epoch,
{
}

/// Last key wins: a completion tagged with the epoch of a superseded key
/// leaves the state reached for the newer key untouched, whatever the
/// late result was.
pub proof fn lemma_stale_result_suppressed(
    s: FetcherView,
    k1: Option<i32>,
    k2: Option<i32>,
    result: Result<Seq<char>, ErrorReason>,
)
    requires
        s.epoch + 1 < u64::MAX,
    ensures
        ({
            let (s1, _) = key_change_step(s, k1);
            let (s2, _) = key_change_step(s1, k2);
            completion_step(s2, s1.epoch, result) == s2
        }),
{
}

} // verus!
