use query_fetch::resolve;
use query_fetch::server;
use query_fetch::settle;
use query_fetch::ErrorReason;
use query_fetch::FetchAction;
use query_fetch::FetchOutcome;
use query_fetch::Fetcher;
use query_fetch::QuerySignal;
use query_fetch::ServerError;

#[test]
fn server_accepts_small_ids() {
    assert_eq!(server(5), Ok(String::from("Success")));
    assert_eq!(server(0), Ok(String::from("Success")));
    assert_eq!(server(-100), Ok(String::from("Success")));
}

#[test]
fn server_rejects_large_ids() {
    assert_eq!(server(6), Err(ServerError));
    assert_eq!(server(i32::MAX), Err(ServerError));
    assert_eq!(ServerError.message(), "id is invalid");
}

#[test]
fn reason_messages() {
    assert_eq!(ErrorReason::Validation.message(), "id is invalid");
    assert_eq!(ErrorReason::Transport.message(), "transport failure");
}

#[test]
fn settle_maps_results() {
    assert_eq!(settle(Ok(String::from("Success"))), Ok(String::from("Success")));
    assert_eq!(settle(Err(ServerError)), Err(ErrorReason::Validation));
}

#[test]
fn fetch_valid_id_succeeds() {
    for id in [5, 1, 0, -3] {
        let mut f = Fetcher::new();
        let action = f.on_key_change(Some(id));
        assert_eq!(action, FetchAction::Call { id, epoch: f.epoch() });
        assert_eq!(*f.outcome(), FetchOutcome::Pending);
        let FetchAction::Call { id: called, epoch } = action else {
            unreachable!();
        };
        f.on_completion(epoch, settle(server(called)));
        assert_eq!(*f.outcome(), FetchOutcome::Success(String::from("Success")));
    }
}

#[test]
fn fetch_invalid_id_errors() {
    for id in [6, 100, i32::MAX] {
        let mut f = Fetcher::new();
        let action = f.on_key_change(Some(id));
        assert_eq!(*f.outcome(), FetchOutcome::Pending);
        let FetchAction::Call { id: called, epoch } = action else {
            unreachable!();
        };
        f.on_completion(epoch, settle(server(called)));
        assert_eq!(*f.outcome(), FetchOutcome::Error(ErrorReason::Validation));
        assert_eq!(ErrorReason::Validation.message(), "id is invalid");
    }
}

#[test]
fn absent_key_no_call() {
    let mut f = Fetcher::new();
    f.on_key_change(Some(1));
    let action = f.on_key_change(None);
    assert_eq!(action, FetchAction::NoCall);
    assert_eq!(*f.outcome(), FetchOutcome::Success(String::from("Not yet")));
    assert_eq!(resolve(None), Ok(String::from("Not yet")));
}

#[test]
fn stale_result_is_discarded() {
    let mut f = Fetcher::new();
    let first = f.on_key_change(Some(1));
    let FetchAction::Call { epoch: stale_epoch, .. } = first else {
        unreachable!();
    };
    let second = f.on_key_change(Some(10));
    let FetchAction::Call { id: current_id, epoch: current_epoch } = second else {
        unreachable!();
    };
    // The fetch for the superseded key completes late: nothing changes.
    f.on_completion(stale_epoch, settle(server(1)));
    assert_eq!(*f.outcome(), FetchOutcome::Pending);
    assert_eq!(f.key(), Some(10));
    // The fetch for the current key settles it.
    f.on_completion(current_epoch, settle(server(current_id)));
    assert_eq!(*f.outcome(), FetchOutcome::Error(ErrorReason::Validation));
}

#[test]
fn stale_result_after_settled_outcome() {
    let mut f = Fetcher::new();
    let FetchAction::Call { epoch: stale_epoch, .. } = f.on_key_change(Some(1)) else {
        unreachable!();
    };
    let FetchAction::Call { epoch: current_epoch, .. } = f.on_key_change(Some(10)) else {
        unreachable!();
    };
    f.on_completion(current_epoch, settle(server(10)));
    assert_eq!(*f.outcome(), FetchOutcome::Error(ErrorReason::Validation));
    f.on_completion(stale_epoch, settle(server(1)));
    assert_eq!(*f.outcome(), FetchOutcome::Error(ErrorReason::Validation));
}

#[test]
fn transport_failure_surfaces_as_error() {
    let mut f = Fetcher::new();
    let FetchAction::Call { epoch, .. } = f.on_key_change(Some(2)) else {
        unreachable!();
    };
    f.on_completion(epoch, Err(ErrorReason::Transport));
    assert_eq!(*f.outcome(), FetchOutcome::Error(ErrorReason::Transport));
    assert_eq!(ErrorReason::Transport.message(), "transport failure");
}

#[test]
fn end_to_end_scenario() {
    let mut q = QuerySignal::new();
    let mut f = Fetcher::new();

    q.write("3");
    let action = f.on_key_change(q.read());
    assert_eq!(*f.outcome(), FetchOutcome::Pending);
    let FetchAction::Call { id, epoch } = action else {
        unreachable!();
    };
    f.on_completion(epoch, settle(resolve(Some(id))));
    assert_eq!(*f.outcome(), FetchOutcome::Success(String::from("Success")));

    q.write("6");
    let action = f.on_key_change(q.read());
    assert_eq!(*f.outcome(), FetchOutcome::Pending);
    let FetchAction::Call { id, epoch } = action else {
        unreachable!();
    };
    f.on_completion(epoch, settle(resolve(Some(id))));
    assert_eq!(*f.outcome(), FetchOutcome::Error(ErrorReason::Validation));

    q.write("");
    let action = f.on_key_change(q.read());
    assert_eq!(action, FetchAction::NoCall);
    assert_eq!(*f.outcome(), FetchOutcome::Success(String::from("Not yet")));
}
