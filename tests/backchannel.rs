use fred_client::backchannel::{unblock_self, BackchannelState, Phase, Route};
use fred_client::command::CommandKind;
use fred_client::types::ClientUnblockFlag;
use fred_client::value::{Error, ErrorKind, Value};
use std::sync::Arc;

#[test]
fn unblock_self_from_blocked_sets_latch() {
    let mut state = BackchannelState::new();
    assert_eq!(state.phase(), Phase::Running);
    state.set_blocked();
    assert_eq!(state.phase(), Phase::Blocked);
    let (command, route) = state.request_unblock(Value::Integer(9), None);
    assert_eq!(command.kind, CommandKind::ClientUnblock);
    assert!(matches!(&command.args[1], Value::String(s) if s == "ERROR"));
    assert_eq!(route, Route::EstablishSecondary);
    assert_eq!(state.phase(), Phase::UnblockRequested);
    let r = unblock_self(&mut state, Ok(Value::Integer(1)));
    assert!(matches!(r, Ok(Value::Integer(1))));
    assert_eq!(state.phase(), Phase::Unblocked);
    assert!(state.unblocked_latch());
    // a second call before the next blocking command changes nothing
    let r = unblock_self(&mut state, Ok(Value::Integer(0)));
    assert!(matches!(r, Ok(Value::Integer(0))));
    assert_eq!(state.phase(), Phase::Unblocked);
    assert!(state.unblocked_latch());
    state.set_blocked();
    assert!(!state.unblocked_latch());
}

#[test]
fn unblock_self_failure_still_sets_latch() {
    let mut state = BackchannelState::new();
    state.set_blocked();
    let failed = Err(Error::new(ErrorKind::Connectivity, "no transport"));
    let r = unblock_self(&mut state, failed);
    assert_eq!(r.unwrap_err().kind, ErrorKind::Connectivity);
    assert!(state.unblocked_latch());
    assert!(!state.is_blocked());
}

#[test]
fn backchannel_never_queued_behind_blocked_primary() {
    let mut state = BackchannelState::new();
    assert_eq!(state.route(CommandKind::ClientList, false), Route::Primary);
    assert_eq!(state.route(CommandKind::ClientKill, false), Route::EstablishSecondary);
    state.set_blocked();
    assert_eq!(state.route(CommandKind::ClientList, false), Route::EstablishSecondary);
    state.set_transport();
    assert_eq!(state.route(CommandKind::ClientList, false), Route::Secondary);
    let (_, route) = state.request_unblock(Value::Integer(3), Some(ClientUnblockFlag::Timeout));
    assert_eq!(route, Route::Secondary);
    state.clear_transport();
    state.set_idle();
    assert_eq!(state.phase(), Phase::Running);
    assert_eq!(state.route(CommandKind::ClientUnblock, false), Route::EstablishSecondary);
}

#[test]
fn concurrent_unblock_self_callers_agree() {
    let runtime = tokio::runtime::Builder::new_current_thread().build().unwrap();
    runtime.block_on(async {
        let shared = Arc::new(tokio::sync::Mutex::new(BackchannelState::new()));
        shared.lock().await.set_blocked();
        let mut handles = Vec::new();
        for i in 0..16i64 {
            let shared = Arc::clone(&shared);
            handles.push(tokio::spawn(async move {
                let _ = shared.lock().await.request_unblock(Value::Integer(i), None);
                tokio::task::yield_now().await;
                let r = unblock_self(&mut *shared.lock().await, Ok(Value::Integer(i)));
                assert!(matches!(r, Ok(Value::Integer(n)) if n == i));
            }));
        }
        for h in handles {
            h.await.unwrap();
        }
        let state = shared.lock().await;
        assert_eq!(state.phase(), Phase::Unblocked);
        assert!(state.unblocked_latch());
        assert!(!state.is_blocked());
        assert!(!state.has_transport());
    });
}
