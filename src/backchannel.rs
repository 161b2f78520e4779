use vstd::prelude::*;

use crate::command::{client_unblock, unblock_args, Command, CommandKind};
use crate::types::ClientUnblockFlag;
use crate::value::{Error, Value};

verus! {

/// The model of the backchannel state.
pub ghost struct BackchannelView {
    /// The primary connection is inside a blocking command.
    pub blocked: bool,
    /// An unblock command has been issued for the current blocking command.
    pub unblock_requested: bool,
    /// An unblock has been serviced since the last blocking command began.
    pub unblocked_latch: bool,
    /// A secondary transport is established.
    pub has_transport: bool,
}

/// Where the unblock cycle of the primary connection stands.
#[derive(Debug, Clone, Copy, PartialEq, Eq, Structural)]
pub enum Phase {
    Running,
    Blocked,
    UnblockRequested,
    Unblocked,
}

/// Where a backchannel command is sent.
#[derive(Debug, Clone, Copy, PartialEq, Eq, Structural)]
pub enum Route {
    /// On the established secondary transport.
    Secondary,
    /// On a secondary transport that must first be established.
    EstablishSecondary,
    /// In the primary command queue.
    Primary,
}

pub open spec fn spec_phase(v: BackchannelView) -> Phase {
    if v.blocked && v.unblock_requested {
        Phase::UnblockRequested
    } else if v.blocked {
        Phase::Blocked
    } else if v.unblocked_latch {
        Phase::Unblocked
    } else {
        Phase::Running
    }
}

/// Where a command of `kind` goes: the secondary transport when there is
/// one; the primary queue only when not forced elsewhere, when the command is
/// safe to queue and when the primary connection is not blocked; otherwise a
/// secondary transport is established for it.
pub open spec fn spec_route(v: BackchannelView, kind: CommandKind, force_secondary: bool) -> Route {
    if v.has_transport {
        Route::Secondary
    } else if !force_secondary && kind.spec_safe_to_queue() && !v.blocked {
        Route::Primary
    } else {
        Route::EstablishSecondary
    }
}

/// The state after a blocking command begins on the primary connection.
pub open spec fn spec_blocked(v: BackchannelView) -> BackchannelView {
    BackchannelView { blocked: true, unblock_requested: false, unblocked_latch: false, ..v }
}

/// The state after the blocking command ends by itself.
pub open spec fn spec_idle(v: BackchannelView) -> BackchannelView {
    BackchannelView { blocked: false, unblock_requested: false, ..v }
}

/// The state after an unblock command is issued.
pub open spec fn spec_requested(v: BackchannelView) -> BackchannelView {
    if v.blocked {
        BackchannelView { unblock_requested: true, ..v }
    } else {
        v
    }
}

/// The state after an unblock command has been answered, whatever it said.
pub open spec fn spec_unblocked(v: BackchannelView) -> BackchannelView {
    BackchannelView { blocked: false, unblock_requested: false, unblocked_latch: true, ..v }
}

/// One step that a caller of unblock-self takes on the shared state.
pub ghost enum UnblockStep {
    Request,
    Finish,
}

/// The state after a run of unblock-self steps, in the order the lock let
/// them through.
pub open spec fn apply_steps(v: BackchannelView, steps: Seq<UnblockStep>) -> BackchannelView
    decreases steps.len(),
{
    if steps.len() == 0 {
        v
    } else {
        let prev = apply_steps(v, steps.drop_last());
        match steps.last() {
            UnblockStep::Request => spec_requested(prev),
            UnblockStep::Finish => spec_unblocked(prev),
        }
    }
}

/// The backchannel's state for one client. Callers hold it behind an
/// exclusive lock and change it only through these methods.
pub struct BackchannelState {
    blocked: bool,
    unblock_requested: bool,
    unblocked_latch: bool,
    has_transport: bool,
}

impl View for BackchannelState {
    type V = BackchannelView;

    closed spec fn view(&self) -> BackchannelView {
        BackchannelView {
            blocked: self.blocked,
            unblock_requested: self.unblock_requested,
            unblocked_latch: self.unblocked_latch,
            has_transport: self.has_transport,
        }
    }
}

impl BackchannelState {
    /// The state of a new client: running, with no secondary transport.
    pub fn new() -> (r: BackchannelState)
        ensures
            r@ == (BackchannelView {
                blocked: false,
                unblock_requested: false,
                unblocked_latch: false,
                has_transport: false,
            }),
            spec_phase(r@) == Phase::Running,
    {
        BackchannelState {
            blocked: false,
            unblock_requested: false,
            unblocked_latch: false,
            has_transport: false,
        }
    }

    pub fn phase(&self) -> (r: Phase)
        ensures
            r == spec_phase(self@),
    {
        if self.blocked && self.unblock_requested {
            Phase::UnblockRequested
        } else if self.blocked {
            Phase::Blocked
        } else if self.unblocked_latch {
            Phase::Unblocked
        } else {
            Phase::Running
        }
    }

    pub fn is_blocked(&self) -> (r: bool)
        ensures
            r == self@.blocked,
    {
        self.blocked
    }

    pub fn unblocked_latch(&self) -> (r: bool)
        ensures
            r == self@.unblocked_latch,
    {
        self.unblocked_latch
    }

    pub fn has_transport(&self) -> (r: bool)
        ensures
            r == self@.has_transport,
    {
        self.has_transport
    }

    /// A blocking command has begun on the primary connection; the latch of
    /// the last cycle is cleared.
    pub fn set_blocked(&mut self)
        ensures
            final(self)@ == spec_blocked(old(self)@),
            spec_phase(final(self)@) == Phase::Blocked,
    {
        self.blocked = true;
        self.unblock_requested = false;
        self.unblocked_latch = false;
    }

    /// The blocking command on the primary connection has ended by itself.
    pub fn set_idle(&mut self)
        ensures
            final(self)@ == spec_idle(old(self)@),
    {
        self.blocked = false;
        self.unblock_requested = false;
    }

    /// A secondary transport has been established.
    pub fn set_transport(&mut self)
        ensures
            final(self)@ == (BackchannelView { has_transport: true, ..old(self)@ }),
    {
        self.has_transport = true;
    }

    /// The secondary transport has been lost or closed.
    pub fn clear_transport(&mut self)
        ensures
            final(self)@ == (BackchannelView { has_transport: false, ..old(self)@ }),
    {
        self.has_transport = false;
    }

    /// Where a backchannel command of `kind` is sent.
    pub fn route(&self, kind: CommandKind, force_secondary: bool) -> (r: Route)
        ensures
            r == spec_route(self@, kind, force_secondary),
    {
        if self.has_transport {
            Route::Secondary
        } else if !force_secondary && kind.safe_to_queue() && !self.blocked {
            Route::Primary
        } else {
            Route::EstablishSecondary
        }
    }

    /// Issues the interrupt of unblock-self: `CLIENT UNBLOCK` for the primary
    /// connection `connection_id`, in the given mode or else in error mode.
    /// The command is always built; the cycle moves on only when the primary
    /// connection is blocked. The command never goes to the primary queue.
    pub fn request_unblock(&mut self, connection_id: Value, flag: Option<ClientUnblockFlag>) -> (r: (
        Command,
        Route,
    ))
        ensures
            final(self)@ == spec_requested(old(self)@),
            r.0.wf(),
            r.0.kind == CommandKind::ClientUnblock,
            r.0.args_view() == unblock_args(
                connection_id@,
                Some(
                    match flag {
                        Some(f) => f,
                        None => ClientUnblockFlag::Error,
                    },
                ),
            ),
            r.1 == spec_route(old(self)@, CommandKind::ClientUnblock, true),
            r.1 != Route::Primary,
    {
        let mode = match flag {
            Some(f) => f,
            None => ClientUnblockFlag::Error,
        };
        let route = self.route(CommandKind::ClientUnblock, true);
        let command = client_unblock(connection_id, Some(mode));
        if self.blocked {
            self.unblock_requested = true;
        }
        (command, route)
    }

    /// Marks that an unblock has been serviced.
    pub fn set_unblocked(&mut self)
        ensures
            final(self)@ == spec_unblocked(old(self)@),
            spec_phase(final(self)@) == Phase::Unblocked,
    {
        self.blocked = false;
        self.unblock_requested = false;
        self.unblocked_latch = true;
    }
}

/// Completes unblock-self once the interrupt has been answered: the latch
/// is set whatever the answer was, and the answer is returned as it is, so
/// that a caller can tell "nothing was blocked" from "interrupted".
pub fn unblock_self(state: &mut BackchannelState, attempt: Result<Value, Error>) -> (r: Result<Value, Error>)
    ensures
        final(state)@ == spec_unblocked(old(state)@),
        final(state)@.unblocked_latch,
        r == attempt,
{
    state.set_unblocked();
    attempt
}

/// Unblocking a blocked connection ends the cycle in `Unblocked` with the
/// latch set, and unblocking again before the next blocking command changes
/// nothing.
pub proof fn lemma_unblock_idempotent(v: BackchannelView)
    requires
        v.blocked,
    ensures
        spec_phase(spec_unblocked(v)) == Phase::Unblocked,
        spec_unblocked(v).unblocked_latch,
        spec_unblocked(spec_unblocked(v)) == spec_unblocked(v),
        spec_unblocked(spec_requested(spec_unblocked(v))) == spec_unblocked(v),
{
}

/// However the steps of any number of unblock-self callers interleave, once
/// the last of them has finished the state is the one a single call leaves:
/// nothing is lost and no caller sees a torn state.
pub proof fn lemma_concurrent_unblocks(v: BackchannelView, steps: Seq<UnblockStep>)
    requires
        steps.len() > 0,
        steps.last() == UnblockStep::Finish,
    ensures
        apply_steps(v, steps) == spec_unblocked(v),
{
    lemma_steps_keep_transport(v, steps.drop_last());
}

/// Unblock-self steps never touch the secondary transport.
pub proof fn lemma_steps_keep_transport(v: BackchannelView, steps: Seq<UnblockStep>)
    ensures
        apply_steps(v, steps).has_transport == v.has_transport,
    decreases steps.len(),
{
    if steps.len() > 0 {
        lemma_steps_keep_transport(v, steps.drop_last());
    }
}

/// While the primary connection is blocked, or whenever the secondary path
/// is forced, a backchannel command is never queued behind the primary
/// stream.
pub proof fn lemma_backchannel_bypasses_blocked_primary(
    v: BackchannelView,
    kind: CommandKind,
    force_secondary: bool,
)
    requires
        v.blocked || force_secondary || !kind.spec_safe_to_queue(),
    ensures
        spec_route(v, kind, force_secondary) != Route::Primary,
{
}

} // verus!
