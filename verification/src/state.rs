//! What the system is doing: running, paused, draining, or busy with one operation that must
//! not be disturbed.
use vstd::prelude::*;

use crate::error::{unit_view, watcher_error, Error, ErrorKind, ErrorView};
use crate::text::{
    debug_text, format_debug, law_occurrence_has_something_around_it, occurs_in,
};

verus! {

/// What the system is doing.
#[derive(Debug, PartialEq, Eq)]
pub enum SystemState {
    Running,
    Paused,
    Draining,
    ExclusiveOp(String),
}

/// What the system is doing, with the characters of the operation's name.
pub enum StateView {
    Running,
    Paused,
    Draining,
    ExclusiveOp(Seq<char>),
}

impl View for SystemState {
    type V = StateView;

    open spec fn view(&self) -> StateView {
        match self {
            SystemState::Running => StateView::Running,
            SystemState::Paused => StateView::Paused,
            SystemState::Draining => StateView::Draining,
            SystemState::ExclusiveOp(name) => StateView::ExclusiveOp(name@),
        }
    }
}

impl Clone for SystemState {
    fn clone(&self) -> (copy: SystemState)
        ensures
            copy == *self,
    {
        match self {
            SystemState::Running => SystemState::Running,
            SystemState::Paused => SystemState::Paused,
            SystemState::Draining => SystemState::Draining,
            SystemState::ExclusiveOp(name) => SystemState::ExclusiveOp(name.clone()),
        }
    }
}

/// How a state is written in messages.
pub open spec fn state_text(state: StateView) -> Seq<char> {
    match state {
        StateView::Running => "Running"@,
        StateView::Paused => "Paused"@,
        StateView::Draining => "Draining"@,
        StateView::ExclusiveOp(name) => "ExclusiveOp("@ + debug_text(name) + ")"@,
    }
}

impl SystemState {
    /// How the state is written in messages.
    pub fn describe(&self) -> (text: String)
        ensures
            text@ == state_text(self@),
    {
        match self {
            SystemState::Running => "Running".to_owned(),
            SystemState::Paused => "Paused".to_owned(),
            SystemState::Draining => "Draining".to_owned(),
            SystemState::ExclusiveOp(name) => {
                let mut text: String = "ExclusiveOp(".to_owned();
                text.append(format_debug(name.as_str()).as_str());
                text.append(")");
                text
            },
        }
    }
}

/// A request to change the state.
pub enum StateOp {
    Pause,
    Resume,
    Drain,
    Enter(Seq<char>),
    Exit,
}

/// The state, and whether the lock around it was left broken by a holder that panicked.
pub struct SharedView {
    pub state: StateView,
    pub poisoned: bool,
}

/// The state that a request leads to, where it is granted.
pub open spec fn target(op: StateOp, state: StateView) -> Option<StateView> {
    match (op, state) {
        (StateOp::Pause, StateView::Running) => Some(StateView::Paused),
        (StateOp::Resume, StateView::Paused) => Some(StateView::Running),
        (StateOp::Resume, StateView::Draining) => Some(StateView::Running),
        (StateOp::Drain, StateView::Running) => Some(StateView::Draining),
        (StateOp::Drain, StateView::Paused) => Some(StateView::Draining),
        (StateOp::Enter(name), StateView::Running) => Some(StateView::ExclusiveOp(name)),
        (StateOp::Exit, StateView::ExclusiveOp(_)) => Some(StateView::Running),
        _ => None,
    }
}

/// What is said when a request does not fit the state.
pub open spec fn refusal(op: StateOp, state: StateView) -> Seq<char> {
    match op {
        StateOp::Pause => "invalid transition to Paused from "@ + state_text(state),
        StateOp::Resume => "invalid transition to Running from "@ + state_text(state),
        StateOp::Drain => "invalid transition to Draining from "@ + state_text(state),
        StateOp::Enter(_) => "invalid transition to ExclusiveOp from "@ + state_text(state),
        StateOp::Exit => "invalid transition from "@ + state_text(state)
            + " via exit_exclusive"@,
    }
}

/// What is said when the lock is broken.
pub open spec fn lock_refusal(op: StateOp) -> Seq<char> {
    match op {
        StateOp::Pause => "failed to lock system state for pause"@,
        StateOp::Resume => "failed to lock system state for resume"@,
        StateOp::Drain => "failed to lock system state for draining"@,
        StateOp::Enter(_) => "failed to lock system state for exclusive operation"@,
        StateOp::Exit => "failed to lock system state for exclusive operation exit"@,
    }
}

/// The answer to a request.
pub open spec fn answer(op: StateOp, before: SharedView) -> Result<(), ErrorView> {
    if before.poisoned {
        Err(watcher_error(lock_refusal(op)))
    } else if target(op, before.state) is None {
        Err(watcher_error(refusal(op, before.state)))
    } else {
        Ok(())
    }
}

/// The state after a request: the one it leads to, or the old one where it is refused.
pub open spec fn applied(op: StateOp, before: SharedView) -> SharedView {
    match target(op, before.state) {
        Some(state) => if before.poisoned {
            before
        } else {
            SharedView { state, poisoned: false }
        },
        None => before,
    }
}

/// The state of the system as its threads share it.
#[derive(Debug)]
pub struct SharedSystemState {
    state: SystemState,
    poisoned: bool,
}

impl View for SharedSystemState {
    type V = SharedView;

    closed spec fn view(&self) -> SharedView {
        SharedView { state: self.state@, poisoned: self.poisoned }
    }
}

impl SharedSystemState {
    /// A running system.
    pub fn new_running() -> (shared: Self)
        ensures
            shared@ == (SharedView { state: StateView::Running, poisoned: false }),
    {
        SharedSystemState { state: SystemState::Running, poisoned: false }
    }

    /// Records that a holder of the lock around the state panicked.
    pub fn poison(&mut self)
        ensures
            final(self)@ == (SharedView { state: old(self)@.state, poisoned: true }),
    {
        self.poisoned = true;
    }

    /// What the system is doing.
    pub fn current(&self) -> (result: Result<SystemState, Error>)
        ensures
            match result {
                Ok(state) => !self@.poisoned && state@ == self@.state,
                Err(error) => self@.poisoned && error@ == watcher_error(
                    "failed to read system state lock"@,
                ),
            },
    {
        if self.poisoned {
            return Err(Error::Watcher("failed to read system state lock".to_owned()));
        }
        Ok(self.state.clone())
    }

    /// Whether events may be processed: only while the system runs.
    pub fn can_process_events(&self) -> (can: bool)
        ensures
            can == (!self@.poisoned && self@.state == StateView::Running),
    {
        match self.current() {
            Ok(SystemState::Running) => true,
            _ => false,
        }
    }

    /// Pauses a running system.
    pub fn pause(&mut self) -> (result: Result<(), Error>)
        ensures
            final(self)@ == applied(StateOp::Pause, old(self)@),
            unit_view(result) == answer(StateOp::Pause, old(self)@),
    {
        if self.poisoned {
            return Err(Error::Watcher("failed to lock system state for pause".to_owned()));
        }
        match &self.state {
            SystemState::Running => {
                self.state = SystemState::Paused;
                Ok(())
            },
            state => {
                let mut message: String = "invalid transition to Paused from ".to_owned();
                message.append(state.describe().as_str());
                Err(Error::Watcher(message))
            },
        }
    }

    /// Lets a paused or draining system run again.
    pub fn resume(&mut self) -> (result: Result<(), Error>)
        ensures
            final(self)@ == applied(StateOp::Resume, old(self)@),
            unit_view(result) == answer(StateOp::Resume, old(self)@),
    {
        if self.poisoned {
            return Err(Error::Watcher("failed to lock system state for resume".to_owned()));
        }
        match &self.state {
            SystemState::Paused | SystemState::Draining => {
                self.state = SystemState::Running;
                Ok(())
            },
            state => {
                let mut message: String = "invalid transition to Running from ".to_owned();
                message.append(state.describe().as_str());
                Err(Error::Watcher(message))
            },
        }
    }

    /// Lets a running or paused system drain.
    pub fn start_draining(&mut self) -> (result: Result<(), Error>)
        ensures
            final(self)@ == applied(StateOp::Drain, old(self)@),
            unit_view(result) == answer(StateOp::Drain, old(self)@),
    {
        if self.poisoned {
            return Err(Error::Watcher("failed to lock system state for draining".to_owned()));
        }
        match &self.state {
            SystemState::Running | SystemState::Paused => {
                self.state = SystemState::Draining;
                Ok(())
            },
            state => {
                let mut message: String = "invalid transition to Draining from ".to_owned();
                message.append(state.describe().as_str());
                Err(Error::Watcher(message))
            },
        }
    }

    /// Gives a running system over to one operation.
    pub fn enter_exclusive(&mut self, op_name: &str) -> (result: Result<(), Error>)
        ensures
            final(self)@ == applied(StateOp::Enter(op_name@), old(self)@),
            unit_view(result) == answer(StateOp::Enter(op_name@), old(self)@),
    {
        if self.poisoned {
            return Err(
                Error::Watcher("failed to lock system state for exclusive operation".to_owned()),
            );
        }
        match &self.state {
            SystemState::Running => {
                self.state = SystemState::ExclusiveOp(op_name.to_owned());
                Ok(())
            },
            state => {
                let mut message: String = "invalid transition to ExclusiveOp from ".to_owned();
                message.append(state.describe().as_str());
                Err(Error::Watcher(message))
            },
        }
    }

    /// Ends the operation that has the system for itself.
    pub fn exit_exclusive(&mut self) -> (result: Result<(), Error>)
        ensures
            final(self)@ == applied(StateOp::Exit, old(self)@),
            unit_view(result) == answer(StateOp::Exit, old(self)@),
    {
        if self.poisoned {
            return Err(
                Error::Watcher(
                    "failed to lock system state for exclusive operation exit".to_owned(),
                ),
            );
        }
        match &self.state {
            SystemState::ExclusiveOp(_) => {
                self.state = SystemState::Running;
                Ok(())
            },
            state => {
                let mut message: String = "invalid transition from ".to_owned();
                message.append(state.describe().as_str());
                message.append(" via exit_exclusive");
                Err(Error::Watcher(message))
            },
        }
    }
}

impl Default for SharedSystemState {
    fn default() -> (shared: Self)
        ensures
            shared@ == (SharedView { state: StateView::Running, poisoned: false }),
    {
        SharedSystemState::new_running()
    }
}

/// A refused request changes nothing.
pub proof fn law_refusal_keeps_state(op: StateOp, before: SharedView)
    requires
        answer(op, before) is Err,
    ensures
        applied(op, before) == before,
{
}

/// What was entered or paused is undone by the request that leaves it: the system is back where
/// it was.
pub proof fn law_leaving_undoes_entering(before: SharedView, name: Seq<char>)
    ensures
        answer(StateOp::Enter(name), before) is Ok ==> {
            let inside = applied(StateOp::Enter(name), before);
            answer(StateOp::Exit, inside) is Ok && applied(StateOp::Exit, inside) == before
        },
        answer(StateOp::Pause, before) is Ok ==> {
            let inside = applied(StateOp::Pause, before);
            answer(StateOp::Resume, inside) is Ok && applied(StateOp::Resume, inside) == before
        },
{
}

/// While one operation has the system for itself, every request but its end is refused.
pub proof fn law_exclusive_refuses_all_but_exit(op: StateOp, before: SharedView)
    requires
        before.state is ExclusiveOp,
        op != StateOp::Exit,
    ensures
        answer(op, before) is Err,
{
}

/// Which requests a working system grants: a pause and an exclusive operation while it runs, a
/// drain while it runs or is paused, to run again while it is paused or drains, and the end of an
/// exclusive operation within one.
pub proof fn law_each_state_grants_its_requests(name: Seq<char>, other: Seq<char>)
    ensures
        ({
            let running = SharedView { state: StateView::Running, poisoned: false };
            let paused = SharedView { state: StateView::Paused, poisoned: false };
            let draining = SharedView { state: StateView::Draining, poisoned: false };
            let busy = SharedView { state: StateView::ExclusiveOp(other), poisoned: false };
            &&& answer(StateOp::Pause, running) is Ok && applied(StateOp::Pause, running) == paused
            &&& answer(StateOp::Pause, paused) is Err && answer(StateOp::Pause, draining) is Err
            &&& answer(StateOp::Resume, running) is Err
            &&& answer(StateOp::Resume, paused) is Ok && applied(StateOp::Resume, paused) == running
            &&& answer(StateOp::Resume, draining) is Ok && applied(StateOp::Resume, draining)
                == running
            &&& answer(StateOp::Drain, running) is Ok && applied(StateOp::Drain, running)
                == draining
            &&& answer(StateOp::Drain, paused) is Ok && applied(StateOp::Drain, paused) == draining
            &&& answer(StateOp::Drain, draining) is Err
            &&& answer(StateOp::Enter(name), running) is Ok && applied(
                StateOp::Enter(name),
                running,
            ) == (SharedView { state: StateView::ExclusiveOp(name), poisoned: false })
            &&& answer(StateOp::Enter(name), paused) is Err && answer(
                StateOp::Enter(name),
                draining,
            ) is Err && answer(StateOp::Enter(name), busy) is Err
            &&& answer(StateOp::Exit, busy) is Ok && applied(StateOp::Exit, busy) == running
            &&& answer(StateOp::Exit, running) is Err && answer(StateOp::Exit, paused) is Err
                && answer(StateOp::Exit, draining) is Err
        }),
{
}

/// Behind a broken lock every request is refused and nothing changes.
pub proof fn law_broken_lock_refuses_everything(op: StateOp, before: SharedView)
    requires
        before.poisoned,
    ensures
        answer(op, before) is Err,
        applied(op, before) == before,
{
}

/// A refusal is an error of the watcher that names the state that does not fit.
pub proof fn law_refusal_names_the_state(op: StateOp, before: SharedView, name: Seq<char>)
    requires
        answer(op, before) is Err,
    ensures
        answer(op, before) matches Err(error) && error.kind == ErrorKind::Watcher && (
        !before.poisoned ==> occurs_in(state_text(before.state), error.message)),
        !before.poisoned ==> answer(op, before)->Err_0.message == (match op {
            StateOp::Pause => "invalid transition to Paused from "@ + state_text(before.state),
            StateOp::Resume => "invalid transition to Running from "@ + state_text(before.state),
            StateOp::Drain => "invalid transition to Draining from "@ + state_text(before.state),
            StateOp::Enter(_) => "invalid transition to ExclusiveOp from "@ + state_text(
                before.state,
            ),
            StateOp::Exit => "invalid transition from "@ + state_text(before.state)
                + " via exit_exclusive"@,
        }),
        state_text(StateView::Running) == "Running"@,
        state_text(StateView::Paused) == "Paused"@,
        state_text(StateView::Draining) == "Draining"@,
        "ExclusiveOp("@.is_prefix_of(state_text(StateView::ExclusiveOp(name))),
        occurs_in(debug_text(name), state_text(StateView::ExclusiveOp(name))),
{
    let text = state_text(before.state);
    let none = Seq::<char>::empty();
    assert forall|start: Seq<char>| occurs_in(text, #[trigger] (start + text)) by {
        law_occurrence_has_something_around_it(start, text, none, none);
        assert(start + text + none =~= start + text);
    }
    law_occurrence_has_something_around_it(
        "invalid transition from "@,
        text,
        " via exit_exclusive"@,
        none,
    );
    let busy = state_text(StateView::ExclusiveOp(name));
    law_occurrence_has_something_around_it("ExclusiveOp("@, debug_text(name), ")"@, none);
    assert(busy.subrange(0, "ExclusiveOp("@.len() as int) =~= "ExclusiveOp("@);
}

} // verus!
