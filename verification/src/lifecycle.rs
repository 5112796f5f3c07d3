//! The lifecycle of an agent instance: its states, the operator commands, and
//! the one table that says which command is valid in which state.
use vstd::prelude::*;

verus! {

/// The persisted state of an agent instance.
#[derive(Clone, Copy, Debug, PartialEq, Eq, Structural)]
pub enum LifecycleState {
    /// Known to the registry, never started.
    Registered,
    /// A launch is under way.
    Starting,
    /// The process is up.
    Running,
    /// The process is suspended.
    Paused,
    /// A stop is under way.
    Stopping,
    /// Stopped on request.
    Stopped,
    /// A launch failed or the process died unexpectedly.
    Failed,
}

impl LifecycleState {
    /// The stable lower-case label.
    pub open spec fn label(self) -> Seq<char> {
        match self {
            LifecycleState::Registered => "registered"@,
            LifecycleState::Starting => "starting"@,
            LifecycleState::Running => "running"@,
            LifecycleState::Paused => "paused"@,
            LifecycleState::Stopping => "stopping"@,
            LifecycleState::Stopped => "stopped"@,
            LifecycleState::Failed => "failed"@,
        }
    }

    /// The stable lower-case label.
    pub fn as_str(&self) -> (r: &'static str)
        ensures
            r@ == self.label(),
    {
        match self {
            LifecycleState::Registered => "registered",
            LifecycleState::Starting => "starting",
            LifecycleState::Running => "running",
            LifecycleState::Paused => "paused",
            LifecycleState::Stopping => "stopping",
            LifecycleState::Stopped => "stopped",
            LifecycleState::Failed => "failed",
        }
    }

    /// Whether an instance in this state may be removed without force: every
    /// state but `running`.
    pub fn is_removable_without_force(&self) -> (r: bool)
        ensures
            r == (*self != LifecycleState::Running),
    {
        *self != LifecycleState::Running
    }

    /// Whether a process may stand behind this state (`running` or `paused`).
    pub open spec fn live(self) -> bool {
        self == LifecycleState::Running || self == LifecycleState::Paused
    }

    /// Whether a process may stand behind this state (`running` or `paused`).
    pub fn is_live(&self) -> (r: bool)
        ensures
            r == self.live(),
    {
        *self == LifecycleState::Running || *self == LifecycleState::Paused
    }
}

/// An operator command on an agent instance.
#[derive(Clone, Copy, Debug, PartialEq, Eq, Structural)]
pub enum LifecycleCommand {
    /// Launch the agent.
    Start,
    /// Stop the agent.
    Stop,
    /// Suspend the agent.
    Pause,
    /// Let a suspended agent go on.
    Resume,
}

impl LifecycleCommand {
    /// The stable lower-case label.
    pub open spec fn label(self) -> Seq<char> {
        match self {
            LifecycleCommand::Start => "start"@,
            LifecycleCommand::Stop => "stop"@,
            LifecycleCommand::Pause => "pause"@,
            LifecycleCommand::Resume => "resume"@,
        }
    }

    /// The stable lower-case label.
    pub fn as_str(&self) -> (r: &'static str)
        ensures
            r@ == self.label(),
    {
        match self {
            LifecycleCommand::Start => "start",
            LifecycleCommand::Stop => "stop",
            LifecycleCommand::Pause => "pause",
            LifecycleCommand::Resume => "resume",
        }
    }
}

/// Why a command is refused.
#[derive(Clone, Copy, Debug, PartialEq, Eq, Structural)]
pub enum LifecycleError {
    /// The command is not valid in the current state.
    InvalidTransition {
        /// The state the instance is in.
        from: LifecycleState,
        /// The command that was refused.
        command: LifecycleCommand,
    },
}

impl LifecycleError {
    /// The text of the error: it names the command and the state.
    pub open spec fn text(self) -> Seq<char> {
        match self {
            LifecycleError::InvalidTransition { from, command } => "cannot "@ + command.label()
                + " an Agent Instance while it is '"@ + from.label() + "'"@,
        }
    }

    /// The text of the error: it names the command and the state.
    pub fn message(&self) -> (r: String)
        ensures
            r@ == self.text(),
    {
        match self {
            LifecycleError::InvalidTransition { from, command } => {
                let mut out = "cannot ".to_owned();
                out.append(command.as_str());
                out.append(" an Agent Instance while it is '");
                out.append(from.as_str());
                out.append("'");
                out
            },
        }
    }
}

/// The rows of the transition table: the state a valid command leads to.
pub open spec fn table(from: LifecycleState, command: LifecycleCommand) -> Option<LifecycleState> {
    match (from, command) {
        (LifecycleState::Registered, LifecycleCommand::Start) => Some(LifecycleState::Starting),
        (LifecycleState::Stopped, LifecycleCommand::Start) => Some(LifecycleState::Starting),
        (LifecycleState::Running, LifecycleCommand::Stop) => Some(LifecycleState::Stopping),
        (LifecycleState::Paused, LifecycleCommand::Stop) => Some(LifecycleState::Stopping),
        (LifecycleState::Running, LifecycleCommand::Pause) => Some(LifecycleState::Paused),
        (LifecycleState::Paused, LifecycleCommand::Resume) => Some(LifecycleState::Running),
        _ => None,
    }
}

/// What [`next_state`] answers: the row of the table, or one uniform error.
pub open spec fn next_state_spec(
    from: LifecycleState,
    command: LifecycleCommand,
) -> Result<LifecycleState, LifecycleError> {
    match table(from, command) {
        Some(to) => Ok(to),
        None => Err(LifecycleError::InvalidTransition { from, command }),
    }
}

/// The state that `command` leads to from `from`, or the uniform error that
/// names both where the table has no such row.
pub fn next_state(from: LifecycleState, command: LifecycleCommand) -> (r: Result<
    LifecycleState,
    LifecycleError,
>)
    ensures
        r == next_state_spec(from, command),
{
    match (from, command) {
        (LifecycleState::Registered, LifecycleCommand::Start) => Ok(LifecycleState::Starting),
        (LifecycleState::Stopped, LifecycleCommand::Start) => Ok(LifecycleState::Starting),
        (LifecycleState::Running, LifecycleCommand::Stop) => Ok(LifecycleState::Stopping),
        (LifecycleState::Paused, LifecycleCommand::Stop) => Ok(LifecycleState::Stopping),
        (LifecycleState::Running, LifecycleCommand::Pause) => Ok(LifecycleState::Paused),
        (LifecycleState::Paused, LifecycleCommand::Resume) => Ok(LifecycleState::Running),
        (from, command) => Err(LifecycleError::InvalidTransition { from, command }),
    }
}

/// Every refusal is of one class and names exactly the pair that was refused.
pub proof fn law_refusals_are_uniform(from: LifecycleState, command: LifecycleCommand)
    ensures
        next_state_spec(from, command) is Err ==> next_state_spec(from, command)
            == Err::<LifecycleState, LifecycleError>(
            LifecycleError::InvalidTransition { from, command },
        ),
{
}

/// `resume` undoes `pause`: a paused instance goes back to the state it was
/// paused from.
pub proof fn law_resume_undoes_pause(from: LifecycleState)
    requires
        next_state_spec(from, LifecycleCommand::Pause) is Ok,
    ensures
        next_state_spec(
            next_state_spec(from, LifecycleCommand::Pause)->Ok_0,
            LifecycleCommand::Resume,
        ) == Ok::<LifecycleState, LifecycleError>(from),
{
}

/// A command that is valid in a state is not valid in the state it leads to:
/// no command can be applied twice in a row.
pub proof fn law_no_command_repeats(from: LifecycleState, command: LifecycleCommand)
    requires
        next_state_spec(from, command) is Ok,
    ensures
        next_state_spec(next_state_spec(from, command)->Ok_0, command) is Err,
{
}

/// What each command does: only a registered or a stopped instance is started, only a running or
/// a paused one stopped, only a running one paused and only a paused one resumed.
pub proof fn law_what_each_command_does(from: LifecycleState)
    ensures
        next_state_spec(from, LifecycleCommand::Start) is Ok <==> from
            == LifecycleState::Registered || from == LifecycleState::Stopped,
        next_state_spec(from, LifecycleCommand::Stop) is Ok <==> from == LifecycleState::Running
            || from == LifecycleState::Paused,
        next_state_spec(from, LifecycleCommand::Pause) is Ok <==> from == LifecycleState::Running,
        next_state_spec(from, LifecycleCommand::Resume) is Ok <==> from == LifecycleState::Paused,
        next_state_spec(from, LifecycleCommand::Start) matches Ok(to) ==> to
            == LifecycleState::Starting,
        next_state_spec(from, LifecycleCommand::Stop) matches Ok(to) ==> to
            == LifecycleState::Stopping,
        next_state_spec(from, LifecycleCommand::Pause) matches Ok(to) ==> to
            == LifecycleState::Paused,
        next_state_spec(from, LifecycleCommand::Resume) matches Ok(to) ==> to
            == LifecycleState::Running,
{
}

} // verus!
