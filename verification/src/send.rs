//! Sending text to a running instance.
//!
//! A [`SendInput`] asks for one action at a time and takes the answer. Nothing is
//! written unless the instance is running, the adapter supports input here, and a
//! live input pipe is held.
use crate::capability::{Capability, OsId, SupportLevel};
use crate::error::{
    registry_to_engine, registry_to_engine_spec, BackendErrorOf, EngineError, EngineErrorModel,
    EngineErrorOf, RegistryErrorOf,
};
use crate::lifecycle::LifecycleState;
use crate::name::{name_fault, InstanceName};
use crate::supervisor::{Supervisor, SupervisorModel};
use vstd::prelude::*;
use vstd::string::*;

verus! {

/// What is said where no process is held.
pub const NO_HANDLE: &'static str = "no live process handle is held in this engine session";

/// What is said where the held process has no input pipe.
pub const NO_PIPE: &'static str =
    "no live stdin pipe is held for this instance in this engine session (an adopted instance has no recoverable pipe; durable cross-invocation interaction needs a persistent engine session, planned for Epic 7/v1.x)";

/// What a [`SendInput`] waits for.
#[derive(Clone, Copy, Debug, PartialEq, Eq, Structural)]
pub enum SendPhase {
    /// The stored row.
    Row,
    /// How well input is supported.
    Support,
    /// What is known of the input pipe.
    Pipe,
    /// The write.
    Written,
    /// Nothing; it has ended.
    Done,
}

/// Input on its way to an instance.
pub struct SendInput {
    name: InstanceName,
    bytes: Vec<u8>,
    os: OsId,
    write_timeout_secs: u64,
    phase: SendPhase,
}

/// The model of a [`SendInput`].
pub struct SendModel {
    /// The instance.
    pub name: Seq<char>,
    /// What is to be written.
    pub bytes: Seq<u8>,
    /// The operating system.
    pub os: OsId,
    /// How long the backend waits for a write, in seconds.
    pub write_timeout_secs: u64,
    /// What is waited for.
    pub phase: SendPhase,
}

impl View for SendInput {
    type V = SendModel;

    closed spec fn view(&self) -> SendModel {
        SendModel {
            name: self.name@,
            bytes: self.bytes@,
            os: self.os,
            write_timeout_secs: self.write_timeout_secs,
            phase: self.phase,
        }
    }
}

/// What is known of the input pipe of a process.
#[derive(Clone, Copy, Debug, PartialEq, Eq, Structural)]
pub struct PipeFacts {
    /// Whether an earlier write to it timed out.
    pub timed_out: bool,
    /// Whether there is one.
    pub has_stdin: bool,
}

/// The answer to an action of a [`SendInput`].
pub enum SendEventOf<S> {
    /// The state in the stored row.
    Row(Result<LifecycleState, RegistryErrorOf<S>>),
    /// How well input is supported.
    Support(Result<SupportLevel, RegistryErrorOf<S>>),
    /// What is known of the input pipe.
    Pipe(PipeFacts),
    /// Whether the bytes were written.
    Written(Result<(), BackendErrorOf<S>>),
}

/// The answer to an action of a [`SendInput`].
pub type SendEvent = SendEventOf<String>;

/// The model of a [`SendEvent`].
pub type SendEventModel = SendEventOf<Seq<char>>;

impl View for SendEventOf<String> {
    type V = SendEventModel;

    open spec fn view(&self) -> SendEventModel {
        match self {
            SendEventOf::Row(r) => SendEventOf::Row(
                match r {
                    Ok(state) => Ok(*state),
                    Err(e) => Err(e@),
                },
            ),
            SendEventOf::Support(r) => SendEventOf::Support(
                match r {
                    Ok(level) => Ok(*level),
                    Err(e) => Err(e@),
                },
            ),
            SendEventOf::Pipe(facts) => SendEventOf::Pipe(*facts),
            SendEventOf::Written(r) => SendEventOf::Written(
                match r {
                    Ok(_) => Ok(()),
                    Err(e) => Err(e@),
                },
            ),
        }
    }
}

/// What a [`SendInput`] asks for. `B` holds the bytes.
pub enum SendActionOf<S, B> {
    /// Look the instance up.
    ReadRow,
    /// Look up how well a capability is supported here.
    ReadSupport(Capability),
    /// Look at the input pipe of the process.
    LookAtPipe,
    /// Write the bytes to the input pipe.
    Write(B),
    /// Nothing: the answer does not fit what was asked.
    Misfit,
    /// Nothing more: it has ended.
    Finish(Result<(), EngineErrorOf<S>>),
}

/// What a [`SendInput`] asks for.
pub type SendAction = SendActionOf<String, Vec<u8>>;

/// The model of a [`SendAction`].
pub type SendActionModel = SendActionOf<Seq<char>, Seq<u8>>;

impl View for SendActionOf<String, Vec<u8>> {
    type V = SendActionModel;

    open spec fn view(&self) -> SendActionModel {
        match self {
            SendActionOf::ReadRow => SendActionOf::ReadRow,
            SendActionOf::ReadSupport(c) => SendActionOf::ReadSupport(*c),
            SendActionOf::LookAtPipe => SendActionOf::LookAtPipe,
            SendActionOf::Write(bytes) => SendActionOf::Write(bytes@),
            SendActionOf::Misfit => SendActionOf::Misfit,
            SendActionOf::Finish(r) => SendActionOf::Finish(
                match r {
                    Ok(_) => Ok(()),
                    Err(e) => Err(e@),
                },
            ),
        }
    }
}

/// The bytes of a line of input: the text's own, ended by exactly the newline it
/// has or else one more.
pub open spec fn input_line(text: Seq<u8>) -> Seq<u8> {
    if text.len() > 0 && text.last() == 10u8 {
        text
    } else {
        text.push(10u8)
    }
}

/// Input for `name` before anything has been asked.
pub open spec fn send_begin(
    name: Seq<char>,
    text: Seq<u8>,
    os: OsId,
    write_timeout_secs: u64,
) -> SendModel {
    SendModel {
        name,
        bytes: input_line(text),
        os,
        write_timeout_secs,
        phase: SendPhase::Row,
    }
}

/// It ends with `e`.
pub open spec fn send_ends(run: SendModel, e: EngineErrorModel) -> (SendModel, SendActionModel) {
    (SendModel { phase: SendPhase::Done, ..run }, SendActionOf::Finish(Err(e)))
}

/// It goes on to wait for `phase`, having asked for `action`.
pub open spec fn send_asks(run: SendModel, phase: SendPhase, action: SendActionModel) -> (
    SendModel,
    SendActionModel,
) {
    (SendModel { phase, ..run }, action)
}

/// What is done with an answer: the table of the steps.
pub open spec fn send_next(
    run: SendModel,
    event: SendEventModel,
    supervisor: SupervisorModel,
) -> (SendModel, SendActionModel) {
    let name = run.name;
    match (run.phase, event) {
        (SendPhase::Row, SendEventOf::Row(r)) => match r {
            Err(e) => send_ends(run, registry_to_engine_spec(e)),
            Ok(state) => if state != LifecycleState::Running {
                send_ends(run, EngineErrorOf::NotRunning { name, state: state.label() })
            } else {
                send_asks(
                    run,
                    SendPhase::Support,
                    SendActionOf::ReadSupport(Capability::Interaction),
                )
            },
        },
        (SendPhase::Support, SendEventOf::Support(r)) => match r {
            Err(e) => send_ends(run, registry_to_engine_spec(e)),
            Ok(level) => if level == SupportLevel::Unsupported {
                send_ends(
                    run,
                    EngineErrorOf::CapabilityUnsupported {
                        name,
                        capability: Capability::Interaction.label(),
                        os: run.os.label(),
                        level: level.label(),
                    },
                )
            } else if !supervisor.running.contains_key(name) {
                send_ends(run, EngineErrorOf::InteractionUnavailable { name, detail: NO_HANDLE@ })
            } else {
                send_asks(run, SendPhase::Pipe, SendActionOf::LookAtPipe)
            },
        },
        (SendPhase::Pipe, SendEventOf::Pipe(facts)) => if facts.timed_out {
            send_ends(
                run,
                EngineErrorOf::InteractionTimedOut { name, timeout_secs: run.write_timeout_secs },
            )
        } else if !facts.has_stdin {
            send_ends(run, EngineErrorOf::InteractionUnavailable { name, detail: NO_PIPE@ })
        } else {
            send_asks(run, SendPhase::Written, SendActionOf::Write(run.bytes))
        },
        (SendPhase::Written, SendEventOf::Written(r)) => match r {
            Ok(_) => (
                SendModel { phase: SendPhase::Done, ..run },
                SendActionOf::Finish(Ok(())),
            ),
            Err(BackendErrorOf::StdinTimedOut { timeout_secs }) => send_ends(
                run,
                EngineErrorOf::InteractionTimedOut { name, timeout_secs },
            ),
            Err(source) => send_ends(run, EngineErrorOf::Backend { name, source }),
        },
        _ => (run, SendActionOf::Misfit),
    }
}

fn line_bytes(text: &str) -> (r: Vec<u8>)
    ensures
        r@ == input_line(text.spec_bytes()),
{
    let mut bytes: Vec<u8> = text.as_bytes_vec();
    let n: usize = bytes.len();
    if n == 0 || bytes[n - 1] != 10u8 {
        bytes.push(10u8);
    }
    bytes
}

impl SendInput {
    /// The instance the input is for.
    pub fn name(&self) -> (r: &InstanceName)
        ensures
            r@ == self@.name,
    {
        &self.name
    }

    fn ends(&mut self, e: EngineError) -> (r: SendAction)
        ensures
            (final(self)@, r@) == send_ends(old(self)@, e@),
    {
        self.phase = SendPhase::Done;
        SendActionOf::Finish(Err(e))
    }

    fn asks(&mut self, phase: SendPhase, action: SendAction) -> (r: SendAction)
        ensures
            (final(self)@, r@) == send_asks(old(self)@, phase, action@),
    {
        self.phase = phase;
        action
    }
}

impl Supervisor {
    /// Begin to send `text` to an instance. The name is checked; nothing else is
    /// done. The first action is [`SendActionOf::ReadRow`].
    pub fn send_input(&self, name: &str, text: &str, os: OsId, write_timeout_secs: u64) -> (r:
        Result<SendInput, EngineError>)
        ensures
            match r {
                Ok(run) => name_fault(name@) is None && run@ == send_begin(
                    name@,
                    text.spec_bytes(),
                    os,
                    write_timeout_secs,
                ),
                Err(e) => name_fault(name@) matches Some(reason) && e@
                    == (EngineErrorModel::InvalidName { name: name@, reason }),
            },
    {
        match InstanceName::new(name) {
            Ok(name) => Ok(
                SendInput {
                    name,
                    bytes: line_bytes(text),
                    os,
                    write_timeout_secs,
                    phase: SendPhase::Row,
                },
            ),
            Err(reason) => Err(EngineErrorOf::InvalidName { name: name.to_owned(), reason }),
        }
    }

    /// Take the answer to what `run` asked for and say what to do next. What is
    /// supervised does not change.
    #[verifier::rlimit(40)]
    pub fn send_step(&self, run: &mut SendInput, event: SendEvent) -> (r: SendAction)
        requires
            self.wf(),
        ensures
            (final(run)@, r@) == send_next(old(run)@, event@, self@),
    {
        match (run.phase, event) {
            (SendPhase::Row, SendEventOf::Row(r)) => match r {
                Err(e) => run.ends(registry_to_engine(e)),
                Ok(state) => {
                    if state != LifecycleState::Running {
                        let failure = EngineErrorOf::NotRunning {
                            name: run.name.to_text(),
                            state: state.as_str().to_owned(),
                        };
                        run.ends(failure)
                    } else {
                        run.asks(
                            SendPhase::Support,
                            SendActionOf::ReadSupport(Capability::Interaction),
                        )
                    }
                },
            },
            (SendPhase::Support, SendEventOf::Support(r)) => match r {
                Err(e) => run.ends(registry_to_engine(e)),
                Ok(level) => {
                    if level == SupportLevel::Unsupported {
                        let failure = EngineErrorOf::CapabilityUnsupported {
                            name: run.name.to_text(),
                            capability: Capability::Interaction.as_str().to_owned(),
                            os: run.os.as_str().to_owned(),
                            level: level.as_str().to_owned(),
                        };
                        run.ends(failure)
                    } else if !self.is_held(&run.name) {
                        let failure = EngineErrorOf::InteractionUnavailable {
                            name: run.name.to_text(),
                            detail: NO_HANDLE.to_owned(),
                        };
                        run.ends(failure)
                    } else {
                        run.asks(SendPhase::Pipe, SendActionOf::LookAtPipe)
                    }
                },
            },
            (SendPhase::Pipe, SendEventOf::Pipe(facts)) => {
                if facts.timed_out {
                    let failure = EngineErrorOf::InteractionTimedOut {
                        name: run.name.to_text(),
                        timeout_secs: run.write_timeout_secs,
                    };
                    run.ends(failure)
                } else if !facts.has_stdin {
                    let failure = EngineErrorOf::InteractionUnavailable {
                        name: run.name.to_text(),
                        detail: NO_PIPE.to_owned(),
                    };
                    run.ends(failure)
                } else {
                    let bytes = run.bytes.clone();
                    assert(bytes@ =~= run.bytes@);
                    run.asks(SendPhase::Written, SendActionOf::Write(bytes))
                }
            },
            (SendPhase::Written, SendEventOf::Written(r)) => match r {
                Ok(_) => {
                    run.phase = SendPhase::Done;
                    SendActionOf::Finish(Ok(()))
                },
                Err(BackendErrorOf::StdinTimedOut { timeout_secs }) => {
                    let name = run.name.to_text();
                    run.ends(EngineErrorOf::InteractionTimedOut { name, timeout_secs })
                },
                Err(source) => {
                    let name = run.name.to_text();
                    run.ends(EngineErrorOf::Backend { name, source })
                },
            },
            _ => SendActionOf::Misfit,
        }
    }
}

/// What is written is one line: it ends with a newline, and holds the text and
/// nothing else.
pub proof fn law_input_is_one_ended_line(text: Seq<u8>)
    ensures
        input_line(text).last() == 10u8,
        input_line(text) == text || input_line(text) == text.push(10u8),
        input_line(input_line(text)) == input_line(text),
{
}

/// Bytes are written only to a process that is held, over a live pipe on which no
/// write has timed out.
pub proof fn law_input_is_written_only_over_a_live_pipe(
    run: SendModel,
    event: SendEventModel,
    supervisor: SupervisorModel,
)
    requires
        send_next(run, event, supervisor).1 is Write,
    ensures
        run.phase == SendPhase::Pipe,
        event == SendEventModel::Pipe(PipeFacts { timed_out: false, has_stdin: true }),
        send_next(run, event, supervisor).1 == SendActionModel::Write(run.bytes),
{
}

/// The input pipe is looked at only where the instance is supported for input and
/// its process held, and support is asked for only where it is running.
pub proof fn law_input_is_gated(
    run: SendModel,
    event: SendEventModel,
    supervisor: SupervisorModel,
)
    ensures
        send_next(run, event, supervisor).1 is LookAtPipe ==> supervisor.running.contains_key(
            run.name,
        ) && (event == SendEventModel::Support(Ok(SupportLevel::Guaranteed)) || event
            == SendEventModel::Support(Ok(SupportLevel::BestEffort))),
        send_next(run, event, supervisor).1 is ReadSupport ==> event == SendEventModel::Row(
            Ok(LifecycleState::Running),
        ),
{
}

/// What becomes of input: an instance that is not running is told to be in its state; one
/// without support for input is told so; one whose process is not held, or has no input pipe, is
/// told that input is not available; a pipe on which a write timed out stays so; and
/// else the text is written, as one line, its own newline kept and one added where it has none.
/// What became of the write is told.
#[verifier::spinoff_prover]
pub proof fn law_input_goes_where_it_was_answered(
    name: Seq<char>,
    text: Seq<u8>,
    os: OsId,
    write_timeout_secs: u64,
    state: LifecycleState,
    level: SupportLevel,
    facts: PipeFacts,
    timeout_secs: u64,
    backend: BackendErrorOf<Seq<char>>,
    registry: RegistryErrorOf<Seq<char>>,
    held: SupervisorModel,
)
    requires
        !(backend is StdinTimedOut),
    ensures
        ({
            let begun = send_begin(name, text, os, write_timeout_secs);
            let row = send_next(begun, SendEventModel::Row(Ok(state)), held);
            let ready = send_next(
                begun,
                SendEventModel::Row(Ok(LifecycleState::Running)),
                held,
            );
            let supported = send_next(ready.0, SendEventModel::Support(Ok(level)), held);
            let piped = send_next(supported.0, SendEventModel::Pipe(facts), held);
            let takes = level == SupportLevel::Guaranteed || level == SupportLevel::BestEffort;
            let unread = SendActionModel::Finish(Err(registry_to_engine_spec(registry)));
            let late = SendEventModel::Written(Err(BackendErrorOf::StdinTimedOut { timeout_secs }));
            &&& send_next(begun, SendEventModel::Row(Err(registry)), held).1 == unread
            &&& state != LifecycleState::Running ==> row.1 == SendActionModel::Finish(
                Err(EngineErrorModel::NotRunning { name, state: state.label() }),
            )
            &&& ready.1 == SendActionModel::ReadSupport(Capability::Interaction)
            &&& send_next(ready.0, SendEventModel::Support(Err(registry)), held).1 == unread
            &&& !takes ==> supported.1 == SendActionModel::Finish(
                Err(
                    EngineErrorModel::CapabilityUnsupported {
                        name,
                        capability: "interaction"@,
                        os: os.label(),
                        level: "unsupported"@,
                    },
                ),
            )
            &&& takes && !held.running.contains_key(name) ==> supported.1
                == SendActionModel::Finish(
                Err(EngineErrorModel::InteractionUnavailable { name, detail: NO_HANDLE@ }),
            )
            &&& takes && held.running.contains_key(name) ==> {
                &&& supported.1 is LookAtPipe
                &&& facts.timed_out ==> piped.1 == SendActionModel::Finish(
                    Err(
                        EngineErrorModel::InteractionTimedOut {
                            name,
                            timeout_secs: write_timeout_secs,
                        },
                    ),
                )
                &&& !facts.timed_out && !facts.has_stdin ==> piped.1 == SendActionModel::Finish(
                    Err(EngineErrorModel::InteractionUnavailable { name, detail: NO_PIPE@ }),
                )
                &&& !facts.timed_out && facts.has_stdin ==> {
                    &&& piped.1 == SendActionModel::Write(
                        if text.len() > 0 && text[text.len() - 1] == 10u8 {
                            text
                        } else {
                            text + seq![10u8]
                        },
                    )
                    &&& send_next(piped.0, SendEventModel::Written(Ok(())), held).1
                        == SendActionModel::Finish(Ok(()))
                    &&& send_next(piped.0, late, held).1 == SendActionModel::Finish(
                        Err(EngineErrorModel::InteractionTimedOut { name, timeout_secs }),
                    )
                    &&& send_next(piped.0, SendEventModel::Written(Err(backend)), held).1
                        == SendActionModel::Finish(
                        Err(EngineErrorModel::Backend { name, source: backend }),
                    )
                }
            }
        }),
{
    assert(text.push(10u8) =~= text + seq![10u8]);
}

/// Input on its way takes the answer to what it asked for and no other: any other answer changes nothing,
/// and after its end every answer is such a one.
pub proof fn law_input_takes_only_its_answer(
    held: SupervisorModel,
    run: SendModel,
    event: SendEventModel,
    later: SendEventModel,
)
    ensures
        ({
            let step = send_next(run, event, held);
            let fits = match run.phase {
                SendPhase::Row => event is Row,
                SendPhase::Support => event is Support,
                SendPhase::Pipe => event is Pipe,
                SendPhase::Written => event is Written,
                SendPhase::Done => false,
            };
            &&& step.1 is Misfit <==> !fits
            &&& !fits ==> step.0 == run
            &&& step.1 is Finish ==> send_next(step.0, later, held).1 is Misfit
        }),
{
}

} // verus!
