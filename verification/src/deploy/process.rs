//! A command that is running: what is kept of its output, how it is stopped, and what is reported
//! of it.

use vstd::prelude::*;

use super::capture::{BoundedCommandCapture, CaptureState};
use super::commands::{render_command, rendered, CommandResult, CommandSpec};
use super::inputs::{DeployError, DeployFault};
use crate::bytes::{shown_text, text_from_utf8_lossy};
use crate::decimal::{decimal, natural_text};
use crate::text::texts;

verus! {

#[derive(Clone, Copy, Debug, PartialEq, Eq, Structural)]
pub enum CommandOutputStream {
    Stdout,
    Stderr,
    System,
}

impl CommandOutputStream {
    pub open spec fn name(self) -> Seq<char> {
        match self {
            CommandOutputStream::Stdout => "stdout"@,
            CommandOutputStream::Stderr => "stderr"@,
            CommandOutputStream::System => "output"@,
        }
    }

    pub fn as_str(&self) -> (name: &'static str)
        ensures
            name@ == self.name(),
    {
        match self {
            CommandOutputStream::Stdout => "stdout",
            CommandOutputStream::Stderr => "stderr",
            CommandOutputStream::System => "output",
        }
    }
}

/// What arrives from a stream of a command.
#[derive(Clone, Debug)]
pub enum CommandOutputEvent {
    Chunk { stream: CommandOutputStream, bytes: Vec<u8> },
    ReadError { stream: CommandOutputStream, message: String },
}

/// Why a command is stopped before it ends by itself.
#[derive(Debug)]
pub enum CommandProcessStop {
    Canceled,
    TimedOut,
    OutputError(DeployError),
}

/// How a command is stopped: whether it is killed at once, and how many seconds it gets to end
/// before it is killed for good.
#[derive(Clone, Copy, Debug, PartialEq, Eq, Structural)]
pub struct StopPlan {
    pub kill_at_once: bool,
    pub grace_seconds: u64,
    pub final_seconds: u64,
}

/// What happens to a command while it runs.
#[derive(Debug)]
pub enum CommandEvent {
    /// It ended by itself, with a code where it has one.
    Exited(Option<i32>),
    /// The operating system could not wait for it.
    WaitFailed(String),
    /// Something came from one of its streams.
    Output(CommandOutputEvent),
    /// Both of its streams were closed.
    OutputClosed,
    /// What it wrote could not be handed on.
    SinkFailed(DeployError),
    /// It was canceled.
    Canceled,
    /// It took too long.
    TimedOut,
}

/// What is done next with a command.
#[derive(Debug)]
pub enum CommandStep {
    /// It goes on.
    Wait,
    /// It has ended, with this code.
    Finish(Option<i32>),
    /// It is stopped as planned, for this reason.
    Stop(StopPlan, CommandProcessStop),
}

/// How long a command may take that is given so many seconds.
pub open spec fn granted_seconds(timeout_secs: u64) -> u64 {
    if timeout_secs < 1 {
        1
    } else {
        timeout_secs
    }
}

/// Runs commands with a limit on their time.
#[derive(Clone, Copy, Debug)]
pub struct TokioCommandRunner {
    timeout_secs: u64,
}

impl TokioCommandRunner {
    pub closed spec fn seconds(self) -> u64 {
        self.timeout_secs
    }

    /// At least one second is granted.
    pub fn new(timeout_secs: u64) -> (runner: TokioCommandRunner)
        ensures
            runner.seconds() == granted_seconds(timeout_secs),
    {
        TokioCommandRunner {
            timeout_secs: if timeout_secs < 1 {
                1
            } else {
                timeout_secs
            },
        }
    }

    pub fn timeout_secs(&self) -> (seconds: u64)
        ensures
            seconds == self.seconds(),
    {
        self.timeout_secs
    }

    /// Begins to run a command, unless it was canceled already.
    pub fn begin(&self, spec: &CommandSpec, canceled: bool) -> (result: Result<
        RunningCommand,
        DeployError,
    >)
        ensures
            match result {
                Ok(running) => {
                    &&& !canceled
                    &&& running.wf()
                    &&& running@ == (RunState {
                        command: rendered(spec.program@, texts(spec.args@)),
                        timeout: self.seconds(),
                        listening: true,
                        stdout: empty_capture(),
                        stderr: empty_capture(),
                    })
                },
                Err(error) => canceled && error@ == DeployFault::Canceled(
                    "命令 "@ + rendered(spec.program@, texts(spec.args@)) + " 在启动前已取消"@,
                ),
            },
    {
        let command = render_command(spec.program.as_str(), &spec.args);
        if canceled {
            return Err(
                DeployError::Canceled(
                    "命令 ".to_owned().concat(command.as_str()).concat(" 在启动前已取消"),
                ),
            );
        }
        Ok(
            RunningCommand {
                command,
                timeout_secs: self.timeout_secs,
                listening: true,
                stdout_capture: BoundedCommandCapture::new(),
                stderr_capture: BoundedCommandCapture::new(),
            },
        )
    }
}

/// A command that is running.
#[derive(Debug)]
pub struct RunningCommand {
    command: String,
    timeout_secs: u64,
    listening: bool,
    stdout_capture: BoundedCommandCapture,
    stderr_capture: BoundedCommandCapture,
}

/// A running command as a mathematical value.
pub struct RunState {
    pub command: Seq<char>,
    pub timeout: u64,
    /// Whether more output may come.
    pub listening: bool,
    pub stdout: CaptureState,
    pub stderr: CaptureState,
}

pub open spec fn empty_capture() -> CaptureState {
    CaptureState { head: Seq::empty(), tail: Seq::empty(), dropped: 0 }
}

impl View for RunningCommand {
    type V = RunState;

    closed spec fn view(&self) -> RunState {
        RunState {
            command: self.command@,
            timeout: self.timeout_secs,
            listening: self.listening,
            stdout: self.stdout_capture@,
            stderr: self.stderr_capture@,
        }
    }
}

impl RunState {
    /// The state after a chunk of output.
    pub open spec fn with_chunk(self, stream: CommandOutputStream, bytes: Seq<u8>) -> RunState {
        match stream {
            CommandOutputStream::Stdout => RunState {
                stdout: self.stdout.with_appended(bytes),
                ..self
            },
            CommandOutputStream::Stderr => RunState {
                stderr: self.stderr.with_appended(bytes),
                ..self
            },
            CommandOutputStream::System => self,
        }
    }
}

/// How a command is stopped: a canceled one is asked to end and gets five seconds, any other is
/// killed at once and gets one.
pub open spec fn planned_stop(canceled: bool) -> StopPlan {
    StopPlan {
        kill_at_once: !canceled,
        grace_seconds: if canceled {
            5
        } else {
            1
        },
        final_seconds: 5,
    }
}

/// The error of the operating system with a command.
pub open spec fn command_failure(command: Seq<char>, reason: Seq<char>) -> DeployFault {
    DeployFault::Command("执行命令 "@ + command + " 失败: "@ + reason)
}

/// The error of a stream that could not be read.
pub open spec fn read_failure(stream: CommandOutputStream, message: Seq<char>) -> DeployFault {
    DeployFault::Command("读取命令 "@ + stream.name() + " 失败: "@ + message)
}

/// What is reported of a command that was stopped.
pub open spec fn stop_fault(state: RunState, reason: CommandProcessStop) -> DeployFault {
    match reason {
        CommandProcessStop::Canceled => DeployFault::Canceled(
            "命令 "@ + state.command + " 已取消"@,
        ),
        CommandProcessStop::TimedOut => DeployFault::Command(
            "执行命令 "@ + state.command + " 超时（"@ + decimal(state.timeout as nat) + " 秒）"@,
        ),
        CommandProcessStop::OutputError(error) => error@,
    }
}

/// Why an event stops a command, where it does: the reason is reported as the given error.
pub open spec fn stopped_by(state: RunState, event: CommandEvent) -> Option<DeployFault> {
    match event {
        CommandEvent::Exited(_) => None,
        CommandEvent::OutputClosed => None,
        CommandEvent::Output(CommandOutputEvent::Chunk { .. }) => None,
        CommandEvent::Output(CommandOutputEvent::ReadError { stream, message }) => Some(
            read_failure(stream, message@),
        ),
        CommandEvent::WaitFailed(reason) => Some(command_failure(state.command, reason@)),
        CommandEvent::SinkFailed(error) => Some(error@),
        CommandEvent::Canceled => Some(stop_fault(state, CommandProcessStop::Canceled)),
        CommandEvent::TimedOut => Some(stop_fault(state, CommandProcessStop::TimedOut)),
    }
}

/// The state of a command after an event.
pub open spec fn after_event(state: RunState, event: CommandEvent) -> RunState {
    match event {
        CommandEvent::OutputClosed => RunState { listening: false, ..state },
        CommandEvent::Output(CommandOutputEvent::Chunk { stream, bytes }) => state.with_chunk(
            stream,
            bytes@,
        ),
        _ => state,
    }
}

/// The output of a command that has ended, or what went wrong with the last of it.
pub open spec fn concluded(
    state: RunState,
    drained: Result<(), DeployError>,
    flushed: Result<(), DeployError>,
) -> Result<(Seq<char>, Seq<char>), DeployFault> {
    match (drained, flushed) {
        (Err(error), _) => Err(error@),
        (_, Err(error)) => Err(error@),
        _ => Ok((shown_text(state.stdout.shown()), shown_text(state.stderr.shown()))),
    }
}

impl RunningCommand {
    pub closed spec fn wf(self) -> bool {
        self.stdout_capture.wf() && self.stderr_capture.wf()
    }

    pub fn command(&self) -> (command: &str)
        ensures
            command@ == self@.command,
    {
        self.command.as_str()
    }

    /// An error of the operating system with the command.
    pub fn failure(&self, reason: &str) -> (error: DeployError)
        ensures
            error@ == command_failure(self@.command, reason@),
    {
        DeployError::Command(
            "执行命令 ".to_owned().concat(self.command.as_str()).concat(" 失败: ").concat(reason),
        )
    }

    /// Takes what arrives from a stream: a chunk is kept, an error ends the command.
    pub fn handle_command_output_event(&mut self, event: &CommandOutputEvent) -> (result: Result<
        (),
        DeployError,
    >)
        requires
            old(self).wf(),
        ensures
            final(self).wf(),
            match event {
                CommandOutputEvent::Chunk { stream, bytes } => {
                    &&& result is Ok
                    &&& final(self)@ == old(self)@.with_chunk(*stream, bytes@)
                },
                CommandOutputEvent::ReadError { stream, message } => {
                    &&& result is Err
                    &&& result->Err_0@ == read_failure(*stream, message@)
                    &&& final(self)@ == old(self)@
                },
            },
    {
        match event {
            CommandOutputEvent::Chunk { stream, bytes } => {
                match stream {
                    CommandOutputStream::Stdout => {
                        self.stdout_capture.append(bytes.as_slice());
                    },
                    CommandOutputStream::Stderr => {
                        self.stderr_capture.append(bytes.as_slice());
                    },
                    CommandOutputStream::System => {},
                }
                Ok(())
            },
            CommandOutputEvent::ReadError { stream, message } => Err(
                DeployError::Command(
                    "读取命令 ".to_owned().concat(stream.as_str()).concat(" 失败: ").concat(
                        message.as_str(),
                    ),
                ),
            ),
        }
    }

    pub fn stop_plan(&self, reason: &CommandProcessStop) -> (plan: StopPlan)
        ensures
            plan == planned_stop(*reason is Canceled),
    {
        match reason {
            CommandProcessStop::Canceled => StopPlan {
                kill_at_once: false,
                grace_seconds: 5,
                final_seconds: 5,
            },
            _ => StopPlan { kill_at_once: true, grace_seconds: 1, final_seconds: 5 },
        }
    }

    /// What is reported of a command that was stopped.
    pub fn stop_error(&self, reason: CommandProcessStop) -> (error: DeployError)
        ensures
            error@ == stop_fault(self@, reason),
    {
        match reason {
            CommandProcessStop::Canceled => DeployError::Canceled(
                "命令 ".to_owned().concat(self.command.as_str()).concat(" 已取消"),
            ),
            CommandProcessStop::TimedOut => DeployError::Command(
                "执行命令 ".to_owned().concat(self.command.as_str()).concat(" 超时（").concat(
                    natural_text(self.timeout_secs).as_str(),
                ).concat(" 秒）"),
            ),
            CommandProcessStop::OutputError(error) => error,
        }
    }

    /// What is reported of a command that ended by itself.
    pub fn finish(self, status_code: Option<i32>) -> (result: CommandResult)
        requires
            self.wf(),
        ensures
            result.status_code == status_code,
            result.stdout@ == shown_text(self@.stdout.shown()),
            result.stderr@ == shown_text(self@.stderr.shown()),
    {
        let stdout = self.stdout_capture.into_bytes();
        let stderr = self.stderr_capture.into_bytes();
        CommandResult {
            status_code,
            stdout: text_from_utf8_lossy(stdout.as_slice()),
            stderr: text_from_utf8_lossy(stderr.as_slice()),
        }
    }

    /// Whether more output may come.
    pub fn listening(&self) -> (listening: bool)
        ensures
            listening == self@.listening,
    {
        self.listening
    }

    /// Takes what happens to the command: whether it goes on, has ended, or is stopped.
    pub fn on_event(&mut self, event: CommandEvent) -> (step: CommandStep)
        requires
            old(self).wf(),
        ensures
            final(self).wf(),
            final(self)@ == after_event(old(self)@, event),
            match step {
                CommandStep::Finish(code) => event == CommandEvent::Exited(code),
                CommandStep::Wait => !(event is Exited) && stopped_by(old(self)@, event) is None,
                CommandStep::Stop(plan, reason) => {
                    &&& stopped_by(old(self)@, event) == Some(stop_fault(old(self)@, reason))
                    &&& plan == planned_stop(event is Canceled)
                    &&& (reason is Canceled <==> event is Canceled)
                },
            },
    {
        let reason = match event {
            CommandEvent::Exited(code) => return CommandStep::Finish(code),
            CommandEvent::OutputClosed => {
                self.listening = false;
                return CommandStep::Wait;
            },
            CommandEvent::Output(output) => match self.handle_command_output_event(&output) {
                Ok(_) => return CommandStep::Wait,
                Err(error) => CommandProcessStop::OutputError(error),
            },
            CommandEvent::WaitFailed(message) => CommandProcessStop::OutputError(
                self.failure(message.as_str()),
            ),
            CommandEvent::SinkFailed(error) => CommandProcessStop::OutputError(error),
            CommandEvent::Canceled => CommandProcessStop::Canceled,
            CommandEvent::TimedOut => CommandProcessStop::TimedOut,
        };
        let plan = self.stop_plan(&reason);
        CommandStep::Stop(plan, reason)
    }

    /// What is reported of a command that ended by itself, once the last of its output was taken
    /// and handed on.
    pub fn conclude(
        self,
        status_code: Option<i32>,
        drained: Result<(), DeployError>,
        flushed: Result<(), DeployError>,
    ) -> (result: Result<CommandResult, DeployError>)
        requires
            self.wf(),
        ensures
            match result {
                Ok(ended) => {
                    &&& ended.status_code == status_code
                    &&& concluded(self@, drained, flushed) == Ok::<
                        (Seq<char>, Seq<char>),
                        DeployFault,
                    >((ended.stdout@, ended.stderr@))
                },
                Err(error) => concluded(self@, drained, flushed) == Err::<
                    (Seq<char>, Seq<char>),
                    DeployFault,
                >(error@),
            },
    {
        match drained {
            Ok(_) => {},
            Err(error) => return Err(error),
        }
        match flushed {
            Ok(_) => {},
            Err(error) => return Err(error),
        }
        Ok(self.finish(status_code))
    }
}

// ---------------------------------------------------------------------------
// Laws
// ---------------------------------------------------------------------------

/// The state of a command after several events.
pub open spec fn after_events(state: RunState, events: Seq<CommandEvent>) -> RunState
    decreases events.len(),
{
    if events.len() == 0 {
        state
    } else {
        after_event(after_events(state, events.drop_last()), events.last())
    }
}

/// What happens to a command changes neither what it is nor how long it may take, and once its
/// streams are closed they stay closed.
pub proof fn commands_stay_themselves(state: RunState, events: Seq<CommandEvent>)
    ensures
        after_events(state, events).command == state.command,
        after_events(state, events).timeout == state.timeout,
        !state.listening ==> !after_events(state, events).listening,
    decreases events.len(),
{
    if events.len() > 0 {
        commands_stay_themselves(state, events.drop_last());
    }
}

/// A cancellation, a timeout and a failure always stop a command, and only a cancellation gives it
/// time to end by itself.
pub proof fn only_cancellations_are_graceful(state: RunState, event: CommandEvent)
    requires
        stopped_by(state, event) is Some,
    ensures
        !planned_stop(event is Canceled).kill_at_once <==> event is Canceled,
        stopped_by(state, CommandEvent::Canceled) is Some,
        stopped_by(state, CommandEvent::TimedOut) is Some,
{
}

/// A command that is canceled has five seconds to end by itself. One that failed or took too long is
/// killed at once and waited for one second. After that five seconds are left for either.
pub proof fn stops_take_their_time(canceled: bool)
    ensures
        planned_stop(true) == (StopPlan { kill_at_once: false, grace_seconds: 5, final_seconds: 5 }),
        planned_stop(false) == (StopPlan { kill_at_once: true, grace_seconds: 1, final_seconds: 5 }),
        planned_stop(canceled).kill_at_once == !canceled,
{
}

/// What a command writes is kept with the stream that it wrote to, and with no other.
pub proof fn output_is_kept_by_stream(state: RunState, chunk: Vec<u8>)
    ensures
        ({
            let after = after_event(
                state,
                CommandEvent::Output(
                    CommandOutputEvent::Chunk {
                        stream: CommandOutputStream::Stdout,
                        bytes: chunk,
                    },
                ),
            );
            after.stdout == state.stdout.with_appended(chunk@) && after.stderr == state.stderr
                && after.listening == state.listening
        }),
        ({
            let after = after_event(
                state,
                CommandEvent::Output(
                    CommandOutputEvent::Chunk {
                        stream: CommandOutputStream::Stderr,
                        bytes: chunk,
                    },
                ),
            );
            after.stderr == state.stderr.with_appended(chunk@) && after.stdout == state.stdout
                && after.listening == state.listening
        }),
        after_event(
            state,
            CommandEvent::Output(
                CommandOutputEvent::Chunk { stream: CommandOutputStream::System, bytes: chunk },
            ),
        ) == state,
        !after_event(state, CommandEvent::OutputClosed).listening,
{
}

/// A command goes on until something goes wrong: it is stopped by everything but output, the end of
/// its output and its own end. A cancellation, and nothing else that happens to it, is told as one.
pub proof fn commands_go_on_until_something_goes_wrong(state: RunState, event: CommandEvent)
    ensures
        stopped_by(state, event) is None <==> event is Exited || event is OutputClosed || (
        event matches CommandEvent::Output(CommandOutputEvent::Chunk { .. })),
        event is Canceled ==> stopped_by(state, event)->0 is Canceled,
        event is TimedOut || event is WaitFailed || event is Output ==> (stopped_by(
            state,
            event,
        ) is Some ==> stopped_by(state, event)->0 is Command),
        event is TimedOut ==> crate::pieces::holds(
            stopped_by(state, event)->0.text(),
            decimal(state.timeout as nat),
        ),
{
    if event is TimedOut {
        let start = "执行命令 "@ + state.command + " 超时（"@;
        let number = decimal(state.timeout as nat);
        let whole = start + number + " 秒）"@;
        assert(whole.subrange(
            start.len() as int,
            (start.len() + number.len()) as int,
        ) =~= number);
        assert(crate::pieces::stands_at(whole, number, start.len() as int));
    }
}

/// A command ends well exactly if its output was read and handed on to the end. The first thing that
/// went wrong is told.
pub proof fn commands_end_with_all_their_output(
    state: RunState,
    drained: Result<(), DeployError>,
    flushed: Result<(), DeployError>,
)
    ensures
        concluded(state, drained, flushed) is Ok <==> drained is Ok && flushed is Ok,
        drained matches Err(error) ==> concluded(state, drained, flushed) == Err::<
            (Seq<char>, Seq<char>),
            DeployFault,
        >(error@),
        drained is Ok && flushed is Err ==> concluded(state, drained, flushed) == Err::<
            (Seq<char>, Seq<char>),
            DeployFault,
        >(flushed->Err_0@),
        concluded(state, drained, flushed) matches Ok((out, err)) ==> out == shown_text(
            state.stdout.shown(),
        ) && err == shown_text(state.stderr.shown()),
{
}

/// A command has a second at least, and as long as it is given.
pub proof fn commands_have_a_second_at_least(seconds: u64)
    ensures
        granted_seconds(0) == 1,
        seconds > 0 ==> granted_seconds(seconds) == seconds,
{
}

/// The streams of a command have their names, and nothing is kept of a command before it writes.
pub proof fn streams_have_their_names()
    ensures
        CommandOutputStream::Stdout.name() == "stdout"@,
        CommandOutputStream::Stderr.name() == "stderr"@,
        CommandOutputStream::System.name() == "output"@,
        empty_capture().head.len() == 0,
        empty_capture().tail.len() == 0,
        empty_capture().dropped == 0,
{
}

} // verus!
