//! The commands that are run: what is told of them while they run, what is kept of what
//! they print, and what their failure is called.

use vstd::prelude::*;

use crate::error;
use crate::error::{caused, Error};
use crate::plan::{Command, CommandLine};
use crate::text;
use crate::text::{append, copies, join, lossy, owned, signed, trim};

verus! {

/// What commands printed.
#[derive(Debug)]
pub struct Transcript {
    pub stdout: Vec<u8>,
    pub stderr: Vec<u8>,
}

impl Default for Transcript {
    fn default() -> (transcript: Transcript)
        ensures
            is_blank(transcript),
    {
        Transcript { stdout: Vec::new(), stderr: Vec::new() }
    }
}

/// Whether nothing was printed.
pub open spec fn is_blank(transcript: Transcript) -> bool {
    transcript.stdout@ == Seq::<u8>::empty() && transcript.stderr@ == Seq::<u8>::empty()
}

/// What an event is about.
#[derive(Debug, Clone, Copy, PartialEq, Eq, Structural)]
pub enum CommandStream {
    Command,
    Stdout,
    Stderr,
    Message,
}

/// Something that is told while commands run.
#[derive(Debug)]
pub struct CommandEvent {
    pub program: String,
    pub args: Vec<String>,
    pub stream: CommandStream,
    pub data: Vec<u8>,
}

/// Something that is told while commands run, as plain values.
pub struct Event {
    pub program: Seq<char>,
    pub args: Seq<Seq<char>>,
    pub stream: CommandStream,
    pub data: Seq<u8>,
}

impl View for CommandEvent {
    type V = Event;

    open spec fn view(&self) -> Event {
        Event {
            program: self.program@,
            args: text::views(self.args@),
            stream: self.stream,
            data: self.data@,
        }
    }
}

/// What events tell.
pub open spec fn event_views(events: Seq<CommandEvent>) -> Seq<Event> {
    events.map_values(|event: CommandEvent| event@)
}

/// Where events and output go: to a stream, if there is a listener, or else into a
/// transcript, if one is kept.
#[derive(Debug)]
pub struct Recorder {
    /// Whether someone listens.
    pub streaming: bool,
    /// What is kept.
    pub transcript: Option<Transcript>,
    /// The events that the listener has yet to be told.
    pub pending: Vec<CommandEvent>,
}

/// What is kept, as bytes: of the standard output and of the error output.
pub open spec fn kept(transcript: Option<Transcript>) -> Option<(Seq<u8>, Seq<u8>)> {
    match transcript {
        Some(transcript) => Some((transcript.stdout@, transcript.stderr@)),
        None => None,
    }
}

/// A recorder as plain values.
pub struct Record {
    pub streaming: bool,
    pub kept: Option<(Seq<u8>, Seq<u8>)>,
    pub pending: Seq<Event>,
}

impl View for Recorder {
    type V = Record;

    open spec fn view(&self) -> Record {
        Record {
            streaming: self.streaming,
            kept: kept(self.transcript),
            pending: event_views(self.pending@),
        }
    }
}

impl Record {
    /// The record with an event for the listener, if there is one.
    pub open spec fn told(self, event: Event) -> Record {
        if self.streaming {
            Record { pending: self.pending.push(event), ..self }
        } else {
            self
        }
    }

    /// The record with output in the transcript, if one is kept and no one listens.
    pub open spec fn noted(self, heading: Seq<u8>, stdout: Seq<u8>, stderr: Seq<u8>) -> Record {
        match self.kept {
            Some((out, err)) if !self.streaming => Record {
                kept: Some((out + heading + stdout, err + stderr)),
                ..self
            },
            _ => self,
        }
    }
}

/// The recorder that no one listens to and that keeps nothing.
pub fn silent() -> (recorder: Recorder)
    ensures
        recorder@ == (Record { streaming: false, kept: None, pending: Seq::empty() }),
{
    let recorder = Recorder { streaming: false, transcript: None, pending: Vec::new() };
    proof {
        assert(event_views(recorder.pending@) =~= Seq::empty());
    }
    recorder
}

fn tell(recorder: Recorder, event: CommandEvent) -> (result: Recorder)
    ensures
        result@ == recorder@.told(event@),
{
    if !recorder.streaming {
        return recorder;
    }
    let mut pending = recorder.pending;
    pending.push(event);
    proof {
        assert(event_views(pending@) =~= event_views(recorder.pending@).push(event@));
    }
    Recorder { streaming: recorder.streaming, transcript: recorder.transcript, pending }
}

/// The events that the listener is to be told now.
pub fn deliver(recorder: Recorder) -> (result: (Vec<CommandEvent>, Recorder))
    ensures
        event_views(result.0@) == recorder@.pending,
        result.1@ == (Record { pending: Seq::empty(), ..recorder@ }),
{
    let quiet = Recorder {
        streaming: recorder.streaming,
        transcript: recorder.transcript,
        pending: Vec::new(),
    };
    proof {
        assert(event_views(quiet.pending@) =~= Seq::empty());
    }
    (recorder.pending, quiet)
}

/// The event that tells a message.
pub open spec fn message_of(message: Seq<char>) -> Event {
    Event {
        program: ""@,
        args: Seq::empty(),
        stream: CommandStream::Message,
        data: vstd::utf8::encode_utf8(message),
    }
}

/// The event that tells of a command.
pub open spec fn command_of(command: CommandLine) -> Event {
    Event {
        program: command.program,
        args: command.args,
        stream: CommandStream::Command,
        data: Seq::empty(),
    }
}

/// The event that tells what a command printed.
pub open spec fn output_of(data: Seq<u8>, stdout: bool) -> Event {
    Event {
        program: ""@,
        args: Seq::empty(),
        stream: if stdout {
            CommandStream::Stdout
        } else {
            CommandStream::Stderr
        },
        data,
    }
}

fn byte_copy(bytes: &[u8]) -> (copy: Vec<u8>)
    ensures
        copy@ == bytes@,
{
    append(Vec::new(), bytes)
}

fn event(stream: CommandStream, data: &[u8]) -> (result: CommandEvent)
    ensures
        result@ == (Event { program: ""@, args: Seq::empty(), stream, data: data@ }),
{
    let result = CommandEvent {
        program: owned(""),
        args: Vec::new(),
        stream,
        data: byte_copy(data),
    };
    proof {
        assert(text::views(result.args@) =~= Seq::empty());
    }
    result
}

/// Tells the listener a message.
pub fn message(recorder: Recorder, text: &str) -> (result: Recorder)
    ensures
        result@ == recorder@.told(message_of(text@)),
{
    tell(recorder, event(CommandStream::Message, text.as_bytes()))
}

/// Tells the listener that a command is about to be run.
pub fn announce_command(recorder: Recorder, command: &Command) -> (result: Recorder)
    ensures
        result@ == recorder@.told(command_of(command@)),
{
    tell(
        recorder,
        CommandEvent {
            program: owned(command.program.as_str()),
            args: copies(&command.args),
            stream: CommandStream::Command,
            data: Vec::new(),
        },
    )
}

/// Takes up a piece of what a command prints: it is kept with what came before, and makes
/// an event.
pub fn read_stream(output: Vec<u8>, data: &[u8], stdout: bool) -> (result: (Vec<u8>, CommandEvent))
    ensures
        result.0@ == output@ + data@,
        result.1@ == output_of(data@, stdout),
{
    let stream = if stdout {
        CommandStream::Stdout
    } else {
        CommandStream::Stderr
    };
    (append(output, data), event(stream, data))
}

// ---------------------------------------------------------------------------
// Listening and capturing
// ---------------------------------------------------------------------------

/// Carries out an operation with a listener, who leaves when it is over, however it ends.
pub fn with_stream<T, F: FnOnce(Recorder) -> (Result<T, Error>, Recorder)>(
    recorder: Recorder,
    operation: F,
) -> (result: (Result<T, Error>, Recorder))
    requires
        forall|start: Recorder|
            start@ == (Record { streaming: true, ..recorder@ }) ==> #[trigger] operation.requires(
                (start,),
            ),
    ensures
        exists|start: Recorder, answer: Result<T, Error>, after: Recorder|
            start@ == (Record { streaming: true, ..recorder@ }) && #[trigger] operation.ensures(
                (start,),
                (answer, after),
            ) && result.0 == answer && result.1@ == (Record { streaming: false, ..after@ }),
{
    let start = Recorder {
        streaming: true,
        transcript: recorder.transcript,
        pending: recorder.pending,
    };
    let (answer, after) = operation(start);
    let left = Recorder {
        streaming: false,
        transcript: after.transcript,
        pending: after.pending,
    };
    (answer, left)
}

/// Carries out an operation with a new transcript, and gives back what is in it at the end.
pub fn capture<T, F: FnOnce(Recorder) -> (Result<T, Error>, Recorder)>(
    recorder: Recorder,
    operation: F,
) -> (result: (Result<(T, Transcript), Error>, Recorder))
    requires
        forall|start: Recorder|
            start@ == (Record { kept: Some((Seq::empty(), Seq::empty())), ..recorder@ })
                ==> #[trigger] operation.requires((start,)),
    ensures
        exists|start: Recorder, answer: Result<T, Error>, after: Recorder|
            start@ == (Record { kept: Some((Seq::empty(), Seq::empty())), ..recorder@ })
                && #[trigger] operation.ensures((start,), (answer, after)) && result.1@ == (Record {
                kept: None,
                ..after@
            }) && match (answer, result.0) {
                (Ok(value), Ok((same, transcript))) => same == value && match after@.kept {
                    Some((stdout, stderr)) => transcript.stdout@ == stdout && transcript.stderr@
                        == stderr,
                    None => is_blank(transcript),
                },
                (Err(reason), Err(error)) => error == reason,
                _ => false,
            },
{
    let start = Recorder {
        streaming: recorder.streaming,
        transcript: Some(Transcript::default()),
        pending: recorder.pending,
    };
    proof {
        assert(start@ == (Record { kept: Some((Seq::empty(), Seq::empty())), ..recorder@ }));
    }
    let (answer, after) = operation(start);
    let left = Recorder { streaming: after.streaming, transcript: None, pending: after.pending };
    match answer {
        Ok(value) => {
            let transcript = match after.transcript {
                Some(transcript) => transcript,
                None => Transcript::default(),
            };
            (Ok((value, transcript)), left)
        },
        Err(error) => (Err(error), left),
    }
}

// ---------------------------------------------------------------------------
// Running
// ---------------------------------------------------------------------------

/// What a finished command leaves: its exit code, unless a signal ended it, and what it
/// printed.
#[derive(Debug)]
pub struct Output {
    pub code: Option<i32>,
    pub stdout: Vec<u8>,
    pub stderr: Vec<u8>,
}

/// How running a command went.
#[derive(Debug)]
pub enum Execution {
    /// A file that it needs could not be opened, for this reason.
    Unopened(String),
    /// The command could not be started, for this reason.
    Unstarted(String),
    /// Something else went wrong around it.
    Broken(String),
    /// It ran to its end.
    Finished(Output),
}

/// A command as text.
pub open spec fn line_text(command: CommandLine) -> Seq<char> {
    command.program + " "@ + text::join_spec(command.args, " "@)
}

fn command_text(command: &Command) -> (result: String)
    ensures
        result@ == line_text(command@),
{
    owned(command.program.as_str()).concat(" ").concat(join(&command.args, " ").as_str())
}

/// An exit code as text.
pub open spec fn code_spec(code: Option<i32>) -> Seq<char> {
    match code {
        Some(code) => "Some("@ + text::signed_spec(code as int) + ")"@,
        None => "None"@,
    }
}

fn code_text(code: Option<i32>) -> (result: String)
    ensures
        result@ == code_spec(code),
{
    match code {
        Some(code) => owned("Some(").concat(signed(code).as_str()).concat(")"),
        None => owned("None"),
    }
}

/// What the failure of a command is called; `place` tells where it ran.
pub open spec fn failure_spec(
    place: Seq<char>,
    command: CommandLine,
    code: Option<i32>,
    stderr: Seq<u8>,
) -> Seq<char> {
    "command failed"@ + place + ": "@ + line_text(command) + " (exit code: "@ + code_spec(code)
        + ")\nstderr: "@ + text::trim_spec(text::lossy_spec(stderr))
}

fn failure(place: &str, command: &Command, code: Option<i32>, stderr: &Vec<u8>) -> (error: Error)
    ensures
        error@ == failure_spec(place@, command@, code, stderr@),
{
    Error::new(
        owned("command failed").concat(place).concat(": ").concat(
            command_text(command).as_str(),
        ).concat(" (exit code: ").concat(code_text(code).as_str()).concat(")\nstderr: ").concat(
            trim(lossy(stderr.as_slice()).as_str()).as_str(),
        ),
    )
}

/// Why a command could not be started.
pub open spec fn unstarted_spec(command: CommandLine, reason: Seq<char>) -> Seq<char> {
    error::with_cause("failed to execute "@ + line_text(command), reason)
}

fn unstarted(command: &Command, reason: &str) -> (error: Error)
    ensures
        error@ == unstarted_spec(command@, reason@),
{
    caused(owned("failed to execute ").concat(command_text(command).as_str()), reason)
}

fn note(recorder: Recorder, heading: &str, output: &Output) -> (result: Recorder)
    ensures
        result@ == recorder@.noted(
            vstd::utf8::encode_utf8(heading@),
            output.stdout@,
            output.stderr@,
        ),
{
    if recorder.streaming {
        return recorder;
    }
    match recorder.transcript {
        Some(transcript) => {
            let stdout = append(
                append(transcript.stdout, heading.as_bytes()),
                output.stdout.as_slice(),
            );
            let stderr = append(transcript.stderr, output.stderr.as_slice());
            Recorder {
                streaming: recorder.streaming,
                transcript: Some(Transcript { stdout, stderr }),
                pending: recorder.pending,
            }
        },
        None => Recorder {
            streaming: recorder.streaming,
            transcript: None,
            pending: recorder.pending,
        },
    }
}

/// What comes of a command: what it left, if it succeeded, or else why it failed.
pub open spec fn run_spec(
    place: Seq<char>,
    command: CommandLine,
    execution: Execution,
) -> Result<Output, Seq<char>> {
    match execution {
        Execution::Unopened(reason) => Err(reason@),
        Execution::Unstarted(reason) => Err(unstarted_spec(command, reason@)),
        Execution::Broken(reason) => Err(reason@),
        Execution::Finished(output) => if output.code == Some(0i32) {
            Ok(output)
        } else {
            Err(failure_spec(place, command, output.code, output.stderr@))
        },
    }
}

/// The record after a command: where it ran to its end, what it printed is noted.
pub open spec fn run_record(record: Record, heading: Seq<char>, execution: Execution) -> Record {
    match execution {
        Execution::Finished(output) => record.noted(
            vstd::utf8::encode_utf8(heading),
            output.stdout@,
            output.stderr@,
        ),
        _ => record,
    }
}

fn conclude(place: &str, command: &Command, execution: Execution) -> (result: Result<Output, Error>)
    ensures
        error::outcome(result) == run_spec(place@, command@, execution),
{
    match execution {
        Execution::Unopened(reason) => Err(Error::new(reason)),
        Execution::Unstarted(reason) => Err(unstarted(command, reason.as_str())),
        Execution::Broken(reason) => Err(Error::new(reason)),
        Execution::Finished(output) => {
            let good = match output.code {
                Some(code) => code == 0,
                None => false,
            };
            if good {
                Ok(output)
            } else {
                Err(failure(place, command, output.code, &output.stderr))
            }
        },
    }
}

fn record(recorder: Recorder, heading: &str, execution: &Execution) -> (result: Recorder)
    ensures
        result@ == run_record(recorder@, heading@, *execution),
{
    match execution {
        Execution::Finished(output) => note(recorder, heading, output),
        _ => recorder,
    }
}

/// How a command is headed in a transcript.
pub open spec fn heading_spec(command: CommandLine) -> Seq<char> {
    "$ "@ + line_text(command) + "\n"@
}

/// Concludes the run of a command.
pub fn run(recorder: Recorder, command: &Command, execution: Execution) -> (result: (
    Result<Output, Error>,
    Recorder,
))
    ensures
        error::outcome(result.0) == run_spec(""@, command@, execution),
        result.1@ == run_record(recorder@, heading_spec(command@), execution),
{
    let heading = owned("$ ").concat(command_text(command).as_str()).concat("\n");
    let after = record(recorder, heading.as_str(), &execution);
    (conclude("", command, execution), after)
}

/// Concludes the run of a command that was given an input.
pub fn run_with_stdin(recorder: Recorder, command: &Command, execution: Execution) -> (result: (
    Result<Output, Error>,
    Recorder,
))
    ensures
        error::outcome(result.0) == run_spec(""@, command@, execution),
        result.1@ == run_record(recorder@, heading_spec(command@), execution),
{
    run(recorder, command, execution)
}

/// How a command is headed in a transcript that ran in a directory.
pub open spec fn directory_heading(command: CommandLine, directory: Seq<char>) -> Seq<char> {
    "$ (cd "@ + directory + " && "@ + line_text(command) + ")\n"@
}

/// Where a command is said to have failed: its directory, unless someone listened.
pub open spec fn failed_place(streaming: bool, directory: Seq<char>) -> Seq<char> {
    if streaming {
        ""@
    } else {
        " in "@ + directory
    }
}

/// Concludes the run of a command in a directory.
pub fn run_in_dir(
    recorder: Recorder,
    command: &Command,
    directory: &str,
    execution: Execution,
) -> (result: (Result<Output, Error>, Recorder))
    ensures
        error::outcome(result.0) == run_spec(
            failed_place(recorder@.streaming, directory@),
            command@,
            execution,
        ),
        result.1@ == run_record(recorder@, directory_heading(command@, directory@), execution),
{
    let heading = owned("$ (cd ").concat(directory).concat(" && ").concat(
        command_text(command).as_str(),
    ).concat(")\n");
    let place = if recorder.streaming {
        owned("")
    } else {
        owned(" in ").concat(directory)
    };
    let after = record(recorder, heading.as_str(), &execution);
    (conclude(place.as_str(), command, execution), after)
}

/// Concludes the run of a command whose output went to a file.
pub fn run_stdout_to_file(command: &Command, path: &str, execution: Execution) -> (result: Result<
    (),
    Error,
>)
    ensures
        match (execution, result) {
            (Execution::Unopened(reason), Err(error)) => error@ == error::with_cause(
                "failed to open "@ + path@,
                reason@,
            ),
            (Execution::Unopened(_), Ok(_)) => false,
            (_, Ok(_)) => run_spec(""@, command@, execution) is Ok,
            (_, Err(error)) => run_spec(""@, command@, execution) == Err::<Output, Seq<char>>(
                error@,
            ),
        },
{
    match execution {
        Execution::Unopened(reason) => Err(
            caused(owned("failed to open ").concat(path), reason.as_str()),
        ),
        other => match conclude("", command, other) {
            Ok(_) => Ok(()),
            Err(error) => Err(error),
        },
    }
}

/// What the failure of a command is called whose output went to a log.
pub open spec fn logged_failure(command: CommandLine, code: Option<i32>, log: Seq<char>) -> Seq<
    char,
> {
    "command failed: "@ + line_text(command) + " (exit code: "@ + code_spec(code) + "); see "@ + log
}

/// Concludes the run of a command whose output went to a log.
pub fn run_append_log(command: &Command, log: &str, execution: Execution) -> (result: Result<
    (),
    Error,
>)
    ensures
        match (execution, result) {
            (Execution::Unopened(reason), Err(error)) => error@ == error::with_cause(
                "failed to open log "@ + log@,
                reason@,
            ),
            (Execution::Unstarted(reason), Err(error)) => error@ == unstarted_spec(
                command@,
                reason@,
            ),
            (Execution::Broken(reason), Err(error)) => error@ == reason@,
            (Execution::Finished(output), Err(error)) => output.code != Some(0i32) && error@
                == logged_failure(command@, output.code, log@),
            (Execution::Finished(output), Ok(_)) => output.code == Some(0i32),
            _ => false,
        },
{
    match execution {
        Execution::Unopened(reason) => Err(
            caused(owned("failed to open log ").concat(log), reason.as_str()),
        ),
        Execution::Unstarted(reason) => Err(unstarted(command, reason.as_str())),
        Execution::Broken(reason) => Err(Error::new(reason)),
        Execution::Finished(output) => {
            let good = match output.code {
                Some(code) => code == 0,
                None => false,
            };
            if good {
                Ok(())
            } else {
                Err(
                    Error::new(
                        owned("command failed: ").concat(command_text(command).as_str()).concat(
                            " (exit code: ",
                        ).concat(code_text(output.code).as_str()).concat("); see ").concat(log),
                    ),
                )
            }
        },
    }
}

/// While someone listens the transcript stays as it is; while no one does, no event is
/// waiting for a listener that was not waiting before.
pub proof fn law_output_goes_one_way(record: Record, event: Event, heading: Seq<u8>, stdout: Seq<u8>, stderr: Seq<u8>)
    ensures
        record.streaming ==> record.noted(heading, stdout, stderr) == record,
        !record.streaming ==> record.told(event) == record,
{
}

/// A command succeeds exactly if it ran to its end with status zero, and then gives back what
/// it printed. Otherwise the error tells the command with its arguments, and where it ran, the
/// status and what it wrote to its standard error.
#[verifier::spinoff_prover]
#[verifier::rlimit(40)]
pub proof fn law_commands_succeed_with_status_zero(
    place: Seq<char>,
    command: CommandLine,
    execution: Execution,
)
    ensures
        ({
            let result = run_spec(place, command, execution);
            let line = command.program + " "@ + text::join_spec(command.args, " "@);
            &&& result is Ok <==> execution is Finished && execution->Finished_0.code == Some(0i32)
            &&& result is Ok ==> result->Ok_0 == execution->Finished_0
            &&& execution is Finished && result is Err ==> {
                &&& text::starts_with_spec(result->Err_0, "command failed"@ + place + ": "@ + line)
                &&& text::ends_with_spec(
                    result->Err_0,
                    ")\nstderr: "@ + text::trim_spec(
                        text::lossy_spec(execution->Finished_0.stderr@),
                    ),
                )
                &&& execution->Finished_0.code matches Some(code) ==> text::contains_spec(
                    result->Err_0,
                    "(exit code: Some("@ + text::signed_spec(code as int) + "))"@,
                )
                &&& execution->Finished_0.code is None ==> text::contains_spec(
                    result->Err_0,
                    "(exit code: None)"@,
                )
            }
            &&& execution matches Execution::Unstarted(reason) ==> text::contains_spec(
                result->Err_0,
                "failed to execute "@ + line,
            )
            &&& execution matches Execution::Broken(reason) ==> result == Err::<Output, Seq<char>>(
                reason@,
            )
        }),
{
    broadcast use text::group_texts_within;

    let line = line_text(command);
    if let Execution::Finished(output) = execution {
        let front = "command failed"@ + place + ": "@ + line;
        let code = code_spec(output.code);
        let printed = text::trim_spec(text::lossy_spec(output.stderr@));
        let whole = failure_spec(place, command, output.code, output.stderr@);
        let end = ")\nstderr: "@ + printed;
        assert(whole.take(front.len() as int) =~= front);
        assert(whole.skip(whole.len() - end.len()) =~= end);
        reveal_strlit(" (exit code: ");
        reveal_strlit("(exit code: ");
        reveal_strlit(")\nstderr: ");
        reveal_strlit(")");
        reveal_strlit("Some(");
        reveal_strlit("None");
        reveal_strlit("(exit code: Some(");
        reveal_strlit("))");
        reveal_strlit("(exit code: None)");
        let a = front + " (exit code: "@;
        assert(a.skip(a.len() - 12) =~= "(exit code: "@);
        assert(")\nstderr: "@.take(1) =~= ")"@);
        text::lemma_contains_across(a, code, ")\nstderr: "@, "(exit code: "@, ")"@);
        match output.code {
            Some(number) => {
                assert("(exit code: "@ + code + ")"@ =~= "(exit code: Some("@ + text::signed_spec(
                    number as int,
                ) + "))"@);
            },
            None => {
                assert("(exit code: "@ + code + ")"@ =~= "(exit code: None)"@);
            },
        }
    }
}

/// A command that runs in a directory is told with the directory, and every command that is
/// recorded is told with its arguments, on a line of its own behind a dollar sign.
pub proof fn law_commands_are_told(command: CommandLine, directory: Seq<char>)
    ensures
        ({
            let line = command.program + " "@ + text::join_spec(command.args, " "@);
            &&& heading_spec(command) == "$ "@ + line + "\n"@
            &&& text::starts_with_spec(directory_heading(command, directory), "$ (cd "@ + directory)
            &&& text::contains_spec(directory_heading(command, directory), line)
            &&& text::ends_with_spec(directory_heading(command, directory), ")\n"@)
            &&& text::ends_with_spec(failed_place(false, directory), directory)
            &&& failed_place(true, directory) == ""@
        }),
{
    broadcast use text::group_texts_within;

    let heading = directory_heading(command, directory);
    let front = "$ (cd "@ + directory;
    assert(heading.take(front.len() as int) =~= front);
    assert(heading.skip(heading.len() - ")\n"@.len()) =~= ")\n"@);
    assert(failed_place(false, directory).skip(" in "@.len() as int) =~= directory);
}

/// What is recorded of a command that ran is its line and its output behind what was there; a
/// command that did not run leaves no trace, and neither does one whose output someone listens
/// to.
pub proof fn law_runs_are_recorded(record: Record, heading: Seq<char>, execution: Execution)
    ensures
        ({
            let after = run_record(record, heading, execution);
            &&& after.streaming == record.streaming && after.pending == record.pending
            &&& !(execution is Finished) || record.streaming || record.kept is None ==> after
                == record
            &&& execution is Finished && !record.streaming && record.kept is Some ==> after.kept
                == Some(
                (
                    record.kept->Some_0.0 + vstd::utf8::encode_utf8(heading)
                        + execution->Finished_0.stdout@,
                    record.kept->Some_0.1 + execution->Finished_0.stderr@,
                ),
            )
        }),
{
}

/// A message, a command and output are told apart, and what is told comes behind what was told
/// before; without a listener nothing is told.
pub proof fn law_events_are_in_order(
    record: Record,
    message: Seq<char>,
    command: CommandLine,
    data: Seq<u8>,
)
    ensures
        record.streaming ==> record.told(message_of(message)).pending == record.pending.push(
            message_of(message),
        ),
        !record.streaming ==> record.told(message_of(message)) == record,
        message_of(message).stream == CommandStream::Message,
        message_of(message).data == vstd::utf8::encode_utf8(message),
        command_of(command).stream == CommandStream::Command,
        command_of(command).program == command.program && command_of(command).args == command.args,
        output_of(data, true).stream == CommandStream::Stdout && output_of(data, true).data == data,
        output_of(data, false).stream == CommandStream::Stderr && output_of(data, false).data
            == data,
{
}

/// A failure tells what failed: the program, how it ended and where its output lies, or why
/// it could not be begun at all.
pub proof fn law_failures_name_the_command(
    command: CommandLine,
    code: Option<i32>,
    log: Seq<char>,
    reason: Seq<char>,
)
    ensures
        text::contains_spec(logged_failure(command, code, log), command.program),
        code matches Some(code) ==> text::contains_spec(
            logged_failure(command, Some(code), log),
            text::signed_spec(code as int),
        ),
        text::ends_with_spec(logged_failure(command, code, log), log),
        text::contains_spec(unstarted_spec(command, reason), command.program),
        text::ends_with_spec(unstarted_spec(command, reason), reason),
{
    broadcast use text::group_texts_within;

    let logged = logged_failure(command, code, log);
    assert(logged.skip(logged.len() - log.len()) =~= log);
    let unstarted = unstarted_spec(command, reason);
    assert(unstarted.skip(unstarted.len() - reason.len()) =~= reason);
}

} // verus!
