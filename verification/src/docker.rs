//! The container life cycle of one client: which `docker compose` commands
//! to run, what to make of their output, and how long to wait for the
//! client to listen. The commands themselves are run by the caller.

use vstd::prelude::*;
use crate::text::{
    all_white_space,
    contains_text,
    has_substring,
    lemma_trimmed,
    lossy_decoded,
    lossy_text,
    trim_text,
    trimmed,
    utf8_text,
};
use vstd::utf8::{decode_utf8, valid_utf8};

verus! {

/// What can go wrong with a client's containers.
#[derive(Debug, Clone, PartialEq, Eq)]
pub enum DockerError {
    /// The command ran and reported a failure.
    CommandFailed(String),
    /// The command could not be run.
    ExecutionFailed(String),
    /// The client did not listen in time.
    HealthCheckTimeout,
}

impl DockerError {
    /// The text that describes the error.
    pub open spec fn message_text(self) -> Seq<char> {
        match self {
            DockerError::CommandFailed(e) => "Docker command failed: "@ + e@,
            DockerError::ExecutionFailed(e) => "Failed to execute docker command: "@ + e@,
            DockerError::HealthCheckTimeout => "Health check timeout"@,
        }
    }

    /// Describes the error in words.
    pub fn message(&self) -> (text: String)
        ensures
            text@ == self.message_text(),
    {
        match self {
            DockerError::CommandFailed(e) => String::from_str("Docker command failed: ").concat(
                e.as_str(),
            ),
            DockerError::ExecutionFailed(e) => String::from_str(
                "Failed to execute docker command: ",
            ).concat(e.as_str()),
            DockerError::HealthCheckTimeout => String::from_str("Health check timeout"),
        }
    }
}

/// A command to run: the program, the directory to run it in, and its
/// arguments.
#[derive(Debug, Clone, PartialEq, Eq)]
pub struct ComposeCommand {
    pub program: String,
    pub current_dir: String,
    pub args: Vec<String>,
}

/// What a command left behind: whether it succeeded, and what it wrote.
#[derive(Debug, Clone, PartialEq, Eq)]
pub struct CommandOutput {
    pub success: bool,
    pub stdout: Vec<u8>,
    pub stderr: Vec<u8>,
}

/// How a line of a command's output is to be shown.
#[derive(Debug, Clone, Copy, PartialEq, Eq)]
pub enum LogLevel {
    /// What the command wrote to its standard output.
    Output,
    /// What it wrote to its standard error, where that speaks of no error.
    Notice,
    /// What it wrote to its standard error, where that speaks of an error.
    Error,
}

/// A line to log.
#[derive(Debug, Clone, PartialEq, Eq)]
pub struct LogLine {
    pub level: LogLevel,
    pub text: String,
}

/// The project name for a compose file with the given stem: `odometer-`
/// and the stem, or `odometer-client` where the file has no stem.
pub open spec fn project_name_text(stem: Option<Seq<char>>) -> Seq<char> {
    "odometer-"@ + match stem {
        Some(s) => s,
        None => "client"@,
    }
}

/// Calls `Path::file_stem` on `path`. What a path's stem is depends on the
/// platform's rules for paths, so nothing is said of the result.
#[verifier::external_body]
fn file_stem_of(path: &str) -> (stem: Option<String>) {
    std::path::Path::new(path).file_stem().and_then(|name| name.to_str()).map(|name| name.to_string())
}

/// Names the compose project of a file with the given stem.
pub fn project_name(stem: Option<&str>) -> (name: String)
    ensures
        name@ == project_name_text(
            match stem {
                Some(s) => Some(s@),
                None => None,
            },
        ),
{
    let prefix = String::from_str("odometer-");
    match stem {
        Some(s) => prefix.concat(s),
        None => prefix.concat("client"),
    }
}

/// The directory in which the compose files of the clients lie.
pub const CLIENTS_DIR: &'static str = "clients";

/// The program that runs every command.
pub const DOCKER: &'static str = "docker";

/// The arguments of `docker` for a compose file: `compose -f <file>` and
/// then `rest`.
pub open spec fn compose_args(compose_file: Seq<char>, rest: Seq<Seq<char>>) -> Seq<Seq<char>> {
    seq!["compose"@, "-f"@, compose_file] + rest
}

/// The arguments that start the services of a project, in the background.
pub open spec fn up_args(project: Seq<char>) -> Seq<Seq<char>> {
    seq!["-p"@, project, "up"@, "-d"@]
}

/// The arguments that stop the services of a project and remove its
/// volumes.
pub open spec fn down_args(project: Seq<char>) -> Seq<Seq<char>> {
    seq!["-p"@, project, "down"@, "--volumes"@]
}

/// The text of what a command wrote, without the white space around it, or
/// `fallback` where the bytes are not valid UTF-8.
pub open spec fn written_text(bytes: Seq<u8>, fallback: Seq<char>) -> Seq<char> {
    if valid_utf8(bytes) {
        trimmed(decode_utf8(bytes))
    } else {
        fallback
    }
}

/// The message for a command that failed: what it wrote to its standard
/// error, where that is anything, and what it wrote to its standard output.
pub open spec fn failure_message(stdout: Seq<u8>, stderr: Seq<u8>) -> Seq<char> {
    let errors = written_text(stderr, "Failed to parse error message"@);
    let output = written_text(stdout, "Failed to parse output"@);
    if errors.len() > 0 {
        errors + " | stdout: "@ + output
    } else {
        "Command failed without error message. stdout: "@ + output
    }
}

/// A command that failed and wrote nothing but white space to its standard
/// error is reported without an error message, and no other command is.
pub proof fn lemma_blank_errors_give_no_message(stdout: Seq<u8>, stderr: Seq<u8>)
    ensures
        (valid_utf8(stderr) && all_white_space(decode_utf8(stderr))) <==> failure_message(
            stdout,
            stderr,
        ) == "Command failed without error message. stdout: "@ + written_text(
            stdout,
            "Failed to parse output"@,
        ),
{
    reveal_strlit("Failed to parse error message");
    reveal_strlit(" | stdout: ");
    reveal_strlit("Command failed without error message. stdout: ");
    let errors = written_text(stderr, "Failed to parse error message"@);
    let output = written_text(stdout, "Failed to parse output"@);
    if valid_utf8(stderr) {
        lemma_trimmed(decode_utf8(stderr));
    }
    if errors.len() > 0 {
        let with = errors + " | stdout: "@ + output;
        let without = "Command failed without error message. stdout: "@ + output;
        assert(with.len() == errors.len() + 11 + output.len());
        assert(without.len() == 46 + output.len());
        if with == without {
            assert(errors.len() == 35);
            assert(with[35] == ' ');
            assert(without[35] == 'e');
        }
    }
}

/// Reads what a command wrote.
fn read_written(bytes: &[u8], fallback: &str) -> (text: String)
    ensures
        text@ == written_text(bytes@, fallback@),
{
    match utf8_text(bytes) {
        Some(text) => {
            proof {
                vstd::utf8::encode_utf8_decode_utf8(text@);
            }
            String::from_str(trim_text(text))
        },
        None => String::from_str(fallback),
    }
}

/// Judges the command that started a client: nothing to report where it
/// succeeded, and where it failed an error that tells what it wrote.
pub fn check_up(output: &CommandOutput) -> (outcome: Result<(), DockerError>)
    ensures
        output.success ==> outcome is Ok,
        !output.success ==> (outcome matches Err(DockerError::CommandFailed(message)) && message@
            == failure_message(output.stdout@, output.stderr@)),
{
    if output.success {
        return Ok(());
    }
    let errors = read_written(output.stderr.as_slice(), "Failed to parse error message");
    let written = read_written(output.stdout.as_slice(), "Failed to parse output");
    let message = if !errors.as_str().is_empty() {
        errors.concat(" | stdout: ").concat(written.as_str())
    } else {
        String::from_str("Command failed without error message. stdout: ").concat(
            written.as_str(),
        )
    };
    Err(DockerError::CommandFailed(message))
}

/// Judges the command that stopped a client, by its exit status alone.
pub fn check_down(success: bool) -> (outcome: Result<(), DockerError>)
    ensures
        success ==> outcome is Ok,
        !success ==> (outcome matches Err(DockerError::CommandFailed(message)) && message@
            == "docker-compose down failed"@),
{
    if success {
        Ok(())
    } else {
        Err(DockerError::CommandFailed(String::from_str("docker-compose down failed")))
    }
}

/// The word whose presence makes a line of the standard error an error.
pub const ERROR_WORD: &'static str = "error";

/// The level of what a command wrote to its standard error.
pub open spec fn stderr_level(text: Seq<char>) -> LogLevel {
    if has_substring(text, ERROR_WORD@) {
        LogLevel::Error
    } else {
        LogLevel::Notice
    }
}

/// The lines to log for what a command wrote: its standard output where it
/// wrote any, then its standard error where it wrote any, each without the
/// white space around it.
pub open spec fn output_lines(stdout: Seq<u8>, stderr: Seq<u8>) -> Seq<(LogLevel, Seq<char>)> {
    let first = if stdout.len() > 0 {
        seq![(LogLevel::Output, trimmed(lossy_decoded(stdout)))]
    } else {
        Seq::empty()
    };
    let second = if stderr.len() > 0 {
        seq![
            (stderr_level(trimmed(lossy_decoded(stderr))), trimmed(lossy_decoded(stderr))),
        ]
    } else {
        Seq::empty()
    };
    first + second
}

/// The lines of a log as plain values.
pub open spec fn lines_view(lines: Seq<LogLine>) -> Seq<(LogLevel, Seq<char>)> {
    lines.map_values(|line: LogLine| (line.level, line.text@))
}

/// Says what to log of a command's output.
pub fn log_output(output: &CommandOutput) -> (lines: Vec<LogLine>)
    ensures
        lines_view(lines@) == output_lines(output.stdout@, output.stderr@),
{
    let mut lines: Vec<LogLine> = Vec::new();
    if output.stdout.len() > 0 {
        let decoded = lossy_text(output.stdout.as_slice());
        let text = String::from_str(trim_text(decoded.as_str()));
        lines.push(LogLine { level: LogLevel::Output, text });
    }
    if output.stderr.len() > 0 {
        let decoded = lossy_text(output.stderr.as_slice());
        let text = String::from_str(trim_text(decoded.as_str()));
        let level = if contains_text(text.as_str(), ERROR_WORD) {
            LogLevel::Error
        } else {
            LogLevel::Notice
        };
        lines.push(LogLine { level, text });
    }
    assert(lines_view(lines@) =~= output_lines(output.stdout@, output.stderr@));
    lines
}

/// What happened last while waiting for a client.
#[derive(Debug, Clone, Copy, PartialEq, Eq)]
pub enum HealthEvent {
    /// The wait has begun.
    Started,
    /// The client answered a probe.
    ProbeAnswered,
    /// The client did not answer a probe.
    ProbeFailed,
    /// The pause after a failed probe is over.
    Slept,
}

/// What to do next while waiting for a client.
#[derive(Debug, PartialEq, Eq)]
pub enum HealthAction {
    /// Send a probe to the client.
    Probe,
    /// Pause for this many milliseconds.
    Sleep(u64),
    /// The wait is over: the client listens, or the time is up.
    Done(Result<(), DockerError>),
}

/// The pause between two probes, in milliseconds.
pub const PROBE_PAUSE_MILLIS: u64 = 500;

/// The number of nanoseconds in one second.
pub const NANOS_PER_SECOND: u128 = 1_000_000_000;

/// The next action of a wait that has lasted `elapsed_nanos` nanoseconds
/// and may last `timeout_secs` seconds. An answered probe ends the wait, a
/// failed one is followed by a pause, and a new probe is sent only while
/// the time is not up.
pub open spec fn health_action(event: HealthEvent, elapsed_nanos: u128, timeout_secs: u64)
    -> HealthAction {
    match event {
        HealthEvent::ProbeAnswered => HealthAction::Done(Ok(())),
        HealthEvent::ProbeFailed => HealthAction::Sleep(PROBE_PAUSE_MILLIS),
        _ => if elapsed_nanos < timeout_secs * NANOS_PER_SECOND {
            HealthAction::Probe
        } else {
            HealthAction::Done(Err(DockerError::HealthCheckTimeout))
        },
    }
}

/// The containers of one client, described by a compose file. The name of
/// the compose project is fixed when the value is made, so that every
/// command names the same project.
pub struct DockerCompose {
    compose_file: String,
    project_name: String,
}

impl DockerCompose {
    /// The compose file.
    pub closed spec fn file(&self) -> Seq<char> {
        self.compose_file@
    }

    /// The name of the compose project.
    pub closed spec fn project(&self) -> Seq<char> {
        self.project_name@
    }

    /// The containers that `compose_file` describes. The project is named
    /// after the stem of the file, or `odometer-client` where the file has
    /// none.
    pub fn new(compose_file: &str) -> (compose: Self)
        ensures
            compose.file() == compose_file@,
            exists|stem: Option<Seq<char>>| compose.project() == project_name_text(stem),
    {
        let stem = file_stem_of(compose_file);
        let name = match &stem {
            Some(s) => {
                let name = project_name(Some(s.as_str()));
                assert(name@ == project_name_text(Some(s@)));
                name
            },
            None => {
                let name = project_name(None);
                assert(name@ == project_name_text(None));
                name
            },
        };
        Self { compose_file: String::from_str(compose_file), project_name: name }
    }

    /// The name of the compose project.
    pub fn get_project_name(&self) -> (name: String)
        ensures
            name@ == self.project(),
    {
        self.project_name.clone()
    }

    /// The command that runs `docker compose` on the compose file with the
    /// arguments `args`, in the directory of the clients.
    pub fn run_command(&self, args: Vec<String>) -> (command: ComposeCommand)
        ensures
            command.program@ == DOCKER@,
            command.current_dir@ == CLIENTS_DIR@,
            command.args.deep_view() == compose_args(self.file(), args.deep_view()),
    {
        let mut all: Vec<String> = Vec::new();
        all.push(String::from_str("compose"));
        all.push(String::from_str("-f"));
        all.push(self.compose_file.clone());
        let mut rest = args;
        all.append(&mut rest);
        assert(all.deep_view() =~= compose_args(self.file(), args.deep_view()));
        ComposeCommand {
            program: String::from_str(DOCKER),
            current_dir: String::from_str(CLIENTS_DIR),
            args: all,
        }
    }

    /// The command that starts the client, under the project name of this
    /// value.
    pub fn up(&self) -> (command: ComposeCommand)
        ensures
            command.program@ == DOCKER@,
            command.current_dir@ == CLIENTS_DIR@,
            command.args.deep_view() == compose_args(self.file(), up_args(self.project())),
    {
        let project = self.get_project_name();
        let mut args: Vec<String> = Vec::new();
        args.push(String::from_str("-p"));
        args.push(project);
        args.push(String::from_str("up"));
        args.push(String::from_str("-d"));
        assert(args.deep_view() =~= up_args(project@));
        self.run_command(args)
    }

    /// Decides the next step of the wait for the client to listen.
    pub fn wait_for_healthy(&self, event: HealthEvent, elapsed_nanos: u128, timeout_secs: u64) -> (action:
        HealthAction)
        ensures
            action == health_action(event, elapsed_nanos, timeout_secs),
    {
        match event {
            HealthEvent::ProbeAnswered => HealthAction::Done(Ok(())),
            HealthEvent::ProbeFailed => HealthAction::Sleep(PROBE_PAUSE_MILLIS),
            _ => {
                let limit: u128 = timeout_secs as u128 * NANOS_PER_SECOND;
                if elapsed_nanos < limit {
                    HealthAction::Probe
                } else {
                    HealthAction::Done(Err(DockerError::HealthCheckTimeout))
                }
            },
        }
    }

    /// The command that stops the client and removes its volumes: it names
    /// the compose file and the project that `up` names.
    pub fn down(&self) -> (command: ComposeCommand)
        ensures
            command.program@ == DOCKER@,
            command.current_dir@ == CLIENTS_DIR@,
            command.args.deep_view() == compose_args(self.file(), down_args(self.project())),
    {
        let project = self.get_project_name();
        let mut args: Vec<String> = Vec::new();
        args.push(String::from_str("-p"));
        args.push(project);
        args.push(String::from_str("down"));
        args.push(String::from_str("--volumes"));
        assert(args.deep_view() =~= down_args(project@));
        self.run_command(args)
    }
}

} // verus!
