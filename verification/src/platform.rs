//! Decisions at the edge to the operating system: how the service is launched and controlled, and
//! what it accepts from the system.

use vstd::prelude::*;

use crate::identity;
use crate::logging;
use crate::model;
use crate::model::ServiceState;
use crate::snapshot;
use crate::text;

verus! {

// ---------------------------------------------------------------------------------------------
// Launch
// ---------------------------------------------------------------------------------------------

/// Whether an argument is an option.
pub open spec fn is_option(argument: Seq<char>) -> bool {
    "--"@.is_prefix_of(argument)
}

fn starts_option(argument: &str) -> (is: bool)
    ensures
        is == is_option(argument@),
{
    let chars = text::to_chars(argument);
    let prefix = text::to_chars("--");
    text::starts_with(chars.as_slice(), prefix.as_slice())
}

/// The arguments without the name of the service that may come first.
pub open spec fn options_of(arguments: Seq<Seq<char>>) -> Seq<Seq<char>> {
    if arguments.len() > 0 && !is_option(arguments[0]) {
        arguments.skip(1)
    } else {
        arguments
    }
}

/// Drops the name of the service that may come before the options.
pub fn runtime_options(arguments: Vec<String>) -> (options: Vec<String>)
    ensures
        options.deep_view() == options_of(arguments.deep_view()),
{
    let ghost views = arguments.deep_view();
    let mut options = arguments;
    if options.len() > 0 && !starts_option(options[0].as_str()) {
        let _name = options.remove(0);
        proof {
            assert(options.deep_view() =~= views.skip(1));
        }
    }
    options
}

/// Why the name that the system calls the service by is refused, if it is: it is another one than
/// the service was registered under. An option is not a name.
pub open spec fn callback_refusal(callback: Option<Seq<char>>, service_name: Seq<char>) -> Option<
    Seq<char>,
> {
    match callback {
        Some(name) => if !is_option(name) && name != service_name {
            Some(
                "service callback name "@ + name + " does not match registered service "@
                    + service_name,
            )
        } else {
            None
        },
        None => None,
    }
}

/// Refuses a service that the system calls by another name than it was registered under.
pub fn check_callback_name(callback: &Option<String>, service_name: &str) -> (refusal: Option<
    String,
>)
    ensures
        refusal.deep_view() == callback_refusal(callback.deep_view(), service_name@),
{
    match callback {
        None => None,
        Some(name) => {
            if starts_option(name.as_str()) || text::same_text(name.as_str(), service_name) {
                return None;
            }
            let mut message = text::join3(
                "service callback name ",
                name.as_str(),
                " does not match registered service ",
            );
            message.append(service_name);
            Some(message)
        },
    }
}

// ---------------------------------------------------------------------------------------------
// Control
// ---------------------------------------------------------------------------------------------

/// What the service control manager asks for.
#[derive(Clone, Copy, Debug, PartialEq, Eq, Structural)]
pub enum ControlRequest {
    Interrogate,
    Stop,
    Other,
}

/// What the service does about it.
#[derive(Clone, Copy, Debug, PartialEq, Eq, Structural)]
pub struct ControlReply {
    /// Whether the request is one that the service implements.
    pub implemented: bool,
    /// Whether the service is to stop.
    pub stop: bool,
}

/// Decides what the service does about a request of the service control manager.
pub fn handle_control(request: ControlRequest) -> (reply: ControlReply)
    ensures
        reply.implemented == (request != ControlRequest::Other),
        reply.stop == (request == ControlRequest::Stop),
{
    match request {
        ControlRequest::Interrogate => ControlReply { implemented: true, stop: false },
        ControlRequest::Stop => ControlReply { implemented: true, stop: true },
        ControlRequest::Other => ControlReply { implemented: false, stop: false },
    }
}

/// What the service reports to be doing.
#[derive(Clone, Copy, Debug, PartialEq, Eq, Structural)]
pub enum RunState {
    StartPending,
    Running,
    Stopped,
}

/// Whether the service accepts to be stopped: only while it runs.
pub fn service_controls_for(state: RunState) -> (accepts_stop: bool)
    ensures
        accepts_stop == (state == RunState::Running),
{
    match state {
        RunState::Running => true,
        RunState::StartPending => false,
        RunState::Stopped => false,
    }
}

/// The names of the files and directories, under the data directory, whose access is restricted
/// at startup.
pub open spec fn runtime_artifact_names() -> Seq<Seq<char>> {
    seq![
        "settings.toml"@,
        "state.toml"@,
        "state-hmac-key.bin"@,
        "operations.jsonl"@,
        "logs"@,
    ]
}

/// Lists the files and directories whose access is restricted at startup.
pub fn runtime_artifacts() -> (names: Vec<String>)
    ensures
        names.deep_view() == runtime_artifact_names(),
{
    let mut names: Vec<String> = Vec::new();
    names.push("settings.toml".to_owned());
    names.push("state.toml".to_owned());
    names.push("state-hmac-key.bin".to_owned());
    names.push("operations.jsonl".to_owned());
    names.push("logs".to_owned());
    proof {
        assert(names.deep_view() =~= runtime_artifact_names());
    }
    names
}

/// The log files, among the entries of the directory for logs, whose access is restricted too.
pub open spec fn restricted_log_names(entries: Seq<(Seq<char>, bool)>) -> Seq<Seq<char>>
    decreases entries.len(),
{
    if entries.len() == 0 {
        Seq::empty()
    } else {
        let before = restricted_log_names(entries.drop_last());
        if entries.last().1 && logging::names_service_log(entries.last().0) {
            before.push(entries.last().0)
        } else {
            before
        }
    }
}

/// Lists the log files whose access is restricted at startup. Each entry of the directory for logs
/// comes with whether it is a regular file.
pub fn restricted_logs(entries: &Vec<(String, bool)>) -> (names: Vec<String>)
    ensures
        names.deep_view() == restricted_log_names(entries.deep_view()),
{
    let ghost views = entries.deep_view();
    let mut names: Vec<String> = Vec::new();
    let mut index: usize = 0;
    proof {
        assert(names.deep_view() =~= Seq::empty());
        assert(views.take(0) =~= Seq::empty());
    }
    while index < entries.len()
        invariant
            index <= entries@.len(),
            views == entries.deep_view(),
            names.deep_view() == restricted_log_names(views.take(index as int)),
        decreases entries.len() - index,
    {
        let ghost before = names.deep_view();
        proof {
            assert(views.take(index as int + 1).drop_last() =~= views.take(index as int));
            assert(views.take(index as int + 1).last() == views[index as int]);
        }
        if entries[index].1 && logging::is_service_log(entries[index].0.as_str()) {
            names.push(entries[index].0.clone());
            proof {
                assert(names.deep_view() =~= before.push(views[index as int].0));
            }
        }
        index += 1;
    }
    proof {
        assert(views.take(views.len() as int) =~= views);
    }
    names
}

// ---------------------------------------------------------------------------------------------
// Processes
// ---------------------------------------------------------------------------------------------

/// Whether a text can name a mutex.
pub open spec fn mutex_name(name: Seq<char>) -> bool {
    name.len() > 0 && !name.contains('\0')
}

/// A text that cannot name a mutex.
#[derive(Clone, Copy, Debug, PartialEq, Eq, Structural)]
pub struct InvalidMutexName;

impl InvalidMutexName {
    /// Describes the error.
    pub fn message(&self) -> (message: String)
        ensures
            message@ == "mutex name must not be empty or contain NUL bytes"@,
    {
        "mutex name must not be empty or contain NUL bytes".to_owned()
    }
}

/// Refuses a text that cannot name a mutex.
pub fn check_mutex_name(name: &str) -> (result: Result<(), InvalidMutexName>)
    ensures
        result is Ok <==> mutex_name(name@),
{
    let chars = text::to_chars(name);
    let length: usize = chars.len();
    if length == 0 {
        return Err(InvalidMutexName);
    }
    proof {
        text::lemma_find_from(name@, '\0', 0);
    }
    if text::find_char(chars.as_slice(), '\0', 0) < length {
        return Err(InvalidMutexName);
    }
    Ok(())
}

/// How far the question whether a process has ended is answered.
#[derive(Clone, Copy, Debug, PartialEq, Eq, Structural)]
pub enum OwnerProbe {
    /// The process is to be opened.
    Open,
    /// Its exit code is to be read.
    ReadExitCode,
    /// It is to be closed.
    Close { dead: bool },
    /// The answer.
    Done { dead: bool },
}

/// What the system answers.
#[derive(Clone, Copy, Debug, PartialEq, Eq, Structural)]
pub enum OwnerAnswer {
    Opened,
    /// The process cannot be opened; `code` is the result code that says why.
    NotOpened { code: i32 },
    ExitCode { code: u32 },
    Unreadable,
    Closed,
}

/// The result code by which the system says that no process has the identifier: Win32's invalid
/// parameter, `0x80070057`.
pub const INVALID_PARAMETER: i32 = -2147024809;

/// Whether a process could not be opened because there is none.
pub fn is_invalid_pid_error(code: i32) -> (invalid: bool)
    ensures
        invalid == (code == INVALID_PARAMETER),
{
    code == INVALID_PARAMETER
}

/// The next step. A process has ended when there is none, or when it has an exit code; where that
/// is not certain, it has not ended.
pub open spec fn probe_after(step: OwnerProbe, answer: OwnerAnswer) -> OwnerProbe {
    match (step, answer) {
        (OwnerProbe::Open, OwnerAnswer::Opened) => OwnerProbe::ReadExitCode,
        (OwnerProbe::Open, OwnerAnswer::NotOpened { code }) => OwnerProbe::Done {
            dead: code == INVALID_PARAMETER,
        },
        (OwnerProbe::ReadExitCode, OwnerAnswer::ExitCode { code }) => OwnerProbe::Close {
            dead: code != identity::STILL_ACTIVE,
        },
        (OwnerProbe::ReadExitCode, OwnerAnswer::Unreadable) => OwnerProbe::Close { dead: false },
        (OwnerProbe::Close { dead }, OwnerAnswer::Closed) => OwnerProbe::Done { dead },
        (other, _) => other,
    }
}

/// Takes the next step to find out whether a process has ended. An answer that was not asked for
/// changes nothing.
pub fn owner_is_dead(step: OwnerProbe, answer: OwnerAnswer) -> (next: OwnerProbe)
    ensures
        next == probe_after(step, answer),
{
    match (step, answer) {
        (OwnerProbe::Open, OwnerAnswer::Opened) => OwnerProbe::ReadExitCode,
        (OwnerProbe::Open, OwnerAnswer::NotOpened { code }) => OwnerProbe::Done {
            dead: is_invalid_pid_error(code),
        },
        (OwnerProbe::ReadExitCode, OwnerAnswer::ExitCode { code }) => OwnerProbe::Close {
            dead: code != identity::STILL_ACTIVE,
        },
        (OwnerProbe::ReadExitCode, OwnerAnswer::Unreadable) => OwnerProbe::Close { dead: false },
        (OwnerProbe::Close { dead }, OwnerAnswer::Closed) => OwnerProbe::Done { dead },
        (other, _) => other,
    }
}

/// The step that a row of answers leads to.
pub open spec fn probe_run(answers: Seq<OwnerAnswer>) -> OwnerProbe
    decreases answers.len(),
{
    if answers.len() == 0 {
        OwnerProbe::Open
    } else {
        probe_after(probe_run(answers.drop_last()), answers.last())
    }
}

/// A process that was opened is closed before the answer is given: whoever finds the question
/// answered was asked, after the exit code was read, to close the process.
pub proof fn opened_processes_are_closed(answers: Seq<OwnerAnswer>, opened: int)
    requires
        0 <= opened < answers.len(),
        probe_run(answers.take(opened)) is ReadExitCode,
        probe_run(answers) is Done,
    ensures
        exists|closed: int|
            opened < closed < answers.len() && #[trigger] probe_run(answers.take(closed)) is Close
                && answers[closed] is Closed,
    decreases answers.len(),
{
    let before = answers.drop_last();
    let last = answers.len() - 1;
    assert(before == answers.take(last));
    assert(before.take(opened) == answers.take(opened));
    if probe_run(before) is Done {
        if opened < last {
            opened_processes_are_closed(before, opened);
            let closed = choose|closed: int|
                opened < closed < before.len() && #[trigger] probe_run(before.take(closed)) is Close
                    && before[closed] is Closed;
            assert(before.take(closed) == answers.take(closed));
        }
    } else if probe_run(before) is Open {
        reopened(before, opened);
    }
}

/// A process is opened once only.
proof fn reopened(answers: Seq<OwnerAnswer>, opened: int)
    requires
        0 <= opened <= answers.len(),
        probe_run(answers.take(opened)) is ReadExitCode,
    ensures
        !(probe_run(answers) is Open),
    decreases answers.len(),
{
    if opened == answers.len() {
        assert(answers.take(opened) == answers);
    } else {
        let before = answers.drop_last();
        assert(before.take(opened) == answers.take(opened));
        reopened(before, opened);
    }
}

/// Decides whether a process is elevated. `answer` is what the system gave, if it gave anything:
/// how many bytes it wrote, and the flag.
pub fn is_elevated(answer: Option<(u32, u32)>) -> (elevated: bool)
    ensures
        elevated == (answer matches Some(given) && given.0 >= 4 && given.1 != 0),
{
    match answer {
        Some((length, flag)) => length >= 4 && flag != 0,
        None => false,
    }
}

// ---------------------------------------------------------------------------------------------
// Secrets and state
// ---------------------------------------------------------------------------------------------

/// Gives the length of data for the protection of secrets, unless it is too large.
pub fn data_blob_length(length: usize) -> (result: Option<u32>)
    ensures
        match result {
            Some(size) => size == length,
            None => length > u32::MAX,
        },
{
    if length > u32::MAX as usize {
        None
    } else {
        Some(length as u32)
    }
}

/// The length of the key that the state is signed with.
pub const STATE_KEY_LENGTH: usize = 32;

/// A key of another length.
#[derive(Clone, Copy, Debug, PartialEq, Eq, Structural)]
pub struct InvalidStateKey;

impl InvalidStateKey {
    /// Describes the error.
    pub fn message(&self) -> (message: String)
        ensures
            message@ == "state HMAC key has invalid length"@,
    {
        "state HMAC key has invalid length".to_owned()
    }
}

/// Admits a stored key for the signature of the state.
pub fn admit_state_key(key: Vec<u8>) -> (result: Result<Vec<u8>, InvalidStateKey>)
    ensures
        match result {
            Ok(admitted) => admitted@ == key@ && key@.len() == STATE_KEY_LENGTH,
            Err(_) => key@.len() != STATE_KEY_LENGTH,
        },
{
    if key.len() != STATE_KEY_LENGTH {
        return Err(InvalidStateKey);
    }
    Ok(key)
}

/// A state whose signature does not match.
#[derive(Clone, Copy, Debug, PartialEq, Eq, Structural)]
pub struct UnauthenticatedState;

impl UnauthenticatedState {
    /// Describes the error.
    pub fn message(&self) -> (message: String)
        ensures
            message@ == "service state authentication failed"@,
    {
        "service state authentication failed".to_owned()
    }
}

/// Admits the stored state, if there is one and its signature matches; a service that has none
/// starts from nothing.
pub fn load_state(stored: Option<(ServiceState, bool)>) -> (result: Result<
    ServiceState,
    UnauthenticatedState,
>)
    ensures
        match stored {
            None => result is Ok && result->Ok_0.deep_view() == model::empty_state(),
            Some((state, authentic)) => if authentic {
                result == Ok::<ServiceState, UnauthenticatedState>(state)
            } else {
                result is Err
            },
        },
        stored is None ==> snapshot::valid_state(result->Ok_0.deep_view()),
{
    match stored {
        None => Ok(ServiceState::default()),
        Some((state, authentic)) => if authentic {
            Ok(state)
        } else {
            Err(UnauthenticatedState)
        },
    }
}

/// A process is dead only if it cannot be opened because there is none, or has given an exit code
/// other than that of a running one; whatever else goes wrong, it counts as alive.
pub proof fn only_ended_processes_are_dead(code: i32, exit: u32)
    ensures
        probe_after(OwnerProbe::Open, OwnerAnswer::NotOpened { code }) == (OwnerProbe::Done {
            dead: code == 0x8007_0057 - 0x1_0000_0000,
        }),
        ({
            let opened = probe_after(OwnerProbe::Open, OwnerAnswer::Opened);
            let read = probe_after(opened, OwnerAnswer::ExitCode { code: exit });
            let unreadable = probe_after(opened, OwnerAnswer::Unreadable);
            &&& read is Close
            &&& unreadable is Close
            &&& probe_after(read, OwnerAnswer::Closed) == (OwnerProbe::Done { dead: exit != 259 })
            &&& probe_after(unreadable, OwnerAnswer::Closed) == (OwnerProbe::Done { dead: false })
        }),
{
}

/// The options of a run are its arguments, without a leading service name, if there is one.
pub proof fn options_follow_the_service_name(name: Seq<char>, options: Seq<Seq<char>>)
    ensures
        !is_option(name) ==> options_of(seq![name] + options) == options,
        options.len() > 0 && is_option(options[0]) ==> options_of(options) == options,
        options_of(Seq::empty()) == Seq::<Seq<char>>::empty(),
        is_option(name) <==> name.len() >= 2 && name[0] == '-' && name[1] == '-',
{
    assert((seq![name] + options).skip(1) =~= options);
    reveal_strlit("--");
    if is_option(name) {
        assert(name[0] == "--"@[0]);
        assert(name[1] == "--"@[1]);
    }
    if name.len() >= 2 && name[0] == '-' && name[1] == '-' {
        assert(name.take(2) =~= "--"@);
    }
}

/// A service that is called by a name is refused exactly if that is not its own; an option in place
/// of a name, and no name at all, are no reason to refuse.
pub proof fn only_foreign_names_are_refused(name: Seq<char>, service_name: Seq<char>)
    ensures
        callback_refusal(None, service_name) is None,
        callback_refusal(Some(service_name), service_name) is None,
        is_option(name) ==> callback_refusal(Some(name), service_name) is None,
        !is_option(name) && name != service_name ==> callback_refusal(Some(name), service_name)
            is Some,
{
}

/// The logs whose access is restricted are the files that are logs of the service, and nothing
/// else.
pub proof fn restricted_logs_are_service_log_files(
    entries: Seq<(Seq<char>, bool)>,
    name: Seq<char>,
)
    ensures
        restricted_log_names(entries).contains(name) <==> logging::names_service_log(name)
            && entries.contains((name, true)),
    decreases entries.len(),
{
    if entries.len() > 0 {
        let shorter = entries.drop_last();
        let before = restricted_log_names(shorter);
        restricted_logs_are_service_log_files(shorter, name);
        assert(entries =~= shorter.push(entries.last()));
        vstd::seq_lib::lemma_seq_contains_after_push(shorter, entries.last(), (name, true));
        let (last, file) = entries.last();
        vstd::seq_lib::lemma_seq_contains_after_push(before, last, name);
    }
}

/// A name for a mutex has something in it and no NUL in it.
pub proof fn mutex_names_can_be_passed_on(name: Seq<char>, index: int)
    requires
        mutex_name(name),
        0 <= index < name.len(),
    ensures
        name[index] != '\0',
{
    if name[index] == '\0' {
        assert(name.contains('\0'));
    }
}

} // verus!
