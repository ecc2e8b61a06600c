//! The commands that clients send and the responses that they get.

use vstd::prelude::*;

use crate::config::Settings;
use crate::config::SettingsView;
use crate::model::AssetSummary;
use crate::model::AssetSummaryView;
use crate::model::Duplicate;

verus! {

/// The longest line of the protocol, its newline included.
pub const IPC_MAX_LINE_BYTES: usize = 65536;

/// A command of a client.
#[derive(Clone, Debug, PartialEq, Eq)]
pub enum ServiceCommand {
    GetConfig,
    SetConfig { field: String, value: String },
    SetToken { value: String },
    GetStatus,
    GetStatusFull,
    TriggerSync,
    CheckinAll,
    CheckinSerial { serial: String },
}

/// What a client learns of one monitor.
#[derive(Clone, Debug, PartialEq, Eq)]
pub struct MonitorStatus {
    pub serial: String,
    pub asset_id: Option<u64>,
    pub checked_out: bool,
    pub absent_since: Option<String>,
}

/// The deep view of a [`MonitorStatus`].
#[verifier::ext_equal]
pub struct MonitorStatusView {
    pub serial: Seq<char>,
    pub asset_id: Option<u64>,
    pub checked_out: bool,
    pub absent_since: Option<Seq<char>>,
}

impl DeepView for MonitorStatus {
    type V = MonitorStatusView;

    open spec fn deep_view(&self) -> MonitorStatusView {
        MonitorStatusView {
            serial: self.serial@,
            asset_id: self.asset_id,
            checked_out: self.checked_out,
            absent_since: self.absent_since.deep_view(),
        }
    }
}

impl Duplicate for MonitorStatus {
    fn duplicate(&self) -> (copy: Self) {
        MonitorStatus {
            serial: self.serial.clone(),
            asset_id: self.asset_id,
            checked_out: self.checked_out,
            absent_since: self.absent_since.duplicate(),
        }
    }
}

/// A monitor that was checked in.
#[derive(Clone, Debug, PartialEq, Eq)]
pub struct CheckinEntry {
    pub serial: String,
    pub asset_id: u64,
}

/// The deep view of a [`CheckinEntry`].
#[verifier::ext_equal]
pub struct CheckinEntryView {
    pub serial: Seq<char>,
    pub asset_id: u64,
}

impl DeepView for CheckinEntry {
    type V = CheckinEntryView;

    open spec fn deep_view(&self) -> CheckinEntryView {
        CheckinEntryView { serial: self.serial@, asset_id: self.asset_id }
    }
}

impl Duplicate for CheckinEntry {
    fn duplicate(&self) -> (copy: Self) {
        CheckinEntry { serial: self.serial.clone(), asset_id: self.asset_id }
    }
}

/// A response to a client.
#[derive(Clone, Debug, PartialEq, Eq)]
pub enum IpcResponse {
    Done { message: String },
    Error { message: String },
    Config { settings: Settings, missing: Vec<String> },
    Status {
        state: String,
        last_sync: Option<String>,
        next_sync: Option<String>,
        snipeit_url: String,
    },
    StatusFull {
        state: String,
        last_sync: Option<String>,
        next_sync: Option<String>,
        snipeit_url: String,
        matched_asset: Option<AssetSummary>,
        monitors: Vec<MonitorStatus>,
    },
    CheckinResult { checked_in: Vec<CheckinEntry> },
}

/// The deep view of an [`IpcResponse`].
#[verifier::ext_equal]
pub enum ResponseView {
    Done { message: Seq<char> },
    Error { message: Seq<char> },
    Config { settings: SettingsView, missing: Seq<Seq<char>> },
    Status {
        state: Seq<char>,
        last_sync: Option<Seq<char>>,
        next_sync: Option<Seq<char>>,
        snipeit_url: Seq<char>,
    },
    StatusFull {
        state: Seq<char>,
        last_sync: Option<Seq<char>>,
        next_sync: Option<Seq<char>>,
        snipeit_url: Seq<char>,
        matched_asset: Option<AssetSummaryView>,
        monitors: Seq<MonitorStatusView>,
    },
    CheckinResult { checked_in: Seq<CheckinEntryView> },
}

impl DeepView for IpcResponse {
    type V = ResponseView;

    open spec fn deep_view(&self) -> ResponseView {
        match self {
            IpcResponse::Done { message } => ResponseView::Done { message: message@ },
            IpcResponse::Error { message } => ResponseView::Error { message: message@ },
            IpcResponse::Config { settings, missing } => ResponseView::Config {
                settings: settings.deep_view(),
                missing: missing.deep_view(),
            },
            IpcResponse::Status { state, last_sync, next_sync, snipeit_url } =>
                ResponseView::Status {
                state: state@,
                last_sync: last_sync.deep_view(),
                next_sync: next_sync.deep_view(),
                snipeit_url: snipeit_url@,
            },
            IpcResponse::StatusFull {
                state,
                last_sync,
                next_sync,
                snipeit_url,
                matched_asset,
                monitors,
            } => ResponseView::StatusFull {
                state: state@,
                last_sync: last_sync.deep_view(),
                next_sync: next_sync.deep_view(),
                snipeit_url: snipeit_url@,
                matched_asset: matched_asset.deep_view(),
                monitors: monitors.deep_view(),
            },
            IpcResponse::CheckinResult { checked_in } => ResponseView::CheckinResult {
                checked_in: checked_in.deep_view(),
            },
        }
    }
}

// ---------------------------------------------------------------------------------------------
// Framing
// ---------------------------------------------------------------------------------------------

/// The newline that ends a line of the protocol.
pub const LINE_FEED: u8 = 10;

/// The carriage return that a client may send before the newline.
pub const CARRIAGE_RETURN: u8 = 13;

/// Why a line of the protocol is refused.
#[derive(Clone, Copy, Debug, PartialEq, Eq, Structural)]
pub enum FrameError {
    /// The client sent nothing.
    Disconnected,
    /// The line does not end, or does not end in time.
    Unterminated,
    /// The line is empty.
    EmptyRequest,
    /// The line is longer than the protocol allows.
    OversizedRequest,
    /// The response is longer than the protocol allows.
    OversizedResponse,
}

/// The text of a [`FrameError`].
pub open spec fn frame_error_text(error: FrameError) -> Seq<char> {
    match error {
        FrameError::Disconnected => "IPC client disconnected before request"@,
        FrameError::Unterminated => "IPC request is unterminated or oversized"@,
        FrameError::EmptyRequest => "IPC request is empty"@,
        FrameError::OversizedRequest => "IPC request exceeds 64 KiB"@,
        FrameError::OversizedResponse => "IPC response exceeds 64 KiB"@,
    }
}

impl FrameError {
    /// Describes the error.
    pub fn message(&self) -> (message: String)
        ensures
            message@ == frame_error_text(*self),
    {
        match self {
            FrameError::Disconnected => "IPC client disconnected before request".to_owned(),
            FrameError::Unterminated => "IPC request is unterminated or oversized".to_owned(),
            FrameError::EmptyRequest => "IPC request is empty".to_owned(),
            FrameError::OversizedRequest => "IPC request exceeds 64 KiB".to_owned(),
            FrameError::OversizedResponse => "IPC response exceeds 64 KiB".to_owned(),
        }
    }
}

/// The body of a line: what comes before its newline, and before the carriage return if the
/// newline follows one.
pub open spec fn line_body(line: Seq<u8>) -> Seq<u8> {
    let body = line.drop_last();
    if body.len() > 0 && body.last() == CARRIAGE_RETURN {
        body.drop_last()
    } else {
        body
    }
}

/// The request in what was read up to a newline, the end of the stream, or the line limit.
pub open spec fn request_in(read: Seq<u8>) -> Result<Seq<u8>, FrameError> {
    if read.len() == 0 {
        Err(FrameError::Disconnected)
    } else if read.last() != LINE_FEED {
        Err(FrameError::Unterminated)
    } else {
        Ok(line_body(read))
    }
}

/// Takes the request out of what was read up to a newline, the end of the stream, or the line
/// limit.
pub fn unframe_request(read: Vec<u8>) -> (result: Result<Vec<u8>, FrameError>)
    ensures
        match result {
            Ok(body) => request_in(read@) == Ok::<Seq<u8>, FrameError>(body@),
            Err(error) => request_in(read@) == Err::<Seq<u8>, FrameError>(error),
        },
{
    let mut line = read;
    let length: usize = line.len();
    if length == 0 {
        return Err(FrameError::Disconnected);
    }
    if line[length - 1] != LINE_FEED {
        return Err(FrameError::Unterminated);
    }
    let _newline = line.pop();
    if length > 1 && line[length - 2] == CARRIAGE_RETURN {
        let _carriage_return = line.pop();
    }
    Ok(line)
}

/// The request that a line holds, if its length is one that the protocol allows.
pub open spec fn admitted_request(line: Seq<u8>) -> Result<Seq<u8>, FrameError> {
    if line.len() == 0 {
        Err(FrameError::EmptyRequest)
    } else if line.len() > IPC_MAX_LINE_BYTES {
        Err(FrameError::OversizedRequest)
    } else {
        Ok(line)
    }
}

/// Why a command could not be decoded.
#[derive(Clone, Copy, Debug, PartialEq, Eq, Structural)]
pub enum DecodeError {
    /// The line is refused before it is parsed.
    Frame(FrameError),
    /// The line is not a command in JSON.
    InvalidJson,
}

/// Decodes a line. `parse` reads a command out of JSON text, and gives `None` where it cannot.
pub fn decode_command<F: Fn(&[u8]) -> Option<ServiceCommand>>(line: &[u8], parse: F) -> (result:
    Result<ServiceCommand, DecodeError>)
    requires
        parse.requires((line,)),
    ensures
        match result {
            Ok(command) => admitted_request(line@) is Ok && parse.ensures((line,), Some(command)),
            Err(DecodeError::Frame(error)) => admitted_request(line@) == Err::<
                Seq<u8>,
                FrameError,
            >(error),
            Err(DecodeError::InvalidJson) => admitted_request(line@) is Ok && parse.ensures(
                (line,),
                None,
            ),
        },
{
    if line.len() == 0 {
        return Err(DecodeError::Frame(FrameError::EmptyRequest));
    }
    if line.len() > IPC_MAX_LINE_BYTES {
        return Err(DecodeError::Frame(FrameError::OversizedRequest));
    }
    match parse(line) {
        Some(command) => Ok(command),
        None => Err(DecodeError::InvalidJson),
    }
}

/// The line that carries a response.
pub open spec fn response_line(body: Seq<u8>) -> Result<Seq<u8>, FrameError> {
    if body.len() + 1 > IPC_MAX_LINE_BYTES {
        Err(FrameError::OversizedResponse)
    } else {
        Ok(body.push(LINE_FEED))
    }
}

/// Frames a serialized response.
pub fn encode_response(body: Vec<u8>) -> (result: Result<Vec<u8>, FrameError>)
    ensures
        match result {
            Ok(line) => response_line(body@) == Ok::<Seq<u8>, FrameError>(line@),
            Err(error) => response_line(body@) == Err::<Seq<u8>, FrameError>(error),
        },
{
    let mut line = body;
    if line.len() >= IPC_MAX_LINE_BYTES {
        return Err(FrameError::OversizedResponse);
    }
    line.push(LINE_FEED);
    Ok(line)
}

/// A body without carriage return at its end comes back from its line, with and without a
/// carriage return before the newline.
pub proof fn framing_round_trip(body: Seq<u8>)
    requires
        body.len() == 0 || body.last() != CARRIAGE_RETURN,
    ensures
        request_in(body.push(LINE_FEED)) == Ok::<Seq<u8>, FrameError>(body),
        request_in(body.push(CARRIAGE_RETURN).push(LINE_FEED)) == Ok::<Seq<u8>, FrameError>(body),
{
    assert(body.push(LINE_FEED).drop_last() =~= body);
    let long = body.push(CARRIAGE_RETURN);
    assert(long.push(LINE_FEED).drop_last() =~= long);
    assert(long.drop_last() =~= body);
}

// ---------------------------------------------------------------------------------------------
// Sessions
// ---------------------------------------------------------------------------------------------

/// How many client sessions may be active at once.
pub const MAX_ACTIVE_PIPE_SESSIONS: usize = 16;

/// What the accept loop does next.
#[derive(Clone, Copy, Debug, PartialEq, Eq, Structural)]
pub enum AcceptStep {
    /// Stop accepting and let the active sessions finish.
    Drain,
    /// Accept one client and serve it; `first_instance` tells whether the pipe is created anew.
    Serve { first_instance: bool },
    /// Accept one client and close the connection, since no session is free.
    Refuse,
}

/// What the accept loop does next, given the active sessions.
pub open spec fn next_accept(shutdown: bool, active: nat, served_before: bool) -> AcceptStep {
    if shutdown {
        AcceptStep::Drain
    } else if active >= MAX_ACTIVE_PIPE_SESSIONS {
        AcceptStep::Refuse
    } else {
        AcceptStep::Serve { first_instance: !served_before }
    }
}

/// Decides what the accept loop does next.
pub fn accept_step(shutdown: bool, active: usize, served_before: bool) -> (step: AcceptStep)
    ensures
        step == next_accept(shutdown, active as nat, served_before),
{
    if shutdown {
        AcceptStep::Drain
    } else if active >= MAX_ACTIVE_PIPE_SESSIONS {
        AcceptStep::Refuse
    } else {
        AcceptStep::Serve { first_instance: !served_before }
    }
}

/// The sessions were not finished when the time to drain them was over; they were aborted.
#[derive(Clone, Copy, Debug, PartialEq, Eq, Structural)]
pub struct DrainElapsed;

impl DrainElapsed {
    /// Describes the error.
    pub fn message(&self) -> (message: String)
        ensures
            message@ == "pipe shutdown drain deadline elapsed; remaining sessions aborted"@,
    {
        "pipe shutdown drain deadline elapsed; remaining sessions aborted".to_owned()
    }
}

/// Decides what the accept loop ends with, given whether the active sessions finished in time.
pub fn finish_drain(drained: bool) -> (result: Result<(), DrainElapsed>)
    ensures
        result is Ok <==> drained,
{
    if drained {
        Ok(())
    } else {
        Err(DrainElapsed)
    }
}

/// Serving a client never makes more sessions active than are allowed.
pub proof fn sessions_stay_bounded(shutdown: bool, active: nat, served_before: bool)
    requires
        active <= MAX_ACTIVE_PIPE_SESSIONS,
        next_accept(shutdown, active, served_before) is Serve,
    ensures
        active + 1 <= MAX_ACTIVE_PIPE_SESSIONS,
{
}

/// A request is admitted exactly if it has something in it and no more than 64 KiB.
pub proof fn admitted_requests_are_bounded(line: Seq<u8>)
    ensures
        admitted_request(line) is Ok <==> 0 < line.len() && line.len() <= 64 * 1024,
        admitted_request(line) is Ok ==> admitted_request(line)->Ok_0 == line,
        line.len() == 0 ==> admitted_request(line) == Err::<Seq<u8>, FrameError>(
            FrameError::EmptyRequest,
        ),
        line.len() > 64 * 1024 ==> admitted_request(line) == Err::<Seq<u8>, FrameError>(
            FrameError::OversizedRequest,
        ),
{
}

/// A response is sent exactly if it fits into 64 KiB with its newline. What is sent ends the line,
/// and is read as what was to be sent, if that does not end with a carriage return.
pub proof fn sent_responses_are_read_back(body: Seq<u8>)
    ensures
        response_line(body) is Ok <==> body.len() < 64 * 1024,
        response_line(body) is Ok ==> {
            let line = response_line(body)->Ok_0;
            &&& line.len() == body.len() + 1
            &&& line.len() <= 64 * 1024
            &&& line.last() == 10u8
            &&& body.len() == 0 || body.last() != 13u8 ==> request_in(line) == Ok::<
                Seq<u8>,
                FrameError,
            >(body)
        },
        response_line(body) is Err ==> response_line(body)->Err_0
            == FrameError::OversizedResponse,
{
    if body.len() == 0 || body.last() != CARRIAGE_RETURN {
        framing_round_trip(body);
    }
}

/// What is read is a request exactly if it ends with a newline; nothing read, and a line without its
/// end, are told apart.
pub proof fn requests_end_with_a_newline(read: Seq<u8>)
    ensures
        request_in(read) is Ok <==> read.len() > 0 && read.last() == 10u8,
        read.len() == 0 ==> request_in(read) == Err::<Seq<u8>, FrameError>(
            FrameError::Disconnected,
        ),
        read.len() > 0 && read.last() != 10u8 ==> request_in(read) == Err::<Seq<u8>, FrameError>(
            FrameError::Unterminated,
        ),
        request_in(read) is Ok ==> request_in(read)->Ok_0.is_prefix_of(read),
{
}

/// A client is served exactly while the server is not shutting down and a session is free; the first
/// one served owns the pipe. Shutting down comes before everything else.
pub proof fn clients_are_served_while_there_is_room(
    shutdown: bool,
    active: nat,
    served_before: bool,
)
    ensures
        shutdown ==> next_accept(shutdown, active, served_before) is Drain,
        !shutdown && active < MAX_ACTIVE_PIPE_SESSIONS ==> next_accept(
            shutdown,
            active,
            served_before,
        ) == (AcceptStep::Serve { first_instance: !served_before }),
        !shutdown && active >= MAX_ACTIVE_PIPE_SESSIONS ==> next_accept(
            shutdown,
            active,
            served_before,
        ) is Refuse,
{
}

} // verus!
