//! The request handler: a state machine that decides, and leaves every probe
//! of the filesystem to its caller.
//!
//! A request passes the method check, the path shape check and the decoder in
//! one step, since none of them needs anything from outside. From there on the
//! machine asks for one probe at a time and waits for its answer:
//!
//! ```text
//! MethodCheck -> SandboxResolve -> DirectoryCheck -> Head | Get -> Responded
//! ```
//!
//! The first rejection ends the run. No path is handed out for a probe other
//! than canonicalization before it is known to lie below the base directory.

use crate::bytes::bytes_model;
use crate::bytes::count_leading;
use crate::bytes::count_until;
use crate::bytes::find_byte;
use crate::bytes::lemma_count_leading_facts;
use crate::bytes::skip_byte;
use crate::bytes::text_model;
use crate::decode::decode_path;
use crate::decode::decoded_path;
use crate::decode::string_from_utf8;
use crate::method::Method;
use crate::method::Mode;
use crate::method::mode_of;
use crate::path::file_name;
use crate::path::file_name_of;
use crate::path::is_within;
use crate::path::SEPARATOR;
use crate::response::BAD_REQUEST;
use crate::response::download;
use crate::response::FORBIDDEN;
use crate::response::headers_only;
use crate::response::METHOD_NOT_ALLOWED;
use crate::response::NOT_FOUND;
use crate::response::rejection;
use crate::response::Response;
use crate::response::ResponseModel;
use crate::sandbox::BaseDir;
use crate::sandbox::candidate_of;
use vstd::prelude::*;
use vstd::slice::slice_subrange;
use vstd::slice::slice_to_vec;
use vstd::string::StringExecFns;
use vstd::utf8::decode_utf8;
use vstd::utf8::encode_utf8;
use vstd::utf8::valid_utf8;

verus! {

/// The byte `?`, which ends the path of a URL.
pub const QUERY: u8 = 0x3f;

/// One download, for the access log: who fetched which file.
#[derive(Clone, Debug, PartialEq, Eq)]
pub struct Download {
    pub remote: String,
    pub file: Vec<u8>,
}

/// What a download entry holds.
pub struct DownloadModel {
    pub remote: Seq<char>,
    pub file: Seq<u8>,
}

impl View for Download {
    type V = DownloadModel;

    open spec fn view(&self) -> DownloadModel {
        DownloadModel { remote: self.remote@, file: self.file@ }
    }
}

/// Where the handling of one request stands.
#[derive(Clone, Debug, PartialEq, Eq)]
pub enum State {
    /// Nothing has arrived yet.
    MethodCheck,
    /// The candidate path is with the filesystem for canonicalization.
    SandboxResolve { mode: Mode, remote: String, candidate: Vec<u8> },
    /// The resolved path lies below the base directory; the filesystem is
    /// asked whether it is a directory.
    DirectoryCheck { mode: Mode, remote: String, resolved: Vec<u8> },
    /// A `HEAD` request waits for the size of its file.
    Head { remote: String, resolved: Vec<u8> },
    /// A `GET` request waits for its file to be opened.
    Get { remote: String, resolved: Vec<u8> },
    /// The response is out; nothing more is expected.
    Responded,
}

/// What a state holds.
pub enum StateModel {
    MethodCheck,
    SandboxResolve { mode: Mode, remote: Seq<char>, candidate: Seq<u8> },
    DirectoryCheck { mode: Mode, remote: Seq<char>, resolved: Seq<u8> },
    Head { remote: Seq<char>, resolved: Seq<u8> },
    Get { remote: Seq<char>, resolved: Seq<u8> },
    Responded,
}

impl View for State {
    type V = StateModel;

    open spec fn view(&self) -> StateModel {
        match self {
            State::MethodCheck => StateModel::MethodCheck,
            State::SandboxResolve { mode, remote, candidate } => StateModel::SandboxResolve {
                mode: *mode,
                remote: remote@,
                candidate: candidate@,
            },
            State::DirectoryCheck { mode, remote, resolved } => StateModel::DirectoryCheck {
                mode: *mode,
                remote: remote@,
                resolved: resolved@,
            },
            State::Head { remote, resolved } => StateModel::Head {
                remote: remote@,
                resolved: resolved@,
            },
            State::Get { remote, resolved } => StateModel::Get {
                remote: remote@,
                resolved: resolved@,
            },
            State::Responded => StateModel::Responded,
        }
    }
}

/// What the outside world reports to the handler.
#[derive(Clone, Debug, PartialEq, Eq)]
pub enum Event {
    /// A request arrived. `remote` is the address of the peer, where known.
    Request { method: Method, url: String, remote: Option<String> },
    /// The canonical form of the candidate path; `None` where the filesystem
    /// could not resolve it.
    Canonicalized(Option<Vec<u8>>),
    /// Whether the resolved path is a directory.
    DirectoryChecked(bool),
    /// The size of the file in bytes; `None` where its metadata cannot be had.
    Measured(Option<u64>),
    /// Whether the file was opened.
    Opened(bool),
}

/// What an event holds.
pub enum EventModel {
    Request { method: Method, url: Seq<char>, remote: Option<Seq<char>> },
    Canonicalized(Option<Seq<u8>>),
    DirectoryChecked(bool),
    Measured(Option<u64>),
    Opened(bool),
}

impl View for Event {
    type V = EventModel;

    open spec fn view(&self) -> EventModel {
        match self {
            Event::Request { method, url, remote } => EventModel::Request {
                method: *method,
                url: url@,
                remote: text_model(*remote),
            },
            Event::Canonicalized(result) => EventModel::Canonicalized(bytes_model(*result)),
            Event::DirectoryChecked(is_directory) => EventModel::DirectoryChecked(*is_directory),
            Event::Measured(size) => EventModel::Measured(*size),
            Event::Opened(success) => EventModel::Opened(*success),
        }
    }
}

/// What the handler asks of its caller.
#[derive(Clone, Debug, PartialEq, Eq)]
pub enum Action {
    /// Resolve this path through the filesystem, and do nothing else with it.
    Canonicalize(Vec<u8>),
    /// Say whether this path is a directory.
    CheckDirectory(Vec<u8>),
    /// Read the size of this file from its metadata, without opening it.
    Measure(Vec<u8>),
    /// Open this file for reading.
    Open(Vec<u8>),
    /// Send the response, and log the download if there is one.
    Respond { response: Response, download: Option<Download> },
}

/// What an action holds.
pub enum ActionModel {
    Canonicalize(Seq<u8>),
    CheckDirectory(Seq<u8>),
    Measure(Seq<u8>),
    Open(Seq<u8>),
    Respond { response: ResponseModel, download: Option<DownloadModel> },
}

impl View for Action {
    type V = ActionModel;

    open spec fn view(&self) -> ActionModel {
        match self {
            Action::Canonicalize(path) => ActionModel::Canonicalize(path@),
            Action::CheckDirectory(path) => ActionModel::CheckDirectory(path@),
            Action::Measure(path) => ActionModel::Measure(path@),
            Action::Open(path) => ActionModel::Open(path@),
            Action::Respond { response, download } => ActionModel::Respond {
                response: response@,
                download: match download {
                    Some(entry) => Some(entry@),
                    None => None,
                },
            },
        }
    }
}

/// The path of a URL: what stands in front of the first `?`.
pub open spec fn request_path(url: Seq<u8>) -> Seq<u8> {
    url.subrange(0, count_until(url, QUERY) as int)
}

/// A request path that asks for a directory: the empty one, and every one
/// that ends in a separator.
pub open spec fn names_directory(path: Seq<u8>) -> bool {
    path.len() == 0 || path.last() == SEPARATOR
}

/// The request path without its leading separators.
pub open spec fn relative_part(path: Seq<u8>) -> Seq<u8> {
    path.subrange(count_leading(path, SEPARATOR) as int, path.len() as int)
}

/// The address that the log shows for a peer.
pub open spec fn remote_or_unknown(remote: Option<Seq<char>>) -> Seq<char> {
    match remote {
        Some(address) => address,
        None => "unknown"@,
    }
}

/// The name under which a resolved file is offered: its last component where
/// that is well-formed UTF-8, and `download` where it is not, or where the
/// path has no last component.
pub open spec fn download_name(resolved: Seq<u8>) -> Seq<char> {
    match file_name_of(resolved) {
        Some(name) => if valid_utf8(name) {
            decode_utf8(name)
        } else {
            "download"@
        },
        None => "download"@,
    }
}

/// The end of a run: the rejection with the given status.
pub open spec fn rejected(status: u16) -> (StateModel, ActionModel) {
    (StateModel::Responded, ActionModel::Respond { response: rejection(status), download: None })
}

/// The end of a run: the response for a file, with its log entry.
pub open spec fn served(response: ResponseModel, remote: Seq<char>, file: Seq<u8>) -> (
    StateModel,
    ActionModel,
) {
    (
        StateModel::Responded,
        ActionModel::Respond { response, download: Some(DownloadModel { remote, file }) },
    )
}

/// What follows the decoder: its rejection is a bad request, and its text
/// goes below the base directory and on to canonicalization.
pub open spec fn after_decode(
    base: Seq<u8>,
    mode: Mode,
    remote: Seq<char>,
    decoded: Option<Seq<char>>,
) -> (StateModel, ActionModel) {
    match decoded {
        None => rejected(BAD_REQUEST),
        Some(text) => (
            StateModel::SandboxResolve { mode, remote, candidate: candidate_of(base, text) },
            ActionModel::Canonicalize(candidate_of(base, text)),
        ),
    }
}

/// The first step: method check, path shape check and decoder.
pub open spec fn on_request(
    base: Seq<u8>,
    method: Method,
    url: Seq<char>,
    remote: Option<Seq<char>>,
) -> (StateModel, ActionModel) {
    let path = request_path(encode_utf8(url));
    let raw = relative_part(path);
    match mode_of(method) {
        None => rejected(METHOD_NOT_ALLOWED),
        Some(mode) => if names_directory(path) {
            rejected(FORBIDDEN)
        } else {
            after_decode(base, mode, remote_or_unknown(remote), decoded_path(raw))
        },
    }
}

/// After canonicalization: what cannot be resolved is not found, and what
/// resolves to a place outside the base directory is forbidden.
pub open spec fn on_canonicalized(
    base: Seq<u8>,
    mode: Mode,
    remote: Seq<char>,
    result: Option<Seq<u8>>,
) -> (StateModel, ActionModel) {
    match result {
        None => rejected(NOT_FOUND),
        Some(resolved) => if is_within(base, resolved) {
            (
                StateModel::DirectoryCheck { mode, remote, resolved },
                ActionModel::CheckDirectory(resolved),
            )
        } else {
            rejected(FORBIDDEN)
        },
    }
}

/// After the directory check: a directory is forbidden; a file is measured
/// for `HEAD` and opened for `GET`.
pub open spec fn on_directory_checked(
    mode: Mode,
    remote: Seq<char>,
    resolved: Seq<u8>,
    is_directory: bool,
) -> (StateModel, ActionModel) {
    if is_directory {
        rejected(FORBIDDEN)
    } else {
        match mode {
            Mode::HeadersOnly => (
                StateModel::Head { remote, resolved },
                ActionModel::Measure(resolved),
            ),
            Mode::Download => (StateModel::Get { remote, resolved }, ActionModel::Open(resolved)),
        }
    }
}

/// The end of a `HEAD` request.
pub open spec fn on_measured(remote: Seq<char>, resolved: Seq<u8>, size: Option<u64>) -> (
    StateModel,
    ActionModel,
) {
    match size {
        None => rejected(NOT_FOUND),
        Some(bytes) => served(headers_only(download_name(resolved), bytes), remote, resolved),
    }
}

/// The end of a `GET` request.
pub open spec fn on_opened(remote: Seq<char>, resolved: Seq<u8>, success: bool) -> (
    StateModel,
    ActionModel,
) {
    if success {
        served(download(download_name(resolved), resolved), remote, resolved)
    } else {
        rejected(NOT_FOUND)
    }
}

/// The transition function: the next state and the action for an event that
/// the state waits for, and `None` for any other event.
pub open spec fn next(base: Seq<u8>, state: StateModel, event: EventModel) -> Option<
    (StateModel, ActionModel),
> {
    match (state, event) {
        (StateModel::MethodCheck, EventModel::Request { method, url, remote }) => Some(
            on_request(base, method, url, remote),
        ),
        (
            StateModel::SandboxResolve { mode, remote, candidate },
            EventModel::Canonicalized(result),
        ) => Some(on_canonicalized(base, mode, remote, result)),
        (
            StateModel::DirectoryCheck { mode, remote, resolved },
            EventModel::DirectoryChecked(is_directory),
        ) => Some(on_directory_checked(mode, remote, resolved, is_directory)),
        (StateModel::Head { remote, resolved }, EventModel::Measured(size)) => Some(
            on_measured(remote, resolved, size),
        ),
        (StateModel::Get { remote, resolved }, EventModel::Opened(success)) => Some(
            on_opened(remote, resolved, success),
        ),
        _ => None,
    }
}

/// What a step holds.
pub open spec fn step_model(step: (State, Action)) -> (StateModel, ActionModel) {
    (step.0@, step.1@)
}

fn reject(status: u16) -> (out: (State, Action))
    ensures
        step_model(out) == rejected(status),
{
    (State::Responded, Action::Respond { response: Response::reject(status), download: None })
}

/// The name under which a resolved file is offered.
pub fn offered_name(resolved: &[u8]) -> (out: String)
    ensures
        out@ == download_name(resolved@),
{
    match file_name(resolved) {
        Some(name) => match string_from_utf8(name.as_slice()) {
            Some(text) => text,
            None => String::from_str("download"),
        },
        None => String::from_str("download"),
    }
}

/// The part of a URL that names the file: its path without the leading
/// separators. `None` where the path asks for a directory.
pub fn requested_file(url: &[u8]) -> (out: Option<&[u8]>)
    ensures
        out is None <==> names_directory(request_path(url@)),
        out is Some ==> out.unwrap()@ == relative_part(request_path(url@)),
        out is Some ==> out.unwrap()@.len() > 0,
{
    let end: usize = find_byte(url, QUERY);
    let path = slice_subrange(url, 0, end);
    if end == 0 || path[end - 1] == SEPARATOR {
        return None;
    }
    let start: usize = skip_byte(path, SEPARATOR);
    proof {
        lemma_count_leading_facts(path@, SEPARATOR);
    }
    Some(slice_subrange(path, start, end))
}

/// What follows the decoder, for what it produced.
pub fn resolve_decoded(base: &BaseDir, mode: Mode, remote: String, decoded: Option<String>) -> (out:
    (State, Action))
    ensures
        step_model(out) == after_decode(base@, mode, remote@, text_model(decoded)),
{
    match decoded {
        None => reject(BAD_REQUEST),
        Some(text) => {
            let candidate = base.candidate(text.as_str());
            let probe = slice_to_vec(candidate.as_slice());
            (State::SandboxResolve { mode, remote, candidate }, Action::Canonicalize(probe))
        },
    }
}

/// The first step for a request: method check, path shape check, decoder.
pub fn begin(base: &BaseDir, method: Method, url: &str, remote: Option<String>) -> (out: (
    State,
    Action,
))
    ensures
        step_model(out) == on_request(base@, method, url@, text_model(remote)),
{
    let mode = match method.mode() {
        None => {
            return reject(METHOD_NOT_ALLOWED);
        },
        Some(mode) => mode,
    };
    let raw = match requested_file(url.as_bytes()) {
        None => {
            return reject(FORBIDDEN);
        },
        Some(raw) => raw,
    };
    let remote = match remote {
        Some(address) => address,
        None => String::from_str("unknown"),
    };
    resolve_decoded(base, mode, remote, decode_path(raw))
}

/// The step after canonicalization.
pub fn canonicalized(base: &BaseDir, mode: Mode, remote: String, result: Option<Vec<u8>>) -> (out:
    (State, Action))
    ensures
        step_model(out) == on_canonicalized(base@, mode, remote@, bytes_model(result)),
{
    match result {
        None => reject(NOT_FOUND),
        Some(resolved) => {
            if base.admits(resolved.as_slice()) {
                let probe = slice_to_vec(resolved.as_slice());
                (State::DirectoryCheck { mode, remote, resolved }, Action::CheckDirectory(probe))
            } else {
                reject(FORBIDDEN)
            }
        },
    }
}

/// The step after the directory check.
pub fn directory_checked(mode: Mode, remote: String, resolved: Vec<u8>, is_directory: bool) -> (out:
    (State, Action))
    ensures
        step_model(out) == on_directory_checked(mode, remote@, resolved@, is_directory),
{
    if is_directory {
        return reject(FORBIDDEN);
    }
    let probe = slice_to_vec(resolved.as_slice());
    match mode {
        Mode::HeadersOnly => (State::Head { remote, resolved }, Action::Measure(probe)),
        Mode::Download => (State::Get { remote, resolved }, Action::Open(probe)),
    }
}

/// The last step of a `HEAD` request.
pub fn measured(remote: String, resolved: Vec<u8>, size: Option<u64>) -> (out: (State, Action))
    ensures
        step_model(out) == on_measured(remote@, resolved@, size),
{
    match size {
        None => reject(NOT_FOUND),
        Some(bytes) => {
            let name = offered_name(resolved.as_slice());
            let response = Response::headers_only(name.as_str(), bytes);
            (
                State::Responded,
                Action::Respond { response, download: Some(Download { remote, file: resolved }) },
            )
        },
    }
}

/// The last step of a `GET` request.
pub fn opened(remote: String, resolved: Vec<u8>, success: bool) -> (out: (State, Action))
    ensures
        step_model(out) == on_opened(remote@, resolved@, success),
{
    if !success {
        return reject(NOT_FOUND);
    }
    let name = offered_name(resolved.as_slice());
    let body = slice_to_vec(resolved.as_slice());
    let response = Response::download(name.as_str(), body);
    (
        State::Responded,
        Action::Respond { response, download: Some(Download { remote, file: resolved }) },
    )
}

/// One step of the handler. An event that the state does not wait for is
/// refused with `None`.
pub fn step(base: &BaseDir, state: State, event: Event) -> (out: Option<(State, Action)>)
    ensures
        out is Some <==> next(base@, state@, event@) is Some,
        out is Some ==> Some(step_model(out.unwrap())) == next(base@, state@, event@),
{
    match state {
        State::MethodCheck => match event {
            Event::Request { method, url, remote } => Some(
                begin(base, method, url.as_str(), remote),
            ),
            _ => None,
        },
        State::SandboxResolve { mode, remote, candidate } => match event {
            Event::Canonicalized(result) => Some(canonicalized(base, mode, remote, result)),
            _ => None,
        },
        State::DirectoryCheck { mode, remote, resolved } => match event {
            Event::DirectoryChecked(is_directory) => Some(
                directory_checked(mode, remote, resolved, is_directory),
            ),
            _ => None,
        },
        State::Head { remote, resolved } => match event {
            Event::Measured(size) => Some(measured(remote, resolved, size)),
            _ => None,
        },
        State::Get { remote, resolved } => match event {
            Event::Opened(success) => Some(opened(remote, resolved, success)),
            _ => None,
        },
        State::Responded => None,
    }
}

} // verus!
