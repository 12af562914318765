//! What holds of every run of the handler, whatever the filesystem answers.
//!
//! A run feeds the handler a request and then, for each probe that it asks
//! for, the answer of a filesystem. The filesystem is any four functions from
//! paths to answers: nothing is assumed of it.

use crate::bytes::lemma_count_leading_facts;
use crate::decode::begins_with_escape;
use crate::decode::decoded_path;
use crate::decode::escape_value;
use crate::decode::lemma_escape_is_decoded;
use crate::handler::ActionModel;
use crate::handler::download_name;
use crate::handler::DownloadModel;
use crate::handler::EventModel;
use crate::handler::names_directory;
use crate::handler::next;
use crate::handler::relative_part;
use crate::handler::remote_or_unknown;
use crate::handler::request_path;
use crate::handler::StateModel;
use crate::method::Method;
use crate::method::Mode;
use crate::method::mode_of;
use crate::path::components;
use crate::path::file_name_of;
use crate::path::is_absolute;
use crate::path::is_within;
use crate::path::lemma_joined_components;
use crate::path::same_place;
use crate::path::SEPARATOR;
use crate::response::BAD_REQUEST;
use crate::response::BodyModel;
use crate::response::disposition_header;
use crate::response::download;
use crate::response::FORBIDDEN;
use crate::response::HeaderModel;
use crate::response::headers_only;
use crate::response::is_sendable;
use crate::response::lemma_disposition_names_ascii;
use crate::response::lemma_responses_are_sendable;
use crate::response::length_header;
use crate::response::METHOD_NOT_ALLOWED;
use crate::response::NOT_FOUND;
use crate::response::OK;
use crate::response::rejection;
use crate::response::ResponseModel;
use crate::sandbox::candidate_of;
use vstd::prelude::*;
use vstd::utf8::decode_utf8;
use vstd::utf8::encode_utf8;
use vstd::utf8::is_ascii_chars;
use vstd::utf8::valid_utf8;

verus! {

/// A filesystem, as far as the handler can see it: what it answers to each
/// probe of a path.
pub struct Filesystem {
    /// The canonical form of a path; `None` where it cannot be resolved.
    pub canonical: spec_fn(Seq<u8>) -> Option<Seq<u8>>,
    /// Whether a path is a directory.
    pub is_directory: spec_fn(Seq<u8>) -> bool,
    /// The size of the file at a path; `None` where its metadata cannot be had.
    pub size: spec_fn(Seq<u8>) -> Option<u64>,
    /// Whether the file at a path can be opened.
    pub opens: spec_fn(Seq<u8>) -> bool,
}

/// The event with which a filesystem answers a probe; `None` for a response,
/// which asks nothing.
pub open spec fn answer(fs: Filesystem, action: ActionModel) -> Option<EventModel> {
    match action {
        ActionModel::Canonicalize(path) => Some(EventModel::Canonicalized((fs.canonical)(path))),
        ActionModel::CheckDirectory(path) => Some(
            EventModel::DirectoryChecked((fs.is_directory)(path)),
        ),
        ActionModel::Measure(path) => Some(EventModel::Measured((fs.size)(path))),
        ActionModel::Open(path) => Some(EventModel::Opened((fs.opens)(path))),
        ActionModel::Respond { .. } => None,
    }
}

/// The actions of a run from a state and an event on, in order, with at most
/// `probes` answers from the filesystem.
pub open spec fn run(
    base: Seq<u8>,
    fs: Filesystem,
    state: StateModel,
    event: EventModel,
    probes: nat,
) -> Seq<ActionModel>
    decreases probes,
{
    match next(base, state, event) {
        None => seq![],
        Some((state, action)) => match answer(fs, action) {
            None => seq![action],
            Some(reply) => if probes == 0 {
                seq![action]
            } else {
                seq![action] + run(base, fs, state, reply, (probes - 1) as nat)
            },
        },
    }
}

/// The actions that one request leads to. Three answers are all that a run
/// can ask for.
pub open spec fn handle(
    base: Seq<u8>,
    fs: Filesystem,
    method: Method,
    url: Seq<char>,
    remote: Option<Seq<char>>,
) -> Seq<ActionModel> {
    run(base, fs, StateModel::MethodCheck, EventModel::Request { method, url, remote }, 3)
}

/// Whether an action is a probe of the filesystem.
pub open spec fn is_probe(action: ActionModel) -> bool {
    !(action is Respond)
}

/// The response that an action sends.
pub open spec fn response_of(action: ActionModel) -> ResponseModel
    recommends
        action is Respond,
{
    action->response
}

/// The text that the path of a request decodes to, where the request passes
/// the method check, the path shape check and the decoder.
pub open spec fn accepted_text(method: Method, url: Seq<char>) -> Option<Seq<char>> {
    let path = request_path(encode_utf8(url));
    if mode_of(method) is None || names_directory(path) {
        None
    } else {
        decoded_path(relative_part(path))
    }
}

/// The response that is owed to a request, read off the filesystem directly.
/// The first line that applies decides:
///
/// | condition | response |
/// |---|---|
/// | the method is neither `GET` nor `HEAD` | 405 |
/// | the path is empty or ends in `/` | 403 |
/// | the decoded path holds a NUL | 400 |
/// | the candidate cannot be resolved | 404 |
/// | it resolves to a place outside the base directory | 403 |
/// | it resolves to a directory | 403 |
/// | `HEAD`, and the size cannot be read | 404 |
/// | `HEAD` | 200, with name and size |
/// | `GET`, and the file cannot be opened | 404 |
/// | `GET` | 200, with name and content |
pub open spec fn owed(base: Seq<u8>, fs: Filesystem, method: Method, url: Seq<char>) -> ResponseModel {
    let path = request_path(encode_utf8(url));
    if mode_of(method) is None {
        rejection(METHOD_NOT_ALLOWED)
    } else if names_directory(path) {
        rejection(FORBIDDEN)
    } else {
        match decoded_path(relative_part(path)) {
            None => rejection(BAD_REQUEST),
            Some(text) => match (fs.canonical)(candidate_of(base, text)) {
                None => rejection(NOT_FOUND),
                Some(resolved) => if !is_within(base, resolved) {
                    rejection(FORBIDDEN)
                } else if (fs.is_directory)(resolved) {
                    rejection(FORBIDDEN)
                } else if mode_of(method) == Some(Mode::HeadersOnly) {
                    match (fs.size)(resolved) {
                        None => rejection(NOT_FOUND),
                        Some(size) => headers_only(download_name(resolved), size),
                    }
                } else if (fs.opens)(resolved) {
                    download(download_name(resolved), resolved)
                } else {
                    rejection(NOT_FOUND)
                },
            },
        }
    }
}

/// Every run ends in exactly one response, after at most three probes, and
/// that response is the one that is owed.
pub proof fn law_run_ends_in_owed_response(
    base: Seq<u8>,
    fs: Filesystem,
    method: Method,
    url: Seq<char>,
    remote: Option<Seq<char>>,
)
    ensures
        1 <= handle(base, fs, method, url, remote).len() <= 4,
        handle(base, fs, method, url, remote).last() is Respond,
        forall|i: int|
            0 <= i < handle(base, fs, method, url, remote).len() - 1 ==> is_probe(
                #[trigger] handle(base, fs, method, url, remote)[i],
            ),
        response_of(handle(base, fs, method, url, remote).last()) == owed(base, fs, method, url),
{
    reveal_with_fuel(run, 4);
}

/// The sandbox: a path is handed to the filesystem for anything but
/// canonicalization only if it lies below the base directory, and so is every
/// file whose content is sent or logged. What goes to canonicalization begins
/// with the bytes of the base directory and, read by its components before
/// any of them is resolved, lies below it.
pub proof fn law_probes_stay_below_base(
    base: Seq<u8>,
    fs: Filesystem,
    method: Method,
    url: Seq<char>,
    remote: Option<Seq<char>>,
    i: int,
)
    requires
        0 <= i < handle(base, fs, method, url, remote).len(),
    ensures
        match handle(base, fs, method, url, remote)[i] {
            ActionModel::Canonicalize(path) => {
                &&& base.is_prefix_of(path)
                &&& is_absolute(base) ==> is_within(base, path)
            },
            ActionModel::CheckDirectory(path) => is_within(base, path),
            ActionModel::Measure(path) => is_within(base, path),
            ActionModel::Open(path) => is_within(base, path),
            ActionModel::Respond { response, download } => {
                &&& response.body matches BodyModel::File(path) ==> is_within(base, path)
                &&& download matches Some(entry) ==> is_within(base, entry.file)
            },
        },
{
    reveal_with_fuel(run, 4);
    if let Some(text) = decoded_path(relative_part(request_path(encode_utf8(url)))) {
        lemma_joined_components(base, encode_utf8(text));
    }
}

/// `path` lies strictly below `base`: below it, and with at least one more
/// component.
pub open spec fn is_strictly_within(base: Seq<u8>, path: Seq<u8>) -> bool {
    is_within(base, path) && components(base).len() < components(path).len()
}

/// On a filesystem that knows the base directory as a directory, every file
/// that is measured, opened, sent or logged lies strictly below the base
/// directory: the base directory itself is never served.
pub proof fn law_served_files_lie_strictly_below_base(
    base: Seq<u8>,
    fs: Filesystem,
    method: Method,
    url: Seq<char>,
    remote: Option<Seq<char>>,
    i: int,
)
    requires
        forall|path: Seq<u8>| same_place(base, path) ==> #[trigger] (fs.is_directory)(path),
        0 <= i < handle(base, fs, method, url, remote).len(),
    ensures
        match handle(base, fs, method, url, remote)[i] {
            ActionModel::Measure(path) => is_strictly_within(base, path),
            ActionModel::Open(path) => is_strictly_within(base, path),
            ActionModel::Respond { response, download } => {
                &&& response.body matches BodyModel::File(path) ==> is_strictly_within(base, path)
                &&& download matches Some(entry) ==> is_strictly_within(base, entry.file)
            },
            _ => true,
        },
{
    reveal_with_fuel(run, 4);
    if let Some(text) = decoded_path(relative_part(request_path(encode_utf8(url)))) {
        if let Some(resolved) = (fs.canonical)(candidate_of(base, text)) {
            if is_within(base, resolved) && components(base).len() >= components(resolved).len() {
                assert(components(base) =~= components(resolved));
                assert(same_place(base, resolved));
            }
        }
    }
}

/// The transport takes every header of the response that a run ends in.
pub proof fn law_response_is_sendable(
    base: Seq<u8>,
    fs: Filesystem,
    method: Method,
    url: Seq<char>,
    remote: Option<Seq<char>>,
)
    ensures
        is_sendable(response_of(handle(base, fs, method, url, remote).last())),
{
    law_run_ends_in_owed_response(base, fs, method, url, remote);
    assert forall|status: u16| is_sendable(#[trigger] rejection(status)) by {
        lemma_responses_are_sendable(status, seq![], 0, seq![]);
    }
    if let Some(text) = decoded_path(relative_part(request_path(encode_utf8(url)))) {
        if let Some(resolved) = (fs.canonical)(candidate_of(base, text)) {
            let size = match (fs.size)(resolved) {
                Some(size) => size,
                None => 0,
            };
            lemma_responses_are_sendable(OK, download_name(resolved), size, resolved);
        }
    }
}

/// A method other than `GET` and `HEAD` is answered with 405 and an empty
/// body at once: the filesystem is not asked anything.
pub proof fn law_other_method_is_refused(
    base: Seq<u8>,
    fs: Filesystem,
    method: Method,
    url: Seq<char>,
    remote: Option<Seq<char>>,
)
    requires
        method != Method::Get,
        method != Method::Head,
    ensures
        handle(base, fs, method, url, remote) == seq![
            ActionModel::Respond { response: rejection(METHOD_NOT_ALLOWED), download: None },
        ],
        rejection(METHOD_NOT_ALLOWED).status == 405,
        rejection(METHOD_NOT_ALLOWED).body == BodyModel::Empty,
{
    reveal_with_fuel(run, 2);
}

/// A `GET` or `HEAD` for the empty path, for `/`, or for any path that ends
/// in `/` is answered with 403 at once, whatever is on disk.
pub proof fn law_directory_request_is_forbidden(
    base: Seq<u8>,
    fs: Filesystem,
    method: Method,
    url: Seq<char>,
    remote: Option<Seq<char>>,
)
    requires
        method == Method::Get || method == Method::Head,
        names_directory(request_path(encode_utf8(url))),
    ensures
        handle(base, fs, method, url, remote) == seq![
            ActionModel::Respond { response: rejection(FORBIDDEN), download: None },
        ],
        rejection(FORBIDDEN).status == 403,
{
    reveal_with_fuel(run, 2);
}

/// A `GET` or `HEAD` for a file path that holds the escape `%00` is answered
/// with 400 at once: the filesystem is not asked anything.
pub proof fn law_nul_escape_is_bad_request(
    base: Seq<u8>,
    fs: Filesystem,
    method: Method,
    url: Seq<char>,
    remote: Option<Seq<char>>,
    at: int,
)
    requires
        method == Method::Get || method == Method::Head,
        !names_directory(request_path(encode_utf8(url))),
        0 <= at,
        at + 3 <= request_path(encode_utf8(url)).len(),
        request_path(encode_utf8(url)).subrange(at, at + 3) == seq![0x25u8, 0x30u8, 0x30u8],
    ensures
        handle(base, fs, method, url, remote) == seq![
            ActionModel::Respond { response: rejection(BAD_REQUEST), download: None },
        ],
        rejection(BAD_REQUEST).status == 400,
{
    reveal_with_fuel(run, 2);
    let path = request_path(encode_utf8(url));
    let raw = relative_part(path);
    let found = path.subrange(at, at + 3);
    assert(found[0] == path[at] && found[1] == path[at + 1] && found[2] == path[at + 2]);
    lemma_count_leading_facts(path, SEPARATOR);
    let lead = path.len() - raw.len();
    assert(at >= lead) by {
        if at < lead {
            assert(path[at] == SEPARATOR);
        }
    }
    let tail = raw.subrange(at - lead, raw.len() as int);
    assert(tail[0] == path[at] && tail[1] == path[at + 1] && tail[2] == path[at + 2]);
    assert(begins_with_escape(tail));
    assert(escape_value(tail) == 0u8);
    lemma_escape_is_decoded(raw, at - lead);
}

/// A path that resolves to a place outside the base directory, through `..`
/// or through a symlink, is answered with 403 as soon as the filesystem has
/// said where it leads. Canonicalization is the only probe: no file is
/// measured or opened, and no content is sent.
pub proof fn law_escape_is_forbidden(
    base: Seq<u8>,
    fs: Filesystem,
    method: Method,
    url: Seq<char>,
    remote: Option<Seq<char>>,
    text: Seq<char>,
    resolved: Seq<u8>,
)
    requires
        accepted_text(method, url) == Some(text),
        (fs.canonical)(candidate_of(base, text)) == Some(resolved),
        !is_within(base, resolved),
    ensures
        handle(base, fs, method, url, remote) == seq![
            ActionModel::Canonicalize(candidate_of(base, text)),
            ActionModel::Respond { response: rejection(FORBIDDEN), download: None },
        ],
        rejection(FORBIDDEN).status == 403,
        rejection(FORBIDDEN).body == BodyModel::Empty,
{
    reveal_with_fuel(run, 3);
    assert(handle(base, fs, method, url, remote) =~= seq![
        ActionModel::Canonicalize(candidate_of(base, text)),
        ActionModel::Respond { response: rejection(FORBIDDEN), download: None },
    ]);
}

/// A `GET` for a path that resolves to a file below the base directory, which
/// is no directory and can be opened, is answered with 200, the content of
/// the resolved file, and a `Content-Disposition` header made from the last
/// component of the resolved path: nothing of the request path is echoed.
/// Where that component is ASCII text, the header names it as it stands.
pub proof fn law_get_serves_resolved_file(
    base: Seq<u8>,
    fs: Filesystem,
    url: Seq<char>,
    remote: Option<Seq<char>>,
    text: Seq<char>,
    resolved: Seq<u8>,
)
    requires
        accepted_text(Method::Get, url) == Some(text),
        (fs.canonical)(candidate_of(base, text)) == Some(resolved),
        is_within(base, resolved),
        !(fs.is_directory)(resolved),
        (fs.opens)(resolved),
    ensures
        handle(base, fs, Method::Get, url, remote) == seq![
            ActionModel::Canonicalize(candidate_of(base, text)),
            ActionModel::CheckDirectory(resolved),
            ActionModel::Open(resolved),
            ActionModel::Respond {
                response: ResponseModel {
                    status: 200,
                    headers: seq![disposition_header(download_name(resolved))],
                    body: BodyModel::File(resolved),
                },
                download: Some(
                    DownloadModel { remote: remote_or_unknown(remote), file: resolved },
                ),
            },
        ],
        forall|name: Seq<u8>|
            file_name_of(resolved) == Some(name) && valid_utf8(name) && is_ascii_chars(
                decode_utf8(name),
            ) ==> disposition_header(download_name(resolved)) == (HeaderModel {
                field: "Content-Disposition"@,
                value: "attachment; filename=\""@ + decode_utf8(name) + "\""@,
            }),
{
    reveal_with_fuel(run, 4);
    lemma_disposition_names_ascii(download_name(resolved));
    assert(handle(base, fs, Method::Get, url, remote) =~= seq![
        ActionModel::Canonicalize(candidate_of(base, text)),
        ActionModel::CheckDirectory(resolved),
        ActionModel::Open(resolved),
        ActionModel::Respond {
            response: download(download_name(resolved), resolved),
            download: Some(DownloadModel { remote: remote_or_unknown(remote), file: resolved }),
        },
    ]);
}

/// `HEAD` and `GET` for the same path, on a filesystem that holds a file
/// there, get the same status and the same `Content-Disposition` header.
/// `HEAD` gets no body, and a `Content-Length` header with the size of the
/// file whose content `GET` gets.
pub proof fn law_head_agrees_with_get(
    base: Seq<u8>,
    fs: Filesystem,
    url: Seq<char>,
    remote: Option<Seq<char>>,
    text: Seq<char>,
    resolved: Seq<u8>,
    size: u64,
)
    requires
        accepted_text(Method::Get, url) == Some(text),
        (fs.canonical)(candidate_of(base, text)) == Some(resolved),
        is_within(base, resolved),
        !(fs.is_directory)(resolved),
        (fs.opens)(resolved),
        (fs.size)(resolved) == Some(size),
    ensures
        ({
            let head = response_of(handle(base, fs, Method::Head, url, remote).last());
            let get = response_of(handle(base, fs, Method::Get, url, remote).last());
            &&& head.status == 200
            &&& get.status == 200
            &&& head.headers.len() == 2
            &&& get.headers.len() == 1
            &&& head.headers[0] == get.headers[0]
            &&& head.headers[0] == disposition_header(download_name(resolved))
            &&& head.headers[1] == length_header(size)
            &&& head.body == BodyModel::Empty
            &&& get.body == BodyModel::File(resolved)
        }),
{
    reveal_with_fuel(run, 4);
}

} // verus!
