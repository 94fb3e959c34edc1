//! The control protocol: requests, responses and their framing in lines.

use vstd::prelude::*;
use vstd::string::StringSliceAdditionalSpecFns;

use crate::state::{RuntimeState, RuntimeStateView};
use crate::text;

verus! {

/// The most bytes that a request line may have.
pub const MAX_REQUEST_BYTES: usize = 16384;

/// What a client asks of the daemon.
#[derive(Clone, Copy, Debug, PartialEq, Eq, Structural)]
pub enum Request {
    Apply,
    Status,
    Logs,
}

/// One event of the daemon.
#[derive(Debug, PartialEq, Eq)]
pub struct LogEvent {
    pub timestamp_unix: u64,
    pub level: String,
    pub message: String,
}

#[verifier::ext_equal]
pub struct LogEventView {
    pub timestamp_unix: u64,
    pub level: Seq<char>,
    pub message: Seq<char>,
}

impl View for LogEvent {
    type V = LogEventView;

    open spec fn view(&self) -> LogEventView {
        LogEventView {
            timestamp_unix: self.timestamp_unix,
            level: self.level@,
            message: self.message@,
        }
    }
}

impl Clone for LogEvent {
    fn clone(&self) -> (r: Self)
        ensures
            r == *self,
    {
        LogEvent {
            timestamp_unix: self.timestamp_unix,
            level: self.level.clone(),
            message: self.message.clone(),
        }
    }
}

/// The models of a list of events.
pub open spec fn event_views(v: Seq<LogEvent>) -> Seq<LogEventView> {
    v.map_values(|e: LogEvent| e@)
}

/// The model of an optional event.
pub open spec fn option_event(e: Option<LogEvent>) -> Option<LogEventView> {
    match e {
        Some(e) => Some(e@),
        None => None,
    }
}

/// An event whose time is not set yet.
#[derive(Debug, PartialEq, Eq)]
pub struct Note {
    pub level: String,
    pub message: String,
}

#[verifier::ext_equal]
pub struct NoteView {
    pub level: Seq<char>,
    pub message: Seq<char>,
}

impl View for Note {
    type V = NoteView;

    open spec fn view(&self) -> NoteView {
        NoteView { level: self.level@, message: self.message@ }
    }
}

impl NoteView {
    /// The event at the time `now`.
    pub open spec fn at(self, now: u64) -> LogEventView {
        LogEventView { timestamp_unix: now, level: self.level, message: self.message }
    }
}

impl Note {
    /// The event at the time `now`.
    #[must_use]
    pub fn at(&self, now: u64) -> (r: LogEvent)
        ensures
            r@ == self@.at(now),
    {
        LogEvent {
            timestamp_unix: now,
            level: self.level.clone(),
            message: self.message.clone(),
        }
    }
}

/// The models of a list of notes.
pub open spec fn note_views(v: Seq<Note>) -> Seq<NoteView> {
    v.map_values(|n: Note| n@)
}

/// The model of an optional note.
pub open spec fn option_note(n: Option<Note>) -> Option<NoteView> {
    match n {
        Some(n) => Some(n@),
        None => None,
    }
}

/// The events of a list of notes, at the time `now`.
pub open spec fn events_at(v: Seq<NoteView>, now: u64) -> Seq<LogEventView> {
    v.map_values(|n: NoteView| n.at(now))
}

/// The events of a list of notes, at the time `now`.
pub fn stamp(notes: &Vec<Note>, now: u64) -> (r: Vec<LogEvent>)
    ensures
        event_views(r@) == events_at(note_views(notes@), now),
{
    let mut r: Vec<LogEvent> = Vec::new();
    let mut i: usize = 0;
    while i < notes.len()
        invariant
            i <= notes.len(),
            r@.len() == i,
            forall|j: int| 0 <= j < i ==> (#[trigger] r@[j])@ == notes@[j]@.at(now),
        decreases notes.len() - i,
    {
        r.push(notes[i].at(now));
        i = i + 1;
    }
    proof {
        assert(event_views(r@) =~= events_at(note_views(notes@), now));
    }
    r
}

/// The daemon's answer to a request.
#[derive(Debug, PartialEq, Eq)]
pub struct Response {
    pub ok: bool,
    pub message: String,
    pub state: Option<RuntimeState>,
    pub logs: Option<Vec<LogEvent>>,
}

#[verifier::ext_equal]
pub struct ResponseView {
    pub ok: bool,
    pub message: Seq<char>,
    pub state: Option<RuntimeStateView>,
    pub logs: Option<Seq<LogEventView>>,
}

impl View for Response {
    type V = ResponseView;

    open spec fn view(&self) -> ResponseView {
        ResponseView {
            ok: self.ok,
            message: self.message@,
            state: match self.state {
                Some(s) => Some(s@),
                None => None,
            },
            logs: match self.logs {
                Some(l) => Some(event_views(l@)),
                None => None,
            },
        }
    }
}

impl ResponseView {
    /// A response that carries only whether the request was met and a message.
    pub open spec fn plain(ok: bool, message: Seq<char>) -> ResponseView {
        ResponseView { ok, message, state: None, logs: None }
    }
}

impl Response {
    /// The response to a request that was met.
    #[must_use]
    pub fn success(message: String) -> (r: Self)
        ensures
            r@ == ResponseView::plain(true, message@),
    {
        Response { ok: true, message, state: None, logs: None }
    }

    /// The response to a request that was refused.
    #[must_use]
    pub fn failure(message: String) -> (r: Self)
        ensures
            r@ == ResponseView::plain(false, message@),
    {
        Response { ok: false, message, state: None, logs: None }
    }
}

/// A request line has an acceptable length: it is not empty and no longer than
/// [`MAX_REQUEST_BYTES`] bytes.
pub open spec fn acceptable_length(line: &str) -> bool {
    0 < line.spec_bytes().len() as usize <= MAX_REQUEST_BYTES
}

/// Takes a line that was read from a client and returns its JSON payload.
pub fn receive_request(line: &str) -> (r: Result<String, String>)
    ensures
        acceptable_length(line) ==> (r matches Ok(payload) && payload@ == text::trim_end(line@)),
        !acceptable_length(line) ==> (r matches Err(e) && e@
            == "invalid control request length"@),
{
    let count = line.len();
    if count == 0 || count > MAX_REQUEST_BYTES {
        return Err("invalid control request length".to_owned());
    }
    Ok(payload_of(line))
}

/// Takes the outcome of parsing a payload.
pub fn decode_request(parsed: Result<Request, String>) -> (r: Result<Request, String>)
    ensures
        match parsed {
            Ok(request) => r == Ok::<Request, String>(request),
            Err(_) => r matches Err(e) && e@ == "invalid control request JSON"@,
        },
{
    match parsed {
        Ok(request) => Ok(request),
        Err(_) => Err("invalid control request JSON".to_owned()),
    }
}

/// The JSON payload of a line.
pub fn payload_of(line: &str) -> (r: String)
    ensures
        r@ == text::trim_end(line@),
{
    text::string_of(&text::trim_end_chars(text::chars_of(line)))
}

/// The line that carries `encoded` over the socket.
pub fn frame_line(encoded: Vec<u8>) -> (r: Vec<u8>)
    ensures
        r@ == encoded@.push(10),
{
    let mut line = encoded;
    line.push(10);
    line
}

/// Takes the daemon's response to a call; a refused request is an error.
pub fn accept_response(response: Response) -> (r: Result<Response, String>)
    ensures
        response.ok ==> r == Ok::<Response, String>(response),
        !response.ok ==> (r matches Err(e) && e@ == "daemon rejected request: "@
            + response.message@),
{
    if response.ok {
        Ok(response)
    } else {
        Err("daemon rejected request: ".to_owned().concat(response.message.as_str()))
    }
}

/// What stands at the path of the control socket.
#[derive(Debug, PartialEq, Eq)]
pub enum SocketPath {
    Missing,
    Socket,
    SomethingElse,
    /// It cannot be looked at.
    Unknown { error: String },
}

/// Decides how the control socket is bound: a stale socket is removed first, which the
/// result tells, and nothing else is replaced.
pub fn bind_socket(path: &str, found: SocketPath) -> (r: Result<bool, String>)
    ensures
        match found {
            SocketPath::Missing => r == Ok::<bool, String>(false),
            SocketPath::Socket => r == Ok::<bool, String>(true),
            SocketPath::SomethingElse => r matches Err(e) && e@
                == "refusing to replace non-socket control path "@ + path@,
            SocketPath::Unknown { error } => r matches Err(e) && e@ == "cannot inspect socket "@
                + path@ + ": "@ + error@,
        },
{
    match found {
        SocketPath::Missing => Ok(false),
        SocketPath::Socket => Ok(true),
        SocketPath::SomethingElse => Err(
            "refusing to replace non-socket control path ".to_owned().concat(path),
        ),
        SocketPath::Unknown { error } => Err(
            "cannot inspect socket ".to_owned().concat(path).concat(": ").concat(error.as_str()),
        ),
    }
}

} // verus!
