use vstd::prelude::*;

verus! {

/// A request as it travels: the client's id for it and its content.
#[derive(Clone, Debug, PartialEq, Eq)]
pub struct Request<A> {
    pub id: u64,
    pub content: A,
}

/// A response as it travels: the id of the request it answers and the outcome.
#[derive(Debug, PartialEq, Eq)]
pub struct Response<B> {
    pub for_id: u64,
    pub result: Result<B, String>,
}

/// What a worker got from one read of its client's stream.
#[derive(Clone, Debug, PartialEq, Eq)]
pub enum Incoming<A> {
    /// The read failed.
    ReadFailed,
    /// The client closed the stream.
    Closed,
    /// A whole request was decoded.
    Parsed(Request<A>),
    /// The content could not be decoded, but the envelope's id could.
    IdOnly { id: u64, error: String },
    /// Not even the id could be decoded.
    Unparsable,
}

/// What a worker does about it.
#[derive(Clone, Debug, PartialEq, Eq)]
pub enum ServeAction<A> {
    /// Pause this many milliseconds, then read again.
    Pause { ms: u64 },
    /// Stop serving this client.
    Close,
    /// Hand the content to the dispatcher and answer request `id` with its result.
    Dispatch(Request<A>),
    /// Answer request `for_id` with this error.
    Reject { for_id: u64, error: String },
}

/// Pause after a failed read, before reading again.
pub const READ_RETRY_MS: u64 = 5000;

/// Pause after a frame that could not be answered, or a failed write.
pub const SHORT_PAUSE_MS: u64 = 100;

pub open spec fn serve_action_of<A>(event: Incoming<A>) -> ServeAction<A> {
    match event {
        Incoming::ReadFailed => ServeAction::Pause { ms: READ_RETRY_MS },
        Incoming::Closed => ServeAction::Close,
        Incoming::Parsed(req) => ServeAction::Dispatch(req),
        Incoming::IdOnly { id, error } => ServeAction::Reject { for_id: id, error },
        Incoming::Unparsable => ServeAction::Pause { ms: SHORT_PAUSE_MS },
    }
}

/// Decides what a worker does with one read of its client's stream: a
/// failed read is retried after a long pause, the end of the stream ends the
/// worker, a request is dispatched, a request whose id could be recovered is
/// answered with the decoding error, and anything else is dropped.
pub fn on_incoming<A>(event: Incoming<A>) -> (r: ServeAction<A>)
    ensures
        r == serve_action_of(event),
{
    match event {
        Incoming::ReadFailed => ServeAction::Pause { ms: READ_RETRY_MS },
        Incoming::Closed => ServeAction::Close,
        Incoming::Parsed(req) => ServeAction::Dispatch(req),
        Incoming::IdOnly { id, error } => ServeAction::Reject { for_id: id, error },
        Incoming::Unparsable => ServeAction::Pause { ms: SHORT_PAUSE_MS },
    }
}

/// The `id` member of `message` as serde_json reads it: none unless the text
/// is one JSON object whose `id` is an integer that fits a `u64`.
pub uninterp spec fn envelope_id(message: Seq<char>) -> Option<u64>;

/// Relies on serde_json::from_str into a serde_json::Value, Value::get and
/// Value::as_u64: the outcome depends on the text alone.
#[verifier::external_body]
fn read_envelope_id(message: &str) -> (r: Option<u64>)
    ensures
        r == envelope_id(message@),
{
    match serde_json::from_str::<serde_json::Value>(message) {
        Ok(v) => match v.get("id") {
            Some(id) => id.as_u64(),
            None => None,
        },
        Err(_) => None,
    }
}

/// A frame whose request could not be decoded, `error` saying why, from the
/// id that could still be read from it, if any.
pub fn incoming_from_id<A>(id: Option<u64>, error: String) -> (r: Incoming<A>)
    ensures
        r == match id {
            Some(i) => Incoming::<A>::IdOnly { id: i, error },
            None => Incoming::<A>::Unparsable,
        },
{
    match id {
        Some(i) => Incoming::IdOnly { id: i, error },
        None => Incoming::Unparsable,
    }
}

/// Classifies the frame `message`, whose request could not be decoded.
pub fn undecodable<A>(message: &str, error: String) -> (r: Incoming<A>)
    ensures
        r == match envelope_id(message@) {
            Some(i) => Incoming::<A>::IdOnly { id: i, error },
            None => Incoming::<A>::Unparsable,
        },
{
    incoming_from_id(read_envelope_id(message), error)
}

/// The response to a dispatched request.
pub fn answer<B>(req_id: u64, outcome: B) -> (r: Response<B>)
    ensures
        r.for_id == req_id,
        r.result == Ok::<B, String>(outcome),
{
    Response { for_id: req_id, result: Ok(outcome) }
}

/// The response to a request whose content could not be decoded.
pub fn reject<B>(for_id: u64, error: String) -> (r: Response<B>)
    ensures
        r.for_id == for_id,
        r.result == Err::<B, String>(error),
{
    Response { for_id, result: Err(error) }
}

/// One frame on the wire: the encoded message and a newline.
pub fn frame(encoded: &Vec<u8>) -> (r: Vec<u8>)
    ensures
        r@ == encoded@.push(10u8),
{
    let mut r: Vec<u8> = Vec::new();
    let mut i: usize = 0;
    while i < encoded.len()
        invariant
            i <= encoded.len(),
            r@ == encoded@.subrange(0, i as int),
        decreases encoded.len() - i,
    {
        r.push(encoded[i]);
        i = i + 1;
        assert(r@ =~= encoded@.subrange(0, i as int));
    }
    assert(encoded@.subrange(0, i as int) =~= encoded@);
    r.push(10u8);
    r
}

/// Why binding the socket failed.
#[derive(Clone, Copy, Debug, PartialEq, Eq)]
pub enum BindError {
    AddrInUse,
    Other,
}

#[derive(Clone, Copy, Debug, PartialEq, Eq)]
pub enum BindAction {
    /// Remove the stale socket file and bind again.
    UnlinkAndRetry,
    /// Give up: the failure is fatal.
    Fail,
}

/// After a failed bind, the number of earlier retries being `retries`: a
/// socket path already in use is unlinked and bound once more; anything
/// else, or a second failure, is fatal.
pub fn on_bind_error(err: BindError, retries: u32) -> (r: BindAction)
    ensures
        r == (if err == BindError::AddrInUse && retries == 0 {
            BindAction::UnlinkAndRetry
        } else {
            BindAction::Fail
        }),
{
    match err {
        BindError::AddrInUse => if retries == 0 {
            BindAction::UnlinkAndRetry
        } else {
            BindAction::Fail
        },
        BindError::Other => BindAction::Fail,
    }
}

/// What `start` does before it forks, given whether a daemon already answers
/// on the socket and whether the socket file exists.
#[derive(Clone, Copy, Debug, PartialEq, Eq)]
pub enum StartPlan {
    /// A daemon answers and the caller said to ignore that: do nothing.
    AlreadyRunning,
    /// A daemon answers: report it as an error.
    RefuseRunning,
    /// No daemon answers but a stale socket file remains: remove it, then start.
    RemoveStaleAndStart,
    /// Start.
    Start,
}

pub fn plan_start(answering: bool, socket_exists: bool, ignore_started: bool) -> (r: StartPlan)
    ensures
        answering && ignore_started ==> r == StartPlan::AlreadyRunning,
        answering && !ignore_started ==> r == StartPlan::RefuseRunning,
        !answering && socket_exists ==> r == StartPlan::RemoveStaleAndStart,
        !answering && !socket_exists ==> r == StartPlan::Start,
{
    if answering {
        if ignore_started {
            StartPlan::AlreadyRunning
        } else {
            StartPlan::RefuseRunning
        }
    } else if socket_exists {
        StartPlan::RemoveStaleAndStart
    } else {
        StartPlan::Start
    }
}

/// How long the parent of a starting daemon waits for it, in polls.
pub const STARTUP_POLLS: u32 = 200;

/// Pause between two polls of the parent, in milliseconds.
pub const STARTUP_POLL_MS: u64 = 50;

#[derive(Clone, Copy, Debug, PartialEq, Eq)]
pub enum ProbeAction {
    /// The socket is not there yet: poll again after a pause.
    Wait,
    /// The socket is there: send `hello` and report how it went.
    Probe,
    /// The daemon did not show up in time.
    GiveUp,
}

/// One poll of the parent's wait for its daemon, `polls` polls having been
/// made before.
pub fn startup_poll(socket_exists: bool, polls: u32) -> (r: ProbeAction)
    ensures
        socket_exists ==> r == ProbeAction::Probe,
        !socket_exists && polls < STARTUP_POLLS ==> r == ProbeAction::Wait,
        !socket_exists && polls >= STARTUP_POLLS ==> r == ProbeAction::GiveUp,
{
    if socket_exists {
        ProbeAction::Probe
    } else if polls < STARTUP_POLLS {
        ProbeAction::Wait
    } else {
        ProbeAction::GiveUp
    }
}

} // verus!
