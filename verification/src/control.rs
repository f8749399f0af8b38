//! The control session: who is logged in on a channel, and what a request
//! on it may do.

use crate::listdir::DirEntry;
use vstd::prelude::*;
use vstd::std_specs::convert::FromSpecImpl;

verus! {

/// A request on the control channel.
#[derive(Debug, PartialEq, Eq)]
pub enum Request {
    LoginPwd { username: String },
    Logout,
    ListDir { path: String },
    Download { path: String },
}

/// What the owner of the session is to do for a request that is in order.
#[derive(Debug, PartialEq, Eq)]
pub enum Action {
    /// Acknowledge: the session has done all there is to do.
    Acknowledge,
    /// List the directory at `path` and send the listing.
    ListDir { path: String },
    /// Issue a download link for `path` and send it.
    IssueDownload { path: String },
}

/// Why a request is not in order.
#[derive(Debug, Clone, Copy, PartialEq, Eq, Structural)]
pub enum ControlError {
    AlreadyLoggedIn,
    NotLoggedIn,
}

impl ControlError {
    /// The words that the client is told.
    pub open spec fn description(self) -> Seq<char> {
        match self {
            ControlError::AlreadyLoggedIn => "already logged in"@,
            ControlError::NotLoggedIn => "not logged in yet"@,
        }
    }

    pub fn describe(&self) -> (text: String)
        ensures
            text@ == self.description(),
    {
        match self {
            ControlError::AlreadyLoggedIn => "already logged in".to_owned(),
            ControlError::NotLoggedIn => "not logged in yet".to_owned(),
        }
    }
}

/// The user that a login gives. Passwords are not checked on this channel:
/// every login is this user's.
pub const DEFAULT_USER: u32 = 1;

/// What the request `req` gives for a session of `user`: the action and the
/// user afterwards, or the error, which leaves the user as it is.
pub open spec fn execute_outcome(user: Option<u32>, req: Request) -> (
    Result<Action, ControlError>,
    Option<u32>,
) {
    match req {
        Request::LoginPwd { .. } => if user is Some {
            (Err(ControlError::AlreadyLoggedIn), user)
        } else {
            (Ok(Action::Acknowledge), Some(DEFAULT_USER))
        },
        Request::Logout => if user is None {
            (Err(ControlError::NotLoggedIn), user)
        } else {
            (Ok(Action::Acknowledge), None)
        },
        Request::ListDir { path } => if user is None {
            (Err(ControlError::NotLoggedIn), user)
        } else {
            (Ok(Action::ListDir { path }), user)
        },
        Request::Download { path } => if user is None {
            (Err(ControlError::NotLoggedIn), user)
        } else {
            (Ok(Action::IssueDownload { path }), user)
        },
    }
}

/// The state of one control channel.
#[derive(Debug, PartialEq, Eq)]
pub struct Session {
    pub user_id: Option<u32>,
}

impl Session {
    /// A session in which nobody is logged in.
    pub fn new() -> (s: Session)
        ensures
            s.user_id is None,
    {
        Session { user_id: None }
    }

    /// Takes a request. Logging in needs a session without user; everything
    /// else needs one with a user.
    pub fn execute(&mut self, req: Request) -> (r: Result<Action, ControlError>)
        ensures
            (r, final(self).user_id) == execute_outcome(old(self).user_id, req),
    {
        match req {
            Request::LoginPwd { username } => {
                if self.user_id.is_some() {
                    return Err(ControlError::AlreadyLoggedIn);
                }
                self.user_id = Some(DEFAULT_USER);
                Ok(Action::Acknowledge)
            },
            Request::Logout => {
                if self.user_id.is_none() {
                    return Err(ControlError::NotLoggedIn);
                }
                self.user_id = None;
                Ok(Action::Acknowledge)
            },
            Request::ListDir { path } => {
                if self.user_id.is_none() {
                    return Err(ControlError::NotLoggedIn);
                }
                Ok(Action::ListDir { path })
            },
            Request::Download { path } => {
                if self.user_id.is_none() {
                    return Err(ControlError::NotLoggedIn);
                }
                Ok(Action::IssueDownload { path })
            },
        }
    }
}

/// What a request is answered with when it went well.
#[derive(Debug, PartialEq, Eq)]
pub enum Response {
    Empty,
    DirList { entries: Vec<DirEntry> },
    DownloadLink { uuid: String },
}

/// The acknowledgment of one request: the words of an error, or what was
/// done.
#[derive(Debug, PartialEq, Eq)]
pub struct JsonResponse {
    pub err: Option<String>,
    pub inner: Response,
}

/// The acknowledgment for an outcome: what was done, or the error alone.
pub open spec fn acknowledgment(value: Result<Response, String>) -> JsonResponse {
    match value {
        Ok(resp) => JsonResponse { err: None, inner: resp },
        Err(err) => JsonResponse { err: Some(err), inner: Response::Empty },
    }
}

impl From<Result<Response, String>> for JsonResponse {
    fn from(value: Result<Response, String>) -> (r: JsonResponse) {
        match value {
            Ok(resp) => JsonResponse { err: None, inner: resp },
            Err(err) => JsonResponse { err: Some(err), inner: Response::Empty },
        }
    }
}

impl FromSpecImpl<Result<Response, String>> for JsonResponse {
    open spec fn obeys_from_spec() -> bool {
        true
    }

    open spec fn from_spec(value: Result<Response, String>) -> JsonResponse {
        acknowledgment(value)
    }
}

/// A frame of the control channel, as the session sees it.
#[derive(Debug, PartialEq, Eq)]
pub enum Frame {
    /// A text frame that was read as a request.
    Control(Request),
    /// A text frame that could not be read as a request; the text says why.
    Malformed(String),
    Pong,
    /// Any other frame that the channel delivers.
    Other,
    /// The channel failed.
    TransportError,
}

/// What the owner of the session is to do after a frame.
#[derive(Debug, PartialEq, Eq)]
pub enum Step {
    /// Send the acknowledgment.
    Reply(JsonResponse),
    /// Do what the request asks for, then send what came of it.
    Perform(Action),
    /// Nothing: wait for the next frame.
    Nothing,
    /// Stop: close the channel.
    Close,
}

/// Whether `step` and the user afterwards are what the frame `frame` gives
/// for a session of `user`.
pub open spec fn is_step(user: Option<u32>, frame: Frame, step: Step, after: Option<u32>) -> bool {
    match frame {
        Frame::TransportError => step == Step::Close && after == user,
        Frame::Pong => step == Step::Nothing && after == user,
        Frame::Other => step == Step::Nothing && after == user,
        Frame::Malformed(text) => step == Step::Reply(acknowledgment(Err(text))) && after == user,
        Frame::Control(req) => {
            &&& after == execute_outcome(user, req).1
            &&& match execute_outcome(user, req).0 {
                Ok(Action::Acknowledge) => step == Step::Reply(acknowledgment(Ok(Response::Empty))),
                Ok(action) => step == Step::Perform(action),
                Err(e) => {
                    &&& step matches Step::Reply(ack)
                    &&& ack.inner == Response::Empty
                    &&& ack.err matches Some(text)
                    &&& text@ == e.description()
                },
            }
        },
    }
}

impl Session {
    /// Takes the next frame of the channel and says what is to be done.
    pub fn on_frame(&mut self, frame: Frame) -> (step: Step)
        ensures
            is_step(old(self).user_id, frame, step, final(self).user_id),
    {
        match frame {
            Frame::TransportError => Step::Close,
            Frame::Pong => Step::Nothing,
            Frame::Other => Step::Nothing,
            Frame::Malformed(text) => Step::Reply(JsonResponse::from(Err(text))),
            Frame::Control(req) => match self.execute(req) {
                Ok(Action::Acknowledge) => Step::Reply(JsonResponse::from(Ok(Response::Empty))),
                Ok(action) => Step::Perform(action),
                Err(e) => Step::Reply(JsonResponse::from(Err(e.describe()))),
            },
        }
    }
}

} // verus!
